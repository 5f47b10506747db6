use overworld_core::geometry::Position;
use overworld_core::player::camera_follow;
use overworld_core::player::hits_wall;
use overworld_core::player::player_encounter_checking;
use overworld_core::player::player_movement;
use overworld_core::player::protect_for;
use overworld_core::player::set_encounter_timer;
use overworld_core::player::spawn_player;
use overworld_core::player::stands_in_zone;
use overworld_core::player::stride_of;
use overworld_core::player::wall_collision_check;
use overworld_core::player::Keys;
use overworld_core::player::Player;
use overworld_core::player::VulnerabilityTimer;
use overworld_core::tilemap::EncounterSpawner;
use overworld_core::tilemap::TileCollider;
use overworld_core::timer::Countdown;
use overworld_core::MAXPROTECT;
use overworld_core::MINPROTECT;
use overworld_core::PLAYERSPEED;

const NO_KEYS: Keys = Keys { up: false, down: false, left: false, right: false, sprint: false };

/// At a speed of one tile per second the player walks one length unit per
/// microsecond.
const SPEED: u32 = 1_000;
const MICROSECOND: u64 = 1_000;

fn at(x: i64, y: i64) -> Position {
    Position { x, y }
}

fn wall(x: i64, y: i64) -> TileCollider {
    TileCollider { position: at(x, y) }
}

fn zone(x: i64, y: i64) -> EncounterSpawner {
    EncounterSpawner { position: at(x, y) }
}

fn walker() -> Player {
    Player { speed: SPEED, just_moved: false }
}

fn walk(from: Position, walls: &Vec<TileCollider>, keys: Keys, way: u64) -> (Player, Position) {
    let mut player = walker();
    let mut position = from;
    player_movement(&mut player, &mut position, walls, &keys, way * MICROSECOND);
    (player, position)
}

#[test]
fn player_starts_two_tiles_in_and_two_tiles_down() {
    let (player, position) = spawn_player();
    assert_eq!(player, Player { speed: 2_500, just_moved: false });
    assert_eq!(position, at(2_000_000, -2_000_000));
}

#[test]
fn stride_is_speed_times_time() {
    assert_eq!(stride_of(PLAYERSPEED, 1_000_000_000, false), 2_500_000);
    assert_eq!(stride_of(PLAYERSPEED, 16_666_667, false), 41_666);
    assert_eq!(stride_of(1_000, 1_000, false), 1);
    assert_eq!(stride_of(1_000, 999, false), 0);
    assert_eq!(stride_of(0, 1_000_000_000, false), 0);
    assert_eq!(stride_of(PLAYERSPEED, 0, true), 0);
}

#[test]
fn sprinting_doubles_the_stride() {
    assert_eq!(stride_of(PLAYERSPEED, 1_000_000_000, true), 5_000_000);
    assert_eq!(stride_of(PLAYERSPEED, 16_666_667, true), 83_333);
    assert_eq!(stride_of(1_000, 500, true), 1);
}

#[test]
fn stride_is_held_at_the_end_of_the_range() {
    assert_eq!(stride_of(u32::MAX, u64::MAX, true), i64::MAX);
    assert_eq!(stride_of(1_000, u64::MAX, false), 18_446_744_073_709_551);
}

#[test]
fn player_overlaps_a_tile_less_than_ninety_five_hundredths_of_a_tile_away() {
    assert!(wall_collision_check(at(0, 0), at(949_999, 0)));
    assert!(!wall_collision_check(at(0, 0), at(950_000, 0)));
    assert!(wall_collision_check(at(0, 0), at(-949_999, 949_999)));
    assert!(!wall_collision_check(at(0, 0), at(0, -950_000)));
    assert!(!wall_collision_check(at(0, 0), at(949_999, 950_000)));
}

#[test]
fn hits_wall_looks_at_every_wall() {
    let walls = vec![wall(5_000_000, 0), wall(0, 5_000_000), wall(900_000, 0)];
    assert!(hits_wall(at(0, 0), &walls));
    assert!(hits_wall(at(0, 4_100_000), &walls));
    assert!(!hits_wall(at(-100_000, 0), &walls));
    assert!(!hits_wall(at(0, 0), &Vec::new()));
}

#[test]
fn stands_in_zone_looks_at_every_zone() {
    let zones = vec![zone(5_000_000, 0), zone(0, 900_000)];
    assert!(stands_in_zone(at(0, 0), &zones));
    assert!(stands_in_zone(at(4_500_000, 500_000), &zones));
    assert!(!stands_in_zone(at(2_500_000, 0), &zones));
    assert!(!stands_in_zone(at(0, 0), &Vec::new()));
}

#[test]
fn keys_move_the_player_along_their_axes() {
    let walls = Vec::new();
    assert_eq!(walk(at(0, 0), &walls, Keys { up: true, ..NO_KEYS }, 7).1, at(0, 7));
    assert_eq!(walk(at(0, 0), &walls, Keys { down: true, ..NO_KEYS }, 7).1, at(0, -7));
    assert_eq!(walk(at(0, 0), &walls, Keys { left: true, ..NO_KEYS }, 7).1, at(-7, 0));
    assert_eq!(walk(at(0, 0), &walls, Keys { right: true, ..NO_KEYS }, 7).1, at(7, 0));
    assert_eq!(
        walk(at(1, 1), &walls, Keys { right: true, down: true, sprint: true, ..NO_KEYS }, 7).1,
        at(15, -13)
    );
}

#[test]
fn opposite_keys_cancel() {
    let (player, position) =
        walk(at(3, 4), &Vec::new(), Keys { up: true, down: true, left: true, right: true, sprint: false }, 9);
    assert_eq!(position, at(3, 4));
    assert!(!player.just_moved);
}

#[test]
fn no_keys_no_move() {
    let (player, position) = walk(at(3, 4), &Vec::new(), NO_KEYS, 9);
    assert_eq!(position, at(3, 4));
    assert!(!player.just_moved);
}

#[test]
fn movement_keeps_the_speed_and_clears_just_moved() {
    let mut player = Player { speed: 123, just_moved: true };
    let mut position = at(0, 0);
    player_movement(&mut player, &mut position, &Vec::new(), &NO_KEYS, 1_000_000);
    assert_eq!(player, Player { speed: 123, just_moved: false });
}

#[test]
fn move_into_a_wall_is_rejected() {
    let walls = vec![wall(1_000_000, 0)];
    let (player, position) = walk(at(0, 0), &walls, Keys { right: true, ..NO_KEYS }, 50_001);
    assert_eq!(position, at(0, 0));
    assert!(!player.just_moved);
}

#[test]
fn move_up_to_a_wall_is_accepted() {
    let walls = vec![wall(1_000_000, 0)];
    let (player, position) = walk(at(0, 0), &walls, Keys { right: true, ..NO_KEYS }, 50_000);
    assert_eq!(position, at(50_000, 0));
    assert!(player.just_moved);
    assert!(!hits_wall(position, &walls));
}

#[test]
fn wall_along_x_leaves_the_move_along_y() {
    let walls = vec![wall(1_000_000, 0)];
    let (player, position) =
        walk(at(0, 0), &walls, Keys { right: true, up: true, ..NO_KEYS }, 100_000);
    assert_eq!(position, at(0, 100_000));
    assert!(player.just_moved);
}

#[test]
fn wall_along_y_leaves_the_move_along_x() {
    let walls = vec![wall(0, -1_000_000)];
    let (player, position) =
        walk(at(0, 0), &walls, Keys { right: true, down: true, ..NO_KEYS }, 100_000);
    assert_eq!(position, at(100_000, 0));
    assert!(player.just_moved);
}

#[test]
fn move_along_y_starts_where_the_move_along_x_ended() {
    // From the start the way up is open; from where the move to the right
    // ends a wall is in the way.
    let walls = vec![wall(1_000_000, 1_000_000)];
    let (_, position) =
        walk(at(0, 0), &walls, Keys { right: true, up: true, ..NO_KEYS }, 100_000);
    assert_eq!(position, at(100_000, 0));
    let (_, position) = walk(at(0, 0), &walls, Keys { up: true, ..NO_KEYS }, 100_000);
    assert_eq!(position, at(0, 100_000));
}

#[test]
fn walls_on_both_axes_stop_the_player() {
    let walls = vec![wall(1_000_000, 0), wall(0, 1_000_000)];
    let (player, position) =
        walk(at(0, 0), &walls, Keys { right: true, up: true, ..NO_KEYS }, 100_000);
    assert_eq!(position, at(0, 0));
    assert!(!player.just_moved);
}

#[test]
fn player_inside_a_wall_cannot_even_stand() {
    let walls = vec![wall(0, 0)];
    let (player, position) = walk(at(0, 0), &walls, Keys { right: true, ..NO_KEYS }, 100);
    assert_eq!(position, at(0, 0));
    assert!(!player.just_moved);
}

#[test]
fn player_clear_of_walls_stays_clear() {
    let walls = vec![wall(1_000_000, 0), wall(0, 1_000_000), wall(-1_000_000, -1_000_000)];
    let mut player = walker();
    let mut position = at(0, 0);
    let keys = [
        Keys { right: true, ..NO_KEYS },
        Keys { up: true, right: true, ..NO_KEYS },
        Keys { left: true, down: true, sprint: true, ..NO_KEYS },
        Keys { down: true, ..NO_KEYS },
        Keys { left: true, sprint: true, ..NO_KEYS },
    ];
    for round in 0..200 {
        player_movement(&mut player, &mut position, &walls, &keys[round % 5], 30_000_000);
        assert!(!hits_wall(position, &walls));
    }
}

#[test]
fn move_is_held_at_the_end_of_the_range() {
    let mut player = Player { speed: u32::MAX, just_moved: false };
    let mut position = at(i64::MAX - 5, i64::MIN + 5);
    player_movement(
        &mut player,
        &mut position,
        &Vec::new(),
        &Keys { right: true, down: true, sprint: true, ..NO_KEYS },
        u64::MAX,
    );
    assert_eq!(position, at(i64::MAX, i64::MIN));
    assert!(player.just_moved);
}

#[test]
fn camera_goes_where_the_player_is() {
    let mut camera = at(1, 2);
    camera_follow(at(-30, 40), &mut camera);
    assert_eq!(camera, at(-30, 40));
}

#[test]
fn protection_restarts_the_countdown_with_the_duration() {
    let mut timer = VulnerabilityTimer(Countdown {
        elapsed: 7,
        duration: 7,
        finished: true,
        just_finished: true,
    });
    protect_for(&mut timer, 99);
    assert_eq!(
        timer.0,
        Countdown { elapsed: 0, duration: 99, finished: false, just_finished: false }
    );
}

#[test]
fn protection_is_drawn_between_its_bounds() {
    let mut seen = std::collections::BTreeSet::new();
    for _ in 0..200 {
        let mut timer = VulnerabilityTimer(Countdown {
            elapsed: 3,
            duration: 5,
            finished: true,
            just_finished: false,
        });
        set_encounter_timer(&mut timer);
        assert!(MINPROTECT <= timer.0.duration && timer.0.duration <= MAXPROTECT);
        assert_eq!(timer.0.elapsed, 0);
        assert!(!timer.0.finished);
        assert!(!timer.0.just_finished);
        seen.insert(timer.0.duration);
    }
    assert!(seen.len() > 1);
}

fn check(
    moved: bool,
    position: Position,
    timer: &mut VulnerabilityTimer,
    delta: u64,
) -> bool {
    let player = Player { speed: SPEED, just_moved: moved };
    player_encounter_checking(&player, position, &vec![zone(0, 0)], timer, delta)
}

#[test]
fn encounter_starts_when_the_countdown_runs_out_on_a_move_in_a_zone() {
    let mut timer = VulnerabilityTimer(Countdown::new(100));
    assert!(!check(true, at(0, 0), &mut timer, 60));
    assert!(check(true, at(0, 0), &mut timer, 40));
    assert_eq!(
        timer.0,
        Countdown { elapsed: 100, duration: 100, finished: true, just_finished: true }
    );
}

#[test]
fn encounter_does_not_start_again_while_the_countdown_stays_run_out() {
    let mut timer = VulnerabilityTimer(Countdown::new(100));
    assert!(check(true, at(0, 0), &mut timer, 100));
    for _ in 0..50 {
        assert!(!check(true, at(0, 0), &mut timer, 100));
    }
}

#[test]
fn standing_in_a_zone_starts_no_encounter() {
    let mut timer = VulnerabilityTimer(Countdown::new(100));
    for _ in 0..50 {
        assert!(!check(false, at(0, 0), &mut timer, 10));
    }
    assert!(timer.0.finished);
}

#[test]
fn moving_outside_the_zones_starts_no_encounter() {
    let mut timer = VulnerabilityTimer(Countdown::new(100));
    assert!(!check(true, at(950_000, 0), &mut timer, 100));
    assert!(timer.0.just_finished);
}

#[test]
fn countdown_runs_in_every_frame() {
    let mut timer = VulnerabilityTimer(Countdown::new(100));
    assert!(!check(false, at(5_000_000, 0), &mut timer, 30));
    assert_eq!(timer.0.elapsed, 30);
    assert!(!check(true, at(5_000_000, 0), &mut timer, 30));
    assert_eq!(timer.0.elapsed, 60);
    assert!(!check(false, at(0, 0), &mut timer, 30));
    assert_eq!(timer.0.elapsed, 90);
    assert!(check(true, at(0, 0), &mut timer, 30));
}

#[test]
fn countdown_without_time_left_starts_an_encounter_with_the_first_move_in_a_zone() {
    let mut timer = VulnerabilityTimer(Countdown::new(0));
    assert!(check(true, at(0, 0), &mut timer, 0));
    assert!(!check(true, at(0, 0), &mut timer, 0));
}

#[test]
fn new_protection_lets_an_encounter_start_again() {
    let mut timer = VulnerabilityTimer(Countdown::new(100));
    assert!(check(true, at(0, 0), &mut timer, 100));
    protect_for(&mut timer, 50);
    assert!(!check(true, at(0, 0), &mut timer, 49));
    assert!(check(true, at(0, 0), &mut timer, 1));
}
