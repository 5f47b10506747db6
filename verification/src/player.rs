//! The player in the overworld: walking against walls, and walking into
//! encounters.
use crate::geometry::collide;
use crate::geometry::player_hits_tile;
use crate::geometry::shift;
use crate::geometry::shifted;
use crate::geometry::Position;
use crate::random::draw_between;
use crate::tilemap::EncounterSpawner;
use crate::tilemap::TileCollider;
use crate::timer::Countdown;
use vstd::prelude::*;

verus! {

/// The player: walking speed in thousandths of a tile per second, and
/// whether the last movement frame moved the player.
#[derive(Clone, Copy, Debug, PartialEq, Eq, Structural)]
pub struct Player {
    pub speed: u32,
    pub just_moved: bool,
}

/// The countdown during which no encounter can start.
#[derive(Clone, Copy, Debug, PartialEq, Eq, Structural)]
pub struct VulnerabilityTimer(pub Countdown);

/// The keys that are held down in a frame.
#[derive(Clone, Copy, Debug, PartialEq, Eq, Structural)]
pub struct Keys {
    pub up: bool,
    pub down: bool,
    pub left: bool,
    pub right: bool,
    pub sprint: bool,
}

/// What a frame shows to the encounter trigger.
#[derive(Clone, Copy, Debug, PartialEq, Eq, Structural)]
pub struct Step {
    pub moved: bool,
    pub in_zone: bool,
    pub delta: u64,
}

/// The way that the player walks in `delta` nanoseconds, in length units:
/// speed times tile size times time, doubled when sprinting, and no more than
/// a coordinate can hold. The divisor undoes the units of the speed, a
/// thousandth of a tile per second, and of the time, a nanosecond.
pub open spec fn stride(speed: u32, delta: u64, sprint: bool) -> int {
    let factor: int = if sprint { 2 } else { 1 };
    let way = speed * crate::TILESIZE * delta * factor / 1_000_000_000_000int;
    if way > i64::MAX {
        i64::MAX as int
    } else {
        way
    }
}

/// The displacement along one axis when the key `forth`, the key `back`, or
/// both are held.
pub open spec fn displacement(forth: bool, back: bool, way: int) -> int {
    (if forth { way } else { 0 }) - (if back { way } else { 0 })
}

/// Whether a player at `target` overlaps one of `walls`.
pub open spec fn blocked(target: Position, walls: Seq<TileCollider>) -> bool {
    exists|i: int|
        0 <= i < walls.len() && player_hits_tile(target, (#[trigger] walls[i]).position)
}

/// Whether a player at `at` overlaps one of `zones`.
pub open spec fn in_zone(at: Position, zones: Seq<EncounterSpawner>) -> bool {
    exists|i: int| 0 <= i < zones.len() && player_hits_tile(at, (#[trigger] zones[i]).position)
}

/// Where the player would stand after walking `dx` along x.
pub open spec fn x_target(from: Position, dx: i64) -> Position {
    Position { x: shifted(from.x, dx), y: from.y }
}

/// Where the player would stand after walking `dy` along y.
pub open spec fn y_target(from: Position, dy: i64) -> Position {
    Position { x: from.x, y: shifted(from.y, dy) }
}

/// Where the player stands after the x part of a move: at the target unless
/// a wall is there.
pub open spec fn after_x(from: Position, walls: Seq<TileCollider>, dx: i64) -> Position {
    if blocked(x_target(from, dx), walls) {
        from
    } else {
        x_target(from, dx)
    }
}

/// Where the player stands after a whole move: first along x, then, from
/// where that ended, along y.
pub open spec fn after_move(from: Position, walls: Seq<TileCollider>, dx: i64, dy: i64) -> Position {
    let mid = after_x(from, walls, dx);
    if blocked(y_target(mid, dy), walls) {
        mid
    } else {
        y_target(mid, dy)
    }
}

/// Whether a move commits a displacement that is not zero.
pub open spec fn moves(from: Position, walls: Seq<TileCollider>, dx: i64, dy: i64) -> bool {
    ||| dx != 0 && !blocked(x_target(from, dx), walls)
    ||| dy != 0 && !blocked(y_target(after_x(from, walls, dx), dy), walls)
}

/// A player who stands clear of all walls still does after any move.
pub proof fn lemma_move_stays_clear(from: Position, walls: Seq<TileCollider>, dx: i64, dy: i64)
    requires
        !blocked(from, walls),
    ensures
        !blocked(after_move(from, walls, dx, dy), walls),
{
}

/// A wall in the way along one axis leaves the way along the other axis
/// open: the player slides along the wall.
pub proof fn lemma_slides_along_walls(from: Position, walls: Seq<TileCollider>, dx: i64, dy: i64)
    ensures
        blocked(x_target(from, dx), walls) && !blocked(y_target(from, dy), walls) ==> after_move(
            from,
            walls,
            dx,
            dy,
        ) == y_target(from, dy),
        !blocked(x_target(from, dx), walls) && blocked(
            y_target(x_target(from, dx), dy),
            walls,
        ) ==> after_move(from, walls, dx, dy) == x_target(from, dx),
{
}

/// Whether a frame starts an encounter: the player has just moved, stands in
/// an encounter zone, and the countdown runs out in this very frame.
pub open spec fn fires(timer: Countdown, step: Step) -> bool {
    step.moved && step.in_zone && timer.ticked(step.delta).just_finished
}

/// The countdown after the frames of `steps`.
pub open spec fn countdown_after(timer: Countdown, steps: Seq<Step>) -> Countdown
    decreases steps.len(),
{
    if steps.len() == 0 {
        timer
    } else {
        countdown_after(timer, steps.drop_last()).ticked(steps.last().delta)
    }
}

/// How many of the frames of `steps` start an encounter.
pub open spec fn encounter_count(timer: Countdown, steps: Seq<Step>) -> nat
    decreases steps.len(),
{
    if steps.len() == 0 {
        0
    } else {
        let now: nat = if fires(countdown_after(timer, steps.drop_last()), steps.last()) {
            1
        } else {
            0
        };
        encounter_count(timer, steps.drop_last()) + now
    }
}

/// Between two restarts of the countdown at most one frame starts an
/// encounter, however long the player stays in a zone; and once the
/// countdown has run out, none does.
pub proof fn lemma_encounter_at_most_once(timer: Countdown, steps: Seq<Step>)
    ensures
        encounter_count(timer, steps) <= 1,
        timer.finished ==> encounter_count(timer, steps) == 0,
        encounter_count(timer, steps) == 1 ==> countdown_after(timer, steps).finished,
        timer.finished ==> countdown_after(timer, steps).finished,
    decreases steps.len(),
{
    if steps.len() > 0 {
        lemma_encounter_at_most_once(timer, steps.drop_last());
    }
}

/// A player who does not move starts no encounter.
pub proof fn lemma_no_encounter_while_standing(timer: Countdown, steps: Seq<Step>)
    requires
        forall|k: int| 0 <= k < steps.len() ==> !(#[trigger] steps[k]).moved,
    ensures
        encounter_count(timer, steps) == 0,
    decreases steps.len(),
{
    if steps.len() > 0 {
        lemma_no_encounter_while_standing(timer, steps.drop_last());
    }
}

/// The player as the game starts: two tiles right of and two tiles below the
/// top left tile, at walking speed, at rest.
pub fn spawn_player() -> (spawned: (Player, Position))
    ensures
        spawned.0 == (Player { speed: crate::PLAYERSPEED, just_moved: false }),
        spawned.1 == (Position {
            x: (2 * crate::TILESIZE) as i64,
            y: (-2 * crate::TILESIZE) as i64,
        }),
{
    (
        Player { speed: crate::PLAYERSPEED, just_moved: false },
        Position { x: 2 * crate::TILESIZE, y: -2 * crate::TILESIZE },
    )
}

/// Starts the countdown anew with the given duration.
pub fn protect_for(timer: &mut VulnerabilityTimer, duration: u64)
    ensures
        final(timer).0 == (Countdown {
            elapsed: 0,
            duration,
            finished: false,
            just_finished: false,
        }),
{
    timer.0.set_duration(duration);
    timer.0.reset();
}

/// Starts the countdown anew with a duration drawn at random between
/// [`crate::MINPROTECT`] and [`crate::MAXPROTECT`].
pub fn set_encounter_timer(timer: &mut VulnerabilityTimer)
    ensures
        crate::MINPROTECT <= final(timer).0.duration <= crate::MAXPROTECT,
        final(timer).0 == (Countdown {
            elapsed: 0,
            duration: final(timer).0.duration,
            finished: false,
            just_finished: false,
        }),
{
    let duration: u64 = draw_between(crate::MINPROTECT, crate::MAXPROTECT);
    protect_for(timer, duration);
}

/// Whether a player at `target_player_pos` overlaps the tile at
/// `wall_pos`.
pub fn wall_collision_check(target_player_pos: Position, wall_pos: Position) -> (hit: bool)
    ensures
        hit == player_hits_tile(target_player_pos, wall_pos),
{
    collide(
        target_player_pos,
        crate::PLAYERSIZE as u32,
        wall_pos,
        crate::TILESIZE as u32,
    )
}

/// Whether a player at `target` overlaps one of `walls`.
pub fn hits_wall(target: Position, walls: &Vec<TileCollider>) -> (hit: bool)
    ensures
        hit == blocked(target, walls@),
{
    let mut i: usize = 0;
    while i < walls.len()
        invariant
            i <= walls.len(),
            forall|j: int| 0 <= j < i ==> !player_hits_tile(target, (#[trigger] walls@[j]).position),
        decreases walls.len() - i,
    {
        if wall_collision_check(target, walls[i].position) {
            return true;
        }
        i += 1;
    }
    false
}

/// Whether a player at `at` overlaps one of `zones`.
pub fn stands_in_zone(at: Position, zones: &Vec<EncounterSpawner>) -> (hit: bool)
    ensures
        hit == in_zone(at, zones@),
{
    let mut i: usize = 0;
    while i < zones.len()
        invariant
            i <= zones.len(),
            forall|j: int| 0 <= j < i ==> !player_hits_tile(at, (#[trigger] zones@[j]).position),
        decreases zones.len() - i,
    {
        if wall_collision_check(at, zones[i].position) {
            return true;
        }
        i += 1;
    }
    false
}

/// Computes [`stride`].
pub fn stride_of(speed: u32, delta: u64, sprint: bool) -> (way: i64)
    ensures
        way == stride(speed, delta, sprint),
        way >= 0,
{
    let factor: u128 = if sprint { 2 } else { 1 };
    let tile: u128 = crate::TILESIZE as u128;
    assert(speed * tile <= 0xffff_ffff * 1_000_000) by (nonlinear_arith)
        requires
            speed <= 0xffff_ffff,
            tile == 1_000_000,
    ;
    let rate: u128 = speed as u128 * tile;
    assert(rate * (delta as u128) * factor <= 0xffff_ffff * 1_000_000 * 0xffff_ffff_ffff_ffff * 2)
        by (nonlinear_arith)
        requires
            rate <= 0xffff_ffff * 1_000_000,
            delta <= 0xffff_ffff_ffff_ffff,
            factor <= 2,
    ;
    assert(rate * (delta as u128) <= 0xffff_ffff * 1_000_000 * 0xffff_ffff_ffff_ffff)
        by (nonlinear_arith)
        requires
            rate <= 0xffff_ffff * 1_000_000,
            delta <= 0xffff_ffff_ffff_ffff,
    ;
    let way: u128 = rate * (delta as u128) * factor / 1_000_000_000_000;
    assert(speed * crate::TILESIZE * delta * factor == rate * (delta as u128) * factor)
        by (nonlinear_arith)
        requires
            rate == speed * crate::TILESIZE,
    ;
    if way > i64::MAX as u128 {
        i64::MAX
    } else {
        way as i64
    }
}

/// Moves the player for one frame.
///
/// The keys give a displacement along each axis. The player first walks
/// along x, unless a wall is at the target, and then from there along y,
/// unless a wall is at that target. `just_moved` tells afterwards whether a
/// displacement other than zero was carried out.
pub fn player_movement(
    player: &mut Player,
    position: &mut Position,
    walls: &Vec<TileCollider>,
    keyboard: &Keys,
    delta: u64,
)
    ensures
        final(player).speed == old(player).speed,
        ({
            let way = stride(old(player).speed, delta, keyboard.sprint);
            let dx = displacement(keyboard.right, keyboard.left, way) as i64;
            let dy = displacement(keyboard.up, keyboard.down, way) as i64;
            &&& *final(position) == after_move(*old(position), walls@, dx, dy)
            &&& final(player).just_moved == moves(*old(position), walls@, dx, dy)
        }),
        !blocked(*old(position), walls@) ==> !blocked(*final(position), walls@),
{
    player.just_moved = false;
    let way: i64 = stride_of(player.speed, delta, keyboard.sprint);
    let mut delta_x: i64 = 0;
    let mut delta_y: i64 = 0;
    if keyboard.up {
        delta_y = delta_y + way;
    }
    if keyboard.down {
        delta_y = delta_y - way;
    }
    if keyboard.left {
        delta_x = delta_x - way;
    }
    if keyboard.right {
        delta_x = delta_x + way;
    }
    let target = Position { x: shift(position.x, delta_x), y: position.y };
    if !hits_wall(target, walls) {
        *position = target;
        if delta_x != 0 {
            player.just_moved = true;
        }
    }
    let target = Position { x: position.x, y: shift(position.y, delta_y) };
    if !hits_wall(target, walls) {
        *position = target;
        if delta_y != 0 {
            player.just_moved = true;
        }
    }
}

/// Lets `delta` pass on the countdown and tells whether an encounter starts
/// in this frame: the player has just moved, stands in an encounter zone, and
/// the countdown has run out in this very frame.
pub fn player_encounter_checking(
    player: &Player,
    position: Position,
    zones: &Vec<EncounterSpawner>,
    timer: &mut VulnerabilityTimer,
    delta: u64,
) -> (encounter: bool)
    ensures
        final(timer).0 == old(timer).0.ticked(delta),
        encounter == fires(
            old(timer).0,
            Step { moved: player.just_moved, in_zone: in_zone(position, zones@), delta },
        ),
{
    timer.0.tick(delta);
    player.just_moved && timer.0.just_finished() && stands_in_zone(position, zones)
}

/// Puts the camera where the player is.
pub fn camera_follow(player: Position, camera: &mut Position)
    ensures
        *final(camera) == player,
{
    camera.x = player.x;
    camera.y = player.y;
}

} // verus!
