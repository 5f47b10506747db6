//! The game as a whole: one frame runs the systems of the current mode, then
//! the fade, then whatever entering a new mode asks for.
use crate::combat::any_felled;
use crate::combat::archetype_for;
use crate::combat::combat_input;
use crate::combat::damage_calculation;
use crate::combat::despawn_enemies;
use crate::combat::enemy_of;
use crate::combat::player_stats;
use crate::combat::resolved;
use crate::combat::spawn_choice;
use crate::combat::spawn_enemy;
use crate::combat::without_enemies;
use crate::combat::CombatCooldown;
use crate::combat::CombatStats;
use crate::combat::Fighter;
use crate::combat::FightEvent;
use crate::combat::CHOICES;
use crate::combat::PLAYER;
use crate::fadeout::create_fadeout;
use crate::fadeout::fadeout;
use crate::fadeout::frame;
use crate::fadeout::FadeRun;
use crate::fadeout::FadeoutTimer;
use crate::fadeout::ScreenFade;
use crate::geometry::Position;
use crate::player::after_move;
use crate::player::blocked;
use crate::player::camera_follow;
use crate::player::displacement;
use crate::player::fires;
use crate::player::in_zone;
use crate::player::lemma_move_stays_clear;
use crate::player::moves;
use crate::player::player_encounter_checking;
use crate::player::player_movement;
use crate::player::protect_for;
use crate::player::set_encounter_timer;
use crate::player::spawn_player;
use crate::player::stride;
use crate::player::Keys;
use crate::player::Player;
use crate::player::Step;
use crate::player::VulnerabilityTimer;
use crate::random::draw_between;
use crate::tilemap::EncounterSpawner;
use crate::tilemap::TileCollider;
use crate::timer::Countdown;
use crate::GameState;
use vstd::prelude::*;

verus! {

/// Identity under which the enemy fights.
pub const ENEMY: u64 = 1;

/// What the player does in a frame: the keys held, and whether the attack
/// key has just been pressed.
#[derive(Clone, Copy, Debug, PartialEq, Eq, Structural)]
pub struct Input {
    pub keys: Keys,
    pub attack: bool,
}

/// The random draws that a frame may need: which archetype appears if combat
/// is entered, and for how long the player is protected if the overworld is.
#[derive(Clone, Copy, Debug, PartialEq, Eq, Structural)]
pub struct Draws {
    pub choice: u64,
    pub protect: u64,
}

/// The whole state of the game.
#[derive(Clone, Debug)]
pub struct Game {
    pub state: GameState,
    pub player: Player,
    pub position: Position,
    pub camera: Position,
    pub walls: Vec<TileCollider>,
    pub zones: Vec<EncounterSpawner>,
    pub vulnerability: VulnerabilityTimer,
    pub fade_timer: FadeoutTimer,
    pub fade: Option<ScreenFade>,
    pub cooldown: CombatCooldown,
    pub fighters: Vec<Fighter>,
    pub events: Vec<FightEvent>,
}

/// The state of the game as a value of sequences.
pub struct GameView {
    pub state: GameState,
    pub player: Player,
    pub position: Position,
    pub camera: Position,
    pub walls: Seq<TileCollider>,
    pub zones: Seq<EncounterSpawner>,
    pub vulnerability: VulnerabilityTimer,
    pub fade_timer: FadeoutTimer,
    pub fade: Option<ScreenFade>,
    pub cooldown: CombatCooldown,
    pub fighters: Seq<Fighter>,
    pub events: Seq<FightEvent>,
}

impl View for Game {
    type V = GameView;

    open spec fn view(&self) -> GameView {
        GameView {
            state: self.state,
            player: self.player,
            position: self.position,
            camera: self.camera,
            walls: self.walls@,
            zones: self.zones@,
            vulnerability: self.vulnerability,
            fade_timer: self.fade_timer,
            fade: self.fade,
            cooldown: self.cooldown,
            fighters: self.fighters@,
            events: self.events@,
        }
    }
}

impl GameView {
    /// The player fights first and is no enemy. In the overworld nobody else
    /// is there and no attack is pending; in combat there is one enemy, and
    /// every pending attack is aimed at it.
    pub open spec fn well_formed(self) -> bool {
        &&& self.fighters.len() >= 1
        &&& self.fighters[0].id == PLAYER
        &&& self.fighters[0].enemy is None
        &&& self.state == GameState::Overworld ==> self.fighters.len() == 1 && self.events.len()
            == 0
        &&& self.state == GameState::Combat ==> {
            &&& self.fighters.len() == 2
            &&& self.fighters[1].id == ENEMY
            &&& self.fighters[1].enemy is Some
            &&& forall|k: int| 0 <= k < self.events.len() ==> (#[trigger] self.events[k]).target == ENEMY
        }
    }

    /// The game after a request for a fade towards `next`. The request is
    /// taken up if no fade is running or the running one has committed its
    /// mode; else it is dropped.
    pub open spec fn requested(self, next: GameState) -> GameView {
        if self.fade is None || self.fade->0.sent {
            GameView {
                fade: Some(ScreenFade { alpha: 0, sent: false, next_state: next }),
                fade_timer: FadeoutTimer(self.fade_timer.0.rewound()),
                ..self
            }
        } else {
            self
        }
    }

    /// The overworld systems of one frame: the player walks, the camera
    /// follows, and an encounter that starts asks for a fade to combat.
    pub open spec fn overworld_frame(self, input: Input, delta: u64) -> GameView {
        let way = stride(self.player.speed, delta, input.keys.sprint);
        let dx = displacement(input.keys.right, input.keys.left, way) as i64;
        let dy = displacement(input.keys.up, input.keys.down, way) as i64;
        let position = after_move(self.position, self.walls, dx, dy);
        let player = Player {
            speed: self.player.speed,
            just_moved: moves(self.position, self.walls, dx, dy),
        };
        let step = Step {
            moved: player.just_moved,
            in_zone: in_zone(position, self.zones),
            delta,
        };
        let walked = GameView {
            player,
            position,
            camera: position,
            vulnerability: VulnerabilityTimer(self.vulnerability.0.ticked(delta)),
            ..self
        };
        if fires(self.vulnerability.0, step) {
            walked.requested(GameState::Combat)
        } else {
            walked
        }
    }

    /// The combat systems of one frame: the pending attacks hit, a fighter
    /// left without health asks for a fade to the overworld, and the attack
    /// key may queue the next attack.
    pub open spec fn combat_frame(self, input: Input, delta: u64) -> GameView {
        let fought = GameView {
            fighters: resolved(self.fighters, self.events),
            events: Seq::empty(),
            camera: Position { x: 0, y: 0 },
            ..self
        };
        let asked = if any_felled(self.fighters, self.events) {
            fought.requested(GameState::Overworld)
        } else {
            fought
        };
        let cooled = self.cooldown.0.ticked(delta);
        if input.attack && cooled.finished {
            GameView {
                cooldown: CombatCooldown(cooled.rewound()),
                events: seq![
                    FightEvent { target: ENEMY, damage_amount: fought.fighters[0].stats.attack },
                ],
                ..asked
            }
        } else {
            GameView { cooldown: CombatCooldown(cooled), ..asked }
        }
    }

    /// The systems of the current mode.
    pub open spec fn mode_frame(self, input: Input, delta: u64) -> GameView {
        match self.state {
            GameState::Overworld => self.overworld_frame(input, delta),
            GameState::Combat => self.combat_frame(input, delta),
        }
    }

    /// The fade system of one frame: a running fade goes on, writes the mode
    /// at half time, and is removed when it has ended.
    pub open spec fn fade_frame(self, delta: u64) -> GameView {
        match self.fade {
            None => self,
            Some(fade) => {
                let run = frame(FadeRun { fade, state: self.state, timer: self.fade_timer.0 }, delta);
                GameView {
                    state: run.state,
                    fade_timer: FadeoutTimer(run.timer),
                    fade: if run.timer.finished {
                        None
                    } else {
                        Some(run.fade)
                    },
                    ..self
                }
            },
        }
    }

    /// What entering a mode does, if the mode is another one than `before`.
    /// Entering combat brings the enemy that `draws` selects. Entering the
    /// overworld removes the enemy and the pending attacks, and protects the
    /// player for the time that `draws` gives.
    pub open spec fn entered(self, before: GameState, draws: Draws) -> GameView {
        if self.state == before {
            self
        } else {
            match self.state {
                GameState::Combat => GameView {
                    fighters: self.fighters.push(enemy_of(ENEMY, archetype_for(draws.choice))),
                    ..self
                },
                GameState::Overworld => GameView {
                    fighters: without_enemies(self.fighters),
                    events: Seq::empty(),
                    vulnerability: VulnerabilityTimer(
                        Countdown {
                            elapsed: 0,
                            duration: draws.protect,
                            finished: false,
                            just_finished: false,
                        },
                    ),
                    ..self
                },
            }
        }
    }

    /// One whole frame.
    pub open spec fn stepped(self, input: Input, delta: u64, draws: Draws) -> GameView {
        self.mode_frame(input, delta).fade_frame(delta).entered(self.state, draws)
    }
}

/// The game as it starts: in the overworld, the player at the starting place
/// and protected for `protect` nanoseconds, no fade, nobody to fight.
pub open spec fn initial(
    walls: Seq<TileCollider>,
    zones: Seq<EncounterSpawner>,
    protect: u64,
) -> GameView {
    GameView {
        state: GameState::Overworld,
        player: Player { speed: crate::PLAYERSPEED, just_moved: false },
        position: Position {
            x: (2 * crate::TILESIZE) as i64,
            y: (-2 * crate::TILESIZE) as i64,
        },
        camera: Position { x: (2 * crate::TILESIZE) as i64, y: (-2 * crate::TILESIZE) as i64 },
        walls,
        zones,
        vulnerability: VulnerabilityTimer(
            Countdown { elapsed: 0, duration: protect, finished: false, just_finished: false },
        ),
        fade_timer: FadeoutTimer(
            Countdown {
                elapsed: 0,
                duration: crate::FADETIME,
                finished: false,
                just_finished: false,
            },
        ),
        fade: None,
        cooldown: CombatCooldown(
            Countdown {
                elapsed: 0,
                duration: crate::ATTACKPAUSE,
                finished: false,
                just_finished: false,
            },
        ),
        fighters: seq![
            Fighter {
                id: PLAYER,
                enemy: None,
                stats: CombatStats { health: 10, max_health: 10, attack: 2, defense: 1 },
            },
        ],
        events: Seq::empty(),
    }
}

/// What one frame is given: what the player does, how long the frame is, and
/// the draws.
pub struct Frame {
    pub input: Input,
    pub delta: u64,
    pub draws: Draws,
}

/// The game after the frames of `frames`, one after the other.
pub open spec fn played(game: GameView, frames: Seq<Frame>) -> GameView
    decreases frames.len(),
{
    if frames.len() == 0 {
        game
    } else {
        played(game, frames.drop_last()).stepped(
            frames.last().input,
            frames.last().delta,
            frames.last().draws,
        )
    }
}

/// The time that the frames of `frames` take together.
pub open spec fn time_of(frames: Seq<Frame>) -> nat
    decreases frames.len(),
{
    if frames.len() == 0 {
        0
    } else {
        time_of(frames.drop_last()) + frames.last().delta as nat
    }
}

/// Whether a fade towards `next` has just been taken up.
pub open spec fn fade_begins(game: GameView, next: GameState) -> bool {
    &&& game.fade matches Some(fade)
    &&& !fade.sent
    &&& fade.next_state == next
    &&& game.fade_timer.0.elapsed == 0
    &&& !game.fade_timer.0.finished
    &&& game.fade_timer.0.duration > 0
}

/// Until half of its time has passed, a fade that has been taken up goes on
/// undisturbed and leaves the mode alone, whatever the player does and
/// however long the frames are.
pub proof fn lemma_fade_runs_to_half_time(game: GameView, next: GameState, frames: Seq<Frame>)
    requires
        fade_begins(game, next),
        2 * time_of(frames) < game.fade_timer.0.duration,
    ensures
        played(game, frames).state == game.state,
        played(game, frames).fade matches Some(fade) && !fade.sent && fade.next_state == next,
        played(game, frames).fade_timer.0.elapsed == time_of(frames),
        played(game, frames).fade_timer.0.duration == game.fade_timer.0.duration,
        !played(game, frames).fade_timer.0.finished,
    decreases frames.len(),
{
    if frames.len() > 0 {
        lemma_fade_runs_to_half_time(game, next, frames.drop_last());
    }
}

/// Whatever the player does and however long the frames are, a fade that has
/// been taken up writes the mode in the frame in which half of its time has
/// passed, and not before: the mode is the old one as long as the frames
/// together take less than half of the fade, and the pending one at the end
/// of the first frame with which they take that much.
pub proof fn lemma_mode_changes_at_half_time(game: GameView, next: GameState, frames: Seq<Frame>)
    requires
        fade_begins(game, next),
        frames.len() > 0,
        2 * time_of(frames.drop_last()) < game.fade_timer.0.duration,
    ensures
        played(game, frames.drop_last()).state == game.state,
        played(game, frames).state == (if 2 * time_of(frames) >= game.fade_timer.0.duration {
            next
        } else {
            game.state
        }),
{
    lemma_fade_runs_to_half_time(game, next, frames.drop_last());
}

/// Whether no key that moves the player is held in any of the frames.
pub open spec fn at_rest(frames: Seq<Frame>) -> bool {
    forall|k: int|
        0 <= k < frames.len() ==> {
            let keys = (#[trigger] frames[k]).input.keys;
            !keys.up && !keys.down && !keys.left && !keys.right
        }
}

/// A player who stands still in the overworld starts no encounter, wherever
/// the player stands and however long: no fade is taken up, and the mode
/// stays.
pub proof fn lemma_standing_starts_no_fade(game: GameView, frames: Seq<Frame>)
    requires
        game.state == GameState::Overworld,
        game.fade is None,
        at_rest(frames),
    ensures
        played(game, frames).state == GameState::Overworld,
        played(game, frames).fade is None,
        played(game, frames).position == game.position,
    decreases frames.len(),
{
    if frames.len() > 0 {
        let earlier = frames.drop_last();
        assert(at_rest(earlier)) by {
            assert forall|k: int| 0 <= k < earlier.len() implies {
                let keys = (#[trigger] earlier[k]).input.keys;
                !keys.up && !keys.down && !keys.left && !keys.right
            } by {
                assert(earlier[k] == frames[k]);
            }
        }
        lemma_standing_starts_no_fade(game, earlier);
        let keys = frames.last().input.keys;
        assert(!keys.up && !keys.down && !keys.left && !keys.right);
    }
}

/// Only a fade writes the mode: a frame that changes the mode has run a
/// fade that had not committed yet, and the new mode is the one that was
/// pending in it.
pub proof fn lemma_mode_written_by_commit_only(
    game: GameView,
    input: Input,
    delta: u64,
    draws: Draws,
)
    ensures
        game.stepped(input, delta, draws).state != game.state ==> {
            let run = game.mode_frame(input, delta);
            &&& run.fade matches Some(fade)
            &&& !fade.sent
            &&& run.fade_timer.0.ticked(delta).past_half()
            &&& game.stepped(input, delta, draws).state == fade.next_state
        },
{
}

/// No frame puts the player into a wall: a player who stands clear of all
/// walls still does after the frame, whatever the keys and the frame length.
pub proof fn lemma_step_keeps_clear(game: GameView, input: Input, delta: u64, draws: Draws)
    requires
        !blocked(game.position, game.walls),
    ensures
        game.stepped(input, delta, draws).walls == game.walls,
        !blocked(game.stepped(input, delta, draws).position, game.walls),
{
    let way = stride(game.player.speed, delta, input.keys.sprint);
    let dx = displacement(input.keys.right, input.keys.left, way) as i64;
    let dy = displacement(input.keys.up, input.keys.down, way) as i64;
    lemma_move_stays_clear(game.position, game.walls, dx, dy);
}

/// A request for a fade is dropped while a fade runs that has not committed
/// its mode.
pub proof fn lemma_request_waits_for_commit(game: GameView, next: GameState)
    requires
        game.fade matches Some(fade) && !fade.sent,
    ensures
        game.requested(next) == game,
{
}

/// A frame leaves a well-formed game well-formed: after a return to the
/// overworld the enemy and the pending attacks are gone, and on entering
/// combat one enemy is there.
pub proof fn lemma_step_keeps_well_formed(game: GameView, input: Input, delta: u64, draws: Draws)
    requires
        game.well_formed(),
    ensures
        game.stepped(input, delta, draws).well_formed(),
{
    let run = game.mode_frame(input, delta);
    if game.state == GameState::Combat {
        lemma_fight_keeps_places(game);
        if run.fade_frame(delta).state == GameState::Overworld {
            lemma_only_player_stays(run.fighters);
        }
    }
}

/// In combat the pending attacks leave both fighters where and who they are.
proof fn lemma_fight_keeps_places(game: GameView)
    requires
        game.well_formed(),
        game.state == GameState::Combat,
    ensures
        crate::combat::distinct(game.fighters),
        crate::combat::all_present(game.fighters, game.events),
        resolved(game.fighters, game.events).len() == 2,
        resolved(game.fighters, game.events)[0].id == PLAYER,
        resolved(game.fighters, game.events)[0].enemy is None,
        resolved(game.fighters, game.events)[1].id == ENEMY,
        resolved(game.fighters, game.events)[1].enemy is Some,
{
    assert forall|k: int| 0 <= k < game.events.len() implies crate::combat::present(
        game.fighters,
        (#[trigger] game.events[k]).target,
    ) by {
        assert(game.fighters[1].id == ENEMY);
    }
    crate::combat::lemma_resolved_keeps_identities(game.fighters, game.events);
}

/// Of a player and an enemy only the player is left when the enemies go.
proof fn lemma_only_player_stays(fighters: Seq<Fighter>)
    requires
        fighters.len() == 2,
        fighters[0].enemy is None,
        fighters[1].enemy is Some,
    ensures
        without_enemies(fighters) == seq![fighters[0]],
{
    reveal_with_fuel(Seq::filter, 3);
}

impl Game {
    /// The game as it starts, with the player protected for `protect`
    /// nanoseconds.
    pub fn new(walls: Vec<TileCollider>, zones: Vec<EncounterSpawner>, protect: u64) -> (game: Game)
        ensures
            game@ == initial(walls@, zones@, protect),
            game@.well_formed(),
    {
        let spawned: (Player, Position) = spawn_player();
        let mut vulnerability = VulnerabilityTimer(Countdown::new(crate::MINPROTECT));
        protect_for(&mut vulnerability, protect);
        let mut fighters: Vec<Fighter> = Vec::new();
        fighters.push(Fighter { id: PLAYER, enemy: None, stats: player_stats() });
        Game {
            state: GameState::Overworld,
            player: spawned.0,
            position: spawned.1,
            camera: spawned.1,
            walls,
            zones,
            vulnerability,
            fade_timer: FadeoutTimer(Countdown::new(crate::FADETIME)),
            fade: None,
            cooldown: CombatCooldown(Countdown::new(crate::ATTACKPAUSE)),
            fighters,
            events: Vec::new(),
        }
    }

    /// The game as it starts, with the player protected for a time drawn at
    /// random between [`crate::MINPROTECT`] and [`crate::MAXPROTECT`].
    pub fn start(walls: Vec<TileCollider>, zones: Vec<EncounterSpawner>) -> (game: Game)
        ensures
            exists|protect: u64|
                crate::MINPROTECT <= protect <= crate::MAXPROTECT && game@ == initial(
                    walls@,
                    zones@,
                    protect,
                ),
            game@.well_formed(),
    {
        let protect: u64 = draw_between(crate::MINPROTECT, crate::MAXPROTECT);
        Game::new(walls, zones, protect)
    }

    /// Whether the game is well-formed.
    pub fn is_well_formed(&self) -> (ok: bool)
        ensures
            ok == self@.well_formed(),
    {
        if self.fighters.len() < 1 || self.fighters[0].id != PLAYER || self.fighters[0].enemy.is_some() {
            return false;
        }
        match self.state {
            GameState::Overworld => self.fighters.len() == 1 && self.events.len() == 0,
            GameState::Combat => {
                if self.fighters.len() != 2 || self.fighters[1].id != ENEMY
                    || self.fighters[1].enemy.is_none() {
                    return false;
                }
                let mut k: usize = 0;
                while k < self.events.len()
                    invariant
                        k <= self.events.len(),
                        forall|j: int| 0 <= j < k ==> (#[trigger] self.events@[j]).target == ENEMY,
                    decreases self.events.len() - k,
                {
                    if self.events[k].target != ENEMY {
                        assert(self@.events[k as int].target != ENEMY);
                        return false;
                    }
                    k += 1;
                }
                true
            },
        }
    }

    /// Asks for a fade towards `next`.
    pub fn request(&mut self, next: GameState)
        ensures
            final(self)@ == old(self)@.requested(next),
    {
        let free: bool = match self.fade {
            None => true,
            Some(fade) => fade.sent,
        };
        if free {
            let fade: ScreenFade = create_fadeout(next, &mut self.fade_timer);
            self.fade = Some(fade);
        }
    }

    /// Runs the overworld systems of one frame.
    fn overworld_systems(&mut self, input: &Input, delta: u64)
        ensures
            final(self)@ == old(self)@.overworld_frame(*input, delta),
    {
        player_movement(&mut self.player, &mut self.position, &self.walls, &input.keys, delta);
        camera_follow(self.position, &mut self.camera);
        let encounter: bool = player_encounter_checking(
            &self.player,
            self.position,
            &self.zones,
            &mut self.vulnerability,
            delta,
        );
        if encounter {
            self.request(GameState::Combat);
        }
    }

    /// Runs the combat systems of one frame.
    fn combat_systems(&mut self, input: &Input, delta: u64)
        requires
            old(self)@.well_formed(),
            old(self).state == GameState::Combat,
        ensures
            final(self)@ == old(self)@.combat_frame(*input, delta),
    {
        proof {
            lemma_fight_keeps_places(self@);
        }
        let felled: bool = damage_calculation(&mut self.events, &mut self.fighters);
        assert(self.events@ == Seq::<FightEvent>::empty());
        self.camera = Position { x: 0, y: 0 };
        if felled {
            self.request(GameState::Overworld);
        }
        let stats: CombatStats = self.fighters[0].stats;
        let sent: bool = combat_input(
            input.attack,
            &stats,
            ENEMY,
            &mut self.cooldown,
            delta,
            &mut self.events,
        );
        proof {
            if sent {
                assert(self.events@ == seq![
                    FightEvent { target: ENEMY, damage_amount: stats.attack },
                ]);
            }
        }
    }

    /// Runs the fade system of one frame.
    fn fade_system(&mut self, delta: u64)
        ensures
            final(self)@ == old(self)@.fade_frame(delta),
    {
        match self.fade {
            None => {},
            Some(running) => {
                let mut fade: ScreenFade = running;
                let ended: bool = fadeout(&mut fade, &mut self.state, &mut self.fade_timer, delta);
                if ended {
                    self.fade = None;
                } else {
                    self.fade = Some(fade);
                }
            },
        }
    }

    /// Does what entering the current mode asks for, if it is another one
    /// than `before`.
    fn enter(&mut self, before: GameState, draws: &Draws)
        ensures
            final(self)@ == old(self)@.entered(before, *draws),
    {
        if self.state != before {
            match self.state {
                GameState::Combat => {
                    self.fighters.push(spawn_choice(ENEMY, draws.choice));
                },
                GameState::Overworld => {
                    despawn_enemies(&mut self.fighters);
                    self.events.clear();
                    protect_for(&mut self.vulnerability, draws.protect);
                },
            }
        }
    }

    /// Runs one frame of `delta` nanoseconds with the draws given: the
    /// systems of the current mode, then the fade, then what entering a new
    /// mode asks for.
    pub fn step(&mut self, input: &Input, delta: u64, draws: &Draws)
        requires
            old(self)@.well_formed(),
        ensures
            final(self)@ == old(self)@.stepped(*input, delta, *draws),
            final(self)@.well_formed(),
    {
        proof {
            lemma_step_keeps_well_formed(self@, *input, delta, *draws);
        }
        let before: GameState = self.state;
        match before {
            GameState::Overworld => self.overworld_systems(input, delta),
            GameState::Combat => self.combat_systems(input, delta),
        }
        self.fade_system(delta);
        self.enter(before, draws);
    }

    /// Runs one frame of `delta` nanoseconds. Where the frame enters a mode,
    /// what that asks for is drawn at random: on entering combat the
    /// archetype among the [`CHOICES`] of the roster, on entering the
    /// overworld the protection between [`crate::MINPROTECT`] and
    /// [`crate::MAXPROTECT`].
    pub fn tick(&mut self, input: &Input, delta: u64)
        requires
            old(self)@.well_formed(),
        ensures
            exists|draws: Draws|
                draws.choice < CHOICES && crate::MINPROTECT <= draws.protect <= crate::MAXPROTECT
                    && final(self)@ == old(self)@.stepped(*input, delta, draws),
            final(self)@.well_formed(),
    {
        let before: GameState = self.state;
        match before {
            GameState::Overworld => self.overworld_systems(input, delta),
            GameState::Combat => self.combat_systems(input, delta),
        }
        self.fade_system(delta);
        let ghost faded = self@;
        let ghost drawn = Draws { choice: 0, protect: crate::MINPROTECT };
        if self.state != before {
            match self.state {
                GameState::Combat => {
                    let enemy: Fighter = spawn_enemy(ENEMY);
                    proof {
                        let choice = choose|choice: u64|
                            choice < CHOICES && enemy == enemy_of(ENEMY, archetype_for(choice));
                        drawn = Draws { choice, protect: crate::MINPROTECT };
                    }
                    self.fighters.push(enemy);
                },
                GameState::Overworld => {
                    despawn_enemies(&mut self.fighters);
                    self.events.clear();
                    set_encounter_timer(&mut self.vulnerability);
                    proof {
                        drawn = Draws { choice: 0, protect: self.vulnerability.0.duration };
                    }
                },
            }
        }
        proof {
            lemma_step_keeps_well_formed(old(self)@, *input, delta, drawn);
        }
    }
}

} // verus!
