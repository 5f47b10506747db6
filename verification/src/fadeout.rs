//! The fade between two game modes: an overlay that turns opaque, commits
//! the pending mode at half time, and clears again.
use crate::timer::Countdown;
use crate::GameState;
use vstd::arithmetic::div_mod::lemma_div_is_ordered;
use vstd::arithmetic::div_mod::lemma_div_multiples_vanish;
use vstd::prelude::*;

verus! {

/// The countdown that drives every fade.
#[derive(Clone, Copy, Debug, PartialEq, Eq, Structural)]
pub struct FadeoutTimer(pub Countdown);

/// A fade in progress.
///
/// `alpha` is the opacity of the overlay, `sent` whether the pending mode has
/// been committed, `next_state` the pending mode.
#[derive(Clone, Copy, Debug, PartialEq, Eq, Structural)]
pub struct ScreenFade {
    pub alpha: u32,
    pub sent: bool,
    pub next_state: GameState,
}

/// A fade together with the mode register it writes and the timer it reads.
#[derive(Clone, Copy, Debug, PartialEq, Eq, Structural)]
pub struct FadeRun {
    pub fade: ScreenFade,
    pub state: GameState,
    pub timer: Countdown,
}

/// Opacity of the overlay when `elapsed` of `duration` has passed: it rises
/// evenly from nothing to [`crate::OPAQUE`] at half time and falls back to
/// nothing at the end. A fade without duration shows nothing.
pub open spec fn alpha_at(elapsed: int, duration: int) -> int {
    if duration <= 0 {
        0
    } else if elapsed >= duration {
        0
    } else if 2 * elapsed < duration {
        2 * elapsed * crate::OPAQUE / duration
    } else {
        2 * (duration - elapsed) * crate::OPAQUE / duration
    }
}

/// The fade after a frame that left its timer at `timer`.
pub open spec fn fade_after(fade: ScreenFade, timer: Countdown) -> ScreenFade {
    ScreenFade {
        alpha: alpha_at(timer.elapsed as int, timer.duration as int) as u32,
        sent: fade.sent || timer.past_half(),
        next_state: fade.next_state,
    }
}

/// Whether a frame that left the timer at `timer` commits the pending mode.
pub open spec fn commits(fade: ScreenFade, timer: Countdown) -> bool {
    !fade.sent && timer.past_half()
}

/// The mode after a frame that left the timer at `timer`.
pub open spec fn state_after(fade: ScreenFade, state: GameState, timer: Countdown) -> GameState {
    if commits(fade, timer) {
        fade.next_state
    } else {
        state
    }
}

/// A fade that has just been requested: nothing shown, nothing committed,
/// the timer at its start.
pub open spec fn requested(next_state: GameState, state: GameState, duration: u64) -> FadeRun {
    FadeRun {
        fade: ScreenFade { alpha: 0, sent: false, next_state },
        state,
        timer: Countdown { elapsed: 0, duration, finished: false, just_finished: false },
    }
}

/// One frame of `delta` nanoseconds.
pub open spec fn frame(run: FadeRun, delta: u64) -> FadeRun {
    let timer = run.timer.ticked(delta);
    FadeRun {
        fade: fade_after(run.fade, timer),
        state: state_after(run.fade, run.state, timer),
        timer,
    }
}

/// The frames of `deltas`, one after the other.
pub open spec fn frames(run: FadeRun, deltas: Seq<u64>) -> FadeRun
    decreases deltas.len(),
{
    if deltas.len() == 0 {
        run
    } else {
        frame(frames(run, deltas.drop_last()), deltas.last())
    }
}

/// How many of the frames of `deltas` commit the pending mode.
pub open spec fn commit_count(run: FadeRun, deltas: Seq<u64>) -> nat
    decreases deltas.len(),
{
    if deltas.len() == 0 {
        0
    } else {
        let before = frames(run, deltas.drop_last());
        let now: nat = if commits(before.fade, before.timer.ticked(deltas.last())) {
            1
        } else {
            0
        };
        commit_count(run, deltas.drop_last()) + now
    }
}

/// The time that the frames of `deltas` take together.
pub open spec fn total(deltas: Seq<u64>) -> nat
    decreases deltas.len(),
{
    if deltas.len() == 0 {
        0
    } else {
        total(deltas.drop_last()) + deltas.last() as nat
    }
}

/// Once the pending mode has been committed, no later frame writes the mode
/// again.
pub proof fn lemma_no_second_commit(run: FadeRun, deltas: Seq<u64>)
    requires
        run.fade.sent,
    ensures
        commit_count(run, deltas) == 0,
        frames(run, deltas).state == run.state,
        frames(run, deltas).fade.sent,
    decreases deltas.len(),
{
    if deltas.len() > 0 {
        lemma_no_second_commit(run, deltas.drop_last());
    }
}

/// Whatever the frame lengths, a requested fade has committed its pending
/// mode exactly when the frames together have taken at least half of the
/// duration. Up to then the mode is the old one and no frame has written it;
/// from then on it is the pending one and exactly one frame has written it.
pub proof fn lemma_commit_at_half_time(
    next_state: GameState,
    state: GameState,
    duration: u64,
    deltas: Seq<u64>,
)
    requires
        duration > 0 || deltas.len() > 0,
    ensures
        ({
            let end = frames(requested(next_state, state, duration), deltas);
            let half = 2 * total(deltas) >= duration;
            &&& end.fade.sent == half
            &&& end.state == (if half { next_state } else { state })
            &&& commit_count(requested(next_state, state, duration), deltas) == (if half {
                1nat
            } else {
                0nat
            })
            &&& end.fade.next_state == next_state
            &&& end.timer.duration == duration
            &&& end.timer.finished == (deltas.len() > 0 && total(deltas) >= duration)
            &&& end.timer.elapsed == (if total(deltas) >= duration {
                duration as int
            } else {
                total(deltas) as int
            })
        }),
    decreases deltas.len(),
{
    let start = requested(next_state, state, duration);
    if deltas.len() == 1 {
        assert(frames(start, deltas.drop_last()) == start);
        assert(total(deltas.drop_last()) == 0);
        assert(commit_count(start, deltas.drop_last()) == 0);
    } else if deltas.len() > 1 {
        lemma_commit_at_half_time(next_state, state, duration, deltas.drop_last());
    }
}

/// The frame that commits is the first one at whose end half of the duration
/// has passed.
pub proof fn lemma_commit_frame(
    next_state: GameState,
    state: GameState,
    duration: u64,
    deltas: Seq<u64>,
    k: int,
)
    requires
        duration > 0,
        0 <= k < deltas.len(),
    ensures
        ({
            let before = frames(requested(next_state, state, duration), deltas.take(k));
            commits(before.fade, before.timer.ticked(deltas[k])) <==> 2 * total(deltas.take(k))
                < duration <= 2 * total(deltas.take(k + 1))
        }),
{
    lemma_commit_at_half_time(next_state, state, duration, deltas.take(k));
    lemma_commit_at_half_time(next_state, state, duration, deltas.take(k + 1));
    assert(deltas.take(k + 1).drop_last() == deltas.take(k));
}

/// Computes [`alpha_at`].
pub fn alpha(elapsed: u64, duration: u64) -> (a: u32)
    ensures
        a == alpha_at(elapsed as int, duration as int),
        a <= crate::OPAQUE,
{
    if duration == 0 || elapsed >= duration {
        return 0;
    }
    let e: u128 = elapsed as u128;
    let d: u128 = duration as u128;
    let rising: bool = 2 * e < d;
    let part: u128 = if rising { 2 * e } else { 2 * (d - e) };
    let opaque: u128 = crate::OPAQUE as u128;
    assert(part * opaque <= d * opaque <= u64::MAX * 1_000_000) by (nonlinear_arith)
        requires
            part <= d,
            d <= u64::MAX,
            opaque == 1_000_000,
    ;
    let scaled: u128 = part * opaque;
    proof {
        lemma_div_is_ordered(scaled as int, d * opaque, d as int);
        lemma_div_multiples_vanish(opaque as int, d as int);
    }
    (scaled / d) as u32
}

/// Starts a fade towards `next_state`: rewinds the timer and hands back the
/// overlay, which shows nothing yet.
pub fn create_fadeout(next_state: GameState, timer: &mut FadeoutTimer) -> (fade: ScreenFade)
    ensures
        final(timer).0 == old(timer).0.rewound(),
        fade == (ScreenFade { alpha: 0, sent: false, next_state }),
{
    timer.0.reset();
    ScreenFade { alpha: 0, sent: false, next_state }
}

/// Runs one frame of a fade: advances the timer, sets the opacity, commits
/// the pending mode to `state` at half time if that has not happened yet, and
/// reports whether the fade has ended and is to be removed.
pub fn fadeout(
    fade: &mut ScreenFade,
    state: &mut GameState,
    timer: &mut FadeoutTimer,
    delta: u64,
) -> (ended: bool)
    ensures
        final(timer).0 == old(timer).0.ticked(delta),
        *final(fade) == fade_after(*old(fade), final(timer).0),
        *final(state) == state_after(*old(fade), *old(state), final(timer).0),
        ended == final(timer).0.finished,
{
    timer.0.tick(delta);
    fade.alpha = alpha(timer.0.elapsed, timer.0.duration);
    if timer.0.half_elapsed() && !fade.sent {
        *state = fade.next_state;
        fade.sent = true;
    }
    timer.0.finished()
}

} // verus!
