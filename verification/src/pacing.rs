//! What holds of catching up: a game brought up to a moment in several
//! updates stands as one brought up to it at once, whatever the frame rate.

use vstd::prelude::*;
use crate::fixed::Fixed;
use crate::game::{lemma_run_outcome, spec_succ, spec_target_ticks, GameView, State, NANOS_SCALE};

verus! {

/// The game with its count of frames set to `frames`.
pub open spec fn with_frames(game: GameView, frames: u64) -> GameView {
    GameView { frame_counter: frames, ..game }
}

/// Whether two games are alike in all but their count of frames.
pub open spec fn alike_but_for_frames(one: GameView, other: GameView) -> bool {
    with_frames(one, 0) == with_frames(other, 0)
}

/// Neither the physics nor the test for escape looks at the count of frames.
pub proof fn lemma_physics_ignores_frames(game: GameView, frames: u64)
    ensures
        with_frames(game, frames).spec_physics() == with_frames(game.spec_physics(), frames),
        with_frames(game, frames).spec_has_escaped() == game.spec_has_escaped(),
{
    reveal(GameView::spec_physics);
    reveal(GameView::spec_has_escaped);
}

/// A run of ticks goes the same way from games that are alike but for
/// their count of frames.
pub proof fn lemma_run_ignores_frames(game: GameView, frames: u64, ticks: nat)
    ensures
        with_frames(game, frames).spec_run(ticks).1 == game.spec_run(ticks).1,
        alike_but_for_frames(with_frames(game, frames).spec_run(ticks).0, game.spec_run(ticks).0),
    decreases ticks,
{
    if ticks > 0 {
        let counted = GameView { tick_counter: spec_succ(game.tick_counter), ..game };
        lemma_physics_ignores_frames(counted, frames);
        assert(with_frames(counted, frames) == (GameView {
            tick_counter: spec_succ(game.tick_counter),
            ..with_frames(game, frames)
        }));
        let next = counted.spec_physics();
        lemma_physics_ignores_frames(next, frames);
        if !next.spec_has_escaped() {
            lemma_run_ignores_frames(next, frames, (ticks - 1) as nat);
        }
    }
}

/// A run of ticks that ends in play, followed by a second run, ends as the
/// one run of all the ticks does, but for the frames counted.
pub proof fn lemma_run_in_steps(game: GameView, first: nat, then: nat)
    requires
        game.spec_run(first).1 == State::Playing,
    ensures
        ({
            let middle = game.spec_run(first).0;
            &&& game.spec_run(first + then).1 == middle.spec_run(then).1
            &&& alike_but_for_frames(game.spec_run(first + then).0, middle.spec_run(then).0)
        }),
    decreases first,
{
    if first == 0 {
        lemma_run_ignores_frames(game, spec_succ(game.frame_counter), then);
    } else {
        let next = GameView { tick_counter: spec_succ(game.tick_counter), ..game }.spec_physics();
        lemma_run_in_steps(next, (first - 1) as nat, then);
        assert((first - 1) as nat + then == (first + then - 1) as nat);
    }
}

/// More time calls for no fewer ticks.
pub proof fn lemma_target_grows(earlier: u128, later: u128, tick_rate: Fixed)
    requires
        earlier <= later,
    ensures
        spec_target_ticks(earlier, tick_rate) <= spec_target_ticks(later, tick_rate),
{
    let a = if earlier > u64::MAX {
        u64::MAX as int
    } else {
        earlier as int
    };
    let b = if later > u64::MAX {
        u64::MAX as int
    } else {
        later as int
    };
    let rate = if tick_rate.raw > 0 {
        tick_rate.raw as int
    } else {
        0
    };
    let half = NANOS_SCALE as int / 2;
    let whole = NANOS_SCALE as int;
    assert((a * rate + half) / whole <= (b * rate + half) / whole) by (nonlinear_arith)
        requires
            0 <= a <= b,
            rate >= 0,
            half >= 0,
            whole > 0,
    {
        assert(a * rate <= b * rate);
    }
}

/// A game updated at an earlier and then at a later moment within its time
/// stands, but for the frames counted, as one updated at the later moment
/// alone: how often a game is updated does not bear on how it goes.
pub proof fn lemma_advance_in_steps(game: GameView, earlier: u128, later: u128)
    requires
        earlier <= later <= game.level.max_time,
        game.frame_counter < u64::MAX,
        game.spec_advance(earlier).1 == State::Playing,
    ensures
        ({
            let middle = game.spec_advance(earlier).0;
            &&& game.spec_advance(later).1 == middle.spec_advance(later).1
            &&& alike_but_for_frames(game.spec_advance(later).0, middle.spec_advance(later).0)
        }),
{
    let first_target = spec_target_ticks(earlier, game.tick_rate);
    let first = game.spec_ticks_due(first_target);
    lemma_run_outcome(game, first);
    let middle = game.spec_advance(earlier).0;
    let target = spec_target_ticks(later, game.tick_rate);
    lemma_target_grows(earlier, later, game.tick_rate);
    let then = middle.spec_ticks_due(target);
    assert(first + then == game.spec_ticks_due(target));
    lemma_run_in_steps(game, first, then);
}

} // verus!
