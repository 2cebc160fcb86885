//! The engine's general guarantees, stated once over the spec functions that
//! every executable contract uses.  Together with the `ensures` of
//! `Action::advance` (idempotence of advancing a finished action, exact
//! endpoints for interpolators, surplus carry-over) these pin down the
//! timing model.

use vstd::prelude::*;
use crate::action::Action;
use crate::action::duration_of;
use crate::action::progress_of;
use crate::action::finished_of;
use crate::action::sum_durations;
use crate::action::time_wf;
use crate::action::lemma_duration_nonneg;
use crate::geom::min_time;

verus! {

/// Every well-formed action has a nonnegative duration, and a sequence's
/// duration is exactly the sum of its children's durations.
pub proof fn law_duration_nonneg(a: Action)
    requires
        time_wf(a),
    ensures
        duration_of(a) >= 0,
        a matches Action::Sequence { children, .. } ==> duration_of(a) == sum_durations(
            children@,
        ),
{
    lemma_duration_nonneg(a);
}

/// A fork is free inside a sequence: its own duration and progress are zero,
/// so it adds nothing to the enclosing sequence's duration or execution
/// time, and by the advance contract (`progress + dt >= duration` holds at
/// once when the duration is zero) it finishes in the very tick that reaches
/// it, letting the sequence's next step start in the same tick.  The
/// translator's aggregate sum nonetheless charges the forked child's full
/// duration: see the contracts of `visualize` and `message`.
pub proof fn law_fork_is_free(a: Action)
    requires
        a matches Action::Fork { .. },
    ensures
        duration_of(a) == 0,
        progress_of(a) == 0,
{
}

/// A sequence of actions of one common duration `d` has duration exactly
/// `len * d`: the ground for reaching `Finished` after exactly `N * d`
/// cumulative elapsed time.
pub proof fn law_uniform_sequence_duration(s: Seq<Action>, d: int)
    requires
        forall|i: int| 0 <= i < s.len() ==> duration_of(#[trigger] s[i]) == d,
    ensures
        sum_durations(s) == s.len() * d,
    decreases s.len(),
{
    if s.len() > 0 {
        law_uniform_sequence_duration(s.drop_last(), d);
        assert((s.len() - 1) * d + d == s.len() * d) by (nonlinear_arith);
    }
}

/// Tick sub-division invariance: advancing by `a` and then by `b` leaves the
/// progress exactly where one advance by `a + b` would, and the duration is
/// reached precisely when the cumulative elapsed time covers what remained.
/// With the progress clause of `Action::advance`, feeding any ticks that sum
/// to an action's remaining time — in particular `N * d` for a fresh
/// sequence of `N` actions of duration `d` — finishes it exactly then.
pub proof fn law_tick_accumulation(p: int, a: int, b: int, dur: int)
    requires
        0 <= p <= dur,
        0 <= a,
        0 <= b,
    ensures
        min_time(min_time(p + a, dur) + b, dur) == min_time(p + a + b, dur),
        min_time(p + a, dur) == dur <==> p + a >= dur,
{
}

/// A finished action stands exactly at its duration, so advancing it
/// further cannot move it: the no-op behaviour of `Action::advance` on
/// finished actions agrees with the progress arithmetic.
pub proof fn law_finished_is_terminal(a: Action, dt: int)
    requires
        time_wf(a),
        finished_of(a),
        0 <= dt,
    ensures
        progress_of(a) == duration_of(a),
        min_time(progress_of(a) + dt, duration_of(a)) == progress_of(a),
{
    crate::action::lemma_progress_bounds(a);
}

} // verus!
