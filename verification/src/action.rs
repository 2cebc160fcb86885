//! The timed action tree: primitive actions plus two structural combinators,
//! with exact duration, progress and completion accounting.
//!
//! Every action has a fixed total duration, computable without running it,
//! and a run state that only moves forward: not started, running, finished.

use vstd::prelude::*;
use crate::geom::Point;
use crate::geom::Color;
use crate::geom::point_wf;
use crate::geom::color_wf;
use crate::geom::MAX_TIME;
use crate::geom::min_time;
use crate::geom::move_target;
use crate::geom::blend_target;
use crate::geom::move_target_exec;
use crate::geom::blend_target_exec;
use crate::geom::clamp_pos;
use crate::view::GameView;
use crate::view::SpriteState;
use crate::view::other_layer;
use crate::view::SceneModel;
use crate::view::scene_attach;
use crate::view::scene_detach;
use crate::view::scene_set_pos;
use crate::view::scene_set_color;

verus! {

/// A named display layer of the view.
#[derive(Clone, Copy, PartialEq, Eq, Structural, Debug)]
pub enum Layer {
    Fg,
    Text,
}

/// A node in the timed-action tree.  `handle` fields index the sprites of a
/// `View`; actions borrow handles, they never create or destroy them except
/// for layer membership through `Show` and `Hide`.
#[allow(inconsistent_fields)]
pub enum Action {
    /// Finishes once `duration` has elapsed; no side effect.
    Sleep { duration: i64, progress: i64, done: bool },
    /// Linearly moves the sprite by `delta` over `duration`; the starting
    /// position is captured on the first advance.
    MoveBy {
        handle: usize,
        delta: Point,
        duration: i64,
        progress: i64,
        start: Option<Point>,
        done: bool,
    },
    /// Linearly interpolates the sprite's color toward `target` over
    /// `duration`; the starting color is captured on the first advance.
    ChangeColorTo {
        handle: usize,
        target: Color,
        duration: i64,
        progress: i64,
        start: Option<Color>,
        done: bool,
    },
    /// Instantaneously attaches the sprite to the layer.
    Show { layer: Layer, handle: usize, done: bool },
    /// Instantaneously detaches the sprite from the layer.
    Hide { layer: Layer, handle: usize, done: bool },
    /// Runs its children strictly one after another; a child only starts
    /// once its predecessor is finished.
    Sequence { children: Vec<Action>, index: usize },
    /// On its first advance, hands its child to the scheduler as an
    /// independent track and reports finished at once; the parent sequence
    /// never waits on the forked child.
    Fork { child: Option<Box<Action>> },
}

/// The fixed total duration of an action, in milliseconds.  A sequence's
/// duration is the sum of its children's durations; a fork takes no time of
/// its own, its child is accounted for by the scheduler instead.
pub open spec fn duration_of(a: Action) -> int
    decreases a,
{
    match a {
        Action::Sleep { duration, .. } => duration as int,
        Action::MoveBy { duration, .. } => duration as int,
        Action::ChangeColorTo { duration, .. } => duration as int,
        Action::Show { .. } => 0,
        Action::Hide { .. } => 0,
        Action::Sequence { children, .. } => sum_durations(children@),
        Action::Fork { .. } => 0,
    }
}

/// The sum of the durations of a sequence of actions.
pub open spec fn sum_durations(s: Seq<Action>) -> int
    decreases s,
{
    if s.len() == 0 {
        0
    } else {
        sum_durations(s.drop_last()) + duration_of(s.last())
    }
}

/// How much simulated time an action has consumed so far.
pub open spec fn progress_of(a: Action) -> int
    decreases a,
{
    match a {
        Action::Sleep { progress, .. } => progress as int,
        Action::MoveBy { progress, .. } => progress as int,
        Action::ChangeColorTo { progress, .. } => progress as int,
        Action::Show { .. } => 0,
        Action::Hide { .. } => 0,
        Action::Sequence { children, index } => seq_progress(children@, index as int),
        Action::Fork { .. } => 0,
    }
}

/// The progress of a sequence standing at child `index`: the full durations
/// of the finished children before it plus the current child's progress.
pub open spec fn seq_progress(s: Seq<Action>, index: int) -> int
    decreases s,
{
    if 0 <= index < s.len() {
        sum_durations(s.take(index)) + progress_of(s[index])
    } else {
        sum_durations(s)
    }
}

/// The structural height of an action tree; the termination measure of the
/// executable functions that walk a tree.
pub open spec fn height_of(a: Action) -> nat
    decreases a,
{
    match a {
        Action::Sequence { children, .. } => 1 + seq_height(children@),
        Action::Fork { child } => match child {
            Some(c) => 1 + height_of(*c),
            None => 1,
        },
        _ => 1,
    }
}

/// The largest height among a sequence of actions.
pub open spec fn seq_height(s: Seq<Action>) -> nat
    decreases s,
{
    if s.len() == 0 {
        0
    } else {
        let rest = seq_height(s.drop_last());
        let h = height_of(s.last());
        if h > rest {
            h
        } else {
            rest
        }
    }
}

/// No element of a sequence is taller than the sequence's height.
pub proof fn lemma_seq_height_elem(s: Seq<Action>, i: int)
    requires
        0 <= i < s.len(),
    ensures
        height_of(s[i]) <= seq_height(s),
    decreases s.len(),
{
    if i < s.len() - 1 {
        lemma_seq_height_elem(s.drop_last(), i);
        assert(s.drop_last()[i] == s[i]);
    }
}

/// Whether an action is in its terminal run state.
pub open spec fn finished_of(a: Action) -> bool {
    match a {
        Action::Sleep { done, .. } => done,
        Action::MoveBy { done, .. } => done,
        Action::ChangeColorTo { done, .. } => done,
        Action::Show { done, .. } => done,
        Action::Hide { done, .. } => done,
        Action::Sequence { children, index } => index == children@.len(),
        Action::Fork { child } => child is None,
    }
}

/// Well-formedness of the timing state of an action: every duration is in
/// `0 ..= MAX_TIME`, progress never exceeds duration, finished interpolators
/// stand exactly at their duration, and geometry is within bounds.
pub open spec fn time_wf(a: Action) -> bool
    decreases a,
{
    match a {
        Action::Sleep { duration, progress, done } => {
            &&& 0 <= duration <= MAX_TIME
            &&& 0 <= progress <= duration
            &&& done ==> progress == duration
        },
        Action::MoveBy { handle, delta, duration, progress, start, done } => {
            &&& 0 <= duration <= MAX_TIME
            &&& 0 <= progress <= duration
            &&& done ==> progress == duration
            &&& point_wf(delta)
            &&& start is None ==> progress == 0 && !done
            &&& start matches Some(p) ==> point_wf(p)
        },
        Action::ChangeColorTo { handle, target, duration, progress, start, done } => {
            &&& 0 <= duration <= MAX_TIME
            &&& 0 <= progress <= duration
            &&& done ==> progress == duration
            &&& color_wf(target)
            &&& start is None ==> progress == 0 && !done
            &&& start matches Some(c) ==> color_wf(c)
        },
        Action::Show { .. } => true,
        Action::Hide { .. } => true,
        Action::Sequence { children, index } => {
            &&& index <= children@.len()
            &&& forall|i: int| 0 <= i < children@.len() ==> time_wf(#[trigger] children@[i])
            &&& forall|i: int| 0 <= i < index ==> finished_of(#[trigger] children@[i])
            &&& forall|i: int|
                index < i < children@.len() ==> progress_of(#[trigger] children@[i]) == 0
            &&& sum_durations(children@) <= MAX_TIME
        },
        Action::Fork { child } => child matches Some(c) ==> time_wf(*c),
    }
}

/// Every sprite handle named by the action is below `n`, the number of
/// sprites the view holds.
pub open spec fn handles_ok(a: Action, n: int) -> bool
    decreases a,
{
    match a {
        Action::Sleep { .. } => true,
        Action::MoveBy { handle, .. } => handle < n,
        Action::ChangeColorTo { handle, .. } => handle < n,
        Action::Show { handle, .. } => handle < n,
        Action::Hide { handle, .. } => handle < n,
        Action::Sequence { children, .. } => forall|i: int|
            0 <= i < children@.len() ==> handles_ok(#[trigger] children@[i], n),
        Action::Fork { child } => child matches Some(c) ==> handles_ok(*c, n),
    }
}

/// Handle validity is preserved when the view only gains sprites.
pub proof fn lemma_handles_ok_mono(a: Action, n: int, m: int)
    requires
        handles_ok(a, n),
        n <= m,
    ensures
        handles_ok(a, m),
    decreases a,
{
    match a {
        Action::Sequence { children, .. } => {
            assert forall|i: int| 0 <= i < children@.len() implies handles_ok(
                #[trigger] children@[i],
                m,
            ) by {
                lemma_handles_ok_mono(children@[i], n, m);
            }
        },
        Action::Fork { child } => {
            if let Some(c) = child {
                lemma_handles_ok_mono(*c, n, m);
            }
        },
        _ => {},
    }
}

/// Every well-formed action has a nonnegative duration.
pub proof fn lemma_duration_nonneg(a: Action)
    requires
        time_wf(a),
    ensures
        duration_of(a) >= 0,
    decreases a,
{
    match a {
        Action::Sequence { children, .. } => {
            lemma_sum_durations_nonneg(children@);
        },
        _ => {},
    }
}

/// The sum of the durations of well-formed actions is nonnegative.
pub proof fn lemma_sum_durations_nonneg(s: Seq<Action>)
    requires
        forall|i: int| 0 <= i < s.len() ==> time_wf(#[trigger] s[i]),
    ensures
        sum_durations(s) >= 0,
    decreases s,
{
    if s.len() > 0 {
        lemma_sum_durations_nonneg(s.drop_last());
        lemma_duration_nonneg(s.last());
    }
}

/// Taking one more child adds exactly that child's duration to the sum.
pub proof fn lemma_sum_take_succ(s: Seq<Action>, i: int)
    requires
        0 <= i < s.len(),
    ensures
        sum_durations(s.take(i + 1)) == sum_durations(s.take(i)) + duration_of(s[i]),
{
    assert(s.take(i + 1).drop_last() =~= s.take(i));
    assert(s.take(i + 1).last() == s[i]);
}

/// Partial sums of well-formed durations grow with the prefix length.
pub proof fn lemma_sum_take_mono(s: Seq<Action>, i: int, j: int)
    requires
        forall|k: int| 0 <= k < s.len() ==> time_wf(#[trigger] s[k]),
        0 <= i <= j <= s.len(),
    ensures
        sum_durations(s.take(i)) <= sum_durations(s.take(j)),
    decreases j - i,
{
    if i < j {
        lemma_sum_take_mono(s, i, j - 1);
        lemma_sum_take_succ(s, j - 1);
        lemma_duration_nonneg(s[j - 1]);
    }
}

/// The whole-prefix sum is the sequence's sum.
pub proof fn lemma_sum_take_all(s: Seq<Action>)
    ensures
        sum_durations(s.take(s.len() as int)) == sum_durations(s),
{
    assert(s.take(s.len() as int) =~= s);
}

/// Appending one action adds exactly its duration to the sum.
pub proof fn lemma_sum_push(s: Seq<Action>, c: Action)
    ensures
        sum_durations(s.push(c)) == sum_durations(s) + duration_of(c),
{
    assert(s.push(c).drop_last() =~= s);
    assert(s.push(c).last() == c);
}

/// Replacing one child by one of equal duration keeps the sum of durations.
pub proof fn lemma_sum_update(s: Seq<Action>, i: int, c: Action)
    requires
        0 <= i < s.len(),
        duration_of(c) == duration_of(s[i]),
    ensures
        sum_durations(s.update(i, c)) == sum_durations(s),
    decreases s.len(),
{
    if i == s.len() - 1 {
        assert(s.update(i, c).drop_last() =~= s.drop_last());
        assert(s.update(i, c).last() == c);
    } else {
        lemma_sum_update(s.drop_last(), i, c);
        assert(s.update(i, c).drop_last() =~= s.drop_last().update(i, c));
        assert(s.update(i, c).last() == s.last());
    }
}

/// Progress is pinned between zero and the duration, and a finished action
/// stands exactly at its duration.
pub proof fn lemma_progress_bounds(a: Action)
    requires
        time_wf(a),
    ensures
        0 <= progress_of(a) <= duration_of(a),
        finished_of(a) ==> progress_of(a) == duration_of(a),
    decreases a,
{
    match a {
        Action::Sequence { children, index } => {
            let s = children@;
            let i = index as int;
            lemma_sum_take_all(s);
            if i < s.len() {
                lemma_progress_bounds(s[i]);
                lemma_sum_take_mono(s, 0, i);
                lemma_sum_take_succ(s, i);
                lemma_sum_take_mono(s, i + 1, s.len() as int);
                assert(s.take(0) =~= Seq::<Action>::empty());
            } else {
                lemma_sum_durations_nonneg(s);
            }
        },
        _ => {},
    }
}

/// What one advance call produces, in the abstract: the scene afterwards,
/// the actions newly handed to the scheduler, and the surplus time the
/// action did not consume.
pub struct StepResult {
    pub scene: SceneModel,
    pub spawned: Seq<Action>,
    pub surplus: int,
}

/// The surplus an action with `p` of `d` elapsed leaves after an advance by
/// `dt`: whatever does not fit into its remaining time.
pub open spec fn surplus_of(p: int, d: int, dt: int) -> int {
    if p + dt >= d {
        dt - (d - p)
    } else {
        0
    }
}

/// The pure model of `Action::advance`: what one advance by `dt` does to
/// the scene, which forked children it hands to the scheduler, and the
/// surplus it returns.  `Action::advance` ensures it agrees with this
/// function, so the visual effect of playing any tree is fully determined.
pub open spec fn step_action(a: Action, dt: int, m: SceneModel) -> StepResult
    decreases a, 0int,
{
    if finished_of(a) {
        StepResult { scene: m, spawned: Seq::empty(), surplus: dt }
    } else {
        match a {
            Action::Sleep { duration, progress, .. } => StepResult {
                scene: m,
                spawned: Seq::empty(),
                surplus: surplus_of(progress as int, duration as int, dt),
            },
            Action::MoveBy { handle, delta, duration, progress, start, .. } => {
                let st = match start {
                    Some(p) => p,
                    None => m.sprites[handle as int].pos,
                };
                let np = min_time(progress + dt, duration as int);
                StepResult {
                    scene: scene_set_pos(
                        m,
                        handle as int,
                        move_target(st, delta, np, duration as int),
                    ),
                    spawned: Seq::empty(),
                    surplus: surplus_of(progress as int, duration as int, dt),
                }
            },
            Action::ChangeColorTo { handle, target, duration, progress, start, .. } => {
                let st = match start {
                    Some(c) => c,
                    None => m.sprites[handle as int].color,
                };
                let np = min_time(progress + dt, duration as int);
                StepResult {
                    scene: scene_set_color(
                        m,
                        handle as int,
                        blend_target(st, target, np, duration as int),
                    ),
                    spawned: Seq::empty(),
                    surplus: surplus_of(progress as int, duration as int, dt),
                }
            },
            Action::Show { layer, handle, .. } => StepResult {
                scene: scene_attach(m, layer, handle),
                spawned: Seq::empty(),
                surplus: dt,
            },
            Action::Hide { layer, handle, .. } => StepResult {
                scene: scene_detach(m, layer, handle),
                spawned: Seq::empty(),
                surplus: dt,
            },
            Action::Sequence { children, index } => seq_step(children@, index as int, dt, m),
            Action::Fork { child } => match child {
                Some(b) => StepResult { scene: m, spawned: seq![*b], surplus: dt },
                None => StepResult { scene: m, spawned: Seq::empty(), surplus: dt },
            },
        }
    }
}

/// The model of a sequence advancing from child `i`: the child takes what
/// it can of `dt`, and if that finishes it, the surplus carries over to the
/// next child within the same step.
pub open spec fn seq_step(s: Seq<Action>, i: int, dt: int, m: SceneModel) -> StepResult
    decreases s, s.len() - i,
{
    if i < 0 || i >= s.len() {
        StepResult { scene: m, spawned: Seq::empty(), surplus: dt }
    } else {
        let r = step_action(s[i], dt, m);
        if finished_of(s[i]) || progress_of(s[i]) + dt >= duration_of(s[i]) {
            let rest = seq_step(s, i + 1, r.surplus, r.scene);
            StepResult {
                scene: rest.scene,
                spawned: r.spawned + rest.spawned,
                surplus: rest.surplus,
            }
        } else {
            StepResult { scene: r.scene, spawned: r.spawned, surplus: 0 }
        }
    }
}

impl Action {
    /// Builds a pause of the given duration.
    pub fn sleep(duration: i64) -> (a: Action)
        requires
            0 <= duration <= MAX_TIME,
        ensures
            a == (Action::Sleep { duration, progress: 0, done: false }),
            time_wf(a),
            duration_of(a) == duration,
            progress_of(a) == 0,
            !finished_of(a),
    {
        Action::Sleep { duration, progress: 0, done: false }
    }

    /// Builds a linear move of the sprite by `delta` over `duration`.
    pub fn move_by(handle: usize, delta: Point, duration: i64) -> (a: Action)
        requires
            0 <= duration <= MAX_TIME,
            point_wf(delta),
        ensures
            a == (Action::MoveBy {
                handle,
                delta,
                duration,
                progress: 0,
                start: None::<Point>,
                done: false,
            }),
            time_wf(a),
            handles_ok(a, handle + 1),
            duration_of(a) == duration,
            progress_of(a) == 0,
            !finished_of(a),
    {
        Action::MoveBy { handle, delta, duration, progress: 0, start: None, done: false }
    }

    /// Builds a linear color change of the sprite toward `target`.
    pub fn change_color_to(handle: usize, target: Color, duration: i64) -> (a: Action)
        requires
            0 <= duration <= MAX_TIME,
            color_wf(target),
        ensures
            a == (Action::ChangeColorTo {
                handle,
                target,
                duration,
                progress: 0,
                start: None::<Color>,
                done: false,
            }),
            time_wf(a),
            handles_ok(a, handle + 1),
            duration_of(a) == duration,
            progress_of(a) == 0,
            !finished_of(a),
    {
        Action::ChangeColorTo { handle, target, duration, progress: 0, start: None, done: false }
    }

    /// Builds an instantaneous attach of the sprite to the layer.
    pub fn show(layer: Layer, handle: usize) -> (a: Action)
        ensures
            a == (Action::Show { layer, handle, done: false }),
            time_wf(a),
            handles_ok(a, handle + 1),
            duration_of(a) == 0,
            progress_of(a) == 0,
            !finished_of(a),
    {
        Action::Show { layer, handle, done: false }
    }

    /// Builds an instantaneous detach of the sprite from the layer.
    pub fn hide_from(layer: Layer, handle: usize) -> (a: Action)
        ensures
            a == (Action::Hide { layer, handle, done: false }),
            time_wf(a),
            handles_ok(a, handle + 1),
            duration_of(a) == 0,
            progress_of(a) == 0,
            !finished_of(a),
    {
        Action::Hide { layer, handle, done: false }
    }

    /// Builds the sequential composition of `children`; its duration is
    /// exactly the sum of the children's durations.
    pub fn sequence(children: Vec<Action>) -> (a: Action)
        requires
            forall|i: int| 0 <= i < children@.len() ==> time_wf(#[trigger] children@[i]),
            forall|i: int| 0 <= i < children@.len() ==> progress_of(#[trigger] children@[i]) == 0,
            sum_durations(children@) <= MAX_TIME,
        ensures
            a == (Action::Sequence { children, index: 0usize }),
            time_wf(a),
            duration_of(a) == sum_durations(children@),
            progress_of(a) == 0,
            finished_of(a) <==> children@.len() == 0,
    {
        proof {
            if children@.len() > 0 {
                assert(children@.take(0) =~= Seq::<Action>::empty());
            }
        }
        Action::Sequence { children, index: 0 }
    }

    /// Wraps an action so that it contributes no time to an enclosing
    /// sequence and runs as an independent track once advanced.
    pub fn fork(child: Action) -> (a: Action)
        requires
            time_wf(child),
        ensures
            a matches Action::Fork { child: c } && c matches Some(b) && *b == child,
            time_wf(a),
            duration_of(a) == 0,
            progress_of(a) == 0,
            !finished_of(a),
    {
        Action::Fork { child: Some(Box::new(child)) }
    }

    /// Whether the action is in its terminal run state.
    pub fn is_finished(&self) -> (r: bool)
        ensures
            r == finished_of(*self),
    {
        match self {
            Action::Sleep { done, .. } => *done,
            Action::MoveBy { done, .. } => *done,
            Action::ChangeColorTo { done, .. } => *done,
            Action::Show { done, .. } => *done,
            Action::Hide { done, .. } => *done,
            Action::Sequence { children, index } => *index == children.len(),
            Action::Fork { child } => child.is_none(),
        }
    }

    /// The fixed total duration of the action, a pure function of its
    /// construction parameters.
    #[verifier::loop_isolation(false)]
    pub fn duration(&self) -> (d: i64)
        requires
            time_wf(*self),
        ensures
            d == duration_of(*self),
        decreases height_of(*self),
    {
        match self {
            Action::Sleep { duration, .. } => *duration,
            Action::MoveBy { duration, .. } => *duration,
            Action::ChangeColorTo { duration, .. } => *duration,
            Action::Show { .. } => 0,
            Action::Hide { .. } => 0,
            Action::Sequence { children, index: _idx } => {
                let ghost s = children@;
                let mut total: i64 = 0;
                let mut i: usize = 0;
                proof {
                    assert(s.take(0) =~= Seq::<Action>::empty());
                }
                while i < children.len()
                    invariant
                        i <= s.len(),
                        children@ == s,
                        forall|k: int| 0 <= k < s.len() ==> time_wf(#[trigger] s[k]),
                        sum_durations(s) <= MAX_TIME,
                        total == sum_durations(s.take(i as int)),
                    decreases s.len() - i,
                {
                    proof {
                        lemma_sum_take_succ(s, i as int);
                        lemma_sum_take_mono(s, 0, i as int);
                        lemma_sum_take_mono(s, i as int + 1, s.len() as int);
                        lemma_sum_take_all(s);
                        lemma_duration_nonneg(s[i as int]);
                        assert(s.take(0) =~= Seq::<Action>::empty());
                    }
                    proof {
                        lemma_seq_height_elem(s, i as int);
                        assert(height_of(*self) == 1 + seq_height(s));
                    }
                    let d = children[i].duration();
                    total = total + d;
                    i = i + 1;
                }
                proof {
                    lemma_sum_take_all(s);
                }
                total
            },
            Action::Fork { .. } => 0,
        }
    }

    /// Advances the action by `dt` milliseconds of simulated time against the
    /// view.  A sequence advances only its current child, carrying surplus
    /// time over to the next child within the same call; a fork hands its
    /// child to `spawned` (the scheduler's independent-track list) and
    /// finishes at once.  Returns whether the action is now finished and the
    /// surplus time it did not consume.
    ///
    /// Advancing a finished action is a no-op that keeps reporting finished,
    /// and an interpolating action that reaches its duration stands exactly
    /// at its target value.
    #[verifier::loop_isolation(false)]
    #[verifier::rlimit(100)]
    #[verifier::spinoff_prover]
    pub fn advance(&mut self, dt: i64, view: &mut GameView, spawned: &mut Vec<Action>) -> (res: (
        bool,
        i64,
    ))
        requires
            time_wf(*old(self)),
            handles_ok(*old(self), old(view).sprites@.len() as int),
            old(view).wf(),
            0 <= dt <= MAX_TIME,
        ensures
            time_wf(*final(self)),
            handles_ok(*final(self), old(view).sprites@.len() as int),
            final(view).wf(),
            final(view).sprites@.len() == old(view).sprites@.len(),
            final(view).objs == old(view).objs,
            final(view).tile_size == old(view).tile_size,
            duration_of(*final(self)) == duration_of(*old(self)),
            progress_of(*final(self)) == min_time(
                progress_of(*old(self)) + dt,
                duration_of(*old(self)),
            ),
            finished_of(*final(self)) <==> (finished_of(*old(self)) || progress_of(*old(self))
                + dt >= duration_of(*old(self))),
            res.0 == finished_of(*final(self)),
            res.1 == dt - (progress_of(*final(self)) - progress_of(*old(self))),
            0 <= res.1 <= dt,
            finished_of(*old(self)) ==> *final(self) == *old(self) && *final(view) == *old(view)
                && final(spawned)@ == old(spawned)@,
            final(spawned)@.len() >= old(spawned)@.len(),
            forall|k: int| 0 <= k < old(spawned)@.len() ==> final(spawned)@[k] == old(spawned)@[k],
            forall|k: int|
                old(spawned)@.len() <= k < final(spawned)@.len() ==> time_wf(
                    #[trigger] final(spawned)@[k],
                ) && handles_ok(final(spawned)@[k], old(view).sprites@.len() as int),
            ({
                let r = step_action(*old(self), dt as int, old(view).scene());
                &&& final(view).scene() == r.scene
                &&& final(spawned)@ == old(spawned)@ + r.spawned
                &&& res.1 == r.surplus
            }),
        decreases height_of(*old(self)),
    {
        proof {
            lemma_progress_bounds(*old(self));
            assert(old(spawned)@ + Seq::<Action>::empty() =~= old(spawned)@);
        }
        if self.is_finished() {
            return (true, dt);
        }
        let ghost n = old(view).sprites@.len() as int;
        match self {
            Action::Sleep { duration, progress, done } => {
                let d = *duration;
                let p = *progress;
                if dt < d - p {
                    *progress = p + dt;
                    (false, 0)
                } else {
                    *progress = d;
                    *done = true;
                    (true, dt - (d - p))
                }
            },
            Action::MoveBy { handle, delta, duration, progress, start, done } => {
                let h = *handle;
                let st: Point = match start {
                    Some(sp) => *sp,
                    None => view.sprite_pos(h),
                };
                if start.is_none() {
                    *start = Some(st);
                }
                let d = *duration;
                let p = *progress;
                let fin = dt >= d - p;
                let np = if fin {
                    d
                } else {
                    p + dt
                };
                let sur = if fin {
                    dt - (d - p)
                } else {
                    0
                };
                *progress = np;
                if fin {
                    *done = true;
                }
                let target = move_target_exec(st, *delta, np, d);
                view.set_sprite_pos(h, target);
                (fin, sur)
            },
            Action::ChangeColorTo { handle, target, duration, progress, start, done } => {
                let h = *handle;
                let st: Color = match start {
                    Some(sc) => *sc,
                    None => view.sprite_color(h),
                };
                if start.is_none() {
                    *start = Some(st);
                }
                let d = *duration;
                let p = *progress;
                let fin = dt >= d - p;
                let np = if fin {
                    d
                } else {
                    p + dt
                };
                let sur = if fin {
                    dt - (d - p)
                } else {
                    0
                };
                *progress = np;
                if fin {
                    *done = true;
                }
                let c = blend_target_exec(st, *target, np, d);
                view.set_sprite_color(h, c);
                (fin, sur)
            },
            Action::Show { layer, handle, done } => {
                view.attach(*layer, *handle);
                *done = true;
                (true, dt)
            },
            Action::Hide { layer, handle, done } => {
                view.detach(*layer, *handle);
                *done = true;
                (true, dt)
            },
            Action::Sequence { children, index } => {
                let ghost orig = children@;
                let ghost i0 = *index as int;
                let ghost p0 = seq_progress(orig, i0);
                let ghost total = sum_durations(orig);
                let ghost m0 = old(view).scene();
                proof {
                    assert(*old(self) == Action::Sequence { children: *children, index: *index });
                    assert(spawned@.subrange(
                        old(spawned)@.len() as int,
                        spawned@.len() as int,
                    ) =~= Seq::<Action>::empty());
                    assert(Seq::<Action>::empty() + seq_step(orig, i0, dt as int, m0).spawned
                        =~= seq_step(orig, i0, dt as int, m0).spawned);
                }
                let mut rem: i64 = dt;
                let mut running: bool = true;
                while running
                    invariant
                        running ==> ({
                            let full = seq_step(orig, i0, dt as int, m0);
                            let rest = seq_step(orig, *index as int, rem as int, view.scene());
                            &&& full.scene == rest.scene
                            &&& full.spawned == spawned@.subrange(
                                old(spawned)@.len() as int,
                                spawned@.len() as int,
                            ) + rest.spawned
                            &&& full.surplus == rest.surplus
                        }),
                        !running ==> ({
                            let full = seq_step(orig, i0, dt as int, m0);
                            &&& full.scene == view.scene()
                            &&& full.spawned == spawned@.subrange(
                                old(spawned)@.len() as int,
                                spawned@.len() as int,
                            )
                            &&& full.surplus == rem as int
                        }),
                        *index <= children@.len(),
                        children@.len() == orig.len(),
                        forall|j: int| *index < j < orig.len() ==> children@[j] == orig[j],
                        running && (*index as int) < orig.len() ==> children@[*index as int]
                            == orig[*index as int],
                        forall|j: int|
                            0 <= j < children@.len() ==> time_wf(#[trigger] children@[j]),
                        forall|j: int|
                            0 <= j < children@.len() ==> handles_ok(#[trigger] children@[j], n),
                        forall|j: int| 0 <= j < *index ==> finished_of(#[trigger] children@[j]),
                        forall|j: int|
                            *index < j < children@.len() ==> progress_of(#[trigger] children@[j])
                                == 0,
                        sum_durations(children@) == total,
                        0 <= rem <= dt,
                        seq_progress(children@, *index as int) == p0 + dt - rem,
                        i0 <= *index as int,
                        view.wf(),
                        view.sprites@.len() == old(view).sprites@.len(),
                        view.objs == old(view).objs,
                        view.tile_size == old(view).tile_size,
                        spawned@.len() >= old(spawned)@.len(),
                        forall|k: int|
                            0 <= k < old(spawned)@.len() ==> spawned@[k] == old(spawned)@[k],
                        forall|k: int|
                            old(spawned)@.len() <= k < spawned@.len() ==> time_wf(
                                #[trigger] spawned@[k],
                            ) && handles_ok(spawned@[k], n),
                        !running ==> (*index == children@.len() || rem == 0),
                        !running ==> (*index == children@.len() || progress_of(
                            children@[*index as int],
                        ) < duration_of(children@[*index as int])),
                    decreases children@.len() - *index + (if running {
                        1int
                    } else {
                        0int
                    }),
                {
                    if *index == children.len() {
                        proof {
                            let full = seq_step(orig, i0, dt as int, m0);
                            assert(seq_step(orig, *index as int, rem as int, view.scene()).scene
                                == view.scene());
                            assert(full.spawned =~= spawned@.subrange(
                                old(spawned)@.len() as int,
                                spawned@.len() as int,
                            ));
                        }
                        running = false;
                    } else {
                        let idx = *index;
                        let ghost pre_children = children@;
                        let ghost pre_child = children@[idx as int];
                        let ghost m_pre = view.scene();
                        let ghost rem_pre = rem as int;
                        let ghost sp_pre = spawned@;
                        proof {
                            lemma_seq_height_elem(orig, idx as int);
                            assert(height_of(*old(self)) == 1 + seq_height(orig));
                        }
                        let c = vstd::std_specs::vec::vec_index_mut(children, idx);
                        let r = c.advance(rem, view, spawned);
                        let fin_c = r.0;
                        let sur = r.1;
                        let ghost new_child = children@[idx as int];
                        proof {
                            assert(children@ =~= pre_children.update(idx as int, new_child));
                            lemma_sum_update(pre_children, idx as int, new_child);
                            assert(children@.take(idx as int) =~= pre_children.take(idx as int));
                            assert(pre_child == orig[idx as int]);
                            let r_c = step_action(orig[idx as int], rem_pre, m_pre);
                            let rest_pre = seq_step(orig, idx as int, rem_pre, m_pre);
                            let g = finished_of(orig[idx as int]) || progress_of(
                                orig[idx as int],
                            ) + rem_pre >= duration_of(orig[idx as int]);
                            assert(fin_c == g);
                            assert(view.scene() == r_c.scene);
                            assert(sur as int == r_c.surplus);
                            let suffix_pre = sp_pre.subrange(
                                old(spawned)@.len() as int,
                                sp_pre.len() as int,
                            );
                            let suffix_new = spawned@.subrange(
                                old(spawned)@.len() as int,
                                spawned@.len() as int,
                            );
                            assert(suffix_new =~= suffix_pre + r_c.spawned);
                            if fin_c {
                                let rest_next = seq_step(
                                    orig,
                                    idx as int + 1,
                                    r_c.surplus,
                                    r_c.scene,
                                );
                                assert(rest_pre.scene == rest_next.scene);
                                assert(rest_pre.spawned == r_c.spawned + rest_next.spawned);
                                assert(rest_pre.surplus == rest_next.surplus);
                                assert((suffix_pre + r_c.spawned) + rest_next.spawned
                                    =~= suffix_pre + (r_c.spawned + rest_next.spawned));
                            } else {
                                assert(rest_pre.scene == r_c.scene);
                                assert(rest_pre.spawned == r_c.spawned);
                                assert(rest_pre.surplus == 0);
                            }
                        }
                        if fin_c {
                            proof {
                                lemma_sum_take_succ(children@, idx as int);
                                lemma_progress_bounds(new_child);
                            }
                            *index = idx + 1;
                            rem = sur;
                            proof {
                                if (*index as int) < children@.len() {
                                    assert(children@[*index as int] == orig[*index as int]);
                                } else {
                                    lemma_sum_take_all(children@);
                                }
                            }
                        } else {
                            proof {
                                lemma_progress_bounds(new_child);
                            }
                            rem = 0;
                            running = false;
                        }
                    }
                }
                let fin = *index == children.len();
                proof {
                    let cur = Action::Sequence { children: *children, index: *index };
                    assert(*self == cur);
                    let full = seq_step(orig, i0, dt as int, m0);
                    assert(step_action(*old(self), dt as int, m0) == full);
                    assert(spawned@ =~= old(spawned)@ + spawned@.subrange(
                        old(spawned)@.len() as int,
                        spawned@.len() as int,
                    ));
                    if fin {
                        lemma_sum_take_all(children@);
                    } else {
                        let j = *index as int;
                        lemma_progress_bounds(children@[j]);
                        lemma_sum_take_succ(children@, j);
                        lemma_sum_take_mono(children@, j + 1, children@.len() as int);
                        lemma_sum_take_all(children@);
                        assert(rem == 0);
                    }
                }
                if fin {
                    (true, rem)
                } else {
                    (false, 0)
                }
            },
            Action::Fork { child } => {
                let c = child.take();
                match c {
                    Some(b) => {
                        spawned.push(*b);
                        proof {
                            assert(spawned@ =~= old(spawned)@ + seq![
                                spawned@[spawned@.len() - 1],
                            ]);
                        }
                    },
                    None => {},
                }
                (true, dt)
            },
        }
    }
}

} // verus!
