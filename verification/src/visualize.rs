//! The event-to-action translator: a stateless mapping from one simulation
//! event (with its attached effects) to a tree of timed actions, together
//! with the aggregate duration used for game-loop pacing.
//!
//! The intrinsic action and every effect action are each wrapped in their own
//! fork and placed in one sequence, so all of them start at the same
//! simulated instant; the returned duration is nonetheless the *sum* of all
//! their durations — a conservative pacing estimate, not the true parallel
//! playback time.

use vstd::prelude::*;
use crate::geom::Point;
use crate::geom::Color;
use crate::geom::PosHex;
use crate::geom::hex_wf;
use crate::geom::hex_to_point;
use crate::geom::half_i64;
use crate::geom::half_toward_zero;
use crate::geom::hex_to_point_spec;
use crate::geom::MAX_TIME;
use crate::action::Action;
use crate::action::Layer;
use crate::action::time_wf;
use crate::action::handles_ok;
use crate::action::finished_of;
use crate::action::progress_of;
use crate::action::duration_of;
use crate::action::sum_durations;
use crate::action::lemma_sum_push;
use crate::action::lemma_handles_ok_mono;
use crate::event::ActiveEvent;
use crate::event::CreateEvent;
use crate::event::MoveToEvent;
use crate::event::AttackEvent;
use crate::event::EndTurnEvent;
use crate::event::BeginTurnEvent;
use crate::event::Effect;
use crate::event::Event;
use crate::event::State;
use crate::view::GameView;

verus! {

/// Creation fade-in, alpha from clear to opaque.
pub const CREATE_FADE_MS: i64 = 500;

/// One step of a path walk.
pub const MOVE_STEP_MS: i64 = 300;

/// Each half of an attack lunge (out and back).
pub const ATTACK_STEP_MS: i64 = 150;

/// The bare pause shown for an end of turn.
pub const END_TURN_PAUSE_MS: i64 = 200;

/// Turn banner fade-in, hold, and fade-out.
pub const BANNER_FADE_IN_MS: i64 = 200;

pub const BANNER_HOLD_MS: i64 = 1500;

pub const BANNER_FADE_OUT_MS: i64 = 300;

/// Floating label fade-in, hold, and fade-out (3000 ms in all).
pub const LABEL_FADE_IN_MS: i64 = 500;

pub const LABEL_HOLD_MS: i64 = 1000;

pub const LABEL_FADE_OUT_MS: i64 = 1500;

/// Pause and fade-out once a kill label has played.
pub const KILL_PAUSE_MS: i64 = 250;

pub const KILL_FADE_MS: i64 = 100;

/// How far a floating label drifts upward while it plays.
pub const LABEL_DRIFT: i64 = 300;

/// The longest path a move event may carry.
pub const MAX_PATH_LEN: usize = 100_000;

/// The most effect entries and effects per entry one event may carry.
pub const MAX_EFFECT_ENTRIES: usize = 1000;

/// The intrinsic duration of an event's own transition, in milliseconds.
pub open spec fn event_duration(e: ActiveEvent) -> int {
    match e {
        ActiveEvent::Create(_) => CREATE_FADE_MS as int,
        ActiveEvent::MoveTo(ev) => if ev.path@.len() == 0 {
            0
        } else {
            MOVE_STEP_MS * (ev.path@.len() - 1)
        },
        ActiveEvent::Attack(_) => 2 * ATTACK_STEP_MS,
        ActiveEvent::EndTurn(_) => END_TURN_PAUSE_MS as int,
        ActiveEvent::BeginTurn(_) => (BANNER_FADE_IN_MS + BANNER_HOLD_MS + BANNER_FADE_OUT_MS) as int,
    }
}

/// The duration of a floating label subtree.
pub open spec fn label_duration() -> int {
    (LABEL_FADE_IN_MS + LABEL_HOLD_MS + LABEL_FADE_OUT_MS) as int
}

/// The duration charged to one effect.
pub open spec fn effect_duration(e: Effect) -> int {
    match e {
        Effect::Kill => label_duration() + KILL_PAUSE_MS + KILL_FADE_MS,
        Effect::Miss => label_duration(),
    }
}

/// The summed duration of one target's effect list.
pub open spec fn effect_list_duration(l: Seq<Effect>) -> int
    decreases l.len(),
{
    if l.len() == 0 {
        0
    } else {
        effect_list_duration(l.drop_last()) + effect_duration(l.last())
    }
}

/// The summed duration of every effect attached to an event.
pub open spec fn effects_duration(s: Seq<(u64, Vec<Effect>)>) -> int
    decreases s.len(),
{
    if s.len() == 0 {
        0
    } else {
        effects_duration(s.drop_last()) + effect_list_duration(s.last().1@)
    }
}

pub proof fn lemma_list_take_succ(l: Seq<Effect>, i: int)
    requires
        0 <= i < l.len(),
    ensures
        effect_list_duration(l.take(i + 1)) == effect_list_duration(l.take(i)) + effect_duration(
            l[i],
        ),
{
    assert(l.take(i + 1).drop_last() =~= l.take(i));
    assert(l.take(i + 1).last() == l[i]);
}

pub proof fn lemma_effects_take_succ(s: Seq<(u64, Vec<Effect>)>, i: int)
    requires
        0 <= i < s.len(),
    ensures
        effects_duration(s.take(i + 1)) == effects_duration(s.take(i)) + effect_list_duration(
            s[i].1@,
        ),
{
    assert(s.take(i + 1).drop_last() =~= s.take(i));
    assert(s.take(i + 1).last() == s[i]);
}

/// Every effect list's summed duration is nonnegative and bounded.
pub proof fn lemma_list_duration_bounds(l: Seq<Effect>)
    ensures
        0 <= effect_list_duration(l) <= l.len() * 3350,
    decreases l.len(),
{
    if l.len() > 0 {
        lemma_list_duration_bounds(l.drop_last());
    }
}

/// The effects sum is nonnegative and bounded by the entry counts.
pub proof fn lemma_effects_duration_bounds(s: Seq<(u64, Vec<Effect>)>)
    requires
        forall|i: int| 0 <= i < s.len() ==> (#[trigger] s[i]).1@.len() <= MAX_EFFECT_ENTRIES,
    ensures
        0 <= effects_duration(s) <= s.len() * 3350000,
    decreases s.len(),
{
    if s.len() > 0 {
        lemma_effects_duration_bounds(s.drop_last());
        lemma_list_duration_bounds(s.last().1@);
        assert(s.last().1@.len() * 3350 <= 3350000) by (nonlinear_arith)
            requires s.last().1@.len() <= 1000;
    }
}

/// The exact intrinsic action the translator builds for one event, given
/// the view it was built against.
pub open spec fn is_event_action(a: Action, e: ActiveEvent, state: State, pre: GameView) -> bool {
    match e {
        ActiveEvent::Create(c) => {
            let h = pre.sprites@.len() as usize;
            &&& a matches Action::Sequence { children, index }
            &&& index == 0
            &&& children@.len() == 2
            &&& children@[0] == (Action::Show { layer: Layer::Fg, handle: h, done: false })
            &&& children@[1] == (Action::ChangeColorTo {
                handle: h,
                target: Color { r: 1000i64, g: 1000i64, b: 1000i64, a: 1000i64 },
                duration: CREATE_FADE_MS,
                progress: 0i64,
                start: None::<Color>,
                done: false,
            })
        },
        ActiveEvent::MoveTo(m) => {
            &&& a matches Action::Sequence { children, index }
            &&& index == 0
            &&& children@.len() == (if m.path@.len() == 0 {
                0int
            } else {
                m.path@.len() - 1
            })
            &&& forall|i: int|
                0 <= i < children@.len() ==> ({
                    &&& (#[trigger] children@[i]) matches Action::MoveBy {
                        handle,
                        delta,
                        duration,
                        progress,
                        start,
                        done,
                    }
                    &&& pre.objs@.contains((m.id, handle))
                    &&& delta == step_delta(pre.tile_size as int, m.path@[i], m.path@[i + 1])
                    &&& duration == MOVE_STEP_MS
                    &&& progress == 0
                    &&& start is None
                    &&& !done
                })
        },
        ActiveEvent::Attack(at) => {
            &&& a matches Action::Sequence { children, index }
            &&& index == 0
            &&& children@.len() == 2
            &&& children@[0] matches Action::MoveBy { handle: h0, delta: d0, duration: u0, .. }
            &&& children@[1] matches Action::MoveBy { handle: h1, delta: d1, duration: u1, .. }
            &&& h0 == h1
            &&& pre.objs@.contains((at.attacker_id, h0))
            &&& u0 == ATTACK_STEP_MS
            &&& u1 == ATTACK_STEP_MS
            &&& d0.x == half_toward_zero(
                hex_to_point_spec(pre.tile_size as int, state.unit_spec(at.target_id).pos).x
                    - pre.sprites@[h0 as int].pos.x,
            )
            &&& d0.y == half_toward_zero(
                hex_to_point_spec(pre.tile_size as int, state.unit_spec(at.target_id).pos).y
                    - pre.sprites@[h0 as int].pos.y,
            )
            &&& d1.x == -d0.x
            &&& d1.y == -d0.y
        },
        ActiveEvent::EndTurn(_) => a == (Action::Sleep {
            duration: END_TURN_PAUSE_MS,
            progress: 0i64,
            done: false,
        }),
        ActiveEvent::BeginTurn(b) => {
            let h = pre.sprites@.len() as usize;
            &&& a matches Action::Sequence { children, index }
            &&& index == 0
            &&& children@.len() == 5
            &&& children@[0] == (Action::Show { layer: Layer::Text, handle: h, done: false })
            &&& children@[1] == (Action::ChangeColorTo {
                handle: h,
                target: Color { r: 0i64, g: 0i64, b: 0i64, a: 1000i64 },
                duration: BANNER_FADE_IN_MS,
                progress: 0i64,
                start: None::<Color>,
                done: false,
            })
            &&& children@[2] == (Action::Sleep {
                duration: BANNER_HOLD_MS,
                progress: 0i64,
                done: false,
            })
            &&& children@[3] == (Action::ChangeColorTo {
                handle: h,
                target: Color { r: 0i64, g: 0i64, b: 0i64, a: 0i64 },
                duration: BANNER_FADE_OUT_MS,
                progress: 0i64,
                start: None::<Color>,
                done: false,
            })
            &&& children@[4] == (Action::Hide { layer: Layer::Text, handle: h, done: false })
        },
    }
}

/// What the translator demands of an event before it will visualize it;
/// anything less is a contract violation of the upstream simulation.
pub open spec fn event_wf(event: Event, state: State, view: GameView) -> bool {
    &&& match event.active_event {
        ActiveEvent::Create(c) => {
            &&& hex_wf(c.unit.pos)
            &&& (c.unit.player_id == 0 || c.unit.player_id == 1)
            &&& !view.registered(c.id)
        },
        ActiveEvent::MoveTo(m) => {
            &&& view.registered(m.id)
            &&& m.path@.len() <= MAX_PATH_LEN
            &&& forall|i: int| 0 <= i < m.path@.len() ==> hex_wf(#[trigger] m.path@[i])
        },
        ActiveEvent::Attack(a) => {
            &&& view.registered(a.attacker_id)
            &&& state.has_unit(a.target_id)
        },
        ActiveEvent::EndTurn(_) => true,
        ActiveEvent::BeginTurn(b) => b.player_id == 0 || b.player_id == 1,
    }
    &&& effects_wf(event, state, view)
}

/// The effect table is small, keyed by distinct targets that the state
/// knows; a target that a kill will detach is registered (or is being
/// created by this very event), and no target is killed twice.
pub open spec fn effects_wf(event: Event, state: State, view: GameView) -> bool {
    let s = event.effects@;
    &&& s.len() <= MAX_EFFECT_ENTRIES
    &&& forall|i: int| 0 <= i < s.len() ==> (#[trigger] s[i]).1@.len() <= MAX_EFFECT_ENTRIES
    &&& forall|i: int, j: int| 0 <= i < j < s.len() ==> (#[trigger] s[i]).0 != (#[trigger] s[j]).0
    &&& forall|i: int| 0 <= i < s.len() ==> state.has_unit((#[trigger] s[i]).0)
    &&& forall|i: int|
        0 <= i < s.len() ==> (view.registered((#[trigger] s[i]).0) || (
        match event.active_event {
            ActiveEvent::Create(c) => c.id == s[i].0,
            _ => false,
        }))
    &&& forall|i: int, a: int, b: int|
        0 <= i < s.len() && 0 <= a < b < s[i].1@.len() ==> !((#[trigger] s[i].1@[a])
            == Effect::Kill && (#[trigger] s[i].1@[b]) == Effect::Kill)
}

/// The exact shape of a floating label's forked subtree over sprite `h`:
/// one fork wrapping a sequence whose first child (itself forked) drifts the
/// label upward over the label's whole time, and whose second child shows
/// the label, fades it in, holds it, fades it out, and hides it again.
pub open spec fn is_label_tree(a: Action, h: usize) -> bool {
    &&& a matches Action::Fork { child: c }
    &&& c matches Some(b)
    &&& (*b) matches Action::Sequence { children: inner, index: i0 }
    &&& i0 == 0
    &&& inner@.len() == 2
    &&& inner@[0] matches Action::Fork { child: mc }
    &&& mc matches Some(mv)
    &&& (*mv) == (Action::MoveBy {
        handle: h,
        delta: Point { x: 0i64, y: LABEL_DRIFT },
        duration: ((LABEL_FADE_IN_MS + LABEL_HOLD_MS + LABEL_FADE_OUT_MS) as i64),
        progress: 0i64,
        start: None::<Point>,
        done: false,
    })
    &&& inner@[1] matches Action::Sequence { children: sh, index: j0 }
    &&& j0 == 0
    &&& sh@.len() == 5
    &&& sh@[0] == (Action::Show { layer: Layer::Text, handle: h, done: false })
    &&& sh@[1] == (Action::ChangeColorTo {
        handle: h,
        target: Color { r: 0i64, g: 0i64, b: 0i64, a: 1000i64 },
        duration: LABEL_FADE_IN_MS,
        progress: 0i64,
        start: None::<Color>,
        done: false,
    })
    &&& sh@[2] == (Action::Sleep { duration: LABEL_HOLD_MS, progress: 0i64, done: false })
    &&& sh@[3] == (Action::ChangeColorTo {
        handle: h,
        target: Color { r: 0i64, g: 0i64, b: 0i64, a: 0i64 },
        duration: LABEL_FADE_OUT_MS,
        progress: 0i64,
        start: None::<Color>,
        done: false,
    })
    &&& sh@[4] == (Action::Hide { layer: Layer::Text, handle: h, done: false })
}

/// Builds the floating-label subtree: the label fades in, holds, fades out,
/// and is detached, all while drifting upward, as one self-contained forked
/// subtree whose own duration (as seen by an enclosing sequence) is zero.
/// Returns the action and the label's intrinsic duration.
pub fn message(view: &mut GameView, pos: PosHex, text: &str) -> (r: (Action, i64))
    requires
        old(view).wf(),
        hex_wf(pos),
    ensures
        final(view).wf(),
        final(view).sprites@.len() == old(view).sprites@.len() + 1,
        final(view).objs == old(view).objs,
        final(view).fg == old(view).fg,
        final(view).text == old(view).text,
        final(view).tile_size == old(view).tile_size,
        final(view).sprites@.last().label@ == text@,
        final(view).sprites@.last().pos == hex_to_point_spec(
            old(view).tile_size as int,
            pos,
        ),
        final(view).sprites@.last().color == (Color { r: 0i64, g: 0i64, b: 0i64, a: 0i64 }),
        forall|i: int|
            0 <= i < old(view).sprites@.len() ==> final(view).sprites@[i] == old(view).sprites@[i],
        time_wf(r.0),
        handles_ok(r.0, final(view).sprites@.len() as int),
        progress_of(r.0) == 0,
        !finished_of(r.0),
        duration_of(r.0) == 0,
        is_label_tree(r.0, old(view).sprites@.len() as usize),
        r.0 matches Action::Fork { child } && (child matches Some(b) ==> duration_of(*b)
            == label_duration()),
        r.1 == label_duration(),
{
    let point = hex_to_point(view.tile_size, pos);
    let invisible = Color { r: 0, g: 0, b: 0, a: 0 };
    let visible = Color { r: 0, g: 0, b: 0, a: 1000 };
    let h = view.new_sprite(point, invisible, text);
    let mut show_hide: Vec<Action> = Vec::new();
    let ghost s0 = show_hide@;
    show_hide.push(Action::show(Layer::Text, h));
    show_hide.push(Action::change_color_to(h, visible, LABEL_FADE_IN_MS));
    show_hide.push(Action::sleep(LABEL_HOLD_MS));
    show_hide.push(Action::change_color_to(h, invisible, LABEL_FADE_OUT_MS));
    show_hide.push(Action::hide_from(Layer::Text, h));
    proof {
        lemma_sum_push(show_hide@.take(0), show_hide@[0]);
        lemma_sum_push(show_hide@.take(1), show_hide@[1]);
        lemma_sum_push(show_hide@.take(2), show_hide@[2]);
        lemma_sum_push(show_hide@.take(3), show_hide@[3]);
        lemma_sum_push(show_hide@.take(4), show_hide@[4]);
        assert(show_hide@.take(0).push(show_hide@[0]) =~= show_hide@.take(1));
        assert(show_hide@.take(1).push(show_hide@[1]) =~= show_hide@.take(2));
        assert(show_hide@.take(2).push(show_hide@[2]) =~= show_hide@.take(3));
        assert(show_hide@.take(3).push(show_hide@[3]) =~= show_hide@.take(4));
        assert(show_hide@.take(4).push(show_hide@[4]) =~= show_hide@);
        assert(sum_durations(show_hide@) == label_duration());
    }
    let ghost shv = show_hide;
    let action_show_hide = Action::sequence(show_hide);
    proof {
        assert forall|i: int| 0 <= i < shv@.len() implies handles_ok(
            #[trigger] shv@[i],
            h + 1 as int,
        ) by {}
        assert(handles_ok(action_show_hide, h + 1 as int));
    }
    let time = action_show_hide.duration();
    let delta = Point { x: 0, y: LABEL_DRIFT };
    let action_move = Action::move_by(h, delta, time);
    let mut inner: Vec<Action> = Vec::new();
    inner.push(Action::fork(action_move));
    inner.push(action_show_hide);
    let ghost innerv = inner;
    proof {
        lemma_sum_push(inner@.take(0), inner@[0]);
        lemma_sum_push(inner@.take(1), inner@[1]);
        assert(inner@.take(0).push(inner@[0]) =~= inner@.take(1));
        assert(inner@.take(1).push(inner@[1]) =~= inner@);
        assert(sum_durations(inner@) == label_duration());
    }
    let combined = Action::sequence(inner);
    proof {
        assert forall|i: int| 0 <= i < innerv@.len() implies handles_ok(
            #[trigger] innerv@[i],
            h + 1 as int,
        ) by {}
        assert(handles_ok(combined, h + 1 as int));
    }
    let forked = Action::fork(combined);
    (forked, time)
}

/// What an event's own transition demands of state and view.
pub open spec fn active_event_wf(e: ActiveEvent, state: State, view: GameView) -> bool {
    match e {
        ActiveEvent::Create(c) => {
            &&& hex_wf(c.unit.pos)
            &&& (c.unit.player_id == 0 || c.unit.player_id == 1)
            &&& !view.registered(c.id)
        },
        ActiveEvent::MoveTo(m) => {
            &&& view.registered(m.id)
            &&& m.path@.len() <= MAX_PATH_LEN
            &&& forall|i: int| 0 <= i < m.path@.len() ==> hex_wf(#[trigger] m.path@[i])
        },
        ActiveEvent::Attack(a) => {
            &&& view.registered(a.attacker_id)
            &&& state.has_unit(a.target_id)
        },
        ActiveEvent::EndTurn(_) => true,
        ActiveEvent::BeginTurn(b) => b.player_id == 0 || b.player_id == 1,
    }
}

/// Fade a just-created unit in at its spawn tile, alpha from clear to
/// opaque, and register its sprite under the event's object id.
pub fn visualize_event_create(state: &State, view: &mut GameView, event: &CreateEvent) -> (r: (
    Action,
    i64,
))
    requires
        old(view).wf(),
        hex_wf(event.unit.pos),
        event.unit.player_id == 0 || event.unit.player_id == 1,
        !old(view).registered(event.id),
    ensures
        final(view).wf(),
        final(view).sprites@.len() == old(view).sprites@.len() + 1,
        final(view).registered(event.id),
        forall|x: u64| old(view).registered(x) ==> final(view).registered(x),
        final(view).tile_size == old(view).tile_size,
        time_wf(r.0),
        handles_ok(r.0, final(view).sprites@.len() as int),
        progress_of(r.0) == 0,
        duration_of(r.0) == CREATE_FADE_MS,
        r.1 == CREATE_FADE_MS,
        r.0 matches Action::Sequence { children, index } && index == 0 && children@.len() == 2
            && children@[0] == (Action::Show {
            layer: Layer::Fg,
            handle: old(view).sprites@.len() as usize,
            done: false,
        }) && children@[1] == (Action::ChangeColorTo {
            handle: old(view).sprites@.len() as usize,
            target: Color { r: 1000, g: 1000, b: 1000, a: 1000 },
            duration: CREATE_FADE_MS,
            progress: 0,
            start: None::<Color>,
            done: false,
        }),
        final(view).sprites@.last().pos == hex_to_point_spec(
            old(view).tile_size as int,
            event.unit.pos,
        ),
        final(view).sprites@.last().color == (Color {
            r: 1000i64,
            g: 1000i64,
            b: 1000i64,
            a: 0i64,
        }),
        final(view).sprites@.last().label@ == (if event.unit.player_id == 0 {
            "swordsman.png"@
        } else {
            "imp.png"@
        }),
        final(view).objs@ == old(view).objs@.push(
            (event.id, old(view).sprites@.len() as usize),
        ),
{
    let point = hex_to_point(view.tile_size, event.unit.pos);
    let name: &str = if event.unit.player_id == 0 {
        "swordsman.png"
    } else {
        "imp.png"
    };
    let transparent = Color { r: 1000, g: 1000, b: 1000, a: 0 };
    let opaque = Color { r: 1000, g: 1000, b: 1000, a: 1000 };
    let h = view.new_sprite(point, transparent, name);
    let ghost mid = *view;
    view.add_object(event.id, h);
    proof {
        assert forall|x: u64| old(view).registered(x) implies view.registered(x) by {
            let k = choose|k: int|
                0 <= k < old(view).objs@.len() && (#[trigger] old(view).objs@[k]).0 == x;
            assert(view.objs@[k] == old(view).objs@[k]);
        }
    }
    let mut children: Vec<Action> = Vec::new();
    children.push(Action::show(Layer::Fg, h));
    children.push(Action::change_color_to(h, opaque, CREATE_FADE_MS));
    proof {
        lemma_sum_push(children@.take(0), children@[0]);
        lemma_sum_push(children@.take(1), children@[1]);
        assert(children@.take(0).push(children@[0]) =~= children@.take(1));
        assert(children@.take(1).push(children@[1]) =~= children@);
        assert(sum_durations(children@) == CREATE_FADE_MS);
    }
    let ghost cv = children;
    let action = Action::sequence(children);
    proof {
        assert forall|i: int| 0 <= i < cv@.len() implies handles_ok(
            #[trigger] cv@[i],
            h + 1 as int,
        ) by {}
        assert(handles_ok(action, h + 1 as int));
    }
    let time = action.duration();
    (action, time)
}

/// The step of a path walk from one tile to the next, on screen.
pub open spec fn step_delta(tile: int, from: PosHex, to: PosHex) -> Point {
    Point {
        x: (hex_to_point_spec(tile, to).x - hex_to_point_spec(tile, from).x) as i64,
        y: (hex_to_point_spec(tile, to).y - hex_to_point_spec(tile, from).y) as i64,
    }
}

/// Walk a unit along its path: one short move per consecutive pair of tiles.
#[verifier::loop_isolation(false)]
pub fn visualize_event_move_to(view: &mut GameView, event: &MoveToEvent) -> (r: (Action, i64))
    requires
        old(view).wf(),
        old(view).registered(event.id),
        event.path@.len() <= MAX_PATH_LEN,
        forall|i: int| 0 <= i < event.path@.len() ==> hex_wf(#[trigger] event.path@[i]),
    ensures
        *final(view) == *old(view),
        time_wf(r.0),
        handles_ok(r.0, old(view).sprites@.len() as int),
        progress_of(r.0) == 0,
        r.1 == (if event.path@.len() == 0 {
            0int
        } else {
            MOVE_STEP_MS * (event.path@.len() - 1)
        }),
        duration_of(r.0) == r.1,
        ({
            &&& r.0 matches Action::Sequence { children, index }
            &&& index == 0
            &&& children@.len() == (if event.path@.len() == 0 {
                0int
            } else {
                event.path@.len() - 1
            })
            &&& forall|i: int|
                0 <= i < children@.len() ==> ({
                    &&& (#[trigger] children@[i]) matches Action::MoveBy {
                        handle,
                        delta,
                        duration,
                        progress,
                        start,
                        done,
                    }
                    &&& old(view).objs@.contains((event.id, handle))
                    &&& delta == step_delta(
                        old(view).tile_size as int,
                        event.path@[i],
                        event.path@[i + 1],
                    )
                    &&& duration == MOVE_STEP_MS
                    &&& progress == 0
                    &&& start is None
                    &&& !done
                })
        }),
{
    let h = view.id_to_sprite(event.id);
    let mut children: Vec<Action> = Vec::new();
    let mut i: usize = 0;
    while i + 1 < event.path.len()
        invariant
            i <= event.path@.len(),
            event.path@.len() > 0 ==> i <= event.path@.len() - 1,
            event.path@.len() == 0 ==> i == 0,
            children@.len() == i,
            sum_durations(children@) == MOVE_STEP_MS * i,
            forall|k: int| 0 <= k < i ==> (#[trigger] children@[k]) == (Action::MoveBy {
                handle: h,
                delta: step_delta(view.tile_size as int, event.path@[k], event.path@[k + 1]),
                duration: MOVE_STEP_MS,
                progress: 0i64,
                start: None::<Point>,
                done: false,
            }),
            forall|k: int| 0 <= k < children@.len() ==> time_wf(#[trigger] children@[k]),
            forall|k: int| 0 <= k < children@.len() ==> progress_of(#[trigger] children@[k]) == 0,
            forall|k: int|
                0 <= k < children@.len() ==> handles_ok(
                    #[trigger] children@[k],
                    view.sprites@.len() as int,
                ),
        decreases event.path@.len() - i,
    {
        let from = hex_to_point(view.tile_size, event.path[i]);
        let to = hex_to_point(view.tile_size, event.path[i + 1]);
        let diff = Point { x: to.x - from.x, y: to.y - from.y };
        let ghost pre = children@;
        children.push(Action::move_by(h, diff, MOVE_STEP_MS));
        proof {
            lemma_sum_push(pre, children@[i as int]);
        }
        i = i + 1;
    }
    proof {
        if event.path@.len() > 0 {
            assert(i == event.path@.len() - 1);
        }
    }
    let ghost cv = children;
    let action = Action::sequence(children);
    proof {
        assert(handles_ok(action, old(view).sprites@.len() as int));
    }
    let time = action.duration();
    (action, time)
}

/// Lunge the attacker halfway toward its target and back; the two moves
/// cancel exactly, so the net displacement is zero.
pub fn visualize_event_attack(state: &State, view: &mut GameView, event: &AttackEvent) -> (r: (
    Action,
    i64,
))
    requires
        old(view).wf(),
        state.wf(),
        old(view).registered(event.attacker_id),
        state.has_unit(event.target_id),
    ensures
        *final(view) == *old(view),
        time_wf(r.0),
        handles_ok(r.0, old(view).sprites@.len() as int),
        progress_of(r.0) == 0,
        r.1 == 2 * ATTACK_STEP_MS,
        duration_of(r.0) == 2 * ATTACK_STEP_MS,
        ({
            &&& r.0 matches Action::Sequence { children, index }
            &&& index == 0
            &&& children@.len() == 2
            &&& children@[0] matches Action::MoveBy { handle: h0, delta: d0, duration: u0, .. }
            &&& children@[1] matches Action::MoveBy { handle: h1, delta: d1, duration: u1, .. }
            &&& h0 == h1
            &&& old(view).objs@.contains((event.attacker_id, h0))
            &&& u0 == ATTACK_STEP_MS
            &&& u1 == ATTACK_STEP_MS
            &&& d0.x == half_toward_zero(
                hex_to_point_spec(
                    old(view).tile_size as int,
                    state.unit_spec(event.target_id).pos,
                ).x - old(view).sprites@[h0 as int].pos.x,
            )
            &&& d0.y == half_toward_zero(
                hex_to_point_spec(
                    old(view).tile_size as int,
                    state.unit_spec(event.target_id).pos,
                ).y - old(view).sprites@[h0 as int].pos.y,
            )
            &&& d1.x == -d0.x
            &&& d1.y == -d0.y
        }),
{
    let h = view.id_to_sprite(event.attacker_id);
    let map_to = state.unit(event.target_id).pos;
    let to = hex_to_point(view.tile_size, map_to);
    let from = view.sprite_pos(h);
    let diff = Point { x: half_i64(to.x - from.x), y: half_i64(to.y - from.y) };
    let back = Point { x: -diff.x, y: -diff.y };
    let mut children: Vec<Action> = Vec::new();
    children.push(Action::move_by(h, diff, ATTACK_STEP_MS));
    children.push(Action::move_by(h, back, ATTACK_STEP_MS));
    proof {
        lemma_sum_push(children@.take(0), children@[0]);
        lemma_sum_push(children@.take(1), children@[1]);
        assert(children@.take(0).push(children@[0]) =~= children@.take(1));
        assert(children@.take(1).push(children@[1]) =~= children@);
    }
    let ghost cv = children;
    let action = Action::sequence(children);
    proof {
        assert forall|i: int| 0 <= i < cv@.len() implies handles_ok(
            #[trigger] cv@[i],
            old(view).sprites@.len() as int,
        ) by {}
        assert(handles_ok(action, old(view).sprites@.len() as int));
    }
    let time = action.duration();
    (action, time)
}

/// A bare pause: the end of a turn shows nothing of its own.
pub fn visualize_event_end_turn(view: &mut GameView, event: &EndTurnEvent) -> (r: (Action, i64))
    requires
        old(view).wf(),
    ensures
        *final(view) == *old(view),
        time_wf(r.0),
        handles_ok(r.0, old(view).sprites@.len() as int),
        progress_of(r.0) == 0,
        r.1 == END_TURN_PAUSE_MS,
        duration_of(r.0) == END_TURN_PAUSE_MS,
        r.0 == (Action::Sleep { duration: END_TURN_PAUSE_MS, progress: 0i64, done: false }),
{
    let action = Action::sleep(END_TURN_PAUSE_MS);
    let time = action.duration();
    (action, time)
}

/// A turn banner: fade the text in at the screen center, hold it, fade it
/// out, and detach it.
pub fn visualize_event_begin_turn(view: &mut GameView, event: &BeginTurnEvent) -> (r: (
    Action,
    i64,
))
    requires
        old(view).wf(),
        event.player_id == 0 || event.player_id == 1,
    ensures
        final(view).wf(),
        final(view).sprites@.len() == old(view).sprites@.len() + 1,
        final(view).objs == old(view).objs,
        final(view).tile_size == old(view).tile_size,
        final(view).sprites@.last().label@ == (if event.player_id == 0 {
            "YOUR TURN"@
        } else {
            "ENEMY TURN"@
        }),
        final(view).sprites@.last().pos == (Point { x: 0i64, y: 0i64 }),
        final(view).sprites@.last().color == (Color { r: 0i64, g: 0i64, b: 0i64, a: 0i64 }),
        time_wf(r.0),
        handles_ok(r.0, final(view).sprites@.len() as int),
        progress_of(r.0) == 0,
        r.1 == BANNER_FADE_IN_MS + BANNER_HOLD_MS + BANNER_FADE_OUT_MS,
        duration_of(r.0) == r.1,
        ({
            let h = old(view).sprites@.len() as usize;
            &&& r.0 matches Action::Sequence { children, index }
            &&& index == 0
            &&& children@.len() == 5
            &&& children@[0] == (Action::Show { layer: Layer::Text, handle: h, done: false })
            &&& children@[1] == (Action::ChangeColorTo {
                handle: h,
                target: Color { r: 0i64, g: 0i64, b: 0i64, a: 1000i64 },
                duration: BANNER_FADE_IN_MS,
                progress: 0i64,
                start: None::<Color>,
                done: false,
            })
            &&& children@[2] == (Action::Sleep {
                duration: BANNER_HOLD_MS,
                progress: 0i64,
                done: false,
            })
            &&& children@[3] == (Action::ChangeColorTo {
                handle: h,
                target: Color { r: 0i64, g: 0i64, b: 0i64, a: 0i64 },
                duration: BANNER_FADE_OUT_MS,
                progress: 0i64,
                start: None::<Color>,
                done: false,
            })
            &&& children@[4] == (Action::Hide { layer: Layer::Text, handle: h, done: false })
        }),
{
    let visible = Color { r: 0, g: 0, b: 0, a: 1000 };
    let invisible = Color { r: 0, g: 0, b: 0, a: 0 };
    let text: &str = if event.player_id == 0 {
        "YOUR TURN"
    } else {
        "ENEMY TURN"
    };
    let h = view.new_sprite(Point { x: 0, y: 0 }, invisible, text);
    let mut children: Vec<Action> = Vec::new();
    children.push(Action::show(Layer::Text, h));
    children.push(Action::change_color_to(h, visible, BANNER_FADE_IN_MS));
    children.push(Action::sleep(BANNER_HOLD_MS));
    children.push(Action::change_color_to(h, invisible, BANNER_FADE_OUT_MS));
    children.push(Action::hide_from(Layer::Text, h));
    proof {
        lemma_sum_push(children@.take(0), children@[0]);
        lemma_sum_push(children@.take(1), children@[1]);
        lemma_sum_push(children@.take(2), children@[2]);
        lemma_sum_push(children@.take(3), children@[3]);
        lemma_sum_push(children@.take(4), children@[4]);
        assert(children@.take(0).push(children@[0]) =~= children@.take(1));
        assert(children@.take(1).push(children@[1]) =~= children@.take(2));
        assert(children@.take(2).push(children@[2]) =~= children@.take(3));
        assert(children@.take(3).push(children@[3]) =~= children@.take(4));
        assert(children@.take(4).push(children@[4]) =~= children@);
    }
    let ghost cv = children;
    let action = Action::sequence(children);
    proof {
        assert forall|i: int| 0 <= i < cv@.len() implies handles_ok(
            #[trigger] cv@[i],
            h + 1 as int,
        ) by {}
        assert(handles_ok(action, h + 1 as int));
    }
    let time = action.duration();
    (action, time)
}

/// Builds the intrinsic action of one event and its intrinsic duration.
pub fn visualize_event(state: &State, view: &mut GameView, event: &ActiveEvent) -> (r: (
    Action,
    i64,
))
    requires
        state.wf(),
        old(view).wf(),
        active_event_wf(*event, *state, *old(view)),
    ensures
        final(view).wf(),
        final(view).sprites@.len() >= old(view).sprites@.len(),
        final(view).tile_size == old(view).tile_size,
        forall|x: u64| old(view).registered(x) ==> final(view).registered(x),
        (*event) matches ActiveEvent::Create(c) ==> final(view).registered(c.id),
        time_wf(r.0),
        handles_ok(r.0, final(view).sprites@.len() as int),
        progress_of(r.0) == 0,
        r.1 == event_duration(*event),
        duration_of(r.0) == r.1,
        0 <= r.1 <= 30_000_000,
        is_event_action(r.0, *event, *state, *old(view)),
{
    let r = match event {
        ActiveEvent::Create(ev) => visualize_event_create(state, view, ev),
        ActiveEvent::MoveTo(ev) => visualize_event_move_to(view, ev),
        ActiveEvent::Attack(ev) => visualize_event_attack(state, view, ev),
        ActiveEvent::EndTurn(ev) => visualize_event_end_turn(view, ev),
        ActiveEvent::BeginTurn(ev) => visualize_event_begin_turn(view, ev),
    };
    proof {
        if let ActiveEvent::MoveTo(m) = event {
            if m.path@.len() > 0 {
                assert(MOVE_STEP_MS * (m.path@.len() - 1) <= 30_000_000) by (nonlinear_arith)
                    requires m.path@.len() <= MAX_PATH_LEN;
                assert(MOVE_STEP_MS * (m.path@.len() - 1) >= 0) by (nonlinear_arith)
                    requires m.path@.len() >= 1;
            }
        }
    }
    r
}

/// Float a "killed" label over the victim, pause, fade the victim's sprite
/// out, detach it from the foreground, and unregister it.  The label plays
/// on a forked track, so the action's own duration counts only the pause and
/// the fade; the effect is nonetheless charged the label's full time.
pub fn visualize_effect_kill(state: &State, view: &mut GameView, target_id: u64) -> (r: (
    Action,
    i64,
))
    requires
        state.wf(),
        old(view).wf(),
        state.has_unit(target_id),
        old(view).registered(target_id),
    ensures
        final(view).wf(),
        final(view).sprites@.len() == old(view).sprites@.len() + 1,
        final(view).tile_size == old(view).tile_size,
        !final(view).registered(target_id),
        forall|x: u64| x != target_id && old(view).registered(x) ==> final(view).registered(x),
        time_wf(r.0),
        handles_ok(r.0, final(view).sprites@.len() as int),
        progress_of(r.0) == 0,
        r.1 == effect_duration(Effect::Kill),
        duration_of(r.0) == KILL_PAUSE_MS + KILL_FADE_MS,
        final(view).sprites@.len() == old(view).sprites@.len() + 1,
        final(view).sprites@.last().label@ == "killed"@,
        final(view).sprites@.last().pos == hex_to_point_spec(
            old(view).tile_size as int,
            state.unit_spec(target_id).pos,
        ),
        final(view).sprites@.last().color == (Color { r: 0i64, g: 0i64, b: 0i64, a: 0i64 }),
        ({
            &&& r.0 matches Action::Sequence { children, index }
            &&& index == 0
            &&& children@.len() == 4
            &&& is_label_tree(children@[0], old(view).sprites@.len() as usize)
            &&& children@[1] == (Action::Sleep {
                duration: KILL_PAUSE_MS,
                progress: 0i64,
                done: false,
            })
            &&& children@[2] matches Action::ChangeColorTo {
                handle: hv,
                target: tc,
                duration: du,
                progress: pr,
                start: st,
                done: dn,
            }
            &&& old(view).objs@.contains((target_id, hv))
            &&& tc == (Color { r: 1000i64, g: 1000i64, b: 1000i64, a: 0i64 })
            &&& du == KILL_FADE_MS
            &&& pr == 0
            &&& st is None
            &&& !dn
            &&& children@[3] == (Action::Hide { layer: Layer::Fg, handle: hv, done: false })
        }),
{
    let pos = state.unit(target_id).pos;
    let sprite = view.id_to_sprite(target_id);
    view.remove_object(target_id);
    proof {
        assert forall|x: u64|
            x != target_id && old(view).registered(x) implies view.registered(x) by {
            let k = choose|k: int|
                0 <= k < old(view).objs@.len() && (#[trigger] old(view).objs@[k]).0 == x;
            assert(old(view).objs@.contains((x, old(view).objs@[k].1)));
            let p = (x, old(view).objs@[k].1);
            assert(view.objs@.contains(p));
            let m = choose|m: int| 0 <= m < view.objs@.len() && view.objs@[m] == p;
        }
    }
    let (msg, msg_time) = message(view, pos, "killed");
    let color = Color { r: 1000, g: 1000, b: 1000, a: 0 };
    let mut children: Vec<Action> = Vec::new();
    children.push(msg);
    children.push(Action::sleep(KILL_PAUSE_MS));
    children.push(Action::change_color_to(sprite, color, KILL_FADE_MS));
    children.push(Action::hide_from(Layer::Fg, sprite));
    proof {
        lemma_sum_push(children@.take(0), children@[0]);
        lemma_sum_push(children@.take(1), children@[1]);
        lemma_sum_push(children@.take(2), children@[2]);
        lemma_sum_push(children@.take(3), children@[3]);
        assert(children@.take(0).push(children@[0]) =~= children@.take(1));
        assert(children@.take(1).push(children@[1]) =~= children@.take(2));
        assert(children@.take(2).push(children@[2]) =~= children@.take(3));
        assert(children@.take(3).push(children@[3]) =~= children@);
    }
    let ghost cv = children;
    let ghost n2 = view.sprites@.len() as int;
    let action = Action::sequence(children);
    proof {
        assert forall|i: int| 0 <= i < cv@.len() implies handles_ok(#[trigger] cv@[i], n2) by {
            if i >= 1 {
                lemma_handles_ok_mono(cv@[i], sprite + 1 as int, n2);
            }
        }
        assert(handles_ok(action, n2));
    }
    let time = msg_time + KILL_PAUSE_MS + KILL_FADE_MS;
    (action, time)
}

/// Float a "missed" label over the untouched target; nothing else changes.
pub fn visualize_effect_miss(state: &State, view: &mut GameView, target_id: u64) -> (r: (
    Action,
    i64,
))
    requires
        state.wf(),
        old(view).wf(),
        state.has_unit(target_id),
    ensures
        final(view).wf(),
        final(view).sprites@.len() == old(view).sprites@.len() + 1,
        final(view).tile_size == old(view).tile_size,
        final(view).objs == old(view).objs,
        time_wf(r.0),
        handles_ok(r.0, final(view).sprites@.len() as int),
        progress_of(r.0) == 0,
        r.1 == effect_duration(Effect::Miss),
        duration_of(r.0) == 0,
        is_label_tree(r.0, old(view).sprites@.len() as usize),
        final(view).sprites@.last().label@ == "missed"@,
        final(view).sprites@.last().pos == hex_to_point_spec(
            old(view).tile_size as int,
            state.unit_spec(target_id).pos,
        ),
        final(view).sprites@.last().color == (Color { r: 0i64, g: 0i64, b: 0i64, a: 0i64 }),
{
    let pos = state.unit(target_id).pos;
    message(view, pos, "missed")
}

/// Builds the action for one effect on one target, and the duration charged
/// to it in the aggregate sum.
pub fn visualize_effect(state: &State, view: &mut GameView, target_id: u64, effect: &Effect) -> (r:
    (Action, i64))
    requires
        state.wf(),
        old(view).wf(),
        state.has_unit(target_id),
        *effect == Effect::Kill ==> old(view).registered(target_id),
    ensures
        final(view).wf(),
        final(view).sprites@.len() == old(view).sprites@.len() + 1,
        final(view).tile_size == old(view).tile_size,
        forall|x: u64| x != target_id && old(view).registered(x) ==> final(view).registered(x),
        *effect == Effect::Miss ==> final(view).objs == old(view).objs,
        time_wf(r.0),
        handles_ok(r.0, final(view).sprites@.len() as int),
        progress_of(r.0) == 0,
        r.1 == effect_duration(*effect),
        0 <= r.1 <= MAX_TIME,
{
    match effect {
        Effect::Kill => visualize_effect_kill(state, view, target_id),
        Effect::Miss => visualize_effect_miss(state, view, target_id),
    }
}

/// Turns one event and its attached effects into a single action tree: the
/// intrinsic action and every effect action each run on their own forked
/// track, started together by one sequence, so the tree's own duration is
/// zero.  The returned pacing duration is the sum of the intrinsic duration
/// and every effect's duration — an upper bound, not the parallel playback
/// time.
#[verifier::loop_isolation(false)]
pub fn visualize(state: &State, view: &mut GameView, event: &Event) -> (r: (Action, i64))
    requires
        state.wf(),
        old(view).wf(),
        event_wf(*event, *state, *old(view)),
    ensures
        final(view).wf(),
        final(view).tile_size == old(view).tile_size,
        time_wf(r.0),
        handles_ok(r.0, final(view).sprites@.len() as int),
        progress_of(r.0) == 0,
        duration_of(r.0) == 0,
        r.1 == event_duration(event.active_event) + effects_duration(event.effects@),
        0 <= r.1 <= MAX_TIME,
{
    let (event_action, event_time) = visualize_event(state, view, &event.active_event);
    let mut total: i64 = event_time;
    let mut actions: Vec<Action> = Vec::new();
    actions.push(event_action);
    let ghost effs = event.effects@;
    let mut ti: usize = 0;
    while ti < event.effects.len()
        invariant
            ti <= effs.len(),
            view.wf(),
            view.tile_size == old(view).tile_size,
            forall|j: int| ti <= j < effs.len() ==> view.registered((#[trigger] effs[j]).0),
            total == event_duration(event.active_event) + effects_duration(effs.take(ti as int)),
            forall|k: int| 0 <= k < actions@.len() ==> time_wf(#[trigger] actions@[k]),
            forall|k: int| 0 <= k < actions@.len() ==> progress_of(#[trigger] actions@[k]) == 0,
            forall|k: int|
                0 <= k < actions@.len() ==> handles_ok(
                    #[trigger] actions@[k],
                    view.sprites@.len() as int,
                ),
        decreases effs.len() - ti,
    {
        proof {
            lemma_effects_duration_bounds(effs.take(ti as int));
            lemma_list_duration_bounds(effs[ti as int].1@);
        }
        let pair_id = event.effects[ti].0;
        let mut subtotal: i64 = 0;
        let mut ei: usize = 0;
        let ghost list = effs[ti as int].1@;
        while ei < event.effects[ti].1.len()
            invariant
                ti < effs.len(),
                pair_id == effs[ti as int].0,
                list == effs[ti as int].1@,
                ei <= list.len(),
                view.wf(),
                view.tile_size == old(view).tile_size,
                forall|j: int| ti < j < effs.len() ==> view.registered((#[trigger] effs[j]).0),
                (exists|e: int| ei <= e < list.len() && list[e] == Effect::Kill)
                    ==> view.registered(pair_id),
                subtotal == effect_list_duration(list.take(ei as int)),
                total == event_duration(event.active_event) + effects_duration(
                    effs.take(ti as int),
                ) + effect_list_duration(list.take(ei as int)),
                forall|k: int| 0 <= k < actions@.len() ==> time_wf(#[trigger] actions@[k]),
                forall|k: int|
                    0 <= k < actions@.len() ==> progress_of(#[trigger] actions@[k]) == 0,
                forall|k: int|
                    0 <= k < actions@.len() ==> handles_ok(
                        #[trigger] actions@[k],
                        view.sprites@.len() as int,
                    ),
            decreases list.len() - ei,
        {
            proof {
                lemma_list_duration_bounds(list.take(ei as int));
                lemma_effects_duration_bounds(effs.take(ti as int));
            }
            let effect = event.effects[ti].1[ei];
            proof {
                if effect == Effect::Kill {
                    assert(list[ei as int] == Effect::Kill);
                }
            }
            let ghost pre_n = view.sprites@.len() as int;
            let (a, d) = visualize_effect(state, view, pair_id, &effect);
            proof {
                lemma_list_take_succ(list, ei as int);
                assert forall|k: int| 0 <= k < actions@.len() implies handles_ok(
                    #[trigger] actions@[k],
                    view.sprites@.len() as int,
                ) by {
                    lemma_handles_ok_mono(actions@[k], pre_n, view.sprites@.len() as int);
                }
                if effect == Effect::Kill {
                    assert forall|e: int|
                        ei as int + 1 <= e < list.len() implies list[e] != Effect::Kill by {
                        assert(!(list[ei as int] == Effect::Kill && list[e] == Effect::Kill));
                    }
                }
            }
            subtotal = subtotal + d;
            total = total + d;
            actions.push(a);
            ei = ei + 1;
        }
        proof {
            assert(list.take(list.len() as int) =~= list);
            lemma_effects_take_succ(effs, ti as int);
        }
        ti = ti + 1;
    }
    proof {
        assert(effs.take(effs.len() as int) =~= effs);
        lemma_effects_duration_bounds(effs);
    }
    let mut forked: Vec<Action> = Vec::new();
    let ghost n_final = view.sprites@.len() as int;
    while actions.len() > 0
        invariant
            forall|k: int| 0 <= k < actions@.len() ==> time_wf(#[trigger] actions@[k]),
            forall|k: int| 0 <= k < actions@.len() ==> progress_of(#[trigger] actions@[k]) == 0,
            forall|k: int| 0 <= k < actions@.len() ==> handles_ok(#[trigger] actions@[k], n_final),
            forall|k: int| 0 <= k < forked@.len() ==> time_wf(#[trigger] forked@[k]),
            forall|k: int| 0 <= k < forked@.len() ==> progress_of(#[trigger] forked@[k]) == 0,
            forall|k: int| 0 <= k < forked@.len() ==> handles_ok(#[trigger] forked@[k], n_final),
            sum_durations(forked@) == 0,
        decreases actions@.len(),
    {
        let a = actions.remove(0);
        let ghost pre = forked@;
        forked.push(Action::fork(a));
        proof {
            lemma_sum_push(pre, forked@[forked@.len() - 1]);
        }
    }
    let ghost fv = forked;
    let final_action = Action::sequence(forked);
    proof {
        assert(handles_ok(final_action, n_final));
    }
    (final_action, total)
}

} // verus!
