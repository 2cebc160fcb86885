//! The scheduler: a list of independently advancing action trees.  Each
//! simulation tick applies one elapsed-time value to every track exactly
//! once; finished tracks are dropped, and children spawned by forks join the
//! list as tracks of their own, first advanced on the next tick.

use vstd::prelude::*;
use crate::action::Action;
use crate::action::time_wf;
use crate::action::handles_ok;
use crate::action::finished_of;
use crate::action::step_action;
use crate::geom::MAX_TIME;
use crate::view::GameView;
use crate::view::SceneModel;

verus! {

/// The scene after every track in the list has been advanced once by `dt`,
/// in list order.
pub open spec fn tick_scene(tracks: Seq<Action>, dt: int, m: SceneModel) -> SceneModel
    decreases tracks.len(),
{
    if tracks.len() == 0 {
        m
    } else {
        tick_scene(tracks.drop_first(), dt, step_action(tracks.first(), dt, m).scene)
    }
}

/// A set of causally independent action trees advancing in lockstep.
pub struct Scheduler {
    pub tracks: Vec<Action>,
}

impl Scheduler {
    /// All tracks are well-formed against a view of `n` sprites.
    pub open spec fn wf(self, n: int) -> bool {
        forall|i: int|
            0 <= i < self.tracks@.len() ==> time_wf(#[trigger] self.tracks@[i]) && handles_ok(
                self.tracks@[i],
                n,
            )
    }

    /// A scheduler with no tracks.
    pub fn new() -> (s: Scheduler)
        ensures
            s.tracks@.len() == 0,
            forall|n: int| s.wf(n),
    {
        Scheduler { tracks: Vec::new() }
    }

    /// Hands one action tree to the scheduler as an independent track.
    pub fn add(&mut self, action: Action)
        ensures
            final(self).tracks@ == old(self).tracks@.push(action),
    {
        self.tracks.push(action);
    }

    /// Whether every track (including every forked subtree) has finished and
    /// been dropped.
    pub fn done(&self) -> (r: bool)
        ensures
            r == (self.tracks@.len() == 0),
    {
        self.tracks.is_empty()
    }

    /// One simulation tick: advances every track once by `dt` — the view
    /// afterwards is exactly the fold of one advance step per old track, in
    /// order — drops every track that reports finished, and adopts every
    /// unfinished action forked during this tick as a new track (first
    /// advanced on the next tick).  No track that remains is finished.
    #[verifier::loop_isolation(false)]
    pub fn tick(&mut self, dt: i64, view: &mut GameView)
        requires
            old(self).wf(old(view).sprites@.len() as int),
            old(view).wf(),
            0 <= dt <= MAX_TIME,
        ensures
            final(self).wf(old(view).sprites@.len() as int),
            final(view).wf(),
            final(view).sprites@.len() == old(view).sprites@.len(),
            final(view).objs == old(view).objs,
            final(view).tile_size == old(view).tile_size,
            final(view).scene() == tick_scene(
                old(self).tracks@,
                dt as int,
                old(view).scene(),
            ),
            forall|i: int|
                0 <= i < final(self).tracks@.len() ==> !finished_of(
                    #[trigger] final(self).tracks@[i],
                ),
            old(self).tracks@.len() == 0 ==> final(self).tracks@.len() == 0 && *final(view)
                == *old(view),
    {
        let ghost n = old(view).sprites@.len() as int;
        let ghost m0 = old(view).scene();
        let ghost mut p: int = 0;
        let mut spawned: Vec<Action> = Vec::new();
        let mut i: usize = 0;
        proof {
            assert(old(self).tracks@.subrange(0, old(self).tracks@.len() as int) =~= old(
                self,
            ).tracks@);
        }
        while i < self.tracks.len()
            invariant
                i <= self.tracks@.len(),
                0 <= p <= old(self).tracks@.len(),
                self.tracks@.subrange(i as int, self.tracks@.len() as int) == old(
                    self,
                ).tracks@.subrange(p, old(self).tracks@.len() as int),
                tick_scene(old(self).tracks@, dt as int, m0) == tick_scene(
                    old(self).tracks@.subrange(p, old(self).tracks@.len() as int),
                    dt as int,
                    view.scene(),
                ),
                self.wf(n),
                forall|j: int| 0 <= j < i ==> !finished_of(#[trigger] self.tracks@[j]),
                view.wf(),
                view.sprites@.len() == old(view).sprites@.len(),
                view.objs == old(view).objs,
                view.tile_size == old(view).tile_size,
                forall|k: int|
                    0 <= k < spawned@.len() ==> time_wf(#[trigger] spawned@[k]) && handles_ok(
                        spawned@[k],
                        n,
                    ),
                old(self).tracks@.len() == 0 ==> (*view == *old(view) && spawned@.len() == 0
                    && self.tracks@.len() == 0),
            decreases self.tracks@.len() - i,
        {
            let ghost rest = old(self).tracks@.subrange(p, old(self).tracks@.len() as int);
            let ghost m_pre = view.scene();
            proof {
                assert(self.tracks@[i as int] == rest[0]);
                assert(rest.drop_first() =~= old(self).tracks@.subrange(
                    p + 1,
                    old(self).tracks@.len() as int,
                ));
            }
            let c = vstd::std_specs::vec::vec_index_mut(&mut self.tracks, i);
            let r = c.advance(dt, view, &mut spawned);
            proof {
                assert(view.scene() == step_action(rest[0], dt as int, m_pre).scene);
                p = p + 1;
            }
            if r.0 {
                let ghost pre = self.tracks@;
                self.tracks.remove(i);
                proof {
                    assert(self.tracks@.subrange(i as int, self.tracks@.len() as int)
                        =~= pre.subrange(i as int + 1, pre.len() as int));
                }
            } else {
                i = i + 1;
            }
        }
        proof {
            assert(old(self).tracks@.subrange(p, old(self).tracks@.len() as int).len() == 0);
        }
        while spawned.len() > 0
            invariant
                self.wf(n),
                forall|j: int|
                    0 <= j < self.tracks@.len() ==> !finished_of(#[trigger] self.tracks@[j]),
                forall|k: int|
                    0 <= k < spawned@.len() ==> time_wf(#[trigger] spawned@[k]) && handles_ok(
                        spawned@[k],
                        n,
                    ),
                old(self).tracks@.len() == 0 ==> (spawned@.len() == 0 && self.tracks@.len() == 0),
            decreases spawned@.len(),
        {
            let a = match spawned.pop() {
                Some(a) => a,
                None => Action::sleep(0),
            };
            if !a.is_finished() {
                self.tracks.push(a);
            }
        }
    }
}

} // verus!
