//! The event and effect vocabulary produced by the simulation, and the
//! read-only game state the translator queries.  Events and effects are
//! immutable value data; the engine only reads them.

use vstd::prelude::*;
use crate::geom::PosHex;
use crate::geom::hex_wf;

verus! {

/// A unit as the translator reads it: its tile and its owning player.
#[derive(Clone, Copy, PartialEq, Eq, Structural, Debug)]
pub struct Unit {
    pub pos: PosHex,
    pub player_id: i64,
}

/// A unit appeared on the board.
#[derive(Clone, Copy, PartialEq, Eq, Structural, Debug)]
pub struct CreateEvent {
    pub id: u64,
    pub unit: Unit,
}

/// A unit walked along `path`, one tile at a time.
pub struct MoveToEvent {
    pub id: u64,
    pub path: Vec<PosHex>,
}

/// One unit attacked another.
#[derive(Clone, Copy, PartialEq, Eq, Structural, Debug)]
pub struct AttackEvent {
    pub attacker_id: u64,
    pub target_id: u64,
}

/// A player's turn ended.
#[derive(Clone, Copy, PartialEq, Eq, Structural, Debug)]
pub struct EndTurnEvent {
    pub player_id: i64,
}

/// A player's turn began.
#[derive(Clone, Copy, PartialEq, Eq, Structural, Debug)]
pub struct BeginTurnEvent {
    pub player_id: i64,
}

/// The fixed vocabulary of primary transitions.
pub enum ActiveEvent {
    Create(CreateEvent),
    MoveTo(MoveToEvent),
    Attack(AttackEvent),
    EndTurn(EndTurnEvent),
    BeginTurn(BeginTurnEvent),
}

/// A secondary consequence attached to an event for one target.
#[derive(Clone, Copy, PartialEq, Eq, Structural, Debug)]
pub enum Effect {
    Kill,
    Miss,
}

/// A primary transition with, for each target object id, the ordered list of
/// effects attached to it.
pub struct Event {
    pub active_event: ActiveEvent,
    pub effects: Vec<(u64, Vec<Effect>)>,
}

/// Read-only game state: the units, keyed by object id.
pub struct State {
    pub units: Vec<(u64, Unit)>,
}

impl State {
    /// Whether a unit exists under the object id.
    pub open spec fn has_unit(self, id: u64) -> bool {
        exists|i: int| 0 <= i < self.units@.len() && (#[trigger] self.units@[i]).0 == id
    }

    /// The unit registered under the object id.
    pub open spec fn unit_spec(self, id: u64) -> Unit {
        let i = choose|i: int| 0 <= i < self.units@.len() && (#[trigger] self.units@[i]).0 == id;
        self.units@[i].1
    }

    /// Object ids are unique and every unit sits on a tile within bounds.
    pub open spec fn wf(self) -> bool {
        &&& forall|i: int, j: int|
            0 <= i < j < self.units@.len() ==> (#[trigger] self.units@[i]).0 != (
            #[trigger] self.units@[j]).0
        &&& forall|i: int| 0 <= i < self.units@.len() ==> hex_wf((#[trigger] self.units@[i]).1.pos)
    }

    /// Looks up a unit.  Querying an id that has no unit is a contract
    /// violation of the upstream simulation and is excluded up front.
    #[verifier::loop_isolation(false)]
    pub fn unit(&self, id: u64) -> (u: Unit)
        requires
            self.wf(),
            self.has_unit(id),
        ensures
            u == self.unit_spec(id),
            hex_wf(u.pos),
    {
        let mut i: usize = 0;
        loop
            invariant
                i <= self.units@.len(),
                forall|k: int| 0 <= k < i ==> (#[trigger] self.units@[k]).0 != id,
            decreases self.units@.len() - i,
        {
            if i == self.units.len() {
                proof {
                    let w = choose|k: int|
                        0 <= k < self.units@.len() && (#[trigger] self.units@[k]).0 == id;
                    assert(false);
                }
            }
            let pair = self.units[i];
            if pair.0 == id {
                proof {
                    let w = choose|k: int|
                        0 <= k < self.units@.len() && (#[trigger] self.units@[k]).0 == id;
                    assert(self.units@[i as int].0 == id);
                    assert(w == i as int);
                }
                return pair.1;
            }
            i = i + 1;
        }
    }
}

} // verus!
