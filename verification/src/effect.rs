//! What the rules ask the program around them to do, and the ledger in which
//! a run of rules is accounted.
use crate::entity::{Entity, EntityId};
use vstd::prelude::*;

verus! {

/// Something for the caller to carry out on the entities it draws and moves.
#[derive(Clone, Copy, Debug, PartialEq)]
pub enum Effect<P> {
    /// Put the entity at `at` and bring it to rest.
    Respawn { entity: EntityId, at: P },
    /// Destroy the entity and everything that hangs on it.
    Despawn { entity: EntityId },
    /// Give the entity a fresh copy of the party material.
    Tint { entity: EntityId },
}

/// The state that a run of rules works on: the world, the count of party
/// animals that were removed, and the effects asked for so far.
pub struct Ledger<P> {
    pub entities: Seq<Entity<P>>,
    pub despawned: nat,
    pub effects: Seq<Effect<P>>,
}

/// Whether the counters of a ledger fit the machine: the count of removed
/// party animals can still grow by one for every entity left.
pub open spec fn counts_fit<P>(s: Seq<Entity<P>>, despawned: nat) -> bool {
    despawned + s.len() <= u64::MAX
}

} // verus!
