//! Entity identifiers and their allocation.

use vstd::prelude::*;

verus! {

/// Identifier of an entity of the simulation.
pub type EntityId = u64;

/// Hands out entity identifiers in increasing order, each one once.
#[derive(Clone, Copy, Debug, PartialEq, Eq, Structural)]
pub struct EntityAllocator {
    pub next: EntityId,
}

impl EntityAllocator {
    /// Whether `count` more identifiers can be handed out.
    pub open spec fn spec_has_room(self, count: int) -> bool {
        self.next + count <= u64::MAX
    }

    pub fn new() -> (allocator: EntityAllocator)
        ensures
            allocator.next == 0,
    {
        EntityAllocator { next: 0 }
    }

    pub fn has_room(&self, count: usize) -> (room: bool)
        ensures
            room == self.spec_has_room(count as int),
    {
        (count as u128) + (self.next as u128) <= u64::MAX as u128
    }

    /// Hands out the next identifier.
    pub fn spawn(&mut self) -> (id: EntityId)
        requires
            old(self).spec_has_room(1),
        ensures
            id == old(self).next,
            final(self).next == old(self).next + 1,
    {
        let id = self.next;
        self.next = self.next + 1;
        id
    }
}

} // verus!
