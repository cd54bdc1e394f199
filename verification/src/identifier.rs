//! Identifiers for components and event producers.
//!
//! Identifiers are allocated by an explicit allocator object owned by the
//! runtime, so that identifier assignment is deterministic and no two live
//! identifiers from one allocator are ever equal.

use vstd::prelude::*;

verus! {

/// An opaque identifier, used only for lookup, never as an ownership
/// handle.
#[derive(Debug, Clone, Copy, PartialEq, Eq, Hash, Structural)]
pub struct Id {
    pub inner: u64,
}

impl Id {
    pub fn new(inner: u64) -> (r: Id)
        ensures
            r.inner == inner,
    {
        Id { inner }
    }
}

/// The identifier of one component.
#[derive(Debug, Clone, Copy, PartialEq, Eq, Hash, Structural)]
pub struct ComponentId {
    pub id: u64,
}

/// Hands out identifiers one after another, in increasing order, never
/// reusing one.
#[derive(Debug, PartialEq, Eq)]
pub struct IdAllocator {
    pub next: u64,
}

impl IdAllocator {
    /// A fresh allocator; the first identifier it hands out is 0.
    pub fn new() -> (r: IdAllocator)
        ensures
            r.next == 0,
    {
        IdAllocator { next: 0 }
    }

    /// Allocates the next component identifier. Every identifier handed
    /// out earlier is strictly smaller, so no identifier is ever reused.
    pub fn allocate(&mut self) -> (r: ComponentId)
        requires
            old(self).next < u64::MAX,
        ensures
            r.id == old(self).next,
            final(self).next == old(self).next + 1,
    {
        let id = ComponentId { id: self.next };
        self.next = self.next + 1;
        id
    }
}

} // verus!
