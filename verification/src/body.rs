//! Body shape tags and the allocator that hands out body identities.

use vstd::prelude::*;

verus! {

/// The two collision shapes a body can carry.
#[derive(Debug, Clone, Copy, PartialEq, Eq)]
pub enum Shape {
    Box,
    ConvexPolygon,
}

/// Invalid construction inputs, rejected when a body is made rather than
/// silently clamped.
#[derive(Debug, Clone, Copy, PartialEq, Eq)]
pub enum BodyErrors {
    NonPositiveMass,
    EmptyVertexList,
}

impl BodyErrors {
    /// A human-readable description of the failure.
    pub fn message(&self) -> (r: String)
        ensures
            *self == BodyErrors::NonPositiveMass ==> r@
                == "A finite body needs a positive mass."@,
            *self == BodyErrors::EmptyVertexList ==> r@
                == "A polygon needs at least one vertex."@,
    {
        match self {
            BodyErrors::NonPositiveMass => String::from_str("A finite body needs a positive mass."),
            BodyErrors::EmptyVertexList => String::from_str("A polygon needs at least one vertex."),
        }
    }
}

/// Hands out body identities for one world instance: monotonically
/// increasing, starting at 1, and never reused — not even when the world
/// is cleared — so a stale arbiter key can never collide with a new pair.
#[derive(Debug, Clone, Copy)]
pub struct BodyIdAllocator {
    next_id: usize,
}

impl BodyIdAllocator {
    /// The identity the next allocation will return.
    pub closed spec fn next(&self) -> usize {
        self.next_id
    }

    pub fn new() -> (r: Self)
        ensures
            r.next() == 1,
    {
        Self { next_id: 1 }
    }

    /// Returns a fresh identity, strictly larger than every identity
    /// handed out before it.
    pub fn allocate(&mut self) -> (id: usize)
        requires
            old(self).next() < usize::MAX,
        ensures
            id == old(self).next(),
            final(self).next() == id + 1,
            1 <= old(self).next() ==> 1 <= id,
    {
        let id = self.next_id;
        self.next_id = self.next_id + 1;
        id
    }
}

} // verus!
