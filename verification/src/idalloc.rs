//! Allocation of globally unique trampoline identifiers.
//!
//! One allocator is owned by the top-level transformation pass and threaded
//! through each per-function synthesis step.  Its counter is strictly
//! increasing and never reused, so no two generated units of one compilation
//! share a trampoline id, even when they share a function name.

use vstd::prelude::*;

verus! {

/// A monotonically increasing counter of trampoline ids.
#[derive(Clone, Copy, PartialEq, Eq, Structural, Debug)]
pub struct IdentifierAllocator {
    /// The next id to hand out; every id already handed out is smaller.
    pub count: u64,
}

impl IdentifierAllocator {
    pub fn new() -> (a: IdentifierAllocator)
        ensures
            a.count == 0,
    {
        IdentifierAllocator { count: 0 }
    }

    /// Hands out the next id.  Ids are handed out in strictly increasing
    /// order: the result is the old counter, and every later call returns
    /// something larger.
    pub fn next(&mut self) -> (id: u64)
        requires
            old(self).count < u64::MAX,
        ensures
            id == old(self).count,
            final(self).count == old(self).count + 1,
    {
        let id = self.count;
        self.count = self.count + 1;
        id
    }
}

} // verus!
