//! A model of the generated cache cell's first-call discipline.
//!
//! The generated runtime artifact guards each cache cell with a
//! mutually-exclusive one-time-initialization gate: racing first calls
//! serialize, the winner resolves the symbol and publishes the address, and
//! every loser reads the published address without resolving again.  This
//! module states that discipline over the serialized order of the racing
//! calls: a cell starts unresolved, the single call that finds it unresolved
//! performs the one resolution, and every call observes the same address.
//! Addresses are modelled as plain integers.

use vstd::prelude::*;

verus! {

/// The publishable state of one generated cache cell.
#[derive(Clone, Copy, PartialEq, Eq, Structural, Debug)]
pub struct CacheCell {
    /// `None` until the winning call publishes the resolved address.
    pub slot: Option<u64>,
}

impl CacheCell {
    /// A freshly emitted cell: no call has resolved it yet.
    pub fn new() -> (c: CacheCell)
        ensures
            c.slot is None,
    {
        CacheCell { slot: None }
    }

    /// One call through the cell, serialized by the cell's gate.
    /// `resolved` is the address the external resolver would return if this
    /// call had to resolve.  Returns the address the call proceeds with and
    /// whether this call performed the resolution: exactly the calls that
    /// find the slot empty resolve, and a published address is never
    /// overwritten.
    pub fn call(&mut self, resolved: u64) -> (r: (u64, bool))
        ensures
            match old(self).slot {
                None => r.1 && final(self).slot == Some(resolved) && r.0 == resolved,
                Some(a) => !r.1 && final(self).slot == Some(a) && r.0 == a,
            },
    {
        match self.slot {
            None => {
                self.slot = Some(resolved);
                (resolved, true)
            },
            Some(a) => (a, false),
        }
    }
}

/// `k` concurrent first calls race on one fresh cell, serializing through
/// its gate; the resolver would hand each of them the address `resolved`.
/// Exactly one resolution is performed (none if no call arrives), and every
/// call observes that same address.
pub fn race_first_calls(k: usize, resolved: u64) -> (r: (Vec<u64>, usize))
    ensures
        r.0.len() == k,
        forall|i: int| 0 <= i < k ==> r.0@[i] == resolved,
        r.1 == if k == 0 { 0int } else { 1int },
{
    let mut cell = CacheCell::new();
    let mut observed: Vec<u64> = Vec::new();
    let mut attempts: usize = 0;
    let mut j: usize = 0;
    while j < k
        invariant
            j <= k,
            observed.len() == j,
            forall|i: int| 0 <= i < j ==> observed@[i] == resolved,
            attempts == if j == 0 { 0int } else { 1int },
            cell.slot == if j == 0 { Option::<u64>::None } else { Some(resolved) },
        decreases k - j,
    {
        let (addr, did_resolve) = cell.call(resolved);
        observed.push(addr);
        if did_resolve {
            attempts = attempts + 1;
        }
        j = j + 1;
    }
    (observed, attempts)
}

} // verus!
