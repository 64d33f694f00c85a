//! The identifier allocator: strictly increasing 64-bit identifiers, shared
//! by both entity kinds, never reissued.

use vstd::prelude::*;

verus! {

/// Issues identifiers `1, 2, 3, ...` in order. `0` is never issued and is
/// reserved as "unset/invalid". The field holds the last issued value, `0`
/// before the first allocation.
pub struct IdAllocator {
    pub last_issued: u64,
}

impl IdAllocator {
    /// A fresh allocator whose first issued identifier will be `1`.
    pub fn new() -> (r: IdAllocator)
        ensures
            r.last_issued == 0,
    {
        IdAllocator { last_issued: 0 }
    }

    /// Issues the next identifier, or reports exhaustion once every value of
    /// `u64` has been issued. The result, when there is one, is strictly
    /// larger than every previously issued identifier and never `0`.
    pub fn next_id(&mut self) -> (r: Option<u64>)
        ensures
            old(self).last_issued < u64::MAX ==> {
                &&& r == Some((old(self).last_issued + 1) as u64)
                &&& final(self).last_issued == old(self).last_issued + 1
            },
            old(self).last_issued == u64::MAX ==> {
                &&& r is None
                &&& final(self).last_issued == old(self).last_issued
            },
            r is Some ==> r->0 > old(self).last_issued && r->0 > 0,
            final(self).last_issued >= old(self).last_issued,
    {
        if self.last_issued == u64::MAX {
            None
        } else {
            self.last_issued = self.last_issued + 1;
            Some(self.last_issued)
        }
    }
}

} // verus!
