//! Process-unique identity for GPU resources.
//!
//! Handles carry no payload beyond identity: they are opaque, comparable,
//! copyable values.  An [`IdAllocator`] issues them monotonically, so no
//! two allocations from the same allocator ever coincide.

use vstd::prelude::*;

verus! {

/// Identifies a registered buffer.
#[derive(Clone, Copy, PartialEq, Eq, Structural, Debug, Hash)]
pub struct BufferHandle {
    pub id: u64,
}

/// Identifies a registered pipeline.
#[derive(Clone, Copy, PartialEq, Eq, Structural, Debug, Hash)]
pub struct PipelineHandle {
    pub id: u64,
}

/// Issues process-unique identifiers by counting up from zero.
///
/// A value returned by [`IdAllocator::allocate`] is never returned again
/// by the same allocator.
pub struct IdAllocator {
    next: u64,
}

impl IdAllocator {
    /// The set of identifiers this allocator has issued so far.
    pub closed spec fn issued(self) -> Set<u64> {
        Set::new(|x: u64| x < self.next)
    }

    /// The identifier the next call to `allocate` will return.
    pub closed spec fn next_id(self) -> u64 {
        self.next
    }

    pub fn new() -> (r: Self)
        ensures
            r.issued() == Set::<u64>::empty(),
            r.next_id() == 0,
    {
        let r = IdAllocator { next: 0 };
        proof {
            assert(r.issued() =~= Set::<u64>::empty());
        }
        r
    }

    /// The identifier the next allocation will return, without issuing it.
    pub fn peek(&self) -> (r: u64)
        ensures
            r == self.next_id(),
    {
        self.next
    }

    /// Whether another identifier can still be issued.
    pub fn can_allocate(&self) -> (r: bool)
        ensures
            r == (self.next_id() < u64::MAX),
    {
        self.next < u64::MAX
    }

    /// Returns an identifier never returned before by this allocator.
    pub fn allocate(&mut self) -> (r: u64)
        requires
            old(self).next_id() < u64::MAX,
        ensures
            r == old(self).next_id(),
            !old(self).issued().contains(r),
            final(self).issued() == old(self).issued().insert(r),
            final(self).next_id() == old(self).next_id() + 1,
    {
        let r = self.next;
        self.next = self.next + 1;
        proof {
            assert(final(self).issued() =~= old(self).issued().insert(r));
        }
        r
    }
}

/// Distinct allocations yield distinct identifiers: the `i`-th and `j`-th
/// values issued by one allocator differ whenever `i != j`.  An allocator
/// that starts at `start` issues `start + i` as its `i`-th identifier.
pub proof fn lemma_allocations_distinct(start: u64, i: nat, j: nat)
    requires
        start + i <= u64::MAX,
        start + j <= u64::MAX,
        i != j,
    ensures
        start + i != start + j,
{
}

} // verus!
