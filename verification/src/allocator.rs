use vstd::prelude::*;

verus! {

/// Issues unique 64-bit agent identifiers from a monotonic counter.
///
/// Ids strictly increase and are never handed out twice, so an id stays
/// unique for as long as the allocator lives — even after its agent is gone.
/// The value `u64::MAX` is never issued: reaching it means the identifier
/// space is exhausted, a fatal condition for the owning engine, which refuses
/// further allocation rather than wrapping around.
pub struct IdAllocator {
    next: u64,
}

impl IdAllocator {
    /// The next id this allocator would issue.
    pub closed spec fn next_id(&self) -> u64 {
        self.next
    }

    /// Whether the identifier space is used up.
    pub open spec fn exhausted(&self) -> bool {
        self.next_id() == u64::MAX
    }

    /// A fresh allocator, starting from id 0.
    pub fn new() -> (a: Self)
        ensures
            a.next_id() == 0,
    {
        IdAllocator { next: 0 }
    }

    /// An allocator whose counter starts at `next`: pre-assigns every id below
    /// `next`, so those will never be issued.
    pub fn starting_at(next: u64) -> (a: Self)
        ensures
            a.next_id() == next,
    {
        IdAllocator { next }
    }

    /// Whether the identifier space is used up.
    pub fn is_exhausted(&self) -> (r: bool)
        ensures
            r == self.exhausted(),
    {
        self.next == u64::MAX
    }

    /// Issues the next id.  The returned id is smaller than the counter of
    /// every later state of this allocator, hence never issued again.
    pub fn allocate(&mut self) -> (id: u64)
        requires
            !old(self).exhausted(),
        ensures
            id == old(self).next_id(),
            id < u64::MAX,
            final(self).next_id() == id + 1,
    {
        let id = self.next;
        self.next = self.next + 1;
        id
    }

    /// Issues the next id, or reports exhaustion, leaving the allocator
    /// unchanged, instead of wrapping around.
    pub fn try_allocate(&mut self) -> (r: Option<u64>)
        ensures
            match r {
                Some(id) => !old(self).exhausted() && id == old(self).next_id() && id < u64::MAX
                    && final(self).next_id() == id + 1,
                None => old(self).exhausted() && final(self).next_id() == old(self).next_id(),
            },
    {
        if self.next == u64::MAX {
            None
        } else {
            Some(self.allocate())
        }
    }
}

} // verus!
