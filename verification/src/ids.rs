//! Connection identifier generation.
//!
//! Identifiers are unsigned integers, unique for the lifetime of the
//! process, handed out in increasing order starting at 1, and never
//! reused, even after the connection that held one has gone.

use vstd::prelude::*;

verus! {

/// The process-wide identifier counter. One generator is created at
/// startup and lives for the life of the server; every accepted
/// connection draws its identifier from it.
pub struct IdGenerator {
    next: u64,
}

impl IdGenerator {
    /// The value the next call of `fresh_id` returns.
    pub closed spec fn counter(&self) -> int {
        self.next as int
    }

    /// Every identifier handed out so far.
    pub open spec fn issued(&self) -> Set<u64> {
        Set::new(|x: u64| 1 <= x && x < self.counter())
    }

    /// The counter starts at 1 and only grows, so 0 is never issued.
    pub open spec fn wf(&self) -> bool {
        self.counter() >= 1
    }

    /// Whether the identifier space is not yet exhausted. The space is
    /// assumed to exceed any expected connection count; this only keeps
    /// the counter from wrapping.
    pub open spec fn can_issue(&self) -> bool {
        self.counter() < u64::MAX
    }

    /// A fresh generator that has issued nothing.
    pub fn new() -> (g: IdGenerator)
        ensures
            g.wf(),
            g.counter() == 1,
            g.issued() =~= Set::<u64>::empty(),
    {
        IdGenerator { next: 1 }
    }

    /// Whether another identifier can still be drawn, for callers
    /// outside ghost code.
    pub fn has_capacity(&self) -> (b: bool)
        ensures
            b == self.can_issue(),
    {
        self.next < u64::MAX
    }

    /// Draw the next identifier. No two calls ever return the same
    /// value: the result is outside everything issued before.
    pub fn fresh_id(&mut self) -> (id: u64)
        requires
            old(self).wf(),
            old(self).can_issue(),
        ensures
            final(self).wf(),
            id == old(self).counter(),
            !old(self).issued().contains(id),
            final(self).counter() == old(self).counter() + 1,
            final(self).issued() =~= old(self).issued().insert(id),
    {
        let id = self.next;
        self.next = self.next + 1;
        id
    }
}

} // verus!
