//! Monotonic ID generation.
//!
//! A `Counter` dispenses integer IDs that stay below 2^52 so that every ID
//! can be coerced losslessly to an IEEE-754 double-precision float by a
//! host language. The counter starts at 1 and wraps back to 1 after
//! dispensing the largest representable ID.

use vstd::prelude::*;

verus! {

/// The largest ID a counter will dispense: 2^52 - 1.
pub const MAX_ID: u64 = 0xF_FFFF_FFFF_FFFF;

/// A single-threaded monotonic ID counter.
///
/// IDs are strictly increasing until the counter reaches [`MAX_ID`], at
/// which point the next ID wraps back to 1.
#[derive(Clone, Copy, PartialEq, Eq, Structural, Debug)]
pub struct Counter {
    pub next: u64,
}

impl Counter {
    /// The counter a fresh knowledge base starts with: the next ID is 1.
    pub fn new() -> (c: Counter)
        ensures
            c.wf(),
            c.spec_next() == 1,
    {
        Counter { next: 1 }
    }

    /// A counter is well formed when the ID it will dispense next is in
    /// range: at least 1 and at most [`MAX_ID`].
    pub open spec fn wf(self) -> bool {
        1 <= self.next <= MAX_ID
    }

    /// The ID the next call to [`Counter::next`] will return.
    pub open spec fn spec_next(self) -> u64 {
        self.next
    }

    /// Dispense the next ID and advance the counter, wrapping back to 1
    /// after [`MAX_ID`].
    pub fn next(&mut self) -> (id: u64)
        requires
            old(self).wf(),
        ensures
            final(self).wf(),
            id == old(self).spec_next(),
            1 <= id <= MAX_ID,
            final(self).spec_next() == if old(self).spec_next() == MAX_ID {
                1u64
            } else {
                (old(self).spec_next() + 1) as u64
            },
    {
        let id = self.next;
        if self.next == MAX_ID {
            self.next = 1;
        } else {
            self.next = self.next + 1;
        }
        id
    }
}

/// Successive IDs are strictly monotonic as long as the counter has not
/// wrapped: if the first ID dispensed is below [`MAX_ID`], the second one
/// is strictly larger, and both fit in 52 bits.
pub proof fn lemma_counter_monotonic(c: Counter)
    requires
        c.wf(),
        c.spec_next() < MAX_ID,
    ensures
        ({
            let first = c.spec_next();
            let after = Counter { next: (first + 1) as u64 };
            &&& first < after.spec_next()
            &&& first < 0x10_0000_0000_0000
            &&& after.spec_next() <= 0xF_FFFF_FFFF_FFFF
        }),
{
}

} // verus!
