//! The revision clock: one tick per change of an input.

use vstd::prelude::*;

verus! {

/// A point on the revision clock. Revisions are totally ordered; a later
/// state of the inputs has a larger revision.
#[derive(Clone, Copy, Debug, PartialEq, Eq, Structural)]
pub struct Revision {
    tick: u64,
}

impl View for Revision {
    type V = nat;

    closed spec fn view(&self) -> nat {
        self.tick as nat
    }
}

impl Revision {
    /// The largest revision the clock can show.
    pub open spec fn limit() -> nat {
        u64::MAX as nat
    }

    /// The revision of a store nothing was written to.
    pub fn start() -> (r: Revision)
        ensures
            r@ == 0,
    {
        Revision { tick: 0 }
    }

    /// The revision that follows this one.
    pub fn next(self) -> (r: Revision)
        requires
            self@ < Revision::limit(),
        ensures
            r@ == self@ + 1,
    {
        Revision { tick: self.tick + 1 }
    }

    /// Whether the clock can still advance from here.
    pub fn has_next(self) -> (b: bool)
        ensures
            b == (self@ < Revision::limit()),
    {
        self.tick < u64::MAX
    }

    /// Whether this revision is no later than `other`.
    pub fn at_most(self, other: Revision) -> (b: bool)
        ensures
            b == (self@ <= other@),
    {
        self.tick <= other.tick
    }

    /// The number of ticks since the start.
    pub fn ticks(self) -> (n: u64)
        ensures
            n == self@,
    {
        self.tick
    }
}

} // verus!
