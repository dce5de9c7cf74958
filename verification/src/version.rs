use vstd::prelude::*;

verus! {

/// A monotonically increasing counter marking successive states of an
/// observable or collection.
///
/// The distinguished null version compares below every real version, so a
/// reader that starts from the null version sees the first real state as a
/// change.
#[derive(Clone, Copy, PartialEq, Eq, Structural, Debug)]
pub struct Version {
    counter: u64,
}

impl View for Version {
    type V = nat;

    closed spec fn view(&self) -> nat {
        self.counter as nat
    }
}

impl Version {
    /// The null version: below every real version.
    pub fn new_null() -> (r: Self)
        ensures
            r@ == 0,
    {
        Version { counter: 0 }
    }

    /// The first real version.
    pub fn new() -> (r: Self)
        ensures
            r@ == 1,
    {
        Version { counter: 1 }
    }

    pub open spec fn spec_is_null(self) -> bool {
        self@ == 0
    }

    pub fn is_null(&self) -> (r: bool)
        ensures
            r == self.spec_is_null(),
    {
        self.counter == 0
    }

    /// The next version after this one.
    pub fn incremented(&self) -> (r: Self)
        requires
            self@ < u64::MAX,
        ensures
            r@ == self@ + 1,
    {
        Version { counter: self.counter + 1 }
    }

    /// True when `self` marks a strictly later state than `other`.
    pub fn is_newer_than(&self, other: &Version) -> (r: bool)
        ensures
            r == (self@ > other@),
    {
        self.counter > other.counter
    }

    /// The raw counter value.
    pub fn as_u64(&self) -> (r: u64)
        ensures
            r as nat == self@,
    {
        self.counter
    }

    pub fn eq_version(&self, other: &Version) -> (r: bool)
        ensures
            r == (self@ == other@),
    {
        self.counter == other.counter
    }
}

} // verus!
