use vstd::prelude::*;

use crate::version::Version;

verus! {

/// Per-observable registry of pending wakers and the observable's version
/// counter.
///
/// A waker is represented by an opaque token chosen by the caller; the host
/// program keeps the mapping from tokens to real task wakers and fires the
/// tokens this registry hands back from an invalidation. Two independent
/// waker sets exist so invalidation can be scoped: the "inside" set holds
/// observers nested within the same reactive subtree, the "outside" set
/// holds observers beyond it.
pub struct Listeners {
    inside_wakers: Vec<u64>,
    outside_wakers: Vec<u64>,
    version: Version,
}

impl Listeners {
    /// Wakers currently registered from inside the subtree, in registration
    /// order.
    pub closed spec fn inside(&self) -> Seq<u64> {
        self.inside_wakers@
    }

    /// Wakers currently registered from outside the subtree, in registration
    /// order.
    pub closed spec fn outside(&self) -> Seq<u64> {
        self.outside_wakers@
    }

    /// The current version counter.
    pub closed spec fn version(&self) -> nat {
        self.version@
    }

    /// A fresh registry: no pending wakers, null version.
    pub fn new() -> (r: Self)
        ensures
            r.inside() == Seq::<u64>::empty(),
            r.outside() == Seq::<u64>::empty(),
            r.version() == 0,
    {
        Listeners {
            inside_wakers: Vec::new(),
            outside_wakers: Vec::new(),
            version: Version::new_null(),
        }
    }

    /// Register a waker to fire on the next invalidation from inside.
    pub fn add_inside_waker(&mut self, waker: u64)
        ensures
            final(self).inside() == old(self).inside().push(waker),
            final(self).outside() == old(self).outside(),
            final(self).version() == old(self).version(),
    {
        self.inside_wakers.push(waker);
    }

    /// Register a waker to fire on the next invalidation from outside.
    pub fn add_outside_waker(&mut self, waker: u64)
        ensures
            final(self).inside() == old(self).inside(),
            final(self).outside() == old(self).outside().push(waker),
            final(self).version() == old(self).version(),
    {
        self.outside_wakers.push(waker);
    }

    /// The current version, as a value readers can store and compare.
    pub fn current_version(&self) -> (r: Version)
        ensures
            r@ == self.version(),
    {
        self.version
    }

    fn invalidate_version(&mut self)
        requires
            old(self).version() < u64::MAX,
        ensures
            final(self).version() == old(self).version() + 1,
            final(self).inside() == old(self).inside(),
            final(self).outside() == old(self).outside(),
    {
        self.version = self.version.incremented();
    }

    /// Bump the version and drain the inside waker set; the returned tokens
    /// are the wakers to fire, in registration order.
    pub fn invalidate_inside(&mut self) -> (woken: Vec<u64>)
        requires
            old(self).version() < u64::MAX,
        ensures
            final(self).version() == old(self).version() + 1,
            final(self).inside() == Seq::<u64>::empty(),
            final(self).outside() == old(self).outside(),
            woken@ == old(self).inside(),
    {
        self.invalidate_version();
        let mut drained: Vec<u64> = Vec::new();
        std::mem::swap(&mut drained, &mut self.inside_wakers);
        drained
    }

    /// Bump the version and drain the outside waker set; the returned tokens
    /// are the wakers to fire, in registration order.
    pub fn invalidate_outside(&mut self) -> (woken: Vec<u64>)
        requires
            old(self).version() < u64::MAX,
        ensures
            final(self).version() == old(self).version() + 1,
            final(self).inside() == old(self).inside(),
            final(self).outside() == Seq::<u64>::empty(),
            woken@ == old(self).outside(),
    {
        self.invalidate_version();
        let mut drained: Vec<u64> = Vec::new();
        std::mem::swap(&mut drained, &mut self.outside_wakers);
        drained
    }

    /// Bump the version once and drain both waker sets; the returned tokens
    /// hold the inside wakers first, then the outside wakers, each in
    /// registration order.
    pub fn invalidate_all(&mut self) -> (woken: Vec<u64>)
        requires
            old(self).version() < u64::MAX,
        ensures
            final(self).version() == old(self).version() + 1,
            final(self).inside() == Seq::<u64>::empty(),
            final(self).outside() == Seq::<u64>::empty(),
            woken@ == old(self).inside() + old(self).outside(),
    {
        self.invalidate_version();
        let mut drained: Vec<u64> = Vec::new();
        std::mem::swap(&mut drained, &mut self.inside_wakers);
        let mut rest: Vec<u64> = Vec::new();
        std::mem::swap(&mut rest, &mut self.outside_wakers);
        let mut i: usize = 0;
        while i < rest.len()
            invariant
                i <= rest.len(),
                drained@ == old(self).inside() + rest@.take(i as int),
                rest@ == old(self).outside(),
            decreases rest.len() - i,
        {
            drained.push(rest[i]);
            proof {
                assert(rest@.take(i + 1) == rest@.take(i as int).push(rest@[i as int]));
            }
            i = i + 1;
        }
        proof {
            assert(rest@.take(rest@.len() as int) == rest@);
        }
        drained
    }
}

} // verus!
