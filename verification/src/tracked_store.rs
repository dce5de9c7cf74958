use vstd::prelude::*;

use crate::listeners::Listeners;
use crate::version::Version;

verus! {

/// One node of a tracked state store: data that a projection may find
/// present or absent, together with the listeners following it from
/// outside the subtree.
pub struct TrackedStore<T> {
    data: Option<T>,
    listeners: Listeners,
}

impl<T> TrackedStore<T> {
    pub closed spec fn data_spec(&self) -> Option<T> {
        self.data
    }

    pub closed spec fn registry(&self) -> Listeners {
        self.listeners
    }

    /// A node whose data is present.
    pub fn new(data: T) -> (r: Self)
        ensures
            r.data_spec() == Option::Some(data),
            r.registry().version() == 0,
            r.registry().outside() == Seq::<u64>::empty(),
    {
        TrackedStore { data: Some(data), listeners: Listeners::new() }
    }

    /// A node whose data is currently absent, as a projection through an
    /// absent branch finds it.
    pub fn new_absent() -> (r: Self)
        ensures
            r.data_spec() is None,
            r.registry().version() == 0,
            r.registry().outside() == Seq::<u64>::empty(),
    {
        TrackedStore { data: None, listeners: Listeners::new() }
    }

    /// Replace the node's data and invalidate: the version is bumped and
    /// the returned waker tokens must be fired by the host.
    pub fn write(&mut self, data: Option<T>) -> (woken: Vec<u64>)
        requires
            old(self).registry().version() < u64::MAX,
        ensures
            final(self).data_spec() == data,
            final(self).registry().version() == old(self).registry().version() + 1,
            final(self).registry().outside() == Seq::<u64>::empty(),
            woken@ == old(self).registry().outside(),
    {
        self.data = data;
        self.listeners.invalidate_outside()
    }

    /// Register a waker to fire on the next invalidation of this node.
    pub fn add_waker(&mut self, waker: u64)
        ensures
            final(self).data_spec() == old(self).data_spec(),
            final(self).registry().version() == old(self).registry().version(),
            final(self).registry().outside() == old(self).registry().outside().push(waker),
    {
        self.listeners.add_outside_waker(waker);
    }

    /// The node's current version.
    pub fn get_version(&self) -> (r: Version)
        ensures
            r@ == self.registry().version(),
    {
        self.listeners.current_version()
    }

    /// View this node as an observable. Only a node whose data is present
    /// can be read unconditionally; projecting an absent node this way is
    /// a usage error, excluded by precondition.
    pub fn as_observable<'a>(&'a self) -> (r: XBowObservable<'a, T>)
        requires
            self.data_spec() is Some,
        ensures
            r.store() == *self,
    {
        XBowObservable { node: self }
    }

    /// View this node as an observable that falls back to the given value
    /// while the data is absent.
    pub fn as_observable_or<'a>(&'a self, fallback: T) -> (r: XBowObservableOrFallback<'a, T>)
        ensures
            r.store() == *self,
            r.fallback_spec() == fallback,
    {
        XBowObservableOrFallback { node: self, fallback }
    }
}

impl<T: Default> TrackedStore<T> {
    /// View this node as an observable that falls back to the type's
    /// default value while the data is absent.
    pub fn as_observable_or_default<'a>(&'a self) -> (r: XBowObservableOrFallback<'a, T>)
        ensures
            r.store() == *self,
            call_ensures(T::default, (), r.fallback_spec()),
    {
        XBowObservableOrFallback { node: self, fallback: Default::default() }
    }
}

/// A read view of a tracked node whose data is statically known present.
pub struct XBowObservable<'a, T> {
    node: &'a TrackedStore<T>,
}

impl<'a, T> XBowObservable<'a, T> {
    pub closed spec fn store(&self) -> TrackedStore<T> {
        *self.node
    }

    /// The node's data.
    pub fn borrow_observable(&self) -> (r: &T)
        requires
            self.store().data_spec() is Some,
        ensures
            Option::Some(*r) == self.store().data_spec(),
    {
        match &self.node.data {
            Some(v) => v,
            None => unreached(),
        }
    }

    /// The node's current version.
    pub fn get_version(&self) -> (r: Version)
        ensures
            r@ == self.store().registry().version(),
    {
        self.node.get_version()
    }
}

/// A read view of a tracked node that substitutes a fallback value while
/// the node's data is absent.
pub struct XBowObservableOrFallback<'a, T> {
    node: &'a TrackedStore<T>,
    fallback: T,
}

impl<'a, T> XBowObservableOrFallback<'a, T> {
    pub closed spec fn store(&self) -> TrackedStore<T> {
        *self.node
    }

    pub closed spec fn fallback_spec(&self) -> T {
        self.fallback
    }

    /// The node's data, or the fallback while it is absent.
    pub fn borrow_observable(&self) -> (r: &T)
        ensures
            self.store().data_spec() matches Option::Some(v) ==> *r == v,
            self.store().data_spec() is None ==> *r == self.fallback_spec(),
    {
        match &self.node.data {
            Some(v) => v,
            None => &self.fallback,
        }
    }

    /// The node's current version.
    pub fn get_version(&self) -> (r: Version)
        ensures
            r@ == self.store().registry().version(),
    {
        self.node.get_version()
    }
}

} // verus!
