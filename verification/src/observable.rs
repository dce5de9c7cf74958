use vstd::prelude::*;

use crate::listeners::Listeners;
use crate::version::Version;

verus! {

/// A value cell exposing versioned read and write borrows and change
/// notification.
///
/// At most one exclusive borrow may be outstanding at a time, and no shared
/// borrow may overlap it; taking a borrow that would violate this is a
/// programming-contract violation, excluded by precondition rather than
/// reported. Releasing an exclusive borrow unconditionally invalidates: the
/// version is bumped and every registered waker is handed back to be fired,
/// whether or not the value was actually changed.
pub struct Observable<T> {
    value: T,
    listeners: Listeners,
    shared_borrows: u64,
    exclusive_borrowed: bool,
}

/// Witness of an outstanding shared borrow; records the version the reader
/// observed when it borrowed.
pub struct ObservableBorrowRef {
    observed: Version,
}

impl ObservableBorrowRef {
    pub closed spec fn observed_version(&self) -> nat {
        self.observed@
    }

    /// The version of the cell at the time of the borrow.
    pub fn version(&self) -> (r: Version)
        ensures
            r@ == self.observed_version(),
    {
        self.observed
    }
}

/// Witness of the outstanding exclusive borrow of a cell.
pub struct ObservableBorrowRefMut {
    observed: Version,
}

impl ObservableBorrowRefMut {
    pub closed spec fn observed_version(&self) -> nat {
        self.observed@
    }

    /// The version of the cell at the time of the borrow.
    pub fn version(&self) -> (r: Version)
        ensures
            r@ == self.observed_version(),
    {
        self.observed
    }
}

impl<T> Observable<T> {
    pub closed spec fn value(&self) -> T {
        self.value
    }

    pub closed spec fn registry(&self) -> Listeners {
        self.listeners
    }

    /// Number of outstanding shared borrows.
    pub closed spec fn shared_count(&self) -> nat {
        self.shared_borrows as nat
    }

    /// Whether the exclusive borrow is outstanding.
    pub closed spec fn exclusive(&self) -> bool {
        self.exclusive_borrowed
    }

    /// A cell starts with the given value, no borrows and no listeners.
    pub fn new(value: T) -> (r: Self)
        ensures
            r.value() == value,
            r.shared_count() == 0,
            !r.exclusive(),
            r.registry().version() == 0,
            r.registry().inside() == Seq::<u64>::empty(),
            r.registry().outside() == Seq::<u64>::empty(),
    {
        Observable {
            value,
            listeners: Listeners::new(),
            shared_borrows: 0,
            exclusive_borrowed: false,
        }
    }

    /// Take a shared borrow. Excluded while the exclusive borrow is out.
    pub fn borrow(&mut self) -> (guard: ObservableBorrowRef)
        requires
            !old(self).exclusive(),
            old(self).shared_count() < u64::MAX,
        ensures
            final(self).value() == old(self).value(),
            final(self).registry() == old(self).registry(),
            final(self).shared_count() == old(self).shared_count() + 1,
            !final(self).exclusive(),
            guard.observed_version() == old(self).registry().version(),
    {
        self.shared_borrows = self.shared_borrows + 1;
        ObservableBorrowRef { observed: self.listeners.current_version() }
    }

    /// Take the exclusive borrow. Excluded while any borrow is out.
    pub fn borrow_mut(&mut self) -> (guard: ObservableBorrowRefMut)
        requires
            !old(self).exclusive(),
            old(self).shared_count() == 0,
        ensures
            final(self).value() == old(self).value(),
            final(self).registry() == old(self).registry(),
            final(self).shared_count() == 0,
            final(self).exclusive(),
            guard.observed_version() == old(self).registry().version(),
    {
        self.exclusive_borrowed = true;
        ObservableBorrowRefMut { observed: self.listeners.current_version() }
    }

    /// Read the value through an outstanding borrow.
    pub fn get(&self) -> (r: &T)
        requires
            self.shared_count() > 0 || self.exclusive(),
        ensures
            *r == self.value(),
    {
        &self.value
    }

    /// Replace the value through the outstanding exclusive borrow.
    pub fn set(&mut self, value: T)
        requires
            old(self).exclusive(),
        ensures
            final(self).value() == value,
            final(self).registry() == old(self).registry(),
            final(self).shared_count() == old(self).shared_count(),
            final(self).exclusive(),
    {
        self.value = value;
    }

    /// Give back a shared borrow. No invalidation: readers do not notify.
    pub fn release(&mut self, guard: ObservableBorrowRef)
        requires
            old(self).shared_count() > 0,
        ensures
            final(self).value() == old(self).value(),
            final(self).registry() == old(self).registry(),
            final(self).shared_count() == old(self).shared_count() - 1,
            final(self).exclusive() == old(self).exclusive(),
    {
        let _ = guard;
        self.shared_borrows = self.shared_borrows - 1;
    }

    /// Give back the exclusive borrow. This invalidates unconditionally:
    /// the version is bumped by exactly one and both waker sets are drained;
    /// the returned tokens are the wakers to fire, inside set first, each in
    /// registration order.
    pub fn release_mut(&mut self, guard: ObservableBorrowRefMut) -> (woken: Vec<u64>)
        requires
            old(self).exclusive(),
            old(self).registry().version() < u64::MAX,
        ensures
            final(self).value() == old(self).value(),
            final(self).shared_count() == old(self).shared_count(),
            !final(self).exclusive(),
            final(self).registry().version() == old(self).registry().version() + 1,
            final(self).registry().inside() == Seq::<u64>::empty(),
            final(self).registry().outside() == Seq::<u64>::empty(),
            woken@ == old(self).registry().inside() + old(self).registry().outside(),
    {
        let _ = guard;
        self.exclusive_borrowed = false;
        self.listeners.invalidate_all()
    }

    /// Register a waker to fire on the next invalidation.
    pub fn add_waker(&mut self, waker: u64)
        ensures
            final(self).value() == old(self).value(),
            final(self).shared_count() == old(self).shared_count(),
            final(self).exclusive() == old(self).exclusive(),
            final(self).registry().version() == old(self).registry().version(),
            final(self).registry().inside() == old(self).registry().inside(),
            final(self).registry().outside() == old(self).registry().outside().push(waker),
    {
        self.listeners.add_outside_waker(waker);
    }

    /// Whether the exclusive borrow is currently outstanding.
    pub fn has_exclusive(&self) -> (r: bool)
        ensures
            r == self.exclusive(),
    {
        self.exclusive_borrowed
    }

    /// How many shared borrows are currently outstanding.
    pub fn shared_borrow_count(&self) -> (r: u64)
        ensures
            r as nat == self.shared_count(),
    {
        self.shared_borrows
    }

    /// The cell's current version.
    pub fn version(&self) -> (r: Version)
        ensures
            r@ == self.registry().version(),
    {
        self.listeners.current_version()
    }
}

/// A sequence of observable versions in which each entry is exactly one
/// above its predecessor — the shape `release_mut` guarantees across
/// successive exclusive borrow-and-release cycles.
pub open spec fn unit_steps(versions: Seq<nat>) -> bool {
    forall|i: int| 0 <= i < versions.len() - 1 ==> versions[i + 1] == #[trigger] versions[i] + 1
}

/// For every sequence of exclusive borrow-and-release cycles on an
/// observable, the version recorded after the Nth cycle is strictly greater
/// than the version recorded after any earlier cycle: each `release_mut`
/// bumps the version by exactly one, so the recorded versions climb without
/// repeats or gaps.
pub proof fn lemma_exclusive_cycles_strictly_increase(versions: Seq<nat>, i: int, j: int)
    requires
        unit_steps(versions),
        0 <= i < j < versions.len(),
    ensures
        versions[j] > versions[i],
    decreases j - i,
{
    if j == i + 1 {
        assert(versions[j] == versions[i] + 1);
    } else {
        lemma_exclusive_cycles_strictly_increase(versions, i, j - 1);
        assert(versions[j] == versions[j - 1] + 1);
    }
}

/// A value cell that never changes: version stays null and wakers are
/// discarded, since no invalidation will ever fire them.
pub struct NoChange<T>(pub T);

impl<T> NoChange<T> {
    /// Registering a waker is a no-op.
    pub fn add_waker(&self, waker: u64) {
        let _ = waker;
    }

    /// Always the first real version: a reader that starts from the null
    /// version observes the value once, and never again sees a change.
    pub fn get_version(&self) -> (r: Version)
        ensures
            r@ == 1,
    {
        Version::new()
    }

    /// The constant value.
    pub fn borrow_observable(&self) -> (r: &T)
        ensures
            *r == self.0,
    {
        &self.0
    }
}

} // verus!
