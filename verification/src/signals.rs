use vstd::prelude::*;

use crate::version::Version;

verus! {

/// Adapter presenting an observable as a change stream.
///
/// It remembers the last version it reported. A poll of the stream
/// compares the observable's current version against it: a newer version
/// means the cached view is stale, so the stream produces the freshly read
/// value and catches up; otherwise the stream is pending. Spurious extra
/// bumps upstream at worst produce an extra item; a missed bump can never
/// hide a change, since the version only moves when the value may have.
pub struct ToSignal {
    last_version: Version,
}

impl ToSignal {
    /// The last version this stream reported.
    pub closed spec fn last(&self) -> nat {
        self.last_version@
    }

    /// A fresh stream starts below every real version, so its first poll
    /// reports the observable's current value.
    pub fn new() -> (r: Self)
        ensures
            r.last() == 0,
    {
        ToSignal { last_version: Version::new_null() }
    }

    /// One poll of the change stream, given the observable's current
    /// version. True means a new item is due: the caller reads the value,
    /// maps it, and registers its waker for the next change. False means
    /// nothing changed since the last report: the stream is pending.
    pub fn poll_change_step(&mut self, current: Version) -> (changed: bool)
        ensures
            changed == (current@ > old(self).last()),
            changed ==> final(self).last() == current@,
            !changed ==> final(self).last() == old(self).last(),
    {
        if current.is_newer_than(&self.last_version) {
            self.last_version = current;
            true
        } else {
            false
        }
    }
}

/// Adapter presenting a change stream as an observable.
///
/// It caches the last item the stream produced and bumps its version each
/// time a new one arrives, so version comparison tells readers whether
/// their view is stale. The host polls the underlying stream and hands
/// each outcome to `get_version`; the wakers registered here are the
/// readers the host wakes when the stream signals a change.
pub struct FromSignal<T> {
    value: T,
    version: Version,
    wakers: Vec<u64>,
}

impl<T> FromSignal<T> {
    pub closed spec fn value_spec(&self) -> T {
        self.value
    }

    pub closed spec fn version_spec(&self) -> nat {
        self.version@
    }

    pub closed spec fn wakers_spec(&self) -> Seq<u64> {
        self.wakers@
    }

    /// A fresh adapter holding `initial` until the stream produces an
    /// item, at the first real version.
    pub fn new(initial: T) -> (r: Self)
        ensures
            r.value_spec() == initial,
            r.version_spec() == 1,
            r.wakers_spec() == Seq::<u64>::empty(),
    {
        FromSignal { value: initial, version: Version::new(), wakers: Vec::new() }
    }

    /// The last item the stream produced.
    pub fn borrow_observable(&self) -> (r: &T)
        ensures
            *r == self.value_spec(),
    {
        &self.value
    }

    /// Register a reader's waker to fire when the stream next changes.
    pub fn add_waker(&mut self, waker: u64)
        ensures
            final(self).value_spec() == old(self).value_spec(),
            final(self).version_spec() == old(self).version_spec(),
            final(self).wakers_spec() == old(self).wakers_spec().push(waker),
    {
        self.wakers.push(waker);
    }

    /// Fold one poll of the underlying stream into the cache and report
    /// the current version: a produced item replaces the cached value and
    /// bumps the version; no item leaves everything as it was.
    pub fn get_version(&mut self, polled: Option<T>) -> (v: Version)
        requires
            old(self).version_spec() < u64::MAX,
        ensures
            v@ == final(self).version_spec(),
            final(self).wakers_spec() == old(self).wakers_spec(),
            polled matches Option::Some(item) ==> final(self).value_spec() == item
                && final(self).version_spec() == old(self).version_spec() + 1,
            polled is None ==> final(self).value_spec() == old(self).value_spec()
                && final(self).version_spec() == old(self).version_spec(),
    {
        match polled {
            Some(item) => {
                self.value = item;
                self.version = self.version.incremented();
                self.version
            },
            None => self.version,
        }
    }
}

} // verus!
