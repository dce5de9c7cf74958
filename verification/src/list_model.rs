use vstd::prelude::*;

use crate::changes::{
    apply_changes, apply_to_mirror, changes_valid_from, lemma_apply_changes_concat,
    lemma_apply_changes_push, lemma_changes_valid_concat, lemma_seq_cloned_insert,
    lemma_seq_cloned_remove, lemma_seq_cloned_splice, seq_cloned, Change,
};
use crate::version::Version;
use vstd::slice::slice_subrange;

verus! {

/// An ordered, versioned collection that records every mutation in a change
/// log addressable by version range.
///
/// The model is created at the first real version and each mutation appends
/// one change record and bumps the version, so version `v` names the state
/// reached after the first `v - 1` records. The full log is always
/// retained, so `changes_since` can answer any version a reader ever
/// observed; no "changes missed, resync" signal exists or is needed.
///
/// The visible items are clones of the values recorded in the log; for any
/// value type whose `clone` produces an equal value they coincide exactly
/// with the replayed log state.
pub struct ListModel<T: Clone> {
    items: Vec<T>,
    log: Vec<Change<T>>,
    version: Version,
    initial: Ghost<Seq<T>>,
    total_listeners: u64,
    pending_listeners: u64,
}

impl<T: Clone> ListModel<T> {
    /// The items currently held, in order.
    pub closed spec fn items(&self) -> Seq<T> {
        self.items@
    }

    /// Every change record so far, in the order it was produced; the record
    /// at position `k` was produced by the step from version `k + 1` to
    /// version `k + 2`.
    pub closed spec fn log(&self) -> Seq<Change<T>> {
        self.log@
    }

    /// The snapshot the collection held at creation.
    pub closed spec fn initial(&self) -> Seq<T> {
        self.initial@
    }

    pub closed spec fn version(&self) -> nat {
        self.version@
    }

    pub closed spec fn spec_total_listeners(&self) -> nat {
        self.total_listeners as nat
    }

    pub closed spec fn spec_pending_listeners(&self) -> nat {
        self.pending_listeners as nat
    }

    /// The state reached by replaying the first `v - 1` records against the
    /// creation snapshot: the snapshot the collection held at version `v`.
    pub open spec fn state_at(&self, v: nat) -> Seq<T>
        recommends
            1 <= v <= self.version(),
    {
        apply_changes(self.initial(), self.log().take(v - 1))
    }

    /// The log replayed in full: the current state.
    pub open spec fn state(&self) -> Seq<T> {
        apply_changes(self.initial(), self.log())
    }

    /// Structural invariant: the version counts the log, every record was
    /// valid at its turn, and the visible items are elementwise clones of
    /// the replayed log state.
    pub closed spec fn wf(&self) -> bool {
        &&& self.version() == self.log().len() + 1
        &&& changes_valid_from(self.initial(), self.log())
        &&& seq_cloned(self.state(), self.items@)
        &&& forall|v: nat|
            1 <= v <= self.version() ==> (#[trigger] self.state_at(v)).len() <= usize::MAX
    }

    /// A fresh collection holding `items`, at the first real version, with
    /// an empty log.
    pub fn new(items: Vec<T>) -> (r: Self)
        ensures
            r.wf(),
            r.items() == items@,
            r.initial() == items@,
            r.log() == Seq::<Change<T>>::empty(),
            r.version() == 1,
            r.spec_total_listeners() == 0,
            r.spec_pending_listeners() == 0,
    {
        let ghost snapshot = items@;
        let n = items.len();
        let r = ListModel {
            items,
            log: Vec::new(),
            version: Version::new(),
            initial: Ghost(snapshot),
            total_listeners: 0,
            pending_listeners: 0,
        };
        proof {
            assert forall|v: nat| 1 <= v <= r.version() implies (#[trigger] r.state_at(v)).len()
                <= usize::MAX by {
                assert(r.log().take(v - 1) =~= r.log());
            }
        }
        r
    }

    /// The collection's current version.
    pub fn get_version(&self) -> (r: Version)
        ensures
            r@ == self.version(),
    {
        self.version
    }

    /// The full current contents.
    pub fn underlying_vector(&self) -> (r: &Vec<T>)
        ensures
            r@ == self.items(),
    {
        &self.items
    }

    pub fn len(&self) -> (r: usize)
        requires
            self.wf(),
        ensures
            r == self.items().len(),
            r == self.state().len(),
    {
        self.items.len()
    }

    /// Insert `value` at `index`, producing one `Insert` record.
    pub fn insert(&mut self, index: usize, value: T)
        requires
            old(self).wf(),
            index <= old(self).state().len(),
            old(self).state().len() < usize::MAX,
            old(self).version() < u64::MAX,
        ensures
            final(self).wf(),
            final(self).initial() == old(self).initial(),
            final(self).log() == old(self).log().push(
                Change::Insert { index, value },
            ),
            final(self).state() == old(self).state().insert(index as int, value),
            final(self).version() == old(self).version() + 1,
            final(self).spec_total_listeners() == old(self).spec_total_listeners(),
            final(self).spec_pending_listeners() == old(self).spec_pending_listeners(),
    {
        let copy = value.clone();
        let ghost pre = *self;
        let ghost pre_state = self.state();
        let ghost pre_log = self.log();
        let ghost pre_items = self.items@;
        let ghost rec = Change::Insert { index, value };
        apply_to_mirror(&mut self.items, Change::Insert { index, value: copy });
        self.log.push(Change::Insert { index, value });
        self.version = self.version.incremented();
        let n2 = self.items.len();
        proof {
            lemma_seq_cloned_insert(pre_state, pre_items, index as int, value, copy);
            lemma_apply_changes_push(self.initial@, pre_log, rec);
            assert forall|v: nat| 1 <= v <= self.version() implies (#[trigger] self.state_at(
                v,
            )).len() <= usize::MAX by {
                if v <= pre.version() {
                    assert(self.log().take(v - 1) =~= pre.log().take(v - 1));
                    assert(pre.state_at(v).len() <= usize::MAX);
                } else {
                    assert(self.log().take(v - 1) =~= self.log());
                    assert(self.state().len() == self.items@.len());
                }
            }
        }
    }

    /// Remove the item at `index`, producing one `Remove` record.
    pub fn remove(&mut self, index: usize)
        requires
            old(self).wf(),
            index < old(self).state().len(),
            old(self).version() < u64::MAX,
        ensures
            final(self).wf(),
            final(self).initial() == old(self).initial(),
            final(self).log() == old(self).log().push(Change::<T>::Remove { index }),
            final(self).state() == old(self).state().remove(index as int),
            final(self).version() == old(self).version() + 1,
            final(self).spec_total_listeners() == old(self).spec_total_listeners(),
            final(self).spec_pending_listeners() == old(self).spec_pending_listeners(),
    {
        let n = self.items.len();
        let ghost pre = *self;
        let ghost pre_state = self.state();
        let ghost pre_log = self.log();
        let ghost pre_items = self.items@;
        let ghost rec = Change::<T>::Remove { index };
        apply_to_mirror(&mut self.items, Change::Remove { index });
        self.log.push(Change::Remove { index });
        self.version = self.version.incremented();
        let n2 = self.items.len();
        proof {
            lemma_seq_cloned_remove(pre_state, pre_items, index as int);
            lemma_apply_changes_push(self.initial@, pre_log, rec);
            assert forall|v: nat| 1 <= v <= self.version() implies (#[trigger] self.state_at(
                v,
            )).len() <= usize::MAX by {
                if v <= pre.version() {
                    assert(self.log().take(v - 1) =~= pre.log().take(v - 1));
                    assert(pre.state_at(v).len() <= usize::MAX);
                } else {
                    assert(self.log().take(v - 1) =~= self.log());
                    assert(self.state().len() == self.items@.len());
                }
            }
        }
    }

    /// Remove the contiguous range `remove_start..remove_end` and insert
    /// `replace_with` in its place, producing one `Splice` record.
    pub fn splice(&mut self, remove_start: usize, remove_end: usize, replace_with: Vec<T>)
        requires
            old(self).wf(),
            remove_start <= remove_end <= old(self).state().len(),
            old(self).state().len() - (remove_end - remove_start) + replace_with@.len()
                <= usize::MAX,
            old(self).version() < u64::MAX,
        ensures
            final(self).wf(),
            final(self).initial() == old(self).initial(),
            final(self).log() == old(self).log().push(
                Change::Splice { remove_start, remove_end, replace_with },
            ),
            final(self).state() == old(self).state().take(remove_start as int) + replace_with@
                + old(self).state().skip(remove_end as int),
            final(self).version() == old(self).version() + 1,
            final(self).spec_total_listeners() == old(self).spec_total_listeners(),
            final(self).spec_pending_listeners() == old(self).spec_pending_listeners(),
    {
        let copy = replace_with.clone();
        let ghost pre = *self;
        let ghost pre_state = self.state();
        let ghost pre_log = self.log();
        let ghost pre_items = self.items@;
        let ghost rec = Change::Splice { remove_start, remove_end, replace_with };
        proof {
            assert(seq_cloned(replace_with@, copy@));
        }
        apply_to_mirror(
            &mut self.items,
            Change::Splice { remove_start, remove_end, replace_with: copy },
        );
        self.log.push(Change::Splice { remove_start, remove_end, replace_with });
        self.version = self.version.incremented();
        let n2 = self.items.len();
        proof {
            lemma_seq_cloned_splice(
                pre_state,
                pre_items,
                remove_start as int,
                remove_end as int,
                replace_with@,
                copy@,
            );
            lemma_apply_changes_push(self.initial@, pre_log, rec);
            assert forall|v: nat| 1 <= v <= self.version() implies (#[trigger] self.state_at(
                v,
            )).len() <= usize::MAX by {
                if v <= pre.version() {
                    assert(self.log().take(v - 1) =~= pre.log().take(v - 1));
                    assert(pre.state_at(v).len() <= usize::MAX);
                } else {
                    assert(self.log().take(v - 1) =~= self.log());
                    assert(self.state().len() == self.items@.len());
                }
            }
        }
    }

    /// The change records produced after version `since`, oldest first.
    ///
    /// Replaying them in order against a mirror equal to the snapshot at
    /// `since` yields the current state: the round-trip law of the change
    /// log.
    pub fn changes_since(&self, since: Version) -> (r: &[Change<T>])
        requires
            self.wf(),
            1 <= since@ <= self.version(),
        ensures
            r@ == self.log().skip(since@ - 1),
            apply_changes(self.state_at(since@), r@) == self.state(),
            changes_valid_from(self.state_at(since@), r@),
    {
        let start_wide: u64 = since.as_u64() - 1;
        let start: usize = start_wide as usize;
        proof {
            lemma_apply_changes_concat(
                self.initial@,
                self.log().take(since@ - 1),
                self.log().skip(since@ - 1),
            );
            lemma_changes_valid_concat(
                self.initial@,
                self.log().take(since@ - 1),
                self.log().skip(since@ - 1),
            );
            assert(self.log().take(since@ - 1) + self.log().skip(since@ - 1) == self.log());
        }
        slice_subrange(self.log.as_slice(), start, self.log.len())
    }

    /// Record that one more consumer follows this collection's log.
    pub fn listener_attached(&mut self)
        requires
            old(self).spec_total_listeners() < u64::MAX,
        ensures
            final(self).spec_total_listeners() == old(self).spec_total_listeners() + 1,
            unchanged_but_listeners(old(self), final(self)),
            final(self).spec_pending_listeners() == old(self).spec_pending_listeners(),
    {
        let ghost pre = *self;
        self.total_listeners = self.total_listeners + 1;
        proof {
            lemma_wf_ignores_listeners(pre, *self);
        }
    }

    /// Record that a consumer stopped following this collection's log.
    pub fn listener_detached(&mut self)
        requires
            old(self).spec_total_listeners() > 0,
        ensures
            final(self).spec_total_listeners() == old(self).spec_total_listeners() - 1,
            unchanged_but_listeners(old(self), final(self)),
            final(self).spec_pending_listeners() == old(self).spec_pending_listeners(),
    {
        let ghost pre = *self;
        self.total_listeners = self.total_listeners - 1;
        proof {
            lemma_wf_ignores_listeners(pre, *self);
        }
    }

    /// Mark every attached listener as having a notification to process.
    pub fn mark_all_pending(&mut self)
        ensures
            final(self).spec_pending_listeners() == final(self).spec_total_listeners(),
            final(self).spec_total_listeners() == old(self).spec_total_listeners(),
            unchanged_but_listeners(old(self), final(self)),
    {
        let ghost pre = *self;
        self.pending_listeners = self.total_listeners;
        proof {
            lemma_wf_ignores_listeners(pre, *self);
        }
    }

    /// Record that one listener finished processing the notification.
    pub fn listener_processed(&mut self)
        requires
            old(self).spec_pending_listeners() > 0,
        ensures
            final(self).spec_pending_listeners() == old(self).spec_pending_listeners() - 1,
            final(self).spec_total_listeners() == old(self).spec_total_listeners(),
            unchanged_but_listeners(old(self), final(self)),
    {
        let ghost pre = *self;
        self.pending_listeners = self.pending_listeners - 1;
        proof {
            lemma_wf_ignores_listeners(pre, *self);
        }
    }

    pub fn total_listener_count(&self) -> (r: u64)
        ensures
            r as nat == self.spec_total_listeners(),
    {
        self.total_listeners
    }

    pub fn pending_listener_count(&self) -> (r: u64)
        ensures
            r as nat == self.spec_pending_listeners(),
    {
        self.pending_listeners
    }
}

/// Facts every well-formed collection provides to its consumers.
pub proof fn lemma_wf_facts<T: Clone>(m: ListModel<T>)
    requires
        m.wf(),
    ensures
        m.version() == m.log().len() + 1,
        m.state_at(m.version()) == m.state(),
        m.items().len() == m.state().len(),
        forall|v: nat| 1 <= v <= m.version() ==> (#[trigger] m.state_at(v)).len() <= usize::MAX,
{
    assert(m.log().take(m.version() - 1) =~= m.log());
}

/// The structural invariant does not look at the listener counters.
pub proof fn lemma_wf_ignores_listeners<T: Clone>(a: ListModel<T>, b: ListModel<T>)
    requires
        b.items() == a.items(),
        b.log() == a.log(),
        b.initial() == a.initial(),
        b.version() == a.version(),
    ensures
        a.wf() == b.wf(),
{
    assert forall|v: nat| 1 <= v <= a.version() implies a.state_at(v) == b.state_at(v) by {}
    if a.wf() {
        assert forall|v: nat| 1 <= v <= b.version() implies (#[trigger] b.state_at(v)).len()
            <= usize::MAX by {
            assert(a.state_at(v).len() <= usize::MAX);
        }
    }
    if b.wf() {
        assert forall|v: nat| 1 <= v <= a.version() implies (#[trigger] a.state_at(v)).len()
            <= usize::MAX by {
            assert(b.state_at(v).len() <= usize::MAX);
        }
    }
}

/// The listener counters may differ; everything else is the same.
pub open spec fn unchanged_but_listeners<T: Clone>(a: &ListModel<T>, b: &ListModel<T>) -> bool {
    &&& b.items() == a.items()
    &&& b.log() == a.log()
    &&& b.initial() == a.initial()
    &&& b.version() == a.version()
    &&& b.wf() == a.wf()
}

/// The round-trip law of the change log: for every well-formed collection
/// and every version `v` a reader once observed, replaying the records
/// produced after `v` against the snapshot at `v` reproduces the current
/// snapshot exactly, in order.
pub proof fn lemma_replay_roundtrip<T: Clone>(m: &ListModel<T>, v: nat)
    requires
        m.wf(),
        1 <= v <= m.version(),
    ensures
        apply_changes(m.state_at(v), m.log().skip(v - 1)) == m.state(),
{
    lemma_apply_changes_concat(m.initial(), m.log().take(v - 1), m.log().skip(v - 1));
    assert(m.log().take(v - 1) + m.log().skip(v - 1) == m.log());
}

} // verus!
