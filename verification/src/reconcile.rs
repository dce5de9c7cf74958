use vstd::prelude::*;

use crate::backing::{
    entry_vec_append, entry_vec_back, entry_vec_get, entry_vec_insert, entry_vec_len,
    entry_vec_new, entry_vec_push_back, entry_vec_remove, entry_vec_split_off, entry_vec_view,
    task_slab_insert, task_slab_new, task_slab_remove, task_slab_view,
};
use crate::changes::{apply_changes, change_valid_for, changes_valid_from, Change};
use crate::list_model::ListModel;
use crate::version::Version;
use vstd::slice::slice_index_get;

verus! {

/// One element or task lifecycle operation the host's rendering backend
/// must perform to keep the rendered sequence in step with the collection.
#[derive(Debug, PartialEq)]
pub enum RenderOp<T> {
    /// Create the rendered element named `element`, inserted immediately
    /// after the element named by `anchor` (as first child when there is
    /// none), and spawn the render task named `task` for `value`.
    CreateItem { element: u64, task: u64, anchor: Option<u64>, value: T },
    /// Abort and drop the render task named `task`.
    AbortTask { task: u64 },
    /// Remove the rendered element named `element`.
    RemoveElement { element: u64 },
}

/// The element identities of a table, in document order.
pub open spec fn table_elems(entries: Seq<(u64, usize)>) -> Seq<u64> {
    Seq::new(entries.len(), |i: int| entries[i].0)
}

/// The element a new item at position `index` is anchored after: its
/// predecessor's element, or nothing when it becomes the first child.
pub open spec fn anchor_for(elems: Seq<u64>, index: int) -> Option<u64> {
    if index <= 0 {
        None
    } else {
        Some(elems[index - 1])
    }
}

/// The run of freshly allocated element or task names starting at `base`.
pub open spec fn fresh_run(base: u64, n: nat) -> Seq<u64> {
    Seq::new(n, |j: int| (base + j) as u64)
}

/// Whether `op` creates element `element` with task `task`, anchored at
/// `anchor`, rendering a clone of `source`.
pub open spec fn is_create<T: Clone>(
    op: RenderOp<T>,
    element: u64,
    task: u64,
    anchor: Option<u64>,
    source: T,
) -> bool {
    op matches RenderOp::CreateItem { element: e, task: t, anchor: a, value: v } && e == element
        && t == task && a == anchor && cloned::<T>(source, v)
}

/// How many fresh elements and tasks applying `c` allocates.
pub open spec fn change_growth<T>(c: Change<T>) -> nat {
    match c {
        Change::Splice { remove_start, remove_end, replace_with } => replace_with@.len(),
        Change::Insert { index, value } => 1,
        Change::Remove { index } => 0,
    }
}

/// The length of a table of length `len` after applying `c`.
pub open spec fn change_applied_len<T>(c: Change<T>, len: nat) -> int
    recommends
        change_valid_for(c, len),
{
    match c {
        Change::Splice { remove_start, remove_end, replace_with } => len - (remove_end
            - remove_start) + replace_with@.len(),
        Change::Insert { index, value } => len as int + 1,
        Change::Remove { index } => len as int - 1,
    }
}

/// How many fresh elements and tasks applying all of `cs` allocates.
pub open spec fn growth_of<T>(cs: Seq<Change<T>>) -> nat
    decreases cs.len(),
{
    if cs.len() == 0 {
        0
    } else {
        change_growth(cs[0]) + growth_of(cs.skip(1))
    }
}

/// How many backend operations one change record translates to: two per
/// removed item (abort, remove), one per created item.
pub open spec fn change_op_count<T>(c: Change<T>) -> nat {
    match c {
        Change::Splice { remove_start, remove_end, replace_with } => (2 * (remove_end
            - remove_start) + replace_with@.len()) as nat,
        Change::Insert { index, value } => 1,
        Change::Remove { index } => 2,
    }
}

/// How many backend operations a run of records translates to.
pub open spec fn ops_count_of<T>(cs: Seq<Change<T>>) -> nat
    decreases cs.len(),
{
    if cs.len() == 0 {
        0
    } else {
        change_op_count(cs[0]) + ops_count_of(cs.skip(1))
    }
}

/// Whether the `j`-th removal of a splice starting at table position
/// `start` put its two operations — abort the task, then remove the
/// element, in that order — at their place after `base` in `ops`.
pub open spec fn removal_ops_ok<T: Clone>(
    ops: Seq<RenderOp<T>>,
    base: int,
    start: int,
    j: int,
    entries: Seq<(u64, usize)>,
    slots: Map<usize, u64>,
) -> bool {
    &&& ops[base + 2 * j] == (RenderOp::<T>::AbortTask { task: slots[entries[start + j].1] })
    &&& ops[base + 2 * j + 1] == (RenderOp::<T>::RemoveElement { element: entries[start + j].0 })
}

/// Whether the `j`-th creation of a run put, at its place after `base` in
/// `ops`, an operation creating the `j`-th fresh element with the `j`-th
/// fresh task for a clone of the `j`-th source value, anchored after the
/// previous fresh element — or at `first_anchor` for the first one.
pub open spec fn create_ops_ok<T: Clone>(
    ops: Seq<RenderOp<T>>,
    base: int,
    j: int,
    elem_base: u64,
    task_base: u64,
    first_anchor: Option<u64>,
    sources: Seq<T>,
) -> bool {
    is_create(
        ops[base + j],
        (elem_base + j) as u64,
        (task_base + j) as u64,
        if j == 0 {
            first_anchor
        } else {
            Some((elem_base + j - 1) as u64)
        },
        sources[j],
    )
}

/// Keeps a live item table — one (element identity, task slot) pair per
/// collection item, in document order — synchronized with a reactive
/// collection's change log, translating each change record into the
/// minimal element and task lifecycle operations.
///
/// The table itself lives in a persistent `im_rc` vector and the render
/// task slots in a `slab`, reached only through this crate's specified
/// doors to those crates. Element and task names are allocated from
/// counters and never reused, so an operation can never confuse two
/// distinct elements or tasks.
pub struct Reconciler {
    entries: im_rc::Vector<(u64, usize)>,
    tasks: slab::Slab<u64>,
    next_element: u64,
    next_task: u64,
    last_version: Version,
}

impl Reconciler {
    /// The live item table: (element identity, task slot key), in document
    /// order.
    pub closed spec fn live_entries(&self) -> Seq<(u64, usize)> {
        entry_vec_view(self.entries)
    }

    /// The element identities in document order.
    pub open spec fn elems(&self) -> Seq<u64> {
        table_elems(self.live_entries())
    }

    /// The render task slots: slot key to task name.
    pub closed spec fn task_slots(&self) -> Map<usize, u64> {
        task_slab_view(self.tasks)
    }

    /// The task name rendering the item at table position `i`.
    pub open spec fn task_of(&self, i: int) -> u64 {
        self.task_slots()[self.live_entries()[i].1]
    }

    pub closed spec fn next_element_spec(&self) -> u64 {
        self.next_element
    }

    pub closed spec fn next_task_spec(&self) -> u64 {
        self.next_task
    }

    /// The collection version this table was last synchronized to.
    pub closed spec fn synced_version(&self) -> nat {
        self.last_version@
    }

    /// Structural invariant: element identities and task slot keys are
    /// pairwise distinct, every entry's slot is occupied, and every name
    /// already handed out is below its allocation counter.
    pub closed spec fn wf(&self) -> bool {
        let entries = self.live_entries();
        let slots = self.task_slots();
        &&& forall|i: int, j: int|
            #![trigger entries[i], entries[j]]
            0 <= i < j < entries.len() ==> entries[i].0 != entries[j].0 && entries[i].1
                != entries[j].1
        &&& forall|i: int|
            0 <= i < entries.len() ==> (#[trigger] entries[i]).0 < self.next_element
        &&& forall|i: int|
            0 <= i < entries.len() ==> slots.dom().contains((#[trigger] entries[i]).1)
        &&& forall|i: int|
            0 <= i < entries.len() ==> slots[(#[trigger] entries[i]).1] < self.next_task
    }

    /// A fresh reconciler: empty table, no task slots, all names still
    /// unallocated, synchronized to nothing yet.
    pub fn new() -> (r: Self)
        ensures
            r.wf(),
            r.live_entries() == Seq::<(u64, usize)>::empty(),
            r.task_slots() == crate::backing::task_slab_empty(),
            r.next_element_spec() == 0,
            r.next_task_spec() == 0,
            r.synced_version() == 0,
    {
        Reconciler {
            entries: entry_vec_new(),
            tasks: task_slab_new(),
            next_element: 0,
            next_task: 0,
            last_version: Version::new_null(),
        }
    }

    /// Allocate one element name and one task name, occupy a task slot,
    /// and emit the creation operation; the caller places the returned
    /// (element, slot key) pair into the table.
    fn create_item<T: Clone>(
        &mut self,
        value: &T,
        anchor: Option<u64>,
        ops: &mut Vec<RenderOp<T>>,
    ) -> (pair: (u64, usize))
        requires
            old(self).next_element_spec() < u64::MAX,
            old(self).next_task_spec() < u64::MAX,
        ensures
            pair.0 == old(self).next_element_spec(),
            !old(self).task_slots().dom().contains(pair.1),
            final(self).task_slots() == old(self).task_slots().insert(
                pair.1,
                old(self).next_task_spec(),
            ),
            final(self).live_entries() == old(self).live_entries(),
            final(self).next_element_spec() == old(self).next_element_spec() + 1,
            final(self).next_task_spec() == old(self).next_task_spec() + 1,
            final(self).synced_version() == old(self).synced_version(),
            final(ops)@.len() == old(ops)@.len() + 1,
            final(ops)@.take(old(ops)@.len() as int) == old(ops)@,
            is_create(
                final(ops)@.last(),
                old(self).next_element_spec(),
                old(self).next_task_spec(),
                anchor,
                *value,
            ),
    {
        let element = self.next_element;
        let task = self.next_task;
        self.next_element = self.next_element + 1;
        self.next_task = self.next_task + 1;
        let key = task_slab_insert(&mut self.tasks, task);
        let rendered = value.clone();
        ops.push(RenderOp::CreateItem { element, task, anchor, value: rendered });
        proof {
            assert(ops@.take(old(ops)@.len() as int) =~= old(ops)@);
        }
        (element, key)
    }

    /// Translate one change record into backend operations and apply it to
    /// the live item table.
    ///
    /// A `Remove` aborts the task and removes the element at the index. An
    /// `Insert` creates one element and task anchored after the
    /// predecessor's element. A `Splice` removes tasks and elements for the
    /// whole range in index order, then creates the replacements, the first
    /// anchored after the element preceding the removed range and each
    /// further one after its predecessor, so document order always matches
    /// collection order when the record has been fully applied: the lemmas
    /// in `document` prove this against a model of the backend's
    /// insert-after and remove primitives.
    pub fn handle_change<T: Clone>(&mut self, change: &Change<T>, ops: &mut Vec<RenderOp<T>>)
        requires
            old(self).wf(),
            change_valid_for(*change, old(self).elems().len()),
            change_applied_len(*change, old(self).elems().len()) <= usize::MAX,
            old(self).next_element_spec() + change_growth(*change) <= u64::MAX,
            old(self).next_task_spec() + change_growth(*change) <= u64::MAX,
        ensures
            final(self).wf(),
            final(self).synced_version() == old(self).synced_version(),
            final(self).next_element_spec() == old(self).next_element_spec() + change_growth(
                *change,
            ),
            final(self).next_task_spec() == old(self).next_task_spec() + change_growth(*change),
            final(self).elems().len() == change_applied_len(*change, old(self).elems().len()),
            final(ops)@.len() == old(ops)@.len() + change_op_count(*change),
            final(ops)@.take(old(ops)@.len() as int) == old(ops)@,
            (*change matches Change::Insert { index, value } ==> {
                &&& final(self).elems() == old(self).elems().insert(
                    index as int,
                    old(self).next_element_spec(),
                )
                &&& final(ops)@.len() == old(ops)@.len() + 1
                &&& is_create(
                    final(ops)@.last(),
                    old(self).next_element_spec(),
                    old(self).next_task_spec(),
                    anchor_for(old(self).elems(), index as int),
                    value,
                )
            }),
            (*change matches Change::Remove { index } ==> {
                &&& final(self).elems() == old(self).elems().remove(index as int)
                &&& final(ops)@.len() == old(ops)@.len() + 2
                &&& final(ops)@[old(ops)@.len() as int] == (RenderOp::<T>::AbortTask {
                    task: old(self).task_of(index as int),
                })
                &&& final(ops)@.last() == (RenderOp::<T>::RemoveElement {
                    element: old(self).elems()[index as int],
                })
            }),
            (*change matches Change::Splice { remove_start, remove_end, replace_with } ==> {
                &&& final(self).elems() == old(self).elems().take(remove_start as int)
                    + fresh_run(old(self).next_element_spec(), replace_with@.len())
                    + old(self).elems().skip(remove_end as int)
                &&& final(ops)@.len() == old(ops)@.len() + 2 * (remove_end - remove_start)
                    + replace_with@.len()
                &&& forall|j: int|
                    0 <= j < remove_end - remove_start ==> #[trigger] removal_ops_ok(
                        final(ops)@,
                        old(ops)@.len() as int,
                        remove_start as int,
                        j,
                        old(self).live_entries(),
                        old(self).task_slots(),
                    )
                &&& forall|j: int|
                    0 <= j < replace_with@.len() ==> #[trigger] create_ops_ok(
                        final(ops)@,
                        old(ops)@.len() + 2 * (remove_end - remove_start),
                        j,
                        old(self).next_element_spec(),
                        old(self).next_task_spec(),
                        anchor_for(old(self).elems(), remove_start as int),
                        replace_with@,
                    )
            }),
    {
        let ghost olde = self.live_entries();
        let ghost old_slots = self.task_slots();
        let ghost old_elems = self.elems();
        let ghost base = ops@.len() as int;
        match change {
            Change::Insert { index, value } => {
                let idx = *index;
                let anchor: Option<u64> = if idx > 0 {
                    Some(entry_vec_get(&self.entries, idx - 1).0)
                } else {
                    None
                };
                let pair = self.create_item(value, anchor, ops);
                entry_vec_insert(&mut self.entries, idx, pair);
                proof {
                    assert(self.elems() =~= old_elems.insert(idx as int, pair.0));
                    assert forall|i: int, j: int|
                        #![trigger self.live_entries()[i], self.live_entries()[j]]
                        0 <= i < j < self.live_entries().len() implies self.live_entries()[i].0
                        != self.live_entries()[j].0 && self.live_entries()[i].1
                        != self.live_entries()[j].1 by {
                        let s = self.live_entries();
                        assert(forall|k: int|
                            0 <= k < s.len() && k != idx ==> #[trigger] s[k] == olde[
                                if k < idx {
                                    k
                                } else {
                                    k - 1
                                }]);
                    }
                }
            },
            Change::Remove { index } => {
                let idx = *index;
                let pair = entry_vec_remove(&mut self.entries, idx);
                let task = task_slab_remove(&mut self.tasks, pair.1);
                ops.push(RenderOp::AbortTask { task });
                ops.push(RenderOp::RemoveElement { element: pair.0 });
                proof {
                    assert(self.elems() =~= old_elems.remove(idx as int));
                    assert(ops@.take(base) =~= old(ops)@);
                    let s = self.live_entries();
                    assert(forall|k: int|
                        0 <= k < s.len() ==> #[trigger] s[k] == olde[
                            if k < idx {
                                k
                            } else {
                                k + 1
                            }]);
                }
            },
            Change::Splice { remove_start, remove_end, replace_with } => {
                let start = *remove_start;
                let end = *remove_end;
                let n_rem = end - start;
                let mut right = entry_vec_split_off(&mut self.entries, start);
                let tail = entry_vec_split_off(&mut right, n_rem);
                let ghost mid = olde.subrange(start as int, end as int);
                proof {
                    assert(entry_vec_view(right) =~= mid);
                }
                let mut i: usize = 0;
                while i < n_rem
                    invariant
                        i <= n_rem,
                        n_rem == end - start,
                        start <= end <= olde.len(),
                        self.live_entries() == olde.take(start as int),
                        entry_vec_view(right) == mid,
                        entry_vec_view(tail) == olde.skip(end as int),
                        mid == olde.subrange(start as int, end as int),
                        self.next_element_spec() == old(self).next_element_spec(),
                        self.next_task_spec() == old(self).next_task_spec(),
                        self.synced_version() == old(self).synced_version(),
                        olde == old(self).live_entries(),
                        old_slots == old(self).task_slots(),
                        old(self).wf(),
                        forall|l: int|
                            i <= l < n_rem ==> self.task_slots().dom().contains(
                                (#[trigger] mid[l]).1,
                            ) && self.task_slots()[mid[l].1] == old_slots[mid[l].1],
                        forall|l: int|
                            0 <= l < olde.len() && !(start <= l < start + i)
                                ==> self.task_slots().dom().contains((#[trigger] olde[l]).1)
                                && self.task_slots()[olde[l].1] == old_slots[olde[l].1],
                        base == old(ops)@.len(),
                        ops@.len() == base + 2 * i,
                        ops@.take(base) == old(ops)@,
                        forall|l: int|
                            0 <= l < i ==> #[trigger] removal_ops_ok(
                                ops@,
                                base,
                                start as int,
                                l,
                                olde,
                                old_slots,
                            ),
                    decreases n_rem - i,
                {
                    let pair = entry_vec_get(&right, i);
                    proof {
                        assert(mid[i as int] == olde[start + i]);
                    }
                    let ghost pre_ops = ops@;
                    let task = task_slab_remove(&mut self.tasks, pair.1);
                    ops.push(RenderOp::AbortTask { task });
                    ops.push(RenderOp::RemoveElement { element: pair.0 });
                    proof {
                        assert(ops@.take(base) =~= old(ops)@);
                        assert forall|l: int| 0 <= l < i + 1 implies #[trigger] removal_ops_ok(
                            ops@,
                            base,
                            start as int,
                            l,
                            olde,
                            old_slots,
                        ) by {
                            if l < i {
                                assert(removal_ops_ok(pre_ops, base, start as int, l, olde, old_slots));
                                assert(ops@[base + 2 * l] == pre_ops[base + 2 * l]);
                                assert(ops@[base + 2 * l + 1] == pre_ops[base + 2 * l + 1]);
                            } else {
                                assert(ops@[base + 2 * l] == (RenderOp::<T>::AbortTask { task }));
                                assert(ops@[base + 2 * l + 1] == (RenderOp::<T>::RemoveElement {
                                    element: pair.0,
                                }));
                            }
                        }
                        assert forall|l: int|
                            0 <= l < olde.len() && !(start <= l < start + i + 1)
                            implies self.task_slots().dom().contains((#[trigger] olde[l]).1)
                            && self.task_slots()[olde[l].1] == old_slots[olde[l].1] by {
                            assert(olde[l].1 != olde[start + i].1);
                        }
                        assert forall|l: int|
                            i + 1 <= l < n_rem implies self.task_slots().dom().contains(
                            (#[trigger] mid[l]).1,
                        ) && self.task_slots()[mid[l].1] == old_slots[mid[l].1] by {
                            assert(mid[l] == olde[start + l]);
                            assert(olde[start + l].1 != olde[start + i].1);
                        }
                    }
                    i = i + 1;
                }
                let back = entry_vec_back(&self.entries);
                let first_anchor: Option<u64> = match back {
                    Some(p) => Some(p.0),
                    None => None,
                };
                proof {
                    assert(first_anchor == anchor_for(old_elems, start as int)) by {
                        if start > 0 {
                            assert(olde.take(start as int)[start - 1] == olde[start - 1]);
                            assert(old_elems[start - 1] == olde[start - 1].0);
                        }
                    }
                }
                let ghost base2 = base + 2 * (n_rem as int);
                let n_new = replace_with.len();
                let mut j: usize = 0;
                while j < n_new
                    invariant
                        j <= n_new,
                        n_new == replace_with@.len(),
                        n_rem == end - start,
                        start <= end <= olde.len(),
                        olde.len() - n_rem + n_new <= usize::MAX,
                        olde == old(self).live_entries(),
                        old_slots == old(self).task_slots(),
                        old(self).wf(),
                        old(self).next_element_spec() + n_new <= u64::MAX,
                        old(self).next_task_spec() + n_new <= u64::MAX,
                        base == old(ops)@.len(),
                        base2 == base + 2 * n_rem,
                        first_anchor == anchor_for(old_elems, start as int),
                        entry_vec_view(tail) == olde.skip(end as int),
                        self.next_element_spec() == old(self).next_element_spec() + j,
                        self.next_task_spec() == old(self).next_task_spec() + j,
                        self.synced_version() == old(self).synced_version(),
                        self.live_entries().len() == start + j,
                        forall|p: int|
                            0 <= p < start ==> #[trigger] self.live_entries()[p] == olde[p],
                        forall|p: int|
                            start <= p < start + j ==> (#[trigger] self.live_entries()[p]).0
                                == old(self).next_element_spec() + (p - start),
                        forall|p: int|
                            start <= p < start + j ==> self.task_slots().dom().contains(
                                (#[trigger] self.live_entries()[p]).1,
                            ) && self.task_slots()[self.live_entries()[p].1] == old(
                                self,
                            ).next_task_spec() + (p - start),
                        forall|p: int, q: int|
                            #![trigger self.live_entries()[p], self.live_entries()[q]]
                            0 <= p < q < start + j ==> self.live_entries()[p].1
                                != self.live_entries()[q].1,
                        forall|l: int|
                            0 <= l < olde.len() && !(start <= l < end)
                                ==> self.task_slots().dom().contains((#[trigger] olde[l]).1)
                                && self.task_slots()[olde[l].1] == old_slots[olde[l].1],
                        forall|p: int, l: int|
                            #![trigger self.live_entries()[p], olde[l]]
                            start <= p < start + j && 0 <= l < olde.len() && !(start <= l < end)
                                ==> self.live_entries()[p].1 != olde[l].1,
                        ops@.len() == base2 + j,
                        ops@.take(base) == old(ops)@,
                        forall|l: int|
                            0 <= l < n_rem ==> #[trigger] removal_ops_ok(
                                ops@,
                                base,
                                start as int,
                                l,
                                olde,
                                old_slots,
                            ),
                        forall|l: int|
                            0 <= l < j ==> #[trigger] create_ops_ok(
                                ops@,
                                base2,
                                l,
                                old(self).next_element_spec(),
                                old(self).next_task_spec(),
                                anchor_for(old_elems, start as int),
                                replace_with@,
                            ),
                    decreases n_new - j,
                {
                    let anchor_j: Option<u64> = if j == 0 {
                        first_anchor
                    } else {
                        Some(self.next_element - 1)
                    };
                    let ghost pre = *self;
                    let ghost pre_ops = ops@;
                    let pair = self.create_item(&replace_with[j], anchor_j, ops);
                    entry_vec_push_back(&mut self.entries, pair);
                    proof {
                        assert(ops@.take(base) =~= old(ops)@);
                        assert forall|l: int| 0 <= l < n_rem implies #[trigger] removal_ops_ok(
                            ops@,
                            base,
                            start as int,
                            l,
                            olde,
                            old_slots,
                        ) by {
                            assert(removal_ops_ok(pre_ops, base, start as int, l, olde, old_slots));
                            assert(ops@[base + 2 * l] == pre_ops[base + 2 * l]);
                            assert(ops@[base + 2 * l + 1] == pre_ops[base + 2 * l + 1]);
                        }
                        assert forall|l: int| 0 <= l < j + 1 implies #[trigger] create_ops_ok(
                            ops@,
                            base2,
                            l,
                            old(self).next_element_spec(),
                            old(self).next_task_spec(),
                            anchor_for(old_elems, start as int),
                            replace_with@,
                        ) by {
                            if l < j {
                                assert(create_ops_ok(
                                    pre_ops,
                                    base2,
                                    l,
                                    old(self).next_element_spec(),
                                    old(self).next_task_spec(),
                                    anchor_for(old_elems, start as int),
                                    replace_with@,
                                ));
                                assert(ops@[base2 + l] == pre_ops[base2 + l]);
                            } else {
                                assert(ops@[base2 + l] == ops@.last());
                            }
                        }
                    }
                    j = j + 1;
                }
                entry_vec_append(&mut self.entries, tail);
                proof {
                    let fin = self.live_entries();
                    assert(self.elems() =~= old_elems.take(start as int) + fresh_run(
                        old(self).next_element_spec(),
                        n_new as nat,
                    ) + old_elems.skip(end as int)) by {
                        assert(self.elems().len() == old_elems.take(start as int).len()
                            + fresh_run(old(self).next_element_spec(), n_new as nat).len()
                            + old_elems.skip(end as int).len());
                        assert forall|p: int| 0 <= p < start implies self.elems()[p]
                            == old_elems[p] by {
                            assert(fin[p] == olde[p]);
                        }
                        assert forall|p: int| start <= p < start + n_new implies self.elems()[p]
                            == (old(self).next_element_spec() + (p - start)) as u64 by {
                            assert(fin[p].0 == old(self).next_element_spec() + (p - start));
                        }
                        assert forall|p: int| start + n_new <= p < fin.len() implies self.elems()[p]
                            == old_elems[p - n_new + n_rem] by {
                            assert(fin[p] == olde.skip(end as int)[p - start - n_new]);
                        }
                    }
                    assert forall|i2: int, j2: int|
                        #![trigger fin[i2], fin[j2]]
                        0 <= i2 < j2 < fin.len() implies fin[i2].0 != fin[j2].0 && fin[i2].1
                        != fin[j2].1 by {
                        let nn = n_new as int;
                        if j2 >= start + nn {
                            assert(fin[j2] == olde.skip(end as int)[j2 - start - nn]);
                            assert(fin[j2] == olde[j2 - start - nn + end]);
                        }
                        if i2 >= start + nn {
                            assert(fin[i2] == olde.skip(end as int)[i2 - start - nn]);
                            assert(fin[i2] == olde[i2 - start - nn + end]);
                        }
                        if i2 < start {
                            assert(fin[i2] == olde[i2]);
                        }
                        if j2 < start {
                            assert(fin[j2] == olde[j2]);
                        }
                    }
                    assert forall|p: int| 0 <= p < fin.len() implies (#[trigger] fin[p]).0
                        < self.next_element_spec() && self.task_slots().dom().contains(fin[p].1)
                        && self.task_slots()[fin[p].1] < self.next_task_spec() by {
                        let nn = n_new as int;
                        if p < start {
                            assert(fin[p] == olde[p]);
                        } else if p >= start + nn {
                            assert(fin[p] == olde.skip(end as int)[p - start - nn]);
                            assert(fin[p] == olde[p - start - nn + end]);
                        }
                    }
                }
            },
        }
    }

    /// The number of live entries: one per reconciled collection item.
    pub fn table_len(&self) -> (n: usize)
        ensures
            n == self.elems().len(),
    {
        entry_vec_len(&self.entries)
    }

    /// The element identity at table position `i`.
    pub fn element_at(&self, i: usize) -> (e: u64)
        requires
            i < self.elems().len(),
        ensures
            e == self.elems()[i as int],
    {
        entry_vec_get(&self.entries, i).0
    }

    /// Whether this table is an up-to-date mirror of the collection as of
    /// the version it last synchronized to: one live entry per item of the
    /// snapshot at that version.
    pub open spec fn in_sync<T: Clone>(&self, model: &ListModel<T>) -> bool {
        &&& 1 <= self.synced_version() <= model.version()
        &&& self.elems().len() == model.state_at(self.synced_version()).len()
    }

    /// Attach to a collection and build the table from scratch: one
    /// element and one render task per item, in order, each anchored after
    /// its predecessor's element.
    pub fn start<T: Clone>(&mut self, model: &mut ListModel<T>) -> (ops: Vec<RenderOp<T>>)
        requires
            old(self).wf(),
            old(self).live_entries().len() == 0,
            old(model).wf(),
            old(model).spec_total_listeners() < u64::MAX,
            old(self).next_element_spec() + old(model).items().len() <= u64::MAX,
            old(self).next_task_spec() + old(model).items().len() <= u64::MAX,
        ensures
            final(self).wf(),
            final(self).in_sync(final(model)),
            final(self).synced_version() == old(model).version(),
            final(self).elems() == fresh_run(
                old(self).next_element_spec(),
                old(model).items().len(),
            ),
            final(self).elems().len() == old(model).items().len(),
            ops@.len() == old(model).items().len(),
            forall|j: int|
                0 <= j < ops@.len() ==> #[trigger] create_ops_ok(
                    ops@,
                    0,
                    j,
                    old(self).next_element_spec(),
                    old(self).next_task_spec(),
                    Option::None,
                    old(model).items(),
                ),
            final(model).spec_total_listeners() == old(model).spec_total_listeners() + 1,
            final(model).spec_pending_listeners() == old(model).spec_pending_listeners(),
            crate::list_model::unchanged_but_listeners(old(model), final(model)),
    {
        model.listener_attached();
        let items = model.underlying_vector();
        let ghost src = items@;
        let n = items.len();
        let mut ops: Vec<RenderOp<T>> = Vec::new();
        let mut j: usize = 0;
        while j < n
            invariant
                j <= n,
                n == src.len(),
                src == old(model).items(),
                old(self).next_element_spec() + n <= u64::MAX,
                old(self).next_task_spec() + n <= u64::MAX,
                items@ == src,
                self.next_element_spec() == old(self).next_element_spec() + j,
                self.next_task_spec() == old(self).next_task_spec() + j,
                self.synced_version() == old(self).synced_version(),
                self.live_entries().len() == j,
                forall|p: int|
                    0 <= p < j ==> (#[trigger] self.live_entries()[p]).0 == old(
                        self,
                    ).next_element_spec() + p,
                forall|p: int|
                    0 <= p < j ==> self.task_slots().dom().contains(
                        (#[trigger] self.live_entries()[p]).1,
                    ) && self.task_slots()[self.live_entries()[p].1] == old(self).next_task_spec()
                        + p,
                forall|p: int, q: int|
                    #![trigger self.live_entries()[p], self.live_entries()[q]]
                    0 <= p < q < j ==> self.live_entries()[p].1 != self.live_entries()[q].1,
                ops@.len() == j,
                forall|l: int|
                    0 <= l < j ==> #[trigger] create_ops_ok(
                        ops@,
                        0,
                        l,
                        old(self).next_element_spec(),
                        old(self).next_task_spec(),
                        Option::None,
                        src,
                    ),
            decreases n - j,
        {
            let anchor: Option<u64> = if j == 0 {
                None
            } else {
                Some(self.next_element - 1)
            };
            let ghost pre_ops = ops@;
            let pair = self.create_item(&items[j], anchor, &mut ops);
            entry_vec_push_back(&mut self.entries, pair);
            proof {
                assert forall|l: int| 0 <= l < j + 1 implies #[trigger] create_ops_ok(
                    ops@,
                    0,
                    l,
                    old(self).next_element_spec(),
                    old(self).next_task_spec(),
                    Option::None,
                    src,
                ) by {
                    if l < j {
                        assert(create_ops_ok(
                            pre_ops,
                            0,
                            l,
                            old(self).next_element_spec(),
                            old(self).next_task_spec(),
                            Option::None,
                            src,
                        ));
                        assert(ops@[l] == pre_ops[l]);
                    } else {
                        assert(ops@[l] == ops@.last());
                    }
                }
            }
            j = j + 1;
        }
        self.last_version = model.get_version();
        proof {
            assert(self.elems() =~= fresh_run(old(self).next_element_spec(), src.len()));
            crate::list_model::lemma_wf_facts(*model);
        }
        ops
    }

    /// Consume the collection's change log since the last synchronization,
    /// translating every record in order, and note that this listener has
    /// processed the pending notification.
    ///
    /// Once the returned operations are performed by the backend, the
    /// rendered sequence again mirrors the collection: in particular the
    /// table holds exactly one entry per collection item, however the
    /// insertions, removals and splices were interleaved.
    pub fn sync_to<T: Clone>(&mut self, model: &mut ListModel<T>) -> (ops: Vec<RenderOp<T>>)
        requires
            old(self).wf(),
            old(model).wf(),
            old(self).in_sync(old(model)),
            old(self).next_element_spec() + growth_of(
                old(model).log().skip(old(self).synced_version() - 1),
            ) <= u64::MAX,
            old(self).next_task_spec() + growth_of(
                old(model).log().skip(old(self).synced_version() - 1),
            ) <= u64::MAX,
        ensures
            final(self).wf(),
            final(self).in_sync(final(model)),
            final(self).synced_version() == old(model).version(),
            final(self).elems().len() == old(model).state().len(),
            final(self).elems().len() == old(model).items().len(),
            ops@.len() == ops_count_of(old(model).log().skip(old(self).synced_version() - 1)),
            crate::list_model::unchanged_but_listeners(old(model), final(model)),
            final(model).spec_total_listeners() == old(model).spec_total_listeners(),
            final(model).spec_pending_listeners() == if old(model).spec_pending_listeners() > 0 {
                old(model).spec_pending_listeners() - 1
            } else {
                0
            },
    {
        let since = self.last_version;
        let ghost since_v = since@;
        proof {
            crate::list_model::lemma_wf_facts(*model);
        }
        let records = model.changes_since(since);
        let n = records.len();
        let mut ops: Vec<RenderOp<T>> = Vec::new();
        let ghost mut st = model.state_at(since_v);
        proof {
            assert(records@.take(0) =~= Seq::<Change<T>>::empty());
            assert(records@.skip(0) =~= records@);
        }
        let mut i: usize = 0;
        while i < n
            invariant
                i <= n,
                *model == *old(model),
                model.wf(),
                since_v == old(self).synced_version(),
                1 <= since_v <= model.version(),
                n == records@.len(),
                records@ == model.log().skip(since_v - 1),
                st == model.state_at((since_v + i) as nat),
                st == crate::changes::apply_changes(
                    model.state_at(since_v),
                    records@.take(i as int),
                ),
                changes_valid_from(st, records@.skip(i as int)),
                self.wf(),
                self.synced_version() == since_v,
                self.elems().len() == st.len(),
                self.next_element_spec() + growth_of(records@.skip(i as int)) <= u64::MAX,
                self.next_task_spec() + growth_of(records@.skip(i as int)) <= u64::MAX,
                ops@.len() + ops_count_of(records@.skip(i as int)) == ops_count_of(records@),
            decreases n - i,
        {
            let rec = slice_index_get(records, i);
            proof {
                crate::list_model::lemma_wf_facts(*model);
                assert(records@.skip(i as int)[0] == records@[i as int]);
                assert(records@.skip(i as int).skip(1) =~= records@.skip(i + 1));
                assert(model.log().take(since_v + i) =~= model.log().take(since_v + i - 1).push(
                    model.log()[since_v + i - 1],
                ));
                crate::changes::lemma_apply_changes_push(
                    model.initial(),
                    model.log().take(since_v + i - 1),
                    model.log()[since_v + i - 1],
                );
                assert(records@[i as int] == model.log()[since_v + i - 1]);
                assert(model.state_at((since_v + i + 1) as nat) == crate::changes::apply_change(
                    st,
                    records@[i as int],
                ));
                assert(model.state_at((since_v + i + 1) as nat).len() <= usize::MAX);
                assert(records@.take(i + 1) =~= records@.take(i as int).push(records@[i as int]));
                crate::changes::lemma_apply_changes_push(
                    model.state_at(since_v),
                    records@.take(i as int),
                    records@[i as int],
                );
            }
            self.handle_change(rec, &mut ops);
            proof {
                st = crate::changes::apply_change(st, records@[i as int]);
            }
            i = i + 1;
        }
        self.last_version = model.get_version();
        if model.pending_listener_count() > 0 {
            model.listener_processed();
        }
        proof {
            assert(records@.take(n as int) =~= records@);
            crate::list_model::lemma_wf_facts(*model);
        }
        ops
    }
}

/// A well-formed table's element identities are pairwise distinct and all
/// below the allocation counter: what the document model needs to locate
/// anchors unambiguously.
pub proof fn lemma_wf_elems_distinct(r: &Reconciler)
    requires
        r.wf(),
    ensures
        forall|i: int, j: int|
            #![trigger r.elems()[i], r.elems()[j]]
            0 <= i < j < r.elems().len() ==> r.elems()[i] != r.elems()[j],
        forall|p: int|
            0 <= p < r.elems().len() ==> #[trigger] r.elems()[p] < r.next_element_spec(),
{
    assert forall|i: int, j: int|
        #![trigger r.elems()[i], r.elems()[j]]
        0 <= i < j < r.elems().len() implies r.elems()[i] != r.elems()[j] by {
        assert(r.elems()[i] == r.live_entries()[i].0);
        assert(r.elems()[j] == r.live_entries()[j].0);
    }
    assert forall|p: int| 0 <= p < r.elems().len() implies #[trigger] r.elems()[p]
        < r.next_element_spec() by {
        assert(r.elems()[p] == r.live_entries()[p].0);
    }
}

} // verus!
