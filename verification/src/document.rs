use vstd::prelude::*;

use crate::reconcile::{
    anchor_for, create_ops_ok, fresh_run, is_create, removal_ops_ok, table_elems, RenderOp,
};

verus! {

/// A model of the rendered document: the element identities in document
/// order. The rendering backend exposes exactly two structural
/// primitives — insert an element after a sibling (or as first child) and
/// remove an element — and the lemmas here show that performing the
/// reconciler's operations through those primitives keeps document order
/// equal to collection order.
///
/// No element identity appears twice in a document.
pub open spec fn distinct_elems(s: Seq<u64>) -> bool {
    forall|i: int, j: int| #![trigger s[i], s[j]] 0 <= i < j < s.len() ==> s[i] != s[j]
}

/// The backend's insert-after primitive: a missing anchor makes the
/// element the first child.
pub open spec fn doc_insert_after(doc: Seq<u64>, element: u64, anchor: Option<u64>) -> Seq<u64>
    recommends
        anchor matches Some(a) ==> doc.contains(a),
{
    match anchor {
        Option::None => doc.insert(0, element),
        Option::Some(a) => doc.insert(doc.index_of(a) + 1, element),
    }
}

/// The backend's element-removal primitive.
pub open spec fn doc_remove_element(doc: Seq<u64>, element: u64) -> Seq<u64>
    recommends
        doc.contains(element),
{
    doc.remove(doc.index_of(element))
}

/// The document after the backend performs one operation. Aborting a task
/// does not touch the document.
pub open spec fn apply_render_op<T>(doc: Seq<u64>, op: RenderOp<T>) -> Seq<u64> {
    match op {
        RenderOp::CreateItem { element, task, anchor, value } => doc_insert_after(
            doc,
            element,
            anchor,
        ),
        RenderOp::AbortTask { task } => doc,
        RenderOp::RemoveElement { element } => doc_remove_element(doc, element),
    }
}

/// The document after the backend performs the operations in order.
pub open spec fn apply_render_ops<T>(doc: Seq<u64>, ops: Seq<RenderOp<T>>) -> Seq<u64>
    decreases ops.len(),
{
    if ops.len() == 0 {
        doc
    } else {
        apply_render_ops(apply_render_op(doc, ops[0]), ops.skip(1))
    }
}

/// In a document without duplicates, an element is found exactly at its
/// position.
pub proof fn lemma_index_of_distinct(s: Seq<u64>, p: int)
    requires
        distinct_elems(s),
        0 <= p < s.len(),
    ensures
        s.index_of(s[p]) == p,
{
    assert(s.contains(s[p]));
    let i = s.index_of(s[p]);
    assert(0 <= i < s.len() && s[i] == s[p]);
    if i < p {
        assert(s[i] != s[p]);
    } else if p < i {
        assert(s[p] != s[i]);
    }
}

/// Performing a concatenated run of operations is performing its parts in
/// turn.
pub proof fn lemma_apply_render_ops_concat<T>(doc: Seq<u64>, a: Seq<RenderOp<T>>, b: Seq<
    RenderOp<T>,
>)
    ensures
        apply_render_ops(doc, a + b) == apply_render_ops(apply_render_ops(doc, a), b),
    decreases a.len(),
{
    if a.len() == 0 {
        assert(a + b == b);
    } else {
        lemma_apply_render_ops_concat(apply_render_op(doc, a[0]), a.skip(1), b);
        assert((a + b).skip(1) == a.skip(1) + b);
    }
}

/// A single creation anchored after its predecessor's element lands at
/// its collection position: after an `Insert` record's one operation,
/// document order still matches collection order.
pub proof fn lemma_insert_op_orders_document<T: Clone>(
    doc: Seq<u64>,
    fresh: u64,
    task: u64,
    index: int,
    op: RenderOp<T>,
    source: T,
)
    requires
        distinct_elems(doc),
        0 <= index <= doc.len(),
        !doc.contains(fresh),
        is_create(op, fresh, task, anchor_for(doc, index), source),
    ensures
        apply_render_op(doc, op) == doc.insert(index, fresh),
{
    if index > 0 {
        lemma_index_of_distinct(doc, index - 1);
    }
}

/// A removal pair — abort the task, then remove the element at the index
/// — takes exactly that element out of the document: after a `Remove`
/// record's operations, document order still matches collection order.
pub proof fn lemma_remove_ops_order_document<T: Clone>(doc: Seq<u64>, index: int, ops: Seq<
    RenderOp<T>,
>)
    requires
        distinct_elems(doc),
        0 <= index < doc.len(),
        ops.len() == 2,
        ops[0] is AbortTask,
        ops[1] == (RenderOp::<T>::RemoveElement { element: doc[index] }),
    ensures
        apply_render_ops(doc, ops) == doc.remove(index),
{
    lemma_index_of_distinct(doc, index);
    assert(ops.skip(1)[0] == ops[1]);
    assert(ops.skip(1).skip(1) =~= Seq::<RenderOp<T>>::empty());
    assert(apply_render_ops(doc, ops) == apply_render_ops(doc, ops.skip(1)));
    assert(apply_render_ops(doc, ops.skip(1)) == apply_render_ops(
        doc.remove(index),
        ops.skip(1).skip(1),
    ));
}

/// A document holding a distinct prefix and suffix of a duplicate-free
/// element sequence together with a run of fresh names stays
/// duplicate-free: the fresh names sit at or above `fresh_base`, above
/// every existing element.
pub proof fn lemma_mixed_distinct(
    elems: Seq<u64>,
    start: int,
    cut: int,
    fresh_base: u64,
    n: nat,
)
    requires
        distinct_elems(elems),
        0 <= start <= cut <= elems.len(),
        forall|p: int| 0 <= p < elems.len() ==> #[trigger] elems[p] < fresh_base,
        fresh_base + n <= u64::MAX,
    ensures
        distinct_elems(elems.take(start) + fresh_run(fresh_base, n) + elems.skip(cut)),
{
    let doc = elems.take(start) + fresh_run(fresh_base, n) + elems.skip(cut);
    assert forall|i: int, j: int|
        #![trigger doc[i], doc[j]]
        0 <= i < j < doc.len() implies doc[i] != doc[j] by {
        let ni = n as int;
        if i < start {
            assert(doc[i] == elems[i]);
        } else if i < start + ni {
            assert(doc[i] == (fresh_base + (i - start)) as u64);
        } else {
            assert(doc[i] == elems[i - start - ni + cut]);
        }
        if j < start {
            assert(doc[j] == elems[j]);
        } else if j < start + ni {
            assert(doc[j] == (fresh_base + (j - start)) as u64);
        } else {
            assert(doc[j] == elems[j - start - ni + cut]);
        }
    }
}

/// The removal half of a splice: aborting and removing the elements of
/// the range `start..end` in index order, each by its element identity,
/// leaves exactly the document without that range.
proof fn lemma_removal_run_orders_document<T: Clone>(
    entries: Seq<(u64, usize)>,
    slots: Map<usize, u64>,
    start: int,
    end: int,
    ops: Seq<RenderOp<T>>,
    base: int,
    j: int,
)
    requires
        0 <= start <= end <= entries.len(),
        0 <= j <= end - start,
        distinct_elems(table_elems(entries)),
        0 <= base,
        base + 2 * (end - start) <= ops.len(),
        forall|l: int|
            j <= l < end - start ==> #[trigger] removal_ops_ok(ops, base, start, l, entries, slots),
    ensures
        apply_render_ops(
            table_elems(entries).take(start) + table_elems(entries).skip(start + j),
            ops.subrange(base + 2 * j, base + 2 * (end - start)),
        ) == table_elems(entries).take(start) + table_elems(entries).skip(end),
    decreases end - start - j,
{
    let elems = table_elems(entries);
    let n_rem = end - start;
    let doc = elems.take(start) + elems.skip(start + j);
    let sub = ops.subrange(base + 2 * j, base + 2 * n_rem);
    if j == n_rem {
        assert(sub =~= Seq::<RenderOp<T>>::empty());
        assert(doc =~= elems.take(start) + elems.skip(end));
    } else {
        assert(removal_ops_ok(ops, base, start, j, entries, slots));
        assert(sub[0] == ops[base + 2 * j]);
        assert(sub[1] == ops[base + 2 * j + 1]);
        assert(doc[start] == elems[start + j]);
        assert forall|a: int, b: int|
            #![trigger doc[a], doc[b]]
            0 <= a < b < doc.len() implies doc[a] != doc[b] by {
            if a < start {
                assert(doc[a] == elems[a]);
            } else {
                assert(doc[a] == elems[a + j]);
            }
            if b < start {
                assert(doc[b] == elems[b]);
            } else {
                assert(doc[b] == elems[b + j]);
            }
        }
        lemma_index_of_distinct(doc, start);
        assert(elems[start + j] == entries[start + j].0);
        let doc2 = doc_remove_element(doc, elems[start + j]);
        assert(doc2 =~= elems.take(start) + elems.skip(start + j + 1));
        lemma_removal_run_orders_document(entries, slots, start, end, ops, base, j + 1);
        assert(sub.skip(1)[0] == sub[1]);
        assert(sub.skip(1).skip(1) =~= ops.subrange(base + 2 * (j + 1), base + 2 * n_rem));
        assert(apply_render_op(doc, sub[0]) == doc);
        assert(apply_render_ops(doc, sub) == apply_render_ops(doc, sub.skip(1)));
        assert(apply_render_op(doc, sub[1]) == doc2);
        assert(apply_render_ops(doc, sub.skip(1)) == apply_render_ops(doc2, sub.skip(1).skip(1)));
    }
}

/// The creation half of a splice: creating the fresh run with chained
/// anchoring — the first new element after the element preceding the
/// insertion point, each next one after its predecessor — places the run
/// contiguously at the insertion point.
proof fn lemma_creation_run_orders_document<T: Clone>(
    elems: Seq<u64>,
    start: int,
    end: int,
    fresh_base: u64,
    task_base: u64,
    sources: Seq<T>,
    ops: Seq<RenderOp<T>>,
    base2: int,
    j: int,
)
    requires
        0 <= start <= end <= elems.len(),
        0 <= j <= sources.len(),
        distinct_elems(elems),
        forall|p: int| 0 <= p < elems.len() ==> #[trigger] elems[p] < fresh_base,
        fresh_base + sources.len() <= u64::MAX,
        0 <= base2,
        base2 + sources.len() <= ops.len(),
        forall|l: int|
            j <= l < sources.len() ==> #[trigger] create_ops_ok(
                ops,
                base2,
                l,
                fresh_base,
                task_base,
                anchor_for(elems, start),
                sources,
            ),
    ensures
        apply_render_ops(
            elems.take(start) + fresh_run(fresh_base, j as nat) + elems.skip(end),
            ops.subrange(base2 + j, base2 + sources.len()),
        ) == elems.take(start) + fresh_run(fresh_base, sources.len()) + elems.skip(end),
    decreases sources.len() - j,
{
    let n_new = sources.len() as int;
    let doc = elems.take(start) + fresh_run(fresh_base, j as nat) + elems.skip(end);
    let sub = ops.subrange(base2 + j, base2 + n_new);
    if j == n_new {
        assert(sub =~= Seq::<RenderOp<T>>::empty());
    } else {
        assert(create_ops_ok(ops, base2, j, fresh_base, task_base, anchor_for(elems, start), sources));
        assert(sub[0] == ops[base2 + j]);
        lemma_mixed_distinct(elems, start, end, fresh_base, j as nat);
        let fresh = (fresh_base + j) as u64;
        let anchor = if j == 0 {
            anchor_for(elems, start)
        } else {
            Some((fresh_base + j - 1) as u64)
        };
        let doc2 = doc_insert_after(doc, fresh, anchor);
        assert(doc2 =~= elems.take(start) + fresh_run(fresh_base, (j + 1) as nat) + elems.skip(
            end,
        )) by {
            if j == 0 {
                if start == 0 {
                    assert(doc.insert(0, fresh) =~= elems.take(0) + fresh_run(fresh_base, 1)
                        + elems.skip(end));
                } else {
                    assert(doc[start - 1] == elems[start - 1]);
                    lemma_index_of_distinct(doc, start - 1);
                    assert(doc.insert(start, fresh) =~= elems.take(start) + fresh_run(
                        fresh_base,
                        1,
                    ) + elems.skip(end));
                }
            } else {
                assert(doc[start + j - 1] == (fresh_base + j - 1) as u64);
                lemma_index_of_distinct(doc, start + j - 1);
                assert(doc.insert(start + j, fresh) =~= elems.take(start) + fresh_run(
                    fresh_base,
                    (j + 1) as nat,
                ) + elems.skip(end));
            }
        }
        lemma_creation_run_orders_document(
            elems,
            start,
            end,
            fresh_base,
            task_base,
            sources,
            ops,
            base2,
            j + 1,
        );
        assert(sub.skip(1) =~= ops.subrange(base2 + j + 1, base2 + n_new));
        assert(apply_render_op(doc, sub[0]) == doc2);
        assert(apply_render_ops(doc, sub) == apply_render_ops(doc2, sub.skip(1)));
    }
}

/// The ordering guarantee for a whole splice: performing its operations
/// in order — removals for the whole range in index order, then the
/// chained creations — turns a document equal to the old collection order
/// into one equal to the new collection order. Together with the insert
/// and remove lemmas above, document order matches collection order at
/// every point where no change is in flight.
pub proof fn lemma_splice_ops_order_document<T: Clone>(
    entries: Seq<(u64, usize)>,
    slots: Map<usize, u64>,
    start: int,
    end: int,
    fresh_base: u64,
    task_base: u64,
    sources: Seq<T>,
    ops: Seq<RenderOp<T>>,
    base: int,
)
    requires
        0 <= start <= end <= entries.len(),
        distinct_elems(table_elems(entries)),
        forall|p: int|
            0 <= p < entries.len() ==> #[trigger] table_elems(entries)[p] < fresh_base,
        fresh_base + sources.len() <= u64::MAX,
        0 <= base,
        ops.len() == base + 2 * (end - start) + sources.len(),
        forall|l: int|
            0 <= l < end - start ==> #[trigger] removal_ops_ok(ops, base, start, l, entries, slots),
        forall|l: int|
            0 <= l < sources.len() ==> #[trigger] create_ops_ok(
                ops,
                base + 2 * (end - start),
                l,
                fresh_base,
                task_base,
                anchor_for(table_elems(entries), start),
                sources,
            ),
    ensures
        apply_render_ops(table_elems(entries), ops.subrange(base, ops.len() as int))
            == table_elems(entries).take(start) + fresh_run(fresh_base, sources.len())
            + table_elems(entries).skip(end),
{
    let elems = table_elems(entries);
    let n_rem = end - start;
    let removals = ops.subrange(base, base + 2 * n_rem);
    let creations = ops.subrange(base + 2 * n_rem, ops.len() as int);
    assert(ops.subrange(base, ops.len() as int) =~= removals + creations);
    assert(elems =~= elems.take(start) + elems.skip(start + 0));
    lemma_removal_run_orders_document(entries, slots, start, end, ops, base, 0);
    assert(removals =~= ops.subrange(base + 0, base + 2 * n_rem));
    assert(elems.take(start) + elems.skip(end) =~= elems.take(start) + fresh_run(fresh_base, 0)
        + elems.skip(end));
    lemma_creation_run_orders_document(
        elems,
        start,
        end,
        fresh_base,
        task_base,
        sources,
        ops,
        base + 2 * n_rem,
        0,
    );
    assert(creations =~= ops.subrange(base + 2 * n_rem + 0, base + 2 * n_rem + sources.len()));
    lemma_apply_render_ops_concat(elems, removals, creations);
}

} // verus!
