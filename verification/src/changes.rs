use vstd::prelude::*;

verus! {

/// One incremental mutation of an ordered collection.
///
/// A splice removes the contiguous index range `remove_start..remove_end`
/// and inserts `replace_with` at the same position; single-index insert and
/// remove are the common single-item cases. Every record is total relative
/// to the collection state at the version immediately preceding it:
/// replaying records in order against a snapshot reproduces the later
/// snapshot exactly.
#[derive(Clone)]
pub enum Change<T> {
    Splice { remove_start: usize, remove_end: usize, replace_with: Vec<T> },
    Insert { index: usize, value: T },
    Remove { index: usize },
}

/// Whether `c` addresses only indices that exist in a collection of length
/// `len`.
pub open spec fn change_valid_for<T>(c: Change<T>, len: nat) -> bool {
    match c {
        Change::Splice { remove_start, remove_end, replace_with } =>
            remove_start <= remove_end <= len,
        Change::Insert { index, value } => index <= len,
        Change::Remove { index } => index < len,
    }
}

/// The collection state after `c` is applied to state `s`.
pub open spec fn apply_change<T>(s: Seq<T>, c: Change<T>) -> Seq<T>
    recommends
        change_valid_for(c, s.len()),
{
    match c {
        Change::Splice { remove_start, remove_end, replace_with } =>
            s.take(remove_start as int) + replace_with@ + s.skip(remove_end as int),
        Change::Insert { index, value } => s.insert(index as int, value),
        Change::Remove { index } => s.remove(index as int),
    }
}

/// The collection state after every record of `cs` is applied in order,
/// starting from state `s`.
pub open spec fn apply_changes<T>(s: Seq<T>, cs: Seq<Change<T>>) -> Seq<T>
    decreases cs.len(),
{
    if cs.len() == 0 {
        s
    } else {
        apply_changes(apply_change(s, cs[0]), cs.skip(1))
    }
}

/// Whether every record of `cs`, applied in order starting from state `s`,
/// addresses only indices that exist at its turn.
pub open spec fn changes_valid_from<T>(s: Seq<T>, cs: Seq<Change<T>>) -> bool
    decreases cs.len(),
{
    if cs.len() == 0 {
        true
    } else {
        change_valid_for(cs[0], s.len()) && changes_valid_from(apply_change(s, cs[0]), cs.skip(1))
    }
}

/// Replaying a concatenated log is replaying its parts in turn: the records
/// of `a` bring the state to an intermediate snapshot, and the records of
/// `b` continue from exactly there.
pub proof fn lemma_apply_changes_concat<T>(s: Seq<T>, a: Seq<Change<T>>, b: Seq<Change<T>>)
    ensures
        apply_changes(s, a + b) == apply_changes(apply_changes(s, a), b),
    decreases a.len(),
{
    if a.len() == 0 {
        assert(a + b == b);
    } else {
        lemma_apply_changes_concat(apply_change(s, a[0]), a.skip(1), b);
        assert((a + b).skip(1) == a.skip(1) + b);
    }
}

/// Validity of a concatenated log splits the same way.
pub proof fn lemma_changes_valid_concat<T>(s: Seq<T>, a: Seq<Change<T>>, b: Seq<Change<T>>)
    ensures
        changes_valid_from(s, a + b) <==> (changes_valid_from(s, a) && changes_valid_from(
            apply_changes(s, a),
            b,
        )),
    decreases a.len(),
{
    if a.len() == 0 {
        assert(a + b == b);
    } else {
        lemma_changes_valid_concat(apply_change(s, a[0]), a.skip(1), b);
        assert((a + b).skip(1) == a.skip(1) + b);
    }
}

/// Appending one record to a log replays as one more application, and its
/// validity is the validity of that one application at the final state.
pub proof fn lemma_apply_changes_push<T>(s: Seq<T>, cs: Seq<Change<T>>, c: Change<T>)
    ensures
        apply_changes(s, cs.push(c)) == apply_change(apply_changes(s, cs), c),
        changes_valid_from(s, cs.push(c)) <==> (changes_valid_from(s, cs) && change_valid_for(
            c,
            apply_changes(s, cs).len(),
        )),
{
    reveal_with_fuel(apply_changes, 3);
    reveal_with_fuel(changes_valid_from, 3);
    let single = seq![c];
    assert(single.skip(1) =~= Seq::<Change<T>>::empty());
    assert(apply_changes(s, cs.push(c)) == apply_changes(apply_changes(s, cs), single)) by {
        assert(cs.push(c) =~= cs + single);
        lemma_apply_changes_concat(s, cs, single);
    }
    assert(changes_valid_from(s, cs.push(c)) <==> (changes_valid_from(s, cs)
        && changes_valid_from(apply_changes(s, cs), single))) by {
        assert(cs.push(c) =~= cs + single);
        lemma_changes_valid_concat(s, cs, single);
    }
}

/// Elementwise clone relation between two equally long sequences.
pub open spec fn seq_cloned<T: Clone>(a: Seq<T>, b: Seq<T>) -> bool {
    &&& a.len() == b.len()
    &&& forall|i: int| 0 <= i < a.len() ==> cloned::<T>(a[i], #[trigger] b[i])
}

/// Inserting a value on one side and a clone of it on the other preserves
/// the elementwise clone relation.
pub proof fn lemma_seq_cloned_insert<T: Clone>(a: Seq<T>, b: Seq<T>, i: int, v: T, w: T)
    requires
        seq_cloned(a, b),
        0 <= i <= a.len(),
        cloned::<T>(v, w),
    ensures
        seq_cloned(a.insert(i, v), b.insert(i, w)),
{
    let a2 = a.insert(i, v);
    let b2 = b.insert(i, w);
    assert forall|k: int| 0 <= k < a2.len() implies cloned::<T>(a2[k], #[trigger] b2[k]) by {
        if k < i {
            assert(a2[k] == a[k] && b2[k] == b[k]);
        } else if k == i {
            assert(a2[k] == v && b2[k] == w);
        } else {
            assert(a2[k] == a[k - 1] && b2[k] == b[k - 1]);
        }
    }
}

/// Removing the same index on both sides preserves the elementwise clone
/// relation.
pub proof fn lemma_seq_cloned_remove<T: Clone>(a: Seq<T>, b: Seq<T>, i: int)
    requires
        seq_cloned(a, b),
        0 <= i < a.len(),
    ensures
        seq_cloned(a.remove(i), b.remove(i)),
{
    let a2 = a.remove(i);
    let b2 = b.remove(i);
    assert forall|k: int| 0 <= k < a2.len() implies cloned::<T>(a2[k], #[trigger] b2[k]) by {
        if k < i {
            assert(a2[k] == a[k] && b2[k] == b[k]);
        } else {
            assert(a2[k] == a[k + 1] && b2[k] == b[k + 1]);
        }
    }
}

/// Splicing with elementwise-cloned replacements preserves the elementwise
/// clone relation.
pub proof fn lemma_seq_cloned_splice<T: Clone>(
    a: Seq<T>,
    b: Seq<T>,
    start: int,
    end: int,
    rw_a: Seq<T>,
    rw_b: Seq<T>,
)
    requires
        seq_cloned(a, b),
        seq_cloned(rw_a, rw_b),
        0 <= start <= end <= a.len(),
    ensures
        seq_cloned(a.take(start) + rw_a + a.skip(end), b.take(start) + rw_b + b.skip(end)),
{
    let a2 = a.take(start) + rw_a + a.skip(end);
    let b2 = b.take(start) + rw_b + b.skip(end);
    assert forall|k: int| 0 <= k < a2.len() implies cloned::<T>(a2[k], #[trigger] b2[k]) by {
        if k < start {
            assert(a2[k] == a[k] && b2[k] == b[k]);
        } else if k < start + rw_a.len() {
            assert(a2[k] == rw_a[k - start] && b2[k] == rw_b[k - start]);
        } else {
            assert(a2[k] == a[k - rw_a.len() - start + end]);
            assert(b2[k] == b[k - rw_a.len() - start + end]);
        }
    }
}

impl<T> Change<T> {
    /// Whether this record addresses only indices that exist in a
    /// collection of length `len`.
    pub fn is_valid_for(&self, len: usize) -> (r: bool)
        ensures
            r == change_valid_for(*self, len as nat),
    {
        match self {
            Change::Splice { remove_start, remove_end, replace_with } => {
                *remove_start <= *remove_end && *remove_end <= len
            },
            Change::Insert { index, value } => *index <= len,
            Change::Remove { index } => *index < len,
        }
    }
}

/// Apply one change record to a consumer's local mirror of the collection.
pub fn apply_to_mirror<T>(mirror: &mut Vec<T>, change: Change<T>)
    requires
        change_valid_for(change, old(mirror)@.len()),
        apply_change(old(mirror)@, change).len() <= usize::MAX,
    ensures
        final(mirror)@ == apply_change(old(mirror)@, change),
{
    match change {
        Change::Remove { index } => {
            mirror.remove(index);
        },
        Change::Insert { index, value } => {
            mirror.insert(index, value);
        },
        Change::Splice { remove_start, remove_end, mut replace_with } => {
            let ghost orig = mirror@;
            let ghost rw_orig = replace_with@;
            let mut removed: usize = 0;
            let count: usize = remove_end - remove_start;
            while removed < count
                invariant
                    removed <= count,
                    count == remove_end - remove_start,
                    remove_end <= orig.len(),
                    mirror@ == orig.take(remove_start as int) + orig.skip(
                        remove_start + removed,
                    ),
                decreases count - removed,
            {
                proof {
                    assert(mirror@.remove(remove_start as int) == orig.take(remove_start as int)
                        + orig.skip(remove_start + removed + 1));
                }
                mirror.remove(remove_start);
                removed = removed + 1;
            }
            proof {
                assert(mirror@ =~= orig.take(remove_start as int) + rw_orig.skip(
                    rw_orig.len() as int,
                ) + orig.skip(remove_end as int));
            }
            while replace_with.len() > 0
                invariant
                    replace_with@.len() <= rw_orig.len(),
                    replace_with@ == rw_orig.take(replace_with@.len() as int),
                    remove_end <= orig.len(),
                    remove_start <= remove_end,
                    mirror@ == orig.take(remove_start as int) + rw_orig.skip(
                        replace_with@.len() as int,
                    ) + orig.skip(remove_end as int),
                    mirror@.len() + replace_with@.len() <= usize::MAX,
                decreases replace_with@.len(),
            {
                let ghost n = replace_with@.len() as int;
                let value = replace_with.pop().unwrap();
                proof {
                    assert(value == rw_orig.take(n)[n - 1]);
                    assert(rw_orig.take(n)[n - 1] == rw_orig[n - 1]);
                    assert(replace_with@ =~= rw_orig.take(n - 1));
                }
                mirror.insert(remove_start, value);
                proof {
                    assert(mirror@ =~= orig.take(remove_start as int) + rw_orig.skip(n - 1)
                        + orig.skip(remove_end as int));
                }
            }
            proof {
                assert(rw_orig.take(0) =~= Seq::<T>::empty());
                assert(mirror@ =~= orig.take(remove_start as int) + rw_orig + orig.skip(
                    remove_end as int,
                ));
            }
        },
    }
}

} // verus!
