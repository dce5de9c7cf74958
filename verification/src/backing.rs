use vstd::prelude::*;

verus! {

/// The reconciler keeps its live item table in the persistent vector of the
/// `im_rc` crate, as pairs of plain identifiers, and owns one render-task
/// slot per entry in a `slab::Slab`. Both types are opaque to the verifier;
/// the functions here are the only doors to them, and each states over the
/// two views below exactly what the crates' sources show.
#[verifier::external_type_specification]
#[verifier::external_body]
#[verifier::reject_recursive_types(A)]
pub struct ExVector<A>(im_rc::Vector<A>);

#[verifier::external_type_specification]
#[verifier::external_body]
#[verifier::reject_recursive_types(T)]
pub struct ExSlab<T>(slab::Slab<T>);

/// The pairs an entry vector holds, in order.
pub uninterp spec fn entry_vec_view(v: im_rc::Vector<(u64, usize)>) -> Seq<(u64, usize)>;

/// The occupied slots of a task slab: key to stored value.
pub uninterp spec fn task_slab_view(s: slab::Slab<u64>) -> Map<usize, u64>;

/// The view of a slab with no occupied slot.
pub open spec fn task_slab_empty() -> Map<usize, u64> {
    Map::empty()
}

/// Relies on im_rc::Vector::new: an empty vector.
#[verifier::external_body]
pub fn entry_vec_new() -> (v: im_rc::Vector<(u64, usize)>)
    ensures
        entry_vec_view(v) == Seq::<(u64, usize)>::empty(),
{
    im_rc::Vector::new()
}

/// Relies on im_rc::Vector::len: the number of items held.
#[verifier::external_body]
pub fn entry_vec_len(v: &im_rc::Vector<(u64, usize)>) -> (n: usize)
    ensures
        n == entry_vec_view(*v).len(),
{
    v.len()
}

/// Relies on im_rc::Vector::get: the item at an in-bounds index.
#[verifier::external_body]
pub fn entry_vec_get(v: &im_rc::Vector<(u64, usize)>, index: usize) -> (e: (u64, usize))
    requires
        index < entry_vec_view(*v).len(),
    ensures
        e == entry_vec_view(*v)[index as int],
{
    *v.get(index).unwrap()
}

/// Relies on im_rc::Vector::back: the last item, or nothing when empty.
#[verifier::external_body]
pub fn entry_vec_back(v: &im_rc::Vector<(u64, usize)>) -> (e: Option<(u64, usize)>)
    ensures
        entry_vec_view(*v).len() == 0 ==> e is None,
        entry_vec_view(*v).len() > 0 ==> e == Some(
            entry_vec_view(*v)[entry_vec_view(*v).len() - 1],
        ),
{
    v.back().copied()
}

/// Relies on im_rc::Vector::push_back: appends one item.
#[verifier::external_body]
pub fn entry_vec_push_back(v: &mut im_rc::Vector<(u64, usize)>, e: (u64, usize))
    requires
        entry_vec_view(*old(v)).len() < usize::MAX,
    ensures
        entry_vec_view(*final(v)) == entry_vec_view(*old(v)).push(e),
{
    v.push_back(e);
}

/// Relies on im_rc::Vector::insert: inserts at an index no greater than the
/// length, shifting later items right.
#[verifier::external_body]
pub fn entry_vec_insert(v: &mut im_rc::Vector<(u64, usize)>, index: usize, e: (u64, usize))
    requires
        index <= entry_vec_view(*old(v)).len(),
        entry_vec_view(*old(v)).len() < usize::MAX,
    ensures
        entry_vec_view(*final(v)) == entry_vec_view(*old(v)).insert(index as int, e),
{
    v.insert(index, e);
}

/// Relies on im_rc::Vector::remove: removes and returns the item at an
/// in-bounds index, shifting later items left.
#[verifier::external_body]
pub fn entry_vec_remove(v: &mut im_rc::Vector<(u64, usize)>, index: usize) -> (e: (u64, usize))
    requires
        index < entry_vec_view(*old(v)).len(),
    ensures
        e == entry_vec_view(*old(v))[index as int],
        entry_vec_view(*final(v)) == entry_vec_view(*old(v)).remove(index as int),
{
    v.remove(index)
}

/// Relies on im_rc::Vector::split_off: keeps the items before the index,
/// which must not exceed the length, and returns the rest.
#[verifier::external_body]
pub fn entry_vec_split_off(v: &mut im_rc::Vector<(u64, usize)>, index: usize) -> (tail: im_rc::Vector<
    (u64, usize),
>)
    requires
        index <= entry_vec_view(*old(v)).len(),
    ensures
        entry_vec_view(*final(v)) == entry_vec_view(*old(v)).take(index as int),
        entry_vec_view(tail) == entry_vec_view(*old(v)).skip(index as int),
{
    v.split_off(index)
}

/// Relies on im_rc::Vector::append: concatenates the given vector onto the
/// end of this one.
#[verifier::external_body]
pub fn entry_vec_append(v: &mut im_rc::Vector<(u64, usize)>, tail: im_rc::Vector<(u64, usize)>)
    requires
        entry_vec_view(*old(v)).len() + entry_vec_view(tail).len() <= usize::MAX,
    ensures
        entry_vec_view(*final(v)) == entry_vec_view(*old(v)) + entry_vec_view(tail),
{
    v.append(tail);
}

/// Relies on slab::Slab::new: an empty slab.
#[verifier::external_body]
pub fn task_slab_new() -> (empty_slab: slab::Slab<u64>)
    ensures
        task_slab_view(empty_slab) == task_slab_empty(),
{
    slab::Slab::new()
}

/// Relies on slab::Slab::insert: stores the value in a vacant slot and
/// returns its key, which was not previously occupied.
#[verifier::external_body]
pub fn task_slab_insert(s: &mut slab::Slab<u64>, value: u64) -> (key: usize)
    ensures
        !task_slab_view(*old(s)).dom().contains(key),
        task_slab_view(*final(s)) == task_slab_view(*old(s)).insert(key, value),
{
    s.insert(value)
}

/// Relies on slab::Slab::remove: frees an occupied slot, returning its
/// value; a vacant key is a fatal usage error, excluded by precondition.
#[verifier::external_body]
pub fn task_slab_remove(s: &mut slab::Slab<u64>, key: usize) -> (value: u64)
    requires
        task_slab_view(*old(s)).dom().contains(key),
    ensures
        value == task_slab_view(*old(s))[key],
        task_slab_view(*final(s)) == task_slab_view(*old(s)).remove(key),
{
    s.remove(key)
}

} // verus!
