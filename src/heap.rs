use vstd::prelude::*;
use vstd::multiset::Multiset;
use binary_heap_plus::{BinaryHeap, MinComparator};

verus! {

#[verifier::external_type_specification]
#[verifier::external_body]
#[verifier::reject_recursive_types(T)]
#[verifier::reject_recursive_types(C)]
pub struct ExBinaryHeap<T, C>(BinaryHeap<T, C>);

#[verifier::external_type_specification]
#[verifier::external_body]
pub struct ExMinComparator(MinComparator);

/// An entry of the recency heap: a date and the table position it came from.
pub type Stamp = (i64, u64);

/// Tuple order as std's `Ord` for `(i64, u64)` gives it: by date, then position.
pub open spec fn stamp_lt(a: Stamp, b: Stamp) -> bool {
    a.0 < b.0 || (a.0 == b.0 && a.1 < b.1)
}

pub open spec fn stamp_le(a: Stamp, b: Stamp) -> bool {
    stamp_lt(a, b) || a == b
}

/// What a min-heap of stamps holds.
pub uninterp spec fn heap_items(h: BinaryHeap<Stamp, MinComparator>) -> Multiset<Stamp>;

/// Relies on BinaryHeap::with_capacity_min: an empty heap that pops its least item first.
#[verifier::external_body]
pub fn stamp_heap(capacity: usize) -> (h: BinaryHeap<Stamp, MinComparator>)
    ensures
        heap_items(h) == Multiset::<Stamp>::empty(),
{
    BinaryHeap::with_capacity_min(capacity)
}

/// Relies on BinaryHeap::push: adds one item.
#[verifier::external_body]
pub fn stamp_push(h: &mut BinaryHeap<Stamp, MinComparator>, item: Stamp)
    ensures
        heap_items(*final(h)) == heap_items(*old(h)).insert(item),
{
    h.push(item)
}

/// Relies on BinaryHeap::pop: with MinComparator the greatest item under the
/// reversed order, that is the least stamp, leaves the heap.
#[verifier::external_body]
pub fn stamp_pop(h: &mut BinaryHeap<Stamp, MinComparator>) -> (r: Option<Stamp>)
    ensures
        heap_items(*old(h)).len() == 0 ==> r is None && heap_items(*final(h)) == heap_items(*old(h)),
        heap_items(*old(h)).len() > 0 ==> r is Some && heap_items(*old(h)).contains(r->Some_0)
            && heap_items(*final(h)) == heap_items(*old(h)).remove(r->Some_0)
            && forall|y: Stamp| heap_items(*old(h)).contains(y) ==> stamp_le(r->Some_0, y),
{
    h.pop()
}

/// Relies on BinaryHeap::len: the number of items held.
#[verifier::external_body]
pub fn stamp_len(h: &BinaryHeap<Stamp, MinComparator>) -> (r: usize)
    ensures
        r == heap_items(*h).len(),
{
    h.len()
}

/// Relies on BinaryHeap::into_sorted_vec: the items in ascending order under the
/// comparator, which for MinComparator is descending stamp order.
#[verifier::external_body]
pub fn stamp_into_sorted_vec(h: BinaryHeap<Stamp, MinComparator>) -> (r: Vec<Stamp>)
    ensures
        r@.to_multiset() == heap_items(h),
        forall|i: int, j: int| 0 <= i < j < r@.len() ==> stamp_le(r@[j], r@[i]),
{
    h.into_sorted_vec()
}

} // verus!
