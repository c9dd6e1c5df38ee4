use crate::compound_op::CompoundOp;
use vstd::prelude::*;

verus! {

#[verifier::external_type_specification]
#[verifier::external_body]
#[verifier::reject_recursive_types(T)]
pub struct ExSliceDeque<T>(slice_deque::SliceDeque<T>);

/// The ops held by a recognizer window, front to back.
pub uninterp spec fn window_ops(w: slice_deque::SliceDeque<CompoundOp>) -> Seq<CompoundOp>;

/// Relies on SliceDeque::with_capacity: a freshly allocated deque holds nothing.
#[verifier::external_body]
pub(crate) fn win_new(capacity: usize) -> (r: slice_deque::SliceDeque<CompoundOp>)
    ensures
        window_ops(r) == Seq::<CompoundOp>::empty(),
{
    slice_deque::SliceDeque::with_capacity(capacity)
}

/// Relies on SliceDeque::len: the number of elements held.
#[verifier::external_body]
pub(crate) fn win_len(w: &slice_deque::SliceDeque<CompoundOp>) -> (n: usize)
    ensures
        n == window_ops(*w).len(),
{
    w.len()
}

/// Relies on SliceDeque::as_slice: the elements front to back, as one slice.
#[verifier::external_body]
pub(crate) fn win_get(w: &slice_deque::SliceDeque<CompoundOp>, i: usize) -> (r: &CompoundOp)
    requires
        i < window_ops(*w).len(),
    ensures
        *r == window_ops(*w)[i as int],
{
    &w.as_slice()[i]
}

/// Relies on SliceDeque::push_back: appends one element at the back
/// (aborts only if the ring buffer cannot grow).
#[verifier::external_body]
pub(crate) fn win_push(w: &mut slice_deque::SliceDeque<CompoundOp>, op: CompoundOp)
    ensures
        window_ops(*final(w)) == window_ops(*old(w)).push(op),
{
    w.push_back(op)
}

/// Relies on SliceDeque::pop_front: removes and returns the front element.
#[verifier::external_body]
pub(crate) fn win_pop_front(w: &mut slice_deque::SliceDeque<CompoundOp>) -> (r: Option<CompoundOp>)
    ensures
        window_ops(*old(w)).len() == 0 ==> r is None && window_ops(*final(w)) == window_ops(
            *old(w),
        ),
        window_ops(*old(w)).len() > 0 ==> r == Option::Some(window_ops(*old(w))[0]) && window_ops(
            *final(w),
        ) == window_ops(*old(w)).drop_first(),
{
    w.pop_front()
}

/// Relies on SliceDeque::pop_back: removes and returns the back element.
#[verifier::external_body]
pub(crate) fn win_pop_back(w: &mut slice_deque::SliceDeque<CompoundOp>) -> (r: Option<CompoundOp>)
    ensures
        window_ops(*old(w)).len() == 0 ==> r is None && window_ops(*final(w)) == window_ops(
            *old(w),
        ),
        window_ops(*old(w)).len() > 0 ==> r == Option::Some(window_ops(*old(w)).last())
            && window_ops(*final(w)) == window_ops(*old(w)).drop_last(),
{
    w.pop_back()
}

/// Relies on SliceDeque::truncate: keeps the first `len` elements, dropping the back.
#[verifier::external_body]
pub(crate) fn win_truncate(w: &mut slice_deque::SliceDeque<CompoundOp>, len: usize)
    requires
        len <= window_ops(*old(w)).len(),
    ensures
        window_ops(*final(w)) == window_ops(*old(w)).take(len as int),
{
    w.truncate(len)
}

} // verus!
