//! Views of a slice that split it into its even- and odd-numbered items, recursively, as a radix-2 FFT does.

use vstd::prelude::*;

verus! {

/// The abstract state of a strided view of a slice: the items, the position of the first
/// item it covers, the stride, and the position of the next item it yields.
pub struct StridedView<T> {
    pub items: Seq<T>,
    pub start: nat,
    pub step: nat,
    pub current: nat,
}

/// The position of the `k`-th item that a view positioned at its start yields.
pub open spec fn nth_position<T>(v: StridedView<T>, k: nat) -> nat {
    v.start + k * v.step
}

/// The view of the even-numbered items (counting from 0) of `v`.
pub open spec fn even_view<T>(v: StridedView<T>) -> StridedView<T> {
    StridedView { items: v.items, start: v.start, step: 2 * v.step, current: v.start }
}

/// The view of the odd-numbered items (counting from 0) of `v`.
pub open spec fn odd_view<T>(v: StridedView<T>) -> StridedView<T> {
    StridedView { items: v.items, start: v.start + v.step, step: 2 * v.step, current: v.start + v.step }
}

/// Splitting a view into its even- and odd-numbered items loses and repeats nothing: the
/// `k`-th item of the even view is item `2k` of the view, and the `k`-th item of the odd
/// view is item `2k + 1`.
pub proof fn law_even_odd_partition<T>(v: StridedView<T>, k: nat)
    ensures
        nth_position(even_view(v), k) == nth_position(v, 2 * k),
        nth_position(odd_view(v), k) == nth_position(v, 2 * k + 1),
        even_view(v).current == nth_position(v, 0),
        odd_view(v).current == nth_position(v, 1),
{
    assert(k * (2 * v.step) == (2 * k) * v.step) by (nonlinear_arith);
    assert(v.step + k * (2 * v.step) == (2 * k + 1) * v.step) by (nonlinear_arith);
}

/// How far a view has advanced does not matter to its split: two views of the same items
/// with the same start and stride, positioned anywhere, have the same even and odd views, so
/// the partition above holds however many items were taken before the split.
pub proof fn law_split_ignores_position<T>(v1: StridedView<T>, v2: StridedView<T>)
    requires
        v1.items == v2.items,
        v1.start == v2.start,
        v1.step == v2.step,
    ensures
        even_view(v1) == even_view(v2),
        odd_view(v1) == odd_view(v2),
{
}

pub struct EvenOddIter<'a, T: 'a> {
    items: &'a [T],
    start: usize,
    step: usize,
    current: usize,
}

impl<'a, T> View for EvenOddIter<'a, T> {
    type V = StridedView<T>;

    closed spec fn view(&self) -> StridedView<T> {
        StridedView { items: self.items@, start: self.start as nat, step: self.step as nat, current: self.current as nat }
    }
}

impl<'a, T> EvenOddIter<'a, T> {
    /// The view of all of `items`, positioned at the first.
    pub fn from(items: &'a [T]) -> (r: Self)
        ensures
            r.wf(),
            r@ == (StridedView { items: items@, start: 0, step: 1, current: 0 }),
    {
        EvenOddIter { items, start: 0, step: 1, current: 0 }
    }
}

impl<'a, T> EvenOddIter<'a, T> {
    /// The stride is positive.
    pub closed spec fn wf(&self) -> bool {
        self.step > 0
    }

    /// The view of the even-numbered items of this one, positioned at its first item.
    pub fn even(&self) -> (r: Self)
        requires
            2 * self@.step <= usize::MAX,
        ensures
            r@ == even_view(self@),
            self.wf() ==> r.wf(),
    {
        EvenOddIter { items: self.items, start: self.start, step: self.step * 2, current: self.start }
    }

    /// The view of the odd-numbered items of this one, positioned at its first item.
    pub fn odd(&self) -> (r: Self)
        requires
            2 * self@.step <= usize::MAX,
            self@.start + self@.step <= usize::MAX,
        ensures
            r@ == odd_view(self@),
            self.wf() ==> r.wf(),
    {
        EvenOddIter { items: self.items, start: self.start + self.step, step: self.step * 2, current: self.start + self.step }
    }

    /// The number of items divided by the stride.
    pub fn len(&self) -> (r: usize)
        requires
            self.wf(),
        ensures
            r == self@.items.len() / self@.step,
    {
        self.items.len() / self.step
    }

    /// The next item, if its position is inside the slice; then moves on by one stride.
    pub fn next(&mut self) -> (r: Option<&'a T>)
        requires
            old(self)@.current < old(self)@.items.len() ==> old(self)@.current + old(self)@.step <= usize::MAX,
        ensures
            final(self)@.items == old(self)@.items,
            final(self)@.start == old(self)@.start,
            final(self)@.step == old(self)@.step,
            old(self).wf() ==> final(self).wf(),
            if old(self)@.current >= old(self)@.items.len() {
                &&& r is None
                &&& final(self)@.current == old(self)@.current
            } else {
                &&& r matches Some(x) && *x == old(self)@.items[old(self)@.current as int]
                &&& final(self)@.current == old(self)@.current + old(self)@.step
            },
    {
        if self.current >= self.items.len() {
            None
        } else {
            let ans = &self.items[self.current];
            self.current = self.current + self.step;
            Some(ans)
        }
    }
}

} // verus!
