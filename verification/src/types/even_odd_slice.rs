//! Views of a slice that split it into its even- and odd-numbered items, recursively, made by the free function `new`.

use vstd::prelude::*;
use super::even_odd_iter::{StridedView, even_view, odd_view};

verus! {

pub struct EvenOddSlice<'a, T: 'a> {
    items: &'a [T],
    start: usize,
    step: usize,
    current: usize,
}

impl<'a, T> View for EvenOddSlice<'a, T> {
    type V = StridedView<T>;

    closed spec fn view(&self) -> StridedView<T> {
        StridedView { items: self.items@, start: self.start as nat, step: self.step as nat, current: self.current as nat }
    }
}

/// The view of all of `items`, positioned at the first.
pub fn new<'a, T: 'a>(items: &'a [T]) -> (r: EvenOddSlice<'a, T>)
    ensures
        r.wf(),
        r@ == (StridedView { items: items@, start: 0, step: 1, current: 0 }),
{
    EvenOddSlice { items, start: 0, step: 1, current: 0 }
}

impl<'a, T> EvenOddSlice<'a, T> {
    /// The stride is positive.
    pub closed spec fn wf(&self) -> bool {
        self.step > 0
    }

    /// The view of the even-numbered items of this one, positioned at its first item.
    pub fn even(&self) -> (r: Self)
        requires
            2 * self@.step <= usize::MAX,
        ensures
            r@ == even_view(self@),
            self.wf() ==> r.wf(),
    {
        EvenOddSlice { items: self.items, start: self.start, step: self.step * 2, current: self.start }
    }

    /// The view of the odd-numbered items of this one, positioned at its first item.
    pub fn odd(&self) -> (r: Self)
        requires
            2 * self@.step <= usize::MAX,
            self@.start + self@.step <= usize::MAX,
        ensures
            r@ == odd_view(self@),
            self.wf() ==> r.wf(),
    {
        EvenOddSlice { items: self.items, start: self.start + self.step, step: self.step * 2, current: self.start + self.step }
    }

    /// The number of items divided by the stride.
    pub fn len(&self) -> (r: usize)
        requires
            self.wf(),
        ensures
            r == self@.items.len() / self@.step,
    {
        self.items.len() / self.step
    }

    /// The next item, if its position is inside the slice; then moves on by one stride.
    pub fn next(&mut self) -> (r: Option<&'a T>)
        requires
            old(self)@.current < old(self)@.items.len() ==> old(self)@.current + old(self)@.step <= usize::MAX,
        ensures
            final(self)@.items == old(self)@.items,
            final(self)@.start == old(self)@.start,
            final(self)@.step == old(self)@.step,
            old(self).wf() ==> final(self).wf(),
            if old(self)@.current >= old(self)@.items.len() {
                &&& r is None
                &&& final(self)@.current == old(self)@.current
            } else {
                &&& r matches Some(x) && *x == old(self)@.items[old(self)@.current as int]
                &&& final(self)@.current == old(self)@.current + old(self)@.step
            },
    {
        if self.current >= self.items.len() {
            None
        } else {
            let ans = &self.items[self.current];
            self.current = self.current + self.step;
            Some(ans)
        }
    }
}

} // verus!
