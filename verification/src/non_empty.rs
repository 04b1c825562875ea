//! The non-empty vector itself: construction, access to its ends, and the mutations that
//! keep at least one element in it.

use crate::range::{has_leftover, in_bounds, leaves_some, remove_range, resolve};
use crate::range::{end_index, start_index};
use core::ops::Bound;
use vstd::prelude::*;

verus! {

/// Non empty vector, ensure non empty by construction.
///
/// Differs from `Vec` where emptiness would show:
/// * `len` is never zero and `is_empty` always returns `false`.
/// * `first(_mut)`, `last(_mut)`, `split_first(_mut)`, `split_last(_mut)` don't return `Option`.
/// * `pop` returns `None` if there is only one element in it.
#[derive(Debug, PartialEq, Eq, PartialOrd, Ord, Hash)]
pub struct NonEmpty<T>(Vec<T>);

/// The error of building a `NonEmpty` from a vector without elements.
#[derive(Debug, PartialEq)]
pub struct EmptyError;

impl<T> View for NonEmpty<T> {
    type V = Seq<T>;

    closed spec fn view(&self) -> Seq<T> {
        self.0@
    }
}

impl<T> NonEmpty<T> {
    /// The invariant of the type: it holds an element. Every constructor establishes it and
    /// every method that changes the vector keeps it.
    pub open spec fn wf(&self) -> bool {
        self@.len() >= 1
    }

    /// The `NonEmpty` that holds `vec` and nothing else. It is well-formed where `vec` holds
    /// an element.
    pub closed spec fn of_vec(vec: Vec<T>) -> Self {
        NonEmpty(vec)
    }

    /// The vector that holds the elements.
    pub closed spec fn as_vec(&self) -> Vec<T> {
        self.0
    }

    /// `of_vec` and `as_vec` undo each other, and neither changes the elements.
    pub proof fn lemma_of_vec_as_vec(vec: Vec<T>, v: Self)
        ensures
            Self::of_vec(vec)@ == vec@,
            Self::of_vec(vec).as_vec() == vec,
            v.as_vec()@ == v@,
            Self::of_vec(v.as_vec()) == v,
    {
    }

    pub fn new(v: T) -> (r: Self)
        ensures
            r@ == seq![v],
            r.wf(),
    {
        let mut items: Vec<T> = Vec::new();
        items.push(v);
        NonEmpty(items)
    }

    /// Constructs a non-empty vec without checking its size: `vec` should not be empty.
    pub fn new_unchecked(vec: Vec<T>) -> (r: Self)
        requires
            vec@.len() >= 1,
        ensures
            r == Self::of_vec(vec),
            r@ == vec@,
            r.wf(),
    {
        NonEmpty(vec)
    }

    pub fn as_slice(&self) -> (r: &[T])
        ensures
            r@ == self@,
    {
        self.0.as_slice()
    }

    /// The slice cannot grow or shrink, only its elements can change: whatever the caller
    /// leaves in it is what the vector holds afterwards.
    pub fn as_mut_slice(&mut self) -> (r: &mut [T])
        ensures
            r@ == old(self)@,
            final(self)@ == final(r)@,
    {
        self.0.as_mut_slice()
    }

    pub fn len(&self) -> (n: usize)
        requires
            self.wf(),
        ensures
            n == self@.len(),
            n >= 1,
    {
        self.0.len()
    }

    pub fn is_empty(&self) -> (b: bool)
        requires
            self.wf(),
        ensures
            !b,
            b == (self@.len() == 0),
    {
        false
    }

    pub fn first(&self) -> (r: &T)
        requires
            self.wf(),
        ensures
            *r == self@.first(),
    {
        &self.0[0]
    }

    pub fn first_mut(&mut self) -> (r: &mut T)
        requires
            old(self).wf(),
        ensures
            *r == old(self)@.first(),
            final(self)@ == old(self)@.update(0, *final(r)),
            final(self).wf(),
    {
        &mut self.0[0]
    }

    pub fn last(&self) -> (r: &T)
        requires
            self.wf(),
        ensures
            *r == self@.last(),
    {
        let i = self.0.len() - 1;
        &self.0[i]
    }

    pub fn last_mut(&mut self) -> (r: &mut T)
        requires
            old(self).wf(),
        ensures
            *r == old(self)@.last(),
            final(self)@ == old(self)@.update(old(self)@.len() - 1, *final(r)),
            final(self).wf(),
    {
        let i = self.0.len() - 1;
        &mut self.0[i]
    }

    pub fn split_first(&self) -> (r: (&T, &[T]))
        requires
            self.wf(),
        ensures
            *r.0 == self@.first(),
            r.1@ == self@.skip(1),
    {
        let split = self.0.as_slice().split_at(1);
        (&split.0[0], split.1)
    }

    pub fn split_first_mut(&mut self) -> (r: (&mut T, &mut [T]))
        requires
            old(self).wf(),
        ensures
            *r.0 == old(self)@.first(),
            r.1@ == old(self)@.skip(1),
            final(self)@ == seq![*final(r.0)] + final(r.1)@,
            final(self).wf(),
    {
        let split = self.0.split_at_mut(1);
        (&mut split.0[0], split.1)
    }

    pub fn split_last(&self) -> (r: (&T, &[T]))
        requires
            self.wf(),
        ensures
            *r.0 == self@.last(),
            r.1@ == self@.drop_last(),
    {
        let i = self.0.len() - 1;
        let split = self.0.as_slice().split_at(i);
        (&split.1[0], split.0)
    }

    pub fn split_last_mut(&mut self) -> (r: (&mut T, &mut [T]))
        requires
            old(self).wf(),
        ensures
            *r.0 == old(self)@.last(),
            r.1@ == old(self)@.drop_last(),
            final(self)@ == final(r.1)@.push(*final(r.0)),
            final(self).wf(),
    {
        let i = self.0.len() - 1;
        let split = self.0.split_at_mut(i);
        (&mut split.1[0], split.0)
    }

    /// Removes the last element and returns it, unless it is the only one: then the vector
    /// stays as it is and `None` is returned.
    pub fn pop(&mut self) -> (r: Option<T>)
        requires
            old(self).wf(),
        ensures
            old(self)@.len() == 1 ==> r.is_none() && final(self)@ == old(self)@,
            old(self)@.len() > 1 ==> r == Some(old(self)@.last()) && final(self)@ == old(
                self,
            )@.drop_last(),
            final(self).wf(),
    {
        if self.0.len() <= 1 {
            None
        } else {
            self.0.pop()
        }
    }

    pub fn push(&mut self, v: T)
        requires
            old(self).wf(),
        ensures
            final(self)@ == old(self)@.push(v),
            final(self).wf(),
    {
        self.0.push(v)
    }

    /// Shortens the vector to its first `len` elements; a `len` that is not smaller than the
    /// length changes nothing. `len` is not zero.
    pub fn truncate(&mut self, len: usize)
        requires
            old(self).wf(),
            len >= 1,
        ensures
            len <= old(self)@.len() ==> final(self)@ == old(self)@.take(len as int),
            len > old(self)@.len() ==> final(self)@ == old(self)@,
            final(self).wf(),
    {
        self.0.truncate(len)
    }

    /// Removes the specified range from the vector in bulk, returning the removed items in
    /// order. The range has to lie within the vector and to leave at least one element
    /// outside it.
    pub fn drain(&mut self, range: (Bound<usize>, Bound<usize>)) -> (removed: Vec<T>)
        requires
            old(self).wf(),
            in_bounds(range, old(self)@.len() as int),
            leaves_some(range, old(self)@.len() as int),
        ensures
            removed@ == old(self)@.subrange(
                start_index(range.0),
                end_index(range.1, old(self)@.len() as int),
            ),
            final(self)@ == old(self)@.take(start_index(range.0)) + old(self)@.skip(
                end_index(range.1, old(self)@.len() as int),
            ),
            final(self).wf(),
    {
        let bounds = resolve(&range, self.0.len());
        let (lo, hi) = bounds.unwrap();
        remove_range(&mut self.0, lo, hi)
    }

    /// As `drain`, for any range: a range that would remove all elements, is out of order
    /// or reaches past the end is refused with `None`, and the vector is not touched.
    pub fn try_drain(&mut self, range: (Bound<usize>, Bound<usize>)) -> (r: Option<Vec<T>>)
        requires
            old(self).wf(),
        ensures
            r.is_some() <==> in_bounds(range, old(self)@.len() as int) && leaves_some(
                range,
                old(self)@.len() as int,
            ),
            r matches Some(removed) ==> {
                &&& removed@ == old(self)@.subrange(
                    start_index(range.0),
                    end_index(range.1, old(self)@.len() as int),
                )
                &&& final(self)@ == old(self)@.take(start_index(range.0)) + old(self)@.skip(
                    end_index(range.1, old(self)@.len() as int),
                )
            },
            r.is_none() ==> final(self)@ == old(self)@,
            final(self).wf(),
    {
        if !has_leftover(&range, self.0.len()) {
            return None;
        }
        match resolve(&range, self.0.len()) {
            Some((lo, hi)) => Some(remove_range(&mut self.0, lo, hi)),
            None => None,
        }
    }

    /// Takes the element at `index` out, closing the gap. Another element has to remain.
    pub(crate) fn take(&mut self, index: usize) -> (item: T)
        requires
            old(self)@.len() > 1,
            index < old(self)@.len(),
        ensures
            item == old(self)@[index as int],
            final(self)@ == old(self)@.remove(index as int),
            final(self).wf(),
    {
        self.0.remove(index)
    }

    /// Puts `item` in at `index`, moving the elements from there on up by one.
    pub(crate) fn place(&mut self, index: usize, item: T)
        requires
            index <= old(self)@.len(),
        ensures
            final(self)@ == old(self)@.insert(index as int, item),
            final(self).wf(),
    {
        self.0.insert(index, item)
    }

    pub(crate) fn into_inner(self) -> (r: Vec<T>)
        ensures
            r == self.as_vec(),
            r@ == self@,
    {
        self.0
    }

    pub(crate) fn inner(&self) -> (r: &Vec<T>)
        ensures
            r@ == self@,
    {
        &self.0
    }
}

/// The clone holds a clone of each element, in the same order.
impl<T: Clone> Clone for NonEmpty<T> {
    fn clone(&self) -> (r: Self)
        ensures
            r@.len() == self@.len(),
            forall|i: int| 0 <= i < self@.len() ==> cloned::<T>(self@[i], #[trigger] r@[i]),
    {
        NonEmpty(self.0.clone())
    }
}

} // verus!
