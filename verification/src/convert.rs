//! What `std` offers for any collection, on the non-empty vector: conversions from and to
//! `Vec`, access as a slice, indexing and iteration.

use crate::non_empty::{EmptyError, NonEmpty};
use core::ops::{Deref, Index};
use core::slice::{Iter, IterMut, SliceIndex};
use std::vec::IntoIter;
use vstd::prelude::*;
use vstd::slice::SliceIndexSpec;
use vstd::std_specs::iter::IteratorSpec;

verus! {

/// `core::slice::IterMut`, the iterator that `<[T]>::iter_mut` returns. Nothing is known
/// of what is inside it.
#[verifier::external_type_specification]
#[verifier::external_body]
#[verifier::reject_recursive_types(T)]
pub struct ExIterMut<'a, T: 'a>(IterMut<'a, T>);

/// `<[T]>::iter_mut` of `std`. Believed, not proved: the iterator yields all items from
/// start to end, each as a borrow through which the item can be changed. So it has one
/// borrow to hand out for each element, in order; the slice has as many elements when
/// the iterator is gone as it had before, and holds in each place what the borrow of that
/// place was left as.
pub assume_specification<'a, Elem>[ <[Elem]>::iter_mut ](slice: &'a mut [Elem]) -> (iter: IterMut<
    'a,
    Elem,
>)
    ensures
        final(slice)@.len() == old(slice)@.len(),
        IteratorSpec::remaining(&iter).len() == old(slice)@.len(),
        forall|i: int|
            0 <= i < old(slice)@.len() ==> *(#[trigger] IteratorSpec::remaining(&iter)[i]) == old(slice)@[i] && *final(IteratorSpec::remaining(&iter)[i]) == final(slice)@[i],
;

impl<T> NonEmpty<T> {
    /// An iterator over borrows of the elements, through which they can be changed: one
    /// borrow for each element, in order. The number of elements does not change, and the
    /// vector holds in each place what the borrow of that place was left as.
    pub fn iter_mut(&mut self) -> (iter: IterMut<'_, T>)
        requires
            old(self).wf(),
        ensures
            final(self)@.len() == old(self)@.len(),
            final(self).wf(),
            IteratorSpec::remaining(&iter).len() == old(self)@.len(),
            forall|i: int|
                0 <= i < old(self)@.len() ==> *(#[trigger] IteratorSpec::remaining(&iter)[i])
                    == old(self)@[i] && *final(IteratorSpec::remaining(&iter)[i]) == final(self)@[i],
    {
        self.as_mut_slice().iter_mut()
    }
}

/// The elements of the vector, then the single element.
impl<T> From<(Vec<T>, T)> for NonEmpty<T> {
    fn from(pair: (Vec<T>, T)) -> (r: NonEmpty<T>)
        ensures
            r@ == pair.0@.push(pair.1),
            r.wf(),
    {
        let (mut xs, x) = pair;
        xs.push(x);
        NonEmpty::new_unchecked(xs)
    }
}

/// What `from` returns is stated by its own contract, over views: two vectors that hold
/// the same elements need not be the same value.
impl<T> vstd::std_specs::convert::FromSpecImpl<(Vec<T>, T)> for NonEmpty<T> {
    open spec fn obeys_from_spec() -> bool {
        false
    }

    open spec fn from_spec(pair: (Vec<T>, T)) -> Self {
        arbitrary()
    }
}

/// The single element, then the elements of the vector.
impl<T> From<(T, Vec<T>)> for NonEmpty<T> {
    fn from(pair: (T, Vec<T>)) -> (r: NonEmpty<T>)
        ensures
            r@ == seq![pair.0] + pair.1@,
            r.wf(),
    {
        let (x, mut xs) = pair;
        xs.insert(0, x);
        NonEmpty::new_unchecked(xs)
    }
}

impl<T> vstd::std_specs::convert::FromSpecImpl<(T, Vec<T>)> for NonEmpty<T> {
    open spec fn obeys_from_spec() -> bool {
        false
    }

    open spec fn from_spec(pair: (T, Vec<T>)) -> Self {
        arbitrary()
    }
}

impl<T> From<NonEmpty<T>> for Vec<T> {
    fn from(v: NonEmpty<T>) -> (r: Vec<T>)
        ensures
            r@ == v@,
    {
        v.into_inner()
    }
}

impl<T> vstd::std_specs::convert::FromSpecImpl<NonEmpty<T>> for Vec<T> {
    open spec fn obeys_from_spec() -> bool {
        true
    }

    open spec fn from_spec(v: NonEmpty<T>) -> Self {
        v.as_vec()
    }
}

/// Returns a unit-length vector containing the default element value.
impl<T: Default> Default for NonEmpty<T> {
    fn default() -> (r: Self)
        ensures
            r@.len() == 1,
            call_ensures(T::default, (), r@[0]),
            r.wf(),
    {
        NonEmpty::new(T::default())
    }
}

/// A vector with an element becomes a `NonEmpty` with the same elements; the empty vector
/// is refused.
impl<T> TryFrom<Vec<T>> for NonEmpty<T> {
    type Error = EmptyError;

    fn try_from(xs: Vec<T>) -> (r: Result<Self, EmptyError>)
        ensures
            xs@.len() == 0 <==> r is Err,
            r matches Ok(v) ==> v@ == xs@ && v.wf(),
    {
        if xs.is_empty() {
            Err(EmptyError)
        } else {
            Ok(NonEmpty::new_unchecked(xs))
        }
    }
}

impl<T> vstd::std_specs::convert::TryFromSpecImpl<Vec<T>> for NonEmpty<T> {
    open spec fn obeys_try_from_spec() -> bool {
        true
    }

    open spec fn try_from_spec(xs: Vec<T>) -> Result<Self, EmptyError> {
        if xs@.len() == 0 {
            Err(EmptyError)
        } else {
            Ok(NonEmpty::of_vec(xs))
        }
    }
}

impl<T> Deref for NonEmpty<T> {
    type Target = [T];

    fn deref(&self) -> (r: &[T])
        ensures
            r@ == self@,
    {
        self.as_slice()
    }
}

impl<T> AsRef<[T]> for NonEmpty<T> {
    fn as_ref(&self) -> (r: &[T])
        ensures
            ({
                let slice: &[T] = r;
                slice@ == self@
            }),
    {
        self.as_slice()
    }
}

impl<T> AsMut<[T]> for NonEmpty<T> {
    fn as_mut(&mut self) -> (r: &mut [T])
        ensures
            r@ == old(self)@,
            final(self)@ == final(r)@,
    {
        self.as_mut_slice()
    }
}

impl<T> AsRef<Vec<T>> for NonEmpty<T> {
    fn as_ref(&self) -> (r: &Vec<T>)
        ensures
            ({
                let vec: &Vec<T> = r;
                vec@ == self@
            }),
    {
        self.inner()
    }
}

impl<T, I: SliceIndex<[T]>> Index<I> for NonEmpty<T> {
    type Output = I::Output;

    fn index(&self, index: I) -> (r: &Self::Output)
        ensures
            exists|s: &[T]|
                #[trigger] s@ == self@ && call_ensures(
                    <I as SliceIndex<[T]>>::index,
                    (index, s),
                    r,
                ),
    {
        Index::index(self.as_slice(), index)
    }
}

impl<T, I: SliceIndex<[T]>> vstd::std_specs::core::IndexSpecImpl<I> for NonEmpty<T> {
    open spec fn index_req(&self, index: &I) -> bool {
        forall|s: &[T]| #[trigger] s@ == self@ ==> index.index_req(s)
    }
}

impl<T> IntoIterator for NonEmpty<T> {
    type Item = T;

    type IntoIter = IntoIter<T>;

    fn into_iter(self) -> (iter: IntoIter<T>)
        ensures
            IteratorSpec::remaining(&iter) == self@,
    {
        self.into_inner().into_iter()
    }
}

impl<'a, T> IntoIterator for &'a NonEmpty<T> {
    type Item = &'a T;

    type IntoIter = Iter<'a, T>;

    fn into_iter(self) -> (iter: Iter<'a, T>)
        ensures
            IteratorSpec::remaining(&iter) == self@.as_ref(),
    {
        self.as_slice().iter()
    }
}

impl<'a, T> IntoIterator for &'a mut NonEmpty<T> {
    type Item = &'a mut T;

    type IntoIter = IterMut<'a, T>;

    fn into_iter(self) -> (iter: IterMut<'a, T>)
        ensures
            final(self)@.len() == old(self)@.len(),
            IteratorSpec::remaining(&iter).len() == old(self)@.len(),
            forall|i: int|
                0 <= i < old(self)@.len() ==> *(#[trigger] IteratorSpec::remaining(&iter)[i])
                    == old(self)@[i] && *final(IteratorSpec::remaining(&iter)[i]) == final(self)@[i],
    {
        self.as_mut_slice().iter_mut()
    }
}

} // verus!
