//! What holds of the library as a whole, stated over the views that the contracts of its
//! functions speak of.

use crate::drain_filter::DrainFilter;
use crate::non_empty::{EmptyError, NonEmpty};
use crate::range::{end_index, in_bounds, leaves_some, start_index};
use core::ops::Bound;
use vstd::prelude::*;
use vstd::std_specs::convert::{FromSpec, TryFromSpec};

verus! {

/// A `NonEmpty` that is built from a vector with an element has the length of that vector
/// and holds its elements, and it is not empty.
pub proof fn law_construction_keeps_length<T>(input: Vec<T>)
    requires
        input@.len() >= 1,
    ensures
        <NonEmpty<T> as TryFromSpec<Vec<T>>>::try_from_spec(input) matches Ok(built) && {
            &&& built@ == input@
            &&& built@.len() == input@.len()
            &&& built@.len() != 0
            &&& built.wf()
        },
{
    NonEmpty::lemma_of_vec_as_vec(input, NonEmpty::of_vec(input));
}

/// Building from a vector without elements is refused.
pub proof fn law_empty_input_refused<T>(input: Vec<T>)
    requires
        input@.len() == 0,
    ensures
        <NonEmpty<T> as TryFromSpec<Vec<T>>>::try_from_spec(input) == Err::<
            NonEmpty<T>,
            EmptyError,
        >(EmptyError),
{
}

/// A vector that gives its elements away as a list and is built again from that list is
/// the vector that it was: the list is never one that building refuses.
pub proof fn law_round_trip<T>(v: NonEmpty<T>)
    requires
        v.wf(),
    ensures
        <NonEmpty<T> as TryFromSpec<Vec<T>>>::try_from_spec(
            <Vec<T> as FromSpec<NonEmpty<T>>>::from_spec(v),
        ) == Ok::<NonEmpty<T>, EmptyError>(v),
{
    NonEmpty::lemma_of_vec_as_vec(v.as_vec(), v);
}

/// Draining a range that `drain` accepts leaves an element, and every element is either
/// drained or left, in its place.
pub proof fn law_drain_keeps_one<T>(before: Seq<T>, range: (Bound<usize>, Bound<usize>))
    requires
        before.len() >= 1,
        in_bounds(range, before.len() as int),
        leaves_some(range, before.len() as int),
    ensures
        (before.take(start_index(range.0)) + before.skip(
            end_index(range.1, before.len() as int),
        )).len() >= 1,
        before.take(start_index(range.0)) + before.subrange(
            start_index(range.0),
            end_index(range.1, before.len() as int),
        ) + before.skip(end_index(range.1, before.len() as int)) == before,
{
    let lo = start_index(range.0);
    let hi = end_index(range.1, before.len() as int);
    assert(before.take(lo) + before.subrange(lo, hi) + before.skip(hi) =~= before);
}

/// A range that covers the whole vector is one that `drain` does not accept.
pub proof fn law_full_range_refused(range: (Bound<usize>, Bound<usize>), len: int)
    requires
        len >= 1,
        start_index(range.0) == 0,
        end_index(range.1, len) == len,
    ensures
        !leaves_some(range, len),
{
}

/// However far a cursor was driven, the vector holds the elements that were settled at
/// the front, those that were not tested and those that were settled at the back, in this
/// order, and an element that was not tested is among them: the vector is not empty.
pub proof fn law_cursor_leaves_valid_vector<'a, T, F>(cursor: DrainFilter<'a, T, F>) where
    F: FnMut(&mut T) -> bool,

    requires
        cursor.wf(),
    ensures
        cursor.items() == cursor.settled_front() + cursor.untouched() + cursor.settled_back(),
        cursor.untouched().len() >= 1,
        cursor.items().len() >= 1,
        cursor.items().len() <= cursor.old_len(),
{
    assert(cursor.items() =~= cursor.settled_front() + cursor.untouched()
        + cursor.settled_back());
}

/// What `next` asks of the predicate, it asks of the elements that testing from the front
/// may reach, the last untested element left aside. Testing starts at the first element,
/// and it does not get behind an element that the predicate never rejects. Where a single
/// untested element is left, there is no element that it may reach: `next` asks nothing of
/// the predicate, and does not call it.
pub proof fn law_what_next_may_test<'a, T, F>(cursor: DrainFilter<'a, T, F>, picked: int, j: int) where
    F: FnMut(&mut T) -> bool,

    requires
        cursor.wf(),
    ensures
        DrainFilter::<T, F>::reached(cursor.pred(), cursor.untouched(), 0),
        0 <= picked < j && !DrainFilter::<T, F>::may_reject(
            cursor.pred(),
            cursor.untouched()[picked],
        ) ==> !DrainFilter::<T, F>::reached(cursor.pred(), cursor.untouched(), j),
        cursor.untouched().len() == 1 ==> !(0 <= j < cursor.untouched().len() - 1),
{
}

/// What `next_back` asks of the predicate, it asks of the elements that testing from the
/// back may reach, the first untested element left aside. Testing starts at the last
/// element, and it does not get before an element that the predicate never rejects. Where
/// a single untested element is left, there is no element that it may reach: `next_back`
/// asks nothing of the predicate, and does not call it.
pub proof fn law_what_next_back_may_test<'a, T, F>(
    cursor: DrainFilter<'a, T, F>,
    picked: int,
    j: int,
) where F: FnMut(&mut T) -> bool
    requires
        cursor.wf(),
    ensures
        DrainFilter::<T, F>::reached_back(
            cursor.pred(),
            cursor.untouched(),
            cursor.untouched().len() - 1,
        ),
        j < picked < cursor.untouched().len() && !DrainFilter::<T, F>::may_reject(
            cursor.pred(),
            cursor.untouched()[picked],
        ) ==> !DrainFilter::<T, F>::reached_back(cursor.pred(), cursor.untouched(), j),
        cursor.untouched().len() == 1 ==> !(1 <= j < cursor.untouched().len()),
{
}

/// The number of elements that a cursor has handed out and the number that the vector
/// holds make up the number that the vector held when the cursor was made.
pub proof fn law_cursor_counts<'a, T, F>(cursor: DrainFilter<'a, T, F>) where
    F: FnMut(&mut T) -> bool,

    requires
        cursor.wf(),
    ensures
        cursor.items().len() + (cursor.i() - cursor.left()) + (cursor.right() - cursor.r())
            == cursor.old_len(),
{
}

} // verus!
