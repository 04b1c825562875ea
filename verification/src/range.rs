//! Index ranges given by a pair of bounds, and the removal of such a range from a vector.

use core::ops::Bound;
use vstd::prelude::*;

verus! {

/// `core::ops::Bound`, an endpoint of a range: `Included`, `Excluded` or `Unbounded`. The
/// variants are read from `std`'s own definition.
#[verifier::external_type_specification]
#[verifier::reject_recursive_types(T)]
pub struct ExBound<T>(Bound<T>);

/// The first index that a range with this start bound covers.
pub open spec fn start_index(start: Bound<usize>) -> int {
    match start {
        Bound::Included(s) => s as int,
        Bound::Excluded(s) => s + 1,
        Bound::Unbounded => 0,
    }
}

/// One past the last index that a range with this end bound covers, in a sequence of
/// `len` elements.
pub open spec fn end_index(end: Bound<usize>, len: int) -> int {
    match end {
        Bound::Included(e) => e + 1,
        Bound::Excluded(e) => e as int,
        Bound::Unbounded => len,
    }
}

/// The range is in order and ends within a sequence of `len` elements.
pub open spec fn in_bounds(range: (Bound<usize>, Bound<usize>), len: int) -> bool {
    0 <= start_index(range.0) <= end_index(range.1, len) <= len
}

/// Some index of a sequence of `len` elements lies outside the range: before its start or
/// at or after its end.
pub open spec fn leaves_some(range: (Bound<usize>, Bound<usize>), len: int) -> bool {
    start_index(range.0) > 0 || end_index(range.1, len) < len
}

/// Tells whether removing `range` from `len` elements would leave at least one of them.
pub fn has_leftover(range: &(Bound<usize>, Bound<usize>), len: usize) -> (b: bool)
    requires
        len >= 1,
    ensures
        b == leaves_some(*range, len as int),
{
    // whether or not there is space leftover in the start of the vector.
    let leftover_start = match range.0 {
        Bound::Included(start) => start > 0,
        Bound::Excluded(_) => true,
        Bound::Unbounded => false,
    };
    if leftover_start {
        true
    } else {
        // whether or not there is space leftover in the end of the vector.
        match range.1 {
            Bound::Excluded(end) => end < len,
            Bound::Included(end) => end < len - 1,
            Bound::Unbounded => false,
        }
    }
}

/// The half-open pair of indices that `range` stands for in a sequence of `len` elements,
/// or `None` where the range is out of order or reaches past the end.
pub fn resolve(range: &(Bound<usize>, Bound<usize>), len: usize) -> (r: Option<(usize, usize)>)
    ensures
        in_bounds(*range, len as int) ==> r == Some(
            (start_index(range.0) as usize, end_index(range.1, len as int) as usize),
        ),
        !in_bounds(*range, len as int) ==> r.is_none(),
{
    let lo: usize = match range.0 {
        Bound::Included(start) => start,
        Bound::Excluded(start) => {
            if start >= len {
                return None;
            }
            start + 1
        },
        Bound::Unbounded => 0,
    };
    let hi: usize = match range.1 {
        Bound::Included(end) => {
            if end >= len {
                return None;
            }
            end + 1
        },
        Bound::Excluded(end) => end,
        Bound::Unbounded => len,
    };
    if lo <= hi && hi <= len {
        Some((lo, hi))
    } else {
        None
    }
}

/// Removes the elements at `lo..hi` from `v` and returns them in order.
pub fn remove_range<T>(v: &mut Vec<T>, lo: usize, hi: usize) -> (removed: Vec<T>)
    requires
        lo <= hi <= old(v)@.len(),
    ensures
        removed@ == old(v)@.subrange(lo as int, hi as int),
        final(v)@ == old(v)@.take(lo as int) + old(v)@.skip(hi as int),
{
    let mut tail = v.split_off(hi);
    let removed = v.split_off(lo);
    v.append(&mut tail);
    removed
}

} // verus!
