//! Selective removal from a non-empty vector: a cursor that can be driven from both ends,
//! hands out the elements that a predicate picks and keeps the others, in order.

use crate::non_empty::NonEmpty;
use vstd::prelude::*;

verus! {

/// A cursor over a `NonEmpty` that removes the elements for which a predicate returns
/// `true`, and hands them out one by one.
///
/// The cursor numbers the slots of the vector as it was when the cursor was made, `0` up to
/// `old_len`, and divides them by four marks, `left <= i < r <= right <= old_len`:
/// * slots below `left` hold elements that were tested from the front and stay;
/// * slots from `left` up to `i` have been vacated;
/// * slots from `i` up to `r` hold elements that have not been tested yet;
/// * slots from `r` up to `right` have been vacated;
/// * slots from `right` on hold elements that were tested from the back and stay.
///
/// The vector itself has no vacant slots: at every moment it holds the elements of the
/// occupied slots, in order and closed up. So it is a valid `NonEmpty` whenever the cursor
/// is let go, however far it was driven. The last untested element is never taken out, and
/// the predicate never sees it.
///
/// Nothing is allocated. Taking an element out moves the elements behind it up by one, so
/// a step costs time in proportion to their number.
#[must_use]
pub struct DrainFilter<'a, T, F> where F: FnMut(&mut T) -> bool {
    vec: &'a mut NonEmpty<T>,
    f: F,
    // any items to the left of `left` are settled and staying in the vector.
    left: usize,
    // any slots between `left` and `i` are vacant.
    i: usize,
    // any items between `i` and `r` are not searched yet.
    r: usize,
    // any slots between `r` and `right` are vacant.
    right: usize,
    // any items to the right of `right` are settled and staying in the vector.
    old_len: usize,
}

impl<'a, T, F> DrainFilter<'a, T, F> where F: FnMut(&mut T) -> bool {
    /// What the vector holds now.
    pub closed spec fn items(&self) -> Seq<T> {
        self.vec@
    }

    /// The borrow of the vector that the cursor works on.
    pub closed spec fn target(&self) -> &'a mut NonEmpty<T> {
        self.vec
    }

    /// The predicate.
    pub closed spec fn pred(&self) -> F {
        self.f
    }

    pub closed spec fn left(&self) -> int {
        self.left as int
    }

    pub closed spec fn i(&self) -> int {
        self.i as int
    }

    pub closed spec fn r(&self) -> int {
        self.r as int
    }

    pub closed spec fn right(&self) -> int {
        self.right as int
    }

    pub closed spec fn old_len(&self) -> int {
        self.old_len as int
    }

    /// The marks are in order, an untested element is left, and the vector holds one
    /// element for each occupied slot.
    pub open spec fn wf(&self) -> bool {
        &&& 0 <= self.left() <= self.i() < self.r() <= self.right() <= self.old_len()
        &&& self.items().len() == self.left() + (self.r() - self.i()) + (self.old_len()
            - self.right())
    }

    /// The elements that were tested from the front and stay.
    pub open spec fn settled_front(&self) -> Seq<T> {
        self.items().take(self.left())
    }

    /// The elements that have not been tested yet.
    pub open spec fn untouched(&self) -> Seq<T> {
        self.items().subrange(self.left(), self.left() + (self.r() - self.i()))
    }

    /// The elements that were tested from the back and stay.
    pub open spec fn settled_back(&self) -> Seq<T> {
        self.items().skip(self.left() + (self.r() - self.i()))
    }

    /// Both cursors have the same `old_len` and the same predicate.
    pub open spec fn same_origin(&self, other: &Self) -> bool {
        &&& self.old_len() == other.old_len()
        &&& self.pred() == other.pred()
    }

    /// Nothing differs between the two cursors on the side of the back.
    pub open spec fn same_back(&self, other: &Self) -> bool {
        &&& self.r() == other.r()
        &&& self.right() == other.right()
        &&& self.settled_back() =~= other.settled_back()
    }

    /// Nothing differs between the two cursors on the side of the front.
    pub open spec fn same_front(&self, other: &Self) -> bool {
        &&& self.left() == other.left()
        &&& self.i() == other.i()
        &&& self.settled_front() =~= other.settled_front()
    }

    /// The predicate `f` may return `false` when it is handed the value `v`.
    pub open spec fn may_reject(f: F, v: T) -> bool {
        exists|y: &mut T| *y == v && #[trigger] call_ensures(f, (y,), false)
    }

    /// Testing the elements of `u` from the front may get as far as the one at `j`: `f` may
    /// reject each element before it.
    pub open spec fn reached(f: F, u: Seq<T>, j: int) -> bool {
        forall|l: int| 0 <= l < j ==> Self::may_reject(f, #[trigger] u[l])
    }

    /// Testing the elements of `u` from the back may get as far as the one at `j`: `f` may
    /// reject each element behind it.
    pub open spec fn reached_back(f: F, u: Seq<T>, j: int) -> bool {
        forall|l: int| j < l < u.len() ==> Self::may_reject(f, #[trigger] u[l])
    }

    pub fn new(vec: &'a mut NonEmpty<T>, f: F) -> (cursor: Self)
        requires
            old(vec).wf(),
        ensures
            cursor.wf(),
            cursor.items() == old(vec)@,
            cursor.pred() == f,
            cursor.left() == 0,
            cursor.i() == 0,
            cursor.r() == old(vec)@.len(),
            cursor.right() == old(vec)@.len(),
            cursor.old_len() == old(vec)@.len(),
            cursor.settled_front() == Seq::<T>::empty(),
            cursor.untouched() == old(vec)@,
            cursor.settled_back() == Seq::<T>::empty(),
            *final(cursor.target()) == *final(vec),
    {
        let left: usize = 0;
        let i: usize = 0;
        let old_len = vec.len();
        let right = old_len;
        let r = right;
        DrainFilter { vec, f, left, i, r, right, old_len }
    }

    /// Removes the first unsearched element from the front of the vector, unless it is the
    /// only one.
    fn pop_front(&mut self) -> (item: Option<T>)
        requires
            old(self).wf(),
        ensures
            final(self).wf(),
            final(self).same_origin(old(self)),
            final(self).same_back(old(self)),
            final(self).left() == old(self).left(),
            *final(final(self).target()) == *final(old(self).target()),
            old(self).r() - old(self).i() > 1 ==> {
                &&& item == Some(old(self).untouched().first())
                &&& final(self).i() == old(self).i() + 1
                &&& final(self).items() == old(self).items().remove(old(self).left())
            },
            old(self).r() - old(self).i() <= 1 ==> {
                &&& item.is_none()
                &&& final(self).i() == old(self).i()
                &&& final(self).items() == old(self).items()
            },
    {
        if self.r - self.i > 1 {
            // The slot `i` is vacant from here on: the element that follows it in the
            // vector moves up to where it stood.
            let item = self.vec.take(self.left);
            self.i += 1;
            Some(item)
        } else {
            None
        }
    }

    /// Removes the last unsearched element from the back of the vector, unless it is the
    /// only one.
    fn pop_back(&mut self) -> (item: Option<T>)
        requires
            old(self).wf(),
        ensures
            final(self).wf(),
            final(self).same_origin(old(self)),
            final(self).same_front(old(self)),
            final(self).right() == old(self).right(),
            *final(final(self).target()) == *final(old(self).target()),
            old(self).r() - old(self).i() > 1 ==> {
                &&& item == Some(old(self).untouched().last())
                &&& final(self).r() == old(self).r() - 1
                &&& final(self).items() == old(self).items().remove(
                    old(self).left() + (old(self).r() - old(self).i()) - 1,
                )
            },
            old(self).r() - old(self).i() <= 1 ==> {
                &&& item.is_none()
                &&& final(self).r() == old(self).r()
                &&& final(self).items() == old(self).items()
            },
    {
        if self.r - self.i > 1 {
            let item = self.vec.take(self.left + (self.r - self.i) - 1);
            self.r -= 1;
            Some(item)
        } else {
            None
        }
    }

    /// Settles `item` in the first vacant slot of the front, which has to exist.
    fn insert_front(&mut self, item: T)
        requires
            old(self).wf(),
            old(self).left() < old(self).i(),
        ensures
            final(self).wf(),
            final(self).same_origin(old(self)),
            final(self).same_back(old(self)),
            final(self).i() == old(self).i(),
            final(self).left() == old(self).left() + 1,
            final(self).items() == old(self).items().insert(old(self).left(), item),
            *final(final(self).target()) == *final(old(self).target()),
    {
        self.vec.place(self.left, item);
        self.left += 1;
    }

    /// Settles `item` in the last vacant slot of the back, which has to exist.
    fn insert_back(&mut self, item: T)
        requires
            old(self).wf(),
            old(self).r() < old(self).right(),
        ensures
            final(self).wf(),
            final(self).same_origin(old(self)),
            final(self).same_front(old(self)),
            final(self).r() == old(self).r(),
            final(self).right() == old(self).right() - 1,
            final(self).items() == old(self).items().insert(
                old(self).left() + (old(self).r() - old(self).i()),
                item,
            ),
            *final(final(self).target()) == *final(old(self).target()),
    {
        self.vec.place(self.left + (self.r - self.i), item);
        self.right -= 1;
    }

    /// Tests untested elements from the front until the predicate picks one, which is
    /// taken out of the vector and returned. Those that it does not pick are settled at
    /// the front, as the predicate left them. `None` means that a single untested element
    /// is left: it is not tested, and stays.
    ///
    /// The predicate has to be callable on each element that the testing may reach: on an
    /// untested element, the last one left aside, where it may reject all those before it.
    ///
    /// `calls` stands for the borrows that the predicate was handed, in order: one for each
    /// element that was tested.
    pub fn next(&mut self) -> (out: Option<T>)
        requires
            old(self).wf(),
            forall|x: &mut T, j: int|
                0 <= j < old(self).untouched().len() - 1 && *x == old(self).untouched()[j]
                    && #[trigger] Self::reached(old(self).pred(), old(self).untouched(), j)
                    ==> #[trigger] call_requires(old(self).pred(), (x,)),
        ensures
            final(self).wf(),
            final(self).same_origin(old(self)),
            final(self).same_back(old(self)),
            *final(final(self).target()) == *final(old(self).target()),
            old(self).i() <= final(self).i(),
            old(self).left() <= final(self).left(),
            final(self).untouched() == old(self).untouched().skip(
                final(self).i() - old(self).i(),
            ),
            final(self).settled_front().take(old(self).left()) == old(self).settled_front(),
            out.is_some() ==> final(self).left() - old(self).left() == final(self).i() - old(
                self,
            ).i() - 1,
            out.is_none() ==> final(self).left() - old(self).left() == final(self).i() - old(
                self,
            ).i() && final(self).r() - final(self).i() == 1,
            exists|calls: Seq<&mut T>|
                #![trigger calls.len()]
                {
                    &&& calls.len() == final(self).i() - old(self).i()
                    &&& forall|j: int|
                        0 <= j < calls.len() ==> *(#[trigger] calls[j]) == old(self).untouched()[j]
                    &&& forall|j: int|
                        #![trigger calls[j]]
                        0 <= j < final(self).left() - old(self).left() ==> *final(calls[j])
                            == final(self).settled_front()[old(self).left() + j] && call_ensures(
                            old(self).pred(),
                            (calls[j],),
                            false,
                        )
                    &&& out matches Some(item) ==> *final(calls.last()) == item && call_ensures(
                        old(self).pred(),
                        (calls.last(),),
                        true,
                    )
                },
    {
        assert(Seq::<&mut T>::empty().len() == 0);
        // Loop until either we find an element, or run out of elements to search.
        loop
            invariant
                old(self).wf(),
                forall|x: &mut T, j: int|
                    0 <= j < old(self).untouched().len() - 1 && *x == old(self).untouched()[j]
                        && #[trigger] Self::reached(old(self).pred(), old(self).untouched(), j)
                        ==> #[trigger] call_requires(old(self).pred(), (x,)),
                self.wf(),
                self.same_origin(old(self)),
                self.same_back(old(self)),
                *final(self.target()) == *final(old(self).target()),
                old(self).i() <= self.i(),
                self.left() - old(self).left() == self.i() - old(self).i(),
                self.untouched() == old(self).untouched().skip(self.i() - old(self).i()),
                self.settled_front().take(old(self).left()) == old(self).settled_front(),
                exists|calls: Seq<&mut T>|
                    #![trigger calls.len()]
                    {
                        &&& calls.len() == self.i() - old(self).i()
                        &&& forall|j: int|
                            #![trigger calls[j]]
                            0 <= j < calls.len() ==> *calls[j] == old(self).untouched()[j]
                                && *final(calls[j]) == self.settled_front()[old(self).left() + j]
                                && call_ensures(old(self).pred(), (calls[j],), false)
                    },
            decreases self.r() - self.i(),
        {
            let ghost before = *self;
            let ghost k = before.i() - old(self).i();
            let ghost earlier = choose|calls: Seq<&mut T>|
                #![trigger calls.len()]
                {
                    &&& calls.len() == before.i() - old(self).i()
                    &&& forall|j: int|
                        #![trigger calls[j]]
                        0 <= j < calls.len() ==> *calls[j] == old(self).untouched()[j]
                            && *final(calls[j]) == before.settled_front()[old(self).left() + j]
                            && call_ensures(old(self).pred(), (calls[j],), false)
                };
            // Remove the first unsearched element from the vector.
            let mut item = match self.pop_front() {
                Some(item) => item,
                None => {
                    proof {
                        assert(self.settled_front() =~= before.settled_front());
                        assert(earlier.len() == k);
                    }
                    return None;
                },
            };
            let ghost taken = item;
            proof {
                assert(taken == before.untouched()[0]);
                assert(before.untouched()[0] == old(self).untouched()[k]);
                assert(self.pred() == self.f);
                assert forall|l: int| 0 <= l < k implies Self::may_reject(
                    old(self).pred(),
                    #[trigger] old(self).untouched()[l],
                ) by {
                    assert(*earlier[l] == old(self).untouched()[l]);
                    assert(call_ensures(old(self).pred(), (earlier[l],), false));
                }
                assert(Self::reached(old(self).pred(), old(self).untouched(), k));
                assert forall|m: int| 0 <= m < self.untouched().len() implies self.untouched()[m]
                    == old(self).untouched()[k + 1 + m] by {
                    assert(self.untouched()[m] == before.items()[before.left() + 1 + m]);
                    assert(before.untouched()[m + 1] == before.items()[before.left() + 1 + m]);
                    assert(before.untouched()[m + 1] == old(self).untouched()[k + 1 + m]);
                }
                assert(self.untouched() =~= old(self).untouched().skip(k + 1));
                assert(self.settled_front() =~= before.settled_front());
            }
            let picked = (self.f)(&mut item);
            let ghost tested = item;
            let ghost call = choose|x: &mut T|
                *x == taken && *final(x) == tested && #[trigger] call_ensures(
                    old(self).pred(),
                    (x,),
                    picked,
                );
            let ghost calls = earlier.push(call);
            if !picked {
                let ghost popped = *self;
                // Place it back, settled, at the beginning of the vector.
                self.insert_front(item);
                proof {
                    assert(self.items() =~= before.items().update(before.left(), tested));
                    assert(self.untouched() =~= popped.untouched());
                    assert(self.settled_front() =~= before.settled_front().push(tested));
                    assert(self.settled_front().take(old(self).left()) =~= old(
                        self,
                    ).settled_front());
                    assert(calls.len() == self.i() - old(self).i());
                    assert forall|j: int|
                        #![trigger calls[j]]
                        0 <= j < calls.len() implies *calls[j] == old(self).untouched()[j]
                        && *final(calls[j]) == self.settled_front()[old(self).left() + j]
                        && call_ensures(old(self).pred(), (calls[j],), false) by {
                        if j < k {
                            assert(calls[j] == earlier[j]);
                        } else {
                            assert(calls[j] == call);
                        }
                    }
                }
            } else {
                // It passed the predicate: yield it.
                proof {
                    assert(calls.len() == self.i() - old(self).i());
                    assert(calls.last() == call);
                    assert forall|j: int|
                        #![trigger calls[j]]
                        0 <= j < self.left() - old(self).left() implies *final(calls[j])
                        == self.settled_front()[old(self).left() + j] && call_ensures(
                        old(self).pred(),
                        (calls[j],),
                        false,
                    ) by {
                        assert(calls[j] == earlier[j]);
                    }
                    assert forall|j: int| 0 <= j < calls.len() implies *(#[trigger] calls[j])
                        == old(self).untouched()[j] by {
                        if j < k {
                            assert(calls[j] == earlier[j]);
                        } else {
                            assert(calls[j] == call);
                        }
                    }
                }
                return Some(item);
            }
        }
    }

    /// Tests untested elements from the back until the predicate picks one, which is taken
    /// out of the vector and returned. Those that it does not pick are settled at the
    /// back, as the predicate left them. `None` means that a single untested element is
    /// left: it is not tested, and stays.
    ///
    /// The predicate has to be callable on each element that the testing may reach: on an
    /// untested element, the first one left aside, where it may reject all those behind it.
    ///
    /// `calls` stands for the borrows that the predicate was handed, in order: one for each
    /// element that was tested, the last untested element first.
    pub fn next_back(&mut self) -> (out: Option<T>)
        requires
            old(self).wf(),
            forall|x: &mut T, j: int|
                1 <= j < old(self).untouched().len() && *x == old(self).untouched()[j]
                    && #[trigger] Self::reached_back(old(self).pred(), old(self).untouched(), j)
                    ==> #[trigger] call_requires(old(self).pred(), (x,)),
        ensures
            final(self).wf(),
            final(self).same_origin(old(self)),
            final(self).same_front(old(self)),
            *final(final(self).target()) == *final(old(self).target()),
            final(self).r() <= old(self).r(),
            final(self).right() <= old(self).right(),
            final(self).untouched() == old(self).untouched().take(
                final(self).r() - final(self).i(),
            ),
            final(self).settled_back().skip(old(self).right() - final(self).right()) == old(
                self,
            ).settled_back(),
            out.is_some() ==> old(self).right() - final(self).right() == old(self).r() - final(self).r() - 1,
            out.is_none() ==> old(self).right() - final(self).right() == old(self).r() - final(self).r() && final(self).r() - final(self).i() == 1,
            exists|calls: Seq<&mut T>|
                #![trigger calls.len()]
                {
                    &&& calls.len() == old(self).r() - final(self).r()
                    &&& forall|j: int|
                        0 <= j < calls.len() ==> *(#[trigger] calls[j]) == old(
                            self,
                        ).untouched()[old(self).untouched().len() - 1 - j]
                    &&& forall|j: int|
                        #![trigger calls[j]]
                        0 <= j < old(self).right() - final(self).right() ==> *final(calls[j])
                            == final(self).settled_back()[old(self).right() - final(self).right()
                            - 1 - j] && call_ensures(old(self).pred(), (calls[j],), false)
                    &&& out matches Some(item) ==> *final(calls.last()) == item && call_ensures(
                        old(self).pred(),
                        (calls.last(),),
                        true,
                    )
                },
    {
        assert(Seq::<&mut T>::empty().len() == 0);
        // Loop until either we find an element or the list is depleted.
        loop
            invariant
                old(self).wf(),
                forall|x: &mut T, j: int|
                    1 <= j < old(self).untouched().len() && *x == old(self).untouched()[j]
                        && #[trigger] Self::reached_back(
                        old(self).pred(),
                        old(self).untouched(),
                        j,
                    ) ==> #[trigger] call_requires(old(self).pred(), (x,)),
                self.wf(),
                self.same_origin(old(self)),
                self.same_front(old(self)),
                *final(self.target()) == *final(old(self).target()),
                self.r() <= old(self).r(),
                old(self).right() - self.right() == old(self).r() - self.r(),
                self.untouched() == old(self).untouched().take(self.r() - self.i()),
                self.settled_back().skip(old(self).right() - self.right()) == old(
                    self,
                ).settled_back(),
                exists|calls: Seq<&mut T>|
                    #![trigger calls.len()]
                    {
                        &&& calls.len() == old(self).r() - self.r()
                        &&& forall|j: int|
                            #![trigger calls[j]]
                            0 <= j < calls.len() ==> *calls[j] == old(self).untouched()[old(
                                self,
                            ).untouched().len() - 1 - j] && *final(calls[j])
                                == self.settled_back()[calls.len() - 1 - j] && call_ensures(
                                old(self).pred(),
                                (calls[j],),
                                false,
                            )
                    },
            decreases self.r() - self.i(),
        {
            let ghost before = *self;
            let ghost k = old(self).r() - before.r();
            let ghost len = old(self).untouched().len() as int;
            let ghost earlier = choose|calls: Seq<&mut T>|
                #![trigger calls.len()]
                {
                    &&& calls.len() == old(self).r() - before.r()
                    &&& forall|j: int|
                        #![trigger calls[j]]
                        0 <= j < calls.len() ==> *calls[j] == old(self).untouched()[old(
                            self,
                        ).untouched().len() - 1 - j] && *final(calls[j])
                            == before.settled_back()[calls.len() - 1 - j] && call_ensures(
                            old(self).pred(),
                            (calls[j],),
                            false,
                        )
                };
            let mut item = match self.pop_back() {
                Some(item) => item,
                None => {
                    proof {
                        assert(self.settled_back() =~= before.settled_back());
                        assert(self.untouched() =~= before.untouched());
                        assert(earlier.len() == k);
                    }
                    return None;
                },
            };
            let ghost taken = item;
            proof {
                assert(taken == before.untouched().last());
                assert(before.untouched().last() == old(self).untouched()[len - 1 - k]);
                assert(self.pred() == self.f);
                assert forall|l: int| len - 1 - k < l < len implies Self::may_reject(
                    old(self).pred(),
                    #[trigger] old(self).untouched()[l],
                ) by {
                    assert(*earlier[len - 1 - l] == old(self).untouched()[l]);
                    assert(call_ensures(old(self).pred(), (earlier[len - 1 - l],), false));
                }
                assert(Self::reached_back(
                    old(self).pred(),
                    old(self).untouched(),
                    len - 1 - k,
                ));
                assert(self.untouched() =~= before.untouched().drop_last());
                assert(self.untouched() =~= old(self).untouched().take(len - k - 1));
                assert(self.settled_back() =~= before.settled_back());
            }
            let picked = (self.f)(&mut item);
            let ghost tested = item;
            let ghost call = choose|x: &mut T|
                *x == taken && *final(x) == tested && #[trigger] call_ensures(
                    old(self).pred(),
                    (x,),
                    picked,
                );
            let ghost calls = earlier.push(call);
            if !picked {
                let ghost popped = *self;
                // Place it back, settled, in front of what was settled at the back.
                self.insert_back(item);
                proof {
                    assert(self.untouched() =~= popped.untouched());
                    assert(self.settled_back() =~= seq![tested] + before.settled_back());
                    assert(self.settled_back().skip(old(self).right() - self.right()) =~= old(
                        self,
                    ).settled_back());
                    assert(calls.len() == old(self).r() - self.r());
                    assert forall|j: int|
                        #![trigger calls[j]]
                        0 <= j < calls.len() implies *calls[j] == old(self).untouched()[len - 1
                        - j] && *final(calls[j]) == self.settled_back()[calls.len() - 1 - j]
                        && call_ensures(old(self).pred(), (calls[j],), false) by {
                        if j < k {
                            assert(calls[j] == earlier[j]);
                            assert(self.settled_back()[calls.len() - 1 - j]
                                == before.settled_back()[earlier.len() - 1 - j]);
                        } else {
                            assert(calls[j] == call);
                        }
                    }
                }
            } else {
                proof {
                    assert(calls.len() == old(self).r() - self.r());
                    assert(calls.last() == call);
                    assert forall|j: int|
                        #![trigger calls[j]]
                        0 <= j < old(self).right() - self.right() implies *final(calls[j])
                        == self.settled_back()[old(self).right() - self.right() - 1 - j]
                        && call_ensures(old(self).pred(), (calls[j],), false) by {
                        assert(calls[j] == earlier[j]);
                    }
                    assert forall|j: int| 0 <= j < calls.len() implies *(#[trigger] calls[j])
                        == old(self).untouched()[len - 1 - j] by {
                        if j < k {
                            assert(calls[j] == earlier[j]);
                        } else {
                            assert(calls[j] == call);
                        }
                    }
                }
                return Some(item);
            }
        }
    }

    /// Bounds on the number of elements that the cursor can still hand out: none may be
    /// picked, and the last untested element is never tested.
    pub fn size_hint(&self) -> (hint: (usize, Option<usize>))
        requires
            self.wf(),
        ensures
            hint.0 == 0,
            hint.1 == Some((self.untouched().len() - 1) as usize),
    {
        let max = self.r - self.i - 1;
        (0, Some(max))
    }

    /// Lets the vector go. The elements that were not tested stay where they are, between
    /// those that were settled at the front and those that were settled at the back: the
    /// vector is left as it is, and it is a valid `NonEmpty`.
    pub fn finish(self)
        requires
            self.wf(),
        ensures
            final(self.target())@ == self.settled_front() + self.untouched() + self.settled_back(),
            final(self.target())@ == self.items(),
            final(self.target()).wf(),
    {
        proof {
            assert(self.items() =~= self.settled_front() + self.untouched()
                + self.settled_back());
        }
    }
}

impl<T> NonEmpty<T> {
    /// Calls a predicate with every element of this vector but the last one that is left
    /// to test, removing each element for which the predicate returns `true`. The returned
    /// cursor hands out the removed elements; nothing is removed until it is driven.
    pub fn drain_filter<'a, F>(&'a mut self, f: F) -> (cursor: DrainFilter<'a, T, F>) where
        F: FnMut(&mut T) -> bool,

        requires
            old(self).wf(),
        ensures
            cursor.wf(),
            cursor.items() == old(self)@,
            cursor.pred() == f,
            cursor.left() == 0,
            cursor.i() == 0,
            cursor.r() == old(self)@.len(),
            cursor.right() == old(self)@.len(),
            cursor.old_len() == old(self)@.len(),
            cursor.settled_front() == Seq::<T>::empty(),
            cursor.untouched() == old(self)@,
            cursor.settled_back() == Seq::<T>::empty(),
            *final(cursor.target()) == *final(self),
    {
        DrainFilter::new(self, f)
    }
}

} // verus!
