//! The list capabilities: reading, mutating, resizing and sorting a sequence
//! held in index order.
use vstd::prelude::*;
use vstd::std_specs::cmp::{OrdSpec, PartialEqSpec};

use core::cmp::Ordering;

use crate::collection::{Collection, CollectionMut};
use crate::error::{CapacityError, Error};
use crate::model::{
    all_callable, dedup_of, has_equal, is_dedup_key_mask, is_dedup_mask, is_first_match, is_keep_mask,
    is_prefix_match, is_search_answer, is_search_answer_by, is_search_answer_by_key,
    is_sorted, is_sorted_by, is_sorted_by_key, is_key_fn, is_suffix_match, is_total_order_by,
    select,
};
use vstd::laws_cmp::obeys_cmp;

verus! {

/// Reading a sequence by position.
pub trait List<T>: Collection<T> {
    /// All the elements, in order, without copying them.
    fn as_slice(&self) -> (r: &[T])
        requires
            self.well_formed(),
        ensures
            r@ == self.items(),
    ;

    /// The position of the first element equal to `other`.
    fn find_index(&self, other: &T) -> (r: Option<usize>) where T: PartialEq
        requires
            self.well_formed(),
        ensures
            T::obeys_eq_spec() ==> is_first_match(self.items(), other, r),
    ;

    fn first(&self) -> (r: Option<&T>)
        requires
            self.well_formed(),
        ensures
            match r {
                Some(e) => self.items().len() > 0 && *e == self.items()[0],
                None => self.items().len() == 0,
            },
    ;

    fn last(&self) -> (r: Option<&T>)
        requires
            self.well_formed(),
        ensures
            match r {
                Some(e) => self.items().len() > 0 && *e == self.items().last(),
                None => self.items().len() == 0,
            },
    ;

    fn get(&self, index: usize) -> (r: Option<&T>)
        requires
            self.well_formed(),
        ensures
            match r {
                Some(e) => index < self.items().len() && *e == self.items()[index as int],
                None => index >= self.items().len(),
            },
    ;

    /// Searches a sorted sequence for `x`: `Ok` with the position of an
    /// element equal to `x`, or `Err` with the position where `x` fits, so
    /// that inserting it there keeps the sequence sorted.
    fn binary_search(&self, x: &T) -> (r: Result<usize, usize>) where T: Ord
        requires
            self.well_formed(),
        ensures
            T::obeys_cmp_spec() ==> is_search_answer(self.items(), x, r),
            obeys_cmp::<T>() && is_sorted(self.items()) ==> (r is Ok <==> has_equal(self.items(), x)),
            obeys_cmp::<T>() && is_sorted(self.items()) && r is Err ==> is_sorted(
                self.items().insert(r->Err_0 as int, *x),
            ),
    ;

    /// Searches with `f`, which tells whether an element lies before
    /// (`Less`), at (`Equal`) or after (`Greater`) the target.
    fn binary_search_by<F>(&self, f: F) -> (r: Result<usize, usize>) where
        F: FnMut(&T) -> Ordering,
        requires
            self.well_formed(),
            all_callable(f, self.items()),
        ensures
            is_search_answer_by(self.items(), f, r),
    ;

    /// Searches for `b` among the keys that `f` computes.
    fn binary_search_by_key<B, F>(&self, b: &B, f: F) -> (r: Result<usize, usize>) where
        F: FnMut(&T) -> B,
        B: Ord,
        requires
            self.well_formed(),
            all_callable(f, self.items()),
        ensures
            B::obeys_cmp_spec() ==> is_search_answer_by_key(self.items(), b, f, r),
    ;

    /// Whether the sequence begins with `needle`; an empty needle always
    /// matches.
    fn starts_with(&self, needle: &[T]) -> (r: bool) where T: PartialEq
        requires
            self.well_formed(),
        ensures
            T::obeys_eq_spec() ==> (r == is_prefix_match(self.items(), needle@)),
    ;

    /// Whether the sequence ends with `needle`; an empty needle always
    /// matches.
    fn ends_with(&self, needle: &[T]) -> (r: bool) where T: PartialEq
        requires
            self.well_formed(),
        ensures
            T::obeys_eq_spec() ==> (r == is_suffix_match(self.items(), needle@)),
    ;
}

/// Changing a sequence. The operations that need room return a `Result`;
/// those that only rearrange or shrink cannot fail.
pub trait ListMut<T>: List<T> + CollectionMut<T> {
    /// An empty container.
    fn new() -> (r: Self) where Self: Sized
        ensures
            r.well_formed(),
            r.items() == Seq::<T>::empty(),
    ;

    /// How many elements fit before more room is needed.
    fn capacity(&self) -> (r: usize)
        requires
            self.well_formed(),
        ensures
            r >= self.items().len(),
    ;

    /// Appends `item`; where there is no room, hands it back in
    /// `Error::InsertFailed` and changes nothing.
    fn push(&mut self, item: T) -> (r: Result<(), Error<T>>)
        requires
            old(self).well_formed(),
        ensures
            final(self).well_formed(),
            match r {
                Ok(()) => final(self).items() == old(self).items().push(item),
                Err(e) => e == Error::InsertFailed(item) && final(self).items() == old(self).items(),
            },
    ;

    /// Removes and returns the last element.
    fn pop(&mut self) -> (r: Option<T>)
        requires
            old(self).well_formed(),
        ensures
            final(self).well_formed(),
            old(self).items().len() > 0 ==> r == Some(old(self).items().last()) && final(self).items()
                == old(self).items().drop_last(),
            old(self).items().len() == 0 ==> r is None && final(self).items() == old(self).items(),
    ;

    fn first_mut(&mut self) -> (r: Option<&mut T>)
        requires
            old(self).well_formed(),
        ensures
            final(self).well_formed(),
            match r {
                Some(e) => old(self).items().len() > 0 && *e == old(self).items()[0] && final(self).items() == old(self).items().update(0, *final(e)),
                None => old(self).items().len() == 0 && final(self).items() == old(self).items(),
            },
    ;

    fn last_mut(&mut self) -> (r: Option<&mut T>)
        requires
            old(self).well_formed(),
        ensures
            final(self).well_formed(),
            match r {
                Some(e) => old(self).items().len() > 0 && *e == old(self).items().last() && final(self).items() == old(self).items().update(old(self).items().len() - 1, *final(e)),
                None => old(self).items().len() == 0 && final(self).items() == old(self).items(),
            },
    ;

    fn get_mut(&mut self, index: usize) -> (r: Option<&mut T>)
        requires
            old(self).well_formed(),
        ensures
            final(self).well_formed(),
            match r {
                Some(e) => index < old(self).items().len() && *e == old(self).items()[index as int]
                    && final(self).items() == old(self).items().update(index as int, *final(e)),
                None => index >= old(self).items().len() && final(self).items() == old(self).items(),
            },
    ;

    /// Puts `element` at `index`, shifting the later elements up; where there
    /// is no room, hands it back in `Error::InsertFailed` and changes nothing.
    fn insert(&mut self, index: usize, element: T) -> (r: Result<(), Error<T>>)
        requires
            old(self).well_formed(),
            index <= old(self).items().len(),
        ensures
            final(self).well_formed(),
            match r {
                Ok(()) => final(self).items() == old(self).items().insert(index as int, element),
                Err(e) => e == Error::InsertFailed(element) && final(self).items() == old(self).items(),
            },
    ;

    /// Removes the element at `index`, keeping the order of the rest.
    fn remove(&mut self, index: usize) -> (r: T)
        requires
            old(self).well_formed(),
            index < old(self).items().len(),
        ensures
            final(self).well_formed(),
            r == old(self).items()[index as int],
            final(self).items() == old(self).items().remove(index as int),
    ;

    /// Removes the element at `index` and puts the last element in its place.
    fn swap_remove(&mut self, index: usize) -> (r: T)
        requires
            old(self).well_formed(),
            index < old(self).items().len(),
        ensures
            final(self).well_formed(),
            r == old(self).items()[index as int],
            final(self).items() == old(self).items().update(
                index as int,
                old(self).items().last(),
            ).drop_last(),
    ;

    /// The elements at `a` and `b` trade places.
    fn swap(&mut self, a: usize, b: usize)
        requires
            old(self).well_formed(),
            a < old(self).items().len(),
            b < old(self).items().len(),
        ensures
            final(self).well_formed(),
            final(self).items() == old(self).items().update(a as int, old(self).items()[b as int]).update(
                b as int,
                old(self).items()[a as int],
            ),
    ;

    fn reverse(&mut self)
        requires
            old(self).well_formed(),
        ensures
            final(self).well_formed(),
            final(self).items() == old(self).items().reverse(),
    ;

    /// Keeps the first `len` elements; does nothing where there are fewer.
    fn truncate(&mut self, len: usize)
        requires
            old(self).well_formed(),
        ensures
            final(self).well_formed(),
            final(self).items() == if len < old(self).items().len() {
                old(self).items().take(len as int)
            } else {
                old(self).items()
            },
    ;

    /// Keeps, in order, the elements for which `f` answers `true`; `f` sees
    /// each element once, from first to last.
    fn retain<F>(&mut self, f: F) where F: FnMut(&T) -> bool
        requires
            old(self).well_formed(),
            all_callable(f, old(self).items()),
        ensures
            final(self).well_formed(),
            exists|keep: Seq<bool>|
                is_keep_mask(f, old(self).items(), keep) && final(self).items() == select(
                    old(self).items(),
                    keep,
                ),
    ;

    /// Collapses each run of consecutive equal elements to its first element.
    fn dedup(&mut self) where T: PartialEq
        requires
            old(self).well_formed(),
        ensures
            final(self).well_formed(),
            T::obeys_eq_spec() ==> final(self).items() == dedup_of(old(self).items()),
    ;

    /// Removes each element for which `f`, given it and the last element
    /// kept before it, answers `true`.
    fn dedup_by<F>(&mut self, same_bucket: F) where F: FnMut(&T, &T) -> bool
        requires
            old(self).well_formed(),
            forall|a: &T, b: &T| call_requires(same_bucket, (a, b)),
        ensures
            final(self).well_formed(),
            exists|keep: Seq<bool>|
                is_dedup_mask(same_bucket, old(self).items(), keep) && final(self).items() == select(
                    old(self).items(),
                    keep,
                ),
    ;

    /// Removes each element whose key equals the key of the last element kept
    /// before it.
    fn dedup_by_key<F, K>(&mut self, key: F) where F: FnMut(&T) -> K, K: PartialEq
        requires
            old(self).well_formed(),
            forall|a: &T| call_requires(key, (a,)),
        ensures
            final(self).well_formed(),
            exists|keep: Seq<bool>, keys: Seq<(K, K)>|
                is_dedup_key_mask(key, old(self).items(), keep, keys) && final(self).items()
                    == select(old(self).items(), keep),
    ;

    /// Puts a clone of `value` in every slot.
    fn fill(&mut self, value: T) where T: Clone
        requires
            old(self).well_formed(),
        ensures
            final(self).well_formed(),
            final(self).items().len() == old(self).items().len(),
            forall|i: int| 0 <= i < old(self).items().len() ==> cloned(value, #[trigger] final(self).items()[i]),
    ;

    /// Puts in every slot, from first to last, a value that `f` makes.
    fn fill_with<F>(&mut self, f: F) where F: FnMut() -> T
        requires
            old(self).well_formed(),
            call_requires(f, ()),
        ensures
            final(self).well_formed(),
            final(self).items().len() == old(self).items().len(),
            forall|i: int| 0 <= i < old(self).items().len() ==> call_ensures(f, (), #[trigger] final(self).items()[i]),
    ;

    /// Moves every element of `other` to the end of `self`. All or nothing:
    /// on `Error::CapacityExceeded` both keep exactly what they held.
    fn append(&mut self, other: &mut Self) -> (r: Result<(), Error<T>>)
        requires
            old(self).well_formed(),
            old(other).well_formed(),
        ensures
            final(self).well_formed(),
            final(other).well_formed(),
            match r {
                Ok(()) => final(self).items() == old(self).items() + old(other).items() && final(other).items() == Seq::<T>::empty(),
                Err(e) => e == Error::<T>::CapacityExceeded && final(self).items() == old(self).items()
                    && final(other).items() == old(other).items(),
            },
    ;

    /// Moves the elements from `at` on into a new container.
    fn split_off(&mut self, at: usize) -> (r: Self) where Self: Sized
        requires
            old(self).well_formed(),
            at <= old(self).items().len(),
        ensures
            final(self).well_formed(),
            r.well_formed(),
            final(self).items() == old(self).items().take(at as int),
            r.items() == old(self).items().skip(at as int),
    ;
}

/// Changing the length of a sequence and its reserved room; offered by
/// backends whose room can grow.
pub trait ListResizable<T>: ListMut<T> {
    /// Makes the length `new_len`: drops trailing elements, or appends
    /// clones of `value`. Shrinking never fails; growth that finds no room
    /// reports `Error::CapacityExceeded` and changes nothing.
    fn resize(&mut self, new_len: usize, value: T) -> (r: Result<(), Error<T>>) where T: Clone
        requires
            old(self).well_formed(),
        ensures
            final(self).well_formed(),
            new_len <= old(self).items().len() ==> r is Ok,
            match r {
                Ok(()) => {
                    &&& final(self).items().len() == new_len
                    &&& new_len <= old(self).items().len() ==> final(self).items() == old(self).items().take(new_len as int)
                    &&& new_len > old(self).items().len() ==> final(self).items().take(
                        old(self).items().len() as int,
                    ) == old(self).items()
                    &&& forall|i: int|
                        old(self).items().len() <= i < new_len ==> cloned(
                            value,
                            #[trigger] final(self).items()[i],
                        )
                },
                Err(e) => e == Error::<T>::CapacityExceeded && final(self).items() == old(self).items(),
            },
    ;

    /// Makes the length `new_len`: drops trailing elements, or appends
    /// values that `f` makes, one call for each new slot.
    fn resize_with<F>(&mut self, new_len: usize, f: F) -> (r: Result<(), Error<T>>) where
        F: FnMut() -> T,
        requires
            old(self).well_formed(),
            call_requires(f, ()),
        ensures
            final(self).well_formed(),
            new_len <= old(self).items().len() ==> r is Ok,
            match r {
                Ok(()) => {
                    &&& final(self).items().len() == new_len
                    &&& new_len <= old(self).items().len() ==> final(self).items() == old(self).items().take(new_len as int)
                    &&& new_len > old(self).items().len() ==> final(self).items().take(
                        old(self).items().len() as int,
                    ) == old(self).items()
                    &&& forall|i: int|
                        old(self).items().len() <= i < new_len ==> call_ensures(
                            f,
                            (),
                            #[trigger] final(self).items()[i],
                        )
                },
                Err(e) => e == Error::<T>::CapacityExceeded && final(self).items() == old(self).items(),
            },
    ;

    /// Asks for room for `additional` more elements; the elements stay as
    /// they are either way.
    fn reserve(&mut self, additional: usize) -> (r: Result<(), CapacityError>)
        requires
            old(self).well_formed(),
        ensures
            final(self).well_formed(),
            final(self).items() == old(self).items(),
    ;

    /// Gives back room that the elements do not use.
    fn shrink_to_fit(&mut self)
        requires
            old(self).well_formed(),
        ensures
            final(self).well_formed(),
            final(self).items() == old(self).items(),
    ;
}

/// Reordering a sequence; offered by backends that can move their elements
/// freely.
pub trait ListSortable<T>: ListMut<T> {
    /// Sorts by `Ord`, keeping equal elements in their order.
    fn sort(&mut self) where T: Ord
        requires
            old(self).well_formed(),
            obeys_cmp::<T>(),
        ensures
            final(self).well_formed(),
            final(self).items().to_multiset() == old(self).items().to_multiset(),
            is_sorted(final(self).items()),
    ;

    /// Sorts by `Ord`; equal elements may change order.
    fn sort_unstable(&mut self) where T: Ord
        requires
            old(self).well_formed(),
            obeys_cmp::<T>(),
        ensures
            final(self).well_formed(),
            final(self).items().to_multiset() == old(self).items().to_multiset(),
            is_sorted(final(self).items()),
    ;

    /// Sorts by `compare`, keeping equal elements in their order.
    fn sort_by<F>(&mut self, compare: F) where F: FnMut(&T, &T) -> Ordering
        requires
            old(self).well_formed(),
            is_total_order_by(compare),
        ensures
            final(self).well_formed(),
            final(self).items().to_multiset() == old(self).items().to_multiset(),
            is_sorted_by(compare, final(self).items()),
    ;

    /// Sorts by `compare`; equal elements may change order.
    fn sort_unstable_by<F>(&mut self, compare: F) where F: FnMut(&T, &T) -> Ordering
        requires
            old(self).well_formed(),
            is_total_order_by(compare),
        ensures
            final(self).well_formed(),
            final(self).items().to_multiset() == old(self).items().to_multiset(),
            is_sorted_by(compare, final(self).items()),
    ;

    /// Sorts by the keys that `f` computes, keeping elements with equal keys in
    /// their order.
    fn sort_by_key<K, F>(&mut self, f: F) where F: FnMut(&T) -> K, K: Ord
        requires
            old(self).well_formed(),
            forall|a: &T| call_requires(f, (a,)),
            obeys_cmp::<K>(),
        ensures
            final(self).well_formed(),
            final(self).items().to_multiset() == old(self).items().to_multiset(),
            is_key_fn(f) ==> is_sorted_by_key(f, final(self).items()),
    ;

    /// Sorts by the keys that `f` computes; elements with equal keys may change
    /// order.
    fn sort_unstable_by_key<K, F>(&mut self, f: F) where F: FnMut(&T) -> K, K: Ord
        requires
            old(self).well_formed(),
            forall|a: &T| call_requires(f, (a,)),
            obeys_cmp::<K>(),
        ensures
            final(self).well_formed(),
            final(self).items().to_multiset() == old(self).items().to_multiset(),
            is_key_fn(f) ==> is_sorted_by_key(f, final(self).items()),
    ;
}

} // verus!
