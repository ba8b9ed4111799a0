//! The bounded backend: at most `N` elements, a limit fixed by the type.
use vstd::prelude::*;

use core::cmp::Ordering;

use crate::collection::{Collection, CollectionMut};
use crate::error::Error;
use crate::list::{List, ListMut};
use crate::model::{is_dedup_key_mask, is_dedup_mask, is_keep_mask, select};
use crate::vec_ops;

verus! {

/// A sequence of at most `N` elements. Every check for room is a comparison
/// of the length with `N`.
pub struct FixedVec<T, const N: usize> {
    items: Vec<T>,
}

impl<T, const N: usize> FixedVec<T, N> {
    /// An empty container.
    pub fn new() -> (r: Self)
        ensures
            r.items() == Seq::<T>::empty(),
            r.well_formed(),
    {
        FixedVec { items: Vec::new() }
    }
}

impl<T, const N: usize> Collection<T> for FixedVec<T, N> {
    closed spec fn items(&self) -> Seq<T> {
        self.items@
    }

    closed spec fn well_formed(&self) -> bool {
        self.items@.len() <= N
    }

    fn len(&self) -> (r: usize) {
        vec_ops::len(&self.items)
    }

    fn contains(&self, other: &T) -> (r: bool) where T: PartialEq {
        vec_ops::contains(&self.items, other)
    }
}

impl<T, const N: usize> CollectionMut<T> for FixedVec<T, N> {
    fn clear(&mut self) {
        vec_ops::clear(&mut self.items);
    }
}

impl<T, const N: usize> List<T> for FixedVec<T, N> {
    fn as_slice(&self) -> (r: &[T]) {
        self.items.as_slice()
    }

    fn find_index(&self, other: &T) -> (r: Option<usize>) where T: PartialEq {
        vec_ops::find_index(&self.items, other)
    }

    fn first(&self) -> (r: Option<&T>) {
        vec_ops::first(&self.items)
    }

    fn last(&self) -> (r: Option<&T>) {
        vec_ops::last(&self.items)
    }

    fn get(&self, index: usize) -> (r: Option<&T>) {
        vec_ops::get(&self.items, index)
    }

    fn binary_search(&self, x: &T) -> (r: Result<usize, usize>) where T: Ord {
        vec_ops::binary_search(&self.items, x)
    }

    fn binary_search_by<F>(&self, f: F) -> (r: Result<usize, usize>) where
        F: FnMut(&T) -> Ordering,
     {
        vec_ops::binary_search_by(&self.items, f)
    }

    fn binary_search_by_key<B, F>(&self, b: &B, f: F) -> (r: Result<usize, usize>) where
        F: FnMut(&T) -> B,
        B: Ord,
     {
        vec_ops::binary_search_by_key(&self.items, b, f)
    }

    fn starts_with(&self, needle: &[T]) -> (r: bool) where T: PartialEq {
        vec_ops::starts_with(&self.items, needle)
    }

    fn ends_with(&self, needle: &[T]) -> (r: bool) where T: PartialEq {
        vec_ops::ends_with(&self.items, needle)
    }
}

impl<T, const N: usize> ListMut<T> for FixedVec<T, N> {
    fn new() -> (r: Self) {
        FixedVec { items: Vec::new() }
    }

    fn capacity(&self) -> (r: usize)
        ensures
            r == N,
    {
        N
    }

    fn push(&mut self, item: T) -> (r: Result<(), Error<T>>)
        ensures
            r is Ok <==> old(self).items().len() < N,
    {
        if self.items.len() < N {
            self.items.push(item);
            Ok(())
        } else {
            Err(Error::InsertFailed(item))
        }
    }

    fn pop(&mut self) -> (r: Option<T>) {
        vec_ops::pop(&mut self.items)
    }

    fn first_mut(&mut self) -> (r: Option<&mut T>) {
        vec_ops::first_mut(&mut self.items)
    }

    fn last_mut(&mut self) -> (r: Option<&mut T>) {
        vec_ops::last_mut(&mut self.items)
    }

    fn get_mut(&mut self, index: usize) -> (r: Option<&mut T>) {
        vec_ops::get_mut(&mut self.items, index)
    }

    fn insert(&mut self, index: usize, element: T) -> (r: Result<(), Error<T>>)
        ensures
            r is Ok <==> old(self).items().len() < N,
    {
        if self.items.len() < N {
            self.items.insert(index, element);
            Ok(())
        } else {
            Err(Error::InsertFailed(element))
        }
    }

    fn remove(&mut self, index: usize) -> (r: T) {
        vec_ops::remove(&mut self.items, index)
    }

    fn swap_remove(&mut self, index: usize) -> (r: T) {
        vec_ops::swap_remove(&mut self.items, index)
    }

    fn swap(&mut self, a: usize, b: usize) {
        vec_ops::swap(&mut self.items, a, b)
    }

    fn reverse(&mut self) {
        vec_ops::reverse(&mut self.items)
    }

    fn truncate(&mut self, len: usize) {
        vec_ops::truncate(&mut self.items, len)
    }

    fn retain<F>(&mut self, f: F) where F: FnMut(&T) -> bool {
        let ghost before = self.items@;
        vec_ops::retain(&mut self.items, f);
        proof {
            let keep = choose|keep: Seq<bool>| is_keep_mask(f, before, keep) && self.items@ == select(before, keep);
            assert(is_keep_mask(f, old(self).items(), keep) && self.items() == select(old(self).items(), keep));
            assert(exists|keep: Seq<bool>| is_keep_mask(f, old(self).items(), keep) && self.items() == select(old(self).items(), keep));
        }
    }

    fn dedup(&mut self) where T: PartialEq {
        vec_ops::dedup(&mut self.items)
    }

    fn dedup_by<F>(&mut self, same_bucket: F) where F: FnMut(&T, &T) -> bool {
        let ghost before = self.items@;
        vec_ops::dedup_by(&mut self.items, same_bucket);
        proof {
            let keep = choose|keep: Seq<bool>|
                is_dedup_mask(same_bucket, before, keep) && self.items@ == select(before, keep);
            assert(is_dedup_mask(same_bucket, old(self).items(), keep) && self.items() == select(
                old(self).items(),
                keep,
            ));
            assert(exists|keep: Seq<bool>|
                is_dedup_mask(same_bucket, old(self).items(), keep) && self.items() == select(
                    old(self).items(),
                    keep,
                ));
        }
    }

    fn dedup_by_key<F, K>(&mut self, key: F) where F: FnMut(&T) -> K, K: PartialEq {
        let ghost before = self.items@;
        vec_ops::dedup_by_key(&mut self.items, key);
        proof {
            let (keep, keys) = choose|keep: Seq<bool>, keys: Seq<(K, K)>|
                is_dedup_key_mask(key, before, keep, keys) && self.items@ == select(before, keep);
            assert(is_dedup_key_mask(key, old(self).items(), keep, keys) && self.items() == select(
                old(self).items(),
                keep,
            ));
            assert(exists|keep: Seq<bool>, keys: Seq<(K, K)>|
                is_dedup_key_mask(key, old(self).items(), keep, keys) && self.items() == select(
                    old(self).items(),
                    keep,
                ));
        }
    }

    fn fill(&mut self, value: T) where T: Clone {
        vec_ops::fill(&mut self.items, value)
    }

    fn fill_with<F>(&mut self, f: F) where F: FnMut() -> T {
        vec_ops::fill_with(&mut self.items, f)
    }

    fn append(&mut self, other: &mut Self) -> (r: Result<(), Error<T>>)
        ensures
            r is Ok <==> old(self).items().len() + old(other).items().len() <= N,
    {
        if other.items.len() <= N - self.items.len() {
            self.items.append(&mut other.items);
            Ok(())
        } else {
            Err(Error::CapacityExceeded)
        }
    }

    fn split_off(&mut self, at: usize) -> (r: Self) {
        FixedVec { items: vec_ops::split_off(&mut self.items, at) }
    }
}

} // verus!
