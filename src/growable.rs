//! The growable backend: the capabilities on `Vec<T>`, each one an operation
//! of `vec_ops`.
use vstd::prelude::*;

use core::cmp::Ordering;

use crate::collection::{Collection, CollectionMut};
use crate::error::{CapacityError, Error};
use crate::list::{List, ListMut, ListResizable, ListSortable};
use crate::model::{is_dedup_key_mask, is_dedup_mask, is_keep_mask, select};
use crate::vec_ops;

verus! {

impl<T> Collection<T> for Vec<T> {
    open spec fn items(&self) -> Seq<T> {
        self@
    }

    open spec fn well_formed(&self) -> bool {
        true
    }

    fn len(&self) -> (r: usize) {
        vec_ops::len(self)
    }

    fn contains(&self, other: &T) -> (r: bool) where T: PartialEq {
        vec_ops::contains(self, other)
    }
}

impl<T> CollectionMut<T> for Vec<T> {
    fn clear(&mut self) {
        vec_ops::clear(self)
    }
}

impl<T> List<T> for Vec<T> {
    fn as_slice(&self) -> (r: &[T]) {
        Vec::as_slice(self)
    }

    fn find_index(&self, other: &T) -> (r: Option<usize>) where T: PartialEq {
        vec_ops::find_index(self, other)
    }

    fn first(&self) -> (r: Option<&T>) {
        vec_ops::first(self)
    }

    fn last(&self) -> (r: Option<&T>) {
        vec_ops::last(self)
    }

    fn get(&self, index: usize) -> (r: Option<&T>) {
        vec_ops::get(self, index)
    }

    fn binary_search(&self, x: &T) -> (r: Result<usize, usize>) where T: Ord {
        vec_ops::binary_search(self, x)
    }

    fn binary_search_by<F>(&self, f: F) -> (r: Result<usize, usize>) where
        F: FnMut(&T) -> Ordering,
     {
        vec_ops::binary_search_by(self, f)
    }

    fn binary_search_by_key<B, F>(&self, b: &B, f: F) -> (r: Result<usize, usize>) where
        F: FnMut(&T) -> B,
        B: Ord,
     {
        vec_ops::binary_search_by_key(self, b, f)
    }

    fn starts_with(&self, needle: &[T]) -> (r: bool) where T: PartialEq {
        vec_ops::starts_with(self, needle)
    }

    fn ends_with(&self, needle: &[T]) -> (r: bool) where T: PartialEq {
        vec_ops::ends_with(self, needle)
    }
}

impl<T> ListMut<T> for Vec<T> {
    fn new() -> (r: Self) {
        Vec::new()
    }

    fn capacity(&self) -> (r: usize) {
        vec_ops::capacity(self)
    }

    fn push(&mut self, item: T) -> (r: Result<(), Error<T>>) {
        vec_ops::push(self, item)
    }

    fn pop(&mut self) -> (r: Option<T>) {
        vec_ops::pop(self)
    }

    fn first_mut(&mut self) -> (r: Option<&mut T>) {
        vec_ops::first_mut(self)
    }

    fn last_mut(&mut self) -> (r: Option<&mut T>) {
        vec_ops::last_mut(self)
    }

    fn get_mut(&mut self, index: usize) -> (r: Option<&mut T>) {
        vec_ops::get_mut(self, index)
    }

    fn insert(&mut self, index: usize, element: T) -> (r: Result<(), Error<T>>) {
        vec_ops::insert(self, index, element)
    }

    fn remove(&mut self, index: usize) -> (r: T) {
        vec_ops::remove(self, index)
    }

    fn swap_remove(&mut self, index: usize) -> (r: T) {
        vec_ops::swap_remove(self, index)
    }

    fn swap(&mut self, a: usize, b: usize) {
        vec_ops::swap(self, a, b)
    }

    fn reverse(&mut self) {
        vec_ops::reverse(self)
    }

    fn truncate(&mut self, len: usize) {
        vec_ops::truncate(self, len)
    }

    fn retain<F>(&mut self, f: F) where F: FnMut(&T) -> bool {
        let ghost before = self@;
        vec_ops::retain(self, f);
        proof {
            let keep = choose|keep: Seq<bool>| is_keep_mask(f, before, keep) && self@ == select(before, keep);
            assert(exists|keep: Seq<bool>|
                is_keep_mask(f, old(self).items(), keep) && self.items() == select(old(self).items(), keep));
        }
    }

    fn dedup(&mut self) where T: PartialEq {
        vec_ops::dedup(self)
    }

    fn dedup_by<F>(&mut self, same_bucket: F) where F: FnMut(&T, &T) -> bool {
        let ghost before = self@;
        vec_ops::dedup_by(self, same_bucket);
        proof {
            let keep = choose|keep: Seq<bool>|
                is_dedup_mask(same_bucket, before, keep) && self@ == select(before, keep);
            assert(is_dedup_mask(same_bucket, old(self).items(), keep) && self.items() == select(
                old(self).items(),
                keep,
            ));
            assert(exists|keep: Seq<bool>|
                is_dedup_mask(same_bucket, old(self).items(), keep) && self.items() == select(
                    old(self).items(),
                    keep,
                ));
        }
    }

    fn dedup_by_key<F, K>(&mut self, key: F) where F: FnMut(&T) -> K, K: PartialEq {
        let ghost before = self@;
        vec_ops::dedup_by_key(self, key);
        proof {
            let (keep, keys) = choose|keep: Seq<bool>, keys: Seq<(K, K)>|
                is_dedup_key_mask(key, before, keep, keys) && self@ == select(before, keep);
            assert(is_dedup_key_mask(key, old(self).items(), keep, keys) && self.items() == select(
                old(self).items(),
                keep,
            ));
            assert(exists|keep: Seq<bool>, keys: Seq<(K, K)>|
                is_dedup_key_mask(key, old(self).items(), keep, keys) && self.items() == select(
                    old(self).items(),
                    keep,
                ));
        }
    }

    fn fill(&mut self, value: T) where T: Clone {
        vec_ops::fill(self, value)
    }

    fn fill_with<F>(&mut self, f: F) where F: FnMut() -> T {
        vec_ops::fill_with(self, f)
    }

    fn append(&mut self, other: &mut Self) -> (r: Result<(), Error<T>>) {
        vec_ops::append(self, other)
    }

    fn split_off(&mut self, at: usize) -> (r: Self) {
        vec_ops::split_off(self, at)
    }
}

impl<T> ListResizable<T> for Vec<T> {
    fn resize(&mut self, new_len: usize, value: T) -> (r: Result<(), Error<T>>) where T: Clone {
        vec_ops::resize(self, new_len, value)
    }

    fn resize_with<F>(&mut self, new_len: usize, f: F) -> (r: Result<(), Error<T>>) where
        F: FnMut() -> T,
     {
        vec_ops::resize_with(self, new_len, f)
    }

    fn reserve(&mut self, additional: usize) -> (r: Result<(), CapacityError>) {
        vec_ops::reserve(self, additional)
    }

    fn shrink_to_fit(&mut self) {
        vec_ops::shrink_to_fit(self)
    }
}

impl<T> ListSortable<T> for Vec<T> {
    fn sort(&mut self) where T: Ord {
        vec_ops::sort(self)
    }

    fn sort_unstable(&mut self) where T: Ord {
        vec_ops::sort_unstable(self)
    }

    fn sort_by<F>(&mut self, compare: F) where F: FnMut(&T, &T) -> Ordering {
        vec_ops::sort_by(self, compare)
    }

    fn sort_unstable_by<F>(&mut self, compare: F) where F: FnMut(&T, &T) -> Ordering {
        vec_ops::sort_unstable_by(self, compare)
    }

    fn sort_by_key<K, F>(&mut self, f: F) where F: FnMut(&T) -> K, K: Ord {
        vec_ops::sort_by_key(self, f)
    }

    fn sort_unstable_by_key<K, F>(&mut self, f: F) where F: FnMut(&T) -> K, K: Ord {
        vec_ops::sort_unstable_by_key(self, f)
    }
}

} // verus!
