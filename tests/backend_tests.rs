use collections2::{
    CapacityError, Collection, CollectionMut, Error, FixedVec, List, ListMut, ListResizable,
    ListSortable,
};

fn fixed_of<const N: usize>(values: &[u32]) -> FixedVec<u32, N> {
    let mut v: FixedVec<u32, N> = FixedVec::new();
    for x in values {
        v.push(*x).unwrap();
    }
    v
}

fn growable_of(values: &[u32]) -> Vec<u32> {
    let mut v: Vec<u32> = ListMut::new();
    for x in values {
        ListMut::push(&mut v, *x).unwrap();
    }
    v
}

#[test]
fn pushes_keep_their_order_on_both_backends() {
    let values = [5u32, 3, 9, 1, 7];
    let fixed = fixed_of::<8>(&values);
    let growable = growable_of(&values);
    assert_eq!(fixed.as_slice(), &values);
    assert_eq!(List::as_slice(&growable), &values);
}

#[test]
fn push_then_pop_restores_length_on_both_backends() {
    let mut fixed = fixed_of::<4>(&[1, 2]);
    fixed.push(42).unwrap();
    assert_eq!(fixed.pop(), Some(42));
    assert_eq!(fixed.len(), 2);
    assert_eq!(fixed.as_slice(), &[1, 2]);

    let mut growable = growable_of(&[1, 2]);
    ListMut::push(&mut growable, 42).unwrap();
    assert_eq!(ListMut::pop(&mut growable), Some(42));
    assert_eq!(Collection::len(&growable), 2);
}

#[test]
fn pop_on_empty_gives_nothing() {
    let mut fixed: FixedVec<u32, 2> = FixedVec::new();
    assert_eq!(fixed.pop(), None);
    assert!(fixed.is_empty());
}

#[test]
fn zero_capacity_rejects_every_push() {
    let mut fixed: FixedVec<u32, 0> = FixedVec::new();
    assert_eq!(fixed.push(7), Err(Error::InsertFailed(7)));
    assert_eq!(fixed.insert(0, 8), Err(Error::InsertFailed(8)));
    assert_eq!(fixed.capacity(), 0);
    assert!(fixed.is_empty());
}

#[test]
fn append_that_fills_exactly_succeeds() {
    let mut a = fixed_of::<4>(&[1, 2]);
    let mut b = fixed_of::<4>(&[3, 4]);
    assert_eq!(a.append(&mut b), Ok(()));
    assert_eq!(a.as_slice(), &[1, 2, 3, 4]);
    assert!(b.is_empty());
}

#[test]
fn growable_append_empties_the_other() {
    let mut a = growable_of(&[1]);
    let mut b = growable_of(&[2, 3]);
    assert_eq!(ListMut::append(&mut a, &mut b), Ok(()));
    assert_eq!(a, vec![1, 2, 3]);
    assert!(b.is_empty());
}

#[test]
fn dedup_removes_only_adjacent_duplicates() {
    let mut fixed = fixed_of::<4>(&[1, 1, 2, 1]);
    fixed.dedup();
    assert_eq!(fixed.as_slice(), &[1, 2, 1]);

    let mut growable = growable_of(&[1, 1, 2, 1]);
    ListMut::dedup(&mut growable);
    assert_eq!(growable, vec![1, 2, 1]);
}

#[test]
fn dedup_collapses_each_run() {
    let mut fixed = fixed_of::<8>(&[1, 1, 2, 2, 3, 3, 3, 1]);
    fixed.dedup();
    assert_eq!(fixed.as_slice(), &[1, 2, 3, 1]);
}

#[test]
fn dedup_of_empty_and_single() {
    let mut empty: FixedVec<u32, 2> = FixedVec::new();
    empty.dedup();
    assert!(empty.is_empty());
    let mut single = fixed_of::<2>(&[9]);
    single.dedup();
    assert_eq!(single.as_slice(), &[9]);
}

#[test]
fn dedup_by_compares_with_the_last_kept_element() {
    let mut fixed = fixed_of::<8>(&[10, 11, 12, 20, 21, 30]);
    fixed.dedup_by(|a: &u32, b: &u32| a / 10 == b / 10);
    assert_eq!(fixed.as_slice(), &[10, 20, 30]);

    let mut growable = growable_of(&[1, 2, 3, 4, 10]);
    ListMut::dedup_by(&mut growable, |a: &u32, b: &u32| a - b <= 1);
    assert_eq!(growable, vec![1, 3, 10]);
}

#[test]
fn dedup_by_key_uses_the_computed_keys() {
    let mut fixed = fixed_of::<8>(&[1, 3, 5, 2, 4, 7]);
    fixed.dedup_by_key(|x: &u32| x % 2);
    assert_eq!(fixed.as_slice(), &[1, 2, 7]);
}

#[test]
fn retain_keeps_matching_elements_in_order() {
    let mut fixed = fixed_of::<8>(&[1, 2, 3, 4, 5, 6]);
    fixed.retain(|x: &u32| x % 2 == 0);
    assert_eq!(fixed.as_slice(), &[2, 4, 6]);

    let mut growable = growable_of(&[5, 1, 4]);
    ListMut::retain(&mut growable, |x: &u32| *x > 1);
    assert_eq!(growable, vec![5, 4]);
}

#[test]
fn binary_search_finds_an_equal_element() {
    let fixed = fixed_of::<8>(&[1, 3, 5, 7]);
    let r = fixed.binary_search(&5);
    assert_eq!(r, Ok(2));
    assert_eq!(fixed.get(r.unwrap()), Some(&5));
}

#[test]
fn binary_search_miss_gives_a_sorted_insertion_point() {
    let fixed = fixed_of::<8>(&[1, 3, 5, 7]);
    for x in [0u32, 2, 4, 6, 8] {
        let j = fixed.binary_search(&x).unwrap_err();
        let mut copy: Vec<u32> = fixed.as_slice().to_vec();
        copy.insert(j, x);
        assert!(copy.windows(2).all(|w| w[0] <= w[1]));
    }
    assert_eq!(fixed.binary_search(&4), Err(2));
    let empty: FixedVec<u32, 2> = FixedVec::new();
    assert_eq!(empty.binary_search(&4), Err(0));
}

#[test]
fn binary_search_with_duplicates_finds_one_of_them() {
    let growable = growable_of(&[1, 2, 2, 2, 3]);
    let i = List::binary_search(&growable, &2).unwrap();
    assert_eq!(growable[i], 2);
}

#[test]
fn binary_search_by_and_by_key() {
    let fixed = fixed_of::<8>(&[10, 20, 30]);
    assert_eq!(fixed.binary_search_by(|x: &u32| x.cmp(&20)), Ok(1));
    assert_eq!(fixed.binary_search_by(|x: &u32| x.cmp(&25)), Err(2));
    assert_eq!(fixed.binary_search_by_key(&3, |x: &u32| x / 10), Ok(2));
    assert_eq!(fixed.binary_search_by_key(&0, |x: &u32| x / 10), Err(0));
}

#[test]
fn find_index_and_contains() {
    let fixed = fixed_of::<8>(&[4, 6, 4]);
    assert_eq!(fixed.find_index(&4), Some(0));
    assert_eq!(fixed.find_index(&6), Some(1));
    assert_eq!(fixed.find_index(&5), None);
    assert!(fixed.contains(&6));
    assert!(!fixed.contains(&5));
    let growable = growable_of(&[4, 6]);
    assert_eq!(List::find_index(&growable, &6), Some(1));
    assert!(Collection::contains(&growable, &4));
}

#[test]
fn prefix_and_suffix_matching() {
    let fixed = fixed_of::<8>(&[1, 2, 3]);
    assert!(fixed.starts_with(&[]));
    assert!(fixed.starts_with(&[1, 2]));
    assert!(!fixed.starts_with(&[2]));
    assert!(!fixed.starts_with(&[1, 2, 3, 4]));
    assert!(fixed.ends_with(&[]));
    assert!(fixed.ends_with(&[2, 3]));
    assert!(!fixed.ends_with(&[1, 2]));
}

#[test]
fn first_last_get() {
    let fixed = fixed_of::<8>(&[7, 8, 9]);
    assert_eq!(fixed.first(), Some(&7));
    assert_eq!(fixed.last(), Some(&9));
    assert_eq!(fixed.get(1), Some(&8));
    assert_eq!(fixed.get(3), None);
    let empty: FixedVec<u32, 2> = FixedVec::new();
    assert_eq!(empty.first(), None);
    assert_eq!(empty.last(), None);
}

#[test]
fn mutable_access_writes_through() {
    let mut fixed = fixed_of::<8>(&[1, 2, 3]);
    *fixed.first_mut().unwrap() = 10;
    *fixed.last_mut().unwrap() = 30;
    *fixed.get_mut(1).unwrap() = 20;
    assert!(fixed.get_mut(3).is_none());
    assert_eq!(fixed.as_slice(), &[10, 20, 30]);
}

#[test]
fn remove_keeps_order_swap_remove_moves_last() {
    let mut fixed = fixed_of::<8>(&[1, 2, 3, 4]);
    assert_eq!(fixed.remove(1), 2);
    assert_eq!(fixed.as_slice(), &[1, 3, 4]);
    assert_eq!(fixed.swap_remove(0), 1);
    assert_eq!(fixed.as_slice(), &[4, 3]);
}

#[test]
fn swap_and_reverse() {
    let mut fixed = fixed_of::<8>(&[1, 2, 3, 4, 5]);
    fixed.swap(0, 4);
    assert_eq!(fixed.as_slice(), &[5, 2, 3, 4, 1]);
    fixed.reverse();
    assert_eq!(fixed.as_slice(), &[1, 4, 3, 2, 5]);
    let mut growable = growable_of(&[1, 2]);
    ListMut::swap(&mut growable, 0, 1);
    assert_eq!(growable, vec![2, 1]);
    ListMut::reverse(&mut growable);
    assert_eq!(growable, vec![1, 2]);
}

#[test]
fn truncate_and_clear() {
    let mut fixed = fixed_of::<8>(&[1, 2, 3]);
    fixed.truncate(5);
    assert_eq!(fixed.as_slice(), &[1, 2, 3]);
    fixed.truncate(1);
    assert_eq!(fixed.as_slice(), &[1]);
    fixed.clear();
    assert!(fixed.is_empty());
}

#[test]
fn fill_and_fill_with() {
    let mut fixed = fixed_of::<8>(&[1, 2, 3]);
    fixed.fill(9);
    assert_eq!(fixed.as_slice(), &[9, 9, 9]);
    let mut next = 0u32;
    let mut growable = growable_of(&[0, 0, 0]);
    ListMut::fill_with(&mut growable, || {
        next += 1;
        next
    });
    assert_eq!(growable, vec![1, 2, 3]);
}

#[test]
fn split_off_moves_the_tail() {
    let mut fixed = fixed_of::<8>(&[1, 2, 3, 4]);
    let tail = fixed.split_off(1);
    assert_eq!(fixed.as_slice(), &[1]);
    assert_eq!(tail.as_slice(), &[2, 3, 4]);
    let mut growable = growable_of(&[1, 2]);
    let rest = ListMut::split_off(&mut growable, 2);
    assert_eq!(growable, vec![1, 2]);
    assert!(rest.is_empty());
}

#[test]
fn capacity_of_each_backend() {
    let fixed = fixed_of::<6>(&[1]);
    assert_eq!(fixed.capacity(), 6);
    let growable = growable_of(&[1, 2, 3]);
    assert!(ListMut::capacity(&growable) >= 3);
}

#[test]
fn resize_grows_with_clones_and_shrinks() {
    let mut v = growable_of(&[1, 2]);
    assert_eq!(ListResizable::resize(&mut v, 4, 7), Ok(()));
    assert_eq!(v, vec![1, 2, 7, 7]);
    assert_eq!(ListResizable::resize(&mut v, 1, 0), Ok(()));
    assert_eq!(v, vec![1]);
    assert_eq!(ListResizable::resize(&mut v, 1, 0), Ok(()));
    assert_eq!(v, vec![1]);
}

#[test]
fn resize_with_calls_the_generator_once_per_new_slot() {
    let mut v = growable_of(&[1]);
    let mut calls = 0u32;
    let r = ListResizable::resize_with(&mut v, 4, || {
        calls += 1;
        calls * 10
    });
    assert_eq!(r, Ok(()));
    assert_eq!(v, vec![1, 10, 20, 30]);
    assert_eq!(calls, 3);
}

#[test]
fn resize_beyond_any_allocation_fails_and_keeps_contents() {
    let mut v = growable_of(&[1, 2]);
    assert_eq!(ListResizable::resize(&mut v, usize::MAX, 0), Err(Error::CapacityExceeded));
    assert_eq!(v, vec![1, 2]);
    assert_eq!(ListResizable::reserve(&mut v, usize::MAX), Err(CapacityError));
    assert_eq!(v, vec![1, 2]);
}

#[test]
fn reserve_and_shrink_keep_contents() {
    let mut v = growable_of(&[1, 2]);
    assert_eq!(ListResizable::reserve(&mut v, 100), Ok(()));
    assert!(ListMut::capacity(&v) >= 102);
    ListResizable::shrink_to_fit(&mut v);
    assert_eq!(v, vec![1, 2]);
}

#[test]
fn sorts_order_the_elements() {
    let mut v = growable_of(&[3, 1, 2]);
    ListSortable::sort(&mut v);
    assert_eq!(v, vec![1, 2, 3]);
    let mut v = growable_of(&[3, 1, 2]);
    ListSortable::sort_unstable(&mut v);
    assert_eq!(v, vec![1, 2, 3]);
    let mut v = growable_of(&[1, 3, 2]);
    ListSortable::sort_by(&mut v, |a: &u32, b: &u32| b.cmp(a));
    assert_eq!(v, vec![3, 2, 1]);
    let mut v = growable_of(&[1, 3, 2]);
    ListSortable::sort_unstable_by(&mut v, |a: &u32, b: &u32| b.cmp(a));
    assert_eq!(v, vec![3, 2, 1]);
}

#[test]
fn sorts_by_key_keep_equal_keys_in_order_when_stable() {
    let mut v = growable_of(&[21, 10, 20, 11]);
    ListSortable::sort_by_key(&mut v, |x: &u32| x % 10);
    assert_eq!(v, vec![10, 20, 21, 11]);
    let mut v = growable_of(&[3, 1, 2]);
    ListSortable::sort_unstable_by_key(&mut v, |x: &u32| *x);
    assert_eq!(v, vec![1, 2, 3]);
}

#[test]
fn generic_code_runs_on_either_backend() {
    fn fill_up<L: ListMut<u32>>(list: &mut L, n: u32) -> Result<(), Error<u32>> {
        for i in 0..n {
            list.push(i)?;
        }
        Ok(())
    }
    let mut fixed: FixedVec<u32, 3> = FixedVec::new();
    assert_eq!(fill_up(&mut fixed, 5), Err(Error::InsertFailed(3)));
    assert_eq!(fixed.as_slice(), &[0, 1, 2]);
    let mut growable: Vec<u32> = ListMut::new();
    assert_eq!(fill_up(&mut growable, 5), Ok(()));
    assert_eq!(growable, vec![0, 1, 2, 3, 4]);
}
