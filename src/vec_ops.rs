//! The operations on a vector that both backends are built from: the
//! growable backend is a `Vec<T>`, and the bounded one keeps its elements in
//! one. Operations that grow the vector first reserve room with
//! `try_reserve`, so that a failed allocation comes back as an `Error`.
use vstd::laws_cmp::{obeys_cmp, obeys_cmp_ord};
use vstd::prelude::*;
use vstd::std_specs::cmp::{OrdSpec, PartialEqSpec};

use core::cmp::Ordering;

use crate::error::{CapacityError, Error};
use crate::laws::{law_gap_value_is_absent, law_insert_at_gap_keeps_sorted};
use crate::model::{
    all_callable, dedup_of, has_equal, has_match, is_dedup_key_mask, is_dedup_mask,
    is_first_match, is_keep_mask, is_key_fn, is_prefix_match, is_search_answer,
    is_search_answer_by, is_search_answer_by_key, is_sorted, is_sorted_by, is_sorted_by_key,
    is_suffix_match, is_total_order_by, key_compares, last_kept, select,
};

verus! {

/// The position of the first element equal to `other`.
pub fn find_index<T: PartialEq>(v: &Vec<T>, other: &T) -> (r: Option<usize>)
    ensures
        T::obeys_eq_spec() ==> is_first_match(v@, other, r),
{
    let mut i: usize = 0;
    while i < v.len()
        invariant
            i <= v@.len(),
            T::obeys_eq_spec() ==> forall|j: int| 0 <= j < i ==> !(#[trigger] v@[j]).eq_spec(other),
        decreases v@.len() - i,
    {
        if v[i] == *other {
            return Some(i);
        }
        i = i + 1;
    }
    None
}

/// Whether some element equals `other`.
pub fn contains<T: PartialEq>(v: &Vec<T>, other: &T) -> (r: bool)
    ensures
        T::obeys_eq_spec() ==> (r == has_match(v@, other)),
{
    match find_index(v, other) {
        Some(i) => {
            proof {
                if T::obeys_eq_spec() {
                    assert(v@[i as int].eq_spec(other));
                }
            }
            true
        },
        None => false,
    }
}

/// Binary search for `x` by `Ord`.
pub fn binary_search<T: Ord>(v: &Vec<T>, x: &T) -> (r: Result<usize, usize>)
    ensures
        T::obeys_cmp_spec() ==> is_search_answer(v@, x, r),
        obeys_cmp::<T>() && is_sorted(v@) ==> (r is Ok <==> has_equal(v@, x)),
        obeys_cmp::<T>() && is_sorted(v@) && r is Err ==> is_sorted(v@.insert(r->Err_0 as int, *x)),
{
    let mut lo: usize = 0;
    let mut hi: usize = v.len();
    while lo < hi
        invariant
            lo <= hi <= v@.len(),
            T::obeys_cmp_spec() ==> (lo > 0 ==> v@[lo - 1].cmp_spec(x) == Ordering::Less),
            T::obeys_cmp_spec() ==> (hi < v@.len() ==> v@[hi as int].cmp_spec(x) == Ordering::Greater),
        decreases hi - lo,
    {
        let mid = lo + (hi - lo) / 2;
        match v[mid].cmp(x) {
            Ordering::Less => lo = mid + 1,
            Ordering::Greater => hi = mid,
            Ordering::Equal => {
                proof {
                    if obeys_cmp::<T>() {
                        reveal(obeys_cmp_ord);
                        assert(v@[mid as int].cmp_spec(x) == Ordering::Equal);
                    }
                }
                return Ok(mid);
            },
        }
    }
    proof {
        if obeys_cmp::<T>() && is_sorted(v@) {
            reveal(obeys_cmp_ord);
            law_insert_at_gap_keeps_sorted(v@, *x, lo as int);
            law_gap_value_is_absent(v@, *x, lo as int);
        }
    }
    Err(lo)
}

/// Binary search steered by `f`, which tells where an element stands with
/// respect to the target.
pub fn binary_search_by<T, F: FnMut(&T) -> Ordering>(v: &Vec<T>, mut f: F) -> (r: Result<
    usize,
    usize,
>)
    requires
        all_callable(f, v@),
    ensures
        is_search_answer_by(v@, f, r),
{
    let ghost f0 = f;
    let mut lo: usize = 0;
    let mut hi: usize = v.len();
    let mut found: Option<usize> = None;
    while lo < hi && found.is_none()
        invariant
            lo <= hi <= v@.len(),
            f == f0,
            forall|i: int| 0 <= i < v@.len() ==> call_requires(f, (&v@[i],)),
            lo > 0 ==> call_ensures(f, (&v@[lo - 1],), Ordering::Less),
            hi < v@.len() ==> call_ensures(f, (&v@[hi as int],), Ordering::Greater),
            found matches Some(i) ==> i < v@.len() && call_ensures(f, (&v@[i as int],), Ordering::Equal),
        decreases hi - lo + (if found is None { 1int } else { 0int }),
    {
        let mid = lo + (hi - lo) / 2;
        match f(&v[mid]) {
            Ordering::Less => lo = mid + 1,
            Ordering::Greater => hi = mid,
            Ordering::Equal => found = Some(mid),
        }
    }
    match found {
        Some(i) => Ok(i),
        None => Err(lo),
    }
}

/// Binary search for `b` among the keys that `f` computes.
pub fn binary_search_by_key<T, B: Ord, F: FnMut(&T) -> B>(v: &Vec<T>, b: &B, mut f: F) -> (r:
    Result<usize, usize>)
    requires
        all_callable(f, v@),
    ensures
        B::obeys_cmp_spec() ==> is_search_answer_by_key(v@, b, f, r),
{
    let ghost f0 = f;
    let ghost f0 = f;
    let mut lo: usize = 0;
    let mut hi: usize = v.len();
    let mut found: Option<usize> = None;
    while lo < hi && found.is_none()
        invariant
            lo <= hi <= v@.len(),
            f == f0,
            forall|i: int| 0 <= i < v@.len() ==> call_requires(f, (&v@[i],)),
            B::obeys_cmp_spec() ==> (lo > 0 ==> key_compares(f, v@[lo - 1], b, Ordering::Less)),
            B::obeys_cmp_spec() ==> (hi < v@.len() ==> key_compares(f, v@[hi as int], b, Ordering::Greater)),
            found matches Some(i) ==> i < v@.len() && (B::obeys_cmp_spec() ==> key_compares(
                f,
                v@[i as int],
                b,
                Ordering::Equal,
            )),
        decreases hi - lo + (if found is None { 1int } else { 0int }),
    {
        let mid = lo + (hi - lo) / 2;
        let k = f(&v[mid]);
        match k.cmp(b) {
            Ordering::Less => lo = mid + 1,
            Ordering::Greater => hi = mid,
            Ordering::Equal => found = Some(mid),
        }
    }
    match found {
        Some(i) => Ok(i),
        None => Err(lo),
    }
}

/// Whether `needle` equals the first elements of `v`.
pub fn starts_with<T: PartialEq>(v: &Vec<T>, needle: &[T]) -> (r: bool)
    ensures
        T::obeys_eq_spec() ==> (r == is_prefix_match(v@, needle@)),
{
    if needle.len() > v.len() {
        return false;
    }
    let mut i: usize = 0;
    while i < needle.len()
        invariant
            needle@.len() <= v@.len(),
            i <= needle@.len(),
            T::obeys_eq_spec() ==> forall|j: int| 0 <= j < i ==> (#[trigger] v@[j]).eq_spec(&needle@[j]),
        decreases needle@.len() - i,
    {
        if !(v[i] == needle[i]) {
            return false;
        }
        i = i + 1;
    }
    true
}

/// Whether `needle` equals the last elements of `v`.
pub fn ends_with<T: PartialEq>(v: &Vec<T>, needle: &[T]) -> (r: bool)
    ensures
        T::obeys_eq_spec() ==> (r == is_suffix_match(v@, needle@)),
{
    if needle.len() > v.len() {
        return false;
    }
    let n: usize = v.len();
    let start: usize = n - needle.len();
    let mut i: usize = 0;
    while i < needle.len()
        invariant
            n == v@.len(),
            needle@.len() <= v@.len(),
            start == v@.len() - needle@.len(),
            start + needle@.len() == v@.len(),
            i <= needle@.len(),
            T::obeys_eq_spec() ==> forall|j: int|
                0 <= j < i ==> (#[trigger] v@[start + j]).eq_spec(&needle@[j]),
        decreases needle@.len() - i,
    {
        let k: usize = start + i;
        if !(v[k] == needle[i]) {
            return false;
        }
        i = i + 1;
    }
    true
}

/// The element at `index`, if there is one.
pub fn get<T>(v: &Vec<T>, index: usize) -> (r: Option<&T>)
    ensures
        match r {
            Some(e) => index < v@.len() && *e == v@[index as int],
            None => index >= v@.len(),
        },
{
    if index < v.len() {
        Some(&v[index])
    } else {
        None
    }
}

/// The last element, if there is one.
pub fn last<T>(v: &Vec<T>) -> (r: Option<&T>)
    ensures
        match r {
            Some(e) => v@.len() > 0 && *e == v@.last(),
            None => v@.len() == 0,
        },
{
    if v.len() == 0 {
        None
    } else {
        get(v, v.len() - 1)
    }
}

/// Relies on `slice::swap`: the elements at `a` and `b` trade places and no
/// other element moves.
#[verifier::external_body]
fn swap_items<T>(v: &mut Vec<T>, a: usize, b: usize)
    requires
        a < old(v)@.len(),
        b < old(v)@.len(),
    ensures
        final(v)@ == old(v)@.update(a as int, old(v)@[b as int]).update(b as int, old(v)@[a as int]),
{
    v.swap(a, b)
}

/// The elements at `a` and `b` trade places.
pub fn swap<T>(v: &mut Vec<T>, a: usize, b: usize)
    requires
        a < old(v)@.len(),
        b < old(v)@.len(),
    ensures
        final(v)@ == old(v)@.update(a as int, old(v)@[b as int]).update(b as int, old(v)@[a as int]),
{
    swap_items(v, a, b)
}

/// Reverses the order of the elements in place.
pub fn reverse<T>(v: &mut Vec<T>)
    ensures
        final(v)@ == old(v)@.reverse(),
{
    let ghost s = v@;
    let n: usize = v.len();
    let mut i: usize = 0;
    while i < n / 2
        invariant
            n == s.len(),
            v@.len() == n,
            i <= n / 2,
            forall|k: int| 0 <= k < i ==> #[trigger] v@[k] == s[n - 1 - k],
            forall|k: int| n - i <= k < n ==> #[trigger] v@[k] == s[n - 1 - k],
            forall|k: int| i <= k < n - i ==> #[trigger] v@[k] == s[k],
        decreases n / 2 - i,
    {
        swap(v, i, n - 1 - i);
        i = i + 1;
    }
    assert(v@ =~= s.reverse());
}

/// One step of the in-place compaction: the element at `read` is either moved
/// to the end of the kept prefix, `write`, or left behind.
proof fn lemma_compact_step<T>(
    s: Seq<T>,
    before: Seq<T>,
    after: Seq<T>,
    keep: Seq<bool>,
    write: int,
    read: int,
    k: bool,
)
    requires
        0 <= write <= read < s.len(),
        before.len() == s.len(),
        keep.len() == read,
        before.take(write) == select(s.take(read), keep),
        before.skip(read) == s.skip(read),
        k && write != read ==> after == before.update(write, before[read]).update(read, before[write]),
        !(k && write != read) ==> after == before,
    ensures
        after.len() == s.len(),
        after.take(if k { write + 1 } else { write }) == select(s.take(read + 1), keep.push(k)),
        after.skip(read + 1) == s.skip(read + 1),
{
    assert(s.take(read + 1).drop_last() =~= s.take(read));
    assert(keep.push(k).drop_last() =~= keep);
    assert(before[read] == before.skip(read)[0]);
    assert(after.take(if k { write + 1 } else { write }) =~= select(s.take(read + 1), keep.push(k)));
    assert forall|j: int| 0 <= j < s.len() - read - 1 implies #[trigger] after.skip(read + 1)[j] == s.skip(
        read + 1,
    )[j] by {
        assert(before.skip(read)[j + 1] == s.skip(read)[j + 1]);
    }
    assert(after.skip(read + 1) =~= s.skip(read + 1));
}

/// Keeps, in order, the elements for which `f` answers `true`; `f` sees
/// each element once, from first to last.
pub fn retain<T, F: FnMut(&T) -> bool>(v: &mut Vec<T>, mut f: F)
    requires
        all_callable(f, old(v)@),
    ensures
        final(v)@.len() <= old(v)@.len(),
        exists|keep: Seq<bool>| is_keep_mask(f, old(v)@, keep) && final(v)@ == select(old(v)@, keep),
{
    let ghost s = v@;
    let ghost f0 = f;
    let ghost mut keep: Seq<bool> = Seq::empty();
    let n: usize = v.len();
    let mut write: usize = 0;
    let mut read: usize = 0;
    while read < n
        invariant
            n == s.len(),
            v@.len() == n,
            write <= read <= n,
            f == f0,
            forall|i: int| 0 <= i < n ==> call_requires(f, (&s[i],)),
            keep.len() == read,
            forall|i: int| 0 <= i < read ==> call_ensures(f, (&s[i],), #[trigger] keep[i]),
            v@.take(write as int) == select(s.take(read as int), keep),
            v@.skip(read as int) == s.skip(read as int),
        decreases n - read,
    {
        assert(v@[read as int] == v@.skip(read as int)[0]);
        let k = f(&v[read]);
        let ghost before = v@;
        let ghost old_write = write;
        if k {
            if write != read {
                swap(v, write, read);
            }
            write = write + 1;
        }
        proof {
            lemma_compact_step(s, before, v@, keep, old_write as int, read as int, k);
            keep = keep.push(k);
        }
        read = read + 1;
    }
    v.truncate(write);
    proof {
        assert(s.take(n as int) =~= s);
        assert(v@ =~= select(s, keep));
        assert(is_keep_mask(f, s, keep));
    }
}

/// Collapses each run of consecutive equal elements to its first element.
pub fn dedup<T: PartialEq>(v: &mut Vec<T>)
    ensures
        final(v)@.len() <= old(v)@.len(),
        T::obeys_eq_spec() ==> final(v)@ == dedup_of(old(v)@),
{
    let ghost s = v@;
    let n: usize = v.len();
    if n <= 1 {
        proof {
            if n == 1 {
                assert(s.drop_last() =~= Seq::<T>::empty());
                assert(dedup_of(s.drop_last()).len() == 0);
                assert(dedup_of(s) =~= s);
            }
        }
        return;
    }
    proof {
        assert(s.take(1).drop_last() =~= Seq::<T>::empty());
        assert(dedup_of(s.take(1).drop_last()).len() == 0);
        assert(dedup_of(s.take(1)) =~= s.take(1));
        assert(v@.take(1) =~= s.take(1));
    }
    let mut write: usize = 1;
    let mut read: usize = 1;
    while read < n
        invariant
            n == s.len(),
            v@.len() == n,
            1 <= write <= read <= n,
            T::obeys_eq_spec() ==> v@.take(write as int) == dedup_of(s.take(read as int)),
            v@.skip(read as int) == s.skip(read as int),
        decreases n - read,
    {
        assert(v@[read as int] == v@.skip(read as int)[0]);
        assert(v@[write - 1] == v@.take(write as int).last());
        let same = v[read] == v[write - 1];
        proof {
            assert(s.take(read + 1).drop_last() =~= s.take(read as int));
        }
        let ghost before = v@;
        if !same {
            if write != read {
                swap(v, write, read);
            }
            write = write + 1;
        }
        proof {
            if T::obeys_eq_spec() {
                assert(v@.take(write as int) =~= dedup_of(s.take(read + 1)));
            }
            assert forall|j: int| 0 <= j < n - read - 1 implies #[trigger] v@.skip(read + 1)[j] == s.skip(
                read + 1,
            )[j] by {
                assert(before.skip(read as int)[j + 1] == s.skip(read as int)[j + 1]);
            }
            assert(v@.skip(read + 1) =~= s.skip(read + 1));
        }
        read = read + 1;
    }
    v.truncate(write);
    proof {
        assert(s.take(n as int) =~= s);
    }
}

/// Selecting the first element alone keeps exactly it.
proof fn lemma_select_first<T>(s: Seq<T>, keep: Seq<bool>)
    requires
        s.len() >= 1,
        keep.len() == s.len(),
        keep[0],
    ensures
        select(s.take(1), keep.take(1)) == s.take(1),
{
    assert(s.take(1).drop_last() =~= Seq::<T>::empty());
    assert(keep.take(1).drop_last() =~= Seq::<bool>::empty());
    assert(select(s.take(1).drop_last(), keep.take(1).drop_last()) =~= Seq::<T>::empty());
    assert(select(s.take(1), keep.take(1)) =~= s.take(1));
}

/// Collapses each run of consecutive elements for which `f` answers `true`,
/// given an element and the last one kept before it, to its first element.
pub fn dedup_by<T, F: FnMut(&T, &T) -> bool>(v: &mut Vec<T>, mut f: F)
    requires
        forall|a: &T, b: &T| call_requires(f, (a, b)),
    ensures
        final(v)@.len() <= old(v)@.len(),
        exists|keep: Seq<bool>| is_dedup_mask(f, old(v)@, keep) && final(v)@ == select(old(v)@, keep),
{
    let ghost s = v@;
    let ghost f0 = f;
    let n: usize = v.len();
    if n == 0 {
        proof {
            assert(is_dedup_mask(f, s, Seq::<bool>::empty()));
            assert(v@ =~= select(s, Seq::<bool>::empty()));
        }
        return;
    }
    let ghost mut keep: Seq<bool> = seq![true];
    proof {
        lemma_select_first(s, Seq::new(n as nat, |i: int| i == 0));
        assert(Seq::new(n as nat, |i: int| i == 0).take(1) =~= keep);
        assert(v@.take(1) =~= s.take(1));
    }
    let mut write: usize = 1;
    let mut read: usize = 1;
    while read < n
        invariant
            n == s.len(),
            v@.len() == n,
            1 <= write <= read <= n,
            f == f0,
            forall|a: &T, b: &T| call_requires(f, (a, b)),
            keep.len() == read,
            keep[0],
            forall|i: int|
                1 <= i < read ==> call_ensures(f, (&s[i], &last_kept(s, keep, i)), !(#[trigger] keep[i])),
            v@.take(write as int) == select(s.take(read as int), keep),
            v@.skip(read as int) == s.skip(read as int),
        decreases n - read,
    {
        assert(v@[read as int] == v@.skip(read as int)[0]);
        assert(v@[write - 1] == v@.take(write as int).last());
        let same = f(&v[read], &v[write - 1]);
        let ghost next = keep.push(!same);
        proof {
            assert(next.take(read as int) =~= keep);
            assert(keep.take(read as int) =~= keep);
            assert forall|i: int| 1 <= i <= read implies last_kept(s, next, i) == last_kept(s, keep, i) by {
                assert(next.take(i) =~= keep.take(i));
            }
        }
        let ghost before = v@;
        let ghost old_write = write;
        if !same {
            if write != read {
                swap(v, write, read);
            }
            write = write + 1;
        }
        proof {
            lemma_compact_step(s, before, v@, keep, old_write as int, read as int, !same);
            keep = next;
        }
        read = read + 1;
    }
    v.truncate(write);
    proof {
        assert(s.take(n as int) =~= s);
        assert(v@ =~= select(s, keep));
        assert(is_dedup_mask(f, s, keep));
    }
}

/// Collapses each run of consecutive elements whose keys, computed by `f`,
/// are equal, to its first element.
pub fn dedup_by_key<T, K: PartialEq, F: FnMut(&T) -> K>(v: &mut Vec<T>, mut f: F)
    requires
        forall|a: &T| call_requires(f, (a,)),
    ensures
        final(v)@.len() <= old(v)@.len(),
        exists|keep: Seq<bool>, keys: Seq<(K, K)>|
            is_dedup_key_mask(f, old(v)@, keep, keys) && final(v)@ == select(old(v)@, keep),
{
    let ghost s = v@;
    let ghost f0 = f;
    let n: usize = v.len();
    if n == 0 {
        proof {
            assert(is_dedup_key_mask(f, s, Seq::<bool>::empty(), Seq::<(K, K)>::empty()));
            assert(v@ =~= select(s, Seq::<bool>::empty()));
        }
        return;
    }
    let ghost mut keep: Seq<bool> = seq![true];
    let ghost mut keys: Seq<(K, K)> = Seq::empty();
    proof {
        lemma_select_first(s, Seq::new(n as nat, |i: int| i == 0));
        assert(Seq::new(n as nat, |i: int| i == 0).take(1) =~= keep);
        assert(v@.take(1) =~= s.take(1));
    }
    let mut write: usize = 1;
    let mut read: usize = 1;
    while read < n
        invariant
            n == s.len(),
            v@.len() == n,
            1 <= write <= read <= n,
            f == f0,
            forall|a: &T| call_requires(f, (a,)),
            keep.len() == read,
            keys.len() + 1 == read,
            keep[0],
            forall|i: int|
                1 <= i < read ==> {
                    &&& call_ensures(f, (&s[i],), (#[trigger] keys[i - 1]).0)
                    &&& call_ensures(f, (&last_kept(s, keep, i),), keys[i - 1].1)
                    &&& K::obeys_eq_spec() ==> (keep[i] == !keys[i - 1].0.eq_spec(&keys[i - 1].1))
                },
            v@.take(write as int) == select(s.take(read as int), keep),
            v@.skip(read as int) == s.skip(read as int),
        decreases n - read,
    {
        assert(v@[read as int] == v@.skip(read as int)[0]);
        assert(v@[write - 1] == v@.take(write as int).last());
        let current = f(&v[read]);
        let kept = f(&v[write - 1]);
        let same = current == kept;
        let ghost next = keep.push(!same);
        let ghost next_keys = keys.push((current, kept));
        proof {
            assert(next.take(read as int) =~= keep);
            assert(keep.take(read as int) =~= keep);
            assert forall|i: int| 1 <= i <= read implies last_kept(s, next, i) == last_kept(s, keep, i) by {
                assert(next.take(i) =~= keep.take(i));
            }
            assert forall|i: int| 1 <= i < read implies next_keys[i - 1] == keys[i - 1] && next[i] == keep[i] by {}
        }
        let ghost before = v@;
        let ghost old_write = write;
        if !same {
            if write != read {
                swap(v, write, read);
            }
            write = write + 1;
        }
        proof {
            lemma_compact_step(s, before, v@, keep, old_write as int, read as int, !same);
            keep = next;
            keys = next_keys;
        }
        read = read + 1;
    }
    v.truncate(write);
    proof {
        assert(s.take(n as int) =~= s);
        assert(v@ =~= select(s, keep));
        assert(is_dedup_key_mask(f, s, keep, keys));
    }
}

/// Puts a clone of `value` in every slot.
pub fn fill<T: Clone>(v: &mut Vec<T>, value: T)
    ensures
        final(v)@.len() == old(v)@.len(),
        forall|i: int| 0 <= i < old(v)@.len() ==> cloned(value, #[trigger] final(v)@[i]),
{
    let n: usize = v.len();
    let mut i: usize = 0;
    while i < n
        invariant
            v@.len() == n,
            i <= n,
            forall|j: int| 0 <= j < i ==> cloned(value, #[trigger] v@[j]),
        decreases n - i,
    {
        v.set(i, value.clone());
        i = i + 1;
    }
}

/// Puts in every slot, from first to last, a value that `f` makes.
pub fn fill_with<T, F: FnMut() -> T>(v: &mut Vec<T>, mut f: F)
    requires
        call_requires(f, ()),
    ensures
        final(v)@.len() == old(v)@.len(),
        forall|i: int| 0 <= i < old(v)@.len() ==> call_ensures(f, (), #[trigger] final(v)@[i]),
{
    let ghost f0 = f;
    let n: usize = v.len();
    let mut i: usize = 0;
    while i < n
        invariant
            v@.len() == n,
            i <= n,
            f == f0,
            call_requires(f, ()),
            forall|j: int| 0 <= j < i ==> call_ensures(f, (), #[trigger] v@[j]),
        decreases n - i,
    {
        v.set(i, f());
        i = i + 1;
    }
}

/// Relies on `Vec::capacity`: the number of elements the vector can hold
/// without reallocating, never fewer than it holds.
#[verifier::external_body]
fn vec_capacity<T>(v: &Vec<T>) -> (r: usize)
    ensures
        r >= v@.len(),
{
    v.capacity()
}

/// Relies on `Vec::shrink_to_fit`: only the capacity changes, never the
/// elements.
#[verifier::external_body]
fn vec_shrink_to_fit<T>(v: &mut Vec<T>)
    ensures
        final(v)@ == old(v)@,
{
    v.shrink_to_fit()
}

/// Relies on `slice::sort`: a stable sort into ascending order by `Ord`; it
/// may panic only where `Ord` is not a total order.
#[verifier::external_body]
fn sort_stable<T: Ord>(v: &mut Vec<T>)
    requires
        obeys_cmp::<T>(),
    ensures
        final(v)@.to_multiset() == old(v)@.to_multiset(),
        is_sorted(final(v)@),
{
    v.sort()
}

/// Relies on `slice::sort_unstable`: a sort into ascending order by `Ord`; it
/// may panic only where `Ord` is not a total order.
#[verifier::external_body]
fn sort_fast<T: Ord>(v: &mut Vec<T>)
    requires
        obeys_cmp::<T>(),
    ensures
        final(v)@.to_multiset() == old(v)@.to_multiset(),
        is_sorted(final(v)@),
{
    v.sort_unstable()
}

/// Relies on `slice::sort_by`: a stable sort by `compare`; it may panic only
/// where `compare` is not a total order.
#[verifier::external_body]
fn sort_stable_by<T, F: FnMut(&T, &T) -> Ordering>(v: &mut Vec<T>, compare: F)
    requires
        is_total_order_by(compare),
    ensures
        final(v)@.to_multiset() == old(v)@.to_multiset(),
        is_sorted_by(compare, final(v)@),
{
    v.sort_by(compare)
}

/// Relies on `slice::sort_unstable_by`: a sort by `compare`; it may panic only
/// where `compare` is not a total order.
#[verifier::external_body]
fn sort_fast_by<T, F: FnMut(&T, &T) -> Ordering>(v: &mut Vec<T>, compare: F)
    requires
        is_total_order_by(compare),
    ensures
        final(v)@.to_multiset() == old(v)@.to_multiset(),
        is_sorted_by(compare, final(v)@),
{
    v.sort_unstable_by(compare)
}

/// Relies on `slice::sort_by_key`: a stable sort by the keys that `f`
/// computes; it may panic only where `Ord` on the keys is not a total order.
#[verifier::external_body]
fn sort_stable_by_key<T, K: Ord, F: FnMut(&T) -> K>(v: &mut Vec<T>, f: F)
    requires
        forall|a: &T| call_requires(f, (a,)),
        obeys_cmp::<K>(),
    ensures
        final(v)@.to_multiset() == old(v)@.to_multiset(),
        is_key_fn(f) ==> is_sorted_by_key(f, final(v)@),
{
    v.sort_by_key(f)
}

/// Relies on `slice::sort_unstable_by_key`: a sort by the keys that `f`
/// computes; it may panic only where `Ord` on the keys is not a total order.
#[verifier::external_body]
fn sort_fast_by_key<T, K: Ord, F: FnMut(&T) -> K>(v: &mut Vec<T>, f: F)
    requires
        forall|a: &T| call_requires(f, (a,)),
        obeys_cmp::<K>(),
    ensures
        final(v)@.to_multiset() == old(v)@.to_multiset(),
        is_key_fn(f) ==> is_sorted_by_key(f, final(v)@),
{
    v.sort_unstable_by_key(f)
}

/// The number of elements.
pub fn len<T>(v: &Vec<T>) -> (r: usize)
    ensures
        r == v@.len(),
{
    v.len()
}

/// Drops every element.
pub fn clear<T>(v: &mut Vec<T>)
    ensures
        final(v)@ == Seq::<T>::empty(),
{
    v.clear()
}

/// The first element, if there is one.
pub fn first<T>(v: &Vec<T>) -> (r: Option<&T>)
    ensures
        match r {
            Some(e) => v@.len() > 0 && *e == v@[0],
            None => v@.len() == 0,
        },
{
    get(v, 0)
}

/// How many elements fit before the vector must reallocate.
pub fn capacity<T>(v: &Vec<T>) -> (r: usize)
    ensures
        r >= v@.len(),
{
    vec_capacity(v)
}

/// Appends `item` after reserving room for it; where no room can be had,
/// hands `item` back in `Error::InsertFailed` and changes nothing.
pub fn push<T>(v: &mut Vec<T>, item: T) -> (r: Result<(), Error<T>>)
    ensures
        match r {
            Ok(()) => final(v)@ == old(v)@.push(item),
            Err(e) => e == Error::InsertFailed(item) && final(v)@ == old(v)@,
        },
{
    match v.try_reserve(1) {
        Ok(()) => {
            v.push(item);
            Ok(())
        },
        Err(_) => Err(Error::InsertFailed(item)),
    }
}

/// Removes and returns the last element.
pub fn pop<T>(v: &mut Vec<T>) -> (r: Option<T>)
    ensures
        old(v)@.len() > 0 ==> r == Some(old(v)@.last()) && final(v)@ == old(v)@.drop_last(),
        old(v)@.len() == 0 ==> r is None && final(v)@ == old(v)@,
{
    v.pop()
}

/// The element at `index`, to change in place.
pub fn get_mut<T>(v: &mut Vec<T>, index: usize) -> (r: Option<&mut T>)
    ensures
        match r {
            Some(e) => index < old(v)@.len() && *e == old(v)@[index as int] && final(v)@ == old(
                v,
            )@.update(index as int, *final(e)),
            None => index >= old(v)@.len() && final(v)@ == old(v)@,
        },
{
    if index < v.len() {
        Some(&mut v[index])
    } else {
        None
    }
}

/// The first element, to change in place.
pub fn first_mut<T>(v: &mut Vec<T>) -> (r: Option<&mut T>)
    ensures
        match r {
            Some(e) => old(v)@.len() > 0 && *e == old(v)@[0] && final(v)@ == old(v)@.update(
                0,
                *final(e),
            ),
            None => old(v)@.len() == 0 && final(v)@ == old(v)@,
        },
{
    get_mut(v, 0)
}

/// The last element, to change in place.
pub fn last_mut<T>(v: &mut Vec<T>) -> (r: Option<&mut T>)
    ensures
        match r {
            Some(e) => old(v)@.len() > 0 && *e == old(v)@.last() && final(v)@ == old(v)@.update(
                old(v)@.len() - 1,
                *final(e),
            ),
            None => old(v)@.len() == 0 && final(v)@ == old(v)@,
        },
{
    let n = v.len();
    if n > 0 {
        get_mut(v, n - 1)
    } else {
        None
    }
}

/// Puts `element` at `index` after reserving room for it; where no room
/// can be had, hands `element` back in `Error::InsertFailed` and changes
/// nothing.
pub fn insert<T>(v: &mut Vec<T>, index: usize, element: T) -> (r: Result<(), Error<T>>)
    requires
        index <= old(v)@.len(),
    ensures
        match r {
            Ok(()) => final(v)@ == old(v)@.insert(index as int, element),
            Err(e) => e == Error::InsertFailed(element) && final(v)@ == old(v)@,
        },
{
    match v.try_reserve(1) {
        Ok(()) => {
            v.insert(index, element);
            Ok(())
        },
        Err(_) => Err(Error::InsertFailed(element)),
    }
}

/// Removes the element at `index`, keeping the order of the rest.
pub fn remove<T>(v: &mut Vec<T>, index: usize) -> (r: T)
    requires
        index < old(v)@.len(),
    ensures
        r == old(v)@[index as int],
        final(v)@ == old(v)@.remove(index as int),
{
    v.remove(index)
}

/// Removes the element at `index` and puts the last element in its place.
pub fn swap_remove<T>(v: &mut Vec<T>, index: usize) -> (r: T)
    requires
        index < old(v)@.len(),
    ensures
        r == old(v)@[index as int],
        final(v)@ == old(v)@.update(index as int, old(v)@.last()).drop_last(),
{
    v.swap_remove(index)
}

/// Keeps the first `len` elements; does nothing where there are fewer.
pub fn truncate<T>(v: &mut Vec<T>, len: usize)
    ensures
        final(v)@ == if len < old(v)@.len() {
            old(v)@.take(len as int)
        } else {
            old(v)@
        },
{
    v.truncate(len)
}

/// Moves every element of `other` to the end of `v` after reserving room
/// for them; where no room can be had, reports `Error::CapacityExceeded`
/// and leaves both as they were.
pub fn append<T>(v: &mut Vec<T>, other: &mut Vec<T>) -> (r: Result<(), Error<T>>)
    ensures
        match r {
            Ok(()) => final(v)@ == old(v)@ + old(other)@ && final(other)@ == Seq::<T>::empty(),
            Err(e) => e == Error::<T>::CapacityExceeded && final(v)@ == old(v)@ && final(other)@
                == old(other)@,
        },
{
    match v.try_reserve(other.len()) {
        Ok(()) => {
            v.append(other);
            Ok(())
        },
        Err(_) => Err(Error::CapacityExceeded),
    }
}

/// Moves the elements from `at` on into a new vector.
pub fn split_off<T>(v: &mut Vec<T>, at: usize) -> (r: Vec<T>)
    requires
        at <= old(v)@.len(),
    ensures
        final(v)@ == old(v)@.take(at as int),
        r@ == old(v)@.skip(at as int),
{
    v.split_off(at)
}

/// Asks for room for `additional` more elements; the elements stay as they
/// are either way.
pub fn reserve<T>(v: &mut Vec<T>, additional: usize) -> (r: Result<(), CapacityError>)
    ensures
        final(v)@ == old(v)@,
{
    match v.try_reserve(additional) {
        Ok(()) => Ok(()),
        Err(_) => Err(CapacityError),
    }
}

/// Gives back room that the elements do not use.
pub fn shrink_to_fit<T>(v: &mut Vec<T>)
    ensures
        final(v)@ == old(v)@,
{
    vec_shrink_to_fit(v)
}

/// Makes the length `new_len`: drops trailing elements, or appends clones
/// of `value` after reserving room for them.
pub fn resize<T: Clone>(v: &mut Vec<T>, new_len: usize, value: T) -> (r: Result<(), Error<T>>)
    ensures
        new_len <= old(v)@.len() ==> r is Ok,
        match r {
            Ok(()) => {
                &&& final(v)@.len() == new_len
                &&& new_len <= old(v)@.len() ==> final(v)@ == old(v)@.take(new_len as int)
                &&& new_len > old(v)@.len() ==> final(v)@.take(old(v)@.len() as int) == old(v)@
                &&& forall|i: int|
                    old(v)@.len() <= i < new_len ==> cloned(value, #[trigger] final(v)@[i])
            },
            Err(e) => e == Error::<T>::CapacityExceeded && final(v)@ == old(v)@,
        },
{
    let n = v.len();
    let room = if new_len > n {
        v.try_reserve(new_len - n).is_ok()
    } else {
        true
    };
    if room {
        v.resize(new_len, value);
        Ok(())
    } else {
        Err(Error::CapacityExceeded)
    }
}

/// Makes the length `new_len`: drops trailing elements, or appends values
/// that `f` makes, one call for each new slot, after reserving room for
/// them.
pub fn resize_with<T, F: FnMut() -> T>(v: &mut Vec<T>, new_len: usize, f: F) -> (r: Result<
    (),
    Error<T>,
>)
    requires
        call_requires(f, ()),
    ensures
        new_len <= old(v)@.len() ==> r is Ok,
        match r {
            Ok(()) => {
                &&& final(v)@.len() == new_len
                &&& new_len <= old(v)@.len() ==> final(v)@ == old(v)@.take(new_len as int)
                &&& new_len > old(v)@.len() ==> final(v)@.take(old(v)@.len() as int) == old(v)@
                &&& forall|i: int|
                    old(v)@.len() <= i < new_len ==> call_ensures(f, (), #[trigger] final(v)@[i])
            },
            Err(e) => e == Error::<T>::CapacityExceeded && final(v)@ == old(v)@,
        },
{
    let ghost start = v@;
    let n = v.len();
    if new_len <= n {
        v.truncate(new_len);
        Ok(())
    } else if v.try_reserve(new_len - n).is_err() {
        Err(Error::CapacityExceeded)
    } else {
        let mut make = f;
        let mut i: usize = n;
        while i < new_len
            invariant
                n == start.len(),
                n <= i <= new_len,
                v@.len() == i,
                v@.take(n as int) == start,
                make == f,
                call_requires(make, ()),
                forall|j: int| n <= j < i ==> call_ensures(make, (), #[trigger] v@[j]),
            decreases new_len - i,
        {
            let x = make();
            v.push(x);
            proof {
                assert(v@.take(n as int) =~= start);
            }
            i = i + 1;
        }
        Ok(())
    }
}

/// Sorts by `Ord`, keeping equal elements in their order.
pub fn sort<T: Ord>(v: &mut Vec<T>)
    requires
        obeys_cmp::<T>(),
    ensures
        final(v)@.to_multiset() == old(v)@.to_multiset(),
        is_sorted(final(v)@),
{
    sort_stable(v)
}

/// Sorts by `Ord`; equal elements may change order.
pub fn sort_unstable<T: Ord>(v: &mut Vec<T>)
    requires
        obeys_cmp::<T>(),
    ensures
        final(v)@.to_multiset() == old(v)@.to_multiset(),
        is_sorted(final(v)@),
{
    sort_fast(v)
}

/// Sorts by `compare`, keeping equal elements in their order.
pub fn sort_by<T, F: FnMut(&T, &T) -> Ordering>(v: &mut Vec<T>, compare: F)
    requires
        is_total_order_by(compare),
    ensures
        final(v)@.to_multiset() == old(v)@.to_multiset(),
        is_sorted_by(compare, final(v)@),
{
    sort_stable_by(v, compare)
}

/// Sorts by `compare`; equal elements may change order.
pub fn sort_unstable_by<T, F: FnMut(&T, &T) -> Ordering>(v: &mut Vec<T>, compare: F)
    requires
        is_total_order_by(compare),
    ensures
        final(v)@.to_multiset() == old(v)@.to_multiset(),
        is_sorted_by(compare, final(v)@),
{
    sort_fast_by(v, compare)
}

/// Sorts by the keys that `f` computes, keeping elements with equal keys in
/// their order.
pub fn sort_by_key<T, K: Ord, F: FnMut(&T) -> K>(v: &mut Vec<T>, f: F)
    requires
        forall|a: &T| call_requires(f, (a,)),
        obeys_cmp::<K>(),
    ensures
        final(v)@.to_multiset() == old(v)@.to_multiset(),
        is_key_fn(f) ==> is_sorted_by_key(f, final(v)@),
{
    sort_stable_by_key(v, f)
}

/// Sorts by the keys that `f` computes; elements with equal keys may change
/// order.
pub fn sort_unstable_by_key<T, K: Ord, F: FnMut(&T) -> K>(v: &mut Vec<T>, f: F)
    requires
        forall|a: &T| call_requires(f, (a,)),
        obeys_cmp::<K>(),
    ensures
        final(v)@.to_multiset() == old(v)@.to_multiset(),
        is_key_fn(f) ==> is_sorted_by_key(f, final(v)@),
{
    sort_fast_by_key(v, f)
}

} // verus!
