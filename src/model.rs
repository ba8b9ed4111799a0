//! The mathematical model that the contracts speak in: a container is the
//! sequence of its elements, and the rearranging operations are described
//! as functions on sequences.
use vstd::prelude::*;
use vstd::std_specs::cmp::{OrdSpec, PartialEqSpec};

use core::cmp::Ordering;

verus! {

/// The elements of `s` at the positions where `keep` holds, in their order.
pub open spec fn select<T>(s: Seq<T>, keep: Seq<bool>) -> Seq<T>
    decreases s.len(),
{
    if s.len() == 0 || keep.len() != s.len() {
        Seq::empty()
    } else {
        let rest = select(s.drop_last(), keep.drop_last());
        if keep.last() {
            rest.push(s.last())
        } else {
            rest
        }
    }
}

/// `s` with each run of consecutive equal elements collapsed to its first
/// element; an element is compared with the last element kept before it.
pub open spec fn dedup_of<T: PartialEq>(s: Seq<T>) -> Seq<T>
    decreases s.len(),
{
    if s.len() == 0 {
        s
    } else {
        let d = dedup_of(s.drop_last());
        if d.len() > 0 && s.last().eq_spec(&d.last()) {
            d
        } else {
            d.push(s.last())
        }
    }
}

/// Each element is ordered no later than its successor.
pub open spec fn is_sorted<T: Ord>(s: Seq<T>) -> bool {
    forall|i: int| 0 < i < s.len() ==> (#[trigger] s[i - 1].cmp_spec(&s[i])) != Ordering::Greater
}

/// Some element of `s` equals `x`.
pub open spec fn has_match<T: PartialEq>(s: Seq<T>, x: &T) -> bool {
    exists|i: int| 0 <= i < s.len() && (#[trigger] s[i]).eq_spec(x)
}

/// `f` may be called on every element of `s`.
pub open spec fn all_callable<T, R, F: FnMut(&T) -> R>(f: F, s: Seq<T>) -> bool {
    forall|i: int| 0 <= i < s.len() ==> call_requires(f, (&s[i],))
}

/// `r` is the position of the first element of `s` equal to `x`, or `None`
/// where there is none.
pub open spec fn is_first_match<T: PartialEq>(s: Seq<T>, x: &T, r: Option<usize>) -> bool {
    match r {
        Some(i) => i < s.len() && s[i as int].eq_spec(x) && forall|j: int|
            0 <= j < i ==> !(#[trigger] s[j]).eq_spec(x),
        None => forall|j: int| 0 <= j < s.len() ==> !(#[trigger] s[j]).eq_spec(x),
    }
}

/// `needle` equals the first elements of `s`, element by element.
pub open spec fn is_prefix_match<T: PartialEq>(s: Seq<T>, needle: Seq<T>) -> bool {
    needle.len() <= s.len() && forall|i: int| 0 <= i < needle.len() ==> (#[trigger] s[i]).eq_spec(&needle[i])
}

/// `needle` equals the last elements of `s`, element by element.
pub open spec fn is_suffix_match<T: PartialEq>(s: Seq<T>, needle: Seq<T>) -> bool {
    needle.len() <= s.len() && forall|i: int|
        0 <= i < needle.len() ==> (#[trigger] s[s.len() - needle.len() + i]).eq_spec(&needle[i])
}

/// Some element of `s` compares equal to `x`.
pub open spec fn has_equal<T: Ord>(s: Seq<T>, x: &T) -> bool {
    exists|k: int| 0 <= k < s.len() && (#[trigger] s[k].cmp_spec(x)) == Ordering::Equal
}

/// What a binary search for `x` in `s` may answer: `Ok(i)` where `s[i]`
/// compares equal to `x`; `Err(j)` where the element before `j` is less
/// than `x` and the one at `j` greater, so that `x` fits in at `j`.
pub open spec fn is_search_answer<T: Ord>(s: Seq<T>, x: &T, r: Result<usize, usize>) -> bool {
    match r {
        Ok(i) => i < s.len() && s[i as int].cmp_spec(x) == Ordering::Equal,
        Err(j) => j <= s.len() && (j > 0 ==> s[j - 1].cmp_spec(x) == Ordering::Less) && (j
            < s.len() ==> s[j as int].cmp_spec(x) == Ordering::Greater),
    }
}

/// What a binary search steered by `f` may answer: `Ok(i)` where `f` may
/// answer `Equal` for `s[i]`; `Err(j)` where it may answer `Less` for the
/// element before `j` and `Greater` for the one at `j`.
pub open spec fn is_search_answer_by<T, F: FnMut(&T) -> Ordering>(
    s: Seq<T>,
    f: F,
    r: Result<usize, usize>,
) -> bool {
    match r {
        Ok(i) => i < s.len() && call_ensures(f, (&s[i as int],), Ordering::Equal),
        Err(j) => j <= s.len() && (j > 0 ==> call_ensures(f, (&s[j - 1],), Ordering::Less))
            && (j < s.len() ==> call_ensures(f, (&s[j as int],), Ordering::Greater)),
    }
}

/// `f` may give `e` a key that compares to `b` as `o`.
pub open spec fn key_compares<T, B: Ord, F: FnMut(&T) -> B>(
    f: F,
    e: T,
    b: &B,
    o: Ordering,
) -> bool {
    exists|k: B| call_ensures(f, (&e,), k) && k.cmp_spec(b) == o
}

/// What a binary search by the key that `f` computes may answer.
pub open spec fn is_search_answer_by_key<T, B: Ord, F: FnMut(&T) -> B>(
    s: Seq<T>,
    b: &B,
    f: F,
    r: Result<usize, usize>,
) -> bool {
    match r {
        Ok(i) => i < s.len() && key_compares(f, s[i as int], b, Ordering::Equal),
        Err(j) => j <= s.len() && (j > 0 ==> key_compares(f, s[j - 1], b, Ordering::Less))
            && (j < s.len() ==> key_compares(f, s[j as int], b, Ordering::Greater)),
    }
}

/// `keep` records, for each element of `s`, an answer that `f` may give for
/// it.
pub open spec fn is_keep_mask<T, F: FnMut(&T) -> bool>(f: F, s: Seq<T>, keep: Seq<bool>) -> bool {
    &&& keep.len() == s.len()
    &&& forall|i: int| 0 <= i < s.len() ==> call_ensures(f, (&s[i],), #[trigger] keep[i])
}

/// The element kept last among the first `i` elements of `s`.
pub open spec fn last_kept<T>(s: Seq<T>, keep: Seq<bool>, i: int) -> T {
    select(s.take(i), keep.take(i)).last()
}

/// `keep` is how a dedup steered by `f` may have decided: the first element
/// stays, and each later one goes exactly where `f`, given it and the last
/// element kept before it, may answer `true`.
pub open spec fn is_dedup_mask<T, F: FnMut(&T, &T) -> bool>(
    f: F,
    s: Seq<T>,
    keep: Seq<bool>,
) -> bool {
    &&& keep.len() == s.len()
    &&& s.len() > 0 ==> keep[0]
    &&& forall|i: int|
        1 <= i < s.len() ==> call_ensures(f, (&s[i], &last_kept(s, keep, i)), !(#[trigger] keep[i]))
}

/// `keep` is how a dedup by the key that `f` computes may have decided: the
/// first element stays, and a later one goes where its key equals the key of
/// the last element kept before it. `keys[i - 1]` holds the two keys that
/// were compared for element `i`.
pub open spec fn is_dedup_key_mask<T, K: PartialEq, F: FnMut(&T) -> K>(
    f: F,
    s: Seq<T>,
    keep: Seq<bool>,
    keys: Seq<(K, K)>,
) -> bool {
    &&& keep.len() == s.len()
    &&& s.len() > 0 ==> keep[0] && keys.len() + 1 == s.len()
    &&& forall|i: int|
        1 <= i < s.len() ==> {
            &&& call_ensures(f, (&s[i],), (#[trigger] keys[i - 1]).0)
            &&& call_ensures(f, (&last_kept(s, keep, i),), keys[i - 1].1)
            &&& K::obeys_eq_spec() ==> (keep[i] == !keys[i - 1].0.eq_spec(&keys[i - 1].1))
        }
}

/// `o` read from the other side: `Less` and `Greater` swap.
pub open spec fn flipped(o: Ordering) -> Ordering {
    match o {
        Ordering::Less => Ordering::Greater,
        Ordering::Equal => Ordering::Equal,
        Ordering::Greater => Ordering::Less,
    }
}

/// `f` compares like a total order: it may be called on any pair, answers
/// one way for each pair and the opposite way for the swapped pair, and
/// where `a` is not after `b` nor `b` after `c`, `a` is not after `c`
/// (equal only where both steps were equal).
pub open spec fn is_total_order_by<T, F: FnMut(&T, &T) -> Ordering>(f: F) -> bool {
    &&& forall|a: &T, b: &T| call_requires(f, (a, b))
    &&& forall|a: &T, b: &T, o1: Ordering, o2: Ordering|
        call_ensures(f, (a, b), o1) && call_ensures(f, (a, b), o2) ==> o1 == o2
    &&& forall|a: &T, b: &T, o: Ordering|
        call_ensures(f, (a, b), o) ==> call_ensures(f, (b, a), flipped(o))
    &&& forall|a: &T, b: &T, c: &T, o1: Ordering, o2: Ordering|
        o1 != Ordering::Greater && o2 != Ordering::Greater && #[trigger] call_ensures(
            f,
            (a, b),
            o1,
        ) && #[trigger] call_ensures(f, (b, c), o2) ==> call_ensures(
            f,
            (a, c),
            if o1 == Ordering::Equal && o2 == Ordering::Equal {
                Ordering::Equal
            } else {
                Ordering::Less
            },
        )
}

/// `f` never answers `Greater` for an element and its successor.
pub open spec fn is_sorted_by<T, F: FnMut(&T, &T) -> Ordering>(f: F, s: Seq<T>) -> bool {
    forall|i: int, o: Ordering|
        0 < i < s.len() && #[trigger] call_ensures(f, (&s[i - 1], &s[i]), o) ==> o
            != Ordering::Greater
}

/// `f` gives each element one key.
pub open spec fn is_key_fn<T, K, F: FnMut(&T) -> K>(f: F) -> bool {
    &&& forall|a: &T| call_requires(f, (a,))
    &&& forall|a: &T, k1: K, k2: K| call_ensures(f, (a,), k1) && call_ensures(f, (a,), k2) ==> k1 == k2
}

/// The key of each element is ordered no later than the key of its
/// successor.
pub open spec fn is_sorted_by_key<T, K: Ord, F: FnMut(&T) -> K>(f: F, s: Seq<T>) -> bool {
    forall|i: int, k1: K, k2: K|
        0 < i < s.len() && #[trigger] call_ensures(f, (&s[i - 1],), k1) && #[trigger] call_ensures(
            f,
            (&s[i],),
            k2,
        ) ==> k1.cmp_spec(&k2) != Ordering::Greater
}

} // verus!
