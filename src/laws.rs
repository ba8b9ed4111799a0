//! Properties that hold across calls, stated over the model that the
//! operations' contracts use.
use vstd::prelude::*;
use vstd::laws_cmp::{
    obeys_cmp, obeys_cmp_ord, obeys_cmp_partial_ord, obeys_partial_cmp_spec_properties,
};
use vstd::laws_eq::obeys_eq_spec_properties;
use vstd::std_specs::cmp::{OrdSpec, PartialOrdSpec};

use core::cmp::Ordering;

use crate::model::is_sorted;

verus! {

/// Pushing values one after another onto an empty container, each push
/// succeeding, leaves exactly those values, in the order they were pushed:
/// `states[i]` is the content before the push of `values[i]`.
pub proof fn law_pushes_keep_order<T>(states: Seq<Seq<T>>, values: Seq<T>)
    requires
        states.len() == values.len() + 1,
        states[0] == Seq::<T>::empty(),
        forall|i: int| 0 <= i < values.len() ==> #[trigger] states[i + 1] == states[i].push(values[i]),
    ensures
        states.last() == values,
    decreases values.len(),
{
    if values.len() > 0 {
        let n = values.len() - 1;
        law_pushes_keep_order(states.take(n + 1), values.take(n));
        assert(states.take(n + 1).last() == states[n]);
        assert(states[n + 1] == states[n].push(values[n]));
        assert(values.take(n).push(values[n]) =~= values);
    } else {
        assert(values =~= Seq::<T>::empty());
    }
}

/// A successful push followed by a pop gives back the pushed value and the
/// content from before the push.
pub proof fn law_push_then_pop<T>(s: Seq<T>, v: T)
    ensures
        s.push(v).len() == s.len() + 1,
        s.push(v).last() == v,
        s.push(v).drop_last() == s,
{
    assert(s.push(v).drop_last() =~= s);
}

/// In a sorted sequence, a value that is greater than the element before
/// `j` and less than the element at `j` can be inserted at `j` without
/// breaking the order.
pub proof fn law_insert_at_gap_keeps_sorted<T: Ord>(s: Seq<T>, x: T, j: int)
    requires
        obeys_cmp::<T>(),
        is_sorted(s),
        0 <= j <= s.len(),
        j > 0 ==> s[j - 1].cmp_spec(&x) == Ordering::Less,
        j < s.len() ==> s[j].cmp_spec(&x) == Ordering::Greater,
    ensures
        is_sorted(s.insert(j, x)),
{
    reveal(obeys_partial_cmp_spec_properties);
    reveal(obeys_cmp_ord);
    let t = s.insert(j, x);
    assert forall|i: int| 0 < i < t.len() implies (#[trigger] t[i - 1].cmp_spec(&t[i]))
        != Ordering::Greater by {
        if i < j {
            assert(t[i - 1] == s[i - 1] && t[i] == s[i]);
            assert(s[i - 1].cmp_spec(&s[i]) != Ordering::Greater);
        } else if i == j {
            assert(t[i - 1] == s[j - 1] && t[i] == x);
        } else if i == j + 1 {
            assert(t[i - 1] == x && t[i] == s[j]);
            assert(s[j].partial_cmp_spec(&x) == Some(Ordering::Greater));
            assert(x.partial_cmp_spec(&s[j]) == Some(Ordering::Less));
        } else {
            let k = i - 1;
            assert(t[i - 1] == s[k - 1] && t[i] == s[k]);
            assert(s[k - 1].cmp_spec(&s[k]) != Ordering::Greater);
        }
    }
}

/// Under a lawful `Ord`, "not after" carries over from `a, b` and `b, c` to
/// `a, c`, and is strict where either step is.
proof fn lemma_cmp_chain<T: Ord>(a: T, b: T, c: T)
    requires
        obeys_cmp::<T>(),
        a.cmp_spec(&b) != Ordering::Greater,
        b.cmp_spec(&c) != Ordering::Greater,
    ensures
        a.cmp_spec(&c) != Ordering::Greater,
        a.cmp_spec(&b) == Ordering::Less || b.cmp_spec(&c) == Ordering::Less ==> a.cmp_spec(&c)
            == Ordering::Less,
{
    reveal(obeys_partial_cmp_spec_properties);
    reveal(obeys_cmp_ord);
    reveal(obeys_cmp_partial_ord);
    reveal(obeys_eq_spec_properties);
    assert(a.partial_cmp_spec(&b) == Some(a.cmp_spec(&b)));
    assert(b.partial_cmp_spec(&c) == Some(b.cmp_spec(&c)));
    assert(a.partial_cmp_spec(&c) == Some(a.cmp_spec(&c)));
    assert(c.partial_cmp_spec(&a) == Some(c.cmp_spec(&a)));
    assert(b.partial_cmp_spec(&a) == Some(b.cmp_spec(&a)));
    assert(c.partial_cmp_spec(&b) == Some(c.cmp_spec(&b)));
}

/// In a sorted sequence no element is after a later one.
proof fn lemma_sorted_pair<T: Ord>(s: Seq<T>, a: int, b: int)
    requires
        obeys_cmp::<T>(),
        is_sorted(s),
        0 <= a <= b < s.len(),
    ensures
        s[a].cmp_spec(&s[b]) != Ordering::Greater,
    decreases b - a,
{
    if a == b {
        reveal(obeys_partial_cmp_spec_properties);
        reveal(obeys_cmp_ord);
        reveal(obeys_cmp_partial_ord);
        reveal(obeys_eq_spec_properties);
        assert(s[a].partial_cmp_spec(&s[a]) == Some(s[a].cmp_spec(&s[a])));
        assert(s[a].partial_cmp_spec(&s[a]) == Some(Ordering::Greater) ==> s[a].partial_cmp_spec(&s[a])
            == Some(Ordering::Less));
    } else {
        lemma_sorted_pair(s, a, b - 1);
        assert(s[b - 1].cmp_spec(&s[b]) != Ordering::Greater);
        lemma_cmp_chain(s[a], s[b - 1], s[b]);
    }
}

/// A value that falls in a gap of a sorted sequence, after the element
/// before `j` and before the element at `j`, equals none of its elements.
pub proof fn law_gap_value_is_absent<T: Ord>(s: Seq<T>, x: T, j: int)
    requires
        obeys_cmp::<T>(),
        is_sorted(s),
        0 <= j <= s.len(),
        j > 0 ==> s[j - 1].cmp_spec(&x) == Ordering::Less,
        j < s.len() ==> s[j].cmp_spec(&x) == Ordering::Greater,
    ensures
        forall|k: int| 0 <= k < s.len() ==> (#[trigger] s[k].cmp_spec(&x)) != Ordering::Equal,
{
    reveal(obeys_partial_cmp_spec_properties);
    reveal(obeys_cmp_ord);
    assert forall|k: int| 0 <= k < s.len() implies (#[trigger] s[k].cmp_spec(&x)) != Ordering::Equal by {
        if k < j {
            lemma_sorted_pair(s, k, j - 1);
            lemma_cmp_chain(s[k], s[j - 1], x);
        } else {
            lemma_sorted_pair(s, j, k);
            assert(s[j].partial_cmp_spec(&x) == Some(Ordering::Greater));
            assert(x.partial_cmp_spec(&s[j]) == Some(Ordering::Less));
            assert(x.cmp_spec(&s[j]) == Ordering::Less);
            lemma_cmp_chain(x, s[j], s[k]);
            assert(x.partial_cmp_spec(&s[k]) == Some(Ordering::Less));
            assert(s[k].partial_cmp_spec(&x) == Some(Ordering::Greater));
        }
    }
}

} // verus!
