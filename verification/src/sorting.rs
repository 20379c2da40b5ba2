//! A stable sort with its specification.
//!
//! The order is any total preorder, given in contracts as a `spec_fn`. The
//! executable sort takes it from the `Ranked` trait.

use vstd::prelude::*;
use crate::seqs::distinct_by;

verus! {

/// `le` relates every two values one way or the other, and is transitive.
pub open spec fn is_total_preorder<T>(le: spec_fn(T, T) -> bool) -> bool {
    &&& forall|a: T, b: T| #[trigger] le(a, b) || le(b, a)
    &&& forall|a: T, b: T, c: T| #[trigger] le(a, b) && #[trigger] le(b, c) ==> le(a, c)
}

/// No element of `s` stands before one that must precede it.
pub open spec fn is_sorted_by<T>(s: Seq<T>, le: spec_fn(T, T) -> bool) -> bool {
    forall|i: int, j: int| 0 <= i < j < s.len() ==> le(s[i], s[j])
}

/// `t` with `x` put in front of the first element that `x` may precede.
pub open spec fn insert_before<T>(x: T, t: Seq<T>, le: spec_fn(T, T) -> bool) -> Seq<T>
    decreases t.len(),
{
    if t.len() == 0 {
        seq![x]
    } else if le(x, t[0]) {
        seq![x] + t
    } else {
        seq![t[0]] + insert_before(x, t.drop_first(), le)
    }
}

/// The elements of `s` in the order `le`; elements that `le` does not tell
/// apart keep the order they have in `s`.
pub open spec fn stable_sorted<T>(s: Seq<T>, le: spec_fn(T, T) -> bool) -> Seq<T>
    decreases s.len(),
{
    if s.len() == 0 {
        Seq::empty()
    } else {
        insert_before(s[0], stable_sorted(s.drop_first(), le), le)
    }
}

/// The place where `insert_before` puts `x`.
pub proof fn lemma_insert_before_at<T>(x: T, t: Seq<T>, le: spec_fn(T, T) -> bool, p: int)
    requires
        0 <= p <= t.len(),
        forall|j: int| 0 <= j < p ==> !le(x, t[j]),
        p < t.len() ==> le(x, t[p]),
    ensures
        insert_before(x, t, le) == t.insert(p, x),
    decreases t.len(),
{
    if t.len() == 0 {
        assert(t.insert(p, x) =~= seq![x]);
    } else if p == 0 {
        assert(t.insert(0, x) =~= seq![x] + t);
    } else {
        let rest = t.drop_first();
        assert forall|j: int| 0 <= j < p - 1 implies !le(x, rest[j]) by {
            assert(rest[j] == t[j + 1]);
        }
        lemma_insert_before_at(x, rest, le, p - 1);
        assert(t.insert(p, x) =~= seq![t[0]] + rest.insert(p - 1, x));
    }
}

/// Inserting keeps the elements and adds the new one.
pub proof fn lemma_insert_before_multiset<T>(x: T, t: Seq<T>, le: spec_fn(T, T) -> bool)
    ensures
        insert_before(x, t, le).to_multiset() == t.to_multiset().insert(x),
        insert_before(x, t, le).len() == t.len() + 1,
    decreases t.len(),
{
    broadcast use vstd::seq_lib::group_to_multiset_ensures;

    if t.len() == 0 {
        assert(seq![x] =~= Seq::<T>::empty().push(x));
        assert(t =~= Seq::<T>::empty());
    } else if le(x, t[0]) {
        assert(seq![x] + t =~= t.insert(0, x));
        vstd::seq_lib::to_multiset_insert(t, 0, x);
    } else {
        let rest = t.drop_first();
        lemma_insert_before_multiset(x, rest, le);
        let inner = insert_before(x, rest, le);
        assert(seq![t[0]] + inner =~= inner.insert(0, t[0]));
        vstd::seq_lib::to_multiset_insert(inner, 0, t[0]);
        assert(t =~= rest.insert(0, t[0]));
        vstd::seq_lib::to_multiset_insert(rest, 0, t[0]);
        assert(rest.to_multiset().insert(x).insert(t[0]) =~= rest.to_multiset().insert(
            t[0],
        ).insert(x));
    }
}

/// Every element of `insert_before(x, t, le)` is `x` or an element of `t`.
pub proof fn lemma_insert_before_members<T>(x: T, t: Seq<T>, le: spec_fn(T, T) -> bool, k: int)
    requires
        0 <= k < insert_before(x, t, le).len(),
    ensures
        insert_before(x, t, le)[k] == x || exists|j: int|
            0 <= j < t.len() && t[j] == insert_before(x, t, le)[k],
    decreases t.len(),
{
    if t.len() == 0 {
    } else if le(x, t[0]) {
        if k > 0 {
            assert(t[k - 1] == insert_before(x, t, le)[k]);
        }
    } else {
        let rest = t.drop_first();
        if k == 0 {
            assert(t[0] == insert_before(x, t, le)[k]);
        } else {
            lemma_insert_before_members(x, rest, le, k - 1);
            let inner = insert_before(x, rest, le);
            assert(insert_before(x, t, le)[k] == inner[k - 1]);
            if inner[k - 1] != x {
                let j = choose|j: int| 0 <= j < rest.len() && rest[j] == inner[k - 1];
                assert(t[j + 1] == inner[k - 1]);
            }
        }
    }
}

/// Inserting into a sorted sequence leaves it sorted.
pub proof fn lemma_insert_before_sorted<T>(x: T, t: Seq<T>, le: spec_fn(T, T) -> bool)
    requires
        is_total_preorder(le),
        is_sorted_by(t, le),
    ensures
        is_sorted_by(insert_before(x, t, le), le),
    decreases t.len(),
{
    let out = insert_before(x, t, le);
    if t.len() == 0 {
    } else if le(x, t[0]) {
        assert forall|i: int, j: int| 0 <= i < j < out.len() implies le(out[i], out[j]) by {
            if i == 0 {
                assert(out[j] == t[j - 1]);
                if j - 1 > 0 {
                    assert(le(t[0], t[j - 1]));
                }
            } else {
                assert(out[i] == t[i - 1] && out[j] == t[j - 1]);
            }
        }
    } else {
        let rest = t.drop_first();
        assert(is_sorted_by(rest, le)) by {
            assert forall|i: int, j: int| 0 <= i < j < rest.len() implies le(rest[i], rest[j]) by {
                assert(rest[i] == t[i + 1] && rest[j] == t[j + 1]);
            }
        }
        lemma_insert_before_sorted(x, rest, le);
        let inner = insert_before(x, rest, le);
        assert forall|i: int, j: int| 0 <= i < j < out.len() implies le(out[i], out[j]) by {
            if i == 0 {
                assert(out[j] == inner[j - 1]);
                lemma_insert_before_members(x, rest, le, j - 1);
                if inner[j - 1] == x {
                    assert(le(t[0], x) || le(x, t[0]));
                } else {
                    let k = choose|k: int| 0 <= k < rest.len() && rest[k] == inner[j - 1];
                    assert(rest[k] == t[k + 1]);
                    assert(le(t[0], t[k + 1]));
                }
            } else {
                assert(out[i] == inner[i - 1] && out[j] == inner[j - 1]);
            }
        }
    }
}

/// The result of the sort is in order.
pub proof fn lemma_stable_sorted_is_sorted<T>(s: Seq<T>, le: spec_fn(T, T) -> bool)
    requires
        is_total_preorder(le),
    ensures
        is_sorted_by(stable_sorted(s, le), le),
    decreases s.len(),
{
    if s.len() > 0 {
        lemma_stable_sorted_is_sorted(s.drop_first(), le);
        lemma_insert_before_sorted(s[0], stable_sorted(s.drop_first(), le), le);
    }
}

/// The result of the sort holds the elements of its input, each as often.
pub proof fn lemma_stable_sorted_permutes<T>(s: Seq<T>, le: spec_fn(T, T) -> bool)
    ensures
        stable_sorted(s, le).to_multiset() == s.to_multiset(),
        stable_sorted(s, le).len() == s.len(),
    decreases s.len(),
{
    broadcast use vstd::seq_lib::group_to_multiset_ensures;

    if s.len() == 0 {
        assert(s =~= Seq::<T>::empty());
    } else {
        let rest = s.drop_first();
        lemma_stable_sorted_permutes(rest, le);
        lemma_insert_before_multiset(s[0], stable_sorted(rest, le), le);
        assert(s =~= rest.insert(0, s[0]));
        vstd::seq_lib::to_multiset_insert(rest, 0, s[0]);
    }
}

/// The result of the sort holds exactly the elements of its input.
pub proof fn lemma_stable_sorted_contains<T>(s: Seq<T>, le: spec_fn(T, T) -> bool, x: T)
    ensures
        stable_sorted(s, le).contains(x) == s.contains(x),
{
    lemma_stable_sorted_permutes(s, le);
    vstd::seq_lib::to_multiset_contains(s, x);
    vstd::seq_lib::to_multiset_contains(stable_sorted(s, le), x);
}

/// An element that may stand before every other stays first, where it is
/// first.
pub proof fn lemma_stable_sorted_first<T>(s: Seq<T>, le: spec_fn(T, T) -> bool)
    requires
        s.len() > 0,
        forall|k: int| 0 <= k < s.len() ==> le(s[0], #[trigger] s[k]),
    ensures
        stable_sorted(s, le) == seq![s[0]] + stable_sorted(s.drop_first(), le),
{
    let rest = s.drop_first();
    let sorted = stable_sorted(rest, le);
    if sorted.len() > 0 {
        assert(sorted.contains(sorted[0]));
        lemma_stable_sorted_contains(rest, le, sorted[0]);
        let m = choose|m: int| 0 <= m < rest.len() && rest[m] == sorted[0];
        assert(rest[m] == s[m + 1]);
    }
}

/// Inserting an element whose key no element has keeps the keys apart.
pub proof fn lemma_insert_before_distinct<T, K>(
    x: T,
    t: Seq<T>,
    le: spec_fn(T, T) -> bool,
    key: spec_fn(T) -> K,
)
    requires
        distinct_by(t, key),
        forall|k: int| 0 <= k < t.len() ==> key(#[trigger] t[k]) != key(x),
    ensures
        distinct_by(insert_before(x, t, le), key),
    decreases t.len(),
{
    let out = insert_before(x, t, le);
    if t.len() == 0 {
    } else if le(x, t[0]) {
        assert forall|i: int, j: int| 0 <= i < j < out.len() implies key(out[i]) != key(out[j]) by {
            assert(out[j] == t[j - 1]);
            if i > 0 {
                assert(out[i] == t[i - 1]);
            }
        }
    } else {
        let rest = t.drop_first();
        assert(distinct_by(rest, key)) by {
            assert forall|i: int, j: int| 0 <= i < j < rest.len() implies key(rest[i]) != key(
                rest[j],
            ) by {
                assert(rest[i] == t[i + 1] && rest[j] == t[j + 1]);
            }
        }
        assert forall|k: int| 0 <= k < rest.len() implies key(#[trigger] rest[k]) != key(x) by {
            assert(rest[k] == t[k + 1]);
        }
        lemma_insert_before_distinct(x, rest, le, key);
        let inner = insert_before(x, rest, le);
        assert forall|i: int, j: int| 0 <= i < j < out.len() implies key(out[i]) != key(out[j]) by {
            assert(out[j] == inner[j - 1]);
            if i == 0 {
                lemma_insert_before_members(x, rest, le, j - 1);
                if inner[j - 1] != x {
                    let k = choose|k: int| 0 <= k < rest.len() && rest[k] == inner[j - 1];
                    assert(rest[k] == t[k + 1]);
                }
            } else {
                assert(out[i] == inner[i - 1]);
            }
        }
    }
}

/// Sorting keeps the keys apart.
pub proof fn lemma_stable_sorted_distinct<T, K>(
    s: Seq<T>,
    le: spec_fn(T, T) -> bool,
    key: spec_fn(T) -> K,
)
    requires
        distinct_by(s, key),
    ensures
        distinct_by(stable_sorted(s, le), key),
    decreases s.len(),
{
    if s.len() > 0 {
        let rest = s.drop_first();
        assert(distinct_by(rest, key)) by {
            assert forall|i: int, j: int| 0 <= i < j < rest.len() implies key(rest[i]) != key(
                rest[j],
            ) by {
                assert(rest[i] == s[i + 1] && rest[j] == s[j + 1]);
            }
        }
        lemma_stable_sorted_distinct(rest, le, key);
        let sorted = stable_sorted(rest, le);
        assert forall|k: int| 0 <= k < sorted.len() implies key(#[trigger] sorted[k]) != key(
            s[0],
        ) by {
            assert(sorted.contains(sorted[k]));
            lemma_stable_sorted_contains(rest, le, sorted[k]);
            let m = choose|m: int| 0 <= m < rest.len() && rest[m] == sorted[k];
            assert(rest[m] == s[m + 1]);
        }
        lemma_insert_before_distinct(s[0], sorted, le, key);
    }
}

/// The elements of `s` that `le` does not tell apart from `y`, in the
/// order they have in `s`.
pub open spec fn ties_with<T>(s: Seq<T>, le: spec_fn(T, T) -> bool, y: T) -> Seq<T>
    decreases s.len(),
{
    if s.len() == 0 {
        Seq::empty()
    } else if le(s[0], y) && le(y, s[0]) {
        seq![s[0]] + ties_with(s.drop_first(), le, y)
    } else {
        ties_with(s.drop_first(), le, y)
    }
}

/// An element is inserted in front of the elements that the order does
/// not tell apart from it.
pub proof fn lemma_insert_before_ties<T>(x: T, t: Seq<T>, le: spec_fn(T, T) -> bool, y: T)
    requires
        is_total_preorder(le),
    ensures
        ties_with(insert_before(x, t, le), le, y) == if le(x, y) && le(y, x) {
            seq![x] + ties_with(t, le, y)
        } else {
            ties_with(t, le, y)
        },
    decreases t.len(),
{
    let out = insert_before(x, t, le);
    if t.len() == 0 {
        assert(out.drop_first() =~= t);
    } else if le(x, t[0]) {
        assert(out.drop_first() =~= t);
    } else {
        lemma_insert_before_ties(x, t.drop_first(), le, y);
        assert(out.drop_first() =~= insert_before(x, t.drop_first(), le));
        assert(out[0] == t[0]);
        if le(t[0], y) && le(y, t[0]) && le(x, y) && le(y, x) {
            // `x` would have been put in front of `t[0]`.
            assert(le(x, t[0]));
        }
    }
}

/// The sort is stable: elements that the order does not tell apart stand
/// in the result in the order they have in the input.
pub proof fn lemma_stable_sorted_keeps_ties<T>(s: Seq<T>, le: spec_fn(T, T) -> bool, y: T)
    requires
        is_total_preorder(le),
    ensures
        ties_with(stable_sorted(s, le), le, y) == ties_with(s, le, y),
    decreases s.len(),
{
    if s.len() > 0 {
        lemma_stable_sorted_keeps_ties(s.drop_first(), le, y);
        lemma_insert_before_ties(s[0], stable_sorted(s.drop_first(), le), le, y);
    }
}

/// Inserting, then mapping, is mapping, then inserting, where the map keeps the order.
pub proof fn lemma_insert_before_map<T, U>(
    x: T,
    t: Seq<T>,
    le: spec_fn(T, T) -> bool,
    f: spec_fn(T) -> U,
    le_u: spec_fn(U, U) -> bool,
)
    requires
        forall|a: T, b: T| #[trigger] le(a, b) == le_u(f(a), f(b)),
    ensures
        insert_before(x, t, le).map_values(f) == insert_before(f(x), t.map_values(f), le_u),
    decreases t.len(),
{
    let tm = t.map_values(f);
    if t.len() == 0 {
        assert(seq![x].map_values(f) =~= seq![f(x)]);
    } else if le(x, t[0]) {
        assert(le_u(f(x), tm[0]));
        assert((seq![x] + t).map_values(f) =~= seq![f(x)] + tm);
    } else {
        assert(!le_u(f(x), tm[0]));
        lemma_insert_before_map(x, t.drop_first(), le, f, le_u);
        assert(t.drop_first().map_values(f) =~= tm.drop_first());
        assert((seq![t[0]] + insert_before(x, t.drop_first(), le)).map_values(f) =~= seq![tm[0]]
            + insert_before(x, t.drop_first(), le).map_values(f));
    }
}

/// Sorting, then mapping, is mapping, then sorting, where the map keeps the order.
pub proof fn lemma_stable_sorted_map<T, U>(
    s: Seq<T>,
    le: spec_fn(T, T) -> bool,
    f: spec_fn(T) -> U,
    le_u: spec_fn(U, U) -> bool,
)
    requires
        forall|a: T, b: T| #[trigger] le(a, b) == le_u(f(a), f(b)),
    ensures
        stable_sorted(s, le).map_values(f) == stable_sorted(s.map_values(f), le_u),
    decreases s.len(),
{
    let sm = s.map_values(f);
    if s.len() == 0 {
        assert(stable_sorted(s, le).map_values(f) =~= Seq::<U>::empty());
    } else {
        lemma_stable_sorted_map(s.drop_first(), le, f, le_u);
        lemma_insert_before_map(s[0], stable_sorted(s.drop_first(), le), le, f, le_u);
        assert(s.drop_first().map_values(f) =~= sm.drop_first());
    }
}

/// `sorted` after the elements of `pending` were inserted, last one first.
pub open spec fn inserted_all<T>(pending: Seq<T>, sorted: Seq<T>, le: spec_fn(T, T) -> bool) -> Seq<T>
    decreases pending.len(),
{
    if pending.len() == 0 {
        sorted
    } else {
        inserted_all(pending.drop_last(), insert_before(pending.last(), sorted, le), le)
    }
}

/// Inserting the elements of `p` into the sort of `q` sorts `p + q`.
pub proof fn lemma_inserted_all<T>(p: Seq<T>, q: Seq<T>, le: spec_fn(T, T) -> bool)
    ensures
        inserted_all(p, stable_sorted(q, le), le) == stable_sorted(p + q, le),
    decreases p.len(),
{
    if p.len() == 0 {
        assert(p + q =~= q);
    } else {
        let x = p.last();
        let xq = seq![x] + q;
        assert(xq.drop_first() =~= q);
        assert(stable_sorted(xq, le) == insert_before(x, stable_sorted(q, le), le));
        lemma_inserted_all(p.drop_last(), xq, le);
        assert(p.drop_last() + xq =~= p + q);
    }
}

/// A type with an order by which its values are sorted.
pub trait Ranked: Sized {
    /// `self` may stand before `other`.
    spec fn rank_le(&self, other: &Self) -> bool;

    /// Whether `self` may stand before `other`.
    fn le(&self, other: &Self) -> (b: bool)
        ensures
            b == self.rank_le(other),
    ;

    /// The order relates every two values, and is transitive.
    proof fn lemma_rank_order()
        ensures
            forall|a: Self, b: Self| #[trigger] a.rank_le(&b) || b.rank_le(&a),
            forall|a: Self, b: Self, c: Self|
                #[trigger] a.rank_le(&b) && #[trigger] b.rank_le(&c) ==> a.rank_le(&c),
    ;
}

/// The order of a ranked type as a function of two values.
pub open spec fn rank_order<T: Ranked>() -> spec_fn(T, T) -> bool {
    |a: T, b: T| a.rank_le(&b)
}

/// The order of a ranked type is a total preorder.
pub proof fn lemma_rank_order_total<T: Ranked>()
    ensures
        is_total_preorder(rank_order::<T>()),
{
    T::lemma_rank_order();
    let le = rank_order::<T>();
    assert forall|a: T, b: T| #[trigger] le(a, b) || le(b, a) by {
        assert(a.rank_le(&b) || b.rank_le(&a));
    }
    assert forall|a: T, b: T, c: T| #[trigger] le(a, b) && #[trigger] le(b, c) implies le(
        a,
        c,
    ) by {
        assert(a.rank_le(&b) && b.rank_le(&c));
    }
}

/// Sorts `items` by their rank. The sort is stable.
pub fn sort_by_rank<T: Ranked>(items: Vec<T>) -> (out: Vec<T>)
    ensures
        out@ == stable_sorted(items@, rank_order::<T>()),
        is_sorted_by(out@, rank_order::<T>()),
        out@.to_multiset() == items@.to_multiset(),
        out@.len() == items@.len(),
{
    let ghost le = rank_order::<T>();
    let ghost given = items@;
    let mut pending = items;
    let mut out: Vec<T> = Vec::new();
    proof {
        lemma_inserted_all(given, Seq::<T>::empty(), le);
        assert(given + Seq::<T>::empty() =~= given);
        assert(stable_sorted(Seq::<T>::empty(), le) =~= Seq::<T>::empty());
    }
    while pending.len() > 0
        invariant
            le == rank_order::<T>(),
            inserted_all(pending@, out@, le) == stable_sorted(given, le),
        decreases pending.len(),
    {
        let ghost before = pending@;
        let x = pending.pop().unwrap();
        assert(pending@ == before.drop_last() && x == before.last());
        let mut p: usize = 0;
        while p < out.len()
            invariant_except_break
                le == rank_order::<T>(),
                p <= out.len(),
                forall|j: int| 0 <= j < p ==> !le(x, out@[j]),
            ensures
                p <= out.len(),
                forall|j: int| 0 <= j < p ==> !le(x, out@[j]),
                p < out.len() ==> le(x, out@[p as int]),
            decreases out.len() - p,
        {
            assert(le(x, out@[p as int]) == x.rank_le(&out@[p as int]));
            if x.le(&out[p]) {
                break;
            }
            p = p + 1;
        }
        proof {
            lemma_insert_before_at(x, out@, le, p as int);
        }
        out.insert(p, x);
    }
    proof {
        lemma_rank_order_total::<T>();
        lemma_stable_sorted_is_sorted(given, le);
        lemma_stable_sorted_permutes(given, le);
    }
    out
}

} // verus!
