//! Sequences with some elements left out.

use vstd::prelude::*;

verus! {

/// The values that `f` gives for the elements of `s`, in order, without the
/// elements for which it gives none.
pub open spec fn filter_map<A, B>(s: Seq<A>, f: spec_fn(A) -> Option<B>) -> Seq<B>
    decreases s.len(),
{
    if s.len() == 0 {
        Seq::empty()
    } else {
        let rest = filter_map(s.drop_last(), f);
        match f(s.last()) {
            Some(b) => rest.push(b),
            None => rest,
        }
    }
}

/// The value of a success.
pub open spec fn ok_of<T, E>(r: Result<T, E>) -> Option<T> {
    match r {
        Ok(v) => Some(v),
        Err(_) => None,
    }
}

/// The values of the successes among `s`, in order.
pub open spec fn oks<T, E>(s: Seq<Result<T, E>>) -> Seq<T> {
    filter_map(s, |r: Result<T, E>| ok_of(r))
}

/// What one more element adds.
pub proof fn lemma_filter_map_push<A, B>(s: Seq<A>, x: A, f: spec_fn(A) -> Option<B>)
    ensures
        filter_map(s.push(x), f) == match f(x) {
            Some(b) => filter_map(s, f).push(b),
            None => filter_map(s, f),
        },
{
    assert(s.push(x).drop_last() =~= s);
}

/// Every element of the result comes from an element of `s`, and there are
/// no more of them than in `s`.
pub proof fn lemma_filter_map_members<A, B>(s: Seq<A>, f: spec_fn(A) -> Option<B>)
    ensures
        filter_map(s, f).len() <= s.len(),
        forall|k: int|
            0 <= k < filter_map(s, f).len() ==> exists|j: int|
                0 <= j < s.len() && f(s[j]) == Some(#[trigger] filter_map(s, f)[k]),
    decreases s.len(),
{
    if s.len() > 0 {
        let rest = s.drop_last();
        lemma_filter_map_members(rest, f);
        let out = filter_map(s, f);
        assert forall|k: int| 0 <= k < out.len() implies exists|j: int|
            0 <= j < s.len() && f(s[j]) == Some(#[trigger] out[k]) by {
            if k < filter_map(rest, f).len() {
                assert(out[k] == filter_map(rest, f)[k]);
                let j = choose|j: int| 0 <= j < rest.len() && f(rest[j]) == Some(
                    filter_map(rest, f)[k],
                );
                assert(rest[j] == s[j]);
            } else {
                assert(f(s[s.len() - 1]) == Some(out[k]));
            }
        }
    }
}

/// Every element of `s` for which `f` gives a value has that value in the
/// result.
pub proof fn lemma_filter_map_keeps<A, B>(s: Seq<A>, f: spec_fn(A) -> Option<B>, j: int)
    requires
        0 <= j < s.len(),
        f(s[j]).is_some(),
    ensures
        filter_map(s, f).contains(f(s[j]).unwrap()),
    decreases s.len(),
{
    let rest = s.drop_last();
    let out = filter_map(s, f);
    if j == s.len() - 1 {
        assert(out[out.len() - 1] == f(s[j]).unwrap());
    } else {
        lemma_filter_map_keeps(rest, f, j);
        assert(rest[j] == s[j]);
        let k = choose|k: int|
            0 <= k < filter_map(rest, f).len() && filter_map(rest, f)[k] == f(s[j]).unwrap();
        assert(out[k] == f(s[j]).unwrap());
    }
}

/// No two elements of `s` have the same key.
pub open spec fn distinct_by<A, K>(s: Seq<A>, key: spec_fn(A) -> K) -> bool {
    forall|i: int, j: int| 0 <= i < j < s.len() ==> key(s[i]) != key(s[j])
}

/// Where no two elements of `s` have the same key, and `f` hands the key
/// on, no two elements of the result have the same key.
pub proof fn lemma_filter_map_distinct<A, B, K>(
    s: Seq<A>,
    f: spec_fn(A) -> Option<B>,
    key_a: spec_fn(A) -> K,
    key_b: spec_fn(B) -> K,
)
    requires
        distinct_by(s, key_a),
        forall|i: int|
            0 <= i < s.len() && f(s[i]).is_some() ==> key_b(f(s[i]).unwrap()) == key_a(#[trigger] s[i]),
    ensures
        distinct_by(filter_map(s, f), key_b),
    decreases s.len(),
{
    if s.len() > 0 {
        let rest = s.drop_last();
        assert forall|i: int| 0 <= i < rest.len() implies rest[i] == s[i] by {}
        assert(distinct_by(rest, key_a)) by {
            assert forall|i: int, j: int| 0 <= i < j < rest.len() implies key_a(rest[i]) != key_a(
                rest[j],
            ) by {
                assert(rest[i] == s[i] && rest[j] == s[j]);
            }
        }
        assert forall|i: int| 0 <= i < rest.len() && f(rest[i]).is_some() implies key_b(
            f(rest[i]).unwrap(),
        ) == key_a(#[trigger] rest[i]) by {
            assert(rest[i] == s[i]);
        }
        lemma_filter_map_distinct(rest, f, key_a, key_b);
        lemma_filter_map_members(rest, f);
        let kept = filter_map(rest, f);
        let out = filter_map(s, f);
        assert forall|i: int, j: int| 0 <= i < j < out.len() implies key_b(out[i]) != key_b(
            out[j],
        ) by {
            if j < kept.len() {
                assert(out[i] == kept[i] && out[j] == kept[j]);
            } else {
                let last = s.len() - 1;
                assert(out[j] == f(s[last]).unwrap());
                assert(out[i] == kept[i]);
                let k = choose|k: int| 0 <= k < rest.len() && f(rest[k]) == Some(kept[i]);
                assert(rest[k] == s[k]);
                assert(key_b(out[i]) == key_a(s[k]));
                assert(key_b(out[j]) == key_a(s[last]));
            }
        }
    }
}

} // verus!
