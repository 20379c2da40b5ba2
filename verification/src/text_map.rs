//! A map from strings to values that remembers the order in which its keys
//! came, so that walking it gives the same order every time.

use vstd::prelude::*;

verus! {

/// No two entries have the same key.
pub open spec fn distinct_keys<V>(entries: Seq<(Seq<char>, V)>) -> bool {
    forall|i: int, j: int| 0 <= i < j < entries.len() ==> entries[i].0 != entries[j].0
}

/// The place of the entry with the key `key`, if there is one.
pub open spec fn assoc_index<V>(entries: Seq<(Seq<char>, V)>, key: Seq<char>) -> Option<int>
    decreases entries.len(),
{
    if entries.len() == 0 {
        None
    } else if entries.last().0 == key {
        Some(entries.len() - 1)
    } else {
        assoc_index(entries.drop_last(), key)
    }
}

/// The value that stands under `key`, if there is one.
pub open spec fn assoc_get<V>(entries: Seq<(Seq<char>, V)>, key: Seq<char>) -> Option<V> {
    match assoc_index(entries, key) {
        Some(i) => Some(entries[i].1),
        None => None,
    }
}

/// `entries` with `value` under `key`: in the place of the entry that had
/// the key, or at the end where none had it.
pub open spec fn assoc_put<V>(entries: Seq<(Seq<char>, V)>, key: Seq<char>, value: V) -> Seq<
    (Seq<char>, V),
> {
    match assoc_index(entries, key) {
        Some(i) => entries.update(i, (key, value)),
        None => entries.push((key, value)),
    }
}

/// What `assoc_index` finds is an entry with the key; it finds none only
/// where no entry has the key.
pub proof fn lemma_assoc_index<V>(entries: Seq<(Seq<char>, V)>, key: Seq<char>)
    ensures
        match assoc_index(entries, key) {
            Some(i) => 0 <= i < entries.len() && entries[i].0 == key,
            None => forall|j: int| 0 <= j < entries.len() ==> entries[j].0 != key,
        },
    decreases entries.len(),
{
    if entries.len() > 0 && entries.last().0 != key {
        let rest = entries.drop_last();
        lemma_assoc_index(rest, key);
        if assoc_index(rest, key).is_none() {
            assert forall|j: int| 0 <= j < entries.len() implies entries[j].0 != key by {
                if j < rest.len() {
                    assert(rest[j] == entries[j]);
                }
            }
        }
    }
}

/// Where the keys are distinct, an entry is found under its own key.
pub proof fn lemma_assoc_index_at<V>(entries: Seq<(Seq<char>, V)>, i: int)
    requires
        distinct_keys(entries),
        0 <= i < entries.len(),
    ensures
        assoc_index(entries, entries[i].0) == Some(i),
        assoc_get(entries, entries[i].0) == Some(entries[i].1),
{
    lemma_assoc_index(entries, entries[i].0);
}

/// Putting a value keeps the keys distinct, puts the value under its key and
/// leaves every other key as it was.
pub proof fn lemma_assoc_put<V>(entries: Seq<(Seq<char>, V)>, key: Seq<char>, value: V)
    requires
        distinct_keys(entries),
    ensures
        distinct_keys(assoc_put(entries, key, value)),
        assoc_get(assoc_put(entries, key, value), key) == Some(value),
        forall|other: Seq<char>|
            other != key ==> assoc_get(assoc_put(entries, key, value), other) == assoc_get(
                entries,
                other,
            ),
{
    let out = assoc_put(entries, key, value);
    lemma_assoc_index(entries, key);
    match assoc_index(entries, key) {
        Some(i) => {
            assert(out[i] == (key, value));
            lemma_assoc_index_at(out, i);
            assert forall|other: Seq<char>| other != key implies assoc_get(out, other)
                == assoc_get(entries, other) by {
                lemma_assoc_index(entries, other);
                lemma_assoc_index(out, other);
                match assoc_index(entries, other) {
                    Some(a) => {
                        assert(out[a] == entries[a]);
                        lemma_assoc_index_at(out, a);
                    },
                    None => {
                        if let Some(b) = assoc_index(out, other) {
                            assert(entries[b].0 == out[b].0);
                        }
                    },
                }
            }
        },
        None => {
            let last = entries.len() as int;
            assert(out[last] == (key, value));
            lemma_assoc_index_at(out, last);
            assert forall|other: Seq<char>| other != key implies assoc_get(out, other)
                == assoc_get(entries, other) by {
                assert(out.drop_last() =~= entries);
                assert(out.last().0 == key);
                assert(assoc_index(out, other) == assoc_index(entries, other));
                lemma_assoc_index(entries, other);
                if let Some(a) = assoc_index(entries, other) {
                    assert(out[a] == entries[a]);
                }
            }
        },
    }
}

/// A map from strings to values. Its entries stand in the order in which
/// their keys were first put.
#[derive(Debug)]
pub struct TextMap<V> {
    entries: Vec<(String, V)>,
}

impl<V> View for TextMap<V> {
    type V = Seq<(Seq<char>, V)>;

    /// The entries, each a key's text and its value, in order.
    closed spec fn view(&self) -> Seq<(Seq<char>, V)> {
        Seq::new(self.entries@.len(), |i: int| (self.entries@[i].0@, self.entries@[i].1))
    }
}

impl<V> TextMap<V> {
    #[verifier::type_invariant]
    spec fn well_formed(&self) -> bool {
        distinct_keys(self@)
    }

    /// A map without entries.
    pub fn new() -> (map: TextMap<V>)
        ensures
            map@ == Seq::<(Seq<char>, V)>::empty(),
    {
        let map = TextMap { entries: Vec::new() };
        assert(map@ =~= Seq::<(Seq<char>, V)>::empty());
        map
    }

    /// The number of entries. No two of them have the same key.
    pub fn len(&self) -> (n: usize)
        ensures
            n == self@.len(),
            distinct_keys(self@),
    {
        proof {
            use_type_invariant(self);
        }
        self.entries.len()
    }

    /// The key of the entry at `i`.
    pub fn key(&self, i: usize) -> (key: &String)
        requires
            i < self@.len(),
        ensures
            key@ == self@[i as int].0,
    {
        &self.entries[i].0
    }

    /// The value of the entry at `i`.
    pub fn value(&self, i: usize) -> (value: &V)
        requires
            i < self@.len(),
        ensures
            *value == self@[i as int].1,
    {
        &self.entries[i].1
    }

    /// The place of the entry with the key `key`, if there is one.
    pub fn position(&self, key: &String) -> (found: Option<usize>)
        ensures
            match found {
                Some(i) => assoc_index(self@, key@) == Some(i as int) && i < self@.len(),
                None => assoc_index(self@, key@).is_none(),
            },
    {
        proof {
            use_type_invariant(self);
            lemma_assoc_index(self@, key@);
        }
        let mut i: usize = 0;
        while i < self.entries.len()
            invariant
                i <= self.entries@.len(),
                self.entries@.len() == self@.len(),
                distinct_keys(self@),
                forall|j: int| 0 <= j < i ==> self@[j].0 != key@,
            decreases self.entries.len() - i,
        {
            if self.entries[i].0 == *key {
                proof {
                    lemma_assoc_index_at(self@, i as int);
                }
                return Some(i);
            }
            i = i + 1;
        }
        None
    }

    /// The value that stands under `key`, if there is one.
    pub fn get(&self, key: &String) -> (value: Option<&V>)
        ensures
            match value {
                Some(v) => assoc_get(self@, key@) == Some(*v),
                None => assoc_get(self@, key@).is_none(),
            },
    {
        match self.position(key) {
            Some(i) => Some(&self.entries[i].1),
            None => None,
        }
    }

    /// Puts `value` under `key`: in the place of the value that stood there,
    /// or as a new entry at the end.
    pub fn insert(&mut self, key: String, value: V)
        ensures
            final(self)@ == assoc_put(old(self)@, key@, value),
            distinct_keys(final(self)@),
    {
        proof {
            use_type_invariant(&*self);
            lemma_assoc_put(self@, key@, value);
        }
        let ghost before = self@;
        let found = self.position(&key);
        let mut entries: Vec<(String, V)> = Vec::new();
        std::mem::swap(&mut entries, &mut self.entries);
        match found {
            Some(i) => {
                entries.set(i, (key, value));
            },
            None => {
                entries.push((key, value));
            },
        }
        let ghost after = Seq::new(entries@.len(), |i: int| (entries@[i].0@, entries@[i].1));
        assert(after =~= assoc_put(before, key@, value));
        self.entries = entries;
        assert(self@ =~= after);
    }
}

/// The pairs with each key taken by its text.
pub open spec fn keyed<V>(pairs: Seq<(String, V)>) -> Seq<(Seq<char>, V)> {
    pairs.map_values(|p: (String, V)| (p.0@, p.1))
}

/// The entries that putting `pairs` one after the other into an empty map
/// gives: a later pair replaces the value of an earlier one with its key.
pub open spec fn assoc_from<V>(pairs: Seq<(Seq<char>, V)>) -> Seq<(Seq<char>, V)>
    decreases pairs.len(),
{
    if pairs.len() == 0 {
        Seq::empty()
    } else {
        assoc_put(assoc_from(pairs.drop_last()), pairs.last().0, pairs.last().1)
    }
}

/// The keys of `assoc_from(pairs)` are distinct.
pub proof fn lemma_assoc_from_distinct<V>(pairs: Seq<(Seq<char>, V)>)
    ensures
        distinct_keys(assoc_from(pairs)),
    decreases pairs.len(),
{
    if pairs.len() > 0 {
        lemma_assoc_from_distinct(pairs.drop_last());
        lemma_assoc_put(assoc_from(pairs.drop_last()), pairs.last().0, pairs.last().1);
    }
}

/// What holds of every pair holds of every entry of `assoc_from(pairs)`.
pub proof fn lemma_assoc_from_holds<V>(
    pairs: Seq<(Seq<char>, V)>,
    holds: spec_fn((Seq<char>, V)) -> bool,
)
    requires
        forall|i: int| 0 <= i < pairs.len() ==> holds(#[trigger] pairs[i]),
    ensures
        forall|i: int|
            0 <= i < assoc_from(pairs).len() ==> holds(#[trigger] assoc_from(pairs)[i]),
    decreases pairs.len(),
{
    if pairs.len() > 0 {
        let rest = pairs.drop_last();
        assert forall|i: int| 0 <= i < rest.len() implies holds(#[trigger] rest[i]) by {
            assert(rest[i] == pairs[i]);
        }
        lemma_assoc_from_holds(rest, holds);
        lemma_assoc_index(assoc_from(rest), pairs.last().0);
        assert(holds(pairs[pairs.len() - 1]));
    }
}

/// The entries with each value replaced by what `f` makes of it.
pub open spec fn map_entries<V, W>(entries: Seq<(Seq<char>, V)>, f: spec_fn(V) -> W) -> Seq<
    (Seq<char>, W),
> {
    entries.map_values(|e: (Seq<char>, V)| (e.0, f(e.1)))
}

/// Where a key stands does not depend on the values.
pub proof fn lemma_assoc_index_map<V, W>(
    entries: Seq<(Seq<char>, V)>,
    key: Seq<char>,
    f: spec_fn(V) -> W,
)
    ensures
        assoc_index(map_entries(entries, f), key) == assoc_index(entries, key),
    decreases entries.len(),
{
    if entries.len() > 0 {
        lemma_assoc_index_map(entries.drop_last(), key, f);
        assert(map_entries(entries, f).drop_last() =~= map_entries(entries.drop_last(), f));
    }
}

/// Looking up, then replacing the value, is replacing the values, then
/// looking up.
pub proof fn lemma_assoc_get_map<V, W>(
    entries: Seq<(Seq<char>, V)>,
    key: Seq<char>,
    f: spec_fn(V) -> W,
)
    ensures
        assoc_get(map_entries(entries, f), key) == match assoc_get(entries, key) {
            Some(v) => Some(f(v)),
            None => None,
        },
{
    lemma_assoc_index_map(entries, key, f);
    lemma_assoc_index(entries, key);
}

/// Putting, then replacing the values, is replacing the values, then
/// putting.
pub proof fn lemma_assoc_put_map<V, W>(
    entries: Seq<(Seq<char>, V)>,
    key: Seq<char>,
    value: V,
    f: spec_fn(V) -> W,
)
    ensures
        map_entries(assoc_put(entries, key, value), f) == assoc_put(
            map_entries(entries, f),
            key,
            f(value),
        ),
{
    lemma_assoc_index_map(entries, key, f);
    lemma_assoc_index(entries, key);
    assert(map_entries(assoc_put(entries, key, value), f) =~= assoc_put(
        map_entries(entries, f),
        key,
        f(value),
    ));
}

impl<V> TextMap<V> {
    /// The map that holds `pairs`, put one after the other: a later pair
    /// replaces the value of an earlier one with its key.
    pub fn from_pairs(pairs: Vec<(String, V)>) -> (map: TextMap<V>)
        ensures
            map@ == assoc_from(keyed(pairs@)),
    {
        let mut map: TextMap<V> = TextMap::new();
        let ghost all = keyed(pairs@);
        for pair in it: pairs.into_iter()
            invariant
                it.seq() == pairs@,
                all == keyed(pairs@),
                map@ == assoc_from(all.subrange(0, it.index() as int)),
        {
            let ghost i = it.index() as int;
            proof {
                assert(all.subrange(0, i + 1).drop_last() =~= all.subrange(0, i));
                assert(all.subrange(0, i + 1).last() == (pair.0@, pair.1));
            }
            map.insert(pair.0, pair.1);
        }
        assert(all.subrange(0, all.len() as int) =~= all);
        map
    }
}

} // verus!
