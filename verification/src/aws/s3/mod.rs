//! Where an object lies: the bucket and the key in `BUCKET_NAME:BUCKET_KEY`.

use vstd::prelude::*;
use vstd::string::StrSliceExecFns;
use crate::text::chars_of;

verus! {

/// The place of the first colon in `s` at or after `from`; the length of
/// `s` where there is none.
pub open spec fn colon_from(s: Seq<char>, from: int) -> int
    decreases s.len() - from,
{
    if from < 0 || from >= s.len() {
        s.len() as int
    } else if s[from] == ':' {
        from
    } else {
        colon_from(s, from + 1)
    }
}

/// The bucket that `bucket_file` names: what stands before its first colon.
pub open spec fn bucket_of(bucket_file: Seq<char>) -> Seq<char> {
    bucket_file.subrange(0, colon_from(bucket_file, 0))
}

/// The key that `bucket_file` names: what stands between its first colon
/// and its second, or its end.
pub open spec fn key_of(bucket_file: Seq<char>) -> Seq<char> {
    let first = colon_from(bucket_file, 0);
    bucket_file.subrange(first + 1, colon_from(bucket_file, first + 1))
}

/// `colon_from` stays within `s`, and no colon stands before it.
pub proof fn lemma_colon_from(s: Seq<char>, from: int)
    requires
        0 <= from <= s.len(),
    ensures
        from <= colon_from(s, from) <= s.len(),
        colon_from(s, from) < s.len() ==> s[colon_from(s, from)] == ':',
        forall|k: int| from <= k < colon_from(s, from) ==> s[k] != ':',
    decreases s.len() - from,
{
    if from < s.len() && s[from] != ':' {
        lemma_colon_from(s, from + 1);
    }
}

/// The place of the first colon at or after `from`.
fn find_colon(chars: &Vec<char>, from: usize) -> (at: usize)
    requires
        from <= chars.len(),
    ensures
        at == colon_from(chars@, from as int),
        from <= at <= chars.len(),
{
    let mut i: usize = from;
    while i < chars.len() && chars[i] != ':'
        invariant
            from <= i <= chars.len(),
            colon_from(chars@, from as int) == colon_from(chars@, i as int),
        decreases chars.len() - i,
    {
        i = i + 1;
    }
    i
}

/// The bucket and the key that `bucket_file` names, in the form
/// `BUCKET_NAME:BUCKET_KEY`.
pub fn build_bucket_path(bucket_file: &str) -> (path: (String, String))
    requires
        bucket_file@.contains(':'),
    ensures
        path.0@ == bucket_of(bucket_file@),
        path.1@ == key_of(bucket_file@),
{
    let chars = chars_of(bucket_file);
    let first = find_colon(&chars, 0);
    proof {
        lemma_colon_from(chars@, 0);
        if first == chars.len() {
            let k = choose|k: int| 0 <= k < chars@.len() && chars@[k] == ':';
            assert(false);
        }
    }
    let second = find_colon(&chars, first + 1);
    let bucket = bucket_file.substring_char(0, first).to_owned();
    let key = bucket_file.substring_char(first + 1, second).to_owned();
    (bucket, key)
}

} // verus!
