//! The calls into other crates. Verus takes the contracts in this file on
//! trust: nothing here is proved.

use vstd::prelude::*;
use vstd::utf8::{encode_utf8, valid_utf8};
use resiter::GetOks;
use tokio::sync::mpsc::UnboundedSender;
use crate::notifications::Notification;
use crate::seqs::oks;

verus! {

/// The successes among `items`, in order, as `resiter::GetOks::oks` filters
/// them out of an iterator of results: it keeps the value of each `Ok` and
/// drops each `Err`.
#[verifier::external_body]
pub(crate) fn keep_oks<T, E>(items: Vec<Result<T, E>>) -> (kept: Vec<T>)
    ensures
        kept@ == oks(items@),
{
    items.into_iter().oks().collect()
}

/// The current time in milliseconds since the Unix epoch, read with
/// `chrono::Utc::now` and `DateTime::timestamp_millis`. Nothing is claimed of
/// the value: it is whatever the system clock says. `Utc::now` does not
/// return where the clock reads a time before 1970.
#[verifier::external_body]
pub(crate) fn utc_now_millis() -> (now: i64) {
    chrono::Utc::now().timestamp_millis()
}

/// The text that `bytes::Bytes` gives for `body` through its `Debug`
/// implementation.
pub uninterp spec fn bytes_debug_text(body: Seq<u8>) -> Seq<char>;

/// The `Debug` rendering of `bytes::Bytes` for the bytes of `body`: a byte
/// string literal, with the printable ASCII bytes as they are and the
/// others escaped. The same bytes always give the same text.
#[verifier::external_body]
pub(crate) fn debug_bytes(body: &Vec<u8>) -> (text: String)
    ensures
        text@ == bytes_debug_text(body@),
{
    format!("{:?}", bytes::Bytes::copy_from_slice(body.as_slice()))
}

/// The JSON text that `serde_json::to_string` gives for the string
/// `text`, where it gives one.
pub uninterp spec fn json_string_text(text: Seq<char>) -> Option<Seq<char>>;

/// `text` as a JSON string, by `serde_json::to_string`: between double
/// quotes, with the characters escaped that JSON wants escaped. The same
/// text always gives the same result.
#[verifier::external_body]
pub(crate) fn json_string(text: &str) -> (encoded: Option<String>)
    ensures
        crate::text::opt_text(encoded) == json_string_text(text@),
{
    serde_json::to_string(text).ok()
}

/// The sending half of tokio's unbounded channel.
#[verifier::external_type_specification]
#[verifier::external_body]
#[verifier::reject_recursive_types(T)]
pub struct ExUnboundedSender<T>(UnboundedSender<T>);

/// Hands `message` to the channel with `UnboundedSender::send`, which
/// never waits. Whether it was taken depends on the receiving half: the
/// send fails once that half was closed or dropped. Nothing is claimed of
/// the answer.
#[verifier::external_body]
pub(crate) fn send_notification(channel: &UnboundedSender<Notification>, message: Notification) -> (delivered: bool) {
    channel.send(message).is_ok()
}

/// The string that `bytes` encode in UTF-8, by `String::from_utf8`; none
/// where they are no valid UTF-8.
#[verifier::external_body]
pub(crate) fn string_from_utf8(bytes: Vec<u8>) -> (text: Option<String>)
    ensures
        text.is_some() == valid_utf8(bytes@),
        text matches Some(s) ==> encode_utf8(s@) == bytes@,
{
    String::from_utf8(bytes).ok()
}

/// What the groups of the regular expression `pattern` capture in its
/// leftmost match in `text`, by `regex::Regex::captures`: one entry for
/// each group, the whole match first, and no text for a group that took
/// no part in the match. There is nothing where `pattern` does not match
/// in `text`, nor where `regex::Regex::new` does not accept it.
pub uninterp spec fn regex_groups(pattern: Seq<char>, text: Seq<char>) -> Option<
    Seq<Option<Seq<char>>>,
>;

/// What the groups of `pattern` capture in its leftmost match in `text`,
/// by `regex::Regex::new` and `regex::Regex::captures`. The same pattern
/// and text always give the same result.
#[verifier::external_body]
pub(crate) fn regex_captures(pattern: &str, text: &str) -> (groups: Option<Vec<Option<String>>>)
    ensures
        crate::text::opt_group_texts(groups) == regex_groups(pattern@, text@),
{
    let expression = regex::Regex::new(pattern).ok()?;
    let found = expression.captures(text)?;
    Some(found.iter().map(|group| group.map(|m| m.as_str().to_owned())).collect())
}

} // verus!
