use aws_manager::aws::cloudwatch_logs::dto::{EventResponse, EventType};
use aws_manager::aws::s3::build_bucket_path;
use aws_manager::error::{
    handle_rejection, BodyFailure, Cause, ErrorKind, ErrorMessage, ErrorWrapper, Rejection,
    ServiceError,
};
use aws_manager::sorting::sort_by_rank;
use aws_manager::text::{
    chars_of, chars_le, contains, contains_ignore_case, copy_text, copy_texts, decimal_string,
    find_chars, find_text, lowered_chars, opt_string_le, to_ascii_lower,
};
use aws_manager::text_map::TextMap;

fn text(s: &str) -> String {
    s.to_string()
}

fn nothing() -> Rejection {
    Rejection { not_found: false, failure: None, body: None, method_not_allowed: false }
}

fn not_found() -> Rejection {
    Rejection { not_found: true, ..nothing() }
}

fn method_not_allowed() -> Rejection {
    Rejection { method_not_allowed: true, ..nothing() }
}

fn body(cause: Option<&str>) -> Rejection {
    Rejection { body: Some(BodyFailure { cause: cause.map(text) }), ..nothing() }
}

fn wrapped(message: &str) -> Rejection {
    Rejection {
        failure: Some(ErrorWrapper {
            error: ServiceError { kind: ErrorKind::Authentication, message: message.to_string() },
        }),
        ..nothing()
    }
}

fn reply(code: u16, message: &str) -> (u16, String) {
    (code, message.to_string())
}

fn handled(err: Rejection) -> ((u16, String), Option<String>) {
    let out = handle_rejection(err);
    let ErrorMessage { code, message } = out.reply;
    ((code, message), out.notice)
}

#[test]
fn test_s3_read() {
    assert_eq!(build_bucket_path("my-bucket:path/to/key.json"), (text("my-bucket"), text("path/to/key.json")));
    assert_eq!(build_bucket_path("a:b:c"), (text("a"), text("b")));
    assert_eq!(build_bucket_path("bucket:"), (text("bucket"), text("")));
    assert_eq!(build_bucket_path(":key"), (text(""), text("key")));
    assert_eq!(build_bucket_path(":"), (text(""), text("")));
    assert_eq!(build_bucket_path("::"), (text(""), text("")));
    assert_eq!(build_bucket_path("büçket:kéy:x"), (text("büçket"), text("kéy")));
}

#[test]
fn rejections_become_replies() {
    assert_eq!(handled(not_found()), (reply(404, "NOT_FOUND"), None));
    assert_eq!(handled(method_not_allowed()), (reply(405, "METHOD_NOT_ALLOWED"), None));
    assert_eq!(handled(nothing()), (reply(500, "UNHANDLED_REJECTION"), None));
    assert_eq!(handled(body(None)), (reply(400, "BAD_REQUEST"), None));
    assert_eq!(handled(body(Some("missing field `role_arn`"))), (reply(400, "BAD_REQUEST"), None));
    assert_eq!(handled(body(Some("invalid denom at line 1"))), (reply(400, "FIELD_ERROR: denom"), None));
    assert_eq!(handled(wrapped("Failed to read clusters")), (reply(500, "Failed to read clusters"), None));
}

#[test]
fn rejection_with_several_causes_is_answered_by_the_first() {
    let all = Rejection {
        not_found: true,
        failure: wrapped("token expired").failure,
        body: body(Some("denom")).body,
        method_not_allowed: true,
    };
    assert_eq!(handled(all.clone()), (reply(404, "NOT_FOUND"), None));
    let failed = Rejection { not_found: false, ..all };
    assert_eq!(handled(failed.clone()), (reply(500, "token expired"), Some(text("token expired"))));
    let unread = Rejection { failure: None, ..failed };
    assert_eq!(handled(unread.clone()), (reply(400, "FIELD_ERROR: denom"), None));
    let refused = Rejection { body: None, ..unread };
    assert_eq!(handled(refused), (reply(405, "METHOD_NOT_ALLOWED"), None));
    assert_eq!(handle_rejection(not_found()).cause, Cause::NotFound);
    assert_eq!(handle_rejection(wrapped("x")).cause, Cause::Failure);
    assert_eq!(handle_rejection(body(None)).cause, Cause::Body);
    assert_eq!(handle_rejection(method_not_allowed()).cause, Cause::MethodNotAllowed);
    assert_eq!(handle_rejection(nothing()).cause, Cause::Unhandled);
}

#[test]
fn internal_error_that_mentions_a_token_is_notified() {
    assert_eq!(
        handled(wrapped("The security token included in the request is expired")),
        (
            reply(500, "The security token included in the request is expired"),
            Some(text("The security token included in the request is expired"))
        )
    );
    assert_eq!(handled(wrapped("Token is not valid")), (reply(500, "Token is not valid"), None));
    assert_eq!(handled(wrapped("token")), (reply(500, "token"), Some(text("token"))));
    assert_eq!(handled(wrapped("")), (reply(500, ""), None));
}

#[test]
fn failure_is_rendered_by_its_message() {
    let failure = ServiceError::of(ErrorKind::Transport, "channel closed");
    assert_eq!(failure.kind, ErrorKind::Transport);
    assert_eq!(failure.render(), "channel closed");
    let other = ServiceError::new(ErrorKind::MalformedRequest, text("bad body"));
    assert_eq!(other.kind, ErrorKind::MalformedRequest);
    assert_eq!(other.render(), "bad body");
    assert_ne!(ErrorKind::AggregationPartial, ErrorKind::AggregationFatal);
    assert_ne!(ErrorKind::Authentication, ErrorKind::ProviderApi);
}

#[test]
fn text_is_found_at_its_leftmost_place() {
    assert_eq!(find_text("hello world", "o"), Some(4));
    assert_eq!(find_text("hello world", "world"), Some(6));
    assert_eq!(find_text("hello", "hello"), Some(0));
    assert_eq!(find_text("hello", ""), Some(0));
    assert_eq!(find_text("", ""), Some(0));
    assert_eq!(find_text("", "a"), None);
    assert_eq!(find_text("hello", "hello!"), None);
    assert_eq!(find_text("aaab", "aab"), Some(1));
    assert_eq!(find_text("äöü<x>", "<x>"), Some(3));
    assert_eq!(find_chars(&vec!['a', 'b', 'c'], &vec!['c']), Some(2));
    assert_eq!(find_chars(&vec!['a', 'b', 'c'], &vec!['d']), None);
    assert!(contains("my-default-cluster", "default"));
    assert!(!contains("my-Default-cluster", "default"));
    assert!(!contains("defaul", "default"));
}

#[test]
fn letter_case_is_disregarded_for_ascii_only() {
    assert!(contains_ignore_case("An ERROR", "error"));
    assert!(contains_ignore_case("an error", "ERROR"));
    assert!(!contains_ignore_case("an err", "error"));
    assert!(contains_ignore_case("ÄB", "äb") == false);
    assert_eq!(to_ascii_lower('A'), 'a');
    assert_eq!(to_ascii_lower('Z'), 'z');
    assert_eq!(to_ascii_lower('a'), 'a');
    assert_eq!(to_ascii_lower('@'), '@');
    assert_eq!(to_ascii_lower('['), '[');
    assert_eq!(to_ascii_lower('Ä'), 'Ä');
    assert_eq!(lowered_chars("AbC-É9"), vec!['a', 'b', 'c', '-', 'É', '9']);
    assert_eq!(chars_of("aß✓"), vec!['a', 'ß', '✓']);
}

#[test]
fn numbers_are_rendered_in_decimal() {
    for n in [0usize, 1, 9, 10, 11, 99, 100, 101, 1_000, 65_535, 4_294_967_295, usize::MAX] {
        assert_eq!(decimal_string(n), n.to_string());
    }
}

#[test]
fn texts_are_ordered_as_strings_are() {
    let samples = ["", "a", "A", "aa", "ab", "b", "B", "é", "z", "~", "a b", "日本", "\u{10ffff}"];
    for a in samples {
        for b in samples {
            let left: Vec<char> = a.chars().collect();
            let right: Vec<char> = b.chars().collect();
            assert_eq!(chars_le(&left, &right), a <= b);
            assert_eq!(opt_string_le(&Some(text(a)), &Some(text(b))), a <= b);
        }
        assert!(opt_string_le(&None, &Some(text(a))));
        assert!(!opt_string_le(&Some(text(a)), &None));
    }
    assert!(opt_string_le(&None, &None));
}

#[test]
fn copies_are_equal_to_what_they_copy() {
    assert_eq!(copy_text(&Some(text("x"))), Some(text("x")));
    assert_eq!(copy_text(&None), None);
    assert_eq!(copy_texts(&vec![text("a"), text(""), text("c")]), vec![text("a"), text(""), text("c")]);
    assert_eq!(copy_texts(&vec![]), Vec::<String>::new());
}

#[test]
fn map_keeps_the_order_of_first_insertion() {
    let mut map: TextMap<i32> = TextMap::new();
    assert_eq!(map.len(), 0);
    map.insert(text("b"), 1);
    map.insert(text("a"), 2);
    map.insert(text("b"), 3);
    map.insert(text(""), 4);
    assert_eq!(map.len(), 3);
    assert_eq!((map.key(0).as_str(), *map.value(0)), ("b", 3));
    assert_eq!((map.key(1).as_str(), *map.value(1)), ("a", 2));
    assert_eq!((map.key(2).as_str(), *map.value(2)), ("", 4));
    assert_eq!(map.get(&text("a")), Some(&2));
    assert_eq!(map.get(&text("c")), None);
    assert_eq!(map.position(&text("a")), Some(1));
    assert_eq!(map.position(&text("A")), None);
    let built = TextMap::from_pairs(vec![(text("x"), 1), (text("y"), 2), (text("x"), 3)]);
    assert_eq!(built.len(), 2);
    assert_eq!((built.key(0).as_str(), *built.value(0)), ("x", 3));
    assert_eq!((built.key(1).as_str(), *built.value(1)), ("y", 2));
}

#[test]
fn sort_is_stable() {
    let record = |id: &str, timestamp: Option<i64>| EventResponse {
        event_type: EventType::LOG,
        event_id: Some(id.to_string()),
        ingestion_time: None,
        log_stream_name: None,
        message: None,
        timestamp,
        token: None,
    };
    let sorted = sort_by_rank(vec![
        record("a", Some(2)),
        record("b", Some(1)),
        record("c", Some(2)),
        record("d", None),
        record("e", Some(1)),
        record("f", None),
    ]);
    let ids: Vec<&str> = sorted.iter().map(|r| r.event_id.as_deref().unwrap()).collect();
    assert_eq!(ids, vec!["d", "f", "b", "e", "a", "c"]);
    assert!(sort_by_rank(Vec::<EventResponse>::new()).is_empty());
}
