use aws_manager::aws::cloudwatch_logs::dto::{
    EventResponse, EventType, FilterLogEventsResponse, FilteredLogEvent, LogsOptions,
};
use aws_manager::aws::cloudwatch_logs::{
    get_logs, log_records, query_logs, query_logs_now, sse_events, window_in_range, DAY_MILLIS,
    DEFAULT_LIMIT, KEEP_ALIVE_SECONDS, TWO_WEEKS_MILLIS,
};
use aws_manager::aws::credentials::{provider_keys, Credentials};
use aws_manager::error::{ErrorKind, ServiceError};

fn options() -> LogsOptions {
    LogsOptions {
        role_arn: "arn:aws:iam::1:role/reader".to_string(),
        log_group: "/svc/api".to_string(),
        log_stream_name_prefix: None,
        next_token: None,
        limit: None,
        filter_pattern: None,
        start_time_utc_millis: None,
        end_time_utc_millis: None,
    }
}

fn event(id: &str, timestamp: Option<i64>) -> FilteredLogEvent {
    FilteredLogEvent {
        event_id: Some(id.to_string()),
        ingestion_time: Some(7),
        log_stream_name: Some("stream".to_string()),
        message: Some(format!("message {}", id)),
        timestamp,
    }
}

fn ids(records: &[EventResponse]) -> Vec<Option<String>> {
    records.iter().map(|r| r.event_id.clone()).collect()
}

#[test]
fn test_logs_options_serialises() {
    let given = LogsOptions {
        role_arn: "role".to_string(),
        log_group: "group".to_string(),
        log_stream_name_prefix: Some("web-".to_string()),
        next_token: Some("t1".to_string()),
        limit: Some(25),
        filter_pattern: Some("ERROR".to_string()),
        start_time_utc_millis: Some(1_000),
        end_time_utc_millis: Some(2_000),
    };
    let request = query_logs(given.clone(), 0);
    assert_eq!(request.log_group_name, given.log_group);
    assert_eq!(request.log_stream_name_prefix, given.log_stream_name_prefix);
    assert_eq!(request.next_token, given.next_token);
    assert_eq!(request.limit, Some(25));
    assert_eq!(request.filter_pattern, given.filter_pattern);
    assert_eq!(request.start_time, Some(1_000));
    assert_eq!(request.end_time, Some(2_000));
}

#[test]
fn test_events_response_serialises() {
    let response = FilterLogEventsResponse { events: Some(vec![event("e1", Some(5))]), next_token: None };
    let records = log_records(&response);
    assert_eq!(
        records[1],
        EventResponse {
            event_type: EventType::LOG,
            event_id: Some("e1".to_string()),
            ingestion_time: Some(7),
            log_stream_name: Some("stream".to_string()),
            message: Some("message e1".to_string()),
            timestamp: Some(5),
            token: None,
        }
    );
}

#[test]
fn test_event_type_serialises() {
    assert_ne!(EventType::LOG, EventType::TOKEN);
    let response = FilterLogEventsResponse { events: Some(vec![event("e1", None)]), next_token: None };
    let records = log_records(&response);
    assert_eq!(records[0].event_type, EventType::TOKEN);
    assert_eq!(records[1].event_type, EventType::LOG);
}

#[test]
fn test_build_logs_client() {
    let keys = provider_keys(Credentials {
        aws_access_key: "AKIA".to_string(),
        aws_secret_key: "secret".to_string(),
        aws_sts_token: "token".to_string(),
        aws_expiration: "soon".to_string(),
    });
    assert_eq!(keys.access_key, "AKIA");
    assert_eq!(keys.secret_key, "secret");
    assert_eq!(keys.token, Some("token".to_string()));
}

#[test]
fn test_query() {
    let now: i64 = 1_600_000_000_000;
    let request = query_logs(options(), now);
    assert_eq!(request.limit, Some(100));
    assert_eq!(request.log_group_name, "/svc/api");
    assert_eq!(request.end_time, Some(1_600_086_400_000));
    assert_eq!(request.start_time, Some(1_598_790_400_000));
    assert_eq!(request.next_token, None);
    assert_eq!(request.filter_pattern, None);
    assert_eq!(request.log_stream_name_prefix, None);
}

#[test]
fn test_get_logs() {
    let response = FilterLogEventsResponse {
        events: Some(vec![event("a", Some(30)), event("b", None), event("c", Some(-5))]),
        next_token: Some("next".to_string()),
    };
    let records = get_logs(Ok(response)).unwrap();
    assert_eq!(records.len(), 4);
    assert_eq!(records[0].event_type, EventType::TOKEN);
    assert_eq!(records[0].token, Some("next".to_string()));
    assert!(records[1..].iter().all(|r| r.event_type == EventType::LOG));
    assert_eq!(
        ids(&records),
        vec![None, Some("b".to_string()), Some("c".to_string()), Some("a".to_string())]
    );
}

#[test]
fn test_sse_events() {
    let response = FilterLogEventsResponse {
        events: Some(vec![event("a", Some(30)), event("b", Some(10))]),
        next_token: None,
    };
    let records: Vec<EventResponse> = sse_events(&Ok(response));
    assert_eq!(records.len(), 3);
    assert_eq!(records[0].event_type, EventType::TOKEN);
    assert_eq!(records[0].token, None);
    assert_eq!(records[1].event_type, EventType::LOG);
    assert_eq!(records[1].event_id, Some("a".to_string()));
    assert_eq!(records[2].event_id, Some("b".to_string()));
}

#[test]
fn window_defaults_to_two_weeks_before_and_one_day_after() {
    assert_eq!(DAY_MILLIS, 24 * 60 * 60 * 1000);
    assert_eq!(TWO_WEEKS_MILLIS, 14 * 24 * 60 * 60 * 1000);
    let request = query_logs(options(), 0);
    assert_eq!(request.start_time, Some(-1_209_600_000));
    assert_eq!(request.end_time, Some(86_400_000));
}

#[test]
fn explicit_window_is_sent_as_given() {
    let mut given = options();
    given.start_time_utc_millis = Some(111);
    given.end_time_utc_millis = Some(222);
    let request = query_logs(given, 1_600_000_000_000);
    assert_eq!(request.start_time, Some(111));
    assert_eq!(request.end_time, Some(222));
}

#[test]
fn one_end_of_the_window_may_be_given() {
    let mut given = options();
    given.start_time_utc_millis = Some(5);
    let request = query_logs(given, 1_000);
    assert_eq!(request.start_time, Some(5));
    assert_eq!(request.end_time, Some(86_401_000));
}

#[test]
fn limit_defaults_to_one_hundred() {
    assert_eq!(DEFAULT_LIMIT, 100);
    let mut given = options();
    assert_eq!(query_logs(given.clone(), 0).limit, Some(100));
    given.limit = Some(3);
    assert_eq!(query_logs(given, 0).limit, Some(3));
}

#[test]
fn window_that_cannot_be_held_is_recognised() {
    assert!(window_in_range(&options(), 0));
    assert!(!window_in_range(&options(), i64::MAX));
    assert!(!window_in_range(&options(), i64::MIN));
    assert!(window_in_range(&options(), i64::MAX - 86_400_000));
    assert!(!window_in_range(&options(), i64::MAX - 86_399_999));
    assert!(window_in_range(&options(), i64::MIN + 1_209_600_000));
    assert!(!window_in_range(&options(), i64::MIN + 1_209_599_999));
    let mut given = options();
    given.start_time_utc_millis = Some(0);
    given.end_time_utc_millis = Some(1);
    assert!(window_in_range(&given, i64::MAX));
}

#[test]
fn query_made_now_has_a_window_of_fifteen_days() {
    let request = query_logs_now(options()).unwrap();
    let start = request.start_time.unwrap();
    let end = request.end_time.unwrap();
    assert_eq!(end - start, 86_400_000 + 1_209_600_000);
    // The clock is read: the window lies after the year 2020.
    assert!(end > 1_577_836_800_000);
    assert_eq!(request.limit, Some(100));
}

#[test]
fn records_start_with_the_token_and_keep_the_provider_order() {
    let response = FilterLogEventsResponse {
        events: Some(vec![event("z", Some(9)), event("y", Some(1)), event("x", Some(5))]),
        next_token: Some("more".to_string()),
    };
    let records = log_records(&response);
    assert_eq!(records.len(), 4);
    assert_eq!(
        records[0],
        EventResponse {
            event_type: EventType::TOKEN,
            event_id: None,
            ingestion_time: None,
            log_stream_name: None,
            message: None,
            timestamp: None,
            token: Some("more".to_string()),
        }
    );
    assert_eq!(
        ids(&records[1..]),
        vec![Some("z".to_string()), Some("y".to_string()), Some("x".to_string())]
    );
}

#[test]
fn response_without_events_gives_the_token_alone() {
    let none = FilterLogEventsResponse { events: None, next_token: None };
    assert_eq!(log_records(&none).len(), 1);
    assert_eq!(sse_events(&Ok(none.clone())).len(), 1);
    let empty = FilterLogEventsResponse { events: Some(vec![]), next_token: Some("t".to_string()) };
    let records = get_logs(Ok(empty)).unwrap();
    assert_eq!(records.len(), 1);
    assert_eq!(records[0].event_type, EventType::TOKEN);
    assert_eq!(records[0].token, Some("t".to_string()));
}

#[test]
fn buffered_records_are_sorted_and_the_sort_is_stable() {
    let response = FilterLogEventsResponse {
        events: Some(vec![
            event("a", Some(5)),
            event("b", Some(3)),
            event("c", Some(5)),
            event("d", None),
            event("e", Some(3)),
            event("f", Some(i64::MIN)),
            event("g", Some(i64::MAX)),
            event("h", None),
        ]),
        next_token: None,
    };
    let records = get_logs(Ok(response)).unwrap();
    for pair in records.windows(2) {
        assert!(pair[0].timestamp <= pair[1].timestamp);
    }
    let expected: Vec<Option<String>> = vec![None, Some("d"), Some("h"), Some("f"), Some("b"), Some("e"), Some("a"), Some("c"), Some("g")]
        .into_iter()
        .map(|id| id.map(|s: &str| s.to_string()))
        .collect();
    assert_eq!(ids(&records), expected);
}

#[test]
fn failed_query_is_a_provider_failure_when_buffered_and_an_empty_stream_when_streamed() {
    let failure = ServiceError { kind: ErrorKind::Transport, message: "throttled".to_string() };
    let error = get_logs(Err(failure.clone())).unwrap_err();
    assert_eq!(error.kind, ErrorKind::ProviderApi);
    assert_eq!(error.message, "throttled");
    assert!(sse_events(&Err(failure)).is_empty());
}

#[test]
fn keep_alive_comes_every_five_seconds() {
    assert_eq!(KEEP_ALIVE_SECONDS, 5);
}
