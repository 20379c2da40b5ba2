//! The log query: the request it sends, the records it yields, and the order
//! in which the buffered form returns them.

use vstd::prelude::*;
use crate::error::{ErrorKind, ServiceError};
use crate::sorting::{rank_order, sort_by_rank, stable_sorted};
use crate::outside::utc_now_millis;
use crate::text::copy_text;
use self::dto::{
    timestamp_le, EventResponse, EventType, FilterLogEventsRequest, FilterLogEventsResponse,
    FilteredLogEvent, LogsOptions,
};

pub mod dto;

verus! {

/// The number of events asked for when the caller names none.
pub const DEFAULT_LIMIT: i64 = 100;

/// One day, in milliseconds.
pub const DAY_MILLIS: i64 = 86_400_000;

/// Two weeks, in milliseconds.
pub const TWO_WEEKS_MILLIS: i64 = 1_209_600_000;

/// The seconds between two keep-alive signals on a live stream.
pub const KEEP_ALIVE_SECONDS: u64 = 5;

/// The end of the window of a query made at `now`: the one the caller
/// gave, else one day after `now`.
pub open spec fn window_end(options: LogsOptions, now: int) -> int {
    match options.end_time_utc_millis {
        Some(t) => t as int,
        None => now + DAY_MILLIS,
    }
}

/// The start of the window of a query made at `now`: the one the caller
/// gave, else two weeks before `now`.
pub open spec fn window_start(options: LogsOptions, now: int) -> int {
    match options.start_time_utc_millis {
        Some(t) => t as int,
        None => now - TWO_WEEKS_MILLIS,
    }
}

/// The limit of a query: the one the caller gave, else the default.
pub open spec fn limit_of(options: LogsOptions) -> int {
    match options.limit {
        Some(n) => n as int,
        None => DEFAULT_LIMIT as int,
    }
}

/// Both ends of the window of a query made at `now` can be held in an `i64`.
pub open spec fn window_fits(options: LogsOptions, now: int) -> bool {
    &&& i64::MIN <= window_start(options, now) <= i64::MAX
    &&& i64::MIN <= window_end(options, now) <= i64::MAX
}

/// The search that `options` ask for, made at the time `now_millis`.
pub fn query_logs(options: LogsOptions, now_millis: i64) -> (request: FilterLogEventsRequest)
    requires
        window_fits(options, now_millis as int),
    ensures
        request.filter_pattern == options.filter_pattern,
        request.limit == Some(limit_of(options) as i64),
        request.log_group_name == options.log_group,
        request.log_stream_name_prefix == options.log_stream_name_prefix,
        request.next_token == options.next_token,
        request.end_time == Some(window_end(options, now_millis as int) as i64),
        request.start_time == Some(window_start(options, now_millis as int) as i64),
{
    let limit: i64 = match options.limit {
        Some(n) => n,
        None => DEFAULT_LIMIT,
    };
    let end_time: i64 = match options.end_time_utc_millis {
        Some(t) => t,
        None => now_millis + DAY_MILLIS,
    };
    let start_time: i64 = match options.start_time_utc_millis {
        Some(t) => t,
        None => now_millis - TWO_WEEKS_MILLIS,
    };
    FilterLogEventsRequest {
        filter_pattern: options.filter_pattern,
        limit: Some(limit),
        log_group_name: options.log_group,
        log_stream_name_prefix: options.log_stream_name_prefix,
        next_token: options.next_token,
        end_time: Some(end_time),
        start_time: Some(start_time),
    }
}

/// Whether both ends of the window of a query made at `now_millis` can be
/// held in an `i64`.
pub fn window_in_range(options: &LogsOptions, now_millis: i64) -> (fits: bool)
    ensures
        fits == window_fits(*options, now_millis as int),
{
    let end_fits = options.end_time_utc_millis.is_some() || now_millis <= i64::MAX - DAY_MILLIS;
    let start_fits = options.start_time_utc_millis.is_some() || now_millis >= i64::MIN
        + TWO_WEEKS_MILLIS;
    end_fits && start_fits
}

/// The search that `options` ask for, made now. There is none where the
/// clock reads a time so far from the epoch that the default window cannot
/// be held in an `i64`.
pub fn query_logs_now(options: LogsOptions) -> (request: Option<FilterLogEventsRequest>)
    ensures
        match request {
            Some(r) => exists|now: i64|
                {
                    &&& window_fits(options, now as int)
                    &&& r.filter_pattern == options.filter_pattern
                    &&& r.limit == Some(limit_of(options) as i64)
                    &&& r.log_group_name == options.log_group
                    &&& r.log_stream_name_prefix == options.log_stream_name_prefix
                    &&& r.next_token == options.next_token
                    &&& r.end_time == Some(window_end(options, now as int) as i64)
                    &&& r.start_time == Some(window_start(options, now as int) as i64)
                },
            None => options.start_time_utc_millis.is_none() || options.end_time_utc_millis.is_none(),
        },
{
    let now = utc_now_millis();
    if window_in_range(&options, now) {
        Some(query_logs(options, now))
    } else {
        None
    }
}

/// The record that carries the continuation token.
pub open spec fn token_record(next_token: Option<String>) -> EventResponse {
    EventResponse {
        event_type: EventType::TOKEN,
        event_id: None,
        ingestion_time: None,
        log_stream_name: None,
        message: None,
        timestamp: None,
        token: next_token,
    }
}

/// The record of one matched event.
pub open spec fn log_record(event: FilteredLogEvent) -> EventResponse {
    EventResponse {
        event_type: EventType::LOG,
        event_id: event.event_id,
        ingestion_time: event.ingestion_time,
        log_stream_name: event.log_stream_name,
        message: event.message,
        timestamp: event.timestamp,
        token: None,
    }
}

/// The events of a response; none where the provider sent no list.
pub open spec fn events_of(response: FilterLogEventsResponse) -> Seq<FilteredLogEvent> {
    match response.events {
        Some(list) => list@,
        None => Seq::empty(),
    }
}

/// The records of a response: the token record, then one record for each
/// event, in the provider's order.
pub open spec fn records_of(response: FilterLogEventsResponse) -> Seq<EventResponse> {
    seq![token_record(response.next_token)] + events_of(response).map_values(
        |e: FilteredLogEvent| log_record(e),
    )
}

/// The records are one token record followed by log records only.
pub open spec fn token_then_logs(records: Seq<EventResponse>) -> bool {
    &&& records.len() >= 1
    &&& records[0].event_type == EventType::TOKEN
    &&& forall|i: int| 1 <= i < records.len() ==> (#[trigger] records[i]).event_type == EventType::LOG
}

/// The records of a response are one token record followed by log
/// records only, and stay so when they are sorted by timestamp.
pub proof fn lemma_token_comes_first(response: FilterLogEventsResponse)
    ensures
        token_then_logs(records_of(response)),
        token_then_logs(stable_sorted(records_of(response), rank_order::<EventResponse>())),
        stable_sorted(records_of(response), rank_order::<EventResponse>())[0] == token_record(
            response.next_token,
        ),
{
    let records = records_of(response);
    let le = rank_order::<EventResponse>();
    assert forall|k: int| 0 <= k < records.len() implies le(records[0], #[trigger] records[k]) by {}
    crate::sorting::lemma_stable_sorted_first(records, le);
    let rest = records.drop_first();
    let sorted = stable_sorted(rest, le);
    let out = stable_sorted(records, le);
    assert forall|i: int| 1 <= i < out.len() implies (#[trigger] out[i]).event_type
        == EventType::LOG by {
        assert(out[i] == sorted[i - 1]);
        assert(sorted.contains(sorted[i - 1]));
        crate::sorting::lemma_stable_sorted_contains(rest, le, sorted[i - 1]);
        let m = choose|m: int| 0 <= m < rest.len() && rest[m] == sorted[i - 1];
        assert(rest[m] == records[m + 1]);
    }
}

/// The records of a response: the token record, then one record for each
/// event, in the provider's order.
pub fn log_records(response: &FilterLogEventsResponse) -> (records: Vec<EventResponse>)
    ensures
        records@ == records_of(*response),
        token_then_logs(records@),
{
    proof {
        lemma_token_comes_first(*response);
    }
    let mut records: Vec<EventResponse> = Vec::new();
    records.push(
        EventResponse {
            event_type: EventType::TOKEN,
            event_id: None,
            ingestion_time: None,
            log_stream_name: None,
            message: None,
            timestamp: None,
            token: copy_text(&response.next_token),
        },
    );
    match &response.events {
        Some(events) => {
            let mut i: usize = 0;
            while i < events.len()
                invariant
                    i <= events.len(),
                    response.events == Some(*events),
                    records@.len() == i + 1,
                    records@[0] == token_record(response.next_token),
                    forall|j: int| 0 <= j < i ==> records@[j + 1] == log_record(events@[j]),
                decreases events.len() - i,
            {
                let event = &events[i];
                records.push(
                    EventResponse {
                        event_type: EventType::LOG,
                        event_id: copy_text(&event.event_id),
                        ingestion_time: event.ingestion_time,
                        log_stream_name: copy_text(&event.log_stream_name),
                        message: copy_text(&event.message),
                        timestamp: event.timestamp,
                        token: None,
                    },
                );
                i = i + 1;
            }
        },
        None => {},
    }
    assert(records@ =~= records_of(*response));
    records
}

/// What the streaming form of a query sends: the records of the response in
/// the provider's order, and nothing where the query failed.
pub open spec fn streamed(outcome: Result<FilterLogEventsResponse, ServiceError>) -> Seq<
    EventResponse,
> {
    match outcome {
        Ok(response) => records_of(response),
        Err(_) => Seq::empty(),
    }
}

/// The records that the streaming form of a query sends, in order. A query
/// that failed ends the stream with nothing sent.
pub fn sse_events(outcome: &Result<FilterLogEventsResponse, ServiceError>) -> (records: Vec<
    EventResponse,
>)
    ensures
        records@ == streamed(*outcome),
{
    match outcome {
        Ok(response) => log_records(response),
        Err(_) => Vec::new(),
    }
}

/// The records that the buffered form of a query returns: those of the
/// response, sorted by timestamp, a record without timestamp first. The
/// failure of the query is handed on as a provider failure.
pub fn get_logs(outcome: Result<FilterLogEventsResponse, ServiceError>) -> (result: Result<
    Vec<EventResponse>,
    ServiceError,
>)
    ensures
        match outcome {
            Ok(response) => {
                &&& result.is_ok()
                &&& result.unwrap()@ == stable_sorted(
                    records_of(response),
                    rank_order::<EventResponse>(),
                )
                &&& forall|i: int, j: int|
                    0 <= i < j < result.unwrap()@.len() ==> timestamp_le(
                        result.unwrap()@[i].timestamp,
                        result.unwrap()@[j].timestamp,
                    )
                &&& result.unwrap()@.to_multiset() == records_of(response).to_multiset()
                &&& token_then_logs(result.unwrap()@)
                &&& result.unwrap()@[0] == token_record(response.next_token)
            },
            Err(e) => {
                &&& result.is_err()
                &&& result.unwrap_err().kind == ErrorKind::ProviderApi
                &&& result.unwrap_err().message == e.message
            },
        },
{
    match outcome {
        Ok(response) => {
            proof {
                lemma_token_comes_first(response);
            }
            let sorted = sort_by_rank(log_records(&response));
            assert forall|i: int, j: int| 0 <= i < j < sorted@.len() implies timestamp_le(
                sorted@[i].timestamp,
                sorted@[j].timestamp,
            ) by {
                assert(rank_order::<EventResponse>()(sorted@[i], sorted@[j]));
            }
            Ok(sorted)
        },
        Err(e) => Err(ServiceError { kind: ErrorKind::ProviderApi, message: e.message }),
    }
}

} // verus!
