//! The records of a log query, its options, and the provider's request and
//! response as far as the service reads them.

use vstd::prelude::*;
use crate::sorting::Ranked;

verus! {

/// What a record of a log query carries.
#[derive(Debug, Clone, Copy, PartialEq, Eq, Structural)]
pub enum EventType {
    /// One matched log event.
    LOG,
    /// The continuation token of the query.
    TOKEN,
}

/// One record of a log query's output.
#[derive(Debug, Clone, PartialEq)]
pub struct EventResponse {
    pub event_type: EventType,
    /// The ID of the event.
    pub event_id: Option<String>,
    /// When the event was ingested, in milliseconds after Jan 1, 1970 00:00:00 UTC.
    pub ingestion_time: Option<i64>,
    /// The name of the log stream to which the event belongs.
    pub log_stream_name: Option<String>,
    /// The data contained in the log event.
    pub message: Option<String>,
    /// When the event occurred, in milliseconds after Jan 1, 1970 00:00:00 UTC.
    pub timestamp: Option<i64>,
    /// The token with which the query continues.
    pub token: Option<String>,
}

/// The parameters of a log query, as the caller gives them.
#[derive(Debug, Clone, PartialEq)]
pub struct LogsOptions {
    pub role_arn: String,
    pub log_group: String,
    pub log_stream_name_prefix: Option<String>,
    pub next_token: Option<String>,
    pub limit: Option<i64>,
    pub filter_pattern: Option<String>,
    pub start_time_utc_millis: Option<i64>,
    pub end_time_utc_millis: Option<i64>,
}

/// The filtered search that is sent to the provider.
#[derive(Debug, Clone, PartialEq)]
pub struct FilterLogEventsRequest {
    pub filter_pattern: Option<String>,
    pub limit: Option<i64>,
    pub log_group_name: String,
    pub log_stream_name_prefix: Option<String>,
    pub next_token: Option<String>,
    pub end_time: Option<i64>,
    pub start_time: Option<i64>,
}

/// One event that the provider matched.
#[derive(Debug, Clone, PartialEq)]
pub struct FilteredLogEvent {
    pub event_id: Option<String>,
    pub ingestion_time: Option<i64>,
    pub log_stream_name: Option<String>,
    pub message: Option<String>,
    pub timestamp: Option<i64>,
}

/// The provider's answer to a filtered search.
#[derive(Debug, Clone, PartialEq)]
pub struct FilterLogEventsResponse {
    pub events: Option<Vec<FilteredLogEvent>>,
    pub next_token: Option<String>,
}

/// Order of timestamps: an absent one comes before every present one.
pub open spec fn timestamp_le(a: Option<i64>, b: Option<i64>) -> bool {
    match (a, b) {
        (None, _) => true,
        (Some(_), None) => false,
        (Some(x), Some(y)) => x <= y,
    }
}

impl Ranked for EventResponse {
    open spec fn rank_le(&self, other: &Self) -> bool {
        timestamp_le(self.timestamp, other.timestamp)
    }

    fn le(&self, other: &Self) -> (b: bool) {
        match self.timestamp {
            None => true,
            Some(x) => match other.timestamp {
                None => false,
                Some(y) => x <= y,
            },
        }
    }

    proof fn lemma_rank_order() {
    }
}

} // verus!
