//! Verified core of a cloud-monitoring backend.
//!
//! The service exchanges a role identifier for temporary credentials,
//! assembles the topology of resource groups, services and tasks from the
//! answers of the provider, shapes the records of a log query, and fans
//! published messages out to live subscribers. This library holds the
//! decisions of all four: what is asked, what is kept of the answers, in
//! which order things come out, and who is dropped. The calls over the
//! network, the files and the routes are the caller's.
//!
//! - [`aws::credentials`]: when a role can be assumed, what is sent, and
//!   what is made of the answer or of its failure.
//! - [`aws::ecs`]: the stages of the aggregation and the assembly of the
//!   tree, with the laws of partial failure, exclusion and order.
//! - [`aws::cloudwatch_logs`]: the request of a log query and its records,
//!   streamed in the provider's order or buffered and sorted.
//! - [`aws::manager`]: the configuration, the validity of its token, and
//!   the reading of the credentials file.
//! - [`notifications`]: the registry of subscribers and the broadcast.
//! - [`error`]: the classes of failure and the replies to rejected requests.
//! - [`text`], [`sorting`], [`seqs`], [`text_map`]: search and order on
//!   strings, a stable sort, and a map that keeps the order of its keys.
//! - [`outside`]: the calls into other crates, with contracts that are
//!   taken on trust.

pub mod aws;
pub mod error;
pub mod notifications;
pub mod outside;
pub mod seqs;
pub mod sorting;
pub mod text;
pub mod text_map;
