//! The operations against the cloud provider: what to ask, and what to make
//! of the answers.

pub mod cloudwatch_logs;
pub mod credentials;
pub mod dto;
pub mod ecs;
pub mod manager;
pub mod s3;
