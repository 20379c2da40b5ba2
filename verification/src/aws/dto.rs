//! The request that names a role, and the message of a provider's error.

use vstd::prelude::*;

verus! {

/// A request that names the role to act under.
#[derive(Debug, Clone, PartialEq)]
pub struct AwsRequest {
    pub role_arn: String,
}

/// The message that a provider's error envelope carries.
#[derive(Debug, Clone, PartialEq)]
pub struct AwsMessage {
    pub message: String,
}

} // verus!
