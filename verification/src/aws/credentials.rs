//! The exchange of a role identifier for temporary credentials: when it is
//! attempted, what is sent, and what is made of the answer.

use std::sync::Arc;
use vstd::prelude::*;
use vstd::string::{StrSliceExecFns, StringExecFns};
use crate::aws::dto::AwsMessage;
use crate::aws::manager::Config;
use crate::error::{ErrorKind, ServiceError};
use crate::outside::{bytes_debug_text, debug_bytes};
use crate::seqs::{lemma_filter_map_push, oks};
use crate::text::{find_text, first_occurrence};

verus! {

/// The name under which every assumed role's session runs.
pub const SESSION_NAME: &'static str = "dummy";

/// The opening tag of the message in a provider's error envelope.
pub const MESSAGE_TAG: &'static str = "<Message>";

/// Temporary credentials for one request.
#[derive(Debug, Clone, PartialEq)]
pub struct Credentials {
    pub aws_access_key: String,
    pub aws_secret_key: String,
    pub aws_sts_token: String,
    /// When the credentials expire, in the provider's words.
    pub aws_expiration: String,
}

/// The keys with which the assumption call is signed.
#[derive(Debug, Clone, PartialEq)]
pub struct StaticKeys {
    pub access_key: String,
    pub secret_key: String,
    pub token: Option<String>,
}

/// The assumption call as it is sent.
#[derive(Debug, Clone, PartialEq)]
pub struct AssumeRoleRequest {
    pub role_arn: String,
    pub role_session_name: String,
}

/// The credentials in the provider's answer.
#[derive(Debug, Clone, PartialEq)]
pub struct StsCredentials {
    pub access_key_id: String,
    pub expiration: String,
    pub secret_access_key: String,
    pub session_token: String,
}

/// The provider's answer to an assumption call.
#[derive(Debug, Clone, PartialEq)]
pub struct AssumeRoleResponse {
    pub credentials: Option<StsCredentials>,
}

/// The ways in which an assumption call fails.
#[derive(Debug, Clone, PartialEq)]
pub enum AssumeRoleFailure {
    /// The service refused the request; its own words.
    Service(String),
    /// The request could not be dispatched.
    HttpDispatch(String),
    /// The signing credentials could not be had.
    Credentials(String),
    /// The request did not pass validation.
    Validation(String),
    /// The answer could not be parsed.
    ParseError(String),
    /// An answer that the client did not know: its raw body, and the
    /// message that an XML reader found in the fragment of it that starts
    /// at the message tag, where it found one.
    Unknown { body: Vec<u8>, parsed: Option<AwsMessage> },
    /// The call was made where blocking is not allowed.
    Blocking,
}

/// The keys with which `config` signs the assumption call; the failure that
/// names the first temporary key that it lacks.
pub open spec fn static_keys_of(config: Config) -> Result<(Seq<char>, Seq<char>, Option<Seq<char>>), Seq<char>> {
    match (config.aws_temp_access_key_id, config.aws_temp_secret_access_key) {
        (None, _) => Err("aws_temp_access_key_id is not set"@),
        (Some(_), None) => Err("aws_temp_secret_access_keys not set"@),
        (Some(access), Some(secret)) => Ok(
            (access@, secret@, crate::text::opt_text(config.aws_session_token)),
        ),
    }
}

/// The keys with which `config` signs the assumption call. Both temporary
/// keys must be set.
pub fn build_static_provider(config: &Config) -> (result: Result<StaticKeys, ServiceError>)
    ensures
        match static_keys_of(*config) {
            Ok(keys) => result matches Ok(k) && k.access_key@ == keys.0 && k.secret_key@ == keys.1
                && crate::text::opt_text(k.token) == keys.2,
            Err(message) => result matches Err(e) && e.kind == ErrorKind::Authentication
                && e.message@ == message,
        },
{
    let access_key = match &config.aws_temp_access_key_id {
        Some(key) => key.clone(),
        None => {
            return Err(
                ServiceError::of(ErrorKind::Authentication, "aws_temp_access_key_id is not set"),
            );
        },
    };
    let secret_key = match &config.aws_temp_secret_access_key {
        Some(key) => key.clone(),
        None => {
            return Err(
                ServiceError::of(ErrorKind::Authentication, "aws_temp_secret_access_keys not set"),
            );
        },
    };
    Ok(StaticKeys { access_key, secret_key, token: crate::text::copy_text(&config.aws_session_token) })
}

/// The keys with which a client signs its calls under temporary
/// credentials: the two keys, and the session token.
pub fn provider_keys(credentials: Credentials) -> (keys: StaticKeys)
    ensures
        keys.access_key == credentials.aws_access_key,
        keys.secret_key == credentials.aws_secret_key,
        keys.token == Some(credentials.aws_sts_token),
{
    StaticKeys {
        access_key: credentials.aws_access_key,
        secret_key: credentials.aws_secret_key,
        token: Some(credentials.aws_sts_token),
    }
}

/// The assumption call for the role `role_arn`.
pub fn build_assume_role_request(role_arn: &str) -> (request: AssumeRoleRequest)
    ensures
        request.role_arn@ == role_arn@,
        request.role_session_name@ == SESSION_NAME@,
{
    AssumeRoleRequest { role_arn: role_arn.to_owned(), role_session_name: SESSION_NAME.to_owned() }
}

/// The credentials in the provider's answer. An answer without
/// credentials is a failure.
pub fn extract_credentials(response: AssumeRoleResponse) -> (result: Result<
    StsCredentials,
    ServiceError,
>)
    ensures
        match response.credentials {
            Some(c) => result == Ok::<StsCredentials, ServiceError>(c),
            None => result matches Err(e) && e.kind == ErrorKind::Authentication && e.message@
                == "Missing credentials from assume role"@,
        },
{
    match response.credentials {
        Some(credentials) => Ok(credentials),
        None => Err(
            ServiceError::of(ErrorKind::Authentication, "Missing credentials from assume role"),
        ),
    }
}

/// The part of `doc` from the message tag on, where `doc` holds the tag.
pub open spec fn fragment_of(doc: Seq<char>) -> Option<Seq<char>> {
    match first_occurrence(doc, MESSAGE_TAG@) {
        Some(i) => Some(doc.skip(i)),
        None => None,
    }
}

/// The part of `doc` from the message tag on, where `doc` holds the tag:
/// the fragment in which an XML reader is to look for the message.
pub fn xml_fragment(doc: &str) -> (fragment: Option<String>)
    ensures
        crate::text::opt_text(fragment) == fragment_of(doc@),
{
    match find_text(doc, MESSAGE_TAG) {
        Some(i) => {
            proof {
                crate::text::lemma_first_occurrence_bounds(doc@, MESSAGE_TAG@);
            }
            let n = doc.unicode_len();
            Some(doc.substring_char(i, n).to_owned())
        },
        None => None,
    }
}

/// What is said of an answer that the client did not know, given the text
/// of its body and the message that was read from the body's fragment.
pub open spec fn unknown_message(doc: Seq<char>, parsed: Option<AwsMessage>) -> Seq<char> {
    match fragment_of(doc) {
        Some(_) => match parsed {
            Some(m) => m.message@,
            None => "Failed to read xml from document: "@ + doc,
        },
        None => "Aws returned body: "@ + doc,
    }
}

/// What is said of an answer that the client did not know. `doc` is the
/// text of its body. Where the body holds a message tag, `parsed` is the
/// message read from the fragment that starts there, and the message is
/// what is said; where no message could be read, or the body holds no tag,
/// the body itself is shown.
pub fn describe_unknown(doc: &str, parsed: &Option<AwsMessage>) -> (message: String)
    ensures
        message@ == unknown_message(doc@, *parsed),
{
    match find_text(doc, MESSAGE_TAG) {
        Some(_) => match parsed {
            Some(m) => m.message.clone(),
            None => "Failed to read xml from document: ".to_owned().concat(doc),
        },
        None => "Aws returned body: ".to_owned().concat(doc),
    }
}

/// The text of a raw body, as it is shown and searched.
pub fn body_text(body: &Vec<u8>) -> (doc: String)
    ensures
        doc@ == bytes_debug_text(body@),
{
    debug_bytes(body)
}

/// What is said of an answer that the client did not know, given its raw
/// body and the message that was read from the body's fragment.
pub fn parse_aws_xml(body: &Vec<u8>, parsed: &Option<AwsMessage>) -> (message: String)
    ensures
        message@ == unknown_message(bytes_debug_text(body@), *parsed),
{
    let doc = body_text(body);
    describe_unknown(doc.as_str(), parsed)
}

/// The message of the failure that stands for `failure`.
pub open spec fn failure_message(failure: AssumeRoleFailure) -> Seq<char> {
    match failure {
        AssumeRoleFailure::Service(text) => text@,
        AssumeRoleFailure::HttpDispatch(text) => text@,
        AssumeRoleFailure::Credentials(text) => text@,
        AssumeRoleFailure::Validation(text) => text@,
        AssumeRoleFailure::ParseError(text) => text@,
        AssumeRoleFailure::Unknown { body, parsed } => unknown_message(
            bytes_debug_text(body@),
            parsed,
        ),
        AssumeRoleFailure::Blocking => "There was a blocking issue assuming roles"@,
    }
}

/// Every way in which the assumption call fails becomes one failure of
/// authentication, with a message for people.
pub fn match_rusoto_errors(failure: AssumeRoleFailure) -> (error: ServiceError)
    ensures
        error.kind == ErrorKind::Authentication,
        error.message@ == failure_message(failure),
{
    let message = match failure {
        AssumeRoleFailure::Service(text) => text,
        AssumeRoleFailure::HttpDispatch(text) => text,
        AssumeRoleFailure::Credentials(text) => text,
        AssumeRoleFailure::Validation(text) => text,
        AssumeRoleFailure::ParseError(text) => text,
        AssumeRoleFailure::Unknown { body, parsed } => parse_aws_xml(&body, &parsed),
        AssumeRoleFailure::Blocking => "There was a blocking issue assuming roles".to_owned(),
    };
    ServiceError { kind: ErrorKind::Authentication, message }
}

/// What is to be sent to assume a role: the keys that sign the call, and
/// the call.
#[derive(Debug, Clone, PartialEq)]
pub struct AssumeRoleCall {
    pub keys: StaticKeys,
    pub request: AssumeRoleRequest,
}

/// Whether a role can be assumed with `config` at the time `now`: the
/// session token is valid and both temporary keys are set.
pub open spec fn can_assume(config: Config, now: int) -> bool {
    config.token_valid_at(now) && static_keys_of(config).is_ok()
}

/// The assumption call for the role `role_arn`, made with `config` at the
/// time `now_millis`. There is none without a valid session token, nor
/// without the temporary keys.
pub fn request_assume_role(config: &Config, now_millis: i64, role_arn: &str) -> (result: Result<
    AssumeRoleCall,
    ServiceError,
>)
    ensures
        result.is_ok() == can_assume(*config, now_millis as int),
        result matches Ok(call) ==> {
            &&& static_keys_of(*config) matches Ok(keys)
            &&& call.keys.access_key@ == keys.0
            &&& call.keys.secret_key@ == keys.1
            &&& crate::text::opt_text(call.keys.token) == keys.2
            &&& call.request.role_arn@ == role_arn@
            &&& call.request.role_session_name@ == SESSION_NAME@
        },
        result matches Err(e) ==> {
            &&& e.kind == ErrorKind::Authentication
            &&& !config.token_valid_at(now_millis as int) ==> e.message@ == "Token is not valid"@
            &&& config.token_valid_at(now_millis as int) ==> static_keys_of(*config) == Err::<
                (Seq<char>, Seq<char>, Option<Seq<char>>),
                Seq<char>,
            >(e.message@)
        },
{
    if !config.is_token_valid_at(now_millis) {
        return Err(ServiceError::of(ErrorKind::Authentication, "Token is not valid"));
    }
    match build_static_provider(config) {
        Ok(keys) => Ok(AssumeRoleCall { keys, request: build_assume_role_request(role_arn) }),
        Err(e) => Err(e),
    }
}

/// The credentials that the outcome of an assumption call gives.
pub open spec fn assumed(outcome: Result<AssumeRoleResponse, AssumeRoleFailure>) -> Result<
    Credentials,
    (ErrorKind, Seq<char>),
> {
    match outcome {
        Ok(response) => match response.credentials {
            Some(c) => Ok(
                Credentials {
                    aws_access_key: c.access_key_id,
                    aws_secret_key: c.secret_access_key,
                    aws_sts_token: c.session_token,
                    aws_expiration: c.expiration,
                },
            ),
            None => Err((ErrorKind::Authentication, "Missing credentials from assume role"@)),
        },
        Err(failure) => Err((ErrorKind::Authentication, failure_message(failure))),
    }
}

/// The temporary credentials that the outcome of an assumption call
/// gives: those of the answer, where the call succeeded and its answer
/// holds them; else a failure of authentication.
pub fn assume_role(outcome: Result<AssumeRoleResponse, AssumeRoleFailure>) -> (result: Result<
    Credentials,
    ServiceError,
>)
    ensures
        match assumed(outcome) {
            Ok(credentials) => result == Ok::<Credentials, ServiceError>(credentials),
            Err(failure) => result matches Err(e) && e.kind == failure.0 && e.message@
                == failure.1,
        },
{
    match outcome {
        Ok(response) => match extract_credentials(response) {
            Ok(c) => Ok(
                Credentials {
                    aws_access_key: c.access_key_id,
                    aws_secret_key: c.secret_access_key,
                    aws_sts_token: c.session_token,
                    aws_expiration: c.expiration,
                },
            ),
            Err(e) => Err(e),
        },
        Err(failure) => Err(match_rusoto_errors(failure)),
    }
}

/// With a valid session token and both temporary keys, a role can be
/// assumed: the call is made, and where the provider answers with
/// credentials whose three parts are not empty, so are the three parts of
/// the credentials that come out.
pub proof fn lemma_assumption_yields_credentials(
    config: Config,
    now: int,
    response: AssumeRoleResponse,
)
    requires
        config.token_valid_at(now),
        config.aws_temp_access_key_id.is_some(),
        config.aws_temp_secret_access_key.is_some(),
        response.credentials matches Some(c) && c.access_key_id@.len() > 0
            && c.secret_access_key@.len() > 0 && c.session_token@.len() > 0,
    ensures
        can_assume(config, now),
        assumed(Ok(response)) matches Ok(credentials) && {
            &&& credentials.aws_access_key@.len() > 0
            &&& credentials.aws_secret_key@.len() > 0
            &&& credentials.aws_sts_token@.len() > 0
            &&& credentials.aws_expiration == response.credentials.unwrap().expiration
        },
{
}

/// The credentials of the assumptions that succeeded, in order.
pub fn _build_credentials(outcomes: Vec<Result<Credentials, ServiceError>>) -> (kept: Vec<
    Credentials,
>)
    ensures
        kept@ == oks(outcomes@),
{
    let ghost f = |r: Result<Credentials, ServiceError>| crate::seqs::ok_of(r);
    let ghost all = outcomes@;
    let mut kept: Vec<Credentials> = Vec::new();
    assert(all.subrange(0, 0) =~= Seq::empty());
    for outcome in it: outcomes.into_iter()
        invariant
            it.seq() == all,
            f == |r: Result<Credentials, ServiceError>| crate::seqs::ok_of(r),
            kept@ == crate::seqs::filter_map(all.subrange(0, it.index() as int), f),
    {
        let ghost i = it.index() as int;
        proof {
            assert(all.subrange(0, i + 1) =~= all.subrange(0, i).push(outcome));
            lemma_filter_map_push(all.subrange(0, i), outcome, f);
        }
        match outcome {
            Ok(credentials) => {
                kept.push(credentials);
            },
            Err(_) => {},
        }
    }
    assert(all.subrange(0, all.len() as int) =~= all);
    kept
}

/// What `action` makes of each of the credentials, together with the
/// shared client, in order.
pub fn _iterate_credentials<C, T, F>(
    credentials: Vec<Credentials>,
    base_client: &Arc<C>,
    action: F,
) -> (out: Vec<T>) where F: Fn(&Arc<C>, Credentials) -> T
    requires
        forall|i: int|
            0 <= i < credentials@.len() ==> action.requires((base_client, #[trigger] credentials@[i])),
    ensures
        out@.len() == credentials@.len(),
        forall|i: int|
            0 <= i < credentials@.len() ==> action.ensures(
                (base_client, credentials@[i]),
                #[trigger] out@[i],
            ),
{
    let ghost all = credentials@;
    let mut out: Vec<T> = Vec::new();
    for item in it: credentials.into_iter()
        invariant
            it.seq() == all,
            out@.len() == it.index(),
            forall|i: int| 0 <= i < all.len() ==> action.requires((base_client, #[trigger] all[i])),
            forall|i: int|
                0 <= i < it.index() ==> action.ensures((base_client, all[i]), #[trigger] out@[i]),
    {
        let made = action(base_client, item);
        out.push(made);
    }
    out
}

} // verus!
