use std::sync::Arc;

use aws_manager::aws::credentials::{
    _build_credentials, _iterate_credentials, assume_role, body_text, build_assume_role_request,
    build_static_provider, describe_unknown, extract_credentials, match_rusoto_errors,
    parse_aws_xml, provider_keys, request_assume_role, xml_fragment, AssumeRoleFailure,
    AssumeRoleResponse, Credentials, StsCredentials, MESSAGE_TAG, SESSION_NAME,
};
use aws_manager::aws::dto::{AwsMessage, AwsRequest};
use aws_manager::aws::manager::Config;
use aws_manager::error::{ErrorKind, ServiceError};

fn text(s: &str) -> String {
    s.to_string()
}

fn config_with_session() -> Config {
    let mut config = Config::init().unwrap();
    config.aws_session_token = Some(text("base-token"));
    config.aws_session_expiration = Some(2_000);
    config.aws_temp_access_key_id = Some(text("ASIATEMP"));
    config.aws_temp_secret_access_key = Some(text("temp-secret"));
    config
}

fn answer() -> AssumeRoleResponse {
    AssumeRoleResponse {
        credentials: Some(StsCredentials {
            access_key_id: text("ASIAROLE"),
            expiration: text("2020-01-01T00:00:00Z"),
            secret_access_key: text("role-secret"),
            session_token: text("role-token"),
        }),
    }
}

#[test]
fn assumption_with_a_valid_token_yields_all_three_parts() {
    let request = AwsRequest { role_arn: text("arn:aws:iam::42:role/viewer") };
    let call = request_assume_role(&config_with_session(), 1_999, &request.role_arn).unwrap();
    assert_eq!(call.keys.access_key, "ASIATEMP");
    assert_eq!(call.keys.secret_key, "temp-secret");
    assert_eq!(call.keys.token, Some(text("base-token")));
    assert_eq!(call.request.role_arn, "arn:aws:iam::42:role/viewer");
    assert_eq!(call.request.role_session_name, "dummy");
    let credentials = assume_role(Ok(answer())).unwrap();
    assert_eq!(
        credentials,
        Credentials {
            aws_access_key: text("ASIAROLE"),
            aws_secret_key: text("role-secret"),
            aws_sts_token: text("role-token"),
            aws_expiration: text("2020-01-01T00:00:00Z"),
        }
    );
    assert!(!credentials.aws_access_key.is_empty());
    assert!(!credentials.aws_secret_key.is_empty());
    assert!(!credentials.aws_sts_token.is_empty());
}

#[test]
fn no_call_is_made_without_a_valid_token() {
    let config = config_with_session();
    let expired = request_assume_role(&config, 2_000, "role").unwrap_err();
    assert_eq!(expired.kind, ErrorKind::Authentication);
    assert_eq!(expired.message, "Token is not valid");
    let mut absent = config_with_session();
    absent.aws_session_token = None;
    assert_eq!(request_assume_role(&absent, 0, "role").unwrap_err().message, "Token is not valid");
}

#[test]
fn no_call_is_made_without_the_temporary_keys() {
    let mut config = config_with_session();
    config.aws_temp_secret_access_key = None;
    let error = request_assume_role(&config, 0, "role").unwrap_err();
    assert_eq!(error.kind, ErrorKind::Authentication);
    assert_eq!(error.message, "aws_temp_secret_access_keys not set");
    assert_eq!(build_static_provider(&config).unwrap_err().message, "aws_temp_secret_access_keys not set");
    config.aws_temp_access_key_id = None;
    assert_eq!(request_assume_role(&config, 0, "role").unwrap_err().message, "aws_temp_access_key_id is not set");
}

#[test]
fn signing_keys_come_from_the_configuration() {
    let keys = build_static_provider(&config_with_session()).unwrap();
    assert_eq!(keys.access_key, "ASIATEMP");
    assert_eq!(keys.secret_key, "temp-secret");
    assert_eq!(keys.token, Some(text("base-token")));
    let mut config = config_with_session();
    config.aws_session_token = None;
    assert_eq!(build_static_provider(&config).unwrap().token, None);
}

#[test]
fn request_names_the_role_and_the_session() {
    assert_eq!(SESSION_NAME, "dummy");
    let request = build_assume_role_request("arn:aws:iam::1:role/r");
    assert_eq!(request.role_arn, "arn:aws:iam::1:role/r");
    assert_eq!(request.role_session_name, "dummy");
}

#[test]
fn answer_without_credentials_is_a_failure() {
    let error = extract_credentials(AssumeRoleResponse { credentials: None }).unwrap_err();
    assert_eq!(error.kind, ErrorKind::Authentication);
    assert_eq!(error.message, "Missing credentials from assume role");
    assert_eq!(extract_credentials(answer()).unwrap(), answer().credentials.unwrap());
    let failed = assume_role(Ok(AssumeRoleResponse { credentials: None })).unwrap_err();
    assert_eq!(failed.kind, ErrorKind::Authentication);
    assert_eq!(failed.message, "Missing credentials from assume role");
}

#[test]
fn every_upstream_failure_becomes_a_failure_of_authentication() {
    let cases = vec![
        (AssumeRoleFailure::Service(text("AccessDenied")), "AccessDenied"),
        (AssumeRoleFailure::HttpDispatch(text("connection reset")), "connection reset"),
        (AssumeRoleFailure::Credentials(text("no provider")), "no provider"),
        (AssumeRoleFailure::Validation(text("role arn too short")), "role arn too short"),
        (AssumeRoleFailure::ParseError(text("unexpected eof")), "unexpected eof"),
        (AssumeRoleFailure::Blocking, "There was a blocking issue assuming roles"),
    ];
    for (failure, message) in cases {
        let error = match_rusoto_errors(failure.clone());
        assert_eq!(error.kind, ErrorKind::Authentication);
        assert_eq!(error.message, message);
        let through = assume_role(Err(failure)).unwrap_err();
        assert_eq!(through.kind, ErrorKind::Authentication);
        assert_eq!(through.message, message);
    }
}

#[test]
fn body_is_shown_as_a_byte_string() {
    assert_eq!(body_text(&b"plain".to_vec()), "b\"plain\"");
    assert_eq!(body_text(&b"a\n\"b\"\\\t\r\0\x7f\xff".to_vec()), "b\"a\\n\\\"b\\\"\\\\\\t\\r\\0\\x7f\\xff\"");
    assert_eq!(body_text(&vec![]), "b\"\"");
}

#[test]
fn fragment_starts_at_the_message_tag() {
    assert_eq!(MESSAGE_TAG, "<Message>");
    assert_eq!(
        xml_fragment("b\"<E><Message>no</Message></E>\""),
        Some(text("<Message>no</Message></E>\""))
    );
    assert_eq!(xml_fragment("<Message>"), Some(text("<Message>")));
    assert_eq!(xml_fragment("é<Message>ü<Message>"), Some(text("<Message>ü<Message>")));
    assert_eq!(xml_fragment("<message>lower</message>"), None);
    assert_eq!(xml_fragment("<Message"), None);
    assert_eq!(xml_fragment(""), None);
}

#[test]
fn unknown_answer_is_described_by_its_message_or_its_body() {
    let body = b"<ErrorResponse><Error><Message>Role denied</Message></Error></ErrorResponse>".to_vec();
    let shown = "b\"<ErrorResponse><Error><Message>Role denied</Message></Error></ErrorResponse>\"";
    let message = Some(AwsMessage { message: text("Role denied") });
    assert_eq!(parse_aws_xml(&body, &message), "Role denied");
    assert_eq!(parse_aws_xml(&body, &None), format!("Failed to read xml from document: {}", shown));
    assert_eq!(parse_aws_xml(&b"Service Unavailable".to_vec(), &None), "Aws returned body: b\"Service Unavailable\"");
    assert_eq!(parse_aws_xml(&b"Service Unavailable".to_vec(), &message), "Aws returned body: b\"Service Unavailable\"");
    assert_eq!(describe_unknown("x<Message>y", &message), "Role denied");
    assert_eq!(describe_unknown("x<Message>y", &None), "Failed to read xml from document: x<Message>y");
    assert_eq!(describe_unknown("nothing", &None), "Aws returned body: nothing");
    let error = match_rusoto_errors(AssumeRoleFailure::Unknown { body, parsed: message });
    assert_eq!(error.kind, ErrorKind::Authentication);
    assert_eq!(error.message, "Role denied");
}

#[test]
fn only_successful_assumptions_are_kept() {
    let credentials = |name: &str| Credentials {
        aws_access_key: text(name),
        aws_secret_key: text("s"),
        aws_sts_token: text("t"),
        aws_expiration: text("soon"),
    };
    let failure = ServiceError { kind: ErrorKind::Authentication, message: text("denied") };
    let kept = _build_credentials(vec![Ok(credentials("a")), Err(failure.clone()), Ok(credentials("b")), Err(failure)]);
    assert_eq!(kept, vec![credentials("a"), credentials("b")]);
    assert_eq!(_build_credentials(vec![]), vec![]);
}

#[test]
fn action_is_applied_to_each_of_the_credentials_in_order() {
    let credentials = vec![
        Credentials {
            aws_access_key: text("k1"),
            aws_secret_key: text("s1"),
            aws_sts_token: text("t1"),
            aws_expiration: text("soon"),
        },
        Credentials {
            aws_access_key: text("k2"),
            aws_secret_key: text("s2"),
            aws_sts_token: text("t2"),
            aws_expiration: text("later"),
        },
    ];
    let client = Arc::new(text("client"));
    let made: Vec<String> = _iterate_credentials(credentials, &client, |client: &Arc<String>, c: Credentials| {
        format!("{}:{}:{}", client, c.aws_access_key, c.aws_sts_token)
    });
    assert_eq!(made, vec![text("client:k1:t1"), text("client:k2:t2")]);
    let none: Vec<usize> = _iterate_credentials(vec![], &client, |_: &Arc<String>, _: Credentials| 1usize);
    assert!(none.is_empty());
}

#[test]
fn clients_sign_with_the_temporary_credentials() {
    let keys = provider_keys(Credentials {
        aws_access_key: text("a"),
        aws_secret_key: text("b"),
        aws_sts_token: text("c"),
        aws_expiration: text("soon"),
    });
    assert_eq!((keys.access_key.as_str(), keys.secret_key.as_str(), keys.token.as_deref()), ("a", "b", Some("c")));
}
