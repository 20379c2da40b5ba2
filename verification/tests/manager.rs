use aws_manager::aws::manager::{
    apply_profiles, classify_line, parse_profiles, interpret_line, interpret_lines,
    set_default_aws_credentials, Config, CredentialsLine, DEFAULT_REGION,
};
use aws_manager::error::ErrorKind;

fn text(s: &str) -> String {
    s.to_string()
}

fn lines(list: &[&str]) -> Vec<String> {
    list.iter().map(|s| s.to_string()).collect()
}

fn setting(key: &str, value: &str) -> CredentialsLine {
    CredentialsLine::Setting(text(key), Some(text(value)))
}

#[test]
fn new_configuration_asks_for_the_default_credentials() {
    let config = Config::init().unwrap();
    assert_eq!(DEFAULT_REGION, "eu-west-1");
    assert_eq!(
        config,
        Config {
            aws_access_key_id: String::new(),
            aws_secret_access_key: String::new(),
            aws_use_default_credentials: true,
            region: Some(text("eu-west-1")),
            aws_sts_profile: None,
            aws_temp_access_key_id: None,
            aws_temp_secret_access_key: None,
            aws_session_token: None,
            aws_session_expiration: None,
        }
    );
}

#[test]
fn token_is_valid_until_it_expires() {
    let mut config = Config::init().unwrap();
    assert!(!config.is_token_valid_at(0));
    assert!(!config.is_token_valid());
    config.aws_session_token = Some(text("t"));
    assert!(!config.is_token_valid_at(0));
    assert!(!config.is_token_valid());
    config.aws_session_expiration = Some(1_000);
    assert!(config.is_token_valid_at(999));
    assert!(!config.is_token_valid_at(1_000));
    assert!(!config.is_token_valid_at(1_001));
    assert!(config.is_token_valid_at(i64::MIN));
    assert!(!config.is_token_valid());
    config.aws_session_expiration = Some(i64::MAX);
    assert!(config.is_token_valid());
}

#[test]
fn token_of_a_profile_is_relied_on() {
    let mut config = Config::init().unwrap();
    config.aws_sts_profile = Some(text("sts"));
    assert!(!config.is_token_valid_at(0));
    config.aws_session_token = Some(text("t"));
    assert!(config.is_token_valid_at(i64::MAX));
    assert!(config.is_token_valid());
    config.aws_session_expiration = Some(0);
    assert!(config.is_token_valid_at(5));
}

#[test]
fn lines_are_read_by_their_form() {
    assert_eq!(interpret_line("[default]"), CredentialsLine::Profile(text("default")));
    assert_eq!(interpret_line("  [my profile]  "), CredentialsLine::Profile(text("my profile")));
    assert_eq!(interpret_line("[ spaced ]"), CredentialsLine::Profile(text(" spaced ")));
    assert_eq!(interpret_line(" \t key \t = \t value \t "), setting("key", "value"));
    assert_eq!(interpret_line("aws_access_key_id = AKIA123"), setting("aws_access_key_id", "AKIA123"));
    assert_eq!(interpret_line("\taws_session_token=abc/def+g\n"), setting("aws_session_token", "abc/def+g"));
    assert_eq!(interpret_line("token = abc=="), setting("token", "abc=="));
    assert_eq!(interpret_line("token=abc=="), setting("token=abc=", ""));
    assert_eq!(interpret_line("region ="), setting("region", ""));
    assert_eq!(interpret_line("a b = c d"), setting("b", "c"));
    assert_eq!(interpret_line("x [p] = 1"), CredentialsLine::Profile(text("p")));
    assert_eq!(interpret_line(""), CredentialsLine::Other);
    assert_eq!(interpret_line("# a comment"), CredentialsLine::Other);
    assert_eq!(interpret_line("[]"), CredentialsLine::Other);
    assert_eq!(interpret_line("= value"), CredentialsLine::Other);
    assert_eq!(
        interpret_lines(&lines(&["[a]", "k = v", "junk"])),
        vec![CredentialsLine::Profile(text("a")), setting("k", "v"), CredentialsLine::Other]
    );
}

#[test]
fn line_is_classified_from_what_the_forms_capture() {
    let whole = Some(text("whole"));
    assert_eq!(
        classify_line(&Some(vec![whole.clone(), Some(text("p"))]), &Some(vec![whole.clone(), Some(text("k")), None])),
        CredentialsLine::Profile(text("p"))
    );
    assert_eq!(
        classify_line(&None, &Some(vec![whole.clone(), Some(text("k")), Some(text("v"))])),
        setting("k", "v")
    );
    assert_eq!(
        classify_line(&Some(vec![whole.clone(), None]), &Some(vec![whole.clone(), Some(text("k")), None])),
        CredentialsLine::Setting(text("k"), None)
    );
    assert_eq!(
        classify_line(&Some(vec![whole.clone()]), &Some(vec![whole.clone(), Some(text("k"))])),
        CredentialsLine::Setting(text("k"), None)
    );
    assert_eq!(classify_line(&None, &Some(vec![whole.clone(), None, Some(text("v"))])), CredentialsLine::Other);
    assert_eq!(classify_line(&None, &Some(vec![])), CredentialsLine::Other);
    assert_eq!(classify_line(&None, &None), CredentialsLine::Other);
}

#[test]
fn profiles_are_collected_in_order() {
    let profiles = parse_profiles(vec![
        CredentialsLine::Profile(text("one")),
        setting("a", "1"),
        setting("b", "2"),
        setting("a", "3"),
        CredentialsLine::Other,
        CredentialsLine::Profile(text("two")),
        CredentialsLine::Profile(text("three")),
        CredentialsLine::Setting(text("c"), None),
    ]);
    assert_eq!(profiles.len(), 3);
    assert_eq!(profiles.key(0), "one");
    assert_eq!(profiles.key(1), "two");
    assert_eq!(profiles.key(2), "three");
    let one = profiles.value(0);
    assert_eq!(one.len(), 2);
    assert_eq!(one.key(0), "a");
    assert_eq!(one.get(&text("a")), Some(&Some(text("3"))));
    assert_eq!(one.get(&text("b")), Some(&Some(text("2"))));
    assert_eq!(profiles.value(1).len(), 0);
    assert_eq!(profiles.value(2).get(&text("c")), Some(&None));
}

#[test]
fn later_profile_of_one_name_replaces_the_earlier() {
    let profiles = parse_profiles(vec![
        CredentialsLine::Profile(text("p")),
        setting("a", "1"),
        CredentialsLine::Profile(text("q")),
        setting("b", "2"),
        CredentialsLine::Profile(text("p")),
        setting("c", "3"),
    ]);
    assert_eq!(profiles.len(), 2);
    assert_eq!(profiles.key(0), "p");
    assert_eq!(profiles.key(1), "q");
    assert_eq!(profiles.value(0).len(), 1);
    assert_eq!(profiles.value(0).get(&text("c")), Some(&Some(text("3"))));
    assert!(profiles.value(0).get(&text("a")).is_none());
}

#[test]
fn settings_before_the_first_profile_go_to_it() {
    let profiles = parse_profiles(vec![
        setting("early", "1"),
        setting("a", "old"),
        CredentialsLine::Profile(text("first")),
        setting("a", "new"),
        CredentialsLine::Profile(text("second")),
        setting("b", "2"),
    ]);
    assert_eq!(profiles.len(), 2);
    let first = profiles.get(&text("first")).unwrap();
    assert_eq!(first.len(), 2);
    assert_eq!(first.get(&text("early")), Some(&Some(text("1"))));
    assert_eq!(first.get(&text("a")), Some(&Some(text("new"))));
    let second = profiles.get(&text("second")).unwrap();
    assert_eq!(second.len(), 1);
    assert!(second.get(&text("early")).is_none());
    assert_eq!(parse_profiles(vec![setting("orphan", "1")]).len(), 0);
    assert_eq!(parse_profiles(vec![]).len(), 0);
}

#[test]
fn keys_and_session_are_taken_from_the_file() {
    let mut config = Config::init().unwrap();
    let result = set_default_aws_credentials(
        &mut config,
        &lines(&[
            "[default]",
            "aws_access_key_id = AKIADEFAULT",
            "aws_secret_access_key = default/secret",
            "",
            "[plain]",
            "aws_access_key_id = AKIAPLAIN",
            "[sts]",
            "aws_access_key_id = ASIATEMP",
            "aws_secret_access_key = temp+secret",
            "aws_session_token = tok==",
            "[later]",
            "aws_session_token = other",
        ]),
        "\"/home/u/.aws/credentials\"",
    );
    assert!(result.is_ok());
    assert_eq!(config.aws_access_key_id, "AKIADEFAULT");
    assert_eq!(config.aws_secret_access_key, "default/secret");
    assert_eq!(config.aws_sts_profile, Some(text("sts")));
    assert_eq!(config.aws_session_token, Some(text("tok==")));
    assert_eq!(config.aws_temp_access_key_id, Some(text("ASIATEMP")));
    assert_eq!(config.aws_temp_secret_access_key, Some(text("temp+secret")));
    assert_eq!(config.region, Some(text("eu-west-1")));
    assert!(config.aws_use_default_credentials);
    assert_eq!(config.aws_session_expiration, None);
}

#[test]
fn missing_default_keys_are_a_failure_that_names_the_file() {
    let mut config = Config::init().unwrap();
    config.aws_access_key_id = text("kept");
    let error = set_default_aws_credentials(
        &mut config,
        &lines(&["[default]", "aws_access_key_id = AKIA", "[sts]", "aws_session_token = tok"]),
        "\"/tmp/credentials\"",
    )
    .unwrap_err();
    assert_eq!(error.kind, ErrorKind::Authentication);
    assert_eq!(error.message, "No aws credentials found in \"/tmp/credentials\"");
    assert_eq!(config.aws_access_key_id, "kept");
    assert_eq!(config.aws_secret_access_key, "");
    assert_eq!(config.aws_sts_profile, Some(text("sts")));
    assert_eq!(config.aws_session_token, Some(text("tok")));
    assert_eq!(config.aws_temp_access_key_id, None);

    let mut empty = Config::init().unwrap();
    let error = set_default_aws_credentials(&mut empty, &vec![], "nowhere").unwrap_err();
    assert_eq!(error.message, "No aws credentials found in nowhere");
    assert_eq!(empty, Config::init().unwrap());
}

#[test]
fn session_comes_from_the_first_profile_that_names_a_token() {
    let mut config = Config::init().unwrap();
    config.aws_sts_profile = Some(text("before"));
    config.aws_session_token = Some(text("old-token"));
    config.aws_temp_access_key_id = Some(text("old-access"));
    let profiles = parse_profiles(vec![
        CredentialsLine::Profile(text("default")),
        setting("aws_access_key_id", "A"),
        setting("aws_secret_access_key", "S"),
        CredentialsLine::Profile(text("empty")),
        CredentialsLine::Setting(text("aws_session_token"), None),
        setting("aws_secret_access_key", "temp-secret"),
        CredentialsLine::Profile(text("full")),
        setting("aws_session_token", "tok"),
        setting("aws_access_key_id", "never"),
    ]);
    assert!(apply_profiles(&mut config, &profiles, "src").is_ok());
    assert_eq!(config.aws_sts_profile, Some(text("before")));
    assert_eq!(config.aws_session_token, Some(text("old-token")));
    assert_eq!(config.aws_temp_access_key_id, Some(text("old-access")));
    assert_eq!(config.aws_temp_secret_access_key, Some(text("temp-secret")));
    assert_eq!(config.aws_access_key_id, "A");
    assert_eq!(config.aws_secret_access_key, "S");
}
