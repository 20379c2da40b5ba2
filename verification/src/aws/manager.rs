//! The configuration of the service: the account's keys, and the temporary
//! token with which roles are assumed.

use vstd::prelude::*;
use vstd::string::StringExecFns;
use crate::error::{ErrorKind, ServiceError};
use crate::outside::{regex_captures, regex_groups, utc_now_millis};
use crate::text::{copy_text, opt_text};
use crate::text_map::{
    assoc_get, assoc_put, lemma_assoc_get_map, lemma_assoc_put_map, map_entries, TextMap,
};

verus! {

/// The region that a new configuration names.
pub const DEFAULT_REGION: &'static str = "eu-west-1";

/// The configuration of the service.
#[derive(Debug, Clone, PartialEq)]
pub struct Config {
    pub aws_access_key_id: String,
    pub aws_secret_access_key: String,
    pub aws_use_default_credentials: bool,
    pub region: Option<String>,
    pub aws_sts_profile: Option<String>,
    pub aws_temp_access_key_id: Option<String>,
    pub aws_temp_secret_access_key: Option<String>,
    pub aws_session_token: Option<String>,
    /// When the session token expires, in milliseconds after Jan 1, 1970 00:00:00 UTC.
    pub aws_session_expiration: Option<i64>,
}

impl Config {
    /// Whether the session token can be used at the time `now`, in
    /// milliseconds since the epoch. There must be a token. One that comes
    /// from a profile of the credentials file is relied on as it is; any
    /// other must expire after `now`.
    pub open spec fn token_valid_at(&self, now: int) -> bool {
        &&& self.aws_session_token.is_some()
        &&& (self.aws_sts_profile.is_some() || (self.aws_session_expiration matches Some(t) && now
            < t))
    }

    /// A new configuration: the default region, no keys, and the request to
    /// take the keys from the default credentials profile.
    pub fn init() -> (result: Result<Config, ServiceError>)
        ensures
            result matches Ok(config) && {
                &&& config.aws_access_key_id@ == Seq::<char>::empty()
                &&& config.aws_secret_access_key@ == Seq::<char>::empty()
                &&& config.aws_use_default_credentials
                &&& config.region matches Some(region) && region@ == DEFAULT_REGION@
                &&& config.aws_sts_profile.is_none()
                &&& config.aws_temp_access_key_id.is_none()
                &&& config.aws_temp_secret_access_key.is_none()
                &&& config.aws_session_token.is_none()
                &&& config.aws_session_expiration.is_none()
            },
    {
        Ok(
            Config {
                aws_access_key_id: String::new(),
                aws_secret_access_key: String::new(),
                aws_use_default_credentials: true,
                region: Some(DEFAULT_REGION.to_owned()),
                aws_sts_profile: None,
                aws_temp_access_key_id: None,
                aws_temp_secret_access_key: None,
                aws_session_token: None,
                aws_session_expiration: None,
            },
        )
    }

    /// Whether the session token can be used at the time `now_millis`.
    pub fn is_token_valid_at(&self, now_millis: i64) -> (valid: bool)
        ensures
            valid == self.token_valid_at(now_millis as int),
    {
        if self.aws_session_token.is_none() {
            return false;
        }
        if self.aws_sts_profile.is_some() {
            return true;
        }
        match self.aws_session_expiration {
            Some(expiry) => now_millis < expiry,
            None => false,
        }
    }

    /// Whether the session token can be used now. Where there is no token
    /// it cannot; where the token comes from a profile it can, whatever the
    /// clock says.
    pub fn is_token_valid(&self) -> (valid: bool)
        ensures
            self.aws_session_token.is_none() ==> !valid,
            self.aws_session_token.is_some() && self.aws_sts_profile.is_some() ==> valid,
            self.aws_sts_profile.is_none() && self.aws_session_expiration.is_none() ==> !valid,
            valid ==> exists|now: i64| self.token_valid_at(now as int),
    {
        if self.aws_session_token.is_none() {
            return false;
        }
        if self.aws_sts_profile.is_some() {
            assert(self.token_valid_at(0i64 as int));
            return true;
        }
        let now = utc_now_millis();
        self.is_token_valid_at(now)
    }
}

/// The form of a line that opens a profile: the profile's name in square
/// brackets, anywhere in the line.
pub const PROFILE_PATTERN: &'static str = r"\[([^]]+)]";

/// The form of a line that sets a key of the profile: the key, an equals
/// sign, and the value, which may be empty. White space around any of
/// them is passed over.
pub const SETTING_PATTERN: &'static str = r"\s*([^\s]+)\s*=\s*([^\s]*)\s*";

/// The profile whose keys are the account's own.
pub const DEFAULT_PROFILE: &'static str = "default";

/// The key under which a profile holds its access key.
pub const ACCESS_KEY: &'static str = "aws_access_key_id";

/// The key under which a profile holds its secret key.
pub const SECRET_KEY: &'static str = "aws_secret_access_key";

/// The key under which a profile holds its session token.
pub const SESSION_TOKEN: &'static str = "aws_session_token";

/// What one line of the credentials file says.
#[derive(Debug, Clone, PartialEq)]
pub enum CredentialsLine {
    /// The line opens the profile of this name.
    Profile(String),
    /// The line sets this key of the profile to this value.
    Setting(String, Option<String>),
    /// The line says nothing.
    Other,
}

/// What a `CredentialsLine` says.
pub enum LineModel {
    Profile(Seq<char>),
    Setting(Seq<char>, Option<Seq<char>>),
    Other,
}

impl View for CredentialsLine {
    type V = LineModel;

    open spec fn view(&self) -> LineModel {
        match *self {
            CredentialsLine::Profile(name) => LineModel::Profile(name@),
            CredentialsLine::Setting(key, value) => LineModel::Setting(key@, opt_text(value)),
            CredentialsLine::Other => LineModel::Other,
        }
    }
}

/// What a list of `CredentialsLine`s says.
pub open spec fn line_models(lines: Seq<CredentialsLine>) -> Seq<LineModel> {
    lines.map_values(|l: CredentialsLine| l@)
}

/// The text that the group `i` captured, if the group is there and took
/// part in the match.
pub open spec fn group(groups: Seq<Option<Seq<char>>>, i: int) -> Option<Seq<char>> {
    if 0 <= i < groups.len() {
        groups[i]
    } else {
        None
    }
}

/// What a line says, given what the two forms capture in it: it opens a
/// profile where the profile form matches, else it sets a key where the
/// setting form matches, else it says nothing.
pub open spec fn line_meaning(
    profile: Option<Seq<Option<Seq<char>>>>,
    setting: Option<Seq<Option<Seq<char>>>>,
) -> LineModel {
    if profile matches Some(g) && group(g, 1).is_some() {
        LineModel::Profile(group(profile.unwrap(), 1).unwrap())
    } else if setting matches Some(g) && group(g, 1).is_some() {
        LineModel::Setting(group(setting.unwrap(), 1).unwrap(), group(setting.unwrap(), 2))
    } else {
        LineModel::Other
    }
}

/// The text that the group `i` captured, if any.
fn group_at(groups: &Vec<Option<String>>, i: usize) -> (text: Option<String>)
    ensures
        opt_text(text) == group(crate::text::group_texts(groups@), i as int),
{
    if i < groups.len() {
        copy_text(&groups[i])
    } else {
        None
    }
}

/// What a line says, given what the two forms capture in it.
pub fn classify_line(profile: &Option<Vec<Option<String>>>, setting: &Option<Vec<Option<String>>>) -> (line: CredentialsLine)
    ensures
        line@ == line_meaning(
            crate::text::opt_group_texts(*profile),
            crate::text::opt_group_texts(*setting),
        ),
{
    match profile {
        Some(groups) => match group_at(groups, 1) {
            Some(name) => {
                return CredentialsLine::Profile(name);
            },
            None => {},
        },
        None => {},
    }
    match setting {
        Some(groups) => match group_at(groups, 1) {
            Some(key) => CredentialsLine::Setting(key, group_at(groups, 2)),
            None => CredentialsLine::Other,
        },
        None => CredentialsLine::Other,
    }
}

/// What the line `raw` says, by the two forms.
pub open spec fn raw_meaning(raw: Seq<char>) -> LineModel {
    line_meaning(regex_groups(PROFILE_PATTERN@, raw), regex_groups(SETTING_PATTERN@, raw))
}

/// What the line `raw` of the credentials file says.
pub fn interpret_line(raw: &str) -> (line: CredentialsLine)
    ensures
        line@ == raw_meaning(raw@),
{
    let profile = regex_captures(PROFILE_PATTERN, raw);
    let setting = regex_captures(SETTING_PATTERN, raw);
    classify_line(&profile, &setting)
}

/// The settings of a profile: its keys in the order in which they first
/// came, each with its value.
pub type Settings = Seq<(Seq<char>, Option<Seq<char>>)>;

/// Where the reading of a credentials file stands: the profiles that are
/// complete, the name of the profile that is open, and the settings read
/// since a profile was last completed.
pub struct ParseState {
    pub profiles: Seq<(Seq<char>, Settings)>,
    pub current: Option<Seq<char>>,
    pub pending: Settings,
}

/// The profiles once the open profile, if there is one, is completed with
/// the pending settings.
pub open spec fn completed(state: ParseState) -> Seq<(Seq<char>, Settings)> {
    match state.current {
        Some(name) => assoc_put(state.profiles, name, state.pending),
        None => state.profiles,
    }
}

/// Where the reading stands after one more line. A line that opens a
/// profile completes the one that was open; a setting goes to the pending
/// ones, in the place of an earlier one with its key. Settings that come
/// before the first profile go to the first profile.
pub open spec fn parse_step(state: ParseState, line: LineModel) -> ParseState {
    match line {
        LineModel::Profile(name) => ParseState {
            profiles: completed(state),
            current: Some(name),
            pending: if state.current.is_some() {
                Seq::empty()
            } else {
                state.pending
            },
        },
        LineModel::Setting(key, value) => ParseState {
            profiles: state.profiles,
            current: state.current,
            pending: assoc_put(state.pending, key, value),
        },
        LineModel::Other => state,
    }
}

/// Where the reading stands after `lines`.
pub open spec fn parse_lines(lines: Seq<LineModel>) -> ParseState
    decreases lines.len(),
{
    if lines.len() == 0 {
        ParseState { profiles: Seq::empty(), current: None, pending: Seq::empty() }
    } else {
        parse_step(parse_lines(lines.drop_last()), lines.last())
    }
}

/// The profiles that `lines` define, in the order in which their names
/// first came. Of two profiles with one name the later stands.
pub open spec fn profiles_of(lines: Seq<LineModel>) -> Seq<(Seq<char>, Settings)> {
    completed(parse_lines(lines))
}

/// What the settings of a profile say.
pub open spec fn settings_model(settings: Seq<(Seq<char>, Option<String>)>) -> Settings {
    map_entries(settings, |v: Option<String>| opt_text(v))
}

/// What a set of profiles says.
pub open spec fn profiles_model(profiles: Seq<(Seq<char>, TextMap<Option<String>>)>) -> Seq<
    (Seq<char>, Settings),
> {
    map_entries(profiles, |m: TextMap<Option<String>>| settings_model(m@))
}

/// The profiles that `lines` define.
pub fn parse_profiles(lines: Vec<CredentialsLine>) -> (profiles: TextMap<TextMap<Option<String>>>)
    ensures
        profiles_model(profiles@) == profiles_of(line_models(lines@)),
{
    let ghost all = lines@;
    let ghost models = line_models(lines@);
    let ghost to_text = |v: Option<String>| opt_text(v);
    let ghost to_settings = |m: TextMap<Option<String>>| settings_model(m@);
    let mut profiles: TextMap<TextMap<Option<String>>> = TextMap::new();
    let mut pending: TextMap<Option<String>> = TextMap::new();
    let mut current: Option<String> = None;
    proof {
        assert(models.subrange(0, 0) =~= Seq::<LineModel>::empty());
        assert(profiles_model(profiles@) =~= Seq::<(Seq<char>, Settings)>::empty());
        assert(settings_model(pending@) =~= Seq::<(Seq<char>, Option<Seq<char>>)>::empty());
    }
    for line in it: lines.into_iter()
        invariant
            it.seq() == all,
            models == line_models(all),
            to_text == |v: Option<String>| opt_text(v),
            to_settings == |m: TextMap<Option<String>>| settings_model(m@),
            parse_lines(models.subrange(0, it.index() as int)) == (ParseState {
                profiles: profiles_model(profiles@),
                current: opt_text(current),
                pending: settings_model(pending@),
            }),
    {
        let ghost i = it.index() as int;
        let ghost before = parse_lines(models.subrange(0, i));
        proof {
            assert(models.subrange(0, i + 1).drop_last() =~= models.subrange(0, i));
            assert(models.subrange(0, i + 1).last() == line@);
        }
        match line {
            CredentialsLine::Profile(name) => {
                let previous = current;
                current = Some(name);
                match previous {
                    Some(done) => {
                        let filled = pending;
                        pending = TextMap::new();
                        proof {
                            lemma_assoc_put_map(profiles@, done@, filled, to_settings);
                            assert(settings_model(pending@) =~= Seq::<
                                (Seq<char>, Option<Seq<char>>),
                            >::empty());
                        }
                        profiles.insert(done, filled);
                    },
                    None => {},
                }
            },
            CredentialsLine::Setting(key, value) => {
                proof {
                    lemma_assoc_put_map(pending@, key@, value, to_text);
                }
                pending.insert(key, value);
            },
            CredentialsLine::Other => {},
        }
    }
    proof {
        assert(models.subrange(0, models.len() as int) =~= models);
    }
    match current {
        Some(done) => {
            proof {
                lemma_assoc_put_map(profiles@, done@, pending, to_settings);
            }
            profiles.insert(done, pending);
        },
        None => {},
    }
    profiles
}

/// The value that `settings` give to `key`, where they give it one.
pub open spec fn setting_of(settings: Settings, key: Seq<char>) -> Option<Seq<char>> {
    match assoc_get(settings, key) {
        Some(Some(value)) => Some(value),
        _ => None,
    }
}

/// The value that the profile `name` gives to `key`, where there is such
/// a profile and it gives the key a value.
pub open spec fn profile_setting(
    profiles: Seq<(Seq<char>, Settings)>,
    name: Seq<char>,
    key: Seq<char>,
) -> Option<Seq<char>> {
    match assoc_get(profiles, name) {
        Some(settings) => setting_of(settings, key),
        None => None,
    }
}

/// The place of the first profile, at or after `from`, that names a
/// session token.
pub open spec fn session_profile_from(profiles: Seq<(Seq<char>, Settings)>, from: int) -> Option<
    int,
>
    decreases profiles.len() - from,
{
    if from < 0 || from >= profiles.len() {
        None
    } else if assoc_get(profiles[from].1, SESSION_TOKEN@).is_some() {
        Some(from)
    } else {
        session_profile_from(profiles, from + 1)
    }
}

/// The first profile that names a session token.
pub open spec fn session_profile(profiles: Seq<(Seq<char>, Settings)>) -> Option<
    (Seq<char>, Settings),
> {
    match session_profile_from(profiles, 0) {
        Some(i) => Some(profiles[i]),
        None => None,
    }
}

/// `fresh` where there is one, else `old`.
pub open spec fn replaced(old: Option<Seq<char>>, fresh: Option<Seq<char>>) -> Option<Seq<char>> {
    match fresh {
        Some(_) => fresh,
        None => old,
    }
}

/// The value of `key` in the first profile that names a session token.
pub open spec fn session_setting(profiles: Seq<(Seq<char>, Settings)>, key: Seq<char>) -> Option<
    Seq<char>,
> {
    match session_profile(profiles) {
        Some(entry) => setting_of(entry.1, key),
        None => None,
    }
}

/// The name of the first profile that names a session token, where it
/// gives the token a value.
pub open spec fn session_name(profiles: Seq<(Seq<char>, Settings)>) -> Option<Seq<char>> {
    match session_profile(profiles) {
        Some(entry) => if setting_of(entry.1, SESSION_TOKEN@).is_some() {
            Some(entry.0)
        } else {
            None
        },
        None => None,
    }
}

/// The value that `settings` give to `key`, where they give it one.
fn lookup(settings: &TextMap<Option<String>>, key: &String) -> (value: Option<String>)
    ensures
        opt_text(value) == setting_of(settings_model(settings@), key@),
        value.is_some() ==> assoc_get(settings_model(settings@), key@).is_some(),
{
    proof {
        lemma_assoc_get_map(settings@, key@, |v: Option<String>| opt_text(v));
    }
    match settings.get(key) {
        Some(value) => copy_text(value),
        None => None,
    }
}

/// Takes the account's keys and the session from the profiles of the
/// credentials file.
///
/// The session comes from the first profile that names a session token:
/// its token and its name, where the token has a value, and each of its
/// two keys that has a value, as the temporary keys. The account's own
/// keys come from the default profile. Where that profile lacks one of
/// them it is a failure that names `source`, the place the profiles were
/// read from; what was taken of the session stays.
pub fn apply_profiles(cfg: &mut Config, profiles: &TextMap<TextMap<Option<String>>>, source: &str) -> (result: Result<
    (),
    ServiceError,
>)
    ensures
        ({
            let p = profiles_model(profiles@);
            let access = profile_setting(p, DEFAULT_PROFILE@, ACCESS_KEY@);
            let secret = profile_setting(p, DEFAULT_PROFILE@, SECRET_KEY@);
            &&& opt_text(final(cfg).aws_sts_profile) == replaced(
                opt_text(old(cfg).aws_sts_profile),
                session_name(p),
            )
            &&& opt_text(final(cfg).aws_session_token) == replaced(
                opt_text(old(cfg).aws_session_token),
                session_setting(p, SESSION_TOKEN@),
            )
            &&& opt_text(final(cfg).aws_temp_access_key_id) == replaced(
                opt_text(old(cfg).aws_temp_access_key_id),
                session_setting(p, ACCESS_KEY@),
            )
            &&& opt_text(final(cfg).aws_temp_secret_access_key) == replaced(
                opt_text(old(cfg).aws_temp_secret_access_key),
                session_setting(p, SECRET_KEY@),
            )
            &&& final(cfg).aws_use_default_credentials == old(cfg).aws_use_default_credentials
            &&& final(cfg).region == old(cfg).region
            &&& final(cfg).aws_session_expiration == old(cfg).aws_session_expiration
            &&& result.is_ok() == (access.is_some() && secret.is_some())
            &&& result.is_ok() ==> final(cfg).aws_access_key_id@ == access.unwrap()
            &&& result.is_ok() ==> final(cfg).aws_secret_access_key@ == secret.unwrap()
            &&& result matches Err(e) ==> {
                &&& e.kind == ErrorKind::Authentication
                &&& e.message@ == "No aws credentials found in "@ + source@
                &&& final(cfg).aws_access_key_id == old(cfg).aws_access_key_id
                &&& final(cfg).aws_secret_access_key == old(cfg).aws_secret_access_key
            }
        }),
{
    let ghost p = profiles_model(profiles@);
    let ghost to_settings = |m: TextMap<Option<String>>| settings_model(m@);
    let default_name = DEFAULT_PROFILE.to_owned();
    let access_name = ACCESS_KEY.to_owned();
    let secret_name = SECRET_KEY.to_owned();
    let token_name = SESSION_TOKEN.to_owned();
    let mut access: Option<String> = None;
    let mut secret: Option<String> = None;
    proof {
        lemma_assoc_get_map(profiles@, default_name@, to_settings);
    }
    match profiles.get(&default_name) {
        Some(settings) => {
            access = lookup(settings, &access_name);
            secret = lookup(settings, &secret_name);
        },
        None => {},
    }
    let n = profiles.len();
    let mut i: usize = 0;
    while i < n
        invariant_except_break
            i <= n,
            session_profile_from(p, 0) == session_profile_from(p, i as int),
            *cfg == *old(cfg),
        invariant
            n == profiles@.len(),
            p == profiles_model(profiles@),
            token_name@ == SESSION_TOKEN@,
            access_name@ == ACCESS_KEY@,
            secret_name@ == SECRET_KEY@,
        ensures
            opt_text(cfg.aws_sts_profile) == replaced(
                opt_text(old(cfg).aws_sts_profile),
                session_name(p),
            ),
            opt_text(cfg.aws_session_token) == replaced(
                opt_text(old(cfg).aws_session_token),
                session_setting(p, SESSION_TOKEN@),
            ),
            opt_text(cfg.aws_temp_access_key_id) == replaced(
                opt_text(old(cfg).aws_temp_access_key_id),
                session_setting(p, ACCESS_KEY@),
            ),
            opt_text(cfg.aws_temp_secret_access_key) == replaced(
                opt_text(old(cfg).aws_temp_secret_access_key),
                session_setting(p, SECRET_KEY@),
            ),
            cfg.aws_use_default_credentials == old(cfg).aws_use_default_credentials,
            cfg.region == old(cfg).region,
            cfg.aws_session_expiration == old(cfg).aws_session_expiration,
            cfg.aws_access_key_id == old(cfg).aws_access_key_id,
            cfg.aws_secret_access_key == old(cfg).aws_secret_access_key,
        decreases n - i,
    {
        let settings = profiles.value(i);
        proof {
            assert(p[i as int].1 == settings_model(settings@));
            assert(p[i as int].0 == profiles@[i as int].0);
            lemma_assoc_get_map(settings@, token_name@, |v: Option<String>| opt_text(v));
        }
        if settings.get(&token_name).is_some() {
            assert(session_profile(p) == Some(p[i as int]));
            let token = lookup(settings, &token_name);
            if token.is_some() {
                cfg.aws_sts_profile = Some(profiles.key(i).clone());
                cfg.aws_session_token = token;
            }
            let temp_access = lookup(settings, &access_name);
            if temp_access.is_some() {
                cfg.aws_temp_access_key_id = temp_access;
            }
            let temp_secret = lookup(settings, &secret_name);
            if temp_secret.is_some() {
                cfg.aws_temp_secret_access_key = temp_secret;
            }
            break ;
        }
        i = i + 1;
    }
    match access {
        Some(access_key) => match secret {
            Some(secret_key) => {
                cfg.aws_access_key_id = access_key;
                cfg.aws_secret_access_key = secret_key;
                Ok(())
            },
            None => Err(
                ServiceError::new(
                    ErrorKind::Authentication,
                    "No aws credentials found in ".to_owned().concat(source),
                ),
            ),
        },
        None => Err(
            ServiceError::new(
                ErrorKind::Authentication,
                "No aws credentials found in ".to_owned().concat(source),
            ),
        ),
    }
}

/// What the lines of a credentials file say, line by line.
pub open spec fn raw_meanings(lines: Seq<String>) -> Seq<LineModel> {
    lines.map_values(|l: String| raw_meaning(l@))
}

/// What the lines of a credentials file say, line by line.
pub fn interpret_lines(lines: &Vec<String>) -> (read: Vec<CredentialsLine>)
    ensures
        line_models(read@) == raw_meanings(lines@),
{
    let mut read: Vec<CredentialsLine> = Vec::new();
    let mut i: usize = 0;
    while i < lines.len()
        invariant
            i <= lines.len(),
            read@.len() == i,
            forall|j: int| 0 <= j < i ==> read@[j]@ == raw_meaning(lines@[j]@),
        decreases lines.len() - i,
    {
        read.push(interpret_line(lines[i].as_str()));
        i = i + 1;
    }
    assert(line_models(read@) =~= raw_meanings(lines@));
    read
}

/// Takes the account's keys and the session from the lines of the
/// credentials file, which was read from `source`: reads the profiles
/// that the lines define, and applies them as `apply_profiles` does.
pub fn set_default_aws_credentials(cfg: &mut Config, lines: &Vec<String>, source: &str) -> (result: Result<
    (),
    ServiceError,
>)
    ensures
        ({
            let p = profiles_of(raw_meanings(lines@));
            let access = profile_setting(p, DEFAULT_PROFILE@, ACCESS_KEY@);
            let secret = profile_setting(p, DEFAULT_PROFILE@, SECRET_KEY@);
            &&& opt_text(final(cfg).aws_sts_profile) == replaced(
                opt_text(old(cfg).aws_sts_profile),
                session_name(p),
            )
            &&& opt_text(final(cfg).aws_session_token) == replaced(
                opt_text(old(cfg).aws_session_token),
                session_setting(p, SESSION_TOKEN@),
            )
            &&& opt_text(final(cfg).aws_temp_access_key_id) == replaced(
                opt_text(old(cfg).aws_temp_access_key_id),
                session_setting(p, ACCESS_KEY@),
            )
            &&& opt_text(final(cfg).aws_temp_secret_access_key) == replaced(
                opt_text(old(cfg).aws_temp_secret_access_key),
                session_setting(p, SECRET_KEY@),
            )
            &&& final(cfg).aws_use_default_credentials == old(cfg).aws_use_default_credentials
            &&& final(cfg).region == old(cfg).region
            &&& final(cfg).aws_session_expiration == old(cfg).aws_session_expiration
            &&& result.is_ok() == (access.is_some() && secret.is_some())
            &&& result.is_ok() ==> final(cfg).aws_access_key_id@ == access.unwrap()
            &&& result.is_ok() ==> final(cfg).aws_secret_access_key@ == secret.unwrap()
            &&& result matches Err(e) ==> {
                &&& e.kind == ErrorKind::Authentication
                &&& e.message@ == "No aws credentials found in "@ + source@
                &&& final(cfg).aws_access_key_id == old(cfg).aws_access_key_id
                &&& final(cfg).aws_secret_access_key == old(cfg).aws_secret_access_key
            }
        }),
{
    let profiles = parse_profiles(interpret_lines(lines));
    apply_profiles(cfg, &profiles, source)
}

} // verus!
