//! Configuration of the service, read from `NAME=value` settings.
//!
//! Settings are looked up by name, the last one of a name winning; a value is
//! trimmed of whitespace and counts as absent when nothing is left. Absent
//! settings take documented defaults; production requires its credentials;
//! the model name is locked; and every value is checked, in a fixed order,
//! before a configuration is built.

use chrono::NaiveTime;
use chrono_tz::Tz;
use url::Url;
use vstd::prelude::*;

use chrono::Timelike;
use zeroize::Zeroize;

use crate::text::{digit_value, is_digit, parse_unsigned, same_text, trim, trimmed, unsigned_value};
use crate::time::TimeSpan;

verus! {

/// Which deployment the service runs as.
#[derive(Clone, Copy, Debug, PartialEq, Eq, Structural)]
pub enum Environment {
    Development,
    Production,
}

/// A credential, whose debug text never shows it and whose text is wiped
/// from memory when it is dropped.
#[derive(Clone, PartialEq, Eq)]
pub struct SecretString(String);

impl View for SecretString {
    type V = Seq<char>;

    closed spec fn view(&self) -> Seq<char> {
        self.0@
    }
}

impl SecretString {
    /// A secret holding `value`.
    pub fn new(value: String) -> (r: SecretString)
        ensures
            r@ == value@,
    {
        SecretString(value)
    }

    /// The text of the secret.
    pub fn expose(&self) -> (r: &str)
        ensures
            r@ == self@,
    {
        self.0.as_str()
    }

    /// The debug text of the secret, which is the same for every secret.
    pub fn redacted_debug(&self) -> (r: String)
        ensures
            r@ == "[REDACTED]"@,
    {
        String::from_str("[REDACTED]")
    }
}

/// Calls `zeroize::Zeroize::zeroize` on `text`, which overwrites its bytes
/// with zeros and leaves it empty.
#[verifier::external_body]
fn wipe(text: &mut String)
    ensures
        final(text)@ == Seq::<char>::empty(),
    opens_invariants none
    no_unwind
{
    text.zeroize();
}

impl Drop for SecretString {
    /// Wipes the secret's text from memory.
    fn drop(&mut self)
        opens_invariants none
        no_unwind
    {
        wipe(&mut self.0);
    }
}

/// The model the service must use.
pub const REQUIRED_MODEL_NAME: &'static str = "gpt-5.6-terra";

/// The database used when `DATABASE_URL` is absent.
pub const DEFAULT_DATABASE_URL: &'static str = "sqlite://codex-reset-watch.db";

/// The address served when `BIND_ADDRESS` is absent.
pub const DEFAULT_BIND_ADDRESS: &'static str = "127.0.0.1:3000";

/// The time zone used when `TIMEZONE` is absent.
pub const DEFAULT_TIMEZONE: &'static str = "Asia/Shanghai";

/// The first monitored time of day when `MONITOR_START` is absent.
pub const DEFAULT_MONITOR_START: &'static str = "08:00";

/// The last monitored time of day when `MONITOR_END` is absent.
pub const DEFAULT_MONITOR_END: &'static str = "23:00";

/// An absolute URL: its serialization and its scheme.
#[derive(Clone, Debug, PartialEq, Eq)]
pub struct AbsoluteUrl {
    pub href: String,
    pub scheme: String,
}

/// A time of day to the minute.
#[derive(Clone, Copy, Debug, PartialEq, Eq, Structural)]
pub struct ClockTime {
    pub hour: u32,
    pub minute: u32,
}

/// Settings of the classification model.
#[derive(Clone)]
pub struct ModelConfig {
    pub base_url: Option<AbsoluteUrl>,
    pub api_key: Option<SecretString>,
    pub name: String,
}

/// Settings of the e-mail channel.
#[derive(Clone)]
pub struct GmailConfig {
    pub smtp_host: String,
    pub smtp_port: u16,
    pub username: Option<String>,
    pub app_password: Option<SecretString>,
    pub recipient: Option<String>,
}

/// Settings of the push channel.
#[derive(Clone, Debug)]
pub struct FcmConfig {
    pub project_id: Option<String>,
    pub service_account_path: Option<String>,
}

/// When the service monitors its sources.
#[derive(Clone, Debug)]
pub struct ScheduleConfig {
    pub timezone: String,
    pub monitor_start: ClockTime,
    pub monitor_end: ClockTime,
}

/// Limits of device pairing and of manual checks.
#[derive(Clone, Copy, Debug)]
pub struct PairingLimits {
    pub code_length: usize,
    pub code_ttl: TimeSpan,
    pub max_attempts: u32,
    pub max_active_devices: u32,
    pub manual_check_cooldown: TimeSpan,
}

/// The configuration of the service.
#[derive(Clone)]
pub struct Config {
    pub environment: Environment,
    pub database_url: String,
    pub bind_address: String,
    pub fixed_public_ip: Option<String>,
    pub model: ModelConfig,
    pub gmail: GmailConfig,
    pub fcm: FcmConfig,
    pub schedule: ScheduleConfig,
    pub retention_days: u32,
    pub pairing: PairingLimits,
}

/// Whether the two network addresses in the settings are well formed, as the
/// standard library's `SocketAddr` and `IpAddr` parsers decide. The caller
/// parses the texts that `Config::address_settings` gives.
#[derive(Clone, Copy, Debug, PartialEq, Eq, Structural)]
pub struct AddressVerdicts {
    /// Whether the `BIND_ADDRESS` text parses as a socket address.
    pub bind_address_parses: bool,
    /// Whether the `FIXED_PUBLIC_IP` text, when there is one, parses as an
    /// IP address.
    pub fixed_public_ip_parses: bool,
}

/// Why a configuration was refused.
#[derive(Debug, PartialEq, Eq)]
pub enum ConfigError {
    MissingProductionValues { names: Vec<String> },
    InvalidValue { name: String, reason: String },
    Dotenv { reason: String },
}

/// A refusal, with texts as character sequences.
pub ghost enum ConfigProblem {
    Missing(Seq<Seq<char>>),
    Invalid(Seq<char>, Seq<char>),
    Dotenv(Seq<char>),
}

/// The texts of a sequence of strings.
pub open spec fn texts(v: Seq<String>) -> Seq<Seq<char>> {
    v.map_values(|s: String| s@)
}

impl View for ConfigError {
    type V = ConfigProblem;

    open spec fn view(&self) -> ConfigProblem {
        match self {
            ConfigError::MissingProductionValues { names } => ConfigProblem::Missing(texts(names@)),
            ConfigError::InvalidValue { name, reason } => ConfigProblem::Invalid(name@, reason@),
            ConfigError::Dotenv { reason } => ConfigProblem::Dotenv(reason@),
        }
    }
}

/// The value of the last setting named `name`.
pub open spec fn setting(entries: Seq<(String, String)>, name: Seq<char>) -> Option<Seq<char>>
    decreases entries.len(),
{
    if entries.len() == 0 {
        None
    } else if entries.last().0@ == name {
        Some(entries.last().1@)
    } else {
        setting(entries.drop_last(), name)
    }
}

/// The trimmed value of the setting `name`, when it is there and not blank.
pub open spec fn optional_setting(entries: Seq<(String, String)>, name: Seq<char>) -> Option<
    Seq<char>,
> {
    match setting(entries, name) {
        Some(value) => if trim(value).len() > 0 {
            Some(trim(value))
        } else {
            None
        },
        None => None,
    }
}

/// The trimmed value of the setting `name`, or `default` when it is absent.
pub open spec fn setting_or(entries: Seq<(String, String)>, name: Seq<char>, default: Seq<char>) -> Seq<
    char,
> {
    match optional_setting(entries, name) {
        Some(value) => value,
        None => default,
    }
}

/// The texts of optional strings.
pub open spec fn text_of(value: Option<String>) -> Option<Seq<char>> {
    match value {
        Some(s) => Some(s@),
        None => None,
    }
}

/// The texts of optional secrets.
pub open spec fn secret_text_of(value: Option<SecretString>) -> Option<Seq<char>> {
    match value {
        Some(s) => Some(s@),
        None => None,
    }
}

/// The serialization and scheme of the URL that `url::Url::parse` makes of
/// `text`; nothing when it refuses `text`.
pub uninterp spec fn url_parse(text: Seq<char>) -> Option<(Seq<char>, Seq<char>)>;

/// Whether `chrono_tz::Tz::from_str` knows `name` as a time zone.
pub uninterp spec fn known_time_zone(name: Seq<char>) -> bool;

/// The hour and minute of the time that `chrono::NaiveTime::parse_from_str`
/// reads from `text` with the format `%H:%M`; nothing when it refuses `text`.
pub uninterp spec fn hour_minute(text: Seq<char>) -> Option<(u32, u32)>;

/// The hour and minute of a time of day written as two digits, a colon and
/// two digits, with the hour below 24 and the minute below 60.
pub open spec fn two_digit_clock(text: Seq<char>) -> Option<(int, int)> {
    if text.len() == 5 && is_digit(text[0]) && is_digit(text[1]) && text[2] == ':' && is_digit(
        text[3],
    ) && is_digit(text[4]) {
        let hour = digit_value(text[0]) * 10 + digit_value(text[1]);
        let minute = digit_value(text[3]) * 10 + digit_value(text[4]);
        if hour < 24 && minute < 60 {
            Some((hour, minute))
        } else {
            None
        }
    } else {
        None
    }
}

/// Calls `url::Url::parse` and reads the serialization and the scheme of the
/// URL. The contract names the outcome; what the URL standard accepts is left
/// unsaid.
#[verifier::external_body]
fn parse_absolute_url(text: &str) -> (r: Option<AbsoluteUrl>)
    ensures
        match r {
            Some(u) => url_parse(text@) == Some((u.href@, u.scheme@)),
            None => url_parse(text@) is None,
        },
{
    match Url::parse(text) {
        Ok(url) => Some(AbsoluteUrl { href: url.as_str().to_string(), scheme: url.scheme().to_string() }),
        Err(_) => None,
    }
}

/// Calls `chrono_tz::Tz::from_str`, which looks `name` up in the time-zone
/// database; the contract names the outcome, and states that the database
/// knows the default zone, `Asia/Shanghai`.
#[verifier::external_body]
fn is_time_zone(name: &str) -> (r: bool)
    ensures
        r == known_time_zone(name@),
        name@ == DEFAULT_TIMEZONE@ ==> r,
{
    name.parse::<Tz>().is_ok()
}

/// Calls `chrono::NaiveTime::parse_from_str` with the format `%H:%M` and
/// reads the hour and minute of the result, which a `NaiveTime` keeps below
/// 24 and 60. The contract names the outcome, and states what the format
/// gives for a time written in full as `HH:MM`, zero-padded; which other
/// texts it accepts is left unsaid.
#[verifier::external_body]
fn parse_hour_minute(text: &str) -> (r: Option<ClockTime>)
    ensures
        match r {
            Some(t) => hour_minute(text@) == Some((t.hour, t.minute)) && t.hour < 24 && t.minute < 60,
            None => hour_minute(text@) is None,
        },
        two_digit_clock(text@) matches Some(hm) ==> r == Some(
            ClockTime { hour: hm.0 as u32, minute: hm.1 as u32 },
        ),
{
    match NaiveTime::parse_from_str(text, "%H:%M") {
        Ok(time) => Some(ClockTime { hour: time.hour(), minute: time.minute() }),
        Err(_) => None,
    }
}

/// The deployment that `APP_ENV` names.
pub open spec fn environment_of(entries: Seq<(String, String)>) -> Option<Environment> {
    let name = setting_or(entries, "APP_ENV"@, "development"@);
    if name == "development"@ {
        Some(Environment::Development)
    } else if name == "production"@ {
        Some(Environment::Production)
    } else {
        None
    }
}

/// The settings that production requires, in ascending order.
pub open spec fn production_settings() -> Seq<Seq<char>> {
    seq![
        "FCM_PROJECT_ID"@,
        "FCM_SERVICE_ACCOUNT_PATH"@,
        "FIXED_PUBLIC_IP"@,
        "GMAIL_APP_PASSWORD"@,
        "GMAIL_RECIPIENT"@,
        "GMAIL_USERNAME"@,
        "MODEL_API_KEY"@,
        "MODEL_BASE_URL"@,
    ]
}

/// The names in `names` whose settings are absent, in the order of `names`.
pub open spec fn absent_settings(entries: Seq<(String, String)>, names: Seq<Seq<char>>) -> Seq<
    Seq<char>,
>
    decreases names.len(),
{
    if names.len() == 0 {
        seq![]
    } else {
        let rest = absent_settings(entries, names.drop_last());
        if optional_setting(entries, names.last()) is None {
            rest.push(names.last())
        } else {
            rest
        }
    }
}

/// The refusal `InvalidValue { name, reason }`.
pub open spec fn invalid_value(name: Seq<char>, reason: Seq<char>) -> ConfigProblem {
    ConfigProblem::Invalid(name, reason)
}

/// What is wrong with the model URL, if anything: it must be absolute and
/// use http or https.
pub open spec fn model_url_problem(entries: Seq<(String, String)>) -> Option<ConfigProblem> {
    match optional_setting(entries, "MODEL_BASE_URL"@) {
        Some(text) => match url_parse(text) {
            Some(parts) => if parts.1 == "http"@ || parts.1 == "https"@ {
                None
            } else {
                Some(invalid_value("MODEL_BASE_URL"@, "must use http or https"@))
            },
            None => Some(invalid_value("MODEL_BASE_URL"@, "must be an absolute URL"@)),
        },
        None => None,
    }
}

/// What is wrong with an unsigned setting, if anything.
pub open spec fn unsigned_problem(
    entries: Seq<(String, String)>,
    name: Seq<char>,
    default: Seq<char>,
    max: int,
) -> Option<ConfigProblem> {
    if unsigned_value(setting_or(entries, name, default), max) is None {
        Some(invalid_value(name, "has an invalid format"@))
    } else {
        None
    }
}

/// What is wrong with a setting that must be a positive number, if anything.
pub open spec fn positive_problem(
    entries: Seq<(String, String)>,
    name: Seq<char>,
    default: Seq<char>,
    max: int,
) -> Option<ConfigProblem> {
    match unsigned_value(setting_or(entries, name, default), max) {
        None => Some(invalid_value(name, "has an invalid format"@)),
        Some(v) => if v <= 0 {
            Some(invalid_value(name, "must be greater than zero"@))
        } else {
            None
        },
    }
}

/// What is wrong with a time-of-day setting, if anything.
pub open spec fn clock_problem(entries: Seq<(String, String)>, name: Seq<char>, default: Seq<char>) -> Option<
    ConfigProblem,
> {
    if hour_minute(setting_or(entries, name, default)) is None {
        Some(invalid_value(name, "must use HH:MM in 24-hour time"@))
    } else {
        None
    }
}

/// The first problem among the limits, in the order they are read.
pub open spec fn limits_problem(entries: Seq<(String, String)>) -> Option<ConfigProblem> {
    let retention = positive_problem(entries, "HISTORY_RETENTION_DAYS"@, "30"@, u32::MAX as int);
    let code_length = positive_problem(entries, "PAIRING_CODE_LENGTH"@, "8"@, usize::MAX as int);
    let ttl = positive_problem(entries, "PAIRING_CODE_TTL_MINUTES"@, "10"@, u32::MAX as int);
    let attempts = positive_problem(entries, "PAIRING_MAX_ATTEMPTS"@, "5"@, u32::MAX as int);
    let devices = positive_problem(entries, "MAX_ACTIVE_DEVICES"@, "1"@, u32::MAX as int);
    let cooldown = positive_problem(
        entries,
        "MANUAL_CHECK_COOLDOWN_MINUTES"@,
        "5"@,
        u32::MAX as int,
    );
    if retention is Some {
        retention
    } else if code_length is Some {
        code_length
    } else if ttl is Some {
        ttl
    } else if attempts is Some {
        attempts
    } else if devices is Some {
        devices
    } else {
        cooldown
    }
}

/// The first problem with the settings, in the order they are checked: the
/// deployment, the model name, the production credentials, the bind address,
/// the public IP, the model URL, the SMTP port, the time zone, the monitor
/// window and the limits.
pub open spec fn first_problem(entries: Seq<(String, String)>, verdicts: AddressVerdicts) -> Option<
    ConfigProblem,
> {
    if environment_of(entries) is None {
        Some(invalid_value("APP_ENV"@, "must equal development or production"@))
    } else if setting_or(entries, "MODEL_NAME"@, REQUIRED_MODEL_NAME@) != REQUIRED_MODEL_NAME@ {
        Some(invalid_value("MODEL_NAME"@, "must equal gpt-5.6-terra"@))
    } else if environment_of(entries) == Some(Environment::Production) && absent_settings(
        entries,
        production_settings(),
    ).len() > 0 {
        Some(ConfigProblem::Missing(absent_settings(entries, production_settings())))
    } else if !verdicts.bind_address_parses {
        Some(invalid_value("BIND_ADDRESS"@, "has an invalid format"@))
    } else if optional_setting(entries, "FIXED_PUBLIC_IP"@) is Some
        && !verdicts.fixed_public_ip_parses {
        Some(invalid_value("FIXED_PUBLIC_IP"@, "has an invalid format"@))
    } else if model_url_problem(entries) is Some {
        model_url_problem(entries)
    } else if unsigned_problem(entries, "GMAIL_SMTP_PORT"@, "465"@, u16::MAX as int) is Some {
        unsigned_problem(entries, "GMAIL_SMTP_PORT"@, "465"@, u16::MAX as int)
    } else if !known_time_zone(setting_or(entries, "TIMEZONE"@, DEFAULT_TIMEZONE@)) {
        Some(invalid_value("TIMEZONE"@, "has an invalid format"@))
    } else if clock_problem(entries, "MONITOR_START"@, DEFAULT_MONITOR_START@) is Some {
        clock_problem(entries, "MONITOR_START"@, DEFAULT_MONITOR_START@)
    } else if clock_problem(entries, "MONITOR_END"@, DEFAULT_MONITOR_END@) is Some {
        clock_problem(entries, "MONITOR_END"@, DEFAULT_MONITOR_END@)
    } else {
        limits_problem(entries)
    }
}

/// The number that an unsigned setting holds.
pub open spec fn number_setting(
    entries: Seq<(String, String)>,
    name: Seq<char>,
    default: Seq<char>,
    max: int,
) -> int {
    unsigned_value(setting_or(entries, name, default), max)->0
}

/// The time of day that a setting holds.
pub open spec fn clock_setting(entries: Seq<(String, String)>, name: Seq<char>, default: Seq<char>) -> ClockTime {
    let hm = hour_minute(setting_or(entries, name, default))->0;
    ClockTime { hour: hm.0, minute: hm.1 }
}

/// Whether `c` is the configuration that the settings describe.
pub open spec fn describes(c: Config, entries: Seq<(String, String)>) -> bool {
    &&& Some(c.environment) == environment_of(entries)
    &&& c.database_url@ == setting_or(entries, "DATABASE_URL"@, DEFAULT_DATABASE_URL@)
    &&& c.bind_address@ == setting_or(entries, "BIND_ADDRESS"@, DEFAULT_BIND_ADDRESS@)
    &&& text_of(c.fixed_public_ip) == optional_setting(entries, "FIXED_PUBLIC_IP"@)
    &&& match optional_setting(entries, "MODEL_BASE_URL"@) {
        Some(text) => c.model.base_url matches Some(u) && url_parse(text) == Some((u.href@, u.scheme@)),
        None => c.model.base_url is None,
    }
    &&& secret_text_of(c.model.api_key) == optional_setting(entries, "MODEL_API_KEY"@)
    &&& c.model.name@ == REQUIRED_MODEL_NAME@
    &&& c.gmail.smtp_host@ == setting_or(entries, "GMAIL_SMTP_HOST"@, "smtp.gmail.com"@)
    &&& c.gmail.smtp_port == number_setting(entries, "GMAIL_SMTP_PORT"@, "465"@, u16::MAX as int)
    &&& text_of(c.gmail.username) == optional_setting(entries, "GMAIL_USERNAME"@)
    &&& secret_text_of(c.gmail.app_password) == optional_setting(entries, "GMAIL_APP_PASSWORD"@)
    &&& text_of(c.gmail.recipient) == optional_setting(entries, "GMAIL_RECIPIENT"@)
    &&& text_of(c.fcm.project_id) == optional_setting(entries, "FCM_PROJECT_ID"@)
    &&& text_of(c.fcm.service_account_path) == optional_setting(
        entries,
        "FCM_SERVICE_ACCOUNT_PATH"@,
    )
    &&& c.schedule.timezone@ == setting_or(entries, "TIMEZONE"@, DEFAULT_TIMEZONE@)
    &&& c.schedule.monitor_start == clock_setting(entries, "MONITOR_START"@, DEFAULT_MONITOR_START@)
    &&& c.schedule.monitor_end == clock_setting(entries, "MONITOR_END"@, DEFAULT_MONITOR_END@)
    &&& c.retention_days == number_setting(
        entries,
        "HISTORY_RETENTION_DAYS"@,
        "30"@,
        u32::MAX as int,
    )
    &&& c.pairing.code_length == number_setting(
        entries,
        "PAIRING_CODE_LENGTH"@,
        "8"@,
        usize::MAX as int,
    )
    &&& c.pairing.code_ttl.total_nanos() == number_setting(
        entries,
        "PAIRING_CODE_TTL_MINUTES"@,
        "10"@,
        u32::MAX as int,
    ) * 60_000_000_000
    &&& c.pairing.max_attempts == number_setting(
        entries,
        "PAIRING_MAX_ATTEMPTS"@,
        "5"@,
        u32::MAX as int,
    )
    &&& c.pairing.max_active_devices == number_setting(
        entries,
        "MAX_ACTIVE_DEVICES"@,
        "1"@,
        u32::MAX as int,
    )
    &&& c.pairing.manual_check_cooldown.total_nanos() == number_setting(
        entries,
        "MANUAL_CHECK_COOLDOWN_MINUTES"@,
        "5"@,
        u32::MAX as int,
    ) * 60_000_000_000
}

/// The value of the last setting named `name`.
fn lookup<'a>(values: &'a Vec<(String, String)>, name: &str) -> (r: Option<&'a String>)
    ensures
        match r {
            Some(v) => setting(values@, name@) == Some(v@),
            None => setting(values@, name@) is None,
        },
{
    let mut i = values.len();
    assert(values@.take(i as int) =~= values@);
    while i > 0
        invariant
            i <= values@.len(),
            setting(values@, name@) == setting(values@.take(i as int), name@),
        decreases i,
    {
        let entry = &values[i - 1];
        proof {
            assert(values@.take(i as int).drop_last() =~= values@.take(i - 1));
            assert(values@.take(i as int).last() == *entry);
        }
        if same_text(entry.0.as_str(), name) {
            return Some(&entry.1);
        }
        i = i - 1;
    }
    None
}

/// The trimmed value of the setting `name`, when it is there and not blank.
fn optional<'a>(values: &'a Vec<(String, String)>, name: &str) -> (r: Option<&'a str>)
    ensures
        match r {
            Some(v) => optional_setting(values@, name@) == Some(v@),
            None => optional_setting(values@, name@) is None,
        },
{
    match lookup(values, name) {
        Some(value) => {
            let t = trimmed(value.as_str());
            if t.unicode_len() == 0 {
                None
            } else {
                Some(t)
            }
        },
        None => None,
    }
}

/// The trimmed value of the setting `name`, or `default` when it is absent.
fn value_or<'a>(values: &'a Vec<(String, String)>, name: &str, default: &'a str) -> (r: &'a str)
    ensures
        r@ == setting_or(values@, name@, default@),
{
    match optional(values, name) {
        Some(value) => value,
        None => default,
    }
}

/// The optional setting as an owned string.
fn optional_string(values: &Vec<(String, String)>, name: &str) -> (r: Option<String>)
    ensures
        text_of(r) == optional_setting(values@, name@),
{
    match optional(values, name) {
        Some(value) => Some(String::from_str(value)),
        None => None,
    }
}

/// The optional setting as a secret.
fn optional_secret(values: &Vec<(String, String)>, name: &str) -> (r: Option<SecretString>)
    ensures
        secret_text_of(r) == optional_setting(values@, name@),
{
    match optional(values, name) {
        Some(value) => Some(SecretString::new(String::from_str(value))),
        None => None,
    }
}

fn invalid(name: &str, reason: &str) -> (r: ConfigError)
    ensures
        r@ == invalid_value(name@, reason@),
{
    ConfigError::InvalidValue { name: String::from_str(name), reason: String::from_str(reason) }
}

fn environment_setting(values: &Vec<(String, String)>) -> (r: Result<Environment, ConfigError>)
    ensures
        match r {
            Ok(env) => environment_of(values@) == Some(env),
            Err(e) => environment_of(values@) is None && e@ == invalid_value(
                "APP_ENV"@,
                "must equal development or production"@,
            ),
        },
{
    let name = value_or(values, "APP_ENV", "development");
    if same_text(name, "development") {
        Ok(Environment::Development)
    } else if same_text(name, "production") {
        Ok(Environment::Production)
    } else {
        Err(invalid("APP_ENV", "must equal development or production"))
    }
}

proof fn lemma_texts_push(v: Seq<String>, s: String)
    ensures
        texts(v.push(s)) == texts(v).push(s@),
{
    assert(texts(v.push(s)) =~= texts(v).push(s@));
}

/// The production settings that are absent, in ascending order.
fn missing_production_values(values: &Vec<(String, String)>) -> (r: Vec<String>)
    ensures
        texts(r@) == absent_settings(values@, production_settings()),
{
    let mut required: Vec<&str> = Vec::new();
    required.push("FCM_PROJECT_ID");
    required.push("FCM_SERVICE_ACCOUNT_PATH");
    required.push("FIXED_PUBLIC_IP");
    required.push("GMAIL_APP_PASSWORD");
    required.push("GMAIL_RECIPIENT");
    required.push("GMAIL_USERNAME");
    required.push("MODEL_API_KEY");
    required.push("MODEL_BASE_URL");
    let ghost names = production_settings();
    assert(names.len() == required@.len());
    assert forall|k: int| 0 <= k < names.len() implies #[trigger] names[k] == required@[k]@ by {}
    let mut missing: Vec<String> = Vec::new();
    let mut i: usize = 0;
    while i < required.len()
        invariant
            names == production_settings(),
            names.len() == required@.len(),
            forall|k: int| 0 <= k < names.len() ==> #[trigger] names[k] == required@[k]@,
            i <= required@.len(),
            texts(missing@) == absent_settings(values@, names.take(i as int)),
        decreases required@.len() - i,
    {
        let name = required[i];
        proof {
            assert(names.take(i + 1).drop_last() =~= names.take(i as int));
            assert(names.take(i + 1).last() == name@);
        }
        if optional(values, name).is_none() {
            let ghost before = missing@;
            missing.push(String::from_str(name));
            proof {
                lemma_texts_push(before, missing@.last());
                assert(missing@ == before.push(missing@.last()));
            }
        }
        i = i + 1;
    }
    assert(names.take(names.len() as int) =~= names);
    missing
}

fn check_model_name(values: &Vec<(String, String)>) -> (r: Result<String, ConfigError>)
    ensures
        match r {
            Ok(name) => setting_or(values@, "MODEL_NAME"@, REQUIRED_MODEL_NAME@) == REQUIRED_MODEL_NAME@
                && name@ == REQUIRED_MODEL_NAME@,
            Err(e) => setting_or(values@, "MODEL_NAME"@, REQUIRED_MODEL_NAME@) != REQUIRED_MODEL_NAME@
                && e@ == invalid_value("MODEL_NAME"@, "must equal gpt-5.6-terra"@),
        },
{
    let name = value_or(values, "MODEL_NAME", REQUIRED_MODEL_NAME);
    if !same_text(name, REQUIRED_MODEL_NAME) {
        return Err(invalid("MODEL_NAME", "must equal gpt-5.6-terra"));
    }
    Ok(String::from_str(name))
}

fn model_base_url(values: &Vec<(String, String)>) -> (r: Result<Option<AbsoluteUrl>, ConfigError>)
    ensures
        match r {
            Ok(url) => model_url_problem(values@) is None && match optional_setting(
                values@,
                "MODEL_BASE_URL"@,
            ) {
                Some(text) => url matches Some(u) && url_parse(text) == Some((u.href@, u.scheme@)),
                None => url is None,
            },
            Err(e) => model_url_problem(values@) == Some(e@),
        },
{
    match optional(values, "MODEL_BASE_URL") {
        Some(text) => match parse_absolute_url(text) {
            Some(url) => {
                if same_text(url.scheme.as_str(), "http") || same_text(url.scheme.as_str(), "https") {
                    Ok(Some(url))
                } else {
                    Err(invalid("MODEL_BASE_URL", "must use http or https"))
                }
            },
            None => Err(invalid("MODEL_BASE_URL", "must be an absolute URL")),
        },
        None => Ok(None),
    }
}

/// Reads `value`, the value of the setting `name`, as an unsigned number no
/// larger than `max`, as `from_str` of the unsigned type with that maximum
/// does.
fn parse(name: &str, value: &str, max: u64) -> (r: Result<u64, ConfigError>)
    ensures
        match r {
            Ok(v) => unsigned_value(value@, max as int) == Some(v as int) && v <= max,
            Err(e) => unsigned_value(value@, max as int) is None && e@ == invalid_value(
                name@,
                "has an invalid format"@,
            ),
        },
{
    match parse_unsigned(value, max) {
        Some(v) => Ok(v),
        None => Err(invalid(name, "has an invalid format")),
    }
}

/// Reads `value`, the value of the setting `name`, as a positive number no
/// larger than `max`.
fn parse_positive(name: &str, value: &str, max: u64) -> (r: Result<u64, ConfigError>)
    ensures
        match r {
            Ok(v) => unsigned_value(value@, max as int) == Some(v as int) && 0 < v <= max,
            Err(e) => match unsigned_value(value@, max as int) {
                None => e@ == invalid_value(name@, "has an invalid format"@),
                Some(v) => v <= 0 && e@ == invalid_value(name@, "must be greater than zero"@),
            },
        },
{
    let parsed = match parse(name, value, max) {
        Ok(v) => v,
        Err(e) => return Err(e),
    };
    if parsed == 0 {
        return Err(invalid(name, "must be greater than zero"));
    }
    Ok(parsed)
}

fn clock_time_setting(values: &Vec<(String, String)>, name: &str, default: &str) -> (r: Result<
    ClockTime,
    ConfigError,
>)
    ensures
        match r {
            Ok(t) => clock_problem(values@, name@, default@) is None && t == clock_setting(
                values@,
                name@,
                default@,
            ) && t.hour < 24 && t.minute < 60,
            Err(e) => clock_problem(values@, name@, default@) == Some(e@),
        },
{
    match parse_hour_minute(value_or(values, name, default)) {
        Some(t) => Ok(t),
        None => Err(invalid(name, "must use HH:MM in 24-hour time")),
    }
}

fn pairing_limits(values: &Vec<(String, String)>) -> (r: Result<(u32, PairingLimits), ConfigError>)
    ensures
        match r {
            Ok(limits) => limits_problem(values@) is None && limits.0 == number_setting(
                values@,
                "HISTORY_RETENTION_DAYS"@,
                "30"@,
                u32::MAX as int,
            ) && limits.1.code_length == number_setting(
                values@,
                "PAIRING_CODE_LENGTH"@,
                "8"@,
                usize::MAX as int,
            ) && limits.1.code_ttl.total_nanos() == number_setting(
                values@,
                "PAIRING_CODE_TTL_MINUTES"@,
                "10"@,
                u32::MAX as int,
            ) * 60_000_000_000 && limits.1.max_attempts == number_setting(
                values@,
                "PAIRING_MAX_ATTEMPTS"@,
                "5"@,
                u32::MAX as int,
            ) && limits.1.max_active_devices == number_setting(
                values@,
                "MAX_ACTIVE_DEVICES"@,
                "1"@,
                u32::MAX as int,
            ) && limits.1.manual_check_cooldown.total_nanos() == number_setting(
                values@,
                "MANUAL_CHECK_COOLDOWN_MINUTES"@,
                "5"@,
                u32::MAX as int,
            ) * 60_000_000_000,
            Err(e) => limits_problem(values@) == Some(e@),
        },
{
    let retention_days = match parse_positive(
        "HISTORY_RETENTION_DAYS",
        value_or(values, "HISTORY_RETENTION_DAYS", "30"),
        u32::MAX as u64,
    ) {
        Ok(v) => v as u32,
        Err(e) => return Err(e),
    };
    let code_length = match parse_positive(
        "PAIRING_CODE_LENGTH",
        value_or(values, "PAIRING_CODE_LENGTH", "8"),
        usize::MAX as u64,
    ) {
        Ok(v) => v as usize,
        Err(e) => return Err(e),
    };
    let ttl_minutes = match parse_positive(
        "PAIRING_CODE_TTL_MINUTES",
        value_or(values, "PAIRING_CODE_TTL_MINUTES", "10"),
        u32::MAX as u64,
    ) {
        Ok(v) => v as u32,
        Err(e) => return Err(e),
    };
    let max_attempts = match parse_positive(
        "PAIRING_MAX_ATTEMPTS",
        value_or(values, "PAIRING_MAX_ATTEMPTS", "5"),
        u32::MAX as u64,
    ) {
        Ok(v) => v as u32,
        Err(e) => return Err(e),
    };
    let max_active_devices = match parse_positive(
        "MAX_ACTIVE_DEVICES",
        value_or(values, "MAX_ACTIVE_DEVICES", "1"),
        u32::MAX as u64,
    ) {
        Ok(v) => v as u32,
        Err(e) => return Err(e),
    };
    let cooldown_minutes = match parse_positive(
        "MANUAL_CHECK_COOLDOWN_MINUTES",
        value_or(values, "MANUAL_CHECK_COOLDOWN_MINUTES", "5"),
        u32::MAX as u64,
    ) {
        Ok(v) => v as u32,
        Err(e) => return Err(e),
    };
    let limits = PairingLimits {
        code_length,
        code_ttl: TimeSpan::minutes(ttl_minutes as i64),
        max_attempts,
        max_active_devices,
        manual_check_cooldown: TimeSpan::minutes(cooldown_minutes as i64),
    };
    Ok((retention_days, limits))
}

impl Config {
    /// The texts of the two network addresses in the settings, whose syntax
    /// the caller checks: `BIND_ADDRESS` (or its default) and
    /// `FIXED_PUBLIC_IP` when it is given.
    pub fn address_settings(values: &Vec<(String, String)>) -> (r: (String, Option<String>))
        ensures
            r.0@ == setting_or(values@, "BIND_ADDRESS"@, DEFAULT_BIND_ADDRESS@),
            text_of(r.1) == optional_setting(values@, "FIXED_PUBLIC_IP"@),
    {
        (String::from_str(value_or(values, "BIND_ADDRESS", DEFAULT_BIND_ADDRESS)), optional_string(values, "FIXED_PUBLIC_IP"))
    }

    /// The configuration that the settings `values` describe, or the first
    /// problem with them. `addresses` tells whether the texts that
    /// `address_settings` gives parse as network addresses.
    pub fn from_map(values: Vec<(String, String)>, addresses: AddressVerdicts) -> (r: Result<
        Config,
        ConfigError,
    >)
        ensures
            match r {
                Ok(c) => first_problem(values@, addresses) is None && describes(c, values@),
                Err(e) => first_problem(values@, addresses) == Some(e@),
            },
    {
        let environment = match environment_setting(&values) {
            Ok(env) => env,
            Err(e) => return Err(e),
        };
        let model_name = match check_model_name(&values) {
            Ok(name) => name,
            Err(e) => return Err(e),
        };
        if environment == Environment::Production {
            let names = missing_production_values(&values);
            if names.len() > 0 {
                return Err(ConfigError::MissingProductionValues { names });
            }
        }
        let database_url = String::from_str(value_or(&values, "DATABASE_URL", DEFAULT_DATABASE_URL));
        if !addresses.bind_address_parses {
            return Err(invalid("BIND_ADDRESS", "has an invalid format"));
        }
        let bind_address = String::from_str(value_or(&values, "BIND_ADDRESS", DEFAULT_BIND_ADDRESS));
        let fixed_public_ip = optional_string(&values, "FIXED_PUBLIC_IP");
        if fixed_public_ip.is_some() && !addresses.fixed_public_ip_parses {
            return Err(invalid("FIXED_PUBLIC_IP", "has an invalid format"));
        }
        let base_url = match model_base_url(&values) {
            Ok(url) => url,
            Err(e) => return Err(e),
        };
        let model = ModelConfig {
            base_url,
            api_key: optional_secret(&values, "MODEL_API_KEY"),
            name: model_name,
        };
        let smtp_port = match parse("GMAIL_SMTP_PORT", value_or(&values, "GMAIL_SMTP_PORT", "465"), u16::MAX as u64) {
            Ok(v) => v as u16,
            Err(e) => return Err(e),
        };
        let gmail = GmailConfig {
            smtp_host: String::from_str(value_or(&values, "GMAIL_SMTP_HOST", "smtp.gmail.com")),
            smtp_port,
            username: optional_string(&values, "GMAIL_USERNAME"),
            app_password: optional_secret(&values, "GMAIL_APP_PASSWORD"),
            recipient: optional_string(&values, "GMAIL_RECIPIENT"),
        };
        let fcm = FcmConfig {
            project_id: optional_string(&values, "FCM_PROJECT_ID"),
            service_account_path: optional_string(&values, "FCM_SERVICE_ACCOUNT_PATH"),
        };
        let timezone = value_or(&values, "TIMEZONE", DEFAULT_TIMEZONE);
        if !is_time_zone(timezone) {
            return Err(invalid("TIMEZONE", "has an invalid format"));
        }
        let monitor_start = match clock_time_setting(&values, "MONITOR_START", DEFAULT_MONITOR_START) {
            Ok(t) => t,
            Err(e) => return Err(e),
        };
        let monitor_end = match clock_time_setting(&values, "MONITOR_END", DEFAULT_MONITOR_END) {
            Ok(t) => t,
            Err(e) => return Err(e),
        };
        let schedule = ScheduleConfig { timezone: String::from_str(timezone), monitor_start, monitor_end };
        let (retention_days, pairing) = match pairing_limits(&values) {
            Ok(limits) => limits,
            Err(e) => return Err(e),
        };
        Ok(Config {
            environment,
            database_url,
            bind_address,
            fixed_public_ip,
            model,
            gmail,
            fcm,
            schedule,
            retention_days,
            pairing,
        })
    }
}

/// A model name other than the required one is refused, whatever else the
/// settings hold, once the deployment is valid.
pub proof fn law_model_name_is_locked(entries: Seq<(String, String)>, verdicts: AddressVerdicts)
    requires
        environment_of(entries) is Some,
        optional_setting(entries, "MODEL_NAME"@) is Some,
        optional_setting(entries, "MODEL_NAME"@)->0 != REQUIRED_MODEL_NAME@,
    ensures
        first_problem(entries, verdicts) == Some(
            invalid_value("MODEL_NAME"@, "must equal gpt-5.6-terra"@),
        ),
{
}

proof fn lemma_push_contains(s: Seq<Seq<char>>, x: Seq<char>, n: Seq<char>)
    ensures
        s.push(x).contains(n) <==> (s.contains(n) || n == x),
{
    if s.contains(n) {
        let k = choose|k: int| 0 <= k < s.len() && s[k] == n;
        assert(s.push(x)[k] == n);
    }
    if n == x {
        assert(s.push(x)[s.len() as int] == n);
    }
    if s.push(x).contains(n) && n != x {
        let k = choose|k: int| 0 <= k < s.len() + 1 && s.push(x)[k] == n;
        assert(s[k] == n);
    }
}

proof fn lemma_absent_settings(entries: Seq<(String, String)>, names: Seq<Seq<char>>)
    ensures
        forall|n: Seq<char>| #[trigger]
            absent_settings(entries, names).contains(n) <==> (names.contains(n)
                && optional_setting(entries, n) is None),
    decreases names.len(),
{
    if names.len() > 0 {
        let init = names.drop_last();
        let x = names.last();
        lemma_absent_settings(entries, init);
        assert(names =~= init.push(x));
        assert forall|n: Seq<char>| #[trigger]
            absent_settings(entries, names).contains(n) <==> (names.contains(n)
                && optional_setting(entries, n) is None) by {
            lemma_push_contains(init, x, n);
            let rest = absent_settings(entries, init);
            if optional_setting(entries, x) is None {
                assert(absent_settings(entries, names) == rest.push(x));
                lemma_push_contains(rest, x, n);
            } else {
                assert(absent_settings(entries, names) == rest);
            }
        }
    }
}

/// The names that a refusal for missing production values lists are exactly
/// the required production settings that are absent.
pub proof fn law_missing_names_are_the_absent_ones(entries: Seq<(String, String)>)
    ensures
        forall|n: Seq<char>| #[trigger]
            absent_settings(entries, production_settings()).contains(n) <==> (
            production_settings().contains(n) && optional_setting(entries, n) is None),
{
    lemma_absent_settings(entries, production_settings());
}

/// A production configuration that is accepted has every required
/// credential.
pub proof fn law_production_has_credentials(
    entries: Seq<(String, String)>,
    verdicts: AddressVerdicts,
    n: Seq<char>,
)
    requires
        environment_of(entries) == Some(Environment::Production),
        first_problem(entries, verdicts) is None,
        production_settings().contains(n),
    ensures
        optional_setting(entries, n) is Some,
{
    lemma_absent_settings(entries, production_settings());
    if optional_setting(entries, n) is None {
        assert(absent_settings(entries, production_settings()).contains(n));
    }
}

/// An accepted configuration has positive limits, a model URL that uses
/// http or https, the required model name and monitor times that are times
/// of day.
pub proof fn law_accepted_configuration_is_sound(
    entries: Seq<(String, String)>,
    verdicts: AddressVerdicts,
    c: Config,
)
    requires
        first_problem(entries, verdicts) is None,
        describes(c, entries),
    ensures
        c.retention_days > 0,
        c.pairing.code_length > 0,
        c.pairing.code_ttl.total_nanos() > 0,
        c.pairing.max_attempts > 0,
        c.pairing.max_active_devices > 0,
        c.pairing.manual_check_cooldown.total_nanos() > 0,
        c.model.name@ == REQUIRED_MODEL_NAME@,
        c.model.base_url matches Some(u) ==> (u.scheme@ == "http"@ || u.scheme@ == "https"@),
        hour_minute(setting_or(entries, "MONITOR_START"@, DEFAULT_MONITOR_START@)) is Some,
        hour_minute(setting_or(entries, "MONITOR_END"@, DEFAULT_MONITOR_END@)) is Some,
{
}

/// Of several settings with one name, the last one counts.
pub proof fn law_last_setting_wins(
    entries: Seq<(String, String)>,
    name: String,
    value: String,
)
    ensures
        setting(entries.push((name, value)), name@) == Some(value@),
{
    assert(entries.push((name, value)).last() == (name, value));
}

/// Whether text `a` sorts before text `b`, comparing character by
/// character as `String`'s ordering does.
pub open spec fn text_before(a: Seq<char>, b: Seq<char>) -> bool
    decreases a.len(),
{
    if b.len() == 0 {
        false
    } else if a.len() == 0 {
        true
    } else if a[0] != b[0] {
        (a[0] as int) < (b[0] as int)
    } else {
        text_before(a.drop_first(), b.drop_first())
    }
}

/// Whether the texts in `s` are in ascending order.
pub open spec fn ascending(s: Seq<Seq<char>>) -> bool {
    forall|i: int, j: int| 0 <= i < j < s.len() ==> text_before(#[trigger] s[i], #[trigger] s[j])
}

proof fn lemma_text_before_transitive(a: Seq<char>, b: Seq<char>, c: Seq<char>)
    requires
        text_before(a, b),
        text_before(b, c),
    ensures
        text_before(a, c),
    decreases a.len(),
{
    if a.len() > 0 && a[0] == b[0] && b[0] == c[0] {
        lemma_text_before_transitive(a.drop_first(), b.drop_first(), c.drop_first());
    }
}

proof fn lemma_ascending_from_neighbours(s: Seq<Seq<char>>)
    requires
        forall|i: int| 0 <= i < s.len() - 1 ==> text_before(#[trigger] s[i], s[i + 1]),
    ensures
        ascending(s),
    decreases s.len(),
{
    if s.len() > 1 {
        let init = s.drop_last();
        assert forall|i: int| 0 <= i < init.len() - 1 implies text_before(
            #[trigger] init[i],
            init[i + 1],
        ) by {
            assert(init[i] == s[i] && init[i + 1] == s[i + 1]);
        }
        lemma_ascending_from_neighbours(init);
        assert forall|i: int, j: int| 0 <= i < j < s.len() implies text_before(
            #[trigger] s[i],
            #[trigger] s[j],
        ) by {
            if j < s.len() - 1 {
                assert(init[i] == s[i] && init[j] == s[j]);
            } else if i < j - 1 {
                assert(init[i] == s[i] && init[j - 1] == s[j - 1]);
                assert(text_before(s[i], s[j - 1]));
                lemma_text_before_transitive(s[i], s[j - 1], s[j]);
            }
        }
    }
}

proof fn lemma_production_settings_ascending()
    ensures
        ascending(production_settings()),
{
    reveal_strlit("FCM_PROJECT_ID");
    reveal_strlit("FCM_SERVICE_ACCOUNT_PATH");
    reveal_strlit("FIXED_PUBLIC_IP");
    reveal_strlit("GMAIL_APP_PASSWORD");
    reveal_strlit("GMAIL_RECIPIENT");
    reveal_strlit("GMAIL_USERNAME");
    reveal_strlit("MODEL_API_KEY");
    reveal_strlit("MODEL_BASE_URL");
    let s = production_settings();
    reveal_with_fuel(text_before, 8);
    assert(text_before(s[0], s[1]));
    assert(text_before(s[1], s[2]));
    assert(text_before(s[2], s[3]));
    assert(text_before(s[3], s[4]));
    assert(text_before(s[4], s[5]));
    assert(text_before(s[5], s[6]));
    assert(text_before(s[6], s[7]));
    lemma_ascending_from_neighbours(s);
}

proof fn lemma_absent_settings_ascending(entries: Seq<(String, String)>, names: Seq<Seq<char>>)
    requires
        ascending(names),
    ensures
        ascending(absent_settings(entries, names)),
    decreases names.len(),
{
    if names.len() > 0 {
        let init = names.drop_last();
        let x = names.last();
        assert forall|i: int, j: int| 0 <= i < j < init.len() implies text_before(
            #[trigger] init[i],
            #[trigger] init[j],
        ) by {
            assert(init[i] == names[i] && init[j] == names[j]);
        }
        lemma_absent_settings_ascending(entries, init);
        lemma_absent_settings(entries, init);
        let rest = absent_settings(entries, init);
        if optional_setting(entries, x) is None {
            let all = rest.push(x);
            assert forall|i: int, j: int| 0 <= i < j < all.len() implies text_before(
                #[trigger] all[i],
                #[trigger] all[j],
            ) by {
                if j < rest.len() {
                    assert(all[i] == rest[i] && all[j] == rest[j]);
                } else {
                    assert(all[i] == rest[i]);
                    assert(rest.contains(rest[i]));
                    assert(init.contains(rest[i]));
                    let k = choose|k: int| 0 <= k < init.len() && init[k] == rest[i];
                    assert(names[k] == rest[i]);
                    assert(names[names.len() - 1] == x);
                }
            }
        }
    }
}

/// The names that a refusal for missing production values lists are in
/// ascending order.
pub proof fn law_missing_names_are_sorted(entries: Seq<(String, String)>)
    ensures
        ascending(absent_settings(entries, production_settings())),
{
    lemma_production_settings_ascending();
    lemma_absent_settings_ascending(entries, production_settings());
}

/// What a raw value of a setting counts as: its trimmed text, a blank value
/// counting as none.
pub open spec fn effective_value(value: Option<Seq<char>>) -> Option<Seq<char>> {
    match value {
        Some(v) => if trim(v).len() > 0 {
            Some(trim(v))
        } else {
            None
        },
        None => None,
    }
}

proof fn lemma_absent_settings_agree(
    first: Seq<(String, String)>,
    second: Seq<(String, String)>,
    names: Seq<Seq<char>>,
)
    requires
        forall|i: int|
            0 <= i < names.len() ==> (optional_setting(first, #[trigger] names[i]) is None)
                == (optional_setting(second, names[i]) is None),
    ensures
        absent_settings(first, names) == absent_settings(second, names),
    decreases names.len(),
{
    if names.len() > 0 {
        let init = names.drop_last();
        assert forall|i: int| 0 <= i < init.len() implies (optional_setting(
            first,
            #[trigger] init[i],
        ) is None) == (optional_setting(second, init[i]) is None) by {
            assert(init[i] == names[i]);
        }
        lemma_absent_settings_agree(first, second, init);
        assert(names.last() == names[names.len() - 1]);
    }
}

/// Settings whose values agree once trimmed, a blank value counting as an
/// absent one, give the same outcome: the same refusal, or the same
/// configuration, and the same address texts to check.
pub proof fn law_trimming_does_not_change_the_outcome(
    first: Seq<(String, String)>,
    second: Seq<(String, String)>,
    verdicts: AddressVerdicts,
)
    requires
        forall|name: Seq<char>|
            effective_value(#[trigger] setting(first, name)) == effective_value(
                setting(second, name),
            ),
    ensures
        first_problem(first, verdicts) == first_problem(second, verdicts),
        forall|c: Config| #[trigger] describes(c, first) == describes(c, second),
        setting_or(first, "BIND_ADDRESS"@, DEFAULT_BIND_ADDRESS@) == setting_or(
            second,
            "BIND_ADDRESS"@,
            DEFAULT_BIND_ADDRESS@,
        ),
        optional_setting(first, "FIXED_PUBLIC_IP"@) == optional_setting(second, "FIXED_PUBLIC_IP"@),
{
    assert forall|name: Seq<char>|
        #[trigger] optional_setting(first, name) == optional_setting(second, name) by {
        assert(effective_value(setting(first, name)) == effective_value(setting(second, name)));
    }
    let names = production_settings();
    assert forall|i: int| 0 <= i < names.len() implies (optional_setting(
        first,
        #[trigger] names[i],
    ) is None) == (optional_setting(second, names[i]) is None) by {
        assert(optional_setting(first, names[i]) == optional_setting(second, names[i]));
    }
    lemma_absent_settings_agree(first, second, names);
}

/// No refusal depends on the credentials' values: settings that differ only
/// in `MODEL_API_KEY` and `GMAIL_APP_PASSWORD`, each given in both or blank
/// in both, are refused alike or accepted alike.
pub proof fn law_refusals_do_not_depend_on_secrets(
    first: Seq<(String, String)>,
    second: Seq<(String, String)>,
    verdicts: AddressVerdicts,
)
    requires
        forall|name: Seq<char>|
            name != "MODEL_API_KEY"@ && name != "GMAIL_APP_PASSWORD"@ ==> #[trigger] setting(
                first,
                name,
            ) == setting(second, name),
        (optional_setting(first, "MODEL_API_KEY"@) is None) == (optional_setting(
            second,
            "MODEL_API_KEY"@,
        ) is None),
        (optional_setting(first, "GMAIL_APP_PASSWORD"@) is None) == (optional_setting(
            second,
            "GMAIL_APP_PASSWORD"@,
        ) is None),
    ensures
        first_problem(first, verdicts) == first_problem(second, verdicts),
{
    reveal_strlit("MODEL_API_KEY");
    reveal_strlit("GMAIL_APP_PASSWORD");
    reveal_strlit("APP_ENV");
    reveal_strlit("MODEL_NAME");
    reveal_strlit("FCM_PROJECT_ID");
    reveal_strlit("FCM_SERVICE_ACCOUNT_PATH");
    reveal_strlit("FIXED_PUBLIC_IP");
    reveal_strlit("GMAIL_RECIPIENT");
    reveal_strlit("GMAIL_USERNAME");
    reveal_strlit("MODEL_BASE_URL");
    reveal_strlit("GMAIL_SMTP_PORT");
    reveal_strlit("TIMEZONE");
    reveal_strlit("MONITOR_START");
    reveal_strlit("MONITOR_END");
    reveal_strlit("HISTORY_RETENTION_DAYS");
    reveal_strlit("PAIRING_CODE_LENGTH");
    reveal_strlit("PAIRING_CODE_TTL_MINUTES");
    reveal_strlit("PAIRING_MAX_ATTEMPTS");
    reveal_strlit("MAX_ACTIVE_DEVICES");
    reveal_strlit("MANUAL_CHECK_COOLDOWN_MINUTES");
    let names = production_settings();
    assert forall|i: int| 0 <= i < names.len() implies (optional_setting(
        first,
        #[trigger] names[i],
    ) is None) == (optional_setting(second, names[i]) is None) by {
        if names[i] != "MODEL_API_KEY"@ && names[i] != "GMAIL_APP_PASSWORD"@ {
            assert(setting(first, names[i]) == setting(second, names[i]));
        }
    }
    lemma_absent_settings_agree(first, second, names);
    assert("MODEL_API_KEY"@.len() == 13 && "GMAIL_APP_PASSWORD"@.len() == 18);
    assert(setting(first, "APP_ENV"@) == setting(second, "APP_ENV"@)) by {
        assert("APP_ENV"@.len() == 7);
    }
    assert(setting(first, "MODEL_NAME"@) == setting(second, "MODEL_NAME"@)) by {
        assert("MODEL_NAME"@.len() == 10);
    }
    assert(setting(first, "FIXED_PUBLIC_IP"@) == setting(second, "FIXED_PUBLIC_IP"@)) by {
        assert("FIXED_PUBLIC_IP"@.len() == 15);
    }
    assert(setting(first, "MODEL_BASE_URL"@) == setting(second, "MODEL_BASE_URL"@)) by {
        assert("MODEL_BASE_URL"@.len() == 14);
    }
    assert(setting(first, "GMAIL_SMTP_PORT"@) == setting(second, "GMAIL_SMTP_PORT"@)) by {
        assert("GMAIL_SMTP_PORT"@.len() == 15);
    }
    assert(setting(first, "TIMEZONE"@) == setting(second, "TIMEZONE"@)) by {
        assert("TIMEZONE"@.len() == 8);
    }
    assert(setting(first, "MONITOR_START"@) == setting(second, "MONITOR_START"@)) by {
        assert("MONITOR_START"@[2] != "MODEL_API_KEY"@[2]);
    }
    assert(setting(first, "MONITOR_END"@) == setting(second, "MONITOR_END"@)) by {
        assert("MONITOR_END"@.len() == 11);
    }
    assert(setting(first, "HISTORY_RETENTION_DAYS"@) == setting(second, "HISTORY_RETENTION_DAYS"@)) by {
        assert("HISTORY_RETENTION_DAYS"@.len() == 22);
    }
    assert(setting(first, "PAIRING_CODE_LENGTH"@) == setting(second, "PAIRING_CODE_LENGTH"@)) by {
        assert("PAIRING_CODE_LENGTH"@.len() == 19);
    }
    assert(setting(first, "PAIRING_CODE_TTL_MINUTES"@) == setting(second, "PAIRING_CODE_TTL_MINUTES"@)) by {
        assert("PAIRING_CODE_TTL_MINUTES"@.len() == 24);
    }
    assert(setting(first, "PAIRING_MAX_ATTEMPTS"@) == setting(second, "PAIRING_MAX_ATTEMPTS"@)) by {
        assert("PAIRING_MAX_ATTEMPTS"@.len() == 20);
    }
    assert(setting(first, "MAX_ACTIVE_DEVICES"@) == setting(second, "MAX_ACTIVE_DEVICES"@)) by {
        assert("MAX_ACTIVE_DEVICES"@[0] != "GMAIL_APP_PASSWORD"@[0]);
    }
    assert(setting(first, "MANUAL_CHECK_COOLDOWN_MINUTES"@) == setting(second, "MANUAL_CHECK_COOLDOWN_MINUTES"@)) by {
        assert("MANUAL_CHECK_COOLDOWN_MINUTES"@.len() == 29);
    }
}

/// The text a setting gives a field: its trimmed value, or `default` when
/// it is absent or blank.
pub open spec fn given_or(value: Option<Seq<char>>, default: Seq<char>) -> Seq<char> {
    match effective_value(value) {
        Some(v) => v,
        None => default,
    }
}

/// The plain text fields of a configuration come from their own settings,
/// in every deployment: the trimmed value of the last setting of the name,
/// the default only when it is absent or blank. The mail recipient is
/// `GMAIL_RECIPIENT`, the mail login is `GMAIL_USERNAME`, the FCM project is
/// `FCM_PROJECT_ID`, and the database and bind address are `DATABASE_URL`
/// and `BIND_ADDRESS`, the latter the text that `address_settings` gives.
pub proof fn law_fields_come_from_their_settings(entries: Seq<(String, String)>, c: Config)
    requires
        describes(c, entries),
    ensures
        text_of(c.gmail.recipient) == effective_value(setting(entries, "GMAIL_RECIPIENT"@)),
        text_of(c.gmail.username) == effective_value(setting(entries, "GMAIL_USERNAME"@)),
        text_of(c.fcm.project_id) == effective_value(setting(entries, "FCM_PROJECT_ID"@)),
        text_of(c.fcm.service_account_path) == effective_value(
            setting(entries, "FCM_SERVICE_ACCOUNT_PATH"@),
        ),
        text_of(c.fixed_public_ip) == effective_value(setting(entries, "FIXED_PUBLIC_IP"@)),
        c.bind_address@ == given_or(setting(entries, "BIND_ADDRESS"@), DEFAULT_BIND_ADDRESS@),
        c.database_url@ == given_or(setting(entries, "DATABASE_URL"@), DEFAULT_DATABASE_URL@),
        c.gmail.smtp_host@ == given_or(setting(entries, "GMAIL_SMTP_HOST"@), "smtp.gmail.com"@),
        c.schedule.timezone@ == given_or(setting(entries, "TIMEZONE"@), DEFAULT_TIMEZONE@),
        secret_text_of(c.model.api_key) == effective_value(setting(entries, "MODEL_API_KEY"@)),
        secret_text_of(c.gmail.app_password) == effective_value(
            setting(entries, "GMAIL_APP_PASSWORD"@),
        ),
        c.environment == if given_or(setting(entries, "APP_ENV"@), "development"@)
            == "production"@ {
            Environment::Production
        } else {
            Environment::Development
        },
        c.model.base_url is Some <==> effective_value(setting(entries, "MODEL_BASE_URL"@)) is Some,
        c.model.base_url matches Some(u) ==> url_parse(
            effective_value(setting(entries, "MODEL_BASE_URL"@))->0,
        ) == Some((u.href@, u.scheme@)),
{
    reveal_strlit("development");
    reveal_strlit("production");
    assert("development"@.len() != "production"@.len());
    assert(given_or(setting(entries, "APP_ENV"@), "development"@) == setting_or(
        entries,
        "APP_ENV"@,
        "development"@,
    ));
}

/// The numbers and times of day of an accepted configuration are those its
/// own settings hold, or the defaults when they are absent or blank.
pub proof fn law_accepted_numbers_come_from_their_settings(
    entries: Seq<(String, String)>,
    verdicts: AddressVerdicts,
    c: Config,
)
    requires
        first_problem(entries, verdicts) is None,
        describes(c, entries),
    ensures
        unsigned_value(given_or(setting(entries, "GMAIL_SMTP_PORT"@), "465"@), u16::MAX as int)
            == Some(c.gmail.smtp_port as int),
        unsigned_value(given_or(setting(entries, "HISTORY_RETENTION_DAYS"@), "30"@), u32::MAX as int)
            == Some(c.retention_days as int),
        unsigned_value(given_or(setting(entries, "PAIRING_CODE_LENGTH"@), "8"@), usize::MAX as int)
            == Some(c.pairing.code_length as int),
        unsigned_value(given_or(setting(entries, "PAIRING_MAX_ATTEMPTS"@), "5"@), u32::MAX as int)
            == Some(c.pairing.max_attempts as int),
        unsigned_value(given_or(setting(entries, "MAX_ACTIVE_DEVICES"@), "1"@), u32::MAX as int)
            == Some(c.pairing.max_active_devices as int),
        unsigned_value(given_or(setting(entries, "PAIRING_CODE_TTL_MINUTES"@), "10"@), u32::MAX as int)
            matches Some(m) && c.pairing.code_ttl.total_nanos() == m * 60_000_000_000,
        unsigned_value(
            given_or(setting(entries, "MANUAL_CHECK_COOLDOWN_MINUTES"@), "5"@),
            u32::MAX as int,
        ) matches Some(m) && c.pairing.manual_check_cooldown.total_nanos() == m * 60_000_000_000,
        hour_minute(given_or(setting(entries, "MONITOR_START"@), DEFAULT_MONITOR_START@)) == Some(
            (c.schedule.monitor_start.hour, c.schedule.monitor_start.minute),
        ),
        hour_minute(given_or(setting(entries, "MONITOR_END"@), DEFAULT_MONITOR_END@)) == Some(
            (c.schedule.monitor_end.hour, c.schedule.monitor_end.minute),
        ),
{
}

/// A non-blank value given last for one of these settings is what the
/// configuration holds, trimmed, whatever came before it.
pub proof fn law_last_given_value_is_used(
    entries: Seq<(String, String)>,
    name: String,
    value: String,
    c: Config,
)
    requires
        trim(value@).len() > 0,
        describes(c, entries.push((name, value))),
    ensures
        name@ == "GMAIL_RECIPIENT"@ ==> text_of(c.gmail.recipient) == Some(trim(value@)),
        name@ == "GMAIL_USERNAME"@ ==> text_of(c.gmail.username) == Some(trim(value@)),
        name@ == "FCM_PROJECT_ID"@ ==> text_of(c.fcm.project_id) == Some(trim(value@)),
        name@ == "BIND_ADDRESS"@ ==> c.bind_address@ == trim(value@),
        name@ == "DATABASE_URL"@ ==> c.database_url@ == trim(value@),
{
    law_last_setting_wins(entries, name, value);
}

/// Each of these fields depends on its own setting only: two configurations
/// whose settings agree on that one name agree on the field, however they
/// differ elsewhere (another deployment, another mail login or recipient,
/// another service-account path).
pub proof fn law_fields_depend_on_their_own_setting_only(
    first: Seq<(String, String)>,
    second: Seq<(String, String)>,
    c1: Config,
    c2: Config,
)
    requires
        describes(c1, first),
        describes(c2, second),
    ensures
        setting(first, "GMAIL_RECIPIENT"@) == setting(second, "GMAIL_RECIPIENT"@) ==> text_of(
            c1.gmail.recipient,
        ) == text_of(c2.gmail.recipient),
        setting(first, "GMAIL_USERNAME"@) == setting(second, "GMAIL_USERNAME"@) ==> text_of(
            c1.gmail.username,
        ) == text_of(c2.gmail.username),
        setting(first, "FCM_PROJECT_ID"@) == setting(second, "FCM_PROJECT_ID"@) ==> text_of(
            c1.fcm.project_id,
        ) == text_of(c2.fcm.project_id),
        setting(first, "BIND_ADDRESS"@) == setting(second, "BIND_ADDRESS"@) ==> c1.bind_address@
            == c2.bind_address@,
        setting(first, "DATABASE_URL"@) == setting(second, "DATABASE_URL"@) ==> c1.database_url@
            == c2.database_url@,
{
}

} // verus!
