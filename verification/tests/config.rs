use codex_reset_watch::config::{
    AddressVerdicts, ClockTime, Config, ConfigError, Environment, SecretString,
};

fn settings(pairs: &[(&str, &str)]) -> Vec<(String, String)> {
    pairs.iter().map(|(k, v)| (k.to_string(), v.to_string())).collect()
}

fn addresses_parse() -> AddressVerdicts {
    AddressVerdicts { bind_address_parses: true, fixed_public_ip_parses: true }
}

fn invalid(name: &str, reason: &str) -> ConfigError {
    ConfigError::InvalidValue { name: name.to_string(), reason: reason.to_string() }
}

fn production_settings() -> Vec<(&'static str, &'static str)> {
    vec![
        ("APP_ENV", "production"),
        ("FCM_PROJECT_ID", "project"),
        ("FCM_SERVICE_ACCOUNT_PATH", "/etc/service-account.json"),
        ("FIXED_PUBLIC_IP", "203.0.113.7"),
        ("GMAIL_APP_PASSWORD", "app-password"),
        ("GMAIL_RECIPIENT", "me@example.com"),
        ("GMAIL_USERNAME", "sender@example.com"),
        ("MODEL_API_KEY", "model-key"),
        ("MODEL_BASE_URL", "https://model.example.com/v1"),
    ]
}

#[test]
fn production_rejects_missing_required_values() {
    let error = Config::from_map(settings(&[("APP_ENV", "production")]), addresses_parse())
        .err()
        .unwrap();

    let ConfigError::MissingProductionValues { names } = error else {
        panic!("expected missing production values");
    };

    assert_eq!(
        names,
        vec![
            "FCM_PROJECT_ID",
            "FCM_SERVICE_ACCOUNT_PATH",
            "FIXED_PUBLIC_IP",
            "GMAIL_APP_PASSWORD",
            "GMAIL_RECIPIENT",
            "GMAIL_USERNAME",
            "MODEL_API_KEY",
            "MODEL_BASE_URL",
        ]
    );
}

#[test]
fn development_uses_documented_schedule_and_retention_defaults() {
    let config = Config::from_map(Vec::new(), addresses_parse()).ok().unwrap();

    assert_eq!(config.schedule.timezone, "Asia/Shanghai");
    assert_eq!(config.schedule.monitor_start, ClockTime { hour: 8, minute: 0 });
    assert_eq!(config.schedule.monitor_end, ClockTime { hour: 23, minute: 0 });
    assert_eq!(config.retention_days, 30);
    assert_eq!(config.pairing.code_length, 8);
    assert_eq!(config.pairing.code_ttl.as_secs(), 600);
    assert_eq!(config.pairing.max_attempts, 5);
    assert_eq!(config.pairing.max_active_devices, 1);
    assert_eq!(config.pairing.manual_check_cooldown.as_secs(), 300);
}

#[test]
fn model_name_must_remain_locked() {
    let error = Config::from_map(settings(&[("MODEL_NAME", "another-model")]), addresses_parse())
        .err()
        .unwrap();

    assert_eq!(
        error,
        ConfigError::InvalidValue {
            name: "MODEL_NAME".to_string(),
            reason: "must equal gpt-5.6-terra".to_string(),
        }
    );
}

#[test]
fn secret_debug_output_is_redacted() {
    let secret = SecretString::new("never-print-this".to_string());

    assert_eq!(secret.redacted_debug(), "[REDACTED]");
    assert!(!secret.redacted_debug().contains(secret.expose()));
}

#[test]
fn secret_keeps_its_text() {
    let secret = SecretString::new("s3cr3t".to_string());
    assert_eq!(secret.expose(), "s3cr3t");
    assert_eq!(secret.clone().expose(), "s3cr3t");
}

#[test]
fn development_uses_documented_service_defaults() {
    let config = Config::from_map(Vec::new(), addresses_parse()).ok().unwrap();
    assert_eq!(config.environment, Environment::Development);
    assert_eq!(config.database_url, "sqlite://codex-reset-watch.db");
    assert_eq!(config.bind_address, "127.0.0.1:3000");
    assert_eq!(config.fixed_public_ip, None);
    assert!(config.model.base_url.is_none());
    assert!(config.model.api_key.is_none());
    assert_eq!(config.model.name, "gpt-5.6-terra");
    assert_eq!(config.gmail.smtp_host, "smtp.gmail.com");
    assert_eq!(config.gmail.smtp_port, 465);
    assert_eq!(config.fcm.project_id, None);
}

#[test]
fn production_with_every_credential_is_accepted() {
    let config = Config::from_map(settings(&production_settings()), addresses_parse())
        .ok()
        .unwrap();
    assert_eq!(config.environment, Environment::Production);
    assert_eq!(config.fixed_public_ip.as_deref(), Some("203.0.113.7"));
    let url = config.model.base_url.unwrap();
    assert_eq!(url.scheme, "https");
    assert_eq!(url.href, "https://model.example.com/v1");
    assert_eq!(config.model.api_key.unwrap().expose(), "model-key");
    assert_eq!(config.gmail.app_password.unwrap().expose(), "app-password");
    assert_eq!(config.fcm.service_account_path.as_deref(), Some("/etc/service-account.json"));
}

#[test]
fn production_reports_only_the_absent_credentials() {
    let mut pairs = production_settings();
    pairs.retain(|(k, _)| *k != "GMAIL_RECIPIENT" && *k != "MODEL_API_KEY");
    pairs.push(("FCM_PROJECT_ID", "   "));
    let error = Config::from_map(settings(&pairs), addresses_parse()).err().unwrap();
    assert_eq!(
        error,
        ConfigError::MissingProductionValues {
            names: vec![
                "FCM_PROJECT_ID".to_string(),
                "GMAIL_RECIPIENT".to_string(),
                "MODEL_API_KEY".to_string(),
            ],
        }
    );
}

#[test]
fn unknown_environment_is_refused() {
    let error = Config::from_map(settings(&[("APP_ENV", "staging")]), addresses_parse())
        .err()
        .unwrap();
    assert_eq!(error, invalid("APP_ENV", "must equal development or production"));
}

#[test]
fn blank_and_padded_values_are_trimmed() {
    let config = Config::from_map(
        settings(&[("APP_ENV", "  production\t"), ("MODEL_NAME", " gpt-5.6-terra ")]),
        addresses_parse(),
    );
    assert!(matches!(config, Err(ConfigError::MissingProductionValues { .. })));
    let config = Config::from_map(
        settings(&[("HISTORY_RETENTION_DAYS", " \u{3000} "), ("GMAIL_SMTP_HOST", " smtp.example.com ")]),
        addresses_parse(),
    )
    .ok()
    .unwrap();
    assert_eq!(config.retention_days, 30);
    assert_eq!(config.gmail.smtp_host, "smtp.example.com");
}

#[test]
fn the_last_setting_of_a_name_counts() {
    let config = Config::from_map(
        settings(&[("HISTORY_RETENTION_DAYS", "7"), ("HISTORY_RETENTION_DAYS", "14")]),
        addresses_parse(),
    )
    .ok()
    .unwrap();
    assert_eq!(config.retention_days, 14);
}

#[test]
fn malformed_addresses_are_refused_in_order() {
    let verdicts = AddressVerdicts { bind_address_parses: false, fixed_public_ip_parses: false };
    let error = Config::from_map(settings(&[("FIXED_PUBLIC_IP", "nope")]), verdicts).err().unwrap();
    assert_eq!(error, invalid("BIND_ADDRESS", "has an invalid format"));

    let verdicts = AddressVerdicts { bind_address_parses: true, fixed_public_ip_parses: false };
    let error = Config::from_map(settings(&[("FIXED_PUBLIC_IP", "nope")]), verdicts).err().unwrap();
    assert_eq!(error, invalid("FIXED_PUBLIC_IP", "has an invalid format"));

    let config = Config::from_map(Vec::new(), verdicts).ok().unwrap();
    assert_eq!(config.fixed_public_ip, None);
}

#[test]
fn address_settings_are_the_texts_to_check() {
    let (bind, ip) = Config::address_settings(&settings(&[("FIXED_PUBLIC_IP", " 198.51.100.1 ")]));
    assert_eq!(bind, "127.0.0.1:3000");
    assert_eq!(ip.as_deref(), Some("198.51.100.1"));
    let (bind, ip) = Config::address_settings(&settings(&[("BIND_ADDRESS", "[::1]:8080")]));
    assert_eq!(bind, "[::1]:8080");
    assert_eq!(ip, None);
}

#[test]
fn model_url_must_be_absolute_http() {
    let error = Config::from_map(settings(&[("MODEL_BASE_URL", "not a url")]), addresses_parse())
        .err()
        .unwrap();
    assert_eq!(error, invalid("MODEL_BASE_URL", "must be an absolute URL"));
    let error = Config::from_map(settings(&[("MODEL_BASE_URL", "ftp://example.com/")]), addresses_parse())
        .err()
        .unwrap();
    assert_eq!(error, invalid("MODEL_BASE_URL", "must use http or https"));
    let config = Config::from_map(settings(&[("MODEL_BASE_URL", "http://localhost:8000")]), addresses_parse())
        .ok()
        .unwrap();
    assert_eq!(config.model.base_url.unwrap().href, "http://localhost:8000/");
}

#[test]
fn numbers_follow_unsigned_parsing() {
    let error = Config::from_map(settings(&[("GMAIL_SMTP_PORT", "65536")]), addresses_parse())
        .err()
        .unwrap();
    assert_eq!(error, invalid("GMAIL_SMTP_PORT", "has an invalid format"));
    let config = Config::from_map(settings(&[("GMAIL_SMTP_PORT", "+587")]), addresses_parse())
        .ok()
        .unwrap();
    assert_eq!(config.gmail.smtp_port, 587);
    let error = Config::from_map(settings(&[("MAX_ACTIVE_DEVICES", "-1")]), addresses_parse())
        .err()
        .unwrap();
    assert_eq!(error, invalid("MAX_ACTIVE_DEVICES", "has an invalid format"));
    let error = Config::from_map(settings(&[("PAIRING_MAX_ATTEMPTS", "0")]), addresses_parse())
        .err()
        .unwrap();
    assert_eq!(error, invalid("PAIRING_MAX_ATTEMPTS", "must be greater than zero"));
    let config = Config::from_map(settings(&[("PAIRING_CODE_TTL_MINUTES", "4294967295")]), addresses_parse())
        .ok()
        .unwrap();
    assert_eq!(config.pairing.code_ttl.as_secs(), 4_294_967_295 * 60);
}

#[test]
fn time_zone_and_monitor_window_are_checked() {
    let error = Config::from_map(settings(&[("TIMEZONE", "Mars/Olympus")]), addresses_parse())
        .err()
        .unwrap();
    assert_eq!(error, invalid("TIMEZONE", "has an invalid format"));
    let error = Config::from_map(settings(&[("MONITOR_START", "25:00")]), addresses_parse())
        .err()
        .unwrap();
    assert_eq!(error, invalid("MONITOR_START", "must use HH:MM in 24-hour time"));
    let error = Config::from_map(settings(&[("MONITOR_END", "noon")]), addresses_parse())
        .err()
        .unwrap();
    assert_eq!(error, invalid("MONITOR_END", "must use HH:MM in 24-hour time"));
    let config = Config::from_map(
        settings(&[("TIMEZONE", "Europe/Berlin"), ("MONITOR_START", "07:30")]),
        addresses_parse(),
    )
    .ok()
    .unwrap();
    assert_eq!(config.schedule.timezone, "Europe/Berlin");
    assert_eq!(config.schedule.monitor_start, ClockTime { hour: 7, minute: 30 });
}

#[test]
fn the_first_problem_is_reported() {
    let error = Config::from_map(
        settings(&[("MODEL_NAME", "other"), ("GMAIL_SMTP_PORT", "x"), ("APP_ENV", "production")]),
        addresses_parse(),
    )
    .err()
    .unwrap();
    assert_eq!(error, invalid("MODEL_NAME", "must equal gpt-5.6-terra"));
    let error = Config::from_map(
        settings(&[("PAIRING_CODE_LENGTH", "0"), ("GMAIL_SMTP_PORT", "x")]),
        addresses_parse(),
    )
    .err()
    .unwrap();
    assert_eq!(error, invalid("GMAIL_SMTP_PORT", "has an invalid format"));
}

#[test]
fn trimming_and_blank_values_do_not_change_the_outcome() {
    let padded = settings(&[
        ("APP_ENV", " development "),
        ("HISTORY_RETENTION_DAYS", "\t0 "),
        ("MONITOR_START", ""),
    ]);
    let plain = settings(&[("APP_ENV", "development"), ("HISTORY_RETENTION_DAYS", "0")]);
    let first = Config::from_map(padded, addresses_parse()).err().unwrap();
    let second = Config::from_map(plain, addresses_parse()).err().unwrap();
    assert_eq!(first, second);
    assert_eq!(first, invalid("HISTORY_RETENTION_DAYS", "must be greater than zero"));

    let padded = Config::from_map(
        settings(&[("GMAIL_USERNAME", "  sender@example.com "), ("FCM_PROJECT_ID", "   ")]),
        addresses_parse(),
    )
    .ok()
    .unwrap();
    let plain = Config::from_map(settings(&[("GMAIL_USERNAME", "sender@example.com")]), addresses_parse())
        .ok()
        .unwrap();
    assert_eq!(padded.gmail.username, plain.gmail.username);
    assert_eq!(padded.fcm.project_id, None);
    assert_eq!(padded.fcm.project_id, plain.fcm.project_id);
}

#[test]
fn refusals_do_not_depend_on_secret_values() {
    let mut first = production_settings();
    first.retain(|(k, _)| *k != "GMAIL_RECIPIENT");
    let mut second = first.clone();
    for entry in second.iter_mut() {
        if entry.0 == "MODEL_API_KEY" {
            entry.1 = "another-key";
        }
        if entry.0 == "GMAIL_APP_PASSWORD" {
            entry.1 = "another-password";
        }
    }
    let first = Config::from_map(settings(&first), addresses_parse()).err().unwrap();
    let second = Config::from_map(settings(&second), addresses_parse()).err().unwrap();
    assert_eq!(first, second);
    assert_eq!(
        first,
        ConfigError::MissingProductionValues { names: vec!["GMAIL_RECIPIENT".to_string()] }
    );
}

#[test]
fn dropping_a_secret_leaves_its_clones_intact() {
    let secret = SecretString::new("s3cr3t".to_string());
    let copy = secret.clone();
    drop(secret);
    assert_eq!(copy.expose(), "s3cr3t");
    let config = Config::from_map(settings(&[("MODEL_API_KEY", " key ")]), addresses_parse())
        .ok()
        .unwrap();
    let key = config.model.api_key.clone().unwrap();
    drop(config);
    assert_eq!(key.expose(), "key");
}
