use option_pricing::influxdb::{path_tag, resolve_settings, setting_or, SettingsError};
use option_pricing::logger::{create_log_file, log_file_at, log_file_path};

fn s(x: &str) -> String {
    x.to_string()
}

#[test]
fn environment_overrides_given_settings() {
    let res = resolve_settings(
        Some(s("env_org")),
        Some(s("env_bucket")),
        Some(s("env_token")),
        Some(s("http://localhost:8086")),
        s("default_org"),
        s("default_bucket"),
        s("default_token"),
    )
    .unwrap();
    assert_eq!(res.org, "env_org");
    assert_eq!(res.bucket, "env_bucket");
    assert_eq!(res.token, "env_token");
    assert_eq!(res.url, "http://localhost:8086");
}

#[test]
fn given_settings_fill_in_for_missing_environment() {
    let res = resolve_settings(
        None,
        Some(s("b")),
        None,
        Some(s("u")),
        s("default_org"),
        s("default_bucket"),
        s("default_token"),
    )
    .unwrap();
    assert_eq!(res.org, "default_org");
    assert_eq!(res.bucket, "b");
    assert_eq!(res.token, "default_token");
    assert_eq!(res.url, "u");
}

#[test]
fn missing_url_is_refused() {
    let res = resolve_settings(Some(s("o")), Some(s("b")), Some(s("t")), None, s("x"), s("y"), s("z"));
    assert_eq!(res.unwrap_err(), SettingsError::MissingUrl);
}

#[test]
fn setting_or_prefers_environment() {
    assert_eq!(setting_or(Some(s("a")), s("b")), "a");
    assert_eq!(setting_or(None, s("b")), "b");
}

#[test]
fn path_tags() {
    assert_eq!(path_tag(0), "path_0");
    assert_eq!(path_tag(7), "path_7");
    assert_eq!(path_tag(10), "path_10");
    assert_eq!(path_tag(1234), "path_1234");
    assert_eq!(path_tag(usize::MAX), format!("path_{}", usize::MAX));
}

#[test]
fn log_file_path_layout() {
    assert_eq!(
        log_file_path("payoff_calc", "2024-01-02_03-04-05"),
        "logs/payoff_calc_2024-01-02_03-04-05.log"
    );
    assert_eq!(log_file_path("", ""), "logs/_.log");
}

#[test]
fn log_file_at_formats_utc_time() {
    assert_eq!(log_file_at("m", 0).unwrap(), "logs/m_1970-01-01_00-00-00.log");
    assert_eq!(log_file_at("influxdb", 1234567890).unwrap(), "logs/influxdb_2009-02-13_23-31-30.log");
    assert_eq!(
        log_file_at("x", 253402300799).unwrap(),
        "logs/x_9999-12-31_23-59-59.log"
    );
    assert!(log_file_at("x", i64::MAX).is_none());
}

#[test]
fn new_log_file_is_stamped_with_the_time() {
    let path = create_log_file("influxdb").expect("the clock reads after the epoch");
    assert!(path.starts_with("logs/influxdb_"));
    assert!(path.ends_with(".log"));
    let stamp = &path["logs/influxdb_".len()..path.len() - ".log".len()];
    assert_eq!(stamp.len(), "2024-01-02_03-04-05".len());
    assert!(stamp.chars().all(|c| c.is_ascii_digit() || c == '-' || c == '_'));
    assert_eq!(&stamp[4..5], "-");
    assert_eq!(&stamp[10..11], "_");
}
