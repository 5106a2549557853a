use small_bin::config::{
    parse_window, AppConfig, Config, ConfigError, Configs, SelectError, TimeOfDay, Weekday,
    WindowBounds,
};

fn at(h: u32, m: u32, s: u32) -> TimeOfDay {
    TimeOfDay { seconds: h * 3600 + m * 60 + s, nanos: 0 }
}

fn profile(name: &str, window: &str, default: bool) -> Config {
    Config {
        username: String::from("user"),
        hostname: String::from(name),
        ssh_port: 22,
        address: format!("https://{name}/"),
        remote_path: String::from("/srv/shots"),
        active_at: String::from(window),
        default,
        ..Config::default()
    }
}

fn app(configs: Vec<Config>) -> AppConfig {
    AppConfig { configs, ..AppConfig::default() }
}

#[test]
fn window_reads_both_sides() {
    assert_eq!(
        parse_window("12:01:00-15:15:00"),
        WindowBounds::Range { start: at(12, 1, 0), end: at(15, 15, 0) }
    );
}

#[test]
fn window_without_or_with_two_dashes_is_malformed() {
    assert_eq!(parse_window("12:01:00"), WindowBounds::Malformed);
    assert_eq!(parse_window("12:01:00-13:00:00-14:00:00"), WindowBounds::Malformed);
    assert_eq!(parse_window(""), WindowBounds::Malformed);
}

#[test]
fn window_with_bad_time_is_invalid() {
    assert_eq!(parse_window("12:01:00-noon"), WindowBounds::Invalid);
    assert_eq!(parse_window("-"), WindowBounds::Invalid);
}

#[test]
fn disjoint_windows_pick_owner_or_default() {
    let a = app(vec![
        profile("morning", "08:00:00-11:59:59", false),
        profile("evening", "18:00:00-22:00:00", false),
        profile("fallback", "00:00:00-00:00:00", true),
    ]);
    let r = a.select_config_at(at(9, 30, 0), Weekday::Tue).unwrap();
    assert_eq!(r.hostname, "morning");
    let r = a.select_config_at(at(22, 0, 0), Weekday::Tue).unwrap();
    assert_eq!(r.hostname, "evening");
    let r = a.select_config_at(at(14, 0, 0), Weekday::Tue).unwrap();
    assert_eq!(r.hostname, "fallback");
}

#[test]
fn overlapping_windows_pick_first_in_order() {
    let a = app(vec![
        profile("default", "00:00:00-00:00:01", true),
        profile("wide", "08:00:00-20:00:00", false),
        profile("narrow", "12:00:00-13:00:00", false),
    ]);
    let r = a.select_config_at(at(12, 30, 0), Weekday::Fri).unwrap();
    assert_eq!(r.hostname, "wide");
}

#[test]
fn window_end_is_inclusive_to_the_second() {
    let a = app(vec![
        profile("day", "08:00:00-20:00:00", false),
        profile("default", "00:00:00-00:00:01", true),
    ]);
    let end = a.select_config_at(at(20, 0, 0), Weekday::Mon).unwrap();
    assert_eq!(end.hostname, "day");
    let after = TimeOfDay { seconds: 20 * 3600, nanos: 1 };
    let r = a.select_config_at(after, Weekday::Mon).unwrap();
    assert_eq!(r.hostname, "default");
}

#[test]
fn weekday_restriction_is_honoured() {
    let mut weekend = profile("weekend", "00:00:00-23:59:59", false);
    weekend.active_on = vec![Weekday::Sat, Weekday::Sun];
    let a = app(vec![weekend, profile("default", "00:00:00-00:00:01", true)]);
    assert_eq!(a.select_config_at(at(10, 0, 0), Weekday::Sun).unwrap().hostname, "weekend");
    assert_eq!(a.select_config_at(at(10, 0, 0), Weekday::Wed).unwrap().hostname, "default");
}

#[test]
fn malformed_window_is_skipped() {
    let a = app(vec![
        profile("broken", "08:00:00", false),
        profile("default", "00:00:00-00:00:01", true),
    ]);
    assert_eq!(a.select_config_at(at(9, 0, 0), Weekday::Mon).unwrap().hostname, "default");
}

#[test]
fn invalid_time_is_an_error() {
    let a = app(vec![
        profile("bad", "08:00:00-late", false),
        profile("default", "00:00:00-23:59:59", true),
    ]);
    assert_eq!(a.select_config_at(at(9, 0, 0), Weekday::Mon).unwrap_err(), SelectError::InvalidTime);
}

#[test]
fn no_match_and_no_default_is_an_error() {
    let a = app(vec![profile("only", "08:00:00-09:00:00", false)]);
    assert_eq!(a.select_config_at(at(10, 0, 0), Weekday::Mon).unwrap_err(), SelectError::NoDefault);
}

#[test]
fn weekday_numbers_start_on_monday() {
    assert_eq!(Weekday::from_index(0), Weekday::Mon);
    assert_eq!(Weekday::from_index(6), Weekday::Sun);
}

fn file(configs: Vec<Config>) -> Configs {
    Configs { configs, ..Configs::default() }
}

#[test]
fn validation_reports_each_missing_value() {
    let mut c = profile("h", "00:00:00-01:00:00", true);
    c.username = String::new();
    assert_eq!(AppConfig::validate_config(&c), Err(ConfigError::EmptyUsername));
    let mut c = profile("h", "00:00:00-01:00:00", true);
    c.hostname = String::new();
    assert_eq!(AppConfig::validate_config(&c), Err(ConfigError::EmptyHostname));
    let mut c = profile("h", "00:00:00-01:00:00", true);
    c.ssh_port = 0;
    assert_eq!(AppConfig::validate_config(&c), Err(ConfigError::ZeroPort));
    let mut c = profile("h", "00:00:00-01:00:00", true);
    c.address = String::new();
    assert_eq!(AppConfig::validate_config(&c), Err(ConfigError::EmptyAddress));
    let mut c = profile("h", "00:00:00-01:00:00", true);
    c.remote_path = String::new();
    assert_eq!(AppConfig::validate_config(&c), Err(ConfigError::EmptyRemotePath));
    assert_eq!(AppConfig::validate_config(&profile("h", "x", false)), Ok(()));
}

#[test]
fn settings_need_exactly_one_default() {
    let none = file(vec![profile("a", "00:00:00-01:00:00", false)]);
    assert_eq!(AppConfig::new(none, String::from("prod")).unwrap_err(), ConfigError::NoDefaultProfile);
    let two = file(vec![
        profile("a", "00:00:00-01:00:00", true),
        profile("b", "00:00:00-01:00:00", true),
    ]);
    assert_eq!(
        AppConfig::new(two, String::from("prod")).unwrap_err(),
        ConfigError::SeveralDefaultProfiles
    );
}

#[test]
fn settings_take_fixed_values_and_port_by_environment() {
    let one = || file(vec![profile("a", "00:00:00-01:00:00", true)]);
    let prod = AppConfig::new(one(), String::from("prod")).unwrap();
    assert_eq!(prod.webapi_port, 8000);
    assert_eq!(prod.fs_check_interval, 1000);
    assert_eq!(prod.amount_history_load, 50);
    assert_eq!(prod.db_autodump_interval, 21_600_000);
    assert_eq!(prod.ssh_connection_timeout, 30000);
    assert_eq!(prod.sftp_buffer_size, 262_144);
    assert_eq!(AppConfig::new(one(), String::from("dev")).unwrap().webapi_port, 8001);
    assert_eq!(AppConfig::new(one(), String::from("test")).unwrap().webapi_port, 8002);
}

#[test]
fn data_directories() {
    assert_eq!(AppConfig::data_dir_base("macos"), "/Library/Small/");
    assert_eq!(AppConfig::data_dir_base("linux"), "/.small/");
    assert_eq!(AppConfig::root_dir_in("/home/me", "linux"), "/home/me/.small/");
    assert_eq!(AppConfig::root_dir_in("/Users/me/", "macos"), "/Users/me/Library/Small/");
}

#[test]
fn settings_refuse_a_window_with_a_bad_time() {
    let bad = file(vec![
        profile("a", "08:00:00-late", false),
        profile("b", "00:00:00-01:00:00", true),
    ]);
    assert_eq!(AppConfig::new(bad, String::from("prod")).unwrap_err(), ConfigError::InvalidWindowTime);
    let skipped = file(vec![
        profile("a", "08:00:00", false),
        profile("b", "00:00:00-01:00:00", true),
    ]);
    assert!(AppConfig::new(skipped, String::from("prod")).is_ok());
}
