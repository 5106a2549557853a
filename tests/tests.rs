use chrono::{Datelike, Local, NaiveTime, Timelike};
use small_bin::config::{AppConfig, Config, TimeOfDay, Weekday};
use small_bin::utils::file_extension;

fn weekday_of(day: chrono::Weekday) -> Weekday {
    Weekday::from_index(day.num_days_from_monday())
}

#[test]
fn test_file_extension() {
    assert_eq!(file_extension("/path/to/file.txt"), ".txt");
    assert_eq!(file_extension("/path/to/file.png"), ".png");
    assert_eq!(file_extension("/path/to/file"), "");
}

#[test]
pub fn select_config_test_range() {
    let parsed = NaiveTime::parse_from_str("12:05:00", "%H:%M:%S").unwrap();
    let now = TimeOfDay {
        seconds: parsed.num_seconds_from_midnight(),
        nanos: parsed.nanosecond(),
    };

    let config1 = Config {
        active_at: String::from("12:01:00-15:15:00"),
        ..Config::default()
    };
    let config2 = Config {
        active_at: String::from("17:01:00-22:15:00"),
        ..Config::default()
    };
    let app_config = AppConfig {
        configs: vec![config1, config2],

        ..AppConfig::default()
    };

    let config = app_config.select_config_at(now, weekday_of(Local::now().weekday()));
    assert!(config.is_ok());
}

#[test]
pub fn select_config_test_default() {
    let config1 = Config {
        active_at: String::from("12:01:00-15:15:00"),
        default: true,
        ..Config::default()
    };
    let config2 = Config {
        active_at: String::from("17:01:00-22:15:00"),
        ..Config::default()
    };
    let app_config = AppConfig {
        configs: vec![config1.clone(), config2],

        ..AppConfig::default()
    };

    let default_config = app_config.configs.iter().find(|cfg| cfg.default);
    assert!(default_config.is_some());
    assert_eq!(default_config.unwrap(), &config1);
}

#[test]
pub fn select_config_test_active_on() {
    let today = Local::now().weekday();
    let tomorrow = today.succ();

    let config1 = Config {
        active_at: String::from("00:00:00-23:59:59"),
        active_on: vec![weekday_of(today)],
        ..Config::default()
    };
    let config2 = Config {
        active_at: String::from("00:00:00-23:59:59"),
        active_on: vec![weekday_of(tomorrow)],
        ..Config::default()
    };
    let default_config = Config {
        active_at: String::from("00:00:00-00:00:01"), // not active now
        default: true,
        ..Config::default()
    };

    let app_config = AppConfig {
        configs: vec![config1.clone(), config2, default_config],
        ..AppConfig::default()
    };

    let selected_config = app_config.select_config().unwrap();
    assert_eq!(selected_config, config1);
}
