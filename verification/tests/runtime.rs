use nonstop_notify::runtime::{config_load_step, ConfigFileRead, ConfigLoadStep};
use nonstop_notify::runtime::{
    archive_log_name, default_config_path, default_data_dir, duration_millis,
    finish_locked_operation, has_log_extension, heartbeat_age_at, heartbeat_age_ms,
    heartbeat_is_fresh, latest_modified_index, log_expired, now_ms, rotation_due, runtime_paths,
    selected_config_path, set_config_value, temporary_file_name, unix_seconds, validate_config,
    ConfigError, ConfigKey, DataDirEnv, DataDirError, NotificationPosition, NotifyConfig,
    RuntimePaths, RuntimeState,
};

fn unix_env(xdg: Option<&str>, home: Option<&str>) -> DataDirEnv {
    DataDirEnv {
        windows: false,
        local_app_data: None,
        user_profile: None,
        xdg_config_home: xdg.map(String::from),
        home: home.map(String::from),
    }
}

#[test]
fn missing_config_defaults_to_bottom_left() {
    let config = NotifyConfig::default();
    assert_eq!(config.position, NotificationPosition::BottomLeft);
    assert_eq!(config.offset_left, 30);
    assert_eq!(config.offset_right, 30);
    assert_eq!(config.border_width, 1);
    assert_eq!(config.sound_path, None);
}

#[test]
fn defaults_and_config_set_validation() {
    let mut config = NotifyConfig::default();
    assert_eq!(config.log_rotation_hours, 24);
    assert_eq!(config.log_retention_days, 7);
    set_config_value(&mut config, "position", "top-right").unwrap();
    set_config_value(&mut config, "soundPath", "none").unwrap();
    assert_eq!(config.position, NotificationPosition::TopRight);
    assert_eq!(config.sound_path, None);
    assert!(set_config_value(&mut config, "logRotationHours", "0").is_err());
}

#[test]
fn runtime_state_reports_stale_heartbeat() {
    let state = RuntimeState {
        pid: 42,
        heartbeat_at_ms: now_ms().saturating_sub(10_000),
    };
    assert!(heartbeat_age_ms(&state) >= 10_000);
}

#[test]
fn explicit_config_path_has_precedence() {
    let env = unix_env(Some("/xdg"), Some("/home/u"));
    assert_eq!(
        selected_config_path(Some("/tmp/explicit-config/explicit.json"), &env).unwrap(),
        "/tmp/explicit-config/explicit.json"
    );
    let empty = unix_env(None, None);
    assert_eq!(
        selected_config_path(Some("explicit.json"), &empty).unwrap(),
        "explicit.json"
    );
}

#[test]
fn default_config_path_follows_the_environment() {
    assert_eq!(
        default_config_path(&unix_env(Some("/xdg"), Some("/home/u"))).unwrap(),
        "/xdg/nonstop-notify/config.json"
    );
    assert_eq!(
        default_config_path(&unix_env(None, Some("/home/u"))).unwrap(),
        "/home/u/.config/nonstop-notify/config.json"
    );
    assert_eq!(
        selected_config_path(None, &unix_env(None, Some("/home/u/"))).unwrap(),
        "/home/u/.config/nonstop-notify/config.json"
    );
    assert_eq!(
        default_config_path(&unix_env(None, None)),
        Err(DataDirError::HomeNotSet)
    );
}

#[test]
fn windows_data_dir_prefers_local_app_data() {
    let env = DataDirEnv {
        windows: true,
        local_app_data: Some("/L".into()),
        user_profile: Some("/P".into()),
        xdg_config_home: Some("/xdg".into()),
        home: Some("/home".into()),
    };
    let dir = default_data_dir(&env).unwrap();
    assert!(dir == "/L/Nonstop Notify" || dir == "/L\\Nonstop Notify");
    let env = DataDirEnv {
        local_app_data: None,
        ..env
    };
    let dir = default_data_dir(&env).unwrap();
    assert!(dir.starts_with("/P") && dir.ends_with("Nonstop Notify") && dir.contains("AppData"));
    let env = DataDirEnv {
        user_profile: None,
        ..env
    };
    assert_eq!(default_data_dir(&env), Err(DataDirError::LocalAppDataNotSet));
}

#[test]
fn runtime_paths_live_in_the_data_directory() {
    let paths = RuntimePaths::new("/tmp/nn".into());
    assert_eq!(paths.state_path, "/tmp/nn/runtime.json");
    assert_eq!(paths.log_dir, "/tmp/nn/logs");
    assert_eq!(paths.current_log_path, "/tmp/nn/logs/current.log");
    assert_eq!(paths.log_lock_path, "/tmp/nn/logs/.lock");
    let paths = runtime_paths(&unix_env(Some("/c"), None)).unwrap();
    assert_eq!(paths.state_path, "/c/nonstop-notify/runtime.json");
    assert!(runtime_paths(&unix_env(None, None)).is_err());
}

#[test]
fn validate_reports_the_first_bad_period() {
    let mut config = NotifyConfig::default();
    assert_eq!(validate_config(&config), Ok(()));
    config.log_retention_days = 0;
    assert_eq!(
        validate_config(&config),
        Err(ConfigError::LogRetentionDaysNotPositive)
    );
    config.log_rotation_hours = 0;
    assert_eq!(
        validate_config(&config),
        Err(ConfigError::LogRotationHoursNotPositive)
    );
}

#[test]
fn every_setting_can_be_set() {
    let mut config = NotifyConfig::default();
    for (name, position) in [
        ("top-left", NotificationPosition::TopLeft),
        ("top-right", NotificationPosition::TopRight),
        ("bottom-left", NotificationPosition::BottomLeft),
        ("bottom-right", NotificationPosition::BottomRight),
    ] {
        set_config_value(&mut config, "position", name).unwrap();
        assert_eq!(config.position, position);
    }
    set_config_value(&mut config, "offsetLeft", "12").unwrap();
    set_config_value(&mut config, "offsetRight", "+18").unwrap();
    set_config_value(&mut config, "borderWidth", "65535").unwrap();
    set_config_value(&mut config, "soundPath", "C:\\sounds\\notify.mp3").unwrap();
    set_config_value(&mut config, "logRotationHours", "48").unwrap();
    set_config_value(&mut config, "logRetentionDays", "18446744073709551615").unwrap();
    assert_eq!(config.offset_left, 12);
    assert_eq!(config.offset_right, 18);
    assert_eq!(config.border_width, 65535);
    assert_eq!(config.sound_path.as_deref(), Some("C:\\sounds\\notify.mp3"));
    assert_eq!(config.log_rotation_hours, 48);
    assert_eq!(config.log_retention_days, u64::MAX);
    set_config_value(&mut config, "soundPath", "NoNe").unwrap();
    assert_eq!(config.sound_path, None);
    set_config_value(&mut config, "soundPath", "nonee").unwrap();
    assert_eq!(config.sound_path.as_deref(), Some("nonee"));
}

#[test]
fn refused_values_leave_the_config_unchanged() {
    let mut config = NotifyConfig::default();
    let before = config.clone();
    assert_eq!(
        set_config_value(&mut config, "position", "middle"),
        Err(ConfigError::InvalidPosition)
    );
    assert_eq!(
        set_config_value(&mut config, "offsetLeft", "65536"),
        Err(ConfigError::NotUnsigned16(ConfigKey::OffsetLeft))
    );
    assert_eq!(
        set_config_value(&mut config, "offsetRight", "-1"),
        Err(ConfigError::NotUnsigned16(ConfigKey::OffsetRight))
    );
    assert_eq!(
        set_config_value(&mut config, "borderWidth", " 2"),
        Err(ConfigError::NotUnsigned16(ConfigKey::BorderWidth))
    );
    assert_eq!(
        set_config_value(&mut config, "borderWidth", "+"),
        Err(ConfigError::NotUnsigned16(ConfigKey::BorderWidth))
    );
    assert_eq!(
        set_config_value(&mut config, "logRotationHours", "0"),
        Err(ConfigError::NotPositiveInteger(ConfigKey::LogRotationHours))
    );
    assert_eq!(
        set_config_value(&mut config, "logRetentionDays", "18446744073709551616"),
        Err(ConfigError::NotPositiveInteger(ConfigKey::LogRetentionDays))
    );
    assert_eq!(
        set_config_value(&mut config, "colour", "red"),
        Err(ConfigError::UnsupportedKey("colour".into()))
    );
    assert_eq!(config, before);
}

#[test]
fn a_set_value_is_kept_when_validation_fails() {
    let mut config = NotifyConfig::default();
    config.log_retention_days = 0;
    assert_eq!(
        set_config_value(&mut config, "position", "top-left"),
        Err(ConfigError::LogRetentionDaysNotPositive)
    );
    assert_eq!(config.position, NotificationPosition::TopLeft);
}

#[test]
fn parsed_numbers_match_std() {
    for text in ["0", "7", "+7", "007", "65535", "65536", "", "+", "-0", "1_0", "12a", "99999999"] {
        let mut config = NotifyConfig::default();
        let r = set_config_value(&mut config, "offsetLeft", text);
        match text.parse::<u16>() {
            Ok(n) => {
                assert!(r.is_ok());
                assert_eq!(config.offset_left, n);
            }
            Err(_) => assert!(r.is_err()),
        }
    }
}

#[test]
fn heartbeat_age_is_clamped_at_zero() {
    let state = RuntimeState {
        pid: 1,
        heartbeat_at_ms: 5_000,
    };
    assert_eq!(heartbeat_age_at(&state, 7_500), 2_500);
    assert_eq!(heartbeat_age_at(&state, 1_000), 0);
}

#[test]
fn heartbeat_freshness() {
    assert!(heartbeat_is_fresh(Some((2, 999_999_999))));
    assert!(!heartbeat_is_fresh(Some((3, 0))));
    assert!(!heartbeat_is_fresh(None));
}

#[test]
fn clock_reads_the_system_time() {
    let before = std::time::SystemTime::now()
        .duration_since(std::time::UNIX_EPOCH)
        .unwrap();
    let ms = now_ms();
    let secs = unix_seconds();
    assert!(ms >= before.as_millis() as u64);
    assert!(secs >= before.as_secs());
    assert!(ms > 1_600_000_000_000);
    assert_eq!(duration_millis(3, 250_000_000), 3_250);
    assert_eq!(duration_millis(u64::MAX, 0), u64::MAX);
}

#[test]
fn rotation_and_retention_periods() {
    assert!(!rotation_due(24 * 3600 - 1, 24));
    assert!(rotation_due(24 * 3600, 24));
    assert!(rotation_due(u64::MAX, u64::MAX));
    assert!(!rotation_due(u64::MAX - 1, u64::MAX));
    assert!(log_expired(Some(8 * 24 * 3600), 7));
    assert!(!log_expired(Some(7 * 24 * 3600 - 1), 7));
    assert!(!log_expired(None, 7));
}

#[test]
fn log_files_are_recognised_by_extension() {
    assert!(has_log_extension("current.log"));
    assert!(has_log_extension("1700000000-12.log"));
    assert!(!has_log_extension(".log"));
    assert!(!has_log_extension("a.log.bak"));
    assert!(!has_log_extension(".lock"));
    assert!(!has_log_extension("a.LOG"));
    assert!(has_log_extension("a.log"));
}

#[test]
fn archive_and_temporary_names() {
    assert_eq!(archive_log_name(1_700_000_000, None), "1700000000.log");
    assert_eq!(archive_log_name(0, Some(4321)), "0-4321.log");
    assert_eq!(temporary_file_name(Some("config.json"), 77), ".config.json.tmp-77");
    assert_eq!(temporary_file_name(None, 0), ".file.tmp-0");
}

#[test]
fn latest_log_is_the_last_of_the_newest() {
    assert_eq!(latest_modified_index(&vec![]), None);
    assert_eq!(latest_modified_index(&vec![5]), Some(0));
    assert_eq!(latest_modified_index(&vec![1, 9, 3]), Some(1));
    assert_eq!(latest_modified_index(&vec![9, 1, 9, 2]), Some(2));
    assert_eq!(latest_modified_index(&vec![-3, -7]), Some(0));
}

#[test]
fn the_operation_error_wins_over_the_unlock_error() {
    let ok: Result<u8, &str> = Ok(1);
    let bad: Result<u8, &str> = Err("write");
    assert_eq!(finish_locked_operation(ok, Ok(())), Ok(1));
    assert_eq!(finish_locked_operation(ok, Err("unlock")), Err("unlock"));
    assert_eq!(finish_locked_operation(bad, Err("unlock")), Err("write"));
    assert_eq!(finish_locked_operation(bad, Ok(())), Err("write"));
}

#[test]
fn missing_default_config_falls_back_to_defaults() {
    assert_eq!(
        config_load_step(ConfigFileRead::NotFound, false),
        ConfigLoadStep::UseDefaults
    );
    assert_eq!(config_load_step(ConfigFileRead::NotFound, true), ConfigLoadStep::Fail);
    assert_eq!(config_load_step(ConfigFileRead::Unreadable, false), ConfigLoadStep::Fail);
    assert_eq!(
        config_load_step(ConfigFileRead::Contents("{}".into()), true),
        ConfigLoadStep::Parse("{}".into())
    );
}
