use nerevar::error::ConfigError;
use nerevar::literal::Decimal;
use nerevar::lua::{parse_server_settings, set_setting_value, update_server_settings};
use nerevar::types::{ConfigSettings, ServerSettings, SettingValue};

#[test]
fn empty_settings_text_gives_defaults() {
    let s = parse_server_settings("").unwrap().config;
    let d = ConfigSettings::default();
    assert_eq!(s.game_mode, d.game_mode);
    assert_eq!(s.game_mode, "Default");
    assert_eq!(s.login_time, 60);
    assert_eq!(s.max_clients_per_ip, 3);
    assert_eq!(s.enforced_log_level, -1);
    assert_eq!(s.max_acrobatics_value, 1200);
    assert!(s.allow_bed_rest);
    assert!(!s.allow_console);
    assert!(s.enforce_data_files);
    assert_eq!(s.maximum_object_scale.as_text(), "20.0");
    assert_eq!(d.maximum_object_scale.as_text(), "20.0");
    assert!(s.game_settings.is_empty());
    assert_eq!(s.default_time_table, d.default_time_table);
    assert_eq!(s.default_time_table.year, 0);
}

#[test]
fn settings_are_found_anywhere() {
    let text = "-- settings\nconfig.enforcedLogLevel = 2\nconfig.allowConsole = true\nconfig.loginTime = 45\nconfig.maximumObjectScale = 3.5\nreturn config\n";
    let s = parse_server_settings(text).unwrap().config;
    assert_eq!(s.login_time, 45);
    assert_eq!(s.enforced_log_level, 2);
    assert!(s.allow_console);
    assert_eq!(s.maximum_object_scale.as_text(), "3.5");
}

#[test]
fn first_assignment_of_the_right_type_wins() {
    let text = "config.loginTime = abc\nconfig.loginTime = -7\nconfig.loginTime = 9\n";
    let s = parse_server_settings(text).unwrap().config;
    assert_eq!(s.login_time, -7);
}

#[test]
fn concatenated_string_is_joined() {
    let s = parse_server_settings("config.gameMode = \"Deer\" .. \"Hunter\"\n").unwrap().config;
    assert_eq!(s.game_mode, "DeerHunter");
}

#[test]
fn integer_out_of_range_is_an_error() {
    let r = parse_server_settings("config.loginTime = 99999999999\n");
    assert_eq!(r.err(), Some(ConfigError::InvalidNumber));
}

#[test]
fn malformed_number_is_an_error() {
    let r = parse_server_settings("config.maximumObjectScale = 1.2.3\n");
    assert_eq!(r.err(), Some(ConfigError::InvalidNumber));
}

#[test]
fn nested_list_drops_entries_without_name() {
    let text = "config.gameSettings = {\n    { name = \"x\", value = true },\n    { value = 5 }\n}\nreturn config\n";
    let s = parse_server_settings(text).unwrap().config;
    assert_eq!(s.game_settings.len(), 1);
    assert_eq!(s.game_settings[0].name, "x");
    assert!(matches!(s.game_settings[0].value, SettingValue::Flag(true)));
}

#[test]
fn nested_list_reads_numbers() {
    let text = "config.gameSettings = {\n    { name = \"a\", value = false },\n    { name = \"b\", value = 2.5 }\n}\n";
    let s = parse_server_settings(text).unwrap().config;
    assert_eq!(s.game_settings.len(), 2);
    assert!(matches!(s.game_settings[0].value, SettingValue::Flag(false)));
    match &s.game_settings[1].value {
        SettingValue::Number(d) => assert_eq!(d.as_text(), "2.5"),
        SettingValue::Flag(_) => panic!("expected a number"),
    }
}

#[test]
fn time_table_is_read() {
    let text = "config.defaultTimeTable = { year = 427, month = 7, day = 16, hour = 9,\n    daysPassed = 1, dayTimeScale = 30, nightTimeScale = 40 }\n";
    let t = parse_server_settings(text).unwrap().config.default_time_table;
    assert_eq!(t.year, 427);
    assert_eq!(t.month, 7);
    assert_eq!(t.day, 16);
    assert_eq!(t.hour, 9);
    assert_eq!(t.days_passed, 1);
    assert_eq!(t.day_time_scale, 30);
    assert_eq!(t.night_time_scale, 40);
}

#[test]
fn missing_key_is_inserted_before_return() {
    let text = "config.loginTime = 60\nreturn config\n";
    let r = set_setting_value(text, "fixmeInterval", "45");
    assert_eq!(r, "config.loginTime = 60\n\nconfig.fixmeInterval = 45\nreturn config\n");
    let s = parse_server_settings(&r).unwrap().config;
    assert_eq!(s.fixme_interval, 45);
}

#[test]
fn missing_key_without_return_goes_at_the_end() {
    let r = set_setting_value("x = 1", "difficulty", "3");
    assert_eq!(r, "x = 1\nconfig.difficulty = 3\n");
}

#[test]
fn existing_key_is_rewritten_to_the_end_of_its_line() {
    let text = "config.difficulty = 10 -- hard\nconfig.other = 1\n";
    let r = set_setting_value(text, "difficulty", "-5");
    assert_eq!(r, "config.difficulty = -5\nconfig.other = 1\n");
}

#[test]
fn full_update_writes_every_setting() {
    let text = "config.gameMode = \"Default\"\nconfig.loginTime = 60\nreturn config\n";
    let mut c = parse_server_settings(text).unwrap().config;
    c.game_mode = "Roleplay".to_string();
    c.fixme_interval = 45;
    c.maximum_object_scale = Decimal::from_text("2.5").unwrap();
    c.allow_console = true;
    let out = update_server_settings(text, &ServerSettings { config: c }).unwrap();
    assert!(out.starts_with("config.gameMode = \"Roleplay\"\nconfig.loginTime = 60\n"));
    assert!(out.ends_with("return config\n"));
    let back = parse_server_settings(&out).unwrap().config;
    assert_eq!(back.game_mode, "Roleplay");
    assert_eq!(back.fixme_interval, 45);
    assert_eq!(back.login_time, 60);
    assert!(back.allow_console);
    assert_eq!(back.maximum_object_scale.as_text(), "2.5");
}

#[test]
fn decimal_accepts_only_decimal_text() {
    assert!(Decimal::from_text("12.5").is_some());
    assert!(Decimal::from_text("-3").is_some());
    assert!(Decimal::from_text(".5").is_some());
    assert!(Decimal::from_text("1.2.3").is_none());
    assert!(Decimal::from_text(".").is_none());
    assert!(Decimal::from_text("1e5").is_none());
}

#[test]
fn decimal_text_is_written_back_as_read() {
    let text = "config.maximumObjectScale = 2.0\nreturn config\n";
    let s = parse_server_settings(text).unwrap();
    let out = update_server_settings(text, &s).unwrap();
    assert!(out.starts_with("config.maximumObjectScale = 2.0\n"));
}
