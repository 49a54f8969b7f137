use nerevar::openmw::{parse_openmw_config, OpenMwValue};
use nerevar::release::update_check;

#[test]
fn free_form_values_are_read_by_shape() {
    let text = "[Game]\nfoo = 5\nbar = 2.5\nbaz = true\nname = \"Hello\"\nfoo = 7\n# comment\nbig = 99999999999999999999\n";
    let e = parse_openmw_config(text).unwrap();
    assert_eq!(e.len(), 5);
    assert_eq!(e[0].0, "foo");
    assert!(matches!(e[0].1, OpenMwValue::Integer(7)));
    assert_eq!(e[1].0, "bar");
    match &e[1].1 {
        OpenMwValue::Float(d) => assert_eq!(d.as_text(), "2.5"),
        other => panic!("unexpected {:?}", other),
    }
    assert!(matches!(e[2].1, OpenMwValue::Bool(true)));
    match &e[3].1 {
        OpenMwValue::Text(s) => assert_eq!(s, "Hello"),
        other => panic!("unexpected {:?}", other),
    }
    match &e[4].1 {
        OpenMwValue::Float(d) => assert_eq!(d.as_text(), "99999999999999999999"),
        other => panic!("unexpected {:?}", other),
    }
}

#[test]
fn single_quotes_are_dropped_too() {
    let e = parse_openmw_config("data = 'C:/Games'\n").unwrap();
    match &e[0].1 {
        OpenMwValue::Text(s) => assert_eq!(s, "C:/Games"),
        other => panic!("unexpected {:?}", other),
    }
}

#[test]
fn release_check_compares_versions() {
    let r = update_check("0.8.1", Some("0.8.2".to_string()), Some("http://x".to_string()));
    assert!(r.update_available);
    assert_eq!(r.version, "0.8.2");
    assert_eq!(r.url.as_deref(), Some("http://x"));
    let same = update_check("0.8.1", Some("0.8.1".to_string()), None);
    assert!(!same.update_available);
    let none = update_check("0.8.1", None, None);
    assert_eq!(none.version, "0.0.0");
    assert!(none.update_available);
}

use nerevar::error::ConfigError;
use nerevar::types::RankColors;
use nerevar::values::{parse_bool_literal, parse_float_literal, parse_int_literal, parse_string_literal};

#[test]
fn string_literals() {
    assert_eq!(parse_string_literal("\"abc\"").unwrap(), "abc");
    assert_eq!(parse_string_literal("  \"a\" .. \"b\" ..\"c\" ").unwrap(), "abc");
    assert_eq!(parse_string_literal("abc"), Err(ConfigError::MalformedLiteral));
    assert_eq!(parse_string_literal("\"abc"), Err(ConfigError::MalformedLiteral));
    assert_eq!(parse_string_literal("\"a\" x"), Err(ConfigError::MalformedLiteral));
}

#[test]
fn integer_literals() {
    assert_eq!(parse_int_literal("42"), Ok(42));
    assert_eq!(parse_int_literal(" -17 "), Ok(-17));
    assert_eq!(parse_int_literal("-9223372036854775808"), Ok(i64::MIN));
    assert_eq!(parse_int_literal("9223372036854775808"), Err(ConfigError::InvalidNumber));
    assert_eq!(parse_int_literal("4x"), Err(ConfigError::InvalidNumber));
    assert_eq!(parse_int_literal(""), Err(ConfigError::InvalidNumber));
}

#[test]
fn float_literals() {
    assert_eq!(parse_float_literal("2.50").unwrap().as_text(), "2.50");
    assert_eq!(parse_float_literal("x").err(), Some(ConfigError::InvalidNumber));
}

#[test]
fn bool_literals() {
    assert_eq!(parse_bool_literal("true"), Ok(true));
    assert_eq!(parse_bool_literal(" false"), Ok(false));
    assert_eq!(parse_bool_literal("True"), Err(ConfigError::InvalidBoolean));
}

#[test]
fn error_messages() {
    assert_eq!(ConfigError::InvalidNumber.message(), "Invalid number");
    assert_eq!(ConfigError::InvalidBoolean.message(), "Invalid boolean");
    assert_eq!(ConfigError::MalformedLiteral.message(), "Malformed string literal");
}

#[test]
fn rank_colors_default() {
    let r = RankColors::default();
    assert_eq!(r.server_owner, "Orange");
    assert_eq!(r.admin, "Red");
    assert_eq!(r.moderator, "Green");
}

use nerevar::install::{backup_path, is_install_folder_name, update_script};

#[test]
fn install_folder_names() {
    assert!(is_install_folder_name("tes3mp.Win64.release.0.8.1"));
    assert!(is_install_folder_name("TES3MP"));
    assert!(is_install_folder_name("Tes3Mp-server"));
    assert!(!is_install_folder_name("openmw"));
    assert!(!is_install_folder_name("tes3"));
}

#[test]
fn update_script_text() {
    assert_eq!(backup_path("C:/app.exe"), "C:/app.exe.backup");
    let s = update_script("N", "C", "B");
    assert_eq!(
        s,
        "@echo off\ntimeout /t 2 /nobreak >nul\ncopy \"N\" \"C\"\nif %errorlevel% equ 0 (\n    del \"N\"\n    del \"%~f0\"\n    start \"\" \"C\"\n) else (\n    echo Update failed, restoring backup...\n    copy \"B\" \"C\"\n    del \"B\"\n    del \"%~f0\"\n)\n"
    );
}
