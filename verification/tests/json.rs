use acs::config_file::{
    is_config_file, load_config, load_config_or_default, ConfigFile, ConfigLookup, ConfigSource,
};
use acs::json::{JsonParser, JsonValue};

fn parse(text: &str) -> Result<JsonValue, String> {
    JsonParser::new(text).parse()
}

fn load(text: &str) -> Result<acs::config::AppConfig, String> {
    load_config(ConfigSource::File(ConfigFile {
        path: String::from("/etc/acs/config.json"),
        base_dir: String::from("/etc/acs"),
        contents: Ok(String::from(text)),
    }))
}

fn text_of(text: &str) -> String {
    match parse(text) {
        Ok(JsonValue::String(value)) => value,
        other => panic!("unexpected value: {other:?}"),
    }
}

#[test]
fn strings_are_unescaped() {
    assert_eq!(text_of(r#""a\n\t\"\\\/é送""#), "a\n\t\"\\/é送");
    assert!(parse(r#""\q""#).is_err());
    assert!(parse(r#""\u00zz""#).is_err());
    assert!(parse("\"open").is_err());
}

#[test]
fn values_are_told_apart() {
    assert!(matches!(parse("null"), Ok(JsonValue::Null)));
    assert!(matches!(parse("true"), Ok(JsonValue::Bool(true))));
    assert!(matches!(parse(" [ ] "), Ok(JsonValue::Array(_))));
    assert!(matches!(parse("{}"), Ok(JsonValue::Object(_))));
    match parse("-12.5e3") {
        Ok(JsonValue::Number(number)) => assert_eq!(number, "-12.5e3"),
        other => panic!("unexpected value: {other:?}"),
    }
}

#[test]
fn what_is_no_json_is_refused() {
    for text in ["", "tru", "[1,]", "{\"a\" 1}", "{\"a\":1,}", "1 2", "01x", "-", "1.", "{1:2}"] {
        assert!(parse(text).is_err(), "{text}");
    }
}

#[test]
fn settings_of_the_wrong_type_are_refused() {
    assert!(load("[]").is_err());
    assert!(load(r#"{"log_dir": 5}"#).is_err());
    assert!(load(r#"{"control": []}"#).is_err());
    assert!(load(r#"{"control": {"baud": "fast"}}"#).is_err());
    assert!(load(r#"{"control": {"baud": 4294967296}}"#).is_err());
    assert!(load(r#"{"control": {"raw": 1}}"#).is_err());
    assert!(load(r#"{"monitor": {"ports": [5]}}"#).is_err());
    assert!(load(r#"{"send": {"outputs": [{"format": "packetacv6"}]}}"#).is_err());
    assert!(load(r#"{"xbee_test": {"ports": ["nowhere=/dev/ttyUSB0"]}}"#).is_err());
    assert!(load(r#"{"route": {"pipelines": [{"id": "a", "route": {"module": "odd"}}]}}"#).is_err());
}

#[test]
fn relative_directories_start_at_the_file() {
    let config = load(r#"{"log_dir": "logs", "send": {"log_dir": "/var/log"}}"#).unwrap();
    assert_eq!(config.log_dir.as_deref(), Some("/etc/acs/logs"));
    assert_eq!(config.send.log_dir.as_deref(), Some("/var/log"));
}

#[test]
fn an_unreadable_file_is_an_error() {
    let error = load_config(ConfigSource::File(ConfigFile {
        path: String::from("/etc/acs/config.json"),
        base_dir: String::from("/etc/acs"),
        contents: Err(String::from("permission denied")),
    }))
    .unwrap_err();
    assert!(error.contains("permission denied"));
}

#[test]
fn merging_nothing_leaves_settings_alone() {
    let mut config = load(r#"{"log_dir": "logs", "monitor": {"ports": ["/dev/ttyUSB0"]}}"#).unwrap();
    config.merge_from(acs::config::AppConfig::default());
    assert_eq!(config.log_dir.as_deref(), Some("/etc/acs/logs"));
    assert_eq!(config.monitor.ports.len(), 1);
}

#[test]
fn only_json_files_hold_settings() {
    assert!(is_config_file("00-common.json"));
    assert!(!is_config_file("notes.txt"));
    assert!(!is_config_file("json"));
}

#[test]
fn nothing_found_gives_the_defaults() {
    let loaded = load_config_or_default(ConfigLookup::Absent, None).unwrap();
    assert!(loaded.config.log_dir.is_none());
}
