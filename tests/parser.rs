use kubescope::entry::{FieldValue, LogEntry, Timestamp};
use kubescope::level::LogLevel;
use kubescope::parser::LogParser;

#[test]
fn test_parse_k8s_timestamp() {
    let line = "2024-01-15T10:30:00.123456789Z some log message";
    let entry = LogParser::parse(line, "test-pod", 1);
    assert!(entry.timestamp.is_some());
}

#[test]
fn test_parse_json_log() {
    let line = r#"{"level":"error","msg":"something failed","time":"2024-01-15"}"#;
    let entry = LogParser::parse(line, "test-pod", 1);
    assert!(entry.is_json);
    assert_eq!(entry.level, LogLevel::Error);
}

#[test]
fn test_parse_text_level() {
    let line = "[ERROR] something went wrong";
    let entry = LogParser::parse(line, "test-pod", 1);
    assert_eq!(entry.level, LogLevel::Error);
}

#[test]
fn test_parse_multibyte_utf8_no_panic() {
    let line = "─────────────────────────────────────────";
    let entry = LogParser::parse(line, "test-pod", 1);
    assert!(entry.timestamp.is_none());

    let line2 = "2024-01-15T10:30:00Z ╭────────────────────────────╮";
    let entry2 = LogParser::parse(line2, "test-pod", 2);
    assert!(entry2.timestamp.is_some());
}

#[test]
fn timestamp_value_and_content() {
    let e = LogParser::parse("2024-01-15T10:30:00.5Z   WARN: disk low", "p", 7);
    assert_eq!(e.timestamp, Some(Timestamp { secs: 1705314600, nanos: 500_000_000 }));
    assert_eq!(e.level, LogLevel::Warn);
    assert_eq!(e.line_number, 7);
    assert_eq!(e.raw, "2024-01-15T10:30:00.5Z   WARN: disk low");
    assert_eq!(e.pod_name, "p");
    assert_eq!(e.id, 0);
}

#[test]
fn box_drawing_after_timestamp_parses() {
    let e = LogParser::parse("2024-01-15T10:30:00Z ╭──╮ [error] boxed", "p", 1);
    assert_eq!(e.timestamp, Some(Timestamp { secs: 1705314600, nanos: 0 }));
    assert_eq!(e.level, LogLevel::Error);
    assert!(!e.is_json);
}

#[test]
fn json_line_with_level_error() {
    let e = LogParser::parse(r#"{"level":"error","msg":"x"}"#, "p", 1);
    assert!(e.is_json);
    assert_eq!(e.level, LogLevel::Error);
    let fields = e.fields.as_ref().unwrap();
    assert_eq!(fields.len(), 2);
    assert!(e.pretty_printed.as_ref().unwrap().contains("\n"));
    assert_eq!(e.message(), "x");
}

#[test]
fn json_after_timestamp_and_numeric_levels() {
    let e = LogParser::parse(r#"2024-01-15T10:30:00Z {"lvl": 35, "message": "m"}"#, "p", 1);
    assert!(e.is_json);
    assert!(e.timestamp.is_some());
    assert_eq!(e.level, LogLevel::Warn);
    let cases = [(0, LogLevel::Trace), (10, LogLevel::Trace), (11, LogLevel::Debug), (30, LogLevel::Info),
        (40, LogLevel::Warn), (50, LogLevel::Error), (51, LogLevel::Fatal)];
    for (n, l) in cases {
        let line = format!("{{\"severity\": {}}}", n);
        assert_eq!(LogParser::parse(&line, "p", 1).level, l);
    }
    let neg = LogParser::parse(r#"{"level": -3, "Level": "debug"}"#, "p", 1);
    assert_eq!(neg.level, LogLevel::Debug);
    let none = LogParser::parse(r#"{"msg": "no level"}"#, "p", 1);
    assert_eq!(none.level, LogLevel::Unknown);
}

#[test]
fn json_fields_are_recorded() {
    let e = LogParser::parse(r#"{"a": null, "b": true, "c": 1.5, "d": [1], "e": {"k": 2}, "f": "s"}"#, "p", 1);
    let fields = e.fields.unwrap();
    let get = |k: &str| fields.iter().find(|(n, _)| n == k).map(|(_, v)| v.clone()).unwrap();
    assert!(matches!(get("a"), FieldValue::Null));
    assert!(matches!(get("b"), FieldValue::Bool(true)));
    match get("c") {
        FieldValue::Number(n, t) => {
            assert_eq!(n, None);
            assert_eq!(t, "1.5");
        }
        _ => panic!("not a number"),
    }
    match get("d") {
        FieldValue::Array(t) => assert_eq!(t, "[1]"),
        _ => panic!("not an array"),
    }
    match get("e") {
        FieldValue::Object(t) => assert_eq!(t, "{\"k\":2}"),
        _ => panic!("not an object"),
    }
    match get("f") {
        FieldValue::Text(t) => assert_eq!(t, "s"),
        _ => panic!("not a text"),
    }
}

#[test]
fn broken_json_falls_back_to_text() {
    let e = LogParser::parse("{not json ERROR: x", "p", 1);
    assert!(!e.is_json);
    assert!(e.fields.is_none());
    assert_eq!(e.level, LogLevel::Error);
}

#[test]
fn text_level_patterns_in_order() {
    assert_eq!(LogParser::extract_level_from_text("[warn] then ERROR: x"), LogLevel::Warn);
    assert_eq!(LogParser::extract_level_from_text("fatal: boom"), LogLevel::Fatal);
    assert_eq!(LogParser::extract_level_from_text("12:00 info started"), LogLevel::Info);
    assert_eq!(LogParser::extract_level_from_text("   debug starting"), LogLevel::Debug);
    assert_eq!(LogParser::extract_level_from_text("Errno 5"), LogLevel::Error);
    assert_eq!(LogParser::extract_level_from_text("nothing here"), LogLevel::Unknown);
    assert_eq!(LogParser::extract_level_from_text(""), LogLevel::Unknown);
    assert_eq!(LogParser::level_from_uppercase("[TRACE] X"), LogLevel::Trace);
    assert_eq!(LogParser::level_from_uppercase("[trace] x"), LogLevel::Unknown);
}

#[test]
fn floor_char_boundary_snaps_down() {
    let s = "a─b";
    assert_eq!(LogParser::floor_char_boundary(s, 0), 0);
    assert_eq!(LogParser::floor_char_boundary(s, 2), 1);
    assert_eq!(LogParser::floor_char_boundary(s, 3), 1);
    assert_eq!(LogParser::floor_char_boundary(s, 4), 4);
    assert_eq!(LogParser::floor_char_boundary(s, 99), 5);
}

#[test]
fn short_pod_name_and_message() {
    let e = LogEntry::new("api-7d9f-x2k".to_string(), 1, "raw text".to_string());
    assert_eq!(e.short_pod_name(), "x2k");
    assert_eq!(e.message(), "raw text");
    let f = LogEntry::new("single".to_string(), 1, String::new());
    assert_eq!(f.short_pod_name(), "single");
    let g = LogEntry::new("trailing-".to_string(), 1, String::new());
    assert_eq!(g.short_pod_name(), "");
}
