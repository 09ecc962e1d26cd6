use ri::key_order::{key_lt, sorted_fields};
use ri::log_level::DMSCLogLevel;
use ri::log_lines::{
    file_content, format_json_line, json_log_line, render_line, render_lines, rotated_file_name, text_log_line,
    RiLogEntry,
};
use ri::log_settings::{flush_step, log_settings_from, RiFlushAction, RiLogSettings, CACHE_SIZE_LIMIT, FLUSH_INTERVAL_MS};

fn pairs(items: &[(&str, &str)]) -> Vec<(String, String)> {
    items.iter().map(|(k, v)| (k.to_string(), v.to_string())).collect()
}

fn entry(level: DMSCLogLevel, fields: Vec<(String, String)>) -> RiLogEntry {
    RiLogEntry {
        level,
        target: "t".to_string(),
        message: "m".to_string(),
        timestamp: "1.000Z".to_string(),
        fields,
    }
}

#[test]
fn keys_compare_by_code_point_with_prefixes_first() {
    assert!(key_lt(&"ab".to_string(), &"b".to_string()));
    assert!(key_lt(&"a".to_string(), &"ab".to_string()));
    assert!(!key_lt(&"b".to_string(), &"a".to_string()));
    assert!(!key_lt(&"a".to_string(), &"a".to_string()));
    assert!(key_lt(&"Z".to_string(), &"a".to_string()));
}

#[test]
fn sorted_fields_keep_last_value_in_key_order() {
    let out = sorted_fields(&pairs(&[("b", "1"), ("a", "2"), ("b", "3"), ("c", "4")]));
    assert_eq!(out, pairs(&[("a", "2"), ("b", "3"), ("c", "4")]));
}

#[test]
fn json_object_of_members() {
    assert_eq!(format_json_line(&pairs(&[("a", "b"), ("c", "d\"e")])), "{\"a\":\"b\",\"c\":\"d\\\"e\"}");
}

#[test]
fn json_line_sorts_fields() {
    let e = entry(
        DMSCLogLevel::Info,
        pairs(&[
            ("timestamp", "1.000Z"),
            ("level", "INFO"),
            ("target", "t"),
            ("event", "t"),
            ("message", "m"),
            ("b", "x"),
        ]),
    );
    assert_eq!(
        json_log_line(&e),
        "{\"b\":\"x\",\"event\":\"t\",\"level\":\"INFO\",\"message\":\"m\",\"target\":\"t\",\"timestamp\":\"1.000Z\"}"
    );
}

#[test]
fn json_line_adds_missing_standard_fields() {
    let e = entry(DMSCLogLevel::Warn, pairs(&[("level", "custom")]));
    assert_eq!(
        json_log_line(&e),
        "{\"level\":\"custom\",\"message\":\"m\",\"target\":\"t\",\"timestamp\":\"1.000Z\"}"
    );
    assert_eq!(render_line(&entry(DMSCLogLevel::Warn, Vec::new()), true),
        "{\"level\":\"WARN\",\"message\":\"m\",\"target\":\"t\",\"timestamp\":\"1.000Z\"}");
}

#[test]
fn text_line_quotes_context_and_tracing_values() {
    let e = entry(
        DMSCLogLevel::Info,
        pairs(&[
            ("timestamp", "1.000Z"),
            ("level", "INFO"),
            ("target", "t"),
            ("event", "ev"),
            ("message", "m"),
            ("zeta", "1"),
            ("alpha", "q\"x"),
            ("trace_id", "T"),
        ]),
    );
    assert_eq!(
        text_log_line(&e),
        "1.000Z [INFO] t event=ev trace_id=\"T\" - m ctx={ alpha=\"q\\\"x\", event=\"ev\", zeta=\"1\" }"
    );
}

#[test]
fn text_line_without_event_uses_target() {
    let e = entry(DMSCLogLevel::Error, pairs(&[("span_id", "S")]));
    assert_eq!(render_line(&e, false), "1.000Z [ERROR] t event=t span_id=\"S\" - m");
    let lines = render_lines(&vec![e], false);
    assert_eq!(lines, vec!["1.000Z [ERROR] t event=t span_id=\"S\" - m".to_string()]);
}

#[test]
fn file_content_joins_nonempty_lines() {
    let lines = vec!["x".to_string(), String::new(), "y".to_string()];
    assert_eq!(file_content(&lines), Some("x\ny\n".to_string()));
    assert_eq!(file_content(&vec![String::new()]), None);
    assert_eq!(file_content(&Vec::new()), None);
}

#[test]
fn rotated_name_appends_millis() {
    assert_eq!(rotated_file_name("dms.log", 42), "dms.log.42");
    assert_eq!(rotated_file_name("a", 0), "a.0");
}

#[test]
fn flush_schedule() {
    assert_eq!(flush_step(true, 0, 0, FLUSH_INTERVAL_MS, CACHE_SIZE_LIMIT), RiFlushAction::FlushAndStop);
    assert_eq!(flush_step(false, 500, 0, FLUSH_INTERVAL_MS, CACHE_SIZE_LIMIT), RiFlushAction::Flush);
    assert_eq!(flush_step(false, 10, 1000, FLUSH_INTERVAL_MS, CACHE_SIZE_LIMIT), RiFlushAction::Flush);
    assert_eq!(flush_step(false, 499, 999, FLUSH_INTERVAL_MS, CACHE_SIZE_LIMIT), RiFlushAction::Wait);
}

#[test]
fn settings_defaults() {
    let s = RiLogSettings::default();
    assert_eq!(s.level, DMSCLogLevel::Info);
    assert!(s.console_enabled && s.file_enabled && !s.json_format);
    assert_eq!(s.file_name, "dms.log");
    assert_eq!(s.rotate_when, "size");
    assert_eq!(s.max_bytes, 10 * 1024 * 1024);
    let t = log_settings_from(None, None, None, None, None, None, None);
    assert_eq!(t.level, DMSCLogLevel::Info);
    assert_eq!(t.file_name, "dms.log");
    assert_eq!(t.max_bytes, 10 * 1024 * 1024);
}

#[test]
fn settings_from_values() {
    let s = log_settings_from(
        Some("warning".to_string()),
        Some("app.log".to_string()),
        Some("JSON".to_string()),
        Some("never".to_string()),
        Some(64),
        Some(false),
        Some(false),
    );
    assert_eq!(s.level, DMSCLogLevel::Warn);
    assert_eq!(s.file_name, "app.log");
    assert!(s.json_format);
    assert_eq!(s.rotate_when, "never");
    assert_eq!(s.max_bytes, 64);
    assert!(!s.console_enabled && !s.file_enabled);
}

#[test]
fn settings_ignore_empty_and_unknown_values() {
    let s = log_settings_from(
        Some("verbose".to_string()),
        Some(String::new()),
        Some("text".to_string()),
        Some(String::new()),
        Some(0),
        None,
        None,
    );
    assert_eq!(s.level, DMSCLogLevel::Info);
    assert_eq!(s.file_name, "dms.log");
    assert!(!s.json_format);
    assert_eq!(s.rotate_when, "size");
    assert_eq!(s.max_bytes, 10 * 1024 * 1024);
    assert!(s.console_enabled && s.file_enabled);
}
