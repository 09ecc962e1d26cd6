use ri::log_context::RiLogContext;
use ri::log_format::{format_text_line, format_timestamp, is_json_format, log_entry_fields, should_rotate};
use ri::log_level::{level_from_ordinal, parse_config_level, should_log, DMSCLogLevel};

#[test]
fn level_names() {
    assert_eq!(DMSCLogLevel::Debug.as_str(), "DEBUG");
    assert_eq!(DMSCLogLevel::Info.as_str(), "INFO");
    assert_eq!(DMSCLogLevel::Warn.as_str(), "WARN");
    assert_eq!(DMSCLogLevel::Error.as_str(), "ERROR");
}

#[test]
fn threshold_filters_lower_levels() {
    assert!(!should_log(DMSCLogLevel::Info, DMSCLogLevel::Debug));
    assert!(should_log(DMSCLogLevel::Info, DMSCLogLevel::Info));
    assert!(should_log(DMSCLogLevel::Info, DMSCLogLevel::Error));
    assert!(should_log(DMSCLogLevel::Debug, DMSCLogLevel::Debug));
    assert!(!should_log(DMSCLogLevel::Error, DMSCLogLevel::Warn));
}

#[test]
fn config_level_text() {
    assert_eq!(parse_config_level("DEBUG"), Some(DMSCLogLevel::Debug));
    assert_eq!(parse_config_level("info"), Some(DMSCLogLevel::Info));
    assert_eq!(parse_config_level("WARNING"), Some(DMSCLogLevel::Warn));
    assert_eq!(parse_config_level("warn"), Some(DMSCLogLevel::Warn));
    assert_eq!(parse_config_level("error"), Some(DMSCLogLevel::Error));
    assert_eq!(parse_config_level("Error"), None);
    assert_eq!(parse_config_level(""), None);
    assert_eq!(parse_config_level("trace"), None);
}

#[test]
fn level_ordinals() {
    assert_eq!(level_from_ordinal(0), DMSCLogLevel::Debug);
    assert_eq!(level_from_ordinal(1), DMSCLogLevel::Info);
    assert_eq!(level_from_ordinal(2), DMSCLogLevel::Warn);
    assert_eq!(level_from_ordinal(3), DMSCLogLevel::Error);
    assert_eq!(level_from_ordinal(4), DMSCLogLevel::Info);
    assert_eq!(level_from_ordinal(-1), DMSCLogLevel::Info);
}

#[test]
fn text_line_without_context() {
    let line = format_text_line("1.000Z", DMSCLogLevel::Info, "svc", "svc", None, None, "hello", &vec![]);
    assert_eq!(line, "1.000Z [INFO] svc event=svc - hello");
}

#[test]
fn text_line_with_tracing_and_context() {
    let ctx = vec![
        ("event".to_string(), "\"svc\"".to_string()),
        ("level".to_string(), "\"WARN\"".to_string()),
        ("span_id".to_string(), "\"s\"".to_string()),
        ("user".to_string(), "\"42\"".to_string()),
    ];
    let line = format_text_line("2.500Z", DMSCLogLevel::Warn, "svc", "svc", Some("\"t\""), Some("\"s\""), "oops", &ctx);
    assert_eq!(line, "2.500Z [WARN] svc event=svc trace_id=\"t\" span_id=\"s\" - oops ctx={ event=\"svc\", user=\"42\" }");
    let only_span = format_text_line("0", DMSCLogLevel::Debug, "t", "e", None, Some("s"), "m", &vec![]);
    assert_eq!(only_span, "0 [DEBUG] t event=e span_id=s - m");
    let only_trace = format_text_line("0", DMSCLogLevel::Error, "t", "e", Some("x"), None, "m", &vec![]);
    assert_eq!(only_trace, "0 [ERROR] t event=e trace_id=x - m");
}

#[test]
fn entry_fields_context_overrides() {
    let mut ctx = RiLogContext::new();
    ctx.put("user", "42");
    ctx.put("event", "custom");
    let fields = log_entry_fields("1.000Z", DMSCLogLevel::Error, "db", "failed", &ctx);
    let last = |k: &str| fields.iter().rev().find(|(a, _)| a == k).map(|(_, v)| v.clone());
    assert_eq!(last("timestamp"), Some("1.000Z".to_string()));
    assert_eq!(last("level"), Some("ERROR".to_string()));
    assert_eq!(last("target"), Some("db".to_string()));
    assert_eq!(last("message"), Some("failed".to_string()));
    assert_eq!(last("event"), Some("custom".to_string()));
    assert_eq!(last("user"), Some("42".to_string()));
}

#[test]
fn timestamps() {
    assert_eq!(format_timestamp(1630000000, 123), "1630000000.123Z");
    assert_eq!(format_timestamp(0, 0), "0.000Z");
    assert_eq!(format_timestamp(5, 7), "5.007Z");
    assert_eq!(format_timestamp(12, 45), "12.045Z");
    assert_eq!(format_timestamp(u64::MAX, 999), "18446744073709551615.999Z");
    assert_eq!(format_timestamp(1, 1234), "1.1234Z");
}

#[test]
fn rotation_and_format_choices() {
    assert!(should_rotate("size", 100, 100));
    assert!(should_rotate("SiZe", 100, 150));
    assert!(!should_rotate("size", 100, 99));
    assert!(!should_rotate("size", 0, 1000));
    assert!(!should_rotate("none", 100, 1000));
    assert!(!should_rotate("sizes", 100, 1000));
    assert!(is_json_format("json"));
    assert!(is_json_format("JSON"));
    assert!(is_json_format("Json"));
    assert!(!is_json_format("text"));
    assert!(!is_json_format("jsonl"));
}
