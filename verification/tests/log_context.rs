use ri::log_context::RiLogContext;

#[test]
fn put_then_get() {
    let mut ctx = RiLogContext::new();
    ctx.put("user_id", "12345");
    assert_eq!(ctx.get("user_id"), Some("12345".to_string()));
    assert_eq!(ctx.get("missing"), None);
}

#[test]
fn put_replaces_value() {
    let mut ctx = RiLogContext::new();
    ctx.put("k", "1");
    ctx.put("k", "2");
    assert_eq!(ctx.get("k"), Some("2".to_string()));
    assert_eq!(ctx.get_all().len(), 1);
}

#[test]
fn remove_then_get() {
    let mut ctx = RiLogContext::new();
    ctx.put("a", "1");
    ctx.put("b", "2");
    ctx.remove("a");
    assert_eq!(ctx.get("a"), None);
    assert_eq!(ctx.get("b"), Some("2".to_string()));
    ctx.remove("absent");
    assert_eq!(ctx.get_all().len(), 1);
}

#[test]
fn put_all_last_pair_wins() {
    let mut ctx = RiLogContext::new();
    ctx.put("keep", "old");
    ctx.put("x", "old");
    ctx.put_all(vec![
        ("x".to_string(), "first".to_string()),
        ("y".to_string(), "y".to_string()),
        ("x".to_string(), "second".to_string()),
    ]);
    assert_eq!(ctx.get("x"), Some("second".to_string()));
    assert_eq!(ctx.get("y"), Some("y".to_string()));
    assert_eq!(ctx.get("keep"), Some("old".to_string()));
}

#[test]
fn get_all_and_clear() {
    let mut ctx = RiLogContext::new();
    ctx.put("a", "1");
    ctx.put("b", "2");
    let mut all = ctx.get_all();
    all.sort();
    assert_eq!(all, vec![("a".to_string(), "1".to_string()), ("b".to_string(), "2".to_string())]);
    ctx.clear();
    assert!(ctx.get_all().is_empty());
    assert_eq!(ctx.get("a"), None);
}

#[test]
fn tracing_identifiers_round_trip() {
    let mut ctx = RiLogContext::new();
    assert_eq!(ctx.get_trace_id(), None);
    ctx.set_trace_id("t-1");
    ctx.set_span_id("s-1");
    ctx.set_parent_span_id("p-1");
    assert_eq!(ctx.get_trace_id(), Some("t-1".to_string()));
    assert_eq!(ctx.get_span_id(), Some("s-1".to_string()));
    assert_eq!(ctx.get_parent_span_id(), Some("p-1".to_string()));
    assert_eq!(ctx.get("trace_id"), Some("t-1".to_string()));
}

fn check_uuid(s: &str) {
    assert_eq!(s.len(), 36);
    for (i, c) in s.chars().enumerate() {
        if i == 8 || i == 13 || i == 18 || i == 23 {
            assert_eq!(c, '-');
        } else {
            assert!(c.is_ascii_digit() || ('a'..='f').contains(&c));
        }
    }
    assert_eq!(s.chars().nth(14), Some('4'));
    assert!(matches!(s.chars().nth(19), Some('8' | '9' | 'a' | 'b')));
}

#[test]
fn generated_ids_are_v4_uuids() {
    let t = RiLogContext::generate_trace_id();
    let s = RiLogContext::generate_span_id();
    check_uuid(&t);
    check_uuid(&s);
    assert_ne!(t, s);
}

#[test]
fn put_survives_changes_of_other_keys() {
    let mut ctx = RiLogContext::new();
    ctx.put("k", "v");
    ctx.put("other", "1");
    ctx.remove("other");
    ctx.set_span_id("s");
    assert_eq!(ctx.get("k"), Some("v".to_string()));
}

#[test]
fn trace_and_parent_span_ids_kept_apart() {
    let mut ctx = RiLogContext::new();
    ctx.set_trace_id("t");
    ctx.set_span_id("s");
    ctx.set_parent_span_id("p");
    ctx.put("x", "y");
    assert_eq!(ctx.get_trace_id(), Some("t".to_string()));
    assert_eq!(ctx.get("trace_id"), Some("t".to_string()));
    assert_eq!(ctx.get_span_id(), Some("s".to_string()));
    assert_eq!(ctx.get_parent_span_id(), Some("p".to_string()));
    assert_eq!(ctx.get("parent_span_id"), Some("p".to_string()));
}
