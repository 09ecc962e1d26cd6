use ri::grpc::client::{is_retryable_error, RiCallDecision, RiGrpcClient};
use ri::grpc::config::DMSCGrpcConfig;
use ri::grpc::error::GrpcError;
use ri::grpc::stats::DMSCGrpcStats;
use ri::grpc::wire::{
    answer_handled, answer_missing_service, build_grpc_error_response, build_grpc_response, find_body_start,
    parse_request_path, route_request,
};

const HEADER: &[u8] = b"HTTP/2.0 200 OK\r\ncontent-type: application/grpc\r\n\r\n";

fn path(s: &str) -> Option<(String, String)> {
    parse_request_path(s).ok()
}

#[test]
fn path_from_path_line() {
    assert_eq!(path("POST x\n:path /Echo/Say\n"), Some(("Echo".to_string(), "Say".to_string())));
    assert_eq!(path(":path /Echo/Say\r\nother"), Some(("Echo".to_string(), "Say".to_string())));
}

#[test]
fn path_trims_leading_slashes_and_splits_once() {
    assert_eq!(path(":path //Svc/a/b"), Some(("Svc".to_string(), "a/b".to_string())));
    assert_eq!(path("\t:path\u{3000}/A/"), Some(("A".to_string(), "".to_string())));
}

#[test]
fn path_uses_second_word_and_later_lines() {
    assert_eq!(path("x :path /A/B\n:path /C/D"), Some(("C".to_string(), "D".to_string())));
    assert_eq!(path(":path /NoMethod\n:path  /S/M"), Some(("S".to_string(), "M".to_string())));
}

#[test]
fn path_errors() {
    for bad in ["", "\n\n", ":path", ":path /Svc", "GET /a/b", ":path a b"] {
        match parse_request_path(bad) {
            Err(GrpcError::Server { message }) => assert_eq!(message, "Invalid request path"),
            other => panic!("unexpected {:?} for {:?}", other, bad),
        }
    }
}

#[test]
fn body_start() {
    assert_eq!(find_body_start(b"head\r\n\r\nbody"), 8);
    assert_eq!(find_body_start(b"no blank line"), 13);
    assert_eq!(find_body_start(b""), 0);
    assert_eq!(find_body_start(b"\r\n\r\n"), 4);
    assert_eq!(find_body_start(b"a\r\n\r\n\r\n\r\nb"), 5);
}

#[test]
fn route_decodes_lossily() {
    let req = b":path /S/M\r\n\r\nbody\xff\xfe";
    let route = route_request(req).unwrap();
    assert_eq!(route.service, "S");
    assert_eq!(route.method, "M");
    assert_eq!(route.body_start, 14);
    let bad = b"\xff\xfe\n:path /A/B";
    assert!(route_request(b"\xff\xfe :path /A/B").is_err());
    let route = route_request(bad).unwrap();
    assert_eq!((route.service.as_str(), route.method.as_str()), ("A", "B"));
    assert!(route_request(b"\xff").is_err());
}

#[test]
fn response_framing() {
    let r = build_grpc_response(b"abc");
    let mut expected = HEADER.to_vec();
    expected.extend_from_slice(&[0, 0, 0, 3]);
    expected.extend_from_slice(b"abc");
    expected.extend_from_slice(b"\r\ngrpc-status: 0\r\n\r\n");
    assert_eq!(r, expected);

    let big = vec![7u8; 70000];
    let r = build_grpc_response(&big);
    assert_eq!(&r[HEADER.len()..HEADER.len() + 4], &[0, 0x01, 0x11, 0x70]);
}

#[test]
fn error_response_framing() {
    let r = build_grpc_error_response("boom");
    let mut expected = HEADER.to_vec();
    expected.extend_from_slice(b"\r\ngrpc-status: 2\r\ngrpc-message: boom\r\n\r\n");
    assert_eq!(r, expected);
}

#[test]
fn answers_count_traffic() {
    let mut stats = DMSCGrpcStats::new();
    stats.record_request(10);
    let r = answer_handled(&mut stats, &Ok(b"xy".to_vec()));
    assert_eq!(r, build_grpc_response(b"xy"));
    assert_eq!((stats.requests_received, stats.requests_completed, stats.bytes_received, stats.bytes_sent), (1, 1, 10, 2));
    assert_eq!(stats.active_connections, 0);
    let r = answer_handled(&mut stats, &Err("bad".to_string()));
    assert_eq!(r, build_grpc_error_response("bad"));
    assert_eq!(stats.requests_failed, 1);
    let r = answer_missing_service(&mut stats, "Nope");
    assert_eq!(r, build_grpc_error_response("Service not found: Nope"));
    assert_eq!(stats.requests_failed, 2);
    assert_eq!(stats.active_connections, 0);
}

#[test]
fn stats_counters() {
    let mut s = DMSCGrpcStats::default();
    s.record_request(5);
    s.record_request(7);
    assert_eq!((s.requests_received, s.bytes_received, s.active_connections), (2, 12, 2));
    s.record_response(3);
    assert_eq!((s.requests_completed, s.bytes_sent, s.active_connections), (1, 3, 1));
    s.record_error();
    assert_eq!((s.requests_failed, s.active_connections), (1, 0));
    s.record_error();
    assert_eq!((s.requests_failed, s.active_connections), (2, 0));
}

#[test]
fn config_default() {
    let c = DMSCGrpcConfig::default();
    assert_eq!(c.addr, "127.0.0.1");
    assert_eq!(c.port, 50051);
    assert_eq!(c.max_concurrent_requests, 100);
    assert!(!c.enable_tls);
    assert!(c.cert_path.is_none() && c.key_path.is_none());
}

#[test]
fn error_texts() {
    assert_eq!(GrpcError::Server { message: "m".to_string() }.to_text(), "Server error: m");
    assert_eq!(GrpcError::Client { message: "m".to_string() }.to_text(), "Client error: m");
    assert_eq!(GrpcError::ServiceNotFound { service_name: "S".to_string() }.to_text(), "Service not found: S");
    assert_eq!(GrpcError::ConnectionFailed { message: "m".to_string() }.to_text(), "Connection failed: m");
    assert_eq!(GrpcError::Timeout.to_text(), "Request timeout");
    assert_eq!(GrpcError::Timeout.framework_text(), "gRPC error: Request timeout");
}

#[test]
fn retryable_errors() {
    assert!(is_retryable_error("status: UNAVAILABLE, message: x"));
    assert!(is_retryable_error("DEADLINE_EXCEEDED"));
    assert!(is_retryable_error("xxRESOURCE_EXHAUSTEDyy"));
    assert!(!is_retryable_error("unavailable"));
    assert!(!is_retryable_error(""));
}

#[test]
fn client_defaults_and_builders() {
    let c = RiGrpcClient::new("http://127.0.0.1:50051".to_string());
    assert_eq!(c.endpoint(), "http://127.0.0.1:50051");
    assert_eq!(c.timeout_ms(), 30_000);
    assert_eq!(c.retry_count(), 3);
    assert_eq!(c.retry_delay_ms(), 100);
    assert!(!c.is_connected());
    let c = c.with_timeout(5_000).with_retry(1, 20);
    assert_eq!((c.timeout_ms(), c.retry_count(), c.retry_delay_ms()), (5_000, 1, 20));
    assert_eq!(c.get_stats().requests_received, 0);
}

#[test]
fn begin_call_checks_connection() {
    let mut c = RiGrpcClient::new("e".to_string());
    match c.begin_call(false, "S", "M") {
        Err(GrpcError::Client { message }) => assert_eq!(message, "Not connected to gRPC server"),
        other => panic!("{:?}", other),
    }
    match c.begin_call(true, "S", "M") {
        Err(GrpcError::Client { message }) => assert_eq!(message, "gRPC client not connected"),
        other => panic!("{:?}", other),
    }
    c.mark_connected();
    assert_eq!(c.begin_call(true, "S", "M").unwrap(), (0, "/S/M".to_string()));
    assert_eq!(c.begin_call(true, "Echo", "Say").unwrap(), (1, "/Echo/Say".to_string()));
    assert_eq!(c.generate_request_id(), 2);
    c.mark_disconnected();
    assert!(!c.is_connected());
}

#[test]
fn retry_policy() {
    let mut c = RiGrpcClient::new("e".to_string()).with_retry(2, 0);
    let transient: Result<usize, String> = Err("status: UNAVAILABLE".to_string());
    assert_eq!(c.on_attempt(0, 4, &transient), RiCallDecision::Retry);
    assert_eq!(c.on_attempt(1, 4, &transient), RiCallDecision::Retry);
    assert_eq!(c.on_attempt(2, 4, &transient), RiCallDecision::Fail);
    assert_eq!(c.get_stats().requests_failed, 3);
    let fatal: Result<usize, String> = Err("status: INVALID_ARGUMENT".to_string());
    assert_eq!(c.on_attempt(0, 4, &fatal), RiCallDecision::Fail);
    assert_eq!(c.on_attempt(1, 4, &Ok(9)), RiCallDecision::Succeed);
    let s = c.get_stats();
    assert_eq!((s.requests_received, s.requests_completed, s.bytes_received, s.bytes_sent, s.requests_failed), (1, 1, 4, 9, 4));
}
