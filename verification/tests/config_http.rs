use notarize_pool::config::{
    check_bounds, config_from_env, parse_port, Bounds, ConfigError, SessionConfig,
    DEFAULT_NOTARY_PORT, MAX_RECV_DATA, MAX_SENT_DATA,
};
use notarize_pool::httpmsg::{
    build_request, is_success_status, parse_response, response_body, HttpVersion,
};

#[test]
fn parse_port_plain() {
    assert_eq!(parse_port("7047"), Some(7047));
    assert_eq!(parse_port("0"), Some(0));
    assert_eq!(parse_port("65535"), Some(65535));
}

#[test]
fn parse_port_plus_sign() {
    assert_eq!(parse_port("+80"), Some(80));
    assert_eq!(parse_port("+"), None);
}

#[test]
fn parse_port_rejects() {
    assert_eq!(parse_port(""), None);
    assert_eq!(parse_port("65536"), None);
    assert_eq!(parse_port("99999999999999999999"), None);
    assert_eq!(parse_port("12a"), None);
    assert_eq!(parse_port("-1"), None);
    assert_eq!(parse_port(" 7047"), None);
    assert_eq!(parse_port("port"), None);
}

#[test]
fn config_defaults() {
    let cfg = config_from_env(None, None).unwrap();
    assert_eq!(cfg.notary_host, "127.0.0.1");
    assert_eq!(cfg.notary_port, DEFAULT_NOTARY_PORT);
    assert!(!cfg.use_tls_to_notary);
    assert_eq!(cfg.server_name, "test-server.io");
    assert_eq!(cfg.server_host, "127.0.0.1");
    assert_eq!(cfg.server_port, 3000);
    assert_eq!(cfg.request_bounds.max_sent, MAX_SENT_DATA);
    assert_eq!(cfg.request_bounds.max_recv, MAX_RECV_DATA);
    assert_eq!(cfg.request_bounds, cfg.protocol_bounds);
}

#[test]
fn config_from_env_values() {
    let cfg = config_from_env(Some("notary.example".to_string()), Some("8000")).unwrap();
    assert_eq!(cfg.notary_host, "notary.example");
    assert_eq!(cfg.notary_port, 8000);
}

#[test]
fn config_bad_port_is_startup_error() {
    assert!(matches!(config_from_env(None, Some("abc")), Err(ConfigError::InvalidPort)));
    assert!(matches!(config_from_env(None, Some("70000")), Err(ConfigError::InvalidPort)));
}

#[test]
fn bounds_mismatch_detected() {
    let good = config_from_env(None, None).unwrap();
    assert_eq!(check_bounds(&good), Ok(()));
    let bad = SessionConfig {
        protocol_bounds: Bounds { max_sent: 2048, max_recv: MAX_RECV_DATA },
        ..good
    };
    assert_eq!(check_bounds(&bad), Err(ConfigError::BoundsMismatch));
}

#[test]
fn request_fixed_shape() {
    let cfg = config_from_env(None, None).unwrap();
    let r = build_request(&cfg, "/formats/json");
    assert_eq!(r.method, "GET");
    assert_eq!(r.version, HttpVersion::Http10);
    assert_eq!(r.uri, "/formats/json");
    let h: Vec<(String, String)> =
        r.headers.into_iter().map(|f| (f.name, f.value)).collect();
    assert_eq!(h[0], ("Host".to_string(), "test-server.io".to_string()));
    assert_eq!(h[1], ("Accept".to_string(), "*/*".to_string()));
    assert_eq!(h[2], ("Accept-Encoding".to_string(), "identity".to_string()));
    assert_eq!(h[3], ("Connection".to_string(), "close".to_string()));
    assert_eq!(h[4].0, "User-Agent");
    assert!(h[4].1.starts_with("Mozilla/5.0"));
    assert_eq!(h.len(), 5);
}

#[test]
fn response_parse_json_ok() {
    let raw = b"HTTP/1.1 200 OK\r\nContent-Type: application/json\r\nConnection: close\r\n\r\n{\"status\":\"ok\"}";
    let sum = parse_response(raw).unwrap();
    assert_eq!(sum.status, 200);
    assert!(sum.body_is_json);
    let body = response_body(raw, sum.body_start);
    assert_eq!(body, b"{\"status\":\"ok\"}".to_vec());
}

#[test]
fn response_parse_case_insensitive_header() {
    let raw = b"HTTP/1.0 200 OK\r\ncontent-type:   application/json; charset=utf-8\r\n\r\n{}";
    let sum = parse_response(raw).unwrap();
    assert!(sum.body_is_json);
}

#[test]
fn response_parse_not_json() {
    let raw = b"HTTP/1.1 200 OK\r\nContent-Type: text/plain\r\n\r\nhello";
    let sum = parse_response(raw).unwrap();
    assert_eq!(sum.status, 200);
    assert!(!sum.body_is_json);
    assert_eq!(response_body(raw, sum.body_start), b"hello".to_vec());
}

#[test]
fn response_parse_status() {
    let raw = b"HTTP/1.1 404 Not Found\r\n\r\n";
    let sum = parse_response(raw).unwrap();
    assert_eq!(sum.status, 404);
    assert_eq!(sum.body_start, raw.len());
}

#[test]
fn response_parse_rejects_malformed() {
    assert!(parse_response(b"").is_none());
    assert!(parse_response(b"HTTP/1.1 200").is_none());
    assert!(parse_response(b"HTTP/1.1 20x OK\r\n\r\n").is_none());
    assert!(parse_response(b"ICMP/1.1 200 OK\r\n\r\n").is_none());
    // well-formed status line but no end of head
    assert!(parse_response(b"HTTP/1.1 200 OK\r\nConnection: close\r\n").is_none());
}

#[test]
fn success_statuses() {
    assert!(!is_success_status(199));
    assert!(is_success_status(200));
    assert!(is_success_status(204));
    assert!(is_success_status(299));
    assert!(!is_success_status(300));
    assert!(!is_success_status(404));
    assert!(!is_success_status(500));
}
