use rfeign::config::{
    body_to_decode, default_success_status, default_timeout, ApiResponse, JsonCodec, Part,
    RfeignConfig, RfeignPlugin, Timeout,
};
use rfeign::error::{DefaultErrorDecoder, Error};
use rfeign::headers::{header_map_new, parse_header_name, parse_header_value};
use rfeign::resolver::{
    instance_url, join_url, select_instance, url_from_first_node, url_from_instances,
    ServiceInstance, StaticUrl,
};
use rfeign::text::{decimal_chars, signed_decimal_chars, trim_string};

fn inst(ip: &str, port: i64, healthy: bool, secure: bool) -> ServiceInstance {
    ServiceInstance { ip: ip.to_string(), port, healthy, secure }
}

#[test]
fn instance_selection_prefers_healthy() {
    let v = vec![inst("10.0.0.1", 80, false, false), inst("10.0.0.2", 8080, true, true)];
    assert_eq!(select_instance(&v), Some(1));
    assert_eq!(url_from_instances("svc", &v).unwrap(), "https://10.0.0.2:8080");
    let w = vec![inst("10.0.0.1", 80, false, false)];
    assert_eq!(url_from_instances("svc", &w).unwrap(), "http://10.0.0.1:80");
    match url_from_instances("svc", &vec![]) {
        Err(Error::Resolve(m)) => assert_eq!(m, "no instance for svc"),
        _ => panic!("expected a resolve error"),
    }
}

#[test]
fn consul_style_urls() {
    let nodes = vec![("127.0.0.1".to_string(), 8500u16)];
    assert_eq!(url_from_first_node("http", "svc", &nodes).unwrap(), "http://127.0.0.1:8500");
    match url_from_first_node("http", "svc", &vec![]) {
        Err(Error::Resolve(m)) => assert_eq!(m, "no healthy instance for svc"),
        _ => panic!("expected a resolve error"),
    }
    assert_eq!(instance_url("http", "h", -1), "http://h:-1");
}

#[test]
fn static_and_joined_urls() {
    assert_eq!(StaticUrl("http://base".to_string()).resolve("any"), "http://base");
    assert_eq!(join_url("http://base", "/x"), "http://base/x");
}

#[test]
fn error_messages() {
    assert_eq!(Error::Status { status: 503, body: "down".to_string() }.message(), "HTTP 503: down");
    assert_eq!(Error::Business { code: "E1".to_string(), message: "m".to_string() }.message(), "E1: m");
    assert_eq!(Error::CircuitOpen.message(), "circuit breaker open");
    assert_eq!(Error::Timeout.message(), "request timeout");
    assert_eq!(Error::Resolve("x".to_string()).message(), "service resolve failed: x");
    assert_eq!(Error::Other("plain".to_string()).message(), "plain");
}

#[test]
fn default_error_decoder_keeps_status_and_text() {
    match DefaultErrorDecoder.decode(500, b"oops \xff") {
        Error::Status { status, body } => {
            assert_eq!(status, 500);
            assert_eq!(body, "oops \u{fffd}");
        }
        _ => panic!("expected a status error"),
    }
}

#[test]
fn success_and_defaults() {
    assert!(default_success_status(200));
    assert!(default_success_status(299));
    assert!(!default_success_status(300));
    assert!(!default_success_status(199));
    let r = ApiResponse::new(204, header_map_new(), ());
    assert!(r.is_success());
    assert_eq!(JsonCodec.content_type(), "application/json");
    assert_eq!(body_to_decode(&vec![]), b"null".to_vec());
    assert_eq!(body_to_decode(&b"[1]".to_vec()), b"[1]".to_vec());
    let t = Timeout::default();
    assert_eq!(t.connect, 5_000_000_000);
    assert_eq!(t.read, 30_000_000_000);
    assert_eq!(default_timeout(), 30000);
    assert_eq!(RfeignConfig::default().timeout_ms, 0);
    assert_eq!(RfeignConfig::config_prefix(), "rfeign");
    assert_eq!(RfeignPlugin.name(), "summer-rfeign");
    assert_eq!(RfeignPlugin.dependencies(true), vec!["summer-nacos"]);
    assert!(RfeignPlugin.dependencies(false).is_empty());
    let p = Part::from_bytes("test.txt", "text/plain", b"hello".to_vec());
    assert_eq!(p.filename, "test.txt");
    assert_eq!(p.data, b"hello".to_vec());
}

#[test]
fn header_parsers_match_http() {
    assert_eq!(parse_header_name("X-Custom"), Some("x-custom".to_string()));
    assert_eq!(parse_header_name("bad:name"), None);
    assert_eq!(parse_header_name(""), None);
    assert_eq!(parse_header_value("v\tw"), Ok("v\tw".to_string()));
    assert!(parse_header_value("a\rb").is_err());
    assert_eq!(parse_header_value("ünïcode"), Ok("ünïcode".to_string()));
}

#[test]
fn text_helpers() {
    assert_eq!(decimal_chars(0).into_iter().collect::<String>(), "0");
    assert_eq!(decimal_chars(1234567890123).into_iter().collect::<String>(), "1234567890123");
    assert_eq!(signed_decimal_chars(-42).into_iter().collect::<String>(), "-42");
    assert_eq!(trim_string("  a b \u{3000}"), "a b");
}
