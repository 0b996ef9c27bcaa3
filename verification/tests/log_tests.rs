use rfeign::log::{visible_value_text, LogLevel, LoggingMiddleware};

fn hdrs() -> Vec<(String, Vec<u8>)> {
    vec![
        ("accept".to_string(), b"application/json".to_vec()),
        ("x-bin".to_string(), vec![0xff, 0x01]),
    ]
}

#[test]
fn levels_are_ordered() {
    assert!(LogLevel::Full.at_least(LogLevel::Headers));
    assert!(LogLevel::Headers.at_least(LogLevel::Basic));
    assert!(LogLevel::Basic.at_least(LogLevel::Off));
    assert!(!LogLevel::Off.at_least(LogLevel::Basic));
    assert_eq!(LogLevel::default(), LogLevel::Off);
    assert!(LogLevel::Off < LogLevel::Full);
}

#[test]
fn off_logs_nothing() {
    let m = LoggingMiddleware::new(LogLevel::Off);
    assert!(m.request_lines("GET", "http://h/x", &hdrs(), &b"body".to_vec()).is_empty());
    assert!(m.response_lines(200, "http://h/x", 5, &hdrs()).is_empty());
    assert!(m.error_lines("http://h/x", 5, "boom").is_empty());
}

#[test]
fn basic_logs_request_and_status() {
    let m = LoggingMiddleware::new(LogLevel::Basic);
    assert_eq!(m.request_lines("GET", "http://h/x", &hdrs(), &vec![]), vec!["--> GET http://h/x"]);
    assert_eq!(m.response_lines(404, "http://h/x", 12, &hdrs()), vec!["<-- 404 http://h/x (12ms)"]);
    assert_eq!(m.error_lines("http://h/x", 0, "request timeout"), vec!["<-- ERROR http://h/x (0ms): request timeout"]);
}

#[test]
fn headers_level_logs_visible_headers() {
    let m = LoggingMiddleware::new(LogLevel::Headers);
    assert_eq!(
        m.request_lines("POST", "u", &hdrs(), &b"x".to_vec()),
        vec!["--> POST u", "    accept: application/json"]
    );
}

#[test]
fn full_level_logs_text_body() {
    let m = LoggingMiddleware::new(LogLevel::Full);
    assert_eq!(
        m.request_lines("POST", "u", &vec![], &b"{\"a\":1}".to_vec()),
        vec!["--> POST u", "    body: {\"a\":1}"]
    );
    assert_eq!(m.request_lines("POST", "u", &vec![], &vec![0xff]), vec!["--> POST u"]);
    assert_eq!(m.level(), LogLevel::Full);
}

#[test]
fn visible_text_of_values() {
    assert_eq!(visible_value_text(&b"a\tb".to_vec()), Some("a\tb".to_string()));
    assert_eq!(visible_value_text(&vec![0x7f]), None);
}

#[test]
fn higher_levels_extend_lower_ones() {
    let levels = [LogLevel::Off, LogLevel::Basic, LogLevel::Headers, LogLevel::Full];
    let body = b"{\"a\":1}".to_vec();
    for (i, lo) in levels.iter().enumerate() {
        for hi in &levels[i..] {
            let low = LoggingMiddleware::new(*lo);
            let high = LoggingMiddleware::new(*hi);
            let a = low.request_lines("PUT", "u", &hdrs(), &body);
            let b = high.request_lines("PUT", "u", &hdrs(), &body);
            assert!(b.starts_with(&a));
            let a = low.response_lines(201, "u", 3, &hdrs());
            let b = high.response_lines(201, "u", 3, &hdrs());
            assert!(b.starts_with(&a));
        }
    }
}
