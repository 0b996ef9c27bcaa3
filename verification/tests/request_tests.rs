use rfeign::headers::header_map_pairs;
use rfeign::request::{url_with_query, RequestBuilder};

fn pairs(b: &RequestBuilder) -> Vec<(String, String)> {
    header_map_pairs(b.headers())
}

#[test]
fn test_to_curl() {
    let curl = RequestBuilder::new("GET", "/users")
        .header("Authorization", "Bearer token123")
        .query_pair("page", "1")
        .to_curl("https://httpbin.org");
    assert!(curl.contains("curl -X GET"));
    assert!(curl.contains("authorization: Bearer token123"));
    assert!(curl.contains("page=1"));
    assert_eq!(
        curl,
        "curl -X GET 'https://httpbin.org/users?page=1' -H 'authorization: Bearer token123'"
    );
}

#[test]
fn test_to_curl_with_body() {
    let curl = RequestBuilder::new("POST", "/anything")
        .body(b"{\"name\":\"feignx\"}".to_vec())
        .to_curl("https://httpbin.org");
    assert_eq!(
        curl,
        "curl -X POST 'https://httpbin.org/anything' -d '{\"name\":\"feignx\"}'"
    );
}

#[test]
fn test_query_params() {
    let b = RequestBuilder::new("GET", "/get")
        .query_pair("page", "1")
        .query_pair("size", "10");
    assert_eq!(b.build_url("https://httpbin.org"), "https://httpbin.org/get?page=1&size=10");
    assert_eq!(b.query().len(), 2);
}

#[test]
fn build_url_without_query() {
    let b = RequestBuilder::new("GET", "/get");
    assert_eq!(b.build_url("http://h"), "http://h/get");
    assert_eq!(b.build_url(""), "/get");
}

#[test]
fn test_custom_header() {
    let b = RequestBuilder::new("GET", "/headers").header("X-Custom", "feignx-test");
    assert_eq!(b.headers().get("x-custom").unwrap(), "feignx-test");
    assert_eq!(pairs(&b), vec![("x-custom".to_string(), "feignx-test".to_string())]);
}

#[test]
fn header_replaces_value_in_place() {
    let b = RequestBuilder::new("GET", "/")
        .header("A", "1")
        .header("B", "2")
        .header("a", "3");
    assert_eq!(
        pairs(&b),
        vec![("a".to_string(), "3".to_string()), ("b".to_string(), "2".to_string())]
    );
}

#[test]
fn invalid_header_is_ignored() {
    let b = RequestBuilder::new("GET", "/")
        .header("bad name", "v")
        .header("ok", "bad\nvalue")
        .header("", "v");
    assert!(pairs(&b).is_empty());
}

#[test]
fn headers_map_in_order() {
    let list = vec![
        ("X-One".to_string(), "1".to_string()),
        ("X-Two".to_string(), "2".to_string()),
        ("x-one".to_string(), "11".to_string()),
    ];
    let b = RequestBuilder::new("GET", "/").headers_map(&list);
    assert_eq!(
        pairs(&b),
        vec![("x-one".to_string(), "11".to_string()), ("x-two".to_string(), "2".to_string())]
    );
}

#[test]
fn json_sets_body_and_content_type() {
    let b = RequestBuilder::new("POST", "/x").json(b"{}".to_vec(), "application/json");
    assert_eq!(b.body_bytes(), &b"{}".to_vec());
    assert_eq!(b.headers().get("content-type").unwrap(), "application/json");
}

#[test]
fn query_encoded_splits_pairs() {
    let b = RequestBuilder::new("GET", "/q")
        .query_pair("first", "0")
        .query_encoded("a=1&b=&&c&d=x=y");
    let q: Vec<(String, String)> = b.query().clone();
    assert_eq!(
        q,
        vec![
            ("first".to_string(), "0".to_string()),
            ("a".to_string(), "1".to_string()),
            ("b".to_string(), "".to_string()),
            ("d".to_string(), "x=y".to_string()),
        ]
    );
}

#[test]
fn url_with_query_skips_empty_values() {
    let q = vec![
        ("page".to_string(), "1".to_string()),
        ("q".to_string(), "".to_string()),
        ("size".to_string(), "10".to_string()),
    ];
    assert_eq!(url_with_query("http://h/p", &q), "http://h/p?page=1&size=10");
    let empty = vec![("q".to_string(), "".to_string())];
    assert_eq!(url_with_query("http://h/p", &empty), "http://h/p");
}

#[test]
fn into_parts_gives_everything_back() {
    let (m, p, h, q, body) = RequestBuilder::new("PUT", "/p")
        .header("k", "v")
        .query_pair("a", "b")
        .body(vec![1, 2])
        .into_parts();
    assert_eq!(m, "PUT");
    assert_eq!(p, "/p");
    assert_eq!(h.len(), 1);
    assert_eq!(q, vec![("a".to_string(), "b".to_string())]);
    assert_eq!(body, vec![1, 2]);
}

#[test]
fn query_round_trips_through_url() {
    let b = RequestBuilder::new("GET", "/s")
        .query_pair("a", "1")
        .query_pair("b", "x=y")
        .query_pair("c", "");
    let url = b.build_url("http://h");
    assert_eq!(url, "http://h/s?a=1&b=x=y&c=");
    let qs = url.split_once('?').unwrap().1.to_string();
    let back = RequestBuilder::new("GET", "/s").query_encoded(&qs);
    assert_eq!(back.query(), b.query());
}

#[test]
fn header_read_after_write() {
    let b = RequestBuilder::new("GET", "/")
        .header("Accept", "text/plain")
        .header("X-Id", "7");
    let b = b.header("ACCEPT", "application/json");
    assert_eq!(b.headers().get("accept").unwrap(), "application/json");
    assert_eq!(b.headers().get("x-id").unwrap(), "7");
    let b = b.header("X-Id", "bad\u{7f}");
    assert_eq!(b.headers().get("x-id").unwrap(), "7");
}
