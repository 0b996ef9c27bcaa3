use rfeign::auth::{BasicAuth, BearerAuth, DynamicAuth, TokenCache, TokenLike, TokenResponse, TokenStep};
use rfeign::error::Error;
use rfeign::headers::{header_map_new, header_map_pairs};

const SEC: u128 = 1_000_000_000;

#[test]
fn bearer_sets_authorization() {
    let mut h = header_map_new();
    BearerAuth::new("abc").apply(&mut h).unwrap();
    assert_eq!(h.get("authorization").unwrap(), "Bearer abc");
    assert_eq!(BearerAuth::new("abc").header_value(), "Bearer abc");
}

#[test]
fn bearer_rejects_invalid_token() {
    let mut h = header_map_new();
    let r = BearerAuth::new("a\nb").apply(&mut h);
    assert!(matches!(r, Err(Error::Other(_))));
    assert!(header_map_pairs(&h).is_empty());
}

#[test]
fn basic_encodes_credentials() {
    let mut h = header_map_new();
    let a = BasicAuth::new("user", "pass");
    assert_eq!(a.header_value(), "Basic dXNlcjpwYXNz");
    a.apply(&mut h).unwrap();
    assert_eq!(h.get("authorization").unwrap(), "Basic dXNlcjpwYXNz");
    assert_eq!(BasicAuth::new("a", "").header_value(), "Basic YTo=");
    assert_eq!(BasicAuth::new("ab", "").header_value(), "Basic YWI6");
}

#[test]
fn basic_replaces_existing_authorization() {
    let mut h = header_map_new();
    BearerAuth::new("t").apply(&mut h).unwrap();
    BasicAuth::new("aladdin", "opensesame").apply(&mut h).unwrap();
    assert_eq!(
        header_map_pairs(&h),
        vec![("authorization".to_string(), "Basic YWxhZGRpbjpvcGVuc2VzYW1l".to_string())]
    );
}

#[test]
fn token_response_is_token_like() {
    let t = TokenResponse { access_token: "tok".to_string(), expires_in_secs: 60 };
    assert_eq!(t.access_token(), "tok");
    assert_eq!(t.expires_in_secs(), 60);
    assert_eq!(t.refresh_token(), None);
}

#[test]
fn dynamic_auth_header_forms() {
    let a = DynamicAuth::new(());
    let mut h = header_map_new();
    a.apply("tok", &mut h).unwrap();
    assert_eq!(h.get("authorization").unwrap(), "Bearer tok");

    let b = DynamicAuth::new(()).header_name("X-Api-Key").token_type("");
    let mut h2 = header_map_new();
    b.apply("k1", &mut h2).unwrap();
    assert_eq!(header_map_pairs(&h2), vec![("x-api-key".to_string(), "k1".to_string())]);

    let c = DynamicAuth::new(()).header_name("bad name");
    let mut h3 = header_map_new();
    c.apply("t", &mut h3).unwrap();
    assert_eq!(h3.get("authorization").unwrap(), "Bearer t");
}

#[test]
fn token_cache_lifecycle() {
    let mut c = TokenCache::new(0);
    assert!(matches!(c.next_step(0), TokenStep::Fetch));
    c.store("tok", None, 3600, 10 * SEC);
    match c.next_step(10 * SEC) {
        TokenStep::UseCached(t) => assert_eq!(t, "tok"),
        _ => panic!("expected the cached token"),
    }
    // Valid until 30 s before the announced expiry.
    assert!(matches!(c.next_step((10 + 3569) * SEC), TokenStep::UseCached(_)));
    assert!(matches!(c.next_step((10 + 3570) * SEC), TokenStep::Fetch));
    c.store("tok2", Some("refresh"), 20, 100 * SEC);
    match c.next_step(100 * SEC) {
        TokenStep::Refresh(r) => assert_eq!(r, "refresh"),
        _ => panic!("a short-lived token is refreshed at once"),
    }
}
