//! Authentication: the `Authorization` header of bearer and basic
//! authentication, and the token cache of dynamic authentication.
use vstd::prelude::*;

use base64::Engine;
use http::{HeaderMap, HeaderValue};

use crate::error::Error;
use crate::headers::{
    header_entries, header_map_insert, header_name_valid, header_value_char, header_value_valid,
    insert_entry, lemma_lowercase_valid, lowercase, parse_header_name, parse_header_value,
    MAX_HEADER_ENTRIES,
};
use crate::retry::{DURATION_MAX_NANOS, NANOS_PER_SEC};
use crate::text::{chars_of, extend_str, string_from_chars};

verus! {

/// The character of the standard base64 alphabet with index `i`.
pub open spec fn b64_char(i: int) -> char {
    if i < 26 {
        (65 + i) as char
    } else if i < 52 {
        (97 + (i - 26)) as char
    } else if i < 62 {
        (48 + (i - 52)) as char
    } else if i == 62 {
        '+'
    } else {
        '/'
    }
}

/// Standard base64 with `=` padding (RFC 4648, section 4).
pub open spec fn base64_standard(b: Seq<u8>) -> Seq<char>
    decreases b.len(),
{
    if b.len() == 0 {
        seq![]
    } else if b.len() == 1 {
        seq![b64_char((b[0] / 4) as int), b64_char((b[0] % 4) * 16), '=', '=']
    } else if b.len() == 2 {
        seq![
            b64_char((b[0] / 4) as int),
            b64_char((b[0] % 4) * 16 + b[1] / 16),
            b64_char((b[1] % 16) * 4),
            '=',
        ]
    } else {
        seq![
            b64_char((b[0] / 4) as int),
            b64_char((b[0] % 4) * 16 + b[1] / 16),
            b64_char((b[1] % 16) * 4 + b[2] / 64),
            b64_char((b[2] % 64) as int),
        ] + base64_standard(b.skip(3))
    }
}

/// `base64::engine::general_purpose::STANDARD.encode`. Claimed: the standard
/// base64 encoding, with padding, of the input.
#[verifier::external_body]
fn base64_encode(input: &[u8]) -> (r: String)
    ensures
        r@ == base64_standard(input@),
{
    base64::engine::general_purpose::STANDARD.encode(input)
}

proof fn lemma_b64_char_valid(i: int)
    requires
        0 <= i < 64,
    ensures
        header_value_char(b64_char(i)),
{
}

proof fn lemma_base64_valid(b: Seq<u8>)
    ensures
        header_value_valid(base64_standard(b)),
    decreases b.len(),
{
    if b.len() >= 3 {
        lemma_base64_valid(b.skip(3));
        lemma_b64_char_valid((b[0] / 4) as int);
        lemma_b64_char_valid((b[0] % 4) * 16 + b[1] / 16);
        lemma_b64_char_valid((b[1] % 16) * 4 + b[2] / 64);
        lemma_b64_char_valid((b[2] % 64) as int);
        let head = seq![
            b64_char((b[0] / 4) as int),
            b64_char((b[0] % 4) * 16 + b[1] / 16),
            b64_char((b[1] % 16) * 4 + b[2] / 64),
            b64_char((b[2] % 64) as int),
        ];
        let all = head + base64_standard(b.skip(3));
        assert forall|i: int| 0 <= i < all.len() implies header_value_char(#[trigger] all[i]) by {
            if i >= 4 {
                assert(all[i] == base64_standard(b.skip(3))[i - 4]);
            }
        }
    } else if b.len() == 2 {
        lemma_b64_char_valid((b[0] / 4) as int);
        lemma_b64_char_valid((b[0] % 4) * 16 + b[1] / 16);
        lemma_b64_char_valid((b[1] % 16) * 4);
    } else if b.len() == 1 {
        lemma_b64_char_valid((b[0] / 4) as int);
        lemma_b64_char_valid((b[0] % 4) * 16);
    }
}

/// The name under which authentication headers are written.
pub open spec fn authorization_name() -> Seq<char> {
    "authorization"@
}

proof fn lemma_authorization_name()
    ensures
        header_name_valid("authorization"@),
        lowercase("authorization"@) == "authorization"@,
{
    reveal_strlit("authorization");
    assert(lowercase("authorization"@) =~= "authorization"@);
}

/// Writes `value` under `name` into `headers`, provided the value is a valid
/// header value; otherwise reports the value as invalid and leaves the headers
/// alone.
fn insert_checked(headers: &mut HeaderMap<HeaderValue>, name: &str, value: &str) -> (r: Result<(), Error>)
    requires
        header_name_valid(name@),
        header_entries(*old(headers)).len() < MAX_HEADER_ENTRIES,
    ensures
        r is Ok <==> header_value_valid(value@),
        r is Ok ==> header_entries(*final(headers)) == insert_entry(
            header_entries(*old(headers)),
            lowercase(name@),
            value@,
        ),
        r is Err ==> (r matches Err(Error::Other(_)) && header_entries(*final(headers))
            == header_entries(*old(headers))),
{
    match parse_header_value(value) {
        Ok(v) => {
            header_map_insert(headers, name, v.as_str());
            Ok(())
        },
        Err(msg) => Err(Error::Other(msg)),
    }
}

/// Bearer authentication with a fixed token.
#[derive(Clone, Debug)]
pub struct BearerAuth {
    token: String,
}

impl BearerAuth {
    pub closed spec fn spec_token(&self) -> Seq<char> {
        self.token@
    }

    /// The header value: `Bearer ` and the token.
    pub open spec fn spec_value(&self) -> Seq<char> {
        "Bearer "@ + self.spec_token()
    }

    /// Authentication with the given token.
    pub fn new(token: &str) -> (r: Self)
        ensures
            r.spec_token() == token@,
    {
        BearerAuth { token: token.to_owned() }
    }

    /// The `Authorization` value: `Bearer ` and the token.
    pub fn header_value(&self) -> (r: String)
        ensures
            r@ == self.spec_value(),
    {
        let mut v = chars_of("Bearer ");
        extend_str(&mut v, self.token.as_str());
        string_from_chars(&v)
    }

    /// Sets the `authorization` header of `headers`; fails, changing nothing,
    /// when the token makes an invalid header value.
    pub fn apply(&self, headers: &mut HeaderMap<HeaderValue>) -> (r: Result<(), Error>)
        requires
            header_entries(*old(headers)).len() < MAX_HEADER_ENTRIES,
        ensures
            r is Ok <==> header_value_valid(self.spec_value()),
            r is Ok ==> header_entries(*final(headers)) == insert_entry(
                header_entries(*old(headers)),
                authorization_name(),
                self.spec_value(),
            ),
            r is Err ==> (r matches Err(Error::Other(_)) && header_entries(*final(headers))
                == header_entries(*old(headers))),
    {
        let value = self.header_value();
        proof {
            lemma_authorization_name();
        }
        insert_checked(headers, "authorization", value.as_str())
    }
}

/// Basic authentication with a user name and a password.
#[derive(Clone, Debug)]
pub struct BasicAuth {
    username: String,
    password: String,
}

impl BasicAuth {
    pub closed spec fn spec_username(&self) -> Seq<char> {
        self.username@
    }

    pub closed spec fn spec_password(&self) -> Seq<char> {
        self.password@
    }

    /// The header value: `Basic ` and the base64 of the UTF-8 of `user:password`.
    pub open spec fn spec_value(&self) -> Seq<char> {
        "Basic "@ + base64_standard(
            vstd::utf8::encode_utf8(self.spec_username() + ":"@ + self.spec_password()),
        )
    }

    /// Authentication with the given user name and password.
    pub fn new(username: &str, password: &str) -> (r: Self)
        ensures
            r.spec_username() == username@,
            r.spec_password() == password@,
    {
        BasicAuth { username: username.to_owned(), password: password.to_owned() }
    }

    /// The `Authorization` value: `Basic ` and the base64 of `user:password`.
    pub fn header_value(&self) -> (r: String)
        ensures
            r@ == self.spec_value(),
    {
        let mut v = chars_of(self.username.as_str());
        extend_str(&mut v, ":");
        extend_str(&mut v, self.password.as_str());
        let credentials = string_from_chars(&v);
        let encoded = base64_encode(credentials.as_str().as_bytes());
        let mut out = chars_of("Basic ");
        extend_str(&mut out, encoded.as_str());
        string_from_chars(&out)
    }

    /// Sets the `authorization` header of `headers`. This never fails: base64
    /// text is always a valid header value.
    pub fn apply(&self, headers: &mut HeaderMap<HeaderValue>) -> (r: Result<(), Error>)
        requires
            header_entries(*old(headers)).len() < MAX_HEADER_ENTRIES,
        ensures
            r is Ok,
            header_entries(*final(headers)) == insert_entry(
                header_entries(*old(headers)),
                authorization_name(),
                self.spec_value(),
            ),
    {
        let value = self.header_value();
        proof {
            lemma_authorization_name();
            law_basic_value_valid(self.spec_username(), self.spec_password());
        }
        insert_checked(headers, "authorization", value.as_str())
    }
}

/// The value of basic authentication is always a valid header value, whatever
/// the user name and password.
pub proof fn law_basic_value_valid(username: Seq<char>, password: Seq<char>)
    ensures
        header_value_valid(
            "Basic "@ + base64_standard(vstd::utf8::encode_utf8(username + ":"@ + password)),
        ),
{
    reveal_strlit("Basic ");
    let b = base64_standard(vstd::utf8::encode_utf8(username + ":"@ + password));
    lemma_base64_valid(vstd::utf8::encode_utf8(username + ":"@ + password));
    let all = "Basic "@ + b;
    assert forall|i: int| 0 <= i < all.len() implies header_value_char(#[trigger] all[i]) by {
        if i >= 6 {
            assert(all[i] == b[i - 6]);
        }
    }
}

/// A token as a token provider returns it.
pub trait TokenLike {
    /// The access token.
    fn access_token(&self) -> &str;

    /// The refresh token, if the provider gave one; none unless the token
    /// type says otherwise.
    fn refresh_token(&self) -> (r: Option<&str>)
        default_ensures
            r is None,
    {
        None
    }

    /// How many seconds the access token stays valid; an hour unless the
    /// token type says otherwise.
    fn expires_in_secs(&self) -> (r: u64)
        default_ensures
            r == 3600,
    {
        3600
    }
}

/// A token and its lifetime.
#[derive(Clone, Debug)]
pub struct TokenResponse {
    pub access_token: String,
    pub expires_in_secs: u64,
}

impl TokenLike for TokenResponse {
    /// The access token held.
    fn access_token(&self) -> (r: &str)
        ensures
            r@ == self.access_token@,
    {
        self.access_token.as_str()
    }

    /// The lifetime held.
    fn expires_in_secs(&self) -> (r: u64)
        ensures
            r == self.expires_in_secs,
    {
        self.expires_in_secs
    }
}

/// How much earlier than announced a token is treated as expired, in seconds.
pub const EXPIRY_MARGIN_SECS: u64 = 30;

/// What to do to obtain a token.
#[derive(Clone, Debug)]
pub enum TokenStep {
    /// Use this cached token.
    UseCached(String),
    /// Ask the provider to refresh with this refresh token.
    Refresh(String),
    /// Ask the provider for a new token.
    Fetch,
}

/// The token of dynamic authentication and when it expires. Times are
/// nanoseconds on a monotonic clock, no later than `Duration::MAX`.
#[derive(Clone, Debug)]
pub struct TokenCache {
    token: String,
    refresh_token: Option<String>,
    expires_at: u128,
}

impl TokenCache {
    pub closed spec fn spec_token(&self) -> Seq<char> {
        self.token@
    }

    pub closed spec fn spec_refresh_token(&self) -> Option<Seq<char>> {
        match self.refresh_token {
            Some(r) => Some(r@),
            None => None,
        }
    }

    pub closed spec fn spec_expires_at(&self) -> u128 {
        self.expires_at
    }

    /// Whether the cached token may be used at time `now`.
    pub open spec fn spec_usable(&self, now: u128) -> bool {
        self.spec_token().len() > 0 && now < self.spec_expires_at()
    }

    /// An empty cache, created at time `now`.
    pub fn new(now: u128) -> (r: Self)
        ensures
            r.spec_token().len() == 0,
            r.spec_refresh_token() is None,
            r.spec_expires_at() == now,
    {
        TokenCache { token: String::new(), refresh_token: None, expires_at: now }
    }

    /// What to do at time `now`: use the cached token while it is set and has
    /// not expired; otherwise refresh when a refresh token is held, else fetch.
    pub fn next_step(&self, now: u128) -> (r: TokenStep)
        ensures
            self.spec_usable(now) ==> (r matches TokenStep::UseCached(t) && t@ == self.spec_token()),
            !self.spec_usable(now) && self.spec_refresh_token() is Some ==> (r matches TokenStep::Refresh(
                t,
            ) && Some(t@) == self.spec_refresh_token()),
            !self.spec_usable(now) && self.spec_refresh_token() is None ==> r is Fetch,
    {
        if !self.token.as_str().is_empty() && now < self.expires_at {
            TokenStep::UseCached(self.token.clone())
        } else {
            match &self.refresh_token {
                Some(rt) => TokenStep::Refresh(rt.clone()),
                None => TokenStep::Fetch,
            }
        }
    }

    /// The time at which a token obtained at `now` and valid for `expires_in_secs`
    /// seconds is treated as expired: 30 seconds early, never before `now`.
    pub open spec fn spec_expiry(now: u128, expires_in_secs: u64) -> int {
        now + (if expires_in_secs > EXPIRY_MARGIN_SECS {
            expires_in_secs - EXPIRY_MARGIN_SECS
        } else {
            0
        }) * NANOS_PER_SEC
    }

    /// Stores a token obtained at time `now`.
    pub fn store(&mut self, token: &str, refresh_token: Option<&str>, expires_in_secs: u64, now: u128)
        requires
            now <= DURATION_MAX_NANOS,
        ensures
            final(self).spec_token() == token@,
            final(self).spec_refresh_token() == match refresh_token {
                Some(r) => Some(r@),
                None => None::<Seq<char>>,
            },
            final(self).spec_expires_at() == Self::spec_expiry(now, expires_in_secs),
    {
        let secs = expires_in_secs.saturating_sub(EXPIRY_MARGIN_SECS);
        assert((secs as u128) * NANOS_PER_SEC <= 18446744073709551615u128 * NANOS_PER_SEC)
            by (nonlinear_arith)
            requires
                secs <= 18446744073709551615u64,
        ;
        self.token = token.to_owned();
        self.refresh_token = match refresh_token {
            Some(r) => Some(r.to_owned()),
            None => None,
        };
        self.expires_at = now + (secs as u128) * NANOS_PER_SEC;
    }
}

/// A token is served from the cache from the moment it is stored until 30
/// seconds before its announced expiry (immediately refreshed when it lives 30
/// seconds or less), and only when it is not empty.
pub proof fn law_cached_token_lifetime(c: TokenCache, now: u128, expires_in_secs: u64, later: u128)
    requires
        c.spec_expires_at() == TokenCache::spec_expiry(now, expires_in_secs),
        later >= now,
    ensures
        c.spec_usable(later) <==> (c.spec_token().len() > 0 && later < now + (if expires_in_secs
            > EXPIRY_MARGIN_SECS {
            expires_in_secs - EXPIRY_MARGIN_SECS
        } else {
            0
        }) * NANOS_PER_SEC),
        expires_in_secs <= EXPIRY_MARGIN_SECS ==> !c.spec_usable(later),
{
}

/// Authentication with tokens that a provider issues and refreshes; the header
/// name and the token type are configurable.
pub struct DynamicAuth<P> {
    provider: P,
    header_name: String,
    token_type: String,
}

impl<P> DynamicAuth<P> {
    pub closed spec fn spec_header_name(&self) -> Seq<char> {
        self.header_name@
    }

    pub closed spec fn spec_token_type(&self) -> Seq<char> {
        self.token_type@
    }

    pub closed spec fn spec_provider(&self) -> P {
        self.provider
    }

    /// Dynamic authentication through `provider`, writing `Authorization: Bearer <token>`.
    pub fn new(provider: P) -> (r: Self)
        ensures
            r.spec_header_name() == "Authorization"@,
            r.spec_token_type() == "Bearer"@,
            r.spec_provider() == provider,
    {
        DynamicAuth {
            provider,
            header_name: "Authorization".to_owned(),
            token_type: "Bearer".to_owned(),
        }
    }

    /// The same authentication, writing the token under another header name.
    pub fn header_name(self, name: &str) -> (r: Self)
        ensures
            r.spec_header_name() == name@,
            r.spec_token_type() == self.spec_token_type(),
            r.spec_provider() == self.spec_provider(),
    {
        DynamicAuth { header_name: name.to_owned(), ..self }
    }

    /// The same authentication with another token type (empty: the bare token).
    pub fn token_type(self, t: &str) -> (r: Self)
        ensures
            r.spec_header_name() == self.spec_header_name(),
            r.spec_token_type() == t@,
            r.spec_provider() == self.spec_provider(),
    {
        DynamicAuth { token_type: t.to_owned(), ..self }
    }

    /// The token provider.
    pub fn provider(&self) -> (p: &P)
        ensures
            *p == self.spec_provider(),
    {
        &self.provider
    }

    /// The header value for `token`: the bare token when the token type is
    /// empty, else the type, a space and the token.
    pub open spec fn spec_value(&self, token: Seq<char>) -> Seq<char> {
        if self.spec_token_type().len() == 0 {
            token
        } else {
            self.spec_token_type() + " "@ + token
        }
    }

    /// The header name actually written: the configured name when HTTP allows
    /// it, else `authorization`.
    pub open spec fn spec_name(&self) -> Seq<char> {
        if header_name_valid(self.spec_header_name()) {
            lowercase(self.spec_header_name())
        } else {
            authorization_name()
        }
    }

    /// The header value for `token`.
    pub fn header_value(&self, token: &str) -> (r: String)
        ensures
            r@ == self.spec_value(token@),
    {
        if self.token_type.as_str().is_empty() {
            token.to_owned()
        } else {
            let mut v = chars_of(self.token_type.as_str());
            extend_str(&mut v, " ");
            extend_str(&mut v, token);
            string_from_chars(&v)
        }
    }

    /// Writes `token` into `headers`; fails, changing nothing, when it makes an
    /// invalid header value.
    pub fn apply(&self, token: &str, headers: &mut HeaderMap<HeaderValue>) -> (r: Result<(), Error>)
        requires
            header_entries(*old(headers)).len() < MAX_HEADER_ENTRIES,
        ensures
            r is Ok <==> header_value_valid(self.spec_value(token@)),
            r is Ok ==> header_entries(*final(headers)) == insert_entry(
                header_entries(*old(headers)),
                self.spec_name(),
                self.spec_value(token@),
            ),
            r is Err ==> (r matches Err(Error::Other(_)) && header_entries(*final(headers))
                == header_entries(*old(headers))),
    {
        let value = self.header_value(token);
        match parse_header_name(self.header_name.as_str()) {
            Some(name) => {
                proof {
                    lemma_lowercase_valid(self.header_name@);
                }
                insert_checked(headers, name.as_str(), value.as_str())
            },
            None => {
                proof {
                    lemma_authorization_name();
                }
                insert_checked(headers, "authorization", value.as_str())
            },
        }
    }
}

} // verus!
