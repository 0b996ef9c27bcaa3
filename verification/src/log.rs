//! Request/response logging: the log levels and the lines logged at each.
use vstd::prelude::*;

use crate::text::{chars_of, decimal, decimal_chars, extend_chars, extend_str, string_from_chars};

verus! {

/// How much of each exchange is logged.
#[derive(Debug, Clone, Copy, PartialEq, Eq, PartialOrd, Ord, Hash)]
pub enum LogLevel {
    /// Nothing.
    Off,
    /// The request line and the response status.
    Basic,
    /// Also the headers.
    Headers,
    /// Also the request body.
    Full,
}

impl Default for LogLevel {
    fn default() -> (r: Self)
        ensures
            r == LogLevel::Off,
    {
        LogLevel::Off
    }
}

impl LogLevel {
    /// The position of the level in the order Off < Basic < Headers < Full.
    pub open spec fn spec_rank(self) -> nat {
        match self {
            LogLevel::Off => 0,
            LogLevel::Basic => 1,
            LogLevel::Headers => 2,
            LogLevel::Full => 3,
        }
    }

    /// The position of the level in the order Off < Basic < Headers < Full.
    pub fn rank(&self) -> (r: u8)
        ensures
            r == self.spec_rank(),
    {
        match self {
            LogLevel::Off => 0,
            LogLevel::Basic => 1,
            LogLevel::Headers => 2,
            LogLevel::Full => 3,
        }
    }

    /// Whether this level logs at least as much as `other`.
    pub fn at_least(&self, other: LogLevel) -> (r: bool)
        ensures
            r == (self.spec_rank() >= other.spec_rank()),
    {
        self.rank() >= other.rank()
    }
}

/// The levels are totally ordered by how much they log, `Off` least and
/// `Full` most.
pub proof fn law_log_levels_ordered(a: LogLevel, b: LogLevel, c: LogLevel)
    ensures
        a.spec_rank() >= b.spec_rank() || b.spec_rank() >= a.spec_rank(),
        a.spec_rank() >= b.spec_rank() && b.spec_rank() >= a.spec_rank() ==> a == b,
        a.spec_rank() >= b.spec_rank() && b.spec_rank() >= c.spec_rank() ==> a.spec_rank()
            >= c.spec_rank(),
        LogLevel::Off.spec_rank() <= a.spec_rank() <= LogLevel::Full.spec_rank(),
{
}

/// A header value as text when every byte is visible ASCII or tab
/// (`HeaderValue::to_str`).
pub open spec fn visible_text(v: Seq<u8>) -> Option<Seq<char>> {
    if forall|i: int| 0 <= i < v.len() ==> (32 <= #[trigger] v[i] < 127 || v[i] == 9) {
        Some(v.map_values(|b: u8| b as char))
    } else {
        None
    }
}

/// The log lines of a list of headers: `    name: value` for each value that is
/// visible text.
pub open spec fn header_lines(hs: Seq<(Seq<char>, Seq<u8>)>) -> Seq<Seq<char>>
    decreases hs.len(),
{
    if hs.len() == 0 {
        seq![]
    } else {
        let rest = header_lines(hs.drop_last());
        match visible_text(hs.last().1) {
            Some(t) => rest.push("    "@ + hs.last().0 + ": "@ + t),
            None => rest,
        }
    }
}

/// The plain view of headers handed over for logging.
pub open spec fn raw_headers_view(hs: Seq<(String, Vec<u8>)>) -> Seq<(Seq<char>, Seq<u8>)> {
    hs.map_values(|p: (String, Vec<u8>)| (p.0@, p.1@))
}

pub open spec fn lines_view(v: Seq<String>) -> Seq<Seq<char>> {
    v.map_values(|s: String| s@)
}

/// `std::str::from_utf8`. Claimed: it succeeds exactly on valid UTF-8 and then
/// gives the decoded text.
#[verifier::external_body]
fn utf8_text(bytes: &[u8]) -> (r: Option<String>)
    ensures
        r is Some <==> vstd::utf8::valid_utf8(bytes@),
        r matches Some(s) ==> s@ == vstd::utf8::decode_utf8(bytes@),
{
    std::str::from_utf8(bytes).ok().map(|s| s.to_string())
}

/// Logs requests and responses at a given level.
#[derive(Debug, Clone, Copy)]
pub struct LoggingMiddleware {
    level: LogLevel,
}

impl LoggingMiddleware {
    pub closed spec fn spec_level(&self) -> LogLevel {
        self.level
    }

    /// Logging at `level`.
    pub fn new(level: LogLevel) -> (r: Self)
        ensures
            r.spec_level() == level,
    {
        LoggingMiddleware { level }
    }

    /// The level.
    pub fn level(&self) -> (l: LogLevel)
        ensures
            l == self.spec_level(),
    {
        self.level
    }

    /// The lines logged for an outgoing request.
    pub open spec fn spec_request_lines(
        &self,
        method: Seq<char>,
        uri: Seq<char>,
        headers: Seq<(Seq<char>, Seq<u8>)>,
        body: Seq<u8>,
    ) -> Seq<Seq<char>> {
        let r = self.spec_level().spec_rank();
        let basic = if r >= 1 {
            seq!["--> "@ + method + " "@ + uri]
        } else {
            seq![]
        };
        let hs = if r >= 2 {
            header_lines(headers)
        } else {
            seq![]
        };
        let b = if r >= 3 && body.len() > 0 && vstd::utf8::valid_utf8(body) {
            seq!["    body: "@ + vstd::utf8::decode_utf8(body)]
        } else {
            seq![]
        };
        basic + hs + b
    }

    /// The lines logged for a response that arrived after `elapsed_ms` milliseconds.
    pub open spec fn spec_response_lines(
        &self,
        status: u16,
        uri: Seq<char>,
        elapsed_ms: u128,
        headers: Seq<(Seq<char>, Seq<u8>)>,
    ) -> Seq<Seq<char>> {
        let r = self.spec_level().spec_rank();
        let basic = if r >= 1 {
            seq![
                "<-- "@ + decimal(status as nat) + " "@ + uri + " ("@ + decimal(elapsed_ms as nat)
                    + "ms)"@,
            ]
        } else {
            seq![]
        };
        let hs = if r >= 2 {
            header_lines(headers)
        } else {
            seq![]
        };
        basic + hs
    }

    /// The lines logged for a request that failed after `elapsed_ms` milliseconds.
    pub open spec fn spec_error_lines(&self, uri: Seq<char>, elapsed_ms: u128, error: Seq<char>) -> Seq<
        Seq<char>,
    > {
        if self.spec_level().spec_rank() >= 1 {
            seq![
                "<-- ERROR "@ + uri + " ("@ + decimal(elapsed_ms as nat) + "ms): "@ + error,
            ]
        } else {
            seq![]
        }
    }

    /// The lines logged for an outgoing request.
    pub fn request_lines(
        &self,
        method: &str,
        uri: &str,
        headers: &Vec<(String, Vec<u8>)>,
        body: &Vec<u8>,
    ) -> (r: Vec<String>)
        ensures
            lines_view(r@) == self.spec_request_lines(
                method@,
                uri@,
                raw_headers_view(headers@),
                body@,
            ),
    {
        let mut out: Vec<String> = Vec::new();
        let ghost r = self.spec_level().spec_rank();
        let ghost basic = if r >= 1 {
            seq!["--> "@ + method@ + " "@ + uri@]
        } else {
            Seq::<Seq<char>>::empty()
        };
        let ghost hs = if r >= 2 {
            header_lines(raw_headers_view(headers@))
        } else {
            Seq::<Seq<char>>::empty()
        };
        if self.level.at_least(LogLevel::Basic) {
            let mut v = chars_of("--> ");
            extend_str(&mut v, method);
            extend_str(&mut v, " ");
            extend_str(&mut v, uri);
            out.push(string_from_chars(&v));
        }
        assert(lines_view(out@) =~= basic);
        if self.level.at_least(LogLevel::Headers) {
            push_header_lines(&mut out, headers);
        }
        assert(lines_view(out@) =~= basic + hs);
        let ghost mid = lines_view(out@);
        if self.level.at_least(LogLevel::Full) && body.len() > 0 {
            match utf8_text(body.as_slice()) {
                Some(text) => {
                    let mut v = chars_of("    body: ");
                    extend_str(&mut v, text.as_str());
                    out.push(string_from_chars(&v));
                    assert(lines_view(out@) =~= mid + seq![
                        "    body: "@ + vstd::utf8::decode_utf8(body@),
                    ]);
                },
                None => {},
            }
        }
        assert(lines_view(out@) =~= self.spec_request_lines(
            method@,
            uri@,
            raw_headers_view(headers@),
            body@,
        ));
        out
    }

    /// The lines logged for a response that arrived after `elapsed_ms` milliseconds.
    pub fn response_lines(
        &self,
        status: u16,
        uri: &str,
        elapsed_ms: u128,
        headers: &Vec<(String, Vec<u8>)>,
    ) -> (r: Vec<String>)
        ensures
            lines_view(r@) == self.spec_response_lines(
                status,
                uri@,
                elapsed_ms,
                raw_headers_view(headers@),
            ),
    {
        let mut out: Vec<String> = Vec::new();
        if self.level.at_least(LogLevel::Basic) {
            let mut v = chars_of("<-- ");
            let s = decimal_chars(status as u128);
            extend_chars(&mut v, &s);
            extend_str(&mut v, " ");
            extend_str(&mut v, uri);
            extend_str(&mut v, " (");
            let e = decimal_chars(elapsed_ms);
            extend_chars(&mut v, &e);
            extend_str(&mut v, "ms)");
            out.push(string_from_chars(&v));
        }
        if self.level.at_least(LogLevel::Headers) {
            push_header_lines(&mut out, headers);
        }
        assert(lines_view(out@) =~= self.spec_response_lines(
            status,
            uri@,
            elapsed_ms,
            raw_headers_view(headers@),
        ));
        out
    }

    /// The lines logged for a request that failed after `elapsed_ms` milliseconds
    /// with the error message `error`.
    pub fn error_lines(&self, uri: &str, elapsed_ms: u128, error: &str) -> (r: Vec<String>)
        ensures
            lines_view(r@) == self.spec_error_lines(uri@, elapsed_ms, error@),
    {
        let mut out: Vec<String> = Vec::new();
        if self.level.at_least(LogLevel::Basic) {
            let mut v = chars_of("<-- ERROR ");
            extend_str(&mut v, uri);
            extend_str(&mut v, " (");
            let e = decimal_chars(elapsed_ms);
            extend_chars(&mut v, &e);
            extend_str(&mut v, "ms): ");
            extend_str(&mut v, error);
            out.push(string_from_chars(&v));
        }
        assert(lines_view(out@) =~= self.spec_error_lines(uri@, elapsed_ms, error@));
        out
    }
}

/// Raising the log level only adds lines: what a lower level logs for a
/// request, a response or a failure, a higher level logs first, in the same
/// order; `Off` logs nothing.
pub proof fn law_log_lines_grow_with_level(
    low: LoggingMiddleware,
    high: LoggingMiddleware,
    method: Seq<char>,
    uri: Seq<char>,
    headers: Seq<(Seq<char>, Seq<u8>)>,
    body: Seq<u8>,
    status: u16,
    elapsed_ms: u128,
    error: Seq<char>,
)
    requires
        low.spec_level().spec_rank() <= high.spec_level().spec_rank(),
    ensures
        low.spec_request_lines(method, uri, headers, body).is_prefix_of(
            high.spec_request_lines(method, uri, headers, body),
        ),
        low.spec_response_lines(status, uri, elapsed_ms, headers).is_prefix_of(
            high.spec_response_lines(status, uri, elapsed_ms, headers),
        ),
        low.spec_error_lines(uri, elapsed_ms, error).is_prefix_of(
            high.spec_error_lines(uri, elapsed_ms, error),
        ),
        low.spec_level() == LogLevel::Off ==> low.spec_request_lines(method, uri, headers, body).len()
            == 0 && low.spec_response_lines(status, uri, elapsed_ms, headers).len() == 0
            && low.spec_error_lines(uri, elapsed_ms, error).len() == 0,
{
    let lo = low.spec_request_lines(method, uri, headers, body);
    let hi = high.spec_request_lines(method, uri, headers, body);
    assert(lo =~= hi.subrange(0, lo.len() as int));
    let lo = low.spec_response_lines(status, uri, elapsed_ms, headers);
    let hi = high.spec_response_lines(status, uri, elapsed_ms, headers);
    assert(lo =~= hi.subrange(0, lo.len() as int));
    let lo = low.spec_error_lines(uri, elapsed_ms, error);
    let hi = high.spec_error_lines(uri, elapsed_ms, error);
    assert(lo =~= hi.subrange(0, lo.len() as int));
}

/// The log line of one header: `    name: value`.
pub open spec fn header_line(name: Seq<char>, value: Seq<char>) -> Seq<char> {
    "    "@ + name + ": "@ + value
}

/// Headers whose values are all visible text are logged one line each, in
/// order; a header whose value is not visible text adds no line.
pub proof fn law_header_lines(hs: Seq<(Seq<char>, Seq<u8>)>)
    ensures
        header_lines(hs).len() <= hs.len(),
        (forall|i: int| 0 <= i < hs.len() ==> (#[trigger] visible_text(hs[i].1)) is Some) ==> {
            &&& header_lines(hs).len() == hs.len()
            &&& forall|i: int|
                0 <= i < hs.len() ==> #[trigger] header_lines(hs)[i] == header_line(
                    hs[i].0,
                    visible_text(hs[i].1)->0,
                )
        },
        (forall|i: int| 0 <= i < hs.len() ==> (#[trigger] visible_text(hs[i].1)) is None)
            ==> header_lines(hs).len() == 0,
    decreases hs.len(),
{
    if hs.len() > 0 {
        let init = hs.drop_last();
        law_header_lines(init);
        if forall|i: int| 0 <= i < hs.len() ==> (#[trigger] visible_text(hs[i].1)) is Some {
            assert forall|i: int| 0 <= i < init.len() implies (#[trigger] visible_text(init[i].1)) is Some by {
                assert(init[i] == hs[i]);
            }
            assert(visible_text(hs[hs.len() - 1].1) is Some);
            assert forall|i: int| 0 <= i < hs.len() implies #[trigger] header_lines(hs)[i] == header_line(
                hs[i].0,
                visible_text(hs[i].1)->0,
            ) by {
                if i < init.len() {
                    assert(init[i] == hs[i]);
                    assert(header_lines(hs)[i] == header_lines(init)[i]);
                }
            }
        }
        if forall|i: int| 0 <= i < hs.len() ==> (#[trigger] visible_text(hs[i].1)) is None {
            assert forall|i: int| 0 <= i < init.len() implies (#[trigger] visible_text(init[i].1)) is None by {
                assert(init[i] == hs[i]);
            }
            assert(visible_text(hs[hs.len() - 1].1) is None);
        }
    }
}

/// What each level logs. For a response: `Off` nothing; `Basic` the status
/// line `<-- status uri (elapsed ms)` alone; `Headers` and `Full` the status
/// line followed by the header lines. For a request: `Off` nothing; `Basic` the
/// request line `--> method uri` alone; `Headers` adds the header lines; `Full`
/// adds after them the body line when the body is non-empty UTF-8 text. A
/// failure logs the error line at every level but `Off`.
pub proof fn law_lines_per_level(
    m: LoggingMiddleware,
    method: Seq<char>,
    uri: Seq<char>,
    headers: Seq<(Seq<char>, Seq<u8>)>,
    body: Seq<u8>,
    status: u16,
    elapsed_ms: u128,
    error: Seq<char>,
)
    ensures
        ({
            let status_line = "<-- "@ + decimal(status as nat) + " "@ + uri + " ("@ + decimal(
                elapsed_ms as nat,
            ) + "ms)"@;
            let request_line = "--> "@ + method + " "@ + uri;
            let resp = m.spec_response_lines(status, uri, elapsed_ms, headers);
            let req = m.spec_request_lines(method, uri, headers, body);
            let err = m.spec_error_lines(uri, elapsed_ms, error);
            &&& m.spec_level() == LogLevel::Off ==> resp.len() == 0 && req.len() == 0 && err.len()
                == 0
            &&& m.spec_level() == LogLevel::Basic ==> resp == seq![status_line] && req
                == seq![request_line]
            &&& (m.spec_level() == LogLevel::Headers || m.spec_level() == LogLevel::Full) ==> resp
                == seq![status_line] + header_lines(headers)
            &&& m.spec_level() == LogLevel::Headers ==> req == seq![request_line] + header_lines(
                headers,
            )
            &&& m.spec_level() == LogLevel::Full ==> req == seq![request_line] + header_lines(headers)
                + (if body.len() > 0 && vstd::utf8::valid_utf8(body) {
                seq!["    body: "@ + vstd::utf8::decode_utf8(body)]
            } else {
                Seq::<Seq<char>>::empty()
            })
            &&& m.spec_level() != LogLevel::Off ==> err == seq![
                "<-- ERROR "@ + uri + " ("@ + decimal(elapsed_ms as nat) + "ms): "@ + error,
            ]
        }),
{
    let resp = m.spec_response_lines(status, uri, elapsed_ms, headers);
    let req = m.spec_request_lines(method, uri, headers, body);
    assert(Seq::<Seq<char>>::empty() + header_lines(headers) =~= header_lines(headers));
    assert(resp =~= resp);
    assert(req =~= req);
    if m.spec_level() == LogLevel::Basic {
        assert(resp =~= seq![resp[0]]);
        assert(req =~= seq![req[0]]);
    }
}

/// A header value as text, when all of its bytes are visible ASCII or tab.
pub fn visible_value_text(v: &Vec<u8>) -> (r: Option<String>)
    ensures
        match visible_text(v@) {
            Some(t) => r matches Some(s) && s@ == t,
            None => r is None,
        },
{
    let mut cs: Vec<char> = Vec::new();
    let mut i: usize = 0;
    while i < v.len()
        invariant
            i <= v@.len(),
            forall|j: int| 0 <= j < i ==> (32 <= #[trigger] v@[j] < 127 || v@[j] == 9),
            cs@ == v@.take(i as int).map_values(|b: u8| b as char),
        decreases v.len() - i,
    {
        let b = v[i];
        if !((32 <= b && b < 127) || b == 9) {
            return None;
        }
        cs.push(b as char);
        i += 1;
        assert(cs@ =~= v@.take(i as int).map_values(|b: u8| b as char));
    }
    assert(v@.take(v@.len() as int) =~= v@);
    Some(string_from_chars(&cs))
}

fn push_header_lines(out: &mut Vec<String>, headers: &Vec<(String, Vec<u8>)>)
    ensures
        lines_view(final(out)@) == lines_view(old(out)@) + header_lines(
            raw_headers_view(headers@),
        ),
{
    let ghost start = lines_view(out@);
    let mut i: usize = 0;
    assert(raw_headers_view(headers@).take(0) =~= Seq::<(Seq<char>, Seq<u8>)>::empty());
    assert(start + Seq::<Seq<char>>::empty() =~= start);
    while i < headers.len()
        invariant
            i <= headers@.len(),
            lines_view(out@) == start + header_lines(raw_headers_view(headers@).take(i as int)),
        decreases headers.len() - i,
    {
        let ghost before = lines_view(out@);
        proof {
            let t = raw_headers_view(headers@).take(i + 1);
            assert(t.drop_last() =~= raw_headers_view(headers@).take(i as int));
            assert(t.last() == (headers@[i as int].0@, headers@[i as int].1@));
        }
        match visible_value_text(&headers[i].1) {
            Some(text) => {
                let mut v = chars_of("    ");
                extend_str(&mut v, headers[i].0.as_str());
                extend_str(&mut v, ": ");
                extend_str(&mut v, text.as_str());
                out.push(string_from_chars(&v));
                assert(lines_view(out@) =~= before.push(v@));
            },
            None => {},
        }
        i += 1;
    }
    assert(raw_headers_view(headers@).take(headers@.len() as int) =~= raw_headers_view(headers@));
}

} // verus!
