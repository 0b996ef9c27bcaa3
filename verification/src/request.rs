//! The request that the imperative API builds: method, path, headers, query
//! parameters and body, and the URL and cURL command line made from them.
use vstd::prelude::*;

use http::{HeaderMap, HeaderValue};

use crate::headers::{
    header_entries, header_map_insert, header_map_new, header_map_pairs, header_name_valid,
    header_value_valid, insert_entry, law_lookup_after_insert, lemma_insert_entry_len,
    lemma_lowercase_valid, lookup, lowercase,
    pairs_view, parse_header_name, parse_header_value, HeaderPair, MAX_HEADER_ENTRIES,
};
use crate::text::{
    chars_of, extend_chars, extend_str, find_char, lemma_find_char_bounds, lemma_find_char_none,
    lemma_find_char_some, split_chars, split_on, split_once, split_once_chars, string_from_chars,
};

verus! {

/// `String::from_utf8_lossy`: the text that `bytes` encode, with U+FFFD in place
/// of each invalid sequence.
pub uninterp spec fn utf8_lossy(bytes: Seq<u8>) -> Seq<char>;

/// `String::from_utf8_lossy`. Claimed: its result is `utf8_lossy` of the input,
/// and valid UTF-8 is decoded unchanged.
#[verifier::external_body]
pub fn text_from_bytes(bytes: &[u8]) -> (r: String)
    ensures
        r@ == utf8_lossy(bytes@),
        vstd::utf8::valid_utf8(bytes@) ==> r@ == vstd::utf8::decode_utf8(bytes@),
{
    String::from_utf8_lossy(bytes).into_owned()
}

/// `k=v` pairs joined by `&`.
pub open spec fn join_pairs(q: Seq<HeaderPair>) -> Seq<char>
    decreases q.len(),
{
    if q.len() == 0 {
        seq![]
    } else if q.len() == 1 {
        q[0].0 + seq!['='] + q[0].1
    } else {
        join_pairs(q.drop_last()) + seq!['&'] + q.last().0 + seq!['='] + q.last().1
    }
}

/// The URL of a request: base, path, then `?` and the query when there is one.
pub open spec fn spec_url(base: Seq<char>, path: Seq<char>, q: Seq<HeaderPair>) -> Seq<char> {
    if q.len() == 0 {
        base + path
    } else {
        base + path + seq!['?'] + join_pairs(q)
    }
}

/// The query pairs that an encoded query string holds: its `&`-separated pieces
/// that contain `=`, cut at the first `=`.
pub open spec fn encoded_pairs(parts: Seq<Seq<char>>) -> Seq<HeaderPair>
    decreases parts.len(),
{
    if parts.len() == 0 {
        seq![]
    } else {
        let rest = encoded_pairs(parts.skip(1));
        match split_once(parts[0], '=') {
            Some(kv) => seq![kv] + rest,
            None => rest,
        }
    }
}

/// A header written with `header`: inserted when both name and value are valid,
/// ignored otherwise.
pub open spec fn apply_header(s: Seq<HeaderPair>, name: Seq<char>, value: Seq<char>) -> Seq<
    HeaderPair,
> {
    if header_name_valid(name) && header_value_valid(value) {
        insert_entry(s, lowercase(name), value)
    } else {
        s
    }
}

/// Several headers written one after another, in order.
pub open spec fn apply_headers(s: Seq<HeaderPair>, ps: Seq<HeaderPair>) -> Seq<HeaderPair>
    decreases ps.len(),
{
    if ps.len() == 0 {
        s
    } else {
        apply_header(apply_headers(s, ps.drop_last()), ps.last().0, ps.last().1)
    }
}

/// The `-H` arguments of a cURL command, one per header.
pub open spec fn curl_header_args(hs: Seq<HeaderPair>) -> Seq<char>
    decreases hs.len(),
{
    if hs.len() == 0 {
        seq![]
    } else {
        curl_header_args(hs.drop_last()) + " -H '"@ + hs.last().0 + ": "@ + hs.last().1 + "'"@
    }
}

/// A cURL command line that sends the request.
pub open spec fn spec_curl(
    method: Seq<char>,
    url: Seq<char>,
    hs: Seq<HeaderPair>,
    body: Seq<u8>,
) -> Seq<char> {
    "curl -X "@ + method + " '"@ + url + "'"@ + curl_header_args(hs) + if body.len() == 0 {
        Seq::<char>::empty()
    } else {
        " -d '"@ + utf8_lossy(body) + "'"@
    }
}

/// A request under construction.
pub struct RequestBuilder {
    method: String,
    path: String,
    headers: HeaderMap<HeaderValue>,
    query: Vec<(String, String)>,
    body: Vec<u8>,
}

impl RequestBuilder {
    pub closed spec fn spec_method(&self) -> Seq<char> {
        self.method@
    }

    pub closed spec fn spec_path(&self) -> Seq<char> {
        self.path@
    }

    pub closed spec fn spec_headers(&self) -> Seq<HeaderPair> {
        header_entries(self.headers)
    }

    pub closed spec fn spec_query(&self) -> Seq<HeaderPair> {
        pairs_view(self.query@)
    }

    pub closed spec fn spec_body(&self) -> Seq<u8> {
        self.body@
    }

    /// A request with the given method and path, no headers, no query and an empty body.
    pub fn new(method: &str, path: &str) -> (r: Self)
        ensures
            r.spec_method() == method@,
            r.spec_path() == path@,
            r.spec_headers() == Seq::<HeaderPair>::empty(),
            r.spec_query() == Seq::<HeaderPair>::empty(),
            r.spec_body() == Seq::<u8>::empty(),
    {
        let r = RequestBuilder {
            method: method.to_owned(),
            path: path.to_owned(),
            headers: header_map_new(),
            query: Vec::new(),
            body: Vec::new(),
        };
        assert(pairs_view(r.query@) =~= Seq::<HeaderPair>::empty());
        r
    }

    /// Sets a header; a name or value that HTTP does not allow leaves the
    /// headers as they were.
    pub fn header(self, name: &str, value: &str) -> (r: Self)
        requires
            self.spec_headers().len() < MAX_HEADER_ENTRIES,
        ensures
            r.spec_headers() == apply_header(self.spec_headers(), name@, value@),
            r.spec_method() == self.spec_method(),
            r.spec_path() == self.spec_path(),
            r.spec_query() == self.spec_query(),
            r.spec_body() == self.spec_body(),
    {
        let mut this = self;
        let n = parse_header_name(name);
        let v = parse_header_value(value);
        match (n, v) {
            (Some(n), Ok(v)) => {
                proof {
                    lemma_lowercase_valid(name@);
                }
                header_map_insert(&mut this.headers, n.as_str(), v.as_str());
            },
            _ => {},
        }
        this
    }

    /// Sets every header of `pairs`, in order, as `header` does.
    pub fn headers_map(self, pairs: &Vec<(String, String)>) -> (r: Self)
        requires
            self.spec_headers().len() + pairs@.len() < MAX_HEADER_ENTRIES,
        ensures
            r.spec_headers() == apply_headers(self.spec_headers(), pairs_view(pairs@)),
            r.spec_method() == self.spec_method(),
            r.spec_path() == self.spec_path(),
            r.spec_query() == self.spec_query(),
            r.spec_body() == self.spec_body(),
    {
        let ghost h0 = self.spec_headers();
        let mut this = self;
        let mut i: usize = 0;
        while i < pairs.len()
            invariant
                i <= pairs@.len(),
                h0.len() + pairs@.len() < MAX_HEADER_ENTRIES,
                this.spec_headers() == apply_headers(h0, pairs_view(pairs@).take(i as int)),
                this.spec_headers().len() <= h0.len() + i,
                this.spec_method() == self.spec_method(),
                this.spec_path() == self.spec_path(),
                this.spec_query() == self.spec_query(),
                this.spec_body() == self.spec_body(),
            decreases pairs.len() - i,
        {
            let ghost before = this.spec_headers();
            this = this.header(pairs[i].0.as_str(), pairs[i].1.as_str());
            proof {
                let ps = pairs_view(pairs@).take(i + 1);
                assert(ps.drop_last() =~= pairs_view(pairs@).take(i as int));
                assert(ps.last() == (pairs@[i as int].0@, pairs@[i as int].1@));
                lemma_insert_entry_len(before, lowercase(pairs@[i as int].0@), pairs@[i as int].1@);
            }
            i += 1;
        }
        assert(pairs_view(pairs@).take(pairs@.len() as int) =~= pairs_view(pairs@));
        this
    }

    /// Adds a query parameter after those already there.
    pub fn query_pair(self, key: &str, value: &str) -> (r: Self)
        ensures
            r.spec_query() == self.spec_query().push((key@, value@)),
            r.spec_method() == self.spec_method(),
            r.spec_path() == self.spec_path(),
            r.spec_headers() == self.spec_headers(),
            r.spec_body() == self.spec_body(),
    {
        let mut this = self;
        let ghost q0 = this.query@;
        this.query.push((key.to_owned(), value.to_owned()));
        assert(pairs_view(this.query@) =~= pairs_view(q0).push((key@, value@)));
        this
    }

    /// Adds the parameters of an already encoded query string (`a=1&b=2`): each
    /// `&`-separated piece that holds `=` becomes one parameter, cut at its first `=`.
    pub fn query_encoded(self, encoded: &str) -> (r: Self)
        ensures
            r.spec_query() == self.spec_query() + encoded_pairs(split_on(encoded@, '&')),
            r.spec_method() == self.spec_method(),
            r.spec_path() == self.spec_path(),
            r.spec_headers() == self.spec_headers(),
            r.spec_body() == self.spec_body(),
    {
        let mut this = self;
        let chars = chars_of(encoded);
        let parts = split_chars(&chars, '&');
        let ghost pv = parts@.map_values(|p: Vec<char>| p@);
        let ghost q0 = pairs_view(this.query@);
        let mut i: usize = 0;
        assert(pv.skip(0) =~= pv);
        while i < parts.len()
            invariant
                i <= parts@.len(),
                pv == parts@.map_values(|p: Vec<char>| p@),
                pv == split_on(encoded@, '&'),
                pairs_view(this.query@) + encoded_pairs(pv.skip(i as int)) == q0 + encoded_pairs(
                    pv,
                ),
                this.spec_method() == self.spec_method(),
                this.spec_path() == self.spec_path(),
                this.spec_headers() == self.spec_headers(),
                this.spec_body() == self.spec_body(),
            decreases parts.len() - i,
        {
            let ghost before = pairs_view(this.query@);
            proof {
                assert(pv.skip(i as int)[0] == parts@[i as int]@);
                assert(pv.skip(i as int).skip(1) =~= pv.skip(i + 1));
            }
            match split_once_chars(&parts[i], '=') {
                Some((k, v)) => {
                    let ks = string_from_chars(&k);
                    let vs = string_from_chars(&v);
                    this.query.push((ks, vs));
                    proof {
                        assert(pairs_view(this.query@) =~= before.push((k@, v@)));
                        assert(before.push((k@, v@)) + encoded_pairs(pv.skip(i + 1)) =~= before
                            + (seq![(k@, v@)] + encoded_pairs(pv.skip(i + 1))));
                    }
                },
                None => {},
            }
            i += 1;
        }
        assert(pv.skip(parts@.len() as int) =~= Seq::<Seq<char>>::empty());
        assert(pv.skip(0) =~= pv);
        assert(pairs_view(this.query@) =~= q0 + encoded_pairs(pv));
        this
    }

    /// Replaces the body.
    pub fn body(self, body: Vec<u8>) -> (r: Self)
        ensures
            r.spec_body() == body@,
            r.spec_method() == self.spec_method(),
            r.spec_path() == self.spec_path(),
            r.spec_headers() == self.spec_headers(),
            r.spec_query() == self.spec_query(),
    {
        let mut this = self;
        this.body = body;
        this
    }

    /// Takes an encoded body and sets `content-type` to the encoder's content type
    /// (when that is a valid header value).
    pub fn json(self, encoded: Vec<u8>, content_type: &str) -> (r: Self)
        requires
            self.spec_headers().len() < MAX_HEADER_ENTRIES,
        ensures
            r.spec_body() == encoded@,
            r.spec_headers() == apply_header(self.spec_headers(), "content-type"@, content_type@),
            r.spec_method() == self.spec_method(),
            r.spec_path() == self.spec_path(),
            r.spec_query() == self.spec_query(),
    {
        let this = self.body(encoded);
        this.header("content-type", content_type)
    }

    /// The method.
    pub fn method(&self) -> (m: &str)
        ensures
            m@ == self.spec_method(),
    {
        self.method.as_str()
    }

    /// The path.
    pub fn path(&self) -> (p: &str)
        ensures
            p@ == self.spec_path(),
    {
        self.path.as_str()
    }

    /// The headers.
    pub fn headers(&self) -> (h: &HeaderMap<HeaderValue>)
        ensures
            header_entries(*h) == self.spec_headers(),
    {
        &self.headers
    }

    /// The query parameters, in the order they were added.
    pub fn query(&self) -> (q: &Vec<(String, String)>)
        ensures
            pairs_view(q@) == self.spec_query(),
    {
        &self.query
    }

    /// The body.
    pub fn body_bytes(&self) -> (b: &Vec<u8>)
        ensures
            b@ == self.spec_body(),
    {
        &self.body
    }

    /// Method, path, headers, query and body, moved out.
    pub fn into_parts(self) -> (r: (String, String, HeaderMap<HeaderValue>, Vec<(String, String)>, Vec<u8>))
        ensures
            r.0@ == self.spec_method(),
            r.1@ == self.spec_path(),
            header_entries(r.2) == self.spec_headers(),
            pairs_view(r.3@) == self.spec_query(),
            r.4@ == self.spec_body(),
    {
        (self.method, self.path, self.headers, self.query, self.body)
    }

    /// The URL of the request against `base`: `base`, the path, and the query
    /// (`?k=v&...`) when there is one.
    pub fn build_url(&self, base: &str) -> (u: String)
        ensures
            u@ == spec_url(base@, self.spec_path(), self.spec_query()),
    {
        let mut v: Vec<char> = Vec::new();
        extend_str(&mut v, base);
        extend_str(&mut v, self.path.as_str());
        if self.query.len() > 0 {
            v.push('?');
            let q = join_query(&self.query);
            extend_chars(&mut v, &q);
        }
        proof {
            if self.query@.len() == 0 {
                assert(v@ =~= base@ + self.path@);
            } else {
                assert(v@ =~= base@ + self.path@ + seq!['?'] + join_pairs(pairs_view(self.query@)));
            }
        }
        string_from_chars(&v)
    }

    /// A cURL command line that sends this request to `base`: the method, the
    /// quoted URL, one `-H 'name: value'` per header and `-d 'body'` when the
    /// body is not empty.
    pub fn to_curl(&self, base: &str) -> (c: String)
        ensures
            c@ == spec_curl(
                self.spec_method(),
                spec_url(base@, self.spec_path(), self.spec_query()),
                self.spec_headers(),
                self.spec_body(),
            ),
    {
        let url = self.build_url(base);
        let mut v: Vec<char> = Vec::new();
        extend_str(&mut v, "curl -X ");
        extend_str(&mut v, self.method.as_str());
        extend_str(&mut v, " '");
        extend_str(&mut v, url.as_str());
        extend_str(&mut v, "'");
        let ghost prefix = v@;
        let hs = header_map_pairs(&self.headers);
        let mut i: usize = 0;
        while i < hs.len()
            invariant
                i <= hs@.len(),
                v@ == prefix + curl_header_args(pairs_view(hs@).take(i as int)),
            decreases hs.len() - i,
        {
            let ghost before = v@;
            extend_str(&mut v, " -H '");
            extend_str(&mut v, hs[i].0.as_str());
            extend_str(&mut v, ": ");
            extend_str(&mut v, hs[i].1.as_str());
            extend_str(&mut v, "'");
            proof {
                let t = pairs_view(hs@).take(i + 1);
                assert(t.drop_last() =~= pairs_view(hs@).take(i as int));
                assert(t.last() == (hs@[i as int].0@, hs@[i as int].1@));
                assert(v@ =~= prefix + curl_header_args(t));
            }
            i += 1;
        }
        assert(pairs_view(hs@).take(hs@.len() as int) =~= pairs_view(hs@));
        if self.body.len() > 0 {
            let text = text_from_bytes(self.body.as_slice());
            extend_str(&mut v, " -d '");
            extend_str(&mut v, text.as_str());
            extend_str(&mut v, "'");
        }
        assert(v@ =~= spec_curl(
            self.spec_method(),
            spec_url(base@, self.spec_path(), self.spec_query()),
            self.spec_headers(),
            self.spec_body(),
        ));
        string_from_chars(&v)
    }
}

/// The pairs whose value is not empty, in order.
pub open spec fn nonempty_pairs(q: Seq<HeaderPair>) -> Seq<HeaderPair>
    decreases q.len(),
{
    if q.len() == 0 {
        seq![]
    } else if q.last().1.len() == 0 {
        nonempty_pairs(q.drop_last())
    } else {
        nonempty_pairs(q.drop_last()).push(q.last())
    }
}

/// `url` followed by `?` and the pairs with a non-empty value, when there are any.
pub open spec fn spec_url_with_query(url: Seq<char>, q: Seq<HeaderPair>) -> Seq<char> {
    if nonempty_pairs(q).len() == 0 {
        url
    } else {
        url + seq!['?'] + join_pairs(nonempty_pairs(q))
    }
}

/// Appends the query parameters of an endpoint call to its URL, leaving out
/// parameters whose value serialized to nothing.
pub fn url_with_query(url: &str, pairs: &Vec<(String, String)>) -> (r: String)
    ensures
        r@ == spec_url_with_query(url@, pairs_view(pairs@)),
{
    let mut kept: Vec<(String, String)> = Vec::new();
    let mut i: usize = 0;
    while i < pairs.len()
        invariant
            i <= pairs@.len(),
            pairs_view(kept@) == nonempty_pairs(pairs_view(pairs@).take(i as int)),
        decreases pairs.len() - i,
    {
        let ghost before = pairs_view(kept@);
        proof {
            let t = pairs_view(pairs@).take(i + 1);
            assert(t.drop_last() =~= pairs_view(pairs@).take(i as int));
            assert(t.last() == (pairs@[i as int].0@, pairs@[i as int].1@));
        }
        if !pairs[i].1.as_str().is_empty() {
            kept.push((pairs[i].0.clone(), pairs[i].1.clone()));
            assert(pairs_view(kept@) =~= before.push((pairs@[i as int].0@, pairs@[i as int].1@)));
        }
        i += 1;
    }
    assert(pairs_view(pairs@).take(pairs@.len() as int) =~= pairs_view(pairs@));
    let mut v = chars_of(url);
    if kept.len() > 0 {
        v.push('?');
        let q = join_query(&kept);
        extend_chars(&mut v, &q);
        assert(v@ =~= url@ + seq!['?'] + join_pairs(pairs_view(kept@)));
    }
    string_from_chars(&v)
}

/// `k=v` pairs joined by `&`.
pub fn join_query(q: &Vec<(String, String)>) -> (r: Vec<char>)
    ensures
        r@ == join_pairs(pairs_view(q@)),
{
    let mut v: Vec<char> = Vec::new();
    let mut i: usize = 0;
    while i < q.len()
        invariant
            i <= q@.len(),
            v@ == join_pairs(pairs_view(q@).take(i as int)),
        decreases q.len() - i,
    {
        if i > 0 {
            v.push('&');
        }
        extend_str(&mut v, q[i].0.as_str());
        v.push('=');
        extend_str(&mut v, q[i].1.as_str());
        proof {
            let t = pairs_view(q@).take(i + 1);
            assert(t.drop_last() =~= pairs_view(q@).take(i as int));
            assert(t.last() == (q@[i as int].0@, q@[i as int].1@));
            if i == 0 {
                assert(pairs_view(q@).take(0) =~= Seq::<HeaderPair>::empty());
                assert(t.len() == 1);
                assert(t[0] == t.last());
            }
            assert(v@ =~= join_pairs(t));
        }
        i += 1;
    }
    assert(pairs_view(q@).take(q@.len() as int) =~= pairs_view(q@));
    v
}

/// Whether `c` occurs nowhere in `s`.
pub open spec fn free_of(s: Seq<char>, c: char) -> bool {
    forall|i: int| 0 <= i < s.len() ==> s[i] != c
}

proof fn lemma_split_on_free(s: Seq<char>, c: char)
    requires
        free_of(s, c),
    ensures
        split_on(s, c) == seq![s],
{
    lemma_find_char_none(s, c);
}

proof fn lemma_split_on_concat(x: Seq<char>, c: char, y: Seq<char>)
    ensures
        split_on(x + seq![c] + y, c) == split_on(x, c) + split_on(y, c),
    decreases x.len(),
{
    let s = x + seq![c] + y;
    lemma_find_char_bounds(x, c);
    match find_char(x, c) {
        Some(i) => {
            assert(s[i] == c);
            assert forall|j: int| 0 <= j < i implies s[j] != c by {
                assert(s[j] == x[j]);
            }
            lemma_find_char_some(s, c, i);
            assert(s.take(i) =~= x.take(i));
            assert(s.skip(i + 1) =~= x.skip(i + 1) + seq![c] + y);
            lemma_split_on_concat(x.skip(i + 1), c, y);
            assert(split_on(x, c) == seq![x.take(i)] + split_on(x.skip(i + 1), c));
            assert(split_on(s, c) =~= split_on(x, c) + split_on(y, c));
        },
        None => {
            assert(s[x.len() as int] == c);
            assert forall|j: int| 0 <= j < x.len() implies s[j] != c by {
                assert(s[j] == x[j]);
            }
            lemma_find_char_some(s, c, x.len() as int);
            assert(s.take(x.len() as int) =~= x);
            assert(s.skip(x.len() as int + 1) =~= y);
            assert(split_on(x, c) == seq![x]);
        },
    }
}

proof fn lemma_encoded_pairs_concat(a: Seq<Seq<char>>, b: Seq<Seq<char>>)
    ensures
        encoded_pairs(a + b) == encoded_pairs(a) + encoded_pairs(b),
    decreases a.len(),
{
    if a.len() == 0 {
        assert(a + b =~= b);
    } else {
        assert((a + b)[0] == a[0]);
        assert((a + b).skip(1) =~= a.skip(1) + b);
        lemma_encoded_pairs_concat(a.skip(1), b);
    }
}

proof fn lemma_piece(k: Seq<char>, v: Seq<char>)
    requires
        free_of(k, '='),
    ensures
        split_once(k + seq!['='] + v, '=') == Some((k, v)),
        encoded_pairs(seq![k + seq!['='] + v]) == seq![(k, v)],
{
    let s = k + seq!['='] + v;
    assert(s[k.len() as int] == '=');
    assert forall|j: int| 0 <= j < k.len() implies s[j] != '=' by {
        assert(s[j] == k[j]);
    }
    lemma_find_char_some(s, '=', k.len() as int);
    assert(s.take(k.len() as int) =~= k);
    assert(s.skip(k.len() as int + 1) =~= v);
    let parts = seq![s];
    assert(parts.skip(1) =~= Seq::<Seq<char>>::empty());
    assert(encoded_pairs(parts.skip(1)) =~= Seq::<HeaderPair>::empty());
}

proof fn lemma_piece_free(k: Seq<char>, v: Seq<char>)
    requires
        free_of(k, '&'),
        free_of(v, '&'),
    ensures
        free_of(k + seq!['='] + v, '&'),
{
    let s = k + seq!['='] + v;
    assert forall|j: int| 0 <= j < s.len() implies s[j] != '&' by {
        if j < k.len() {
            assert(s[j] == k[j]);
        } else if j > k.len() {
            assert(s[j] == v[j - k.len() - 1]);
        }
    }
}

/// Query parameters written into a URL query string are read back unchanged,
/// in order, from that string, provided no name holds `=` or `&` and no value
/// holds `&`.
pub proof fn law_query_round_trip(q: Seq<HeaderPair>)
    requires
        forall|i: int|
            0 <= i < q.len() ==> free_of(#[trigger] q[i].0, '=') && free_of(q[i].0, '&')
                && free_of(q[i].1, '&'),
    ensures
        encoded_pairs(split_on(join_pairs(q), '&')) == q,
    decreases q.len(),
{
    if q.len() == 0 {
        assert(free_of(Seq::<char>::empty(), '&'));
        lemma_split_on_free(Seq::<char>::empty(), '&');
        let parts = seq![Seq::<char>::empty()];
        assert(parts.skip(1) =~= Seq::<Seq<char>>::empty());
        lemma_find_char_none(Seq::<char>::empty(), '=');
        assert(join_pairs(q) =~= Seq::<char>::empty());
        assert(split_once(parts[0], '=') is None);
        assert(encoded_pairs(parts) == encoded_pairs(parts.skip(1)));
        assert(encoded_pairs(parts) =~= q);
    } else if q.len() == 1 {
        let p = q[0];
        assert(free_of(p.0, '=') && free_of(p.0, '&') && free_of(p.1, '&'));
        lemma_piece_free(p.0, p.1);
        lemma_split_on_free(p.0 + seq!['='] + p.1, '&');
        lemma_piece(p.0, p.1);
        assert(q =~= seq![p]);
    } else {
        let init = q.drop_last();
        let p = q.last();
        assert(free_of(p.0, '=') && free_of(p.0, '&') && free_of(p.1, '&')) by {
            assert(q[q.len() - 1] == p);
        }
        assert forall|i: int|
            0 <= i < init.len() implies free_of(#[trigger] init[i].0, '=') && free_of(
                init[i].0,
                '&',
            ) && free_of(init[i].1, '&') by {
            assert(init[i] == q[i]);
        }
        law_query_round_trip(init);
        let piece = p.0 + seq!['='] + p.1;
        assert(join_pairs(q) =~= join_pairs(init) + seq!['&'] + piece);
        lemma_split_on_concat(join_pairs(init), '&', piece);
        lemma_piece_free(p.0, p.1);
        lemma_split_on_free(piece, '&');
        lemma_encoded_pairs_concat(split_on(join_pairs(init), '&'), seq![piece]);
        lemma_piece(p.0, p.1);
        assert(init.push(p) =~= q);
    }
}

/// Reading a header back after setting it gives the value set, under the name
/// in lower case; every other name reads as before; invalid names or values
/// change nothing.
pub proof fn law_header_read_after_write(
    s: Seq<HeaderPair>,
    name: Seq<char>,
    value: Seq<char>,
    other: Seq<char>,
)
    ensures
        header_name_valid(name) && header_value_valid(value) ==> lookup(
            apply_header(s, name, value),
            lowercase(name),
        ) == Some(value),
        other != lowercase(name) ==> lookup(apply_header(s, name, value), other) == lookup(
            s,
            other,
        ),
        !(header_name_valid(name) && header_value_valid(value)) ==> apply_header(s, name, value)
            == s,
{
    law_lookup_after_insert(s, lowercase(name), value, lowercase(name));
    law_lookup_after_insert(s, lowercase(name), value, other);
}

/// The cURL argument of one header: ` -H 'name: value'`.
pub open spec fn curl_header_arg(h: HeaderPair) -> Seq<char> {
    " -H '"@ + h.0 + ": "@ + h.1 + "'"@
}

proof fn lemma_curl_header_args_concat(a: Seq<HeaderPair>, b: Seq<HeaderPair>)
    ensures
        curl_header_args(a + b) == curl_header_args(a) + curl_header_args(b),
    decreases b.len(),
{
    if b.len() == 0 {
        assert(a + b =~= a);
        assert(curl_header_args(a) + Seq::<char>::empty() =~= curl_header_args(a));
    } else {
        lemma_curl_header_args_concat(a, b.drop_last());
        assert((a + b).drop_last() =~= a + b.drop_last());
        assert((a + b).last() == b.last());
        assert(curl_header_args(a + b) =~= curl_header_args(a) + curl_header_args(b));
    }
}

/// The cURL command writes every header, in order: with no headers and no
/// body it is `curl -X METHOD 'URL'`; one more header appends exactly its
/// ` -H 'name: value'` argument, so there is one such argument per header
/// entry; the header arguments of two lists of headers are those of the first
/// followed by those of the second; a non-empty body adds ` -d 'body'` last.
pub proof fn law_curl_arguments(
    method: Seq<char>,
    url: Seq<char>,
    hs: Seq<HeaderPair>,
    more: Seq<HeaderPair>,
    h: HeaderPair,
    body: Seq<u8>,
)
    ensures
        spec_curl(method, url, Seq::<HeaderPair>::empty(), Seq::<u8>::empty()) == "curl -X "@ + method
            + " '"@ + url + "'"@,
        spec_curl(method, url, hs.push(h), Seq::<u8>::empty()) == spec_curl(
            method,
            url,
            hs,
            Seq::<u8>::empty(),
        ) + curl_header_arg(h),
        curl_header_args(hs + more) == curl_header_args(hs) + curl_header_args(more),
        curl_header_args(seq![h]) == curl_header_arg(h),
        body.len() > 0 ==> spec_curl(method, url, hs, body) == spec_curl(
            method,
            url,
            hs,
            Seq::<u8>::empty(),
        ) + " -d '"@ + utf8_lossy(body) + "'"@,
{
    lemma_curl_header_args_concat(hs, more);
    let e = Seq::<char>::empty();
    assert(curl_header_args(Seq::<HeaderPair>::empty()) == e);
    assert(seq![h].drop_last() =~= Seq::<HeaderPair>::empty());
    assert(curl_header_args(seq![h]) =~= curl_header_arg(h));
    assert(hs.push(h).drop_last() =~= hs);
    let prefix = "curl -X "@ + method + " '"@ + url + "'"@;
    assert(spec_curl(method, url, Seq::<HeaderPair>::empty(), Seq::<u8>::empty()) =~= prefix);
    assert(spec_curl(method, url, hs.push(h), Seq::<u8>::empty()) =~= spec_curl(
        method,
        url,
        hs,
        Seq::<u8>::empty(),
    ) + curl_header_arg(h));
    assert(body.len() > 0 ==> spec_curl(method, url, hs, body) =~= spec_curl(
        method,
        url,
        hs,
        Seq::<u8>::empty(),
    ) + " -d '"@ + utf8_lossy(body) + "'"@);
}

} // verus!
