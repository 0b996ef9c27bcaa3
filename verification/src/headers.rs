//! HTTP header names, values and the header map of a request, as the `http`
//! crate defines them.
use vstd::prelude::*;

use http::{HeaderMap, HeaderValue};

verus! {

#[verifier::external_type_specification]
#[verifier::external_body]
#[verifier::reject_recursive_types(T)]
pub struct ExHeaderMap<T>(http::HeaderMap<T>);

#[verifier::external_type_specification]
#[verifier::external_body]
pub struct ExHeaderValue(http::HeaderValue);

/// A header as plain text: its (normalized) name and its value.
pub type HeaderPair = (Seq<char>, Seq<char>);

/// The entries of a `HeaderMap`, in the order in which its iterator yields them:
/// each name as its lower-case text, each value as the text its bytes encode.
pub uninterp spec fn header_entries(m: HeaderMap<HeaderValue>) -> Seq<HeaderPair>;

/// A bound on the entries of a `HeaderMap` below which inserting one more
/// cannot panic: growing the map fails only when its table would pass 32768
/// slots, which happens once at least a fifth of 32768 entries are stored
/// (the map doubles early when its probes grow long), so fewer than 6554
/// entries always leave room.
pub const MAX_HEADER_ENTRIES: usize = 6554;

/// A `tchar` of RFC 7230: the characters that may form a header name.
pub open spec fn is_tchar(c: char) -> bool {
    ||| 'a' <= c <= 'z'
    ||| 'A' <= c <= 'Z'
    ||| '0' <= c <= '9'
    ||| c == '!' || c == '#' || c == '$' || c == '%' || c == '&' || c == '\'' || c == '*'
    ||| c == '+' || c == '-' || c == '.' || c == '^' || c == '_' || c == '`' || c == '|'
    ||| c == '~'
}

/// What `HeaderName::try_from(&str)` accepts: one to 65535 `tchar`s.
pub open spec fn header_name_valid(s: Seq<char>) -> bool {
    &&& 1 <= s.len() <= 65535
    &&& forall|i: int| 0 <= i < s.len() ==> is_tchar(#[trigger] s[i])
}

/// ASCII lower-casing of one character.
pub open spec fn lower_char(c: char) -> char {
    if 'A' <= c <= 'Z' {
        ((c as u32) + 32) as char
    } else {
        c
    }
}

/// ASCII lower-casing of a string: the normalized form of a header name.
pub open spec fn lowercase(s: Seq<char>) -> Seq<char> {
    s.map_values(|c: char| lower_char(c))
}

/// A character that `HeaderValue::from_str` accepts: tab, or anything from
/// space upward except DEL (every byte of a non-ASCII character is above 127).
pub open spec fn header_value_char(c: char) -> bool {
    (c as u32 >= 32 && c as u32 != 127) || c == '\t'
}

/// What `HeaderValue::from_str` accepts.
pub open spec fn header_value_valid(s: Seq<char>) -> bool {
    forall|i: int| 0 <= i < s.len() ==> header_value_char(#[trigger] s[i])
}

/// `s` with every entry named `k` after the first removed, and the first one
/// holding `v`.
pub open spec fn replace_first(s: Seq<HeaderPair>, k: Seq<char>, v: Seq<char>) -> Seq<HeaderPair>
    decreases s.len(),
{
    if s.len() == 0 {
        s
    } else if s[0].0 == k {
        seq![(k, v)] + drop_name(s.skip(1), k)
    } else {
        seq![s[0]] + replace_first(s.skip(1), k, v)
    }
}

/// `s` without the entries named `k`.
pub open spec fn drop_name(s: Seq<HeaderPair>, k: Seq<char>) -> Seq<HeaderPair>
    decreases s.len(),
{
    if s.len() == 0 {
        s
    } else if s[0].0 == k {
        drop_name(s.skip(1), k)
    } else {
        seq![s[0]] + drop_name(s.skip(1), k)
    }
}

/// Whether some entry of `s` is named `k`.
pub open spec fn has_name(s: Seq<HeaderPair>, k: Seq<char>) -> bool {
    exists|i: int| 0 <= i < s.len() && #[trigger] s[i].0 == k
}

/// `HeaderMap::insert`: an existing name keeps its place, takes the new value
/// and loses its other values; a new name is added at the end.
pub open spec fn insert_entry(s: Seq<HeaderPair>, k: Seq<char>, v: Seq<char>) -> Seq<HeaderPair> {
    if has_name(s, k) {
        replace_first(s, k, v)
    } else {
        s.push((k, v))
    }
}

/// The value of the first entry named `k`, as `HeaderMap::get` returns it.
pub open spec fn lookup(s: Seq<HeaderPair>, k: Seq<char>) -> Option<Seq<char>>
    decreases s.len(),
{
    if s.len() == 0 {
        None
    } else if s[0].0 == k {
        Some(s[0].1)
    } else {
        lookup(s.skip(1), k)
    }
}

/// The plain-text view of a list of `(name, value)` strings.
pub open spec fn pairs_view(v: Seq<(String, String)>) -> Seq<HeaderPair> {
    v.map_values(|p: (String, String)| (p.0@, p.1@))
}

/// Normalizes a header name as `HeaderName::try_from(&str)` does, then takes its
/// text back with `HeaderName::as_str`. Claimed: it succeeds exactly on one to
/// 65535 `tchar`s, and the text is the input in ASCII lower case.
#[verifier::external_body]
pub fn parse_header_name(name: &str) -> (r: Option<String>)
    ensures
        r is Some <==> header_name_valid(name@),
        r matches Some(n) ==> n@ == lowercase(name@),
{
    http::HeaderName::try_from(name).ok().map(|n| n.as_str().to_string())
}

/// Checks a header value with `HeaderValue::from_str` and takes its bytes back as
/// text. Claimed: it succeeds exactly when every character is tab or at least a
/// space and not DEL, and then gives the input back unchanged. What the error
/// message says is not stated.
#[verifier::external_body]
pub fn parse_header_value(value: &str) -> (r: Result<String, String>)
    ensures
        r is Ok <==> header_value_valid(value@),
        r matches Ok(v) ==> v@ == value@,
{
    match http::HeaderValue::from_str(value) {
        Ok(v) => Ok(String::from_utf8_lossy(v.as_bytes()).into_owned()),
        Err(e) => Err(e.to_string()),
    }
}

/// `HeaderMap::new`. Claimed: the map has no entries.
#[verifier::external_body]
pub fn header_map_new() -> (m: HeaderMap<HeaderValue>)
    ensures
        header_entries(m) == Seq::<HeaderPair>::empty(),
{
    HeaderMap::new()
}

/// `HeaderMap::insert` of a name and a value given as text (both valid, so
/// their conversions succeed). Claimed: the entries change as `insert_entry`
/// says, the name taken in lower case.
#[verifier::external_body]
pub fn header_map_insert(m: &mut HeaderMap<HeaderValue>, name: &str, value: &str)
    requires
        header_name_valid(name@),
        header_value_valid(value@),
        header_entries(*old(m)).len() < MAX_HEADER_ENTRIES,
    ensures
        header_entries(*final(m)) == insert_entry(
            header_entries(*old(m)),
            lowercase(name@),
            value@,
        ),
{
    let n = http::HeaderName::try_from(name).expect("a valid header name");
    let v = HeaderValue::from_str(value).expect("a valid header value");
    m.insert(n, v);
}

/// `HeaderMap::len`. Claimed: the number of entries.
#[verifier::external_body]
pub fn header_map_len(m: &HeaderMap<HeaderValue>) -> (n: usize)
    ensures
        n == header_entries(*m).len(),
{
    m.len()
}

/// `HeaderMap::iter`, each name and value taken as text. Claimed: the entries,
/// in order.
#[verifier::external_body]
pub fn header_map_pairs(m: &HeaderMap<HeaderValue>) -> (r: Vec<(String, String)>)
    ensures
        pairs_view(r@) == header_entries(*m),
{
    m.iter().map(|(k, v)| (k.as_str().to_string(), String::from_utf8_lossy(v.as_bytes()).into_owned())).collect()
}

pub proof fn lemma_lowercase_valid(s: Seq<char>)
    requires
        header_name_valid(s),
    ensures
        header_name_valid(lowercase(s)),
        lowercase(lowercase(s)) == lowercase(s),
{
    assert forall|i: int| 0 <= i < lowercase(s).len() implies is_tchar(
        #[trigger] lowercase(s)[i],
    ) by {
        assert(is_tchar(s[i]));
    }
    assert(lowercase(lowercase(s)) =~= lowercase(s));
}

proof fn lemma_lookup_drop_name(s: Seq<HeaderPair>, k: Seq<char>, j: Seq<char>)
    ensures
        lookup(drop_name(s, k), j) == (if j == k {
            None
        } else {
            lookup(s, j)
        }),
    decreases s.len(),
{
    if s.len() > 0 {
        lemma_lookup_drop_name(s.skip(1), k, j);
        if s[0].0 != k {
            let d = seq![s[0]] + drop_name(s.skip(1), k);
            assert(d[0] == s[0]);
            assert(d.skip(1) =~= drop_name(s.skip(1), k));
        }
    }
}

proof fn lemma_lookup_replace_first(s: Seq<HeaderPair>, k: Seq<char>, v: Seq<char>, j: Seq<char>)
    requires
        has_name(s, k),
    ensures
        lookup(replace_first(s, k, v), j) == (if j == k {
            Some(v)
        } else {
            lookup(s, j)
        }),
    decreases s.len(),
{
    if s[0].0 == k {
        let d = seq![(k, v)] + drop_name(s.skip(1), k);
        assert(d[0] == (k, v));
        assert(d.skip(1) =~= drop_name(s.skip(1), k));
        lemma_lookup_drop_name(s.skip(1), k, j);
    } else {
        let i = choose|i: int| 0 <= i < s.len() && #[trigger] s[i].0 == k;
        assert(s.skip(1)[i - 1].0 == k);
        lemma_lookup_replace_first(s.skip(1), k, v, j);
        let d = seq![s[0]] + replace_first(s.skip(1), k, v);
        assert(d[0] == s[0]);
        assert(d.skip(1) =~= replace_first(s.skip(1), k, v));
    }
}

proof fn lemma_lookup_push(s: Seq<HeaderPair>, k: Seq<char>, v: Seq<char>, j: Seq<char>)
    requires
        !has_name(s, k),
    ensures
        lookup(s.push((k, v)), j) == (if j == k {
            Some(v)
        } else {
            lookup(s, j)
        }),
    decreases s.len(),
{
    if s.len() == 0 {
        assert(s.push((k, v))[0] == (k, v));
        assert(s.push((k, v)).skip(1) =~= Seq::<HeaderPair>::empty());
        assert(lookup(s.push((k, v)).skip(1), j) is None);
        assert(lookup(s, j) is None);
    } else {
        assert(s.push((k, v)).skip(1) =~= s.skip(1).push((k, v)));
        assert(s.push((k, v))[0] == s[0]);
        assert(s[0].0 != k);
        assert(!has_name(s.skip(1), k)) by {
            if has_name(s.skip(1), k) {
                let i = choose|i: int| 0 <= i < s.skip(1).len() && #[trigger] s.skip(1)[i].0 == k;
                assert(s[i + 1].0 == k);
            }
        }
        lemma_lookup_push(s.skip(1), k, v, j);
    }
}

/// Reading a header back gives what was last written under its name, and
/// writing one name leaves every other name as it was.
pub proof fn law_lookup_after_insert(s: Seq<HeaderPair>, k: Seq<char>, v: Seq<char>, j: Seq<char>)
    ensures
        lookup(insert_entry(s, k, v), j) == (if j == k {
            Some(v)
        } else {
            lookup(s, j)
        }),
{
    if has_name(s, k) {
        lemma_lookup_replace_first(s, k, v, j);
    } else {
        lemma_lookup_push(s, k, v, j);
    }
}

proof fn lemma_drop_name_len(s: Seq<HeaderPair>, k: Seq<char>)
    ensures
        drop_name(s, k).len() <= s.len(),
    decreases s.len(),
{
    if s.len() > 0 {
        lemma_drop_name_len(s.skip(1), k);
    }
}

proof fn lemma_replace_first_len(s: Seq<HeaderPair>, k: Seq<char>, v: Seq<char>)
    ensures
        replace_first(s, k, v).len() <= s.len(),
    decreases s.len(),
{
    if s.len() > 0 {
        if s[0].0 == k {
            lemma_drop_name_len(s.skip(1), k);
        } else {
            lemma_replace_first_len(s.skip(1), k, v);
        }
    }
}

/// Inserting adds at most one entry.
pub proof fn lemma_insert_entry_len(s: Seq<HeaderPair>, k: Seq<char>, v: Seq<char>)
    ensures
        insert_entry(s, k, v).len() <= s.len() + 1,
{
    if has_name(s, k) {
        lemma_replace_first_len(s, k, v);
    }
}

} // verus!
