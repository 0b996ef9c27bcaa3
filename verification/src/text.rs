//! Character-level string helpers shared by the rest of the library.
//!
//! Text is handled as sequences of `char`; every helper states its result over
//! `Seq<char>` so that callers can reason about the strings they build.
use vstd::prelude::*;
use vstd::string::StrSliceExecFns;

verus! {

/// A class of characters that trimming and prefix-stripping operate on.
#[derive(Clone, Copy, PartialEq, Eq, Debug)]
pub enum CharClass {
    /// Characters with the Unicode `White_Space` property, as `char::is_whitespace` decides.
    Whitespace,
    /// Exactly the given character.
    Exactly(char),
}

/// Unicode `White_Space`: the characters `char::is_whitespace` accepts.
pub open spec fn is_unicode_whitespace(c: char) -> bool {
    let u = c as u32;
    ||| 0x09 <= u <= 0x0d
    ||| u == 0x20
    ||| u == 0x85
    ||| u == 0xa0
    ||| u == 0x1680
    ||| 0x2000 <= u <= 0x200a
    ||| u == 0x2028
    ||| u == 0x2029
    ||| u == 0x202f
    ||| u == 0x205f
    ||| u == 0x3000
}

impl CharClass {
    pub open spec fn holds(self, c: char) -> bool {
        match self {
            CharClass::Whitespace => is_unicode_whitespace(c),
            CharClass::Exactly(d) => c == d,
        }
    }

    pub fn test(&self, c: char) -> (r: bool)
        ensures
            r == self.holds(c),
    {
        match self {
            CharClass::Whitespace => {
                let u = c as u32;
                (0x09 <= u && u <= 0x0d) || u == 0x20 || u == 0x85 || u == 0xa0 || u == 0x1680
                    || (0x2000 <= u && u <= 0x200a) || u == 0x2028 || u == 0x2029 || u == 0x202f
                    || u == 0x205f || u == 0x3000
            },
            CharClass::Exactly(d) => c == *d,
        }
    }
}

/// `s` with every leading character of class `k` removed.
pub open spec fn trim_start(s: Seq<char>, k: CharClass) -> Seq<char>
    decreases s.len(),
{
    if s.len() > 0 && k.holds(s[0]) {
        trim_start(s.skip(1), k)
    } else {
        s
    }
}

/// `s` with every trailing character of class `k` removed.
pub open spec fn trim_end(s: Seq<char>, k: CharClass) -> Seq<char>
    decreases s.len(),
{
    if s.len() > 0 && k.holds(s.last()) {
        trim_end(s.drop_last(), k)
    } else {
        s
    }
}

/// `s` with the characters of class `k` removed from both ends
/// (`str::trim` for whitespace, `str::trim_matches` for one character).
pub open spec fn trim_both(s: Seq<char>, k: CharClass) -> Seq<char> {
    trim_end(trim_start(s, k), k)
}

/// Whitespace trimming, as `str::trim` does it.
pub open spec fn trim_ws(s: Seq<char>) -> Seq<char> {
    trim_both(s, CharClass::Whitespace)
}

proof fn lemma_trim_start_skip(s: Seq<char>, k: CharClass, i: int)
    requires
        0 <= i <= s.len(),
        forall|j: int| 0 <= j < i ==> k.holds(#[trigger] s[j]),
        i == s.len() || !k.holds(s[i]),
    ensures
        trim_start(s, k) == s.skip(i),
    decreases i,
{
    if i == 0 {
        assert(s.skip(0) =~= s);
    } else {
        let t = s.skip(1);
        assert forall|j: int| 0 <= j < i - 1 implies k.holds(#[trigger] t[j]) by {
            assert(t[j] == s[j + 1]);
        }
        if i - 1 < t.len() {
            assert(t[i - 1] == s[i]);
        }
        lemma_trim_start_skip(t, k, i - 1);
        assert(t.skip(i - 1) =~= s.skip(i));
    }
}

proof fn lemma_trim_end_take(s: Seq<char>, k: CharClass, e: int)
    requires
        0 <= e <= s.len(),
        forall|j: int| e <= j < s.len() ==> k.holds(#[trigger] s[j]),
        e == 0 || !k.holds(s[e - 1]),
    ensures
        trim_end(s, k) == s.take(e),
    decreases s.len() - e,
{
    if e == s.len() {
        assert(s.take(e) =~= s);
    } else {
        let t = s.drop_last();
        assert(k.holds(s[s.len() - 1]));
        assert forall|j: int| e <= j < t.len() implies k.holds(#[trigger] t[j]) by {
            assert(t[j] == s[j]);
        }
        if e > 0 {
            assert(t[e - 1] == s[e - 1]);
        }
        lemma_trim_end_take(t, k, e);
        assert(t.take(e) =~= s.take(e));
    }
}

/// The characters of a string slice, in order.
pub fn chars_of(s: &str) -> (r: Vec<char>)
    ensures
        r@ == s@,
{
    let n = s.unicode_len();
    let mut v: Vec<char> = Vec::new();
    let mut i: usize = 0;
    while i < n
        invariant
            n == s@.len(),
            i <= n,
            v@ == s@.subrange(0, i as int),
        decreases n - i,
    {
        let c = s.get_char(i);
        v.push(c);
        i += 1;
        assert(v@ =~= s@.subrange(0, i as int));
    }
    assert(v@ =~= s@);
    v
}

/// Appends one character to a `String` (`String::push`).
#[verifier::external_body]
pub fn push_char(s: &mut String, c: char)
    ensures
        final(s)@ == old(s)@.push(c),
{
    s.push(c);
}

/// Appends a run of characters to a `String`.
pub fn push_chars(s: &mut String, cs: &Vec<char>)
    ensures
        final(s)@ == old(s)@ + cs@,
{
    let mut i: usize = 0;
    while i < cs.len()
        invariant
            i <= cs@.len(),
            s@ == old(s)@ + cs@.subrange(0, i as int),
        decreases cs.len() - i,
    {
        push_char(s, cs[i]);
        i += 1;
        assert(s@ =~= old(s)@ + cs@.subrange(0, i as int));
    }
    assert(cs@.subrange(0, cs@.len() as int) =~= cs@);
}

/// A `String` holding exactly the given characters.
pub fn string_from_chars(cs: &Vec<char>) -> (r: String)
    ensures
        r@ == cs@,
{
    let mut s = String::new();
    push_chars(&mut s, cs);
    assert(s@ =~= cs@);
    s
}

/// Appends the characters of `t` to `v`.
pub fn extend_chars(v: &mut Vec<char>, t: &Vec<char>)
    ensures
        final(v)@ == old(v)@ + t@,
{
    let mut i: usize = 0;
    while i < t.len()
        invariant
            i <= t@.len(),
            v@ == old(v)@ + t@.subrange(0, i as int),
        decreases t.len() - i,
    {
        v.push(t[i]);
        i += 1;
        assert(v@ =~= old(v)@ + t@.subrange(0, i as int));
    }
    assert(t@.subrange(0, t@.len() as int) =~= t@);
}

/// Appends the characters of a string slice to `v`.
pub fn extend_str(v: &mut Vec<char>, s: &str)
    ensures
        final(v)@ == old(v)@ + s@,
{
    let cs = chars_of(s);
    extend_chars(v, &cs);
}

/// A copy of the characters `lo..hi` of `v`.
pub fn slice_chars(v: &Vec<char>, lo: usize, hi: usize) -> (r: Vec<char>)
    requires
        lo <= hi <= v@.len(),
    ensures
        r@ == v@.subrange(lo as int, hi as int),
{
    let mut r: Vec<char> = Vec::new();
    let mut i = lo;
    while i < hi
        invariant
            lo <= i <= hi,
            hi <= v@.len(),
            r@ == v@.subrange(lo as int, i as int),
        decreases hi - i,
    {
        r.push(v[i]);
        i += 1;
        assert(r@ =~= v@.subrange(lo as int, i as int));
    }
    r
}

/// Removes the characters of class `k` from both ends of `v`.
pub fn trim_chars(v: &Vec<char>, k: CharClass) -> (r: Vec<char>)
    ensures
        r@ == trim_both(v@, k),
{
    let n = v.len();
    let mut lo: usize = 0;
    while lo < n && k.test(v[lo])
        invariant
            n == v@.len(),
            lo <= n,
            forall|j: int| 0 <= j < lo ==> k.holds(#[trigger] v@[j]),
        decreases n - lo,
    {
        lo += 1;
    }
    proof {
        lemma_trim_start_skip(v@, k, lo as int);
    }
    let mut hi: usize = n;
    while hi > lo && k.test(v[hi - 1])
        invariant
            n == v@.len(),
            lo <= hi <= n,
            forall|j: int| hi <= j < n ==> k.holds(#[trigger] v@[j]),
        decreases hi,
    {
        hi -= 1;
    }
    proof {
        let t = v@.skip(lo as int);
        assert forall|j: int| hi - lo <= j < t.len() implies k.holds(#[trigger] t[j]) by {
            assert(t[j] == v@[j + lo]);
        }
        if hi > lo {
            assert(t[hi - lo - 1] == v@[hi - 1]);
        }
        lemma_trim_end_take(t, k, hi - lo);
        assert(t.take(hi - lo) =~= v@.subrange(lo as int, hi as int));
    }
    slice_chars(v, lo, hi)
}

/// Removes leading and trailing whitespace from a string (`str::trim`).
pub fn trim_string(s: &str) -> (r: String)
    ensures
        r@ == trim_ws(s@),
{
    let v = chars_of(s);
    let t = trim_chars(&v, CharClass::Whitespace);
    string_from_chars(&t)
}

/// Whether `pat` occurs in `s` starting at position `i`.
pub open spec fn occurs_at(s: Seq<char>, pat: Seq<char>, i: int) -> bool {
    0 <= i && i + pat.len() <= s.len() && s.subrange(i, i + pat.len()) == pat
}

/// Whether `pat` occurs at position `i` of `v`.
pub fn matches_at(v: &Vec<char>, pat: &Vec<char>, i: usize) -> (r: bool)
    ensures
        r == occurs_at(v@, pat@, i as int),
{
    if i > v.len() || pat.len() > v.len() - i {
        return false;
    }
    let n = v.len();
    let mut j: usize = 0;
    while j < pat.len()
        invariant
            n == v@.len(),
            i + pat@.len() <= v@.len(),
            i <= v@.len(),
            j <= pat@.len(),
            forall|t: int| 0 <= t < j ==> v@[i + t] == pat@[t],
        decreases pat.len() - j,
    {
        assert(i + j < v@.len());
        if v[i + j] != pat[j] {
            assert(v@.subrange(i as int, i + pat@.len())[j as int] != pat@[j as int]);
            return false;
        }
        j += 1;
    }
    assert(v@.subrange(i as int, i + pat@.len()) =~= pat@);
    true
}

/// Whether `v` equals `w` character for character.
pub fn chars_eq(v: &Vec<char>, w: &Vec<char>) -> (r: bool)
    ensures
        r == (v@ == w@),
{
    if v.len() != w.len() {
        return false;
    }
    let r = matches_at(v, w, 0);
    proof {
        if r {
            assert(v@.subrange(0, w@.len() as int) =~= v@);
        } else {
            assert(v@.subrange(0, w@.len() as int) =~= v@);
        }
    }
    r
}

/// Whether two string slices hold the same characters (`str == str`).
pub fn str_eq(a: &str, b: &str) -> (r: bool)
    ensures
        r == (a@ == b@),
{
    let va = chars_of(a);
    let vb = chars_of(b);
    chars_eq(&va, &vb)
}


/// The index of the first `c` in `s`, if any.
pub open spec fn find_char(s: Seq<char>, c: char) -> Option<int>
    decreases s.len(),
{
    if s.len() == 0 {
        None
    } else if s[0] == c {
        Some(0)
    } else {
        match find_char(s.skip(1), c) {
            Some(i) => Some(i + 1),
            None => None,
        }
    }
}

pub proof fn lemma_find_char_some(s: Seq<char>, c: char, k: int)
    requires
        0 <= k < s.len(),
        s[k] == c,
        forall|j: int| 0 <= j < k ==> s[j] != c,
    ensures
        find_char(s, c) == Some(k),
    decreases k,
{
    if k > 0 {
        let t = s.skip(1);
        assert forall|j: int| 0 <= j < k - 1 implies t[j] != c by {
            assert(t[j] == s[j + 1]);
        }
        lemma_find_char_some(t, c, k - 1);
    }
}

pub proof fn lemma_find_char_none(s: Seq<char>, c: char)
    requires
        forall|j: int| 0 <= j < s.len() ==> s[j] != c,
    ensures
        find_char(s, c) is None,
    decreases s.len(),
{
    if s.len() > 0 {
        let t = s.skip(1);
        assert forall|j: int| 0 <= j < t.len() implies t[j] != c by {
            assert(t[j] == s[j + 1]);
        }
        lemma_find_char_none(t, c);
    }
}

pub proof fn lemma_find_char_bounds(s: Seq<char>, c: char)
    ensures
        find_char(s, c) matches Some(k) ==> 0 <= k < s.len() && s[k] == c && forall|j: int|
            0 <= j < k ==> s[j] != c,
        find_char(s, c) is None ==> forall|j: int| 0 <= j < s.len() ==> s[j] != c,
    decreases s.len(),
{
    if s.len() > 0 && s[0] != c {
        let t = s.skip(1);
        lemma_find_char_bounds(t, c);
        assert forall|j: int| 1 <= j < s.len() implies s[j] == t[j - 1] by {}
    }
}

/// `s` cut at every `c` (`str::split` with a character pattern).
pub open spec fn split_on(s: Seq<char>, c: char) -> Seq<Seq<char>>
    decreases s.len(),
{
    match find_char(s, c) {
        Some(i) => if 0 <= i < s.len() {
            seq![s.take(i)] + split_on(s.skip(i + 1), c)
        } else {
            seq![s]
        },
        None => seq![s],
    }
}

/// `s` cut at its first `c` (`str::split_once` with a character pattern).
pub open spec fn split_once(s: Seq<char>, c: char) -> Option<(Seq<char>, Seq<char>)> {
    match find_char(s, c) {
        Some(i) => Some((s.take(i), s.skip(i + 1))),
        None => None,
    }
}

/// The index of the first `c` in `v`.
pub fn find_char_in(v: &Vec<char>, c: char, from: usize) -> (r: Option<usize>)
    requires
        from <= v@.len(),
    ensures
        match r {
            Some(i) => from <= i < v@.len() && find_char(v@.skip(from as int), c) == Some(
                i - from,
            ),
            None => find_char(v@.skip(from as int), c) is None,
        },
{
    let mut i = from;
    while i < v.len()
        invariant
            from <= i <= v@.len(),
            forall|j: int| from <= j < i ==> v@[j] != c,
        decreases v.len() - i,
    {
        if v[i] == c {
            proof {
                let t = v@.skip(from as int);
                assert forall|j: int| 0 <= j < i - from implies t[j] != c by {
                    assert(t[j] == v@[j + from]);
                }
                lemma_find_char_some(t, c, i - from);
            }
            return Some(i);
        }
        i += 1;
    }
    proof {
        let t = v@.skip(from as int);
        assert forall|j: int| 0 <= j < t.len() implies t[j] != c by {
            assert(t[j] == v@[j + from]);
        }
        lemma_find_char_none(t, c);
    }
    None
}

/// The pieces of `v` between occurrences of `c`.
pub fn split_chars(v: &Vec<char>, c: char) -> (r: Vec<Vec<char>>)
    ensures
        r@.map_values(|p: Vec<char>| p@) == split_on(v@, c),
{
    let mut parts: Vec<Vec<char>> = Vec::new();
    let mut start: usize = 0;
    let n = v.len();
    assert(v@.skip(0) =~= v@);
    assert(parts@.map_values(|p: Vec<char>| p@) =~= Seq::<Seq<char>>::empty());
    loop
        invariant
            n == v@.len(),
            start <= v@.len(),
            parts@.map_values(|p: Vec<char>| p@) + split_on(v@.skip(start as int), c) == split_on(
                v@,
                c,
            ),
        decreases v@.len() - start,
    {
        let found = find_char_in(v, c, start);
        match found {
            Some(i) => {
                let piece = slice_chars(v, start, i);
                proof {
                    let t = v@.skip(start as int);
                    assert(t.take(i - start) =~= v@.subrange(start as int, i as int));
                    assert(t.skip(i - start + 1) =~= v@.skip(i + 1));
                    assert(split_on(t, c) == seq![t.take(i - start)] + split_on(
                        t.skip(i - start + 1),
                        c,
                    ));
                }
                let ghost old_parts = parts@;
                parts.push(piece);
                proof {
                    assert(parts@.map_values(|p: Vec<char>| p@) =~= old_parts.map_values(
                        |p: Vec<char>| p@,
                    ).push(v@.subrange(start as int, i as int)));
                    assert(parts@.map_values(|p: Vec<char>| p@) + split_on(v@.skip(i + 1), c)
                        =~= old_parts.map_values(|p: Vec<char>| p@) + split_on(
                        v@.skip(start as int),
                        c,
                    ));
                }
                start = i + 1;
            },
            None => {
                let piece = slice_chars(v, start, v.len());
                let ghost old_parts = parts@;
                parts.push(piece);
                proof {
                    let t = v@.skip(start as int);
                    assert(t =~= v@.subrange(start as int, v@.len() as int));
                    assert(split_on(t, c) == seq![t]);
                    assert(parts@.map_values(|p: Vec<char>| p@) =~= old_parts.map_values(
                        |p: Vec<char>| p@,
                    ) + split_on(t, c));
                }
                return parts;
            },
        }
    }
}

/// `v` cut at its first `c`.
pub fn split_once_chars(v: &Vec<char>, c: char) -> (r: Option<(Vec<char>, Vec<char>)>)
    ensures
        match split_once(v@, c) {
            Some((a, b)) => r matches Some((x, y)) && x@ == a && y@ == b,
            None => r is None,
        },
{
    let n = v.len();
    match find_char_in(v, c, 0) {
        Some(i) => {
            assert(v@.skip(0) =~= v@);
            let a = slice_chars(v, 0, i);
            let b = slice_chars(v, i + 1, v.len());
            assert(a@ =~= v@.take(i as int));
            assert(b@ =~= v@.skip(i + 1));
            Some((a, b))
        },
        None => {
            assert(v@.skip(0) =~= v@);
            None
        },
    }
}

/// `s` without the prefix `p`, when `s` starts with it (`str::strip_prefix`).
pub open spec fn strip_prefix(s: Seq<char>, p: Seq<char>) -> Option<Seq<char>> {
    if p.len() <= s.len() && s.take(p.len() as int) == p {
        Some(s.skip(p.len() as int))
    } else {
        None
    }
}

/// `v` without the prefix `p`, when `v` starts with it.
pub fn strip_prefix_chars(v: &Vec<char>, p: &Vec<char>) -> (r: Option<Vec<char>>)
    ensures
        match strip_prefix(v@, p@) {
            Some(t) => r matches Some(x) && x@ == t,
            None => r is None,
        },
{
    if matches_at(v, p, 0) {
        assert(v@.subrange(0, p@.len() as int) =~= v@.take(p@.len() as int));
        let t = slice_chars(v, p.len(), v.len());
        assert(t@ =~= v@.skip(p@.len() as int));
        Some(t)
    } else {
        proof {
            if p@.len() <= v@.len() {
                assert(v@.subrange(0, p@.len() as int) =~= v@.take(p@.len() as int));
            }
        }
        None
    }
}

/// `s` with its leading characters of class `k` removed (`str::trim_start_matches`).
pub fn trim_start_chars(v: &Vec<char>, k: CharClass) -> (r: Vec<char>)
    ensures
        r@ == trim_start(v@, k),
{
    let n = v.len();
    let mut lo: usize = 0;
    while lo < n && k.test(v[lo])
        invariant
            n == v@.len(),
            lo <= n,
            forall|j: int| 0 <= j < lo ==> k.holds(#[trigger] v@[j]),
        decreases n - lo,
    {
        lo += 1;
    }
    proof {
        lemma_trim_start_skip(v@, k, lo as int);
    }
    let r = slice_chars(v, lo, n);
    assert(r@ =~= v@.skip(lo as int));
    r
}

/// The decimal digit character for `d`.
pub open spec fn digit_char(d: nat) -> char {
    if d == 0 { '0' }
    else if d == 1 { '1' }
    else if d == 2 { '2' }
    else if d == 3 { '3' }
    else if d == 4 { '4' }
    else if d == 5 { '5' }
    else if d == 6 { '6' }
    else if d == 7 { '7' }
    else if d == 8 { '8' }
    else { '9' }
}

/// The decimal representation of `n`, without leading zeros, as `Display` writes it.
pub open spec fn decimal(n: nat) -> Seq<char>
    decreases n,
{
    if n < 10 {
        seq![digit_char(n)]
    } else {
        decimal(n / 10).push(digit_char(n % 10))
    }
}

/// The decimal representation of a signed integer, with a leading `-` when negative.
pub open spec fn signed_decimal(i: int) -> Seq<char> {
    if i < 0 {
        seq!['-'] + decimal((-i) as nat)
    } else {
        decimal(i as nat)
    }
}

fn digit(d: u128) -> (c: char)
    requires
        d < 10,
    ensures
        c == digit_char(d as nat),
{
    if d == 0 { '0' }
    else if d == 1 { '1' }
    else if d == 2 { '2' }
    else if d == 3 { '3' }
    else if d == 4 { '4' }
    else if d == 5 { '5' }
    else if d == 6 { '6' }
    else if d == 7 { '7' }
    else if d == 8 { '8' }
    else { '9' }
}

/// The decimal digits of `n`.
pub fn decimal_chars(n: u128) -> (r: Vec<char>)
    ensures
        r@ == decimal(n as nat),
{
    let mut q = n;
    let mut acc: Vec<char> = Vec::new();
    while q >= 10
        invariant
            decimal(n as nat) == decimal(q as nat) + acc@,
        decreases q,
    {
        let d = digit(q % 10);
        acc.insert(0, d);
        proof {
            assert(decimal(q as nat) == decimal((q / 10) as nat).push(digit_char((q % 10) as nat)));
            assert(decimal((q / 10) as nat) + acc@ =~= decimal(q as nat) + acc@.skip(1));
        }
        q = q / 10;
    }
    let mut r: Vec<char> = Vec::new();
    r.push(digit(q));
    extend_chars(&mut r, &acc);
    assert(r@ =~= decimal(n as nat));
    r
}

/// The decimal digits of a signed integer, `-` first when it is negative.
pub fn signed_decimal_chars(i: i64) -> (r: Vec<char>)
    ensures
        r@ == signed_decimal(i as int),
{
    if i < 0 {
        let m: u128 = (0i128 - (i as i128)) as u128;
        let mut r: Vec<char> = Vec::new();
        r.push('-');
        let d = decimal_chars(m);
        extend_chars(&mut r, &d);
        r
    } else {
        decimal_chars(i as u128)
    }
}


/// Whether `c` is an ASCII decimal digit.
pub open spec fn is_digit(c: char) -> bool {
    '0' <= c && c <= '9'
}

/// The value of an ASCII decimal digit (0 for any other character).
pub open spec fn digit_value(c: char) -> nat {
    if is_digit(c) {
        (c as int - '0' as int) as nat
    } else {
        0
    }
}

/// The number that a string of decimal digits writes.
pub open spec fn digits_value(s: Seq<char>) -> nat
    decreases s.len(),
{
    if s.len() == 0 {
        0
    } else {
        digits_value(s.drop_last()) * 10 + digit_value(s.last())
    }
}

/// The number that `s` writes in decimal: one or more ASCII digits whose
/// value fits in a `u64`.
pub open spec fn spec_parse_u64(s: Seq<char>) -> Option<u64> {
    if s.len() > 0 && (forall|i: int| 0 <= i < s.len() ==> is_digit(#[trigger] s[i]))
        && digits_value(s) <= u64::MAX {
        Some(digits_value(s) as u64)
    } else {
        None
    }
}

proof fn lemma_digits_value_prefix(s: Seq<char>, k: int)
    requires
        0 <= k <= s.len(),
    ensures
        digits_value(s.take(k)) <= digits_value(s),
    decreases s.len(),
{
    if k < s.len() {
        assert(s.drop_last().take(k) =~= s.take(k));
        lemma_digits_value_prefix(s.drop_last(), k);
    } else {
        assert(s.take(k) =~= s);
    }
}

/// Reads a decimal `u64`: one or more ASCII digits, nothing else, no overflow.
pub fn parse_u64(v: &Vec<char>) -> (r: Option<u64>)
    ensures
        r == spec_parse_u64(v@),
{
    if v.len() == 0 {
        return None;
    }
    let mut acc: u64 = 0;
    let mut i: usize = 0;
    while i < v.len()
        invariant
            i <= v@.len(),
            v@.len() > 0,
            forall|j: int| 0 <= j < i ==> is_digit(#[trigger] v@[j]),
            acc == digits_value(v@.take(i as int)),
        decreases v.len() - i,
    {
        let c = v[i];
        if !('0' <= c && c <= '9') {
            assert(!is_digit(v@[i as int]));
            return None;
        }
        let d: u64 = ((c as u32) - ('0' as u32)) as u64;
        proof {
            assert(v@.take(i + 1).drop_last() =~= v@.take(i as int));
            assert(v@.take(i + 1).last() == c);
            assert(digits_value(v@.take(i + 1)) == acc * 10 + d);
        }
        match acc.checked_mul(10) {
            Some(m) => match m.checked_add(d) {
                Some(n) => {
                    acc = n;
                },
                None => {
                    proof {
                        lemma_digits_value_prefix(v@, i + 1);
                    }
                    return None;
                },
            },
            None => {
                proof {
                    lemma_digits_value_prefix(v@, i + 1);
                }
                return None;
            },
        }
        i += 1;
    }
    assert(v@.take(v@.len() as int) =~= v@);
    Some(acc)
}

} // verus!
