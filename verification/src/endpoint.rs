//! How the declarative client attributes are read: the HTTP method of an
//! endpoint, the role of each parameter, the names and query formats given in
//! parameter attributes, the client's class-level headers, and the format
//! string that fills path variables.
//!
//! Attributes reach this module as plain text: the identifier of the
//! attribute's path (when the path is a single identifier) and the tokens of
//! its argument list (when it has one).
use vstd::prelude::*;

use crate::text::{
    chars_of, extend_chars, extend_str, matches_at, occurs_at, parse_u64, spec_parse_u64, split_chars, split_on, split_once, split_once_chars, str_eq,
    string_from_chars, strip_prefix, strip_prefix_chars, trim_both, trim_chars, trim_start,
    trim_start_chars, trim_ws, CharClass,
};

verus! {

/// The name of an attribute or of an HTTP method, as written in source.
#[derive(Clone, Copy, Debug)]
pub struct Symbol(pub &'static str);


impl Symbol {
    /// Whether the last segment of a path (given segment by segment) is this symbol.
    pub fn matches_last_segment(&self, segments: &Vec<String>) -> (r: bool)
        ensures
            r == (segments@.len() > 0 && segments@.last()@ == self.0@),
    {
        if segments.len() == 0 {
            return false;
        }
        str_eq(segments[segments.len() - 1].as_str(), self.0)
    }
}

/// Whether a type, given by the segments of its path, is written as
/// `Option<...>` (by its last segment): an optional field that is `None` is
/// left out of the query pairs.
pub fn is_option_type(segments: &Vec<String>) -> (r: bool)
    ensures
        r == (segments@.len() > 0 && segments@.last()@ == "Option"@),
{
    Symbol("Option").matches_last_segment(segments)
}

/// The HTTP method of an endpoint.
#[derive(Clone, Copy, Debug, PartialEq, Eq)]
pub enum HttpMethod {
    Get,
    Post,
    Put,
    Delete,
    Patch,
    Head,
}

/// The method that an attribute name selects.
pub open spec fn method_for_name(s: Seq<char>) -> Option<HttpMethod> {
    if s == "get"@ {
        Some(HttpMethod::Get)
    } else if s == "post"@ {
        Some(HttpMethod::Post)
    } else if s == "put"@ {
        Some(HttpMethod::Put)
    } else if s == "delete"@ {
        Some(HttpMethod::Delete)
    } else if s == "patch"@ {
        Some(HttpMethod::Patch)
    } else if s == "head"@ {
        Some(HttpMethod::Head)
    } else {
        None
    }
}

impl HttpMethod {
    /// The method's name on the wire.
    pub open spec fn spec_ident(self) -> Seq<char> {
        match self {
            HttpMethod::Get => "GET"@,
            HttpMethod::Post => "POST"@,
            HttpMethod::Put => "PUT"@,
            HttpMethod::Delete => "DELETE"@,
            HttpMethod::Patch => "PATCH"@,
            HttpMethod::Head => "HEAD"@,
        }
    }

    /// The attribute (and client method) name.
    pub open spec fn spec_method_name(self) -> Seq<char> {
        match self {
            HttpMethod::Get => "get"@,
            HttpMethod::Post => "post"@,
            HttpMethod::Put => "put"@,
            HttpMethod::Delete => "delete"@,
            HttpMethod::Patch => "patch"@,
            HttpMethod::Head => "head"@,
        }
    }

    /// The method named by an attribute symbol, if it names one.
    pub fn from_symbol(sym: Symbol) -> (r: Option<Self>)
        ensures
            r == method_for_name(sym.0@),
    {
        if str_eq(sym.0, "get") {
            Some(HttpMethod::Get)
        } else if str_eq(sym.0, "post") {
            Some(HttpMethod::Post)
        } else if str_eq(sym.0, "put") {
            Some(HttpMethod::Put)
        } else if str_eq(sym.0, "delete") {
            Some(HttpMethod::Delete)
        } else if str_eq(sym.0, "patch") {
            Some(HttpMethod::Patch)
        } else if str_eq(sym.0, "head") {
            Some(HttpMethod::Head)
        } else {
            None
        }
    }

    /// The method's name on the wire (`GET`, `POST`, ...).
    pub fn as_ident(&self) -> (r: &'static str)
        ensures
            r@ == self.spec_ident(),
    {
        match self {
            HttpMethod::Get => "GET",
            HttpMethod::Post => "POST",
            HttpMethod::Put => "PUT",
            HttpMethod::Delete => "DELETE",
            HttpMethod::Patch => "PATCH",
            HttpMethod::Head => "HEAD",
        }
    }

    /// The name of the client method that sends a request with this method
    /// (`get`, `post`, ...).
    pub fn method_name(&self) -> (r: &'static str)
        ensures
            r@ == self.spec_method_name(),
    {
        match self {
            HttpMethod::Get => "get",
            HttpMethod::Post => "post",
            HttpMethod::Put => "put",
            HttpMethod::Delete => "delete",
            HttpMethod::Patch => "patch",
            HttpMethod::Head => "head",
        }
    }
}

/// Each HTTP method is selected by its own attribute name, and its name on the
/// wire is that name in upper case.
pub proof fn law_method_names_round_trip(m: HttpMethod)
    ensures
        method_for_name(m.spec_method_name()) == Some(m),
        m.spec_ident().len() == m.spec_method_name().len(),
        forall|i: int|
            0 <= i < m.spec_ident().len() ==> (m.spec_ident()[i] as u32) + 32 == (
            #[trigger] m.spec_method_name()[i]) as u32,
{
    reveal_strlit("get");
    reveal_strlit("post");
    reveal_strlit("put");
    reveal_strlit("delete");
    reveal_strlit("patch");
    reveal_strlit("head");
    reveal_strlit("GET");
    reveal_strlit("POST");
    reveal_strlit("PUT");
    reveal_strlit("DELETE");
    reveal_strlit("PATCH");
    reveal_strlit("HEAD");
    assert("post"@ != "get"@ && "put"@ != "get"@ && "delete"@ != "get"@ && "patch"@ != "get"@
        && "head"@ != "get"@) by {
        assert("post"@.len() != "get"@.len());
        assert("put"@[1] != "get"@[1]);
        assert("delete"@.len() != "get"@.len());
        assert("patch"@.len() != "get"@.len());
        assert("head"@.len() != "get"@.len());
    }
    assert("put"@ != "post"@ && "delete"@ != "post"@ && "patch"@ != "post"@ && "head"@ != "post"@)
        by {
        assert("put"@.len() != "post"@.len());
        assert("delete"@.len() != "post"@.len());
        assert("patch"@.len() != "post"@.len());
        assert("head"@[0] != "post"@[0]);
    }
    assert("delete"@ != "put"@ && "patch"@ != "put"@ && "head"@ != "put"@) by {
        assert("delete"@.len() != "put"@.len());
        assert("patch"@.len() != "put"@.len());
        assert("head"@.len() != "put"@.len());
    }
    assert("patch"@ != "delete"@ && "head"@ != "delete"@) by {
        assert("patch"@.len() != "delete"@.len());
        assert("head"@.len() != "delete"@.len());
    }
    assert("head"@ != "patch"@) by {
        assert("head"@.len() != "patch"@.len());
    }
}

/// How a collection-valued query parameter is written.
#[derive(Clone, Copy, Debug, PartialEq, Eq)]
pub enum QueryFormat {
    /// The value as it serializes.
    Default,
    /// One `name=value` pair per element.
    Multi,
    /// One pair, the elements separated by commas.
    Csv,
}

impl Default for QueryFormat {
    fn default() -> (r: Self)
        ensures
            r == QueryFormat::Default,
    {
        QueryFormat::Default
    }
}

/// The role of an endpoint parameter.
#[derive(Clone, Debug)]
pub enum ParamKind {
    /// Fills the path variable `{name}`.
    Path { name: String },
    /// A query parameter, under `name` or the parameter's own name.
    Query { name: Option<String>, format: QueryFormat },
    /// The request body.
    Body,
    /// A header.
    Header { name: String },
    /// A map of headers.
    Headers,
    /// A field of a multipart body.
    Part { name: String },
    /// An argument object that supplies path, query, header and body values.
    Args,
}

/// A parameter role as plain text.
pub enum ParamKindView {
    Path { name: Seq<char> },
    Query { name: Option<Seq<char>>, format: QueryFormat },
    Body,
    Header { name: Seq<char> },
    Headers,
    Part { name: Seq<char> },
    Args,
}

impl View for ParamKind {
    type V = ParamKindView;

    open spec fn view(&self) -> ParamKindView {
        match self {
            ParamKind::Path { name } => ParamKindView::Path { name: name@ },
            ParamKind::Query { name, format } => ParamKindView::Query {
                name: match name {
                    Some(n) => Some(n@),
                    None => None,
                },
                format: *format,
            },
            ParamKind::Body => ParamKindView::Body,
            ParamKind::Header { name } => ParamKindView::Header { name: name@ },
            ParamKind::Headers => ParamKindView::Headers,
            ParamKind::Part { name } => ParamKindView::Part { name: name@ },
            ParamKind::Args => ParamKindView::Args,
        }
    }
}

/// An attribute of a parameter, as far as its role depends on it.
#[derive(Clone, Debug)]
pub struct AttrInfo {
    /// The attribute's path, when that path is a single identifier.
    pub ident: Option<String>,
    /// The tokens of the attribute's argument list, when it has one.
    pub tokens: Option<String>,
}

pub open spec fn opt_view(o: Option<String>) -> Option<Seq<char>> {
    match o {
        Some(s) => Some(s@),
        None => None,
    }
}

/// The value that an argument list of the form `name = "..."` assigns to
/// `name`, if it has that form.
pub open spec fn name_assignment(t: Seq<char>) -> Option<Seq<char>> {
    match strip_prefix(trim_ws(t), "name"@) {
        Some(rest) => if trim_ws(rest).len() > 0 && trim_ws(rest)[0] == '=' {
            Some(assigned_value(rest))
        } else {
            None
        },
        None => None,
    }
}

/// The name given as an attribute argument: the assigned value of
/// `name = "..."`, or else the bare argument with surrounding whitespace and
/// then surrounding quotes removed; none when nothing is left.
pub open spec fn name_arg(tokens: Option<Seq<char>>) -> Option<Seq<char>> {
    match tokens {
        Some(t) => {
            let s = match name_assignment(t) {
                Some(v) => v,
                None => trim_both(trim_ws(t), CharClass::Exactly('"')),
            };
            if s.len() == 0 {
                None
            } else {
                Some(s)
            }
        },
        None => None,
    }
}

/// `s` with surrounding whitespace, then leading `=`, then surrounding
/// whitespace, then surrounding quotes removed: the value of `key = "value"`.
pub open spec fn assigned_value(s: Seq<char>) -> Seq<char> {
    trim_both(trim_ws(trim_start(trim_ws(s), CharClass::Exactly('='))), CharClass::Exactly('"'))
}

/// The query format that a `format` value names.
pub open spec fn format_named(s: Seq<char>) -> QueryFormat {
    if s == "multi"@ {
        QueryFormat::Multi
    } else if s == "csv"@ {
        QueryFormat::Csv
    } else {
        QueryFormat::Default
    }
}

/// One comma-separated piece of a `#[query(...)]` argument list, applied to the
/// name and format read so far.
pub open spec fn query_arg_step(acc: (Option<Seq<char>>, QueryFormat), piece: Seq<char>) -> (
    Option<Seq<char>>,
    QueryFormat,
) {
    let part = trim_ws(piece);
    match strip_prefix(part, "name"@) {
        Some(rest) => {
            let val = assigned_value(rest);
            if val.len() == 0 {
                acc
            } else {
                (Some(val), acc.1)
            }
        },
        None => match strip_prefix(part, "format"@) {
            Some(rest) => (acc.0, format_named(assigned_value(rest))),
            None => {
                let val = trim_both(part, CharClass::Exactly('"'));
                if val.len() == 0 {
                    acc
                } else {
                    (Some(val), acc.1)
                }
            },
        },
    }
}

/// The pieces of a `#[query(...)]` argument list, applied in order.
pub open spec fn query_args_fold(pieces: Seq<Seq<char>>) -> (Option<Seq<char>>, QueryFormat)
    decreases pieces.len(),
{
    if pieces.len() == 0 {
        (None, QueryFormat::Default)
    } else {
        query_arg_step(query_args_fold(pieces.drop_last()), pieces.last())
    }
}

/// The name and format of a `#[query(...)]` attribute.
pub open spec fn spec_query_args(tokens: Option<Seq<char>>) -> (Option<Seq<char>>, QueryFormat) {
    match tokens {
        Some(t) => query_args_fold(split_on(t, ',')),
        None => (None, QueryFormat::Default),
    }
}

/// The role that one attribute gives a parameter called `ident`, if it gives one.
pub open spec fn kind_of_attr(ident: Option<Seq<char>>, tokens: Option<Seq<char>>, param: Seq<char>) -> Option<
    ParamKindView,
> {
    let named = match name_arg(tokens) {
        Some(n) => n,
        None => param,
    };
    match ident {
        Some(id) => if id == "path"@ {
            Some(ParamKindView::Path { name: named })
        } else if id == "query"@ {
            let qa = spec_query_args(tokens);
            Some(ParamKindView::Query { name: qa.0, format: qa.1 })
        } else if id == "body"@ {
            Some(ParamKindView::Body)
        } else if id == "header"@ {
            Some(ParamKindView::Header { name: named })
        } else if id == "headers"@ {
            Some(ParamKindView::Headers)
        } else if id == "part"@ {
            Some(ParamKindView::Part { name: named })
        } else if id == "args"@ {
            Some(ParamKindView::Args)
        } else {
            None
        },
        None => None,
    }
}

/// The role of a parameter: given by its first attribute that names a role; a
/// parameter without one is the body.
pub open spec fn spec_resolve_kind(attrs: Seq<AttrInfo>, param: Seq<char>) -> ParamKindView
    decreases attrs.len(),
{
    if attrs.len() == 0 {
        ParamKindView::Body
    } else {
        match kind_of_attr(opt_view(attrs[0].ident), opt_view(attrs[0].tokens), param) {
            Some(k) => k,
            None => spec_resolve_kind(attrs.skip(1), param),
        }
    }
}

/// The query format that the `format` pieces of an argument list give: the
/// named format of the last piece that starts with `format` (after
/// whitespace), or `Default` when no piece does.
pub open spec fn last_format(pieces: Seq<Seq<char>>) -> QueryFormat
    decreases pieces.len(),
{
    if pieces.len() == 0 {
        QueryFormat::Default
    } else {
        match strip_prefix(trim_ws(pieces.last()), "format"@) {
            Some(rest) => format_named(assigned_value(rest)),
            None => last_format(pieces.drop_last()),
        }
    }
}

proof fn lemma_name_not_format(part: Seq<char>)
    ensures
        strip_prefix(part, "name"@) is Some ==> strip_prefix(part, "format"@) is None,
{
    reveal_strlit("name");
    reveal_strlit("format");
    if strip_prefix(part, "name"@) is Some && strip_prefix(part, "format"@) is Some {
        assert(part.take(4)[0] == part[0]);
        assert(part.take(6)[0] == part[0]);
        assert("name"@[0] != "format"@[0]);
    }
}

proof fn lemma_query_fold_format(pieces: Seq<Seq<char>>)
    ensures
        query_args_fold(pieces).1 == last_format(pieces),
    decreases pieces.len(),
{
    if pieces.len() > 0 {
        lemma_query_fold_format(pieces.drop_last());
        lemma_name_not_format(trim_ws(pieces.last()));
    }
}

/// The query name that the pieces of an argument list give: the last piece
/// that names one, either `name = "..."` with a non-empty value or a bare
/// non-empty (unquoted) name; a `format` piece names none.
pub open spec fn last_name(pieces: Seq<Seq<char>>) -> Option<Seq<char>>
    decreases pieces.len(),
{
    if pieces.len() == 0 {
        None
    } else {
        let part = trim_ws(pieces.last());
        let here = match strip_prefix(part, "name"@) {
            Some(rest) => if assigned_value(rest).len() > 0 {
                Some(assigned_value(rest))
            } else {
                None
            },
            None => match strip_prefix(part, "format"@) {
                Some(_) => None,
                None => if trim_both(part, CharClass::Exactly('"')).len() > 0 {
                    Some(trim_both(part, CharClass::Exactly('"')))
                } else {
                    None
                },
            },
        };
        match here {
            Some(n) => Some(n),
            None => last_name(pieces.drop_last()),
        }
    }
}

proof fn lemma_query_fold_name(pieces: Seq<Seq<char>>)
    ensures
        query_args_fold(pieces).0 == last_name(pieces),
    decreases pieces.len(),
{
    if pieces.len() > 0 {
        lemma_query_fold_name(pieces.drop_last());
    }
}

/// The query name of a `#[query(...)]` attribute is the one that its last
/// naming piece gives, whatever `format` pieces stand around it: a format
/// never changes the name.
pub proof fn law_query_name(tokens: Seq<char>)
    ensures
        spec_query_args(Some(tokens)).0 == last_name(split_on(tokens, ',')),
        spec_query_args(None).0 is None,
{
    lemma_query_fold_name(split_on(tokens, ','));
}

/// The query format of a `#[query(...)]` attribute is that of its last
/// `format` piece, `Default` without one, whatever `name` or bare pieces stand
/// before or after it: a name never changes the format.
pub proof fn law_query_format(tokens: Seq<char>)
    ensures
        spec_query_args(Some(tokens)).1 == last_format(split_on(tokens, ',')),
        spec_query_args(None).1 == QueryFormat::Default,
{
    lemma_query_fold_format(split_on(tokens, ','));
}

fn chars_of_opt(o: &Option<String>) -> (r: Option<Vec<char>>)
    ensures
        match o {
            Some(s) => r matches Some(v) && v@ == s@,
            None => r is None,
        },
{
    match o {
        Some(s) => Some(chars_of(s.as_str())),
        None => None,
    }
}

/// A string with the double quotes at both ends removed (`str::trim_matches('"')`).
pub fn strip_quotes(s: &str) -> (r: String)
    ensures
        r@ == trim_both(s@, CharClass::Exactly('"')),
{
    let v = chars_of(s);
    let t = trim_chars(&v, CharClass::Exactly('"'));
    string_from_chars(&t)
}

/// The name given as the argument of an attribute, if it gives one:
/// `#[path(name = "userId")]` and `#[path("userId")]` both give `userId`.
pub fn parse_name_arg(attr: &AttrInfo) -> (r: Option<String>)
    ensures
        opt_view(r) == name_arg(opt_view(attr.tokens)),
{
    match &attr.tokens {
        Some(t) => {
            let v = chars_of(t.as_str());
            let a = trim_chars(&v, CharClass::Whitespace);
            let name_lit = chars_of("name");
            let b = match strip_prefix_chars(&a, &name_lit) {
                Some(rest) => {
                    let r2 = trim_chars(&rest, CharClass::Whitespace);
                    if r2.len() > 0 && r2[0] == '=' {
                        assigned_value_chars(&rest)
                    } else {
                        trim_chars(&a, CharClass::Exactly('"'))
                    }
                },
                None => trim_chars(&a, CharClass::Exactly('"')),
            };
            if b.len() == 0 {
                None
            } else {
                Some(string_from_chars(&b))
            }
        },
        None => None,
    }
}

fn assigned_value_chars(v: &Vec<char>) -> (r: Vec<char>)
    ensures
        r@ == assigned_value(v@),
{
    let a = trim_chars(v, CharClass::Whitespace);
    let b = trim_start_chars(&a, CharClass::Exactly('='));
    let c = trim_chars(&b, CharClass::Whitespace);
    trim_chars(&c, CharClass::Exactly('"'))
}

fn format_named_exec(v: &Vec<char>) -> (r: QueryFormat)
    ensures
        r == format_named(v@),
{
    let s = string_from_chars(v);
    if str_eq(s.as_str(), "multi") {
        QueryFormat::Multi
    } else if str_eq(s.as_str(), "csv") {
        QueryFormat::Csv
    } else {
        QueryFormat::Default
    }
}

/// The name and query format given by the argument list of a `#[query(...)]`
/// attribute: comma-separated pieces `name = "..."`, `format = "multi" | "csv"`,
/// or a bare name; later pieces override earlier ones.
pub fn parse_query_args(attr: &AttrInfo) -> (r: (Option<String>, QueryFormat))
    ensures
        (opt_view(r.0), r.1) == spec_query_args(opt_view(attr.tokens)),
{
    let tokens = match &attr.tokens {
        Some(t) => t,
        None => {
            return (None, QueryFormat::Default);
        },
    };
    let v = chars_of(tokens.as_str());
    let pieces = split_chars(&v, ',');
    let ghost pv = pieces@.map_values(|p: Vec<char>| p@);
    let name_lit = chars_of("name");
    let format_lit = chars_of("format");
    let mut name: Option<Vec<char>> = None;
    let mut format = QueryFormat::Default;
    let mut i: usize = 0;
    while i < pieces.len()
        invariant
            i <= pieces@.len(),
            pv == pieces@.map_values(|p: Vec<char>| p@),
            pv == split_on(tokens@, ','),
            name_lit@ == "name"@,
            format_lit@ == "format"@,
            (match name {
                Some(n) => Some(n@),
                None => None,
            }, format) == query_args_fold(pv.take(i as int)),
        decreases pieces.len() - i,
    {
        proof {
            assert(pv.take(i + 1).drop_last() =~= pv.take(i as int));
            assert(pv.take(i + 1).last() == pieces@[i as int]@);
        }
        let part = trim_chars(&pieces[i], CharClass::Whitespace);
        match strip_prefix_chars(&part, &name_lit) {
            Some(rest) => {
                let val = assigned_value_chars(&rest);
                if val.len() > 0 {
                    name = Some(val);
                }
            },
            None => match strip_prefix_chars(&part, &format_lit) {
                Some(rest) => {
                    let val = assigned_value_chars(&rest);
                    format = format_named_exec(&val);
                },
                None => {
                    let val = trim_chars(&part, CharClass::Exactly('"'));
                    if val.len() > 0 {
                        name = Some(val);
                    }
                },
            },
        }
        i += 1;
    }
    assert(pv.take(pieces@.len() as int) =~= pv);
    let n = match name {
        Some(n) => Some(string_from_chars(&n)),
        None => None,
    };
    (n, format)
}

fn ident_is(ident: &String, lit: &str) -> (r: bool)
    ensures
        r == (ident@ == lit@),
{
    str_eq(ident.as_str(), lit)
}

/// The role that one attribute gives a parameter called `param`, if it gives one.
pub fn attr_kind(attr: &AttrInfo, param: &str) -> (r: Option<ParamKind>)
    ensures
        match r {
            Some(k) => kind_of_attr(opt_view(attr.ident), opt_view(attr.tokens), param@) == Some(
                k@,
            ),
            None => kind_of_attr(opt_view(attr.ident), opt_view(attr.tokens), param@) is None,
        },
{
    let id = match &attr.ident {
        Some(id) => id,
        None => {
            return None;
        },
    };
    let named = match parse_name_arg(attr) {
        Some(n) => n,
        None => param.to_owned(),
    };
    if ident_is(id, "path") {
        Some(ParamKind::Path { name: named })
    } else if ident_is(id, "query") {
        let (name, format) = parse_query_args(attr);
        Some(ParamKind::Query { name, format })
    } else if ident_is(id, "body") {
        Some(ParamKind::Body)
    } else if ident_is(id, "header") {
        Some(ParamKind::Header { name: named })
    } else if ident_is(id, "headers") {
        Some(ParamKind::Headers)
    } else if ident_is(id, "part") {
        Some(ParamKind::Part { name: named })
    } else if ident_is(id, "args") {
        Some(ParamKind::Args)
    } else {
        None
    }
}

/// The role of a parameter called `param` with the given attributes: the first
/// attribute that names a role decides; without one the parameter is the body.
pub fn resolve_kind(attrs: &Vec<AttrInfo>, param: &str) -> (r: ParamKind)
    ensures
        r@ == spec_resolve_kind(attrs@, param@),
{
    let mut i: usize = 0;
    assert(attrs@.skip(0) =~= attrs@);
    while i < attrs.len()
        invariant
            i <= attrs@.len(),
            spec_resolve_kind(attrs@.skip(i as int), param@) == spec_resolve_kind(attrs@, param@),
        decreases attrs.len() - i,
    {
        proof {
            assert(attrs@.skip(i as int)[0] == attrs@[i as int]);
            assert(attrs@.skip(i as int).skip(1) =~= attrs@.skip(i + 1));
        }
        match attr_kind(&attrs[i], param) {
            Some(k) => {
                return k;
            },
            None => {},
        }
        i += 1;
    }
    ParamKind::Body
}

/// An attribute argument as text: surrounding whitespace, then surrounding
/// quotes removed.
pub open spec fn unquoted(s: Seq<char>) -> Seq<char> {
    trim_both(trim_ws(s), CharClass::Exactly('"'))
}

/// The header that a method-level `#[header("Name", "Value")]` attribute sets:
/// the arguments cut at their first comma, each unquoted; none without a comma
/// or with an empty name.
pub open spec fn spec_method_header(tokens: Option<Seq<char>>) -> Option<(Seq<char>, Seq<char>)> {
    match tokens {
        Some(t) => match split_once(t, ',') {
            Some((k, v)) => if unquoted(k).len() == 0 {
                None
            } else {
                Some((unquoted(k), unquoted(v)))
            },
            None => None,
        },
        None => None,
    }
}

fn unquoted_chars(v: &Vec<char>) -> (r: Vec<char>)
    ensures
        r@ == unquoted(v@),
{
    let a = trim_chars(v, CharClass::Whitespace);
    trim_chars(&a, CharClass::Exactly('"'))
}

/// The header that a method-level `#[header("Name", "Value")]` attribute sets,
/// if its arguments give one.
pub fn parse_method_header(attr: &AttrInfo) -> (r: Option<(String, String)>)
    ensures
        match spec_method_header(opt_view(attr.tokens)) {
            Some((k, v)) => r matches Some((a, b)) && a@ == k && b@ == v,
            None => r is None,
        },
{
    let tokens = match &attr.tokens {
        Some(t) => t,
        None => {
            return None;
        },
    };
    let v = chars_of(tokens.as_str());
    match split_once_chars(&v, ',') {
        Some((k, val)) => {
            let name = unquoted_chars(&k);
            if name.len() == 0 {
                None
            } else {
                let value = unquoted_chars(&val);
                Some((string_from_chars(&name), string_from_chars(&value)))
            }
        },
        None => None,
    }
}

/// The timeout in milliseconds that a method-level `#[timeout(ms)]` attribute
/// gives: its argument, trimmed, as a decimal `u64`.
pub open spec fn spec_timeout_ms(tokens: Option<Seq<char>>) -> Option<u64> {
    match tokens {
        Some(t) => spec_parse_u64(trim_ws(t)),
        None => None,
    }
}

/// The timeout in milliseconds that a method-level `#[timeout(ms)]` attribute
/// gives, if its argument is a decimal number that fits in a `u64`.
pub fn parse_timeout_ms(attr: &AttrInfo) -> (r: Option<u64>)
    ensures
        r == spec_timeout_ms(opt_view(attr.tokens)),
{
    match &attr.tokens {
        Some(t) => {
            let v = chars_of(t.as_str());
            let trimmed = trim_chars(&v, CharClass::Whitespace);
            parse_u64(&trimmed)
        },
        None => None,
    }
}

/// The name given by a `#[param(name = "...")]` attribute: the first `param`
/// attribute whose argument list starts with `name` and assigns a non-empty value.
pub open spec fn spec_param_name(attrs: Seq<AttrInfo>) -> Option<Seq<char>>
    decreases attrs.len(),
{
    if attrs.len() == 0 {
        None
    } else {
        let a = attrs[0];
        let here = match (opt_view(a.ident), opt_view(a.tokens)) {
            (Some(id), Some(t)) => if id == "param"@ {
                match strip_prefix(t, "name"@) {
                    Some(rest) => if assigned_value(rest).len() > 0 {
                        Some(assigned_value(rest))
                    } else {
                        None
                    },
                    None => None,
                }
            } else {
                None
            },
            _ => None,
        };
        match here {
            Some(n) => Some(n),
            None => spec_param_name(attrs.skip(1)),
        }
    }
}

/// The query name that `#[param(name = "...")]` gives a field, if any.
pub fn extract_param_name(attrs: &Vec<AttrInfo>) -> (r: Option<String>)
    ensures
        opt_view(r) == spec_param_name(attrs@),
{
    let name_lit = chars_of("name");
    let mut i: usize = 0;
    assert(attrs@.skip(0) =~= attrs@);
    while i < attrs.len()
        invariant
            i <= attrs@.len(),
            name_lit@ == "name"@,
            spec_param_name(attrs@.skip(i as int)) == spec_param_name(attrs@),
        decreases attrs.len() - i,
    {
        proof {
            assert(attrs@.skip(i as int)[0] == attrs@[i as int]);
            assert(attrs@.skip(i as int).skip(1) =~= attrs@.skip(i + 1));
        }
        match (&attrs[i].ident, &attrs[i].tokens) {
            (Some(id), Some(t)) => {
                if ident_is(id, "param") {
                    let tv = chars_of(t.as_str());
                    match strip_prefix_chars(&tv, &name_lit) {
                        Some(rest) => {
                            let val = assigned_value_chars(&rest);
                            if val.len() > 0 {
                                return Some(string_from_chars(&val));
                            }
                        },
                        None => {},
                    }
                }
            },
            _ => {},
        }
        i += 1;
    }
    None
}

/// The part of an argument object that one of its fields supplies.
#[derive(Clone, Debug)]
pub enum ArgsField {
    /// The value of the path variable `name`.
    Path { name: String },
    /// The query parameter `name`.
    Query { name: String },
    /// The request body.
    Body,
    /// The header `name`.
    Header { name: String },
}

/// The part of an argument object that a field supplies, as plain text.
pub enum ArgsFieldView {
    Path { name: Seq<char> },
    Query { name: Seq<char> },
    Body,
    Header { name: Seq<char> },
}

impl View for ArgsField {
    type V = ArgsFieldView;

    open spec fn view(&self) -> ArgsFieldView {
        match self {
            ArgsField::Path { name } => ArgsFieldView::Path { name: name@ },
            ArgsField::Query { name } => ArgsFieldView::Query { name: name@ },
            ArgsField::Body => ArgsFieldView::Body,
            ArgsField::Header { name } => ArgsFieldView::Header { name: name@ },
        }
    }
}

/// The part that one attribute gives a field called `field`, if it gives one:
/// `path`, `query` and `header` under the attribute's name argument or the
/// field's own name, `body` as the body.
pub open spec fn args_field_of_attr(
    ident: Option<Seq<char>>,
    tokens: Option<Seq<char>>,
    field: Seq<char>,
) -> Option<ArgsFieldView> {
    let named = match name_arg(tokens) {
        Some(n) => n,
        None => field,
    };
    match ident {
        Some(id) => if id == "path"@ {
            Some(ArgsFieldView::Path { name: named })
        } else if id == "query"@ {
            Some(ArgsFieldView::Query { name: named })
        } else if id == "body"@ {
            Some(ArgsFieldView::Body)
        } else if id == "header"@ {
            Some(ArgsFieldView::Header { name: named })
        } else {
            None
        },
        None => None,
    }
}

proof fn lemma_role_words_distinct()
    ensures
        "path"@ != "query"@,
        "path"@ != "body"@,
        "path"@ != "header"@,
        "query"@ != "body"@,
        "query"@ != "header"@,
        "body"@ != "header"@,
        "headers"@ != "path"@,
        "headers"@ != "query"@,
        "headers"@ != "body"@,
        "headers"@ != "header"@,
        "part"@ != "path"@,
        "part"@ != "query"@,
        "part"@ != "body"@,
        "part"@ != "header"@,
        "part"@ != "headers"@,
{
    reveal_strlit("path");
    reveal_strlit("query");
    reveal_strlit("body");
    reveal_strlit("header");
    reveal_strlit("headers");
    reveal_strlit("part");
    assert("path"@[0] != "body"@[0]);
    assert("path"@[1] != "part"@[1] || "path"@[2] != "part"@[2]);
    assert("part"@[0] != "body"@[0]);
    assert("query"@.len() != "header"@.len());
    assert("headers"@.len() != "query"@.len());
}

/// The role and name that the first attribute of a field or parameter gives:
/// `path`, `query` and `header` carry the attribute's name argument (a bare
/// `"x"` or `name = "x"`), or else the field's own name, for an argument object
/// exactly as for an endpoint parameter; `body` is the body; an attribute that
/// names no role is passed over.
pub proof fn law_role_names(attrs: Seq<AttrInfo>, field: Seq<char>)
    requires
        attrs.len() > 0,
    ensures
        ({
            let id = opt_view(attrs[0].ident);
            let given = match name_arg(opt_view(attrs[0].tokens)) {
                Some(n) => n,
                None => field,
            };
            &&& id == Some("path"@) ==> spec_args_field(attrs, field) == Some(
                ArgsFieldView::Path { name: given },
            ) && spec_resolve_kind(attrs, field) == ParamKindView::Path { name: given }
            &&& id == Some("query"@) ==> spec_args_field(attrs, field) == Some(
                ArgsFieldView::Query { name: given },
            )
            &&& id == Some("header"@) ==> spec_args_field(attrs, field) == Some(
                ArgsFieldView::Header { name: given },
            ) && spec_resolve_kind(attrs, field) == ParamKindView::Header { name: given }
            &&& id == Some("part"@) ==> spec_resolve_kind(attrs, field) == ParamKindView::Part {
                name: given,
            }
            &&& id == Some("body"@) ==> spec_args_field(attrs, field) == Some(ArgsFieldView::Body)
                && spec_resolve_kind(attrs, field) == ParamKindView::Body
            &&& (id is None || (id != Some("path"@) && id != Some("query"@) && id != Some(
                "header"@,
            ) && id != Some("body"@))) ==> spec_args_field(attrs, field) == spec_args_field(
                attrs.skip(1),
                field,
            )
        }),
{
    lemma_role_words_distinct();
}

/// The part a field supplies: given by its first attribute that names one.
pub open spec fn spec_args_field(attrs: Seq<AttrInfo>, field: Seq<char>) -> Option<ArgsFieldView>
    decreases attrs.len(),
{
    if attrs.len() == 0 {
        None
    } else {
        match args_field_of_attr(opt_view(attrs[0].ident), opt_view(attrs[0].tokens), field) {
            Some(k) => Some(k),
            None => spec_args_field(attrs.skip(1), field),
        }
    }
}

/// The part that a field called `field` with the given attributes supplies to
/// an argument object, if any: its first `path`, `query`, `body` or `header`
/// attribute decides.
pub fn args_field(attrs: &Vec<AttrInfo>, field: &str) -> (r: Option<ArgsField>)
    ensures
        match r {
            Some(k) => spec_args_field(attrs@, field@) == Some(k@),
            None => spec_args_field(attrs@, field@) is None,
        },
{
    let mut i: usize = 0;
    assert(attrs@.skip(0) =~= attrs@);
    while i < attrs.len()
        invariant
            i <= attrs@.len(),
            spec_args_field(attrs@.skip(i as int), field@) == spec_args_field(attrs@, field@),
        decreases attrs.len() - i,
    {
        proof {
            assert(attrs@.skip(i as int)[0] == attrs@[i as int]);
            assert(attrs@.skip(i as int).skip(1) =~= attrs@.skip(i + 1));
        }
        let attr = &attrs[i];
        match &attr.ident {
            Some(id) => {
                let named = match parse_name_arg(attr) {
                    Some(n) => n,
                    None => field.to_owned(),
                };
                if ident_is(id, "path") {
                    return Some(ArgsField::Path { name: named });
                } else if ident_is(id, "query") {
                    return Some(ArgsField::Query { name: named });
                } else if ident_is(id, "body") {
                    return Some(ArgsField::Body);
                } else if ident_is(id, "header") {
                    return Some(ArgsField::Header { name: named });
                }
            },
            None => {},
        }
        i += 1;
    }
    None
}

/// Values joined by commas.
pub open spec fn join_commas(vs: Seq<Seq<char>>) -> Seq<char>
    decreases vs.len(),
{
    if vs.len() == 0 {
        seq![]
    } else if vs.len() == 1 {
        vs[0]
    } else {
        join_commas(vs.drop_last()) + seq![','] + vs.last()
    }
}

/// The query pairs of a collection-valued parameter `name`: one pair per value
/// (`Multi`), or one pair with the values joined by commas (`Csv` and `Default`).
pub open spec fn spec_expand_query(name: Seq<char>, values: Seq<Seq<char>>, format: QueryFormat) -> Seq<
    (Seq<char>, Seq<char>),
> {
    match format {
        QueryFormat::Multi => values.map_values(|v: Seq<char>| (name, v)),
        _ => seq![(name, join_commas(values))],
    }
}

/// The query pairs of a collection-valued parameter: `?ids=1&ids=2` for
/// `Multi`, `?ids=1,2` otherwise.
pub fn expand_query(name: &str, values: &Vec<String>, format: QueryFormat) -> (r: Vec<(String, String)>)
    ensures
        r@.map_values(|p: (String, String)| (p.0@, p.1@)) == spec_expand_query(
            name@,
            values@.map_values(|v: String| v@),
            format,
        ),
{
    let ghost vv = values@.map_values(|v: String| v@);
    match format {
        QueryFormat::Multi => {
            let mut out: Vec<(String, String)> = Vec::new();
            let mut i: usize = 0;
            while i < values.len()
                invariant
                    i <= values@.len(),
                    vv == values@.map_values(|v: String| v@),
                    out@.map_values(|p: (String, String)| (p.0@, p.1@)) == vv.take(
                        i as int,
                    ).map_values(|v: Seq<char>| (name@, v)),
                decreases values.len() - i,
            {
                let ghost before = out@.map_values(|p: (String, String)| (p.0@, p.1@));
                let n = name.to_owned();
                let v = values[i].clone();
                assert(v@ == vv[i as int]);
                out.push((n, v));
                assert(out@.map_values(|p: (String, String)| (p.0@, p.1@)) =~= before.push(
                    (name@, vv[i as int]),
                ));
                assert(vv.take(i + 1).map_values(|v: Seq<char>| (name@, v)) =~= vv.take(
                    i as int,
                ).map_values(|v: Seq<char>| (name@, v)).push((name@, vv[i as int])));
                i += 1;
                assert(out@.map_values(|p: (String, String)| (p.0@, p.1@)) =~= vv.take(
                    i as int,
                ).map_values(|v: Seq<char>| (name@, v)));
            }
            assert(vv.take(values@.len() as int) =~= vv);
            out
        },
        _ => {
            let mut joined: Vec<char> = Vec::new();
            let mut i: usize = 0;
            while i < values.len()
                invariant
                    i <= values@.len(),
                    vv == values@.map_values(|v: String| v@),
                    joined@ == join_commas(vv.take(i as int)),
                decreases values.len() - i,
            {
                proof {
                    assert(vv.take(i + 1).drop_last() =~= vv.take(i as int));
                }
                if i > 0 {
                    joined.push(',');
                }
                extend_str(&mut joined, values[i].as_str());
                proof {
                    if i == 0 {
                        assert(vv.take(1)[0] == vv[0]);
                    }
                    assert(joined@ =~= join_commas(vv.take(i + 1)));
                }
                i += 1;
            }
            assert(vv.take(values@.len() as int) =~= vv);
            let mut out: Vec<(String, String)> = Vec::new();
            out.push((name.to_owned(), string_from_chars(&joined)));
            assert(out@.map_values(|p: (String, String)| (p.0@, p.1@)) =~= seq![
                (name@, join_commas(vv)),
            ]);
            out
        },
    }
}

/// What an argument object supplies to a request; the derive writes the
/// implementation, and each part defaults to nothing (no path values, query
/// parameters or headers, no body).
pub trait ArgsProvider {
    /// Values of path variables, by name.
    fn path_params(&self) -> (r: Vec<(String, String)>)
        default_ensures
            r@.len() == 0,
    {
        Vec::new()
    }

    /// Query parameters.
    fn query_pairs(&self) -> (r: Vec<(String, String)>)
        default_ensures
            r@.len() == 0,
    {
        Vec::new()
    }

    /// Headers.
    fn headers(&self) -> (r: Vec<(String, String)>)
        default_ensures
            r@.len() == 0,
    {
        Vec::new()
    }

    /// The request body.
    fn body_bytes(&self) -> (r: Option<Vec<u8>>)
        default_ensures
            r is None,
    {
        None
    }
}

/// A class-level header line `Key: Value`, cut at its first `:` and trimmed.
pub open spec fn spec_class_header(s: Seq<char>) -> Option<(Seq<char>, Seq<char>)> {
    match split_once(s, ':') {
        Some((k, v)) => Some((trim_ws(k), trim_ws(v))),
        None => None,
    }
}

/// The headers given by class-level header lines, skipping lines without `:`.
pub open spec fn spec_class_headers(lines: Seq<Seq<char>>) -> Seq<(Seq<char>, Seq<char>)>
    decreases lines.len(),
{
    if lines.len() == 0 {
        seq![]
    } else {
        let rest = spec_class_headers(lines.drop_last());
        match spec_class_header(lines.last()) {
            Some(h) => rest.push(h),
            None => rest,
        }
    }
}

/// A class-level header line `Key: Value` as a trimmed name and value.
pub fn parse_class_header(line: &str) -> (r: Option<(String, String)>)
    ensures
        match spec_class_header(line@) {
            Some((k, v)) => r matches Some((a, b)) && a@ == k && b@ == v,
            None => r is None,
        },
{
    let v = chars_of(line);
    match split_once_chars(&v, ':') {
        Some((k, val)) => {
            let k2 = trim_chars(&k, CharClass::Whitespace);
            let v2 = trim_chars(&val, CharClass::Whitespace);
            Some((string_from_chars(&k2), string_from_chars(&v2)))
        },
        None => None,
    }
}

/// The headers given by the class-level header lines, in order.
pub fn class_headers(lines: &Vec<String>) -> (r: Vec<(String, String)>)
    ensures
        r@.map_values(|p: (String, String)| (p.0@, p.1@)) == spec_class_headers(
            lines@.map_values(|s: String| s@),
        ),
{
    let mut out: Vec<(String, String)> = Vec::new();
    let mut i: usize = 0;
    while i < lines.len()
        invariant
            i <= lines@.len(),
            out@.map_values(|p: (String, String)| (p.0@, p.1@)) == spec_class_headers(
                lines@.map_values(|s: String| s@).take(i as int),
            ),
        decreases lines.len() - i,
    {
        let ghost before = out@;
        proof {
            let t = lines@.map_values(|s: String| s@).take(i + 1);
            assert(t.drop_last() =~= lines@.map_values(|s: String| s@).take(i as int));
            assert(t.last() == lines@[i as int]@);
        }
        match parse_class_header(lines[i].as_str()) {
            Some(h) => {
                out.push(h);
                proof {
                    assert(out@.map_values(|p: (String, String)| (p.0@, p.1@)) =~= before.map_values(
                        |p: (String, String)| (p.0@, p.1@),
                    ).push((out@.last().0@, out@.last().1@)));
                }
            },
            None => {},
        }
        i += 1;
    }
    assert(lines@.map_values(|s: String| s@).take(lines@.len() as int) =~= lines@.map_values(
        |s: String| s@,
    ));
    out
}

/// The placeholder `{name}` of a path variable.
pub open spec fn placeholder(name: Seq<char>) -> Seq<char> {
    seq!['{'] + name + seq!['}']
}

/// The name of a path parameter (empty for any other role).
pub open spec fn path_name(k: ParamKindView) -> Seq<char> {
    match k {
        ParamKindView::Path { name } => name,
        _ => seq![],
    }
}

/// Whether parameter `m` is a path parameter whose placeholder stands in `path`
/// at position `p`.
pub open spec fn is_slot_of(path: Seq<char>, kinds: Seq<ParamKindView>, m: int, p: int) -> bool {
    &&& kinds[m] is Path
    &&& occurs_at(path, placeholder(path_name(kinds[m])), p)
}

/// The first parameter, from index `k` on, whose placeholder stands in `path`
/// at position `i`.
pub open spec fn slot_param(path: Seq<char>, i: int, kinds: Seq<ParamKindView>, k: int) -> Option<int>
    decreases kinds.len() - k,
{
    if k < 0 || k >= kinds.len() {
        None
    } else if is_slot_of(path, kinds, k, i) {
        Some(k)
    } else {
        slot_param(path, i, kinds, k + 1)
    }
}

/// `slot_param` finds the first parameter, from `k` on, whose placeholder
/// stands at `i`, or reports that none does.
pub proof fn lemma_slot_param(path: Seq<char>, i: int, kinds: Seq<ParamKindView>, k: int)
    requires
        0 <= k,
    ensures
        match slot_param(path, i, kinds, k) {
            Some(j) => {
                &&& k <= j < kinds.len()
                &&& is_slot_of(path, kinds, j, i)
                &&& forall|m: int| k <= m < j ==> !#[trigger] is_slot_of(path, kinds, m, i)
            },
            None => forall|m: int| k <= m < kinds.len() ==> !#[trigger] is_slot_of(path, kinds, m, i),
        },
    decreases kinds.len() - k,
{
    if k < kinds.len() && !is_slot_of(path, kinds, k, i) {
        lemma_slot_param(path, i, kinds, k + 1);
    }
}

/// The format string and the filling parameters of `path` from position `i`
/// on, scanning left to right: where the placeholder of a path parameter
/// stands, it becomes `{}` and the first parameter of that name is recorded;
/// every other character is copied.
pub open spec fn template_from(path: Seq<char>, i: int, kinds: Seq<ParamKindView>) -> (Seq<char>, Seq<usize>)
    decreases path.len() - i,
{
    if i < 0 || i >= path.len() {
        (seq![], seq![])
    } else {
        match slot_param(path, i, kinds, 0) {
            Some(k) => {
                proof {
                    lemma_slot_param(path, i, kinds, 0);
                }
                let rest = template_from(path, i + placeholder(path_name(kinds[k])).len(), kinds);
                (seq!['{', '}'] + rest.0, seq![k as usize] + rest.1)
            },
            None => {
                let rest = template_from(path, i + 1, kinds);
                (seq![path[i]] + rest.0, rest.1)
            },
        }
    }
}

/// The positions in `path`, from `i` on, of the placeholders that
/// `template_from` turns into slots, in order.
pub open spec fn slot_positions(path: Seq<char>, i: int, kinds: Seq<ParamKindView>) -> Seq<int>
    decreases path.len() - i,
{
    if i < 0 || i >= path.len() {
        seq![]
    } else {
        match slot_param(path, i, kinds, 0) {
            Some(k) => {
                proof {
                    lemma_slot_param(path, i, kinds, 0);
                }
                seq![i] + slot_positions(path, i + placeholder(path_name(kinds[k])).len(), kinds)
            },
            None => slot_positions(path, i + 1, kinds),
        }
    }
}

/// The format string of an endpoint path and the parameters that fill its
/// `{}` slots, in the order of the slots in the path.
pub open spec fn spec_url_template(path: Seq<char>, kinds: Seq<ParamKindView>) -> (Seq<char>, Seq<usize>) {
    template_from(path, 0, kinds)
}

/// The text of each path parameter's placeholder (none for other roles).
fn placeholders(kinds: &Vec<ParamKind>) -> (r: Vec<Option<Vec<char>>>)
    ensures
        r@.len() == kinds@.len(),
        forall|k: int|
            0 <= k < kinds@.len() ==> if kinds@[k]@ is Path {
                #[trigger] r@[k] matches Some(v) && v@ == placeholder(path_name(kinds@[k]@))
            } else {
                r@[k] is None
            },
{
    let mut out: Vec<Option<Vec<char>>> = Vec::new();
    let mut k: usize = 0;
    while k < kinds.len()
        invariant
            k <= kinds@.len(),
            out@.len() == k,
            forall|j: int|
                0 <= j < k ==> if kinds@[j]@ is Path {
                    #[trigger] out@[j] matches Some(v) && v@ == placeholder(path_name(kinds@[j]@))
                } else {
                    out@[j] is None
                },
        decreases kinds.len() - k,
    {
        match &kinds[k] {
            ParamKind::Path { name } => {
                let mut ph: Vec<char> = Vec::new();
                ph.push('{');
                extend_str(&mut ph, name.as_str());
                ph.push('}');
                assert(ph@ =~= placeholder(name@));
                out.push(Some(ph));
            },
            _ => {
                out.push(None);
            },
        }
        k += 1;
    }
    out
}

/// The first path parameter whose placeholder stands in `p` at position `i`,
/// and the length of that placeholder.
fn find_slot(p: &Vec<char>, i: usize, kinds: &Vec<ParamKind>, phs: &Vec<Option<Vec<char>>>) -> (r:
    Option<(usize, usize)>)
    requires
        phs@.len() == kinds@.len(),
        forall|k: int|
            0 <= k < kinds@.len() ==> if kinds@[k]@ is Path {
                #[trigger] phs@[k] matches Some(v) && v@ == placeholder(path_name(kinds@[k]@))
            } else {
                phs@[k] is None
            },
    ensures
        match slot_param(p@, i as int, kinds@.map_values(|k: ParamKind| k@), 0) {
            Some(k) => r matches Some((a, n)) && a == k && n == placeholder(
                path_name(kinds@[k]@),
            ).len(),
            None => r is None,
        },
{
    let ghost kv = kinds@.map_values(|k: ParamKind| k@);
    let mut k: usize = 0;
    while k < phs.len()
        invariant
            k <= phs@.len(),
            phs@.len() == kinds@.len(),
            kv == kinds@.map_values(|k: ParamKind| k@),
            forall|k: int|
                0 <= k < kinds@.len() ==> if kinds@[k]@ is Path {
                    #[trigger] phs@[k] matches Some(v) && v@ == placeholder(path_name(kinds@[k]@))
                } else {
                    phs@[k] is None
                },
            slot_param(p@, i as int, kv, k as int) == slot_param(p@, i as int, kv, 0),
        decreases phs.len() - k,
    {
        assert(kv[k as int] == kinds@[k as int]@);
        match &phs[k] {
            Some(ph) => {
                if matches_at(p, ph, i) {
                    return Some((k, ph.len()));
                }
            },
            None => {},
        }
        k += 1;
    }
    None
}

/// The format string that fills an endpoint path's variables, and the indices
/// of the parameters that fill its `{}` slots, in the order of the slots: each
/// placeholder `{name}` takes the (first) path parameter called `name`.
pub fn url_template(path: &str, kinds: &Vec<ParamKind>) -> (r: (String, Vec<usize>))
    ensures
        (r.0@, r.1@) == spec_url_template(path@, kinds@.map_values(|k: ParamKind| k@)),
{
    let ghost kv = kinds@.map_values(|k: ParamKind| k@);
    let p = chars_of(path);
    let phs = placeholders(kinds);
    let mut out: Vec<char> = Vec::new();
    let mut args: Vec<usize> = Vec::new();
    let mut i: usize = 0;
    while i < p.len()
        invariant
            i <= p@.len(),
            p@ == path@,
            kv == kinds@.map_values(|k: ParamKind| k@),
            phs@.len() == kinds@.len(),
            forall|k: int|
                0 <= k < kinds@.len() ==> if kinds@[k]@ is Path {
                    #[trigger] phs@[k] matches Some(v) && v@ == placeholder(path_name(kinds@[k]@))
                } else {
                    phs@[k] is None
                },
            out@ + template_from(p@, i as int, kv).0 == template_from(p@, 0, kv).0,
            args@ + template_from(p@, i as int, kv).1 == template_from(p@, 0, kv).1,
        decreases p.len() - i,
    {
        let ghost t = template_from(p@, i as int, kv);
        match find_slot(&p, i, kinds, &phs) {
            Some((k, n)) => {
                proof {
                    lemma_slot_param(p@, i as int, kv, 0);
                    assert(kv[k as int] == kinds@[k as int]@);
                    let rest = template_from(p@, i + n, kv);
                    assert(t == (seq!['{', '}'] + rest.0, seq![k] + rest.1));
                    assert(out@.push('{').push('}') + rest.0 =~= out@ + t.0);
                    assert(args@.push(k) + rest.1 =~= args@ + t.1);
                }
                out.push('{');
                out.push('}');
                args.push(k);
                i = i + n;
            },
            None => {
                proof {
                    let rest = template_from(p@, i + 1, kv);
                    assert(t == (seq![p@[i as int]] + rest.0, rest.1));
                    assert(out@.push(p@[i as int]) + rest.0 =~= out@ + t.0);
                }
                out.push(p[i]);
                i = i + 1;
            },
        }
    }
    assert(out@ =~= template_from(p@, 0, kv).0);
    assert(args@ =~= template_from(p@, 0, kv).1);
    (string_from_chars(&out), args)
}

/// Slot at position `p` of `path` is well filled by parameter `a`: a path
/// parameter whose placeholder stands there, and the first such one.
pub open spec fn slot_filled_by(path: Seq<char>, kinds: Seq<ParamKindView>, a: usize, p: int) -> bool {
    &&& (a as int) < kinds.len()
    &&& is_slot_of(path, kinds, a as int, p)
    &&& forall|m: int| 0 <= m < a ==> !#[trigger] is_slot_of(path, kinds, m, p)
}

/// The slots of a path template are well placed: slot `j`, at position
/// `pos[j]` of `path`, is filled by parameter `args[j]` (see `slot_filled_by`),
/// and the slots follow each other in the path without overlapping.
pub open spec fn slots_well_placed(
    path: Seq<char>,
    kinds: Seq<ParamKindView>,
    args: Seq<usize>,
    pos: Seq<int>,
) -> bool {
    &&& args.len() == pos.len()
    &&& forall|j: int|
        0 <= j < args.len() ==> #[trigger] slot_filled_by(path, kinds, args[j], pos[j])
    &&& forall|j1: int, j2: int|
        0 <= j1 < j2 < pos.len() ==> #[trigger] pos[j1] + placeholder(
            path_name(kinds[args[j1] as int]),
        ).len() <= #[trigger] pos[j2]
}

proof fn lemma_template_slots(path: Seq<char>, i: int, kinds: Seq<ParamKindView>)
    requires
        kinds.len() <= usize::MAX,
        0 <= i,
    ensures
        slots_well_placed(path, kinds, template_from(path, i, kinds).1, slot_positions(path, i, kinds)),
        forall|j: int| 0 <= j < slot_positions(path, i, kinds).len() ==> i <= #[trigger] slot_positions(path, i, kinds)[j],
    decreases path.len() - i,
{
    if i < path.len() {
        lemma_slot_param(path, i, kinds, 0);
        match slot_param(path, i, kinds, 0) {
            Some(k) => {
                let n = placeholder(path_name(kinds[k])).len() as int;
                lemma_template_slots(path, i + n, kinds);
                let args = template_from(path, i, kinds).1;
                let pos = slot_positions(path, i, kinds);
                let ra = template_from(path, i + n, kinds).1;
                let rp = slot_positions(path, i + n, kinds);
                assert(args == seq![k as usize] + ra);
                assert(pos == seq![i] + rp);
                assert forall|j: int| 0 <= j < pos.len() implies i <= #[trigger] pos[j] by {
                    if j > 0 {
                        assert(pos[j] == rp[j - 1]);
                    }
                }
                assert forall|j: int| 0 <= j < args.len() implies #[trigger] slot_filled_by(
                    path,
                    kinds,
                    args[j],
                    pos[j],
                ) by {
                    if j == 0 {
                        assert(args[0] as int == k);
                        assert(pos[0] == i);
                    } else {
                        assert(args[j] == ra[j - 1]);
                        assert(pos[j] == rp[j - 1]);
                        assert(slot_filled_by(path, kinds, ra[j - 1], rp[j - 1]));
                    }
                }
                assert forall|j1: int, j2: int| 0 <= j1 < j2 < pos.len() implies #[trigger] pos[j1]
                    + placeholder(path_name(kinds[args[j1] as int])).len() <= #[trigger] pos[j2] by {
                    assert(pos[j2] == rp[j2 - 1]);
                    if j1 == 0 {
                        assert(args[0] as int == k);
                        assert(pos[0] == i);
                        assert(i + n <= rp[j2 - 1]);
                    } else {
                        assert(pos[j1] == rp[j1 - 1]);
                        assert(args[j1] == ra[j1 - 1]);
                    }
                }
            },
            None => {
                lemma_template_slots(path, i + 1, kinds);
            },
        }
    }
}

/// Each `{}` slot of a path template is filled by a path parameter whose own
/// placeholder `{name}` stands in the path where that slot is, the first
/// parameter of that name; the slots follow the placeholders' order in the
/// path and do not overlap.
pub proof fn law_url_template_slots(path: Seq<char>, kinds: Seq<ParamKindView>)
    requires
        kinds.len() <= usize::MAX,
    ensures
        slots_well_placed(path, kinds, spec_url_template(path, kinds).1, slot_positions(path, 0, kinds)),
{
    lemma_template_slots(path, 0, kinds);
}
} // verus!
