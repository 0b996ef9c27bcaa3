use rfeign::endpoint::{
    args_field, ArgsField, attr_kind, class_headers, expand_query, extract_param_name, parse_class_header,
    parse_method_header, parse_name_arg, parse_query_args, parse_timeout_ms, resolve_kind,
    url_template, is_option_type, AttrInfo, HttpMethod, ParamKind, QueryFormat, Symbol,
};
use rfeign::text::parse_u64;

fn attr(ident: Option<&str>, tokens: Option<&str>) -> AttrInfo {
    AttrInfo { ident: ident.map(|s| s.to_string()), tokens: tokens.map(|s| s.to_string()) }
}

#[test]
fn methods_from_symbols() {
    assert_eq!(HttpMethod::from_symbol(Symbol("get")), Some(HttpMethod::Get));
    assert_eq!(HttpMethod::from_symbol(Symbol("delete")), Some(HttpMethod::Delete));
    assert_eq!(HttpMethod::from_symbol(Symbol("GET")), None);
    assert_eq!(HttpMethod::from_symbol(Symbol("options")), None);
    assert_eq!(HttpMethod::Patch.as_ident(), "PATCH");
    assert_eq!(HttpMethod::Head.method_name(), "head");
}

#[test]
fn last_segment_match() {
    let segs = vec!["rfeign".to_string(), "get".to_string()];
    assert!(Symbol("get").matches_last_segment(&segs));
    assert!(!Symbol("post").matches_last_segment(&segs));
    assert!(!Symbol("get").matches_last_segment(&vec![]));
}

#[test]
fn name_args() {
    assert_eq!(parse_name_arg(&attr(Some("path"), Some(" \"userId\" "))), Some("userId".to_string()));
    assert_eq!(parse_name_arg(&attr(Some("path"), Some("\"\""))), None);
    assert_eq!(parse_name_arg(&attr(Some("path"), None)), None);
}

#[test]
fn query_args() {
    assert_eq!(parse_query_args(&attr(Some("query"), None)), (None, QueryFormat::Default));
    assert_eq!(
        parse_query_args(&attr(Some("query"), Some("format = \"multi\""))),
        (None, QueryFormat::Multi)
    );
    assert_eq!(
        parse_query_args(&attr(Some("query"), Some("name = \"ids\", format = \"csv\""))),
        (Some("ids".to_string()), QueryFormat::Csv)
    );
    assert_eq!(
        parse_query_args(&attr(Some("query"), Some("\"q\""))),
        (Some("q".to_string()), QueryFormat::Default)
    );
    assert_eq!(
        parse_query_args(&attr(Some("query"), Some("format = \"xml\""))),
        (None, QueryFormat::Default)
    );
}

fn kind_str(k: &ParamKind) -> String {
    format!("{:?}", k)
}

#[test]
fn kinds_of_parameters() {
    assert_eq!(kind_str(&resolve_kind(&vec![], "user")), "Body");
    assert_eq!(
        kind_str(&resolve_kind(&vec![attr(Some("path"), None)], "id")),
        kind_str(&ParamKind::Path { name: "id".to_string() })
    );
    assert_eq!(
        kind_str(&resolve_kind(&vec![attr(Some("doc"), None), attr(Some("header"), Some("\"X-Token\""))], "t")),
        kind_str(&ParamKind::Header { name: "X-Token".to_string() })
    );
    assert_eq!(
        kind_str(&resolve_kind(&vec![attr(Some("query"), Some("name = \"p\"")), attr(Some("body"), None)], "page")),
        kind_str(&ParamKind::Query { name: Some("p".to_string()), format: QueryFormat::Default })
    );
    assert_eq!(kind_str(&resolve_kind(&vec![attr(None, None), attr(Some("headers"), None)], "h")), "Headers");
    assert_eq!(
        kind_str(&resolve_kind(&vec![attr(Some("part"), Some("name"))], "f")),
        kind_str(&ParamKind::Part { name: "name".to_string() })
    );
    assert_eq!(kind_str(&resolve_kind(&vec![attr(Some("args"), None)], "a")), "Args");
    assert!(attr_kind(&attr(Some("serde"), None), "x").is_none());
}

#[test]
fn class_header_lines() {
    assert_eq!(
        parse_class_header("Accept: application/json"),
        Some(("Accept".to_string(), "application/json".to_string()))
    );
    assert_eq!(parse_class_header("no colon"), None);
    let lines = vec!["A: 1".to_string(), "bad".to_string(), " B :x:y ".to_string()];
    assert_eq!(
        class_headers(&lines),
        vec![("A".to_string(), "1".to_string()), ("B".to_string(), "x:y".to_string())]
    );
}

#[test]
fn path_templates() {
    let kinds = vec![
        ParamKind::Path { name: "id".to_string() },
        ParamKind::Query { name: None, format: QueryFormat::Default },
        ParamKind::Path { name: "missing".to_string() },
        ParamKind::Path { name: "sub".to_string() },
    ];
    let (fmt, args) = url_template("/api/users/{id}/items/{sub}/{id}", &kinds);
    assert_eq!(fmt, "/api/users/{}/items/{}/{}");
    assert_eq!(args, vec![0, 3, 0]);
    let (fmt2, args2) = url_template("/plain", &vec![]);
    assert_eq!(fmt2, "/plain");
    assert!(args2.is_empty());
}

#[test]
fn query_expansion() {
    let vals = vec!["1".to_string(), "2".to_string(), "3".to_string()];
    assert_eq!(
        expand_query("ids", &vals, QueryFormat::Multi),
        vec![
            ("ids".to_string(), "1".to_string()),
            ("ids".to_string(), "2".to_string()),
            ("ids".to_string(), "3".to_string())
        ]
    );
    assert_eq!(expand_query("ids", &vals, QueryFormat::Csv), vec![("ids".to_string(), "1,2,3".to_string())]);
    assert_eq!(expand_query("ids", &vec![], QueryFormat::Csv), vec![("ids".to_string(), "".to_string())]);
}

#[test]
fn param_names() {
    assert_eq!(
        extract_param_name(&vec![attr(Some("serde"), Some("rename")), attr(Some("param"), Some("name = \"q\""))]),
        Some("q".to_string())
    );
    assert_eq!(extract_param_name(&vec![attr(Some("param"), Some("other"))]), None);
    assert_eq!(extract_param_name(&vec![]), None);
}

#[test]
fn method_level_headers() {
    assert_eq!(
        parse_method_header(&attr(Some("header"), Some("\"X-Trace\" , \"on\""))),
        Some(("X-Trace".to_string(), "on".to_string()))
    );
    assert_eq!(
        parse_method_header(&attr(None, Some("\"Accept\", \"a, b\""))),
        Some(("Accept".to_string(), "a, b".to_string()))
    );
    assert_eq!(parse_method_header(&attr(Some("header"), Some("\"X-Only\""))), None);
    assert_eq!(parse_method_header(&attr(Some("header"), Some("\"\", \"v\""))), None);
    assert_eq!(parse_method_header(&attr(Some("header"), None)), None);
}

#[test]
fn method_level_timeouts() {
    assert_eq!(parse_timeout_ms(&attr(Some("timeout"), Some("5000"))), Some(5000));
    assert_eq!(parse_timeout_ms(&attr(Some("timeout"), Some(" 250 "))), Some(250));
    assert_eq!(parse_timeout_ms(&attr(Some("timeout"), Some("5_000"))), None);
    assert_eq!(parse_timeout_ms(&attr(Some("timeout"), Some(""))), None);
    assert_eq!(parse_timeout_ms(&attr(Some("timeout"), None)), None);
}

#[test]
fn decimal_u64_bounds() {
    let chars = |s: &str| s.chars().collect::<Vec<char>>();
    assert_eq!(parse_u64(&chars("0")), Some(0));
    assert_eq!(parse_u64(&chars("18446744073709551615")), Some(u64::MAX));
    assert_eq!(parse_u64(&chars("18446744073709551616")), None);
    assert_eq!(parse_u64(&chars("99999999999999999999")), None);
    assert_eq!(parse_u64(&chars("12a")), None);
    assert_eq!(parse_u64(&chars("")), None);
}

fn field_str(f: &Option<ArgsField>) -> String {
    format!("{:?}", f)
}

#[test]
fn args_fields_take_first_role() {
    assert_eq!(
        field_str(&args_field(&vec![attr(Some("path"), None)], "id")),
        "Some(Path { name: \"id\" })"
    );
    assert_eq!(
        field_str(&args_field(&vec![attr(Some("query"), Some("\"q\""))], "keyword")),
        "Some(Query { name: \"q\" })"
    );
    assert_eq!(
        field_str(&args_field(
            &vec![attr(Some("serde"), Some("skip")), attr(Some("header"), Some("\"X-Token\"")), attr(Some("body"), None)],
            "token"
        )),
        "Some(Header { name: \"X-Token\" })"
    );
    assert_eq!(field_str(&args_field(&vec![attr(Some("body"), None)], "payload")), "Some(Body)");
    assert_eq!(field_str(&args_field(&vec![attr(Some("doc"), None)], "x")), "None");
    assert_eq!(field_str(&args_field(&vec![], "x")), "None");
}

#[test]
fn renamed_parameters_take_the_assigned_name() {
    assert_eq!(
        parse_name_arg(&attr(Some("path"), Some("name = \"userId\""))),
        Some("userId".to_string())
    );
    assert_eq!(
        kind_str(&resolve_kind(&vec![attr(Some("path"), Some("name = \"userId\""))], "id")),
        kind_str(&ParamKind::Path { name: "userId".to_string() })
    );
    assert_eq!(
        kind_str(&resolve_kind(&vec![attr(Some("part"), Some("name = \"file\""))], "f")),
        kind_str(&ParamKind::Part { name: "file".to_string() })
    );
    assert_eq!(
        kind_str(&resolve_kind(&vec![attr(Some("header"), Some("\"Authorization\""))], "token")),
        kind_str(&ParamKind::Header { name: "Authorization".to_string() })
    );
    assert_eq!(parse_name_arg(&attr(Some("path"), Some("name_x"))), Some("name_x".to_string()));
    assert_eq!(parse_name_arg(&attr(Some("path"), Some("name = \"\""))), None);
}

#[test]
fn placeholders_take_their_namesakes() {
    let kinds = vec![
        ParamKind::Path { name: "y".to_string() },
        ParamKind::Path { name: "x".to_string() },
    ];
    let (fmt, args) = url_template("/a/{x}/b/{y}", &kinds);
    assert_eq!(fmt, "/a/{}/b/{}");
    assert_eq!(args, vec![1, 0]);
    let renamed = vec![
        ParamKind::Body,
        resolve_kind(&vec![attr(Some("path"), Some("name = \"userId\""))], "id"),
    ];
    let (fmt, args) = url_template("/users/{userId}/{id}", &renamed);
    assert_eq!(fmt, "/users/{}/{id}");
    assert_eq!(args, vec![1]);
}

#[test]
fn option_types_by_last_segment() {
    let segs = |v: &[&str]| v.iter().map(|s| s.to_string()).collect::<Vec<String>>();
    assert!(is_option_type(&segs(&["Option"])));
    assert!(is_option_type(&segs(&["std", "option", "Option"])));
    assert!(!is_option_type(&segs(&["Vec"])));
    assert!(!is_option_type(&segs(&[])));
}
