use api_path_coverage::coverage::{classify, pattern_referenced};
use api_path_coverage::doc::Doc;
use api_path_coverage::metadata::{
    find_any_method, tags_of, LoadError, ReportRecord, ResolveError, SwaggerYamlParser,
};
use api_path_coverage::pattern::{pattern_in_line, split_ref, transform_into_regex};
use api_path_coverage::report::{compare_text, report_text, OutTsvWriter};
use std::cmp::Ordering;

fn text(s: &str) -> Doc {
    Doc::Text(s.to_string())
}

fn dict(entries: Vec<(&str, Doc)>) -> Doc {
    Doc::Dict(entries.into_iter().map(|(k, v)| (Some(k.to_string()), v)).collect())
}

fn list(items: Vec<Doc>) -> Doc {
    Doc::List(items)
}

fn files(contents: Vec<Vec<&str>>) -> Vec<Vec<String>> {
    contents
        .into_iter()
        .map(|f| f.into_iter().map(|l| l.to_string()).collect())
        .collect()
}

fn strings(v: Vec<&str>) -> Vec<String> {
    v.into_iter().map(|s| s.to_string()).collect()
}

fn record(t: &str, u: &str, p: &str) -> ReportRecord {
    ReportRecord(t.to_string(), u.to_string(), p.to_string())
}

fn owner_param() -> Doc {
    dict(vec![
        ("name", text("owner")),
        ("in", text("path")),
        ("required", Doc::Flag(true)),
        ("schema", dict(vec![("type", text("string"))])),
    ])
}

fn two_path_spec() -> Doc {
    dict(vec![(
        "paths",
        dict(vec![
            ("/zen", dict(vec![("get", dict(vec![("tags", list(vec![text("meta")]))]))])),
            (
                "/orgs/{org}/repos",
                dict(vec![(
                    "get",
                    dict(vec![
                        ("tags", list(vec![text("orgs")])),
                        (
                            "parameters",
                            list(vec![dict(vec![
                                ("name", text("org")),
                                ("in", text("path")),
                                ("required", Doc::Flag(true)),
                            ])]),
                        ),
                    ]),
                )]),
            ),
        ]),
    )])
}

#[test]
fn compile_plain_path_is_quoted() {
    assert_eq!(transform_into_regex("/zen"), "\"/zen\"");
}

#[test]
fn compile_ignores_placeholder_names() {
    let a = transform_into_regex("/orgs/{org}/repos");
    let b = transform_into_regex("/orgs/{id}/repos");
    assert_eq!(a, b);
    assert_eq!(a, "\"/orgs/(\\{\\w*})/repos\"");
    assert_eq!(transform_into_regex("/orgs/{org}/repos"), a);
}

#[test]
fn compile_replaces_every_placeholder() {
    let cases = vec![
        (
            "/orgs/{org}/personal-access-tokens/{pat_id}/repositories",
            "\"/orgs/(\\{\\w*})/personal-access-tokens/(\\{\\w*})/repositories\"",
        ),
        ("/teams/{team_id}/teams", "\"/teams/(\\{\\w*})/teams\""),
        (
            "/users/{username}/packages/{package_type}/{package_name}",
            "\"/users/(\\{\\w*})/packages/(\\{\\w*})/(\\{\\w*})\"",
        ),
    ];
    for (src, want) in cases {
        assert_eq!(transform_into_regex(src), want);
    }
}

#[test]
fn quoted_literal_with_other_placeholder_name_is_referenced() {
    let pattern = transform_into_regex("/teams/{team_id}/teams");
    let tree = files(vec![vec!["fn f() {", "    get(\"/teams/{abc}/teams\")", "}"]]);
    assert!(pattern_referenced(&pattern, &tree));
    assert!(pattern_in_line(&pattern, "x = \"/teams/{abc}/teams\";"));
}

#[test]
fn unquoted_or_absent_text_is_not_referenced() {
    let pattern = transform_into_regex("/teams/{team_id}/teams");
    assert!(!pattern_in_line(&pattern, "/teams/{abc}/teams"));
    let empty: Vec<Vec<String>> = Vec::new();
    assert!(!pattern_referenced(&pattern, &empty));
    let unrelated = files(vec![vec!["nothing here"], vec![]]);
    assert!(!pattern_referenced(&pattern, &unrelated));
}

#[test]
fn empty_tree_leaves_every_pattern_unreferenced() {
    let patterns = strings(vec!["\"/zen\"", "\"/orgs/(\\{\\w*})/repos\""]);
    let empty: Vec<Vec<String>> = Vec::new();
    let (found, missing) = classify(&patterns, &empty);
    assert!(found.is_empty());
    assert_eq!(missing, patterns);
}

#[test]
fn classify_counts_distinct_patterns_once() {
    let patterns = vec![
        transform_into_regex("/orgs/{org}/repos"),
        transform_into_regex("/orgs/{id}/repos"),
        transform_into_regex("/zen"),
        transform_into_regex("/meta"),
    ];
    let tree = files(vec![vec!["a"], vec!["call(\"/zen\")"]]);
    let (found, missing) = classify(&patterns, &tree);
    assert_eq!(found, strings(vec!["\"/zen\""]));
    assert_eq!(missing, strings(vec!["\"/orgs/(\\{\\w*})/repos\"", "\"/meta\""]));
    assert_eq!(found.len() + missing.len(), 3);
}

#[test]
fn split_ref_gives_segments() {
    assert_eq!(split_ref("#/components/parameters/owner"), strings(vec!["components", "parameters", "owner"]));
}

#[test]
fn split_ref_without_prefix_is_empty() {
    assert!(split_ref("components/parameters/owner").is_empty());
    assert!(split_ref("").is_empty());
    assert!(split_ref("#").is_empty());
    assert_eq!(split_ref("#/"), strings(vec![""]));
}

#[test]
fn ref_parameter_resolves_to_stored_values() {
    let root = dict(vec![
        ("paths", dict(vec![])),
        ("components", dict(vec![("parameters", dict(vec![("owner", owner_param())]))])),
    ]);
    let parser = SwaggerYamlParser::from_document(root).ok().unwrap();
    let by_ref = dict(vec![("$ref", text("#/components/parameters/owner"))]);
    assert_eq!(parser.describe_parameter(&by_ref), Ok("[reqd]owner: string (in: path)".to_string()));
    assert_eq!(parser.describe_parameter(&owner_param()), Ok("[reqd]owner: string (in: path)".to_string()));
}

#[test]
fn parameter_defaults() {
    let parser = SwaggerYamlParser::from_document(dict(vec![("paths", dict(vec![]))])).ok().unwrap();
    let p = dict(vec![("name", text("per_page")), ("in", text("query"))]);
    assert_eq!(parser.describe_parameter(&p), Ok("[optl]per_page: _ (in: query)".to_string()));
    assert_eq!(parser.describe_parameter(&text("odd")), Ok(String::new()));
}

#[test]
fn resolution_errors() {
    let root = dict(vec![
        ("paths", dict(vec![])),
        ("components", dict(vec![("scalar", text("x"))])),
    ]);
    let parser = SwaggerYamlParser::from_document(root).ok().unwrap();
    let dangling = dict(vec![("$ref", text("#/components/parameters/missing"))]);
    assert_eq!(parser.describe_parameter(&dangling), Err(ResolveError::DanglingRef));
    let not_text = dict(vec![("$ref", Doc::Flag(true))]);
    assert_eq!(parser.describe_parameter(&not_text), Err(ResolveError::RefNotText));
    let to_scalar = dict(vec![("$ref", text("#/components/scalar"))]);
    assert_eq!(parser.describe_parameter(&to_scalar), Err(ResolveError::RefTargetNotMapping));
    let no_name = dict(vec![("in", text("path"))]);
    assert_eq!(parser.describe_parameter(&no_name), Err(ResolveError::MissingName));
    let no_in = dict(vec![("name", text("a"))]);
    assert_eq!(parser.describe_parameter(&no_in), Err(ResolveError::MissingIn));
}

#[test]
fn document_without_paths_is_refused() {
    let r = SwaggerYamlParser::from_document(dict(vec![("info", text("x"))]));
    assert!(matches!(r, Err(LoadError::MissingPaths)));
}

#[test]
fn first_method_gives_the_tags() {
    let op = dict(vec![
        ("delete", dict(vec![("tags", list(vec![text("d")]))])),
        ("post", dict(vec![("tags", list(vec![text("p1"), text("p2")]))])),
    ]);
    assert_eq!(tags_of(&op), "p1,p2");
    assert!(find_any_method(&op).is_some());
    assert!(find_any_method(&dict(vec![("head", dict(vec![]))])).is_none());
    assert_eq!(tags_of(&dict(vec![("get", dict(vec![]))])), "");
}

#[test]
fn parameters_of_all_methods_are_joined() {
    let root = dict(vec![(
        "paths",
        dict(vec![(
            "/a/{x}",
            dict(vec![
                ("post", dict(vec![("parameters", list(vec![dict(vec![("name", text("b")), ("in", text("query"))])]))])),
                ("get", dict(vec![("tags", list(vec![text("t")])), ("parameters", list(vec![dict(vec![("name", text("x")), ("in", text("path")), ("required", Doc::Flag(true))])]))])),
            ]),
        )]),
    )]);
    let parser = SwaggerYamlParser::from_document(root).ok().unwrap();
    let pats = parser.get_urls_regexes();
    let recs = parser.report_on_urls(&pats).ok().unwrap();
    assert_eq!(recs.len(), 1);
    assert_eq!(recs[0].0, "t");
    assert_eq!(recs[0].1, "/a/{x}");
    assert_eq!(recs[0].2, "[reqd]x: _ (in: path); [optl]b: _ (in: query)");
}

#[test]
fn report_is_sorted_by_tag_then_url() {
    let recs = vec![record("b", "/z", ""), record("a", "/y", "p"), record("b", "/c", "")];
    let text = report_text(recs);
    assert_eq!(text, "Tag\tURL\tParameters\na\t/y\tp\nb\t/c\t\nb\t/z\t\n");
}

#[test]
fn report_is_independent_of_record_order() {
    let one = report_text(vec![record("x", "/2", ""), record("x", "/1", ""), record("", "/0", "q")]);
    let two = report_text(vec![record("", "/0", "q"), record("x", "/1", ""), record("x", "/2", "")]);
    assert_eq!(one, two);
    assert_eq!(one, "Tag\tURL\tParameters\n\t/0\tq\nx\t/1\t\nx\t/2\t\n");
}

#[test]
fn writer_counts_records() {
    let w = OutTsvWriter::new("out.tsv".to_string());
    assert_eq!(w.file_name(), "out.tsv");
    let (text, n) = w.tsv_contents(vec![record("t", "/u", "")]);
    assert_eq!(n, 1);
    assert_eq!(text, "Tag\tURL\tParameters\nt\t/u\t\n");
    assert_eq!(ReportRecord::tsv_header(), "Tag\tURL\tParameters\n");
    assert_eq!(record("a", "b", "c").to_line(), "a\tb\tc\n");
}

#[test]
fn text_comparison() {
    assert_eq!(compare_text("a", "b"), Ordering::Less);
    assert_eq!(compare_text("ab", "a"), Ordering::Greater);
    assert_eq!(compare_text("", ""), Ordering::Equal);
    assert_eq!(compare_text("é", "z"), Ordering::Greater);
}

#[test]
fn end_to_end_two_paths() {
    let parser = SwaggerYamlParser::from_document(two_path_spec()).ok().unwrap();
    assert_eq!(parser.get_urls(), strings(vec!["/zen", "/orgs/{org}/repos"]));
    let patterns = parser.get_urls_regexes();
    let tree = files(vec![vec!["\"/zen\""]]);
    let (found, missing) = classify(&patterns, &tree);
    let not_found = parser.report_on_urls(&missing).ok().unwrap();
    let found_recs = parser.report_on_urls(&found).ok().unwrap();
    assert_eq!(not_found.len(), 1);
    assert_eq!(not_found[0].0, "orgs");
    assert_eq!(not_found[0].1, "/orgs/{org}/repos");
    assert_eq!(not_found[0].2, "[reqd]org: _ (in: path)");
    assert_eq!(found_recs.len(), 1);
    assert_eq!(found_recs[0].0, "meta");
    assert_eq!(found_recs[0].1, "/zen");
    assert_eq!(found_recs[0].2, "");
    assert_eq!(
        report_text(not_found),
        "Tag\tURL\tParameters\norgs\t/orgs/{org}/repos\t[reqd]org: _ (in: path)\n"
    );
    assert_eq!(report_text(found_recs), "Tag\tURL\tParameters\nmeta\t/zen\t\n");
}

#[test]
fn templates_sharing_a_pattern_each_get_a_record() {
    let root = dict(vec![(
        "paths",
        dict(vec![
            ("/r/{a}", dict(vec![("get", dict(vec![]))])),
            ("/r/{b}", dict(vec![("put", dict(vec![]))])),
            ("/s", dict(vec![])),
        ]),
    )]);
    let parser = SwaggerYamlParser::from_document(root).ok().unwrap();
    let recs = parser.report_on_urls(&vec![transform_into_regex("/r/{z}")]).ok().unwrap();
    assert_eq!(recs.len(), 2);
    assert_eq!(recs[0].1, "/r/{a}");
    assert_eq!(recs[1].1, "/r/{b}");
}

#[test]
fn compiled_marker_is_left_alone() {
    let once = transform_into_regex("/orgs/{org}/repos");
    let body = &once[1..once.len() - 1];
    assert_eq!(transform_into_regex(body), once);
}
