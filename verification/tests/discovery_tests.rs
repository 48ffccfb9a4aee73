use lazyjust::app::types::{Justfile, ParamKind};
use lazyjust::discovery::json::JsonValue;
use lazyjust::discovery::parse::{convert_param, decode_dump, extract_group, parse_dump, parse_dump_with_path, render_body};
use lazyjust::discovery::walk::{absolutize, is_ignored_dir_name, is_justfile_name};
use lazyjust::discovery::{collect_groups, dedup_by_keys, finish_discovery, justfile_from_dump, plan_paths, walk_roots, DiscoverOptions};
use lazyjust::error::Error;

#[test]
fn walk_roots_default_is_cwd() {
    let roots = walk_roots(&DiscoverOptions { path: None, justfile: None });
    assert_eq!(roots, vec![".".to_string()]);
}

#[test]
fn walk_roots_path_only() {
    let roots = walk_roots(&DiscoverOptions { path: Some("some/path".to_string()), justfile: None });
    assert_eq!(roots, vec!["some/path".to_string()]);
}

#[test]
fn walk_roots_justfile_only_uses_parent() {
    let roots = walk_roots(&DiscoverOptions { path: None, justfile: Some("some/path/justfile".to_string()) });
    assert_eq!(roots.len(), 1);
    assert!(roots[0].ends_with("some/path"), "expected parent of justfile, got {:?}", roots[0]);
}

#[test]
fn walk_roots_makes_the_justfile_directory_absolute() {
    let roots = walk_roots(&DiscoverOptions { path: None, justfile: Some("some/path/justfile".to_string()) });
    assert!(roots[0].starts_with('/'), "expected an absolute directory, got {:?}", roots[0]);
    assert!(!roots[0].ends_with("justfile"));
}

#[test]
fn walk_roots_path_plus_justfile_unions() {
    let roots = walk_roots(&DiscoverOptions { path: Some("a".to_string()), justfile: Some("b/justfile".to_string()) });
    assert_eq!(roots.len(), 2);
    assert_eq!(roots[0], "a");
    assert!(roots[1].ends_with("b"));
}

#[test]
fn walk_roots_path_equal_to_justfile_parent_dedups() {
    let roots = walk_roots(&DiscoverOptions { path: Some("a".to_string()), justfile: Some("a/justfile".to_string()) });
    assert_eq!(roots.len(), 1);
}

#[test]
fn name_matcher() {
    assert!(is_justfile_name("justfile"));
    assert!(is_justfile_name("Justfile"));
    assert!(is_justfile_name(".justfile"));
    assert!(is_justfile_name("common.just"));
    assert!(!is_justfile_name("foo.txt"));
}

#[test]
fn ignored_directories() {
    assert!(is_ignored_dir_name("node_modules"));
    assert!(is_ignored_dir_name(".git"));
    assert!(is_ignored_dir_name("target"));
    assert!(is_ignored_dir_name("dist"));
    assert!(!is_ignored_dir_name("src"));
}

#[test]
fn dedup_keeps_first_root_per_key() {
    let roots = vec!["a".to_string(), "./a".to_string(), "b".to_string()];
    let keys = vec!["/w/a".to_string(), "/w/a".to_string(), "/w/b".to_string()];
    assert_eq!(dedup_by_keys(roots, &keys), vec!["a".to_string(), "b".to_string()]);
}

#[test]
fn plan_paths_merges_sorts_and_adds_the_pin() {
    let walked = vec![
        vec!["/r/b/justfile".to_string(), "/r/a/justfile".to_string()],
        vec!["/r/a/justfile".to_string(), "/r/a-b/justfile".to_string()],
    ];
    let r = plan_paths(&walked, &Some("/r/z.just".to_string()));
    assert_eq!(
        r,
        vec![
            "/r/a/justfile".to_string(),
            "/r/a-b/justfile".to_string(),
            "/r/b/justfile".to_string(),
            "/r/z.just".to_string(),
        ]
    );
}

const DUMP: &str = r#"{"recipes": {
  "test": {"parameters": [], "body": [["cargo test"]], "doc": "run tests", "attributes": [{"group": "ci"}], "private": false, "dependencies": [{"recipe": "build"}]},
  "build": {"parameters": [{"name": "target", "default": "debug", "kind": "singular"}, {"name": "rest", "kind": "star"}], "body": [["cargo build ", ["variable", "target"]]], "doc": "", "attributes": ["group('dev')"], "private": false, "dependencies": []},
  "_hidden": {"private": true}
}}"#;

#[test]
fn parse_dump_reads_public_recipes_sorted() {
    let rs = match parse_dump(DUMP) {
        Ok(rs) => rs,
        Err(_) => panic!("dump should parse"),
    };
    assert_eq!(rs.len(), 2);
    assert_eq!(rs[0].name, "build");
    assert_eq!(rs[1].name, "test");
    assert_eq!(rs[0].group, Some("dev".to_string()));
    assert_eq!(rs[1].group, Some("ci".to_string()));
    assert_eq!(rs[0].doc, None);
    assert_eq!(rs[1].doc, Some("run tests".to_string()));
    assert_eq!(rs[0].command_preview, "cargo build {{target}}");
    assert_eq!(rs[1].command_preview, "cargo test");
    assert_eq!(rs[0].params.len(), 2);
    assert_eq!(rs[0].params[0].name, "target");
    assert_eq!(rs[0].params[0].default, Some("debug".to_string()));
    assert_eq!(rs[0].params[0].kind, ParamKind::Positional);
    assert_eq!(rs[0].params[1].kind, ParamKind::Variadic);
    assert_eq!(rs[1].dependencies, vec!["build".to_string()]);
}

#[test]
fn parse_dump_reports_bad_json() {
    match parse_dump_with_path("{not json", &"/p/justfile".to_string()) {
        Err(Error::JustDumpParse { path, message }) => {
            assert_eq!(path, "/p/justfile");
            assert!(!message.is_empty());
        },
        _ => panic!("expected a parse error"),
    }
}

#[test]
fn parse_dump_requires_recipes() {
    match parse_dump("{}") {
        Err(Error::JustDumpParse { path, message }) => {
            assert_eq!(path, "<unknown>");
            assert_eq!(message, "missing field `recipes`");
        },
        _ => panic!("expected a missing-field error"),
    }
}

#[test]
fn parse_dump_rejects_a_non_boolean_private() {
    assert!(parse_dump(r#"{"recipes": {"a": {"private": "yes"}}}"#).is_err());
}

#[test]
fn decode_dump_lets_the_last_entry_win() {
    let v = JsonValue::Object(vec![(
        "recipes".to_string(),
        JsonValue::Object(vec![
            ("a".to_string(), JsonValue::Object(vec![("doc".to_string(), JsonValue::Str("first".to_string()))])),
            ("a".to_string(), JsonValue::Object(vec![("doc".to_string(), JsonValue::Str("second".to_string()))])),
        ]),
    )]);
    let rs = match decode_dump(&v) {
        Ok(rs) => rs,
        Err(_) => panic!("should decode"),
    };
    assert_eq!(rs.len(), 1);
    assert_eq!(rs[0].doc, Some("second".to_string()));
}

#[test]
fn body_lines_join_with_newlines() {
    let body = vec![
        JsonValue::Str("echo a".to_string()),
        JsonValue::Number("1".to_string()),
        JsonValue::Array(vec![JsonValue::Str("echo ".to_string()), JsonValue::Array(vec![JsonValue::Str("variable".to_string()), JsonValue::Str("x".to_string())])]),
    ];
    assert_eq!(render_body(&body), "echo a\necho {{x}}");
}

#[test]
fn group_from_string_attribute_is_trimmed() {
    let attrs = vec![JsonValue::Str("group(\"ops\")".to_string())];
    assert_eq!(extract_group(&attrs), Some("ops".to_string()));
    assert_eq!(extract_group(&vec![JsonValue::Str("private".to_string())]), None);
}

#[test]
fn param_kind_defaults_to_positional() {
    let p = JsonValue::Object(vec![("name".to_string(), JsonValue::Str("x".to_string()))]);
    match convert_param(&p) {
        Ok(param) => {
            assert_eq!(param.kind, ParamKind::Positional);
            assert_eq!(param.default, None);
        },
        Err(_) => panic!("param should decode"),
    }
    let missing = JsonValue::Object(vec![]);
    assert!(convert_param(&missing).is_err());
}

#[test]
fn failed_dump_becomes_an_error() {
    match justfile_from_dump(&"/p/justfile".to_string(), false, None, "", "boom") {
        Err(Error::JustDump { path, code, stderr }) => {
            assert_eq!(path, "/p/justfile");
            assert_eq!(code, -1);
            assert_eq!(stderr, "boom");
        },
        _ => panic!("expected a dump error"),
    }
}

#[test]
fn dumped_justfile_collects_groups_in_order() {
    let jf = match justfile_from_dump(&"/p/justfile".to_string(), true, Some(0), DUMP, "") {
        Ok(j) => j,
        Err(_) => panic!("should parse"),
    };
    assert_eq!(jf.groups, vec!["dev".to_string(), "ci".to_string()]);
    assert_eq!(collect_groups(&jf.recipes), vec!["dev".to_string(), "ci".to_string()]);
}

#[test]
fn finish_discovery_selects_the_pin() {
    let a = Justfile { path: "/r/a/justfile".to_string(), recipes: vec![], groups: vec![] };
    let b = Justfile { path: "/r/b/justfile".to_string(), recipes: vec![], groups: vec![] };
    let outcomes = vec![
        ("/r/a/justfile".to_string(), Ok(a)),
        ("/r/bad/justfile".to_string(), Err(Error::JustNotFound)),
        ("/r/b/justfile".to_string(), Ok(b)),
    ];
    let r = finish_discovery(outcomes, &Some("/r/b/justfile".to_string()));
    assert_eq!(r.justfiles.len(), 2);
    assert_eq!(r.active_index, 1);
    assert_eq!(r.errors.len(), 1);
    assert_eq!(r.errors[0].0, "/r/bad/justfile");
    assert_eq!(r.errors[0].1, "`just` binary not found on PATH. Install: https://github.com/casey/just");
}

#[test]
fn error_messages_name_their_cause() {
    let e = Error::JustDump { path: "/p".to_string(), code: 3, stderr: "bad".to_string() };
    assert_eq!(e.message(), "`just --dump` failed for /p: exit 3\nbad");
    let t = Error::TerminalTooSmall { cols: 30, rows: 8, min_cols: 40, min_rows: 10 };
    assert_eq!(t.message(), "terminal too small: minimum 40x10, got 30x8");
}

#[test]
fn absolutize_resolves_like_posix() {
    assert_eq!(absolutize(&"/a//b/./c/".to_string()), "/a/b/c/");
    assert_eq!(absolutize(&"/x/../y".to_string()), "/x/../y");
    let rel = absolutize(&"./some//dir/.".to_string());
    assert!(rel.starts_with('/'));
    assert!(rel.ends_with("/some/dir"), "got {rel:?}");
    assert_eq!(absolutize(&String::new()), "");
}
