use ctags_to_scip::aggregate::{process_records, Document, DocumentMap, Occurrence};
use ctags_to_scip::errors::{DecodeError, RunError};
use ctags_to_scip::index::{assemble_index, build_index};
use ctags_to_scip::record::TagRecord;
use ctags_to_scip::text::{split_lines, split_str};

fn record(name: &str, path: &str, language: &str, kind: &str, line: i32, roles: &str) -> TagRecord {
    TagRecord {
        name: name.to_string(),
        path: path.to_string(),
        pattern: String::new(),
        language: language.to_string(),
        line,
        kind: kind.to_string(),
        scope: None,
        scope_kind: None,
        roles: roles.to_string(),
    }
}

fn doc<'a>(docs: &'a [Document], path: &str) -> &'a Document {
    docs.iter().find(|d| d.relative_path == path).unwrap()
}

#[test]
fn two_records_one_document() {
    let first = r#"{"name":"foo","path":"a/b.c","pattern":"x","language":"C","line":10,"kind":"function","roles":"def"}"#;
    let second = r#"{"name":"x.y","path":"a/b.c","pattern":"x","language":"C","line":2,"kind":"variable","roles":"def"}"#;
    let input = format!("{}\n{}\n", first, second);
    let idx = build_index(&input, "root".to_string(), vec!["tool".to_string()]).unwrap();
    assert_eq!(idx.documents.len(), 1);
    let d = &idx.documents[0];
    assert_eq!(d.relative_path, "a/b.c");
    assert_eq!(d.language, "C");
    assert_eq!(d.occurrences.len(), 2);
    assert_eq!(d.occurrences[0].start_line, 9);
    assert_eq!(d.occurrences[1].start_line, 1);
    assert_eq!(
        d.symbols[0].as_str(),
        "file no_package_manager no_package no_version a/`b.c`/foo(10)."
    );
    assert_eq!(
        d.symbols[1].as_str(),
        "file no_package_manager no_package no_version a/`b.c`/`x.y`."
    );
    assert_eq!(d.occurrences[0].symbol, d.symbols[0]);
    assert_eq!(d.occurrences[1].symbol, d.symbols[1]);
}

#[test]
fn per_path_order_follows_input_order() {
    let records = vec![
        record("a1", "one", "C", "variable", 1, "def"),
        record("b1", "two", "C", "variable", 2, "def"),
        record("a2", "one", "C", "variable", 3, "def"),
        record("b2", "two", "C", "variable", 4, "def"),
        record("a3", "one", "C", "variable", 5, "def"),
    ];
    let docs = process_records(&records).unwrap();
    assert_eq!(docs.len(), 2);
    let one = doc(&docs, "one");
    assert_eq!(one.occurrences.len(), 3);
    assert_eq!(one.occurrences[0].start_line, 0);
    assert_eq!(one.occurrences[1].start_line, 2);
    assert_eq!(one.occurrences[2].start_line, 4);
    let two = doc(&docs, "two");
    assert_eq!(two.occurrences.len(), 2);
    assert_eq!(two.occurrences[0].start_line, 1);
    assert_eq!(two.occurrences[1].start_line, 3);
}

#[test]
fn first_language_wins() {
    let records = vec![
        record("a", "p", "C", "variable", 1, "def"),
        record("b", "p", "Rust", "variable", 2, "def"),
    ];
    let docs = process_records(&records).unwrap();
    assert_eq!(docs.len(), 1);
    assert_eq!(docs[0].language, "C");
}

#[test]
fn occurrence_ranges_are_zero_column_definitions() {
    let records = vec![record("a", "p", "C", "function", 7, "def")];
    let docs = process_records(&records).unwrap();
    let o = &docs[0].occurrences[0];
    assert_eq!(o.start_line, 6);
    assert_eq!(o.start_column, 0);
    assert_eq!(o.end_column, 0);
    assert_eq!(o.symbol_roles, 1);
}

#[test]
fn non_def_role_rejects_the_run() {
    let records = vec![
        record("a", "p", "C", "variable", 1, "def"),
        record("b", "p", "C", "variable", 2, "ref"),
    ];
    assert_eq!(process_records(&records).unwrap_err(), RunError::UnsupportedRole);
}

#[test]
fn non_def_role_halts_before_any_index() {
    let line = r#"{"name":"a","path":"p","pattern":"x","language":"C","line":1,"kind":"variable","roles":"ref"}"#;
    let input = format!("{}\n", line);
    let r = build_index(&input, "root".to_string(), vec![]);
    assert_eq!(r.unwrap_err(), RunError::UnsupportedRole);
}

#[test]
fn bad_line_aborts_the_whole_run() {
    let line = r#"{"name":"a","path":"p","pattern":"x","language":"C","line":1,"kind":"variable","roles":"def"}"#;
    let input = format!("{}\ngarbage\n", line);
    let r = build_index(&input, "root".to_string(), vec![]);
    assert_eq!(r.unwrap_err(), RunError::Decode(DecodeError::Syntax));
}

#[test]
fn empty_input_yields_an_empty_index() {
    let idx = build_index("", "root".to_string(), vec![]).unwrap();
    assert_eq!(idx.documents.len(), 0);
    assert_eq!(idx.metadata.project_root, "root");
}

#[test]
fn metadata_carries_the_fixed_tool_identity() {
    let idx = assemble_index(
        "/the/root".to_string(),
        vec!["one".to_string(), "two".to_string()],
        Vec::new(),
    );
    assert_eq!(idx.metadata.tool_name, "ctags-to-scip");
    assert_eq!(idx.metadata.tool_version, "0.0.1");
    assert_eq!(idx.metadata.project_root, "/the/root");
    assert_eq!(idx.metadata.tool_arguments, vec!["one".to_string(), "two".to_string()]);
}

#[test]
fn document_map_reuses_existing_paths() {
    let mut map = DocumentMap::new();
    let p = "a".to_string();
    let c = "C".to_string();
    let first = map.lookup_or_create(&p, &c);
    let again = map.lookup_or_create(&p, &"Rust".to_string());
    assert_eq!(first, again);
    assert_eq!(map.docs.len(), 1);
    assert_eq!(map.docs[0].language, "C");
    map.append_entry(
        first,
        "sym".to_string(),
        Occurrence {
            start_line: 0,
            start_column: 0,
            end_column: 0,
            symbol: "sym".to_string(),
            symbol_roles: 1,
        },
    );
    assert_eq!(map.docs[0].symbols.len(), 1);
    assert_eq!(map.docs[0].occurrences.len(), 1);
}

#[test]
fn split_lines_follows_the_line_discipline() {
    let lines = split_lines("foo\r\nbar\n\nbaz\r");
    assert_eq!(lines, vec!["foo", "bar", "", "baz\r"]);
    assert_eq!(split_lines(""), Vec::<String>::new());
    assert_eq!(split_lines("a\n"), vec!["a"]);
    assert_eq!(split_lines("a"), vec!["a"]);
    assert_eq!(split_lines("\n"), vec![""]);
}

#[test]
fn crlf_input_decodes_like_lf_input() {
    let line = r#"{"name":"a","path":"p","pattern":"x","language":"C","line":3,"kind":"variable","roles":"def"}"#;
    let idx = build_index(&format!("{}\r\n", line), "root".to_string(), vec![]).unwrap();
    assert_eq!(idx.documents.len(), 1);
    assert_eq!(idx.documents[0].occurrences[0].start_line, 2);
}

#[test]
fn equal_keys_give_equal_symbols_and_lines_distinguish() {
    let records = vec![
        record("f", "p", "C", "function", 4, "def"),
        record("f", "p", "C", "function", 4, "def"),
        record("f", "p", "C", "function", 9, "def"),
    ];
    let docs = process_records(&records).unwrap();
    let d = doc(&docs, "p");
    assert_eq!(d.symbols[0], d.symbols[1]);
    assert_ne!(d.symbols[0], d.symbols[2]);
}

#[test]
fn split_str_keeps_empty_pieces() {
    assert_eq!(split_str("a/b.c", '/'), vec!["a", "b.c"]);
    assert_eq!(split_str("", '/'), vec![""]);
    assert_eq!(split_str("a//b/", '/'), vec!["a", "", "b", ""]);
}
