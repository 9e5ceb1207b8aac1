use ctags_to_scip::record::TagRecord;
use ctags_to_scip::symbol::{contains_bad_chars, emit_name_maybe_escape, synthesize_symbol};

fn record(name: &str, path: &str, kind: &str, line: i32) -> TagRecord {
    TagRecord {
        name: name.to_string(),
        path: path.to_string(),
        pattern: String::new(),
        language: "C".to_string(),
        line,
        kind: kind.to_string(),
        scope: None,
        scope_kind: None,
        roles: "def".to_string(),
    }
}

#[test]
fn bad_chars_detected() {
    for s in ["a/b", "#x", "a.b", "a:b", "a!b", "f(", ")g", "[i", "j]"] {
        assert!(contains_bad_chars(s));
    }
}

#[test]
fn clean_strings_pass() {
    for s in ["", "foo", "snake_case", "With Spaces", "back`tick", "dash-x"] {
        assert!(!contains_bad_chars(s));
    }
}

#[test]
fn emit_without_escaping() {
    let mut s = String::from("pre:");
    emit_name_maybe_escape(&mut s, "name");
    assert_eq!(s, "pre:name");
}

#[test]
fn emit_with_escaping() {
    let mut s = String::new();
    emit_name_maybe_escape(&mut s, "x.y");
    assert_eq!(s, "`x.y`");
}

#[test]
fn function_symbol_has_line_suffix() {
    let r = record("foo", "a/b.c", "function", 10);
    let sym = synthesize_symbol(&r);
    assert_eq!(sym, "file no_package_manager no_package no_version a/`b.c`/foo(10).");
    assert!(sym.contains("(10)."));
}

#[test]
fn non_function_symbol_ends_with_single_period() {
    let r = record("x.y", "a/b.c", "variable", 2);
    let sym = synthesize_symbol(&r);
    assert_eq!(sym, "file no_package_manager no_package no_version a/`b.c`/`x.y`.");
    assert!(sym.ends_with("."));
    assert!(!sym.ends_with(".."));
    assert!(!sym.contains("("));
}

#[test]
fn clean_tokens_get_no_backticks() {
    let r = record("foo", "src/lib_rs", "variable", 1);
    let sym = synthesize_symbol(&r);
    assert_eq!(sym, "file no_package_manager no_package no_version src/lib_rs/foo.");
    assert!(!sym.contains('`'));
}

#[test]
fn synthesis_is_deterministic() {
    let r = record("foo", "a/b.c", "function", 10);
    let first = synthesize_symbol(&r);
    let second = synthesize_symbol(&r);
    assert_eq!(first, second);
}

#[test]
fn zero_and_negative_lines_render_in_decimal() {
    let r = record("f", "p", "function", 0);
    assert_eq!(synthesize_symbol(&r), "file no_package_manager no_package no_version p/f(0).");
    let r = record("f", "p", "function", -57);
    assert_eq!(synthesize_symbol(&r), "file no_package_manager no_package no_version p/f(-57).");
    let r = record("f", "p", "function", 2147483647);
    assert_eq!(
        synthesize_symbol(&r),
        "file no_package_manager no_package no_version p/f(2147483647)."
    );
    let r = record("f", "p", "function", -2147483648);
    assert_eq!(
        synthesize_symbol(&r),
        "file no_package_manager no_package no_version p/f(-2147483648)."
    );
}

#[test]
fn empty_path_still_has_one_segment() {
    let r = record("n", "", "variable", 1);
    assert_eq!(synthesize_symbol(&r), "file no_package_manager no_package no_version /n.");
}

#[test]
fn empty_segments_are_kept() {
    let r = record("n", "a//b", "variable", 1);
    assert_eq!(synthesize_symbol(&r), "file no_package_manager no_package no_version a//b/n.");
}
