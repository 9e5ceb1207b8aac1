use ctags_to_scip::decode::{decode_lines, decode_record};
use ctags_to_scip::errors::DecodeError;

const GOOD: &str = r#"{"name":"foo","path":"a/b.c","pattern":"/^foo$/","language":"C","line":10,"kind":"function","scope":"outer","scopeKind":"class","roles":"def"}"#;

#[test]
fn full_record_decodes() {
    let r = decode_record(GOOD).unwrap();
    assert_eq!(r.name, "foo");
    assert_eq!(r.path, "a/b.c");
    assert_eq!(r.pattern, "/^foo$/");
    assert_eq!(r.language, "C");
    assert_eq!(r.line, 10);
    assert_eq!(r.kind, "function");
    assert_eq!(r.scope.as_deref(), Some("outer"));
    assert_eq!(r.scope_kind.as_deref(), Some("class"));
    assert_eq!(r.roles, "def");
}

#[test]
fn optional_fields_may_be_absent_or_null() {
    let line = r#"{"name":"n","path":"p","pattern":"q","language":"L","line":1,"kind":"k","roles":"def"}"#;
    let r = decode_record(line).unwrap();
    assert_eq!(r.scope, None);
    assert_eq!(r.scope_kind, None);
    let line = r#"{"name":"n","path":"p","pattern":"q","language":"L","line":1,"kind":"k","scope":null,"scopeKind":null,"roles":"def"}"#;
    let r = decode_record(line).unwrap();
    assert_eq!(r.scope, None);
    assert_eq!(r.scope_kind, None);
}

#[test]
fn malformed_json_is_a_syntax_error() {
    assert_eq!(decode_record("not json").unwrap_err(), DecodeError::Syntax);
    assert_eq!(decode_record("").unwrap_err(), DecodeError::Syntax);
    assert_eq!(decode_record("{\"name\":").unwrap_err(), DecodeError::Syntax);
}

#[test]
fn missing_required_field_is_a_field_error() {
    let line = r#"{"path":"p","pattern":"q","language":"L","line":1,"kind":"k","roles":"def"}"#;
    assert_eq!(decode_record(line).unwrap_err(), DecodeError::Field);
}

#[test]
fn mistyped_fields_are_field_errors() {
    let line = r#"{"name":7,"path":"p","pattern":"q","language":"L","line":1,"kind":"k","roles":"def"}"#;
    assert_eq!(decode_record(line).unwrap_err(), DecodeError::Field);
    let line = r#"{"name":"n","path":"p","pattern":"q","language":"L","line":"1","kind":"k","roles":"def"}"#;
    assert_eq!(decode_record(line).unwrap_err(), DecodeError::Field);
    let line = r#"{"name":"n","path":"p","pattern":"q","language":"L","line":1.5,"kind":"k","roles":"def"}"#;
    assert_eq!(decode_record(line).unwrap_err(), DecodeError::Field);
    let line = r#"{"name":"n","path":"p","pattern":"q","language":"L","line":1,"kind":"k","scope":7,"roles":"def"}"#;
    assert_eq!(decode_record(line).unwrap_err(), DecodeError::Field);
    let line = r#"[1,2,3]"#;
    assert_eq!(decode_record(line).unwrap_err(), DecodeError::Field);
}

#[test]
fn line_must_fit_the_record_type() {
    let line = r#"{"name":"n","path":"p","pattern":"q","language":"L","line":2147483648,"kind":"k","roles":"def"}"#;
    assert_eq!(decode_record(line).unwrap_err(), DecodeError::Field);
    let line = r#"{"name":"n","path":"p","pattern":"q","language":"L","line":-2147483648,"kind":"k","roles":"def"}"#;
    assert_eq!(decode_record(line).unwrap().line, -2147483648);
}

#[test]
fn non_def_roles_still_decode() {
    let line = r#"{"name":"n","path":"p","pattern":"q","language":"L","line":1,"kind":"k","roles":"ref"}"#;
    assert_eq!(decode_record(line).unwrap().roles, "ref");
}

#[test]
fn batch_decoding_stops_at_the_first_failure() {
    let lines = vec![GOOD.to_string(), "bad".to_string(), GOOD.to_string()];
    assert_eq!(decode_lines(&lines).unwrap_err(), DecodeError::Syntax);
    let lines = vec![GOOD.to_string(), GOOD.to_string()];
    assert_eq!(decode_lines(&lines).unwrap().len(), 2);
}

#[test]
fn batch_decoding_reports_the_first_error_not_a_later_one() {
    let missing = r#"{"path":"p","pattern":"q","language":"L","line":1,"kind":"k","roles":"def"}"#;
    let lines = vec![missing.to_string(), "garbage".to_string()];
    assert_eq!(decode_lines(&lines).unwrap_err(), DecodeError::Field);
    let lines = vec!["garbage".to_string(), missing.to_string()];
    assert_eq!(decode_lines(&lines).unwrap_err(), DecodeError::Syntax);
}
