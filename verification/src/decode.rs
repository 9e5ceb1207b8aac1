//! The tag record decoder: one input line of JSON becomes one record, or a
//! decode error. Decoding is purely syntactic; role legality is judged
//! later, by the processing pass.
//!
//! Parsing is delegated to serde_json. Its outcome on a line depends on
//! the line's text alone, so each outcome carries a name: `json_parses`
//! and the field lookups below. The trusted wrappers state their results
//! over those names, `spec_decode` combines the names into the one decode
//! function of a line, and `decode_record` is proved to return exactly
//! `spec_decode` of its input.

use vstd::prelude::*;
use crate::aggregate::views_of_records;
use crate::errors::DecodeError;
use crate::record::{TagRecord, TagRecordV};
use crate::text::views_of_strings;

verus! {

/// Whether serde_json::from_str::<Value> accepts `s` as one JSON value.
pub uninterp spec fn json_parses(s: Seq<char>) -> bool;

/// Whether the JSON value parsed from `s` is an object with field `key`:
/// what serde_json's Value::get reports after from_str.
pub uninterp spec fn json_has_field(s: Seq<char>, key: Seq<char>) -> bool;

/// Whether field `key` of the object parsed from `s` is JSON null: what
/// serde_json's Value::is_null reports after from_str and Value::get.
pub uninterp spec fn json_null_field(s: Seq<char>, key: Seq<char>) -> bool;

/// The string content of field `key` of the object parsed from `s`, None
/// when `s` does not parse, the field is absent, or it is not a string:
/// what serde_json's Value::as_str reports after from_str and Value::get.
pub uninterp spec fn json_str_field(s: Seq<char>, key: Seq<char>) -> Option<Seq<char>>;

/// The integer content of field `key` of the object parsed from `s`, None
/// when `s` does not parse, the field is absent, or it is not an integer
/// representable in 64 signed bits: what serde_json's Value::as_i64
/// reports after from_str and Value::get.
pub uninterp spec fn json_int_field(s: Seq<char>, key: Seq<char>) -> Option<int>;

/// Relies on serde_json::from_str::<Value>: whether `line` is one
/// well-formed JSON value.
#[verifier::external_body]
fn json_parse_ok(line: &str) -> (r: bool)
    ensures
        r == json_parses(line@),
{
    serde_json::from_str::<serde_json::Value>(line).is_ok()
}

/// Relies on serde_json::from_str::<Value> and Value::get: whether the
/// parsed line is an object holding field `key`.
#[verifier::external_body]
fn json_field_present(line: &str, key: &str) -> (r: bool)
    ensures
        r == json_has_field(line@, key@),
{
    match serde_json::from_str::<serde_json::Value>(line) {
        Ok(v) => v.get(key).is_some(),
        Err(_) => false,
    }
}

/// Relies on serde_json::from_str::<Value>, Value::get and Value::is_null:
/// whether field `key` of the parsed line is JSON null.
#[verifier::external_body]
fn json_field_is_null(line: &str, key: &str) -> (r: bool)
    ensures
        r == json_null_field(line@, key@),
{
    match serde_json::from_str::<serde_json::Value>(line) {
        Ok(v) => match v.get(key) {
            Some(f) => f.is_null(),
            None => false,
        },
        Err(_) => false,
    }
}

/// Relies on serde_json::from_str::<Value>, Value::get and Value::as_str:
/// the string content of field `key` of the parsed line.
#[verifier::external_body]
fn json_field_string(line: &str, key: &str) -> (r: Option<String>)
    ensures
        r is Some <==> json_str_field(line@, key@) is Some,
        r is Some ==> (r->0)@ == json_str_field(line@, key@)->0,
{
    match serde_json::from_str::<serde_json::Value>(line) {
        Ok(v) => match v.get(key) {
            Some(f) => match f.as_str() {
                Some(s) => Some(s.to_owned()),
                None => None,
            },
            None => None,
        },
        Err(_) => None,
    }
}

/// Relies on serde_json::from_str::<Value>, Value::get and Value::as_i64:
/// the integer content of field `key` of the parsed line.
#[verifier::external_body]
fn json_field_i64(line: &str, key: &str) -> (r: Option<i64>)
    ensures
        r is Some <==> json_int_field(line@, key@) is Some,
        r is Some ==> r->0 as int == json_int_field(line@, key@)->0,
{
    match serde_json::from_str::<serde_json::Value>(line) {
        Ok(v) => match v.get(key) {
            Some(f) => f.as_i64(),
            None => None,
        },
        Err(_) => None,
    }
}

/// The decode of an optional string field: absent and null both mean
/// None; any other non-string value is a decode error.
pub open spec fn spec_opt_field(s: Seq<char>, key: Seq<char>) -> Result<
    Option<Seq<char>>,
    DecodeError,
> {
    if !json_has_field(s, key) {
        Ok(None)
    } else if json_null_field(s, key) {
        Ok(None)
    } else if json_str_field(s, key) is Some {
        Ok(Some(json_str_field(s, key)->0))
    } else {
        Err(DecodeError::Field)
    }
}

/// The decode of one input line: `Syntax` when the line is not one JSON
/// value, `Field` when a required field is absent or mistyped, the line
/// number does not fit the record's integer type, or an optional field is
/// neither a string nor null; else the record the fields determine.
pub open spec fn spec_decode(s: Seq<char>) -> Result<TagRecordV, DecodeError> {
    if !json_parses(s) {
        Err(DecodeError::Syntax)
    } else if json_str_field(s, "name"@) is None {
        Err(DecodeError::Field)
    } else if json_str_field(s, "path"@) is None {
        Err(DecodeError::Field)
    } else if json_str_field(s, "pattern"@) is None {
        Err(DecodeError::Field)
    } else if json_str_field(s, "language"@) is None {
        Err(DecodeError::Field)
    } else if json_int_field(s, "line"@) is None {
        Err(DecodeError::Field)
    } else if json_int_field(s, "line"@)->0 < i32::MIN as int || json_int_field(s, "line"@)->0
        > i32::MAX as int {
        Err(DecodeError::Field)
    } else if json_str_field(s, "kind"@) is None {
        Err(DecodeError::Field)
    } else if spec_opt_field(s, "scope"@) is Err {
        Err(DecodeError::Field)
    } else if spec_opt_field(s, "scopeKind"@) is Err {
        Err(DecodeError::Field)
    } else if json_str_field(s, "roles"@) is None {
        Err(DecodeError::Field)
    } else {
        Ok(
            TagRecordV {
                name: json_str_field(s, "name"@)->0,
                path: json_str_field(s, "path"@)->0,
                pattern: json_str_field(s, "pattern"@)->0,
                language: json_str_field(s, "language"@)->0,
                line: json_int_field(s, "line"@)->0,
                kind: json_str_field(s, "kind"@)->0,
                scope: spec_opt_field(s, "scope"@)->Ok_0,
                scope_kind: spec_opt_field(s, "scopeKind"@)->Ok_0,
                roles: json_str_field(s, "roles"@)->0,
            },
        )
    }
}

/// The optional string under `key`: absent and null both mean None; any
/// other non-string value is a decode error.
fn optional_string_field(line: &str, key: &str) -> (r: Result<Option<String>, DecodeError>)
    ensures
        r is Ok <==> spec_opt_field(line@, key@) is Ok,
        r is Ok ==> (match r->Ok_0 {
            Some(s) => Some(s@),
            None => None,
        }) == spec_opt_field(line@, key@)->Ok_0,
        r is Err ==> r->Err_0 == DecodeError::Field,
{
    if !json_field_present(line, key) {
        Ok(None)
    } else if json_field_is_null(line, key) {
        Ok(None)
    } else {
        match json_field_string(line, key) {
            Some(s) => Ok(Some(s)),
            None => Err(DecodeError::Field),
        }
    }
}

/// Decodes one input line; returns exactly what `spec_decode` says for
/// the line's text.
pub fn decode_record(line: &str) -> (r: Result<TagRecord, DecodeError>)
    ensures
        r is Ok <==> spec_decode(line@) is Ok,
        r is Ok ==> (r->Ok_0)@ == spec_decode(line@)->Ok_0,
        r is Err ==> spec_decode(line@) is Err && r->Err_0 == spec_decode(line@)->Err_0,
{
    if !json_parse_ok(line) {
        return Err(DecodeError::Syntax);
    }
    let name = match json_field_string(line, "name") {
        Some(s) => s,
        None => {
            return Err(DecodeError::Field);
        },
    };
    let path = match json_field_string(line, "path") {
        Some(s) => s,
        None => {
            return Err(DecodeError::Field);
        },
    };
    let pattern = match json_field_string(line, "pattern") {
        Some(s) => s,
        None => {
            return Err(DecodeError::Field);
        },
    };
    let language = match json_field_string(line, "language") {
        Some(s) => s,
        None => {
            return Err(DecodeError::Field);
        },
    };
    let line_wide = match json_field_i64(line, "line") {
        Some(x) => x,
        None => {
            return Err(DecodeError::Field);
        },
    };
    if line_wide < i32::MIN as i64 || line_wide > i32::MAX as i64 {
        return Err(DecodeError::Field);
    }
    let kind = match json_field_string(line, "kind") {
        Some(s) => s,
        None => {
            return Err(DecodeError::Field);
        },
    };
    let scope = match optional_string_field(line, "scope") {
        Ok(v) => v,
        Err(e) => {
            return Err(e);
        },
    };
    let scope_kind = match optional_string_field(line, "scopeKind") {
        Ok(v) => v,
        Err(e) => {
            return Err(e);
        },
    };
    let roles = match json_field_string(line, "roles") {
        Some(s) => s,
        None => {
            return Err(DecodeError::Field);
        },
    };
    let record = TagRecord {
        name,
        path,
        pattern,
        language,
        line: line_wide as i32,
        kind,
        scope,
        scope_kind,
        roles,
    };
    proof {
        assert(record@ == spec_decode(line@)->Ok_0);
    }
    Ok(record)
}

/// Whether every line of `ls` decodes to a record.
pub open spec fn all_lines_decode(ls: Seq<Seq<char>>) -> bool {
    forall|i: int| 0 <= i < ls.len() ==> (#[trigger] spec_decode(ls[i])) is Ok
}

/// Decodes every line in order; the first failure aborts the whole batch
/// with that line's error.
pub fn decode_lines(lines: &Vec<String>) -> (r: Result<Vec<TagRecord>, DecodeError>)
    ensures
        r is Ok <==> all_lines_decode(views_of_strings(lines@)),
        r is Ok ==> views_of_records((r->Ok_0)@) == views_of_strings(
            lines@,
        ).map_values(|l: Seq<char>| spec_decode(l)->Ok_0),
        r is Err ==> ({
            let ls = views_of_strings(lines@);
            exists|i: int|
                0 <= i < ls.len() && (#[trigger] spec_decode(ls[i])) is Err && r->Err_0
                    == spec_decode(ls[i])->Err_0 && (forall|j: int|
                    0 <= j < i ==> (#[trigger] spec_decode(ls[j])) is Ok)
        }),
{
    let ghost ls = views_of_strings(lines@);
    let mut records: Vec<TagRecord> = Vec::new();
    let n = lines.len();
    let mut i: usize = 0;
    while i < n
        invariant
            n == lines@.len(),
            ls == views_of_strings(lines@),
            0 <= i <= n,
            records@.len() == i,
            forall|k: int|
                0 <= k < i ==> (#[trigger] spec_decode(ls[k])) is Ok && records@[k]@ == spec_decode(
                    ls[k],
                )->Ok_0,
        decreases n - i,
    {
        proof {
            assert(ls[i as int] == lines@[i as int]@);
        }
        match decode_record(lines[i].as_str()) {
            Ok(rec) => {
                records.push(rec);
            },
            Err(e) => {
                return Err(e);
            },
        }
        i = i + 1;
    }
    proof {
        assert(views_of_records(records@) =~= ls.map_values(
            |l: Seq<char>| spec_decode(l)->Ok_0,
        ));
    }
    Ok(records)
}

} // verus!
