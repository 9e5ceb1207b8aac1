//! The normalized tag record: one "this name, of this kind, is defined at
//! this line in this file" fact, immutable once decoded.

use vstd::prelude::*;

verus! {

/// The mathematical content of one tag record.
pub ghost struct TagRecordV {
    pub name: Seq<char>,
    pub path: Seq<char>,
    pub pattern: Seq<char>,
    pub language: Seq<char>,
    pub line: int,
    pub kind: Seq<char>,
    pub scope: Option<Seq<char>>,
    pub scope_kind: Option<Seq<char>>,
    pub roles: Seq<char>,
}

/// One decoded input record. `pattern`, `scope` and `scope_kind` are carried
/// for forward compatibility but not consumed by symbol synthesis.
#[derive(Debug)]
pub struct TagRecord {
    pub name: String,
    pub path: String,
    pub pattern: String,
    pub language: String,
    pub line: i32,
    pub kind: String,
    pub scope: Option<String>,
    pub scope_kind: Option<String>,
    pub roles: String,
}

impl View for TagRecord {
    type V = TagRecordV;

    open spec fn view(&self) -> TagRecordV {
        TagRecordV {
            name: self.name@,
            path: self.path@,
            pattern: self.pattern@,
            language: self.language@,
            line: self.line as int,
            kind: self.kind@,
            scope: match self.scope {
                Some(s) => Some(s@),
                None => None,
            },
            scope_kind: match self.scope_kind {
                Some(s) => Some(s@),
                None => None,
            },
            roles: self.roles@,
        }
    }
}

} // verus!
