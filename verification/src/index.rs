//! The index assembler and the whole pipeline: run-level metadata wrapped
//! around the finished documents, built in one pass over the input text.

use vstd::prelude::*;
use crate::aggregate::{
    aggregate_records, all_def, process_records, views_of_documents, views_of_records, Document,
};
use crate::decode::{all_lines_decode, decode_lines, spec_decode};
use crate::errors::RunError;
use crate::record::TagRecordV;
use crate::text::{lines_of, split_lines};

verus! {

/// Run-level metadata. The protocol version is always "unspecified" and
/// the declared text encoding is always UTF-8; both are fixed constants of
/// the format and are applied by the serialization sink.
#[derive(Debug)]
pub struct Metadata {
    pub project_root: String,
    pub tool_name: String,
    pub tool_version: String,
    pub tool_arguments: Vec<String>,
}

/// The finished output value: metadata plus all per-file documents. The
/// order of the documents carries no meaning.
#[derive(Debug)]
pub struct Index {
    pub metadata: Metadata,
    pub documents: Vec<Document>,
}

/// Wraps the finished documents and the run parameters into one index.
/// Pure construction: always succeeds, nothing is recomputed.
pub fn assemble_index(project_root: String, tool_arguments: Vec<String>, documents: Vec<Document>)
    -> (r: Index)
    ensures
        r.metadata.project_root == project_root,
        r.metadata.tool_name@ == "ctags-to-scip"@,
        r.metadata.tool_version@ == "0.0.1"@,
        r.metadata.tool_arguments == tool_arguments,
        r.documents == documents,
{
    Index {
        metadata: Metadata {
            project_root,
            tool_name: String::from_str("ctags-to-scip"),
            tool_version: String::from_str("0.0.1"),
            tool_arguments,
        },
        documents,
    }
}

/// The records that the input text determines: every line decoded, in
/// input order. Meaningful when every line decodes.
pub open spec fn spec_records_of(s: Seq<char>) -> Seq<TagRecordV> {
    lines_of(s).map_values(|l: Seq<char>| spec_decode(l)->Ok_0)
}

/// Runs the whole pipeline over the raw input text: split into lines,
/// decode each line, reject non-definition roles, synthesize symbols,
/// aggregate per file, and assemble the index.
///
/// An index is produced exactly when every line decodes and every record
/// carries the "def" role, and it aggregates exactly the records the
/// input determines; otherwise the run aborts with the first decode
/// error, or with the role rejection, and no index exists.
pub fn build_index(input: &str, project_root: String, tool_arguments: Vec<String>) -> (r: Result<
    Index,
    RunError,
>)
    ensures
        r is Ok <==> all_lines_decode(lines_of(input@)) && all_def(spec_records_of(input@)),
        r is Ok ==> views_of_documents((r->Ok_0).documents@) == aggregate_records(
            spec_records_of(input@),
        ),
        r is Ok ==> (r->Ok_0).metadata.project_root == project_root,
        r is Ok ==> (r->Ok_0).metadata.tool_name@ == "ctags-to-scip"@,
        r is Ok ==> (r->Ok_0).metadata.tool_version@ == "0.0.1"@,
        r is Ok ==> (r->Ok_0).metadata.tool_arguments == tool_arguments,
        r matches Err(RunError::Decode(e)) ==> ({
            let ls = lines_of(input@);
            exists|i: int|
                0 <= i < ls.len() && (#[trigger] spec_decode(ls[i])) is Err && e == spec_decode(
                    ls[i],
                )->Err_0 && (forall|j: int| 0 <= j < i ==> (#[trigger] spec_decode(ls[j])) is Ok)
        }),
        r is Err && r->Err_0 == RunError::UnsupportedRole ==> all_lines_decode(lines_of(input@))
            && !all_def(spec_records_of(input@)),
{
    let lines = split_lines(input);
    let records = match decode_lines(&lines) {
        Ok(rs) => rs,
        Err(e) => {
            return Err(RunError::Decode(e));
        },
    };
    proof {
        assert(views_of_records(records@) == spec_records_of(input@));
    }
    let documents = match process_records(&records) {
        Ok(ds) => ds,
        Err(e) => {
            return Err(e);
        },
    };
    let idx = assemble_index(project_root, tool_arguments, documents);
    Ok(idx)
}

} // verus!
