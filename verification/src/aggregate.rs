//! Per-file aggregation: occurrences and symbols are grouped by relative
//! path into one document per path, in input order.

use vstd::prelude::*;
use crate::errors::RunError;
use crate::record::{TagRecord, TagRecordV};
use crate::symbol::{symbol_of, synthesize_symbol};

verus! {

/// The mathematical content of one occurrence.
pub ghost struct OccurrenceV {
    pub start_line: int,
    pub start_column: int,
    pub end_column: int,
    pub symbol: Seq<char>,
    pub symbol_roles: int,
}

/// One position range, tagged with a symbol and the definition role bit.
/// The line is 0-based here; columns are never derived and stay 0.
#[derive(Debug)]
pub struct Occurrence {
    pub start_line: i64,
    pub start_column: i64,
    pub end_column: i64,
    pub symbol: String,
    pub symbol_roles: i64,
}

impl View for Occurrence {
    type V = OccurrenceV;

    open spec fn view(&self) -> OccurrenceV {
        OccurrenceV {
            start_line: self.start_line as int,
            start_column: self.start_column as int,
            end_column: self.end_column as int,
            symbol: self.symbol@,
            symbol_roles: self.symbol_roles as int,
        }
    }
}

/// The mathematical content of one document.
pub ghost struct DocumentV {
    pub relative_path: Seq<char>,
    pub language: Seq<char>,
    pub symbols: Seq<Seq<char>>,
    pub occurrences: Seq<OccurrenceV>,
}

/// The symbols and occurrences collected for one source file. The language
/// is the one of the first record seen for the path.
#[derive(Debug)]
pub struct Document {
    pub relative_path: String,
    pub language: String,
    pub symbols: Vec<String>,
    pub occurrences: Vec<Occurrence>,
}

impl View for Document {
    type V = DocumentV;

    open spec fn view(&self) -> DocumentV {
        DocumentV {
            relative_path: self.relative_path@,
            language: self.language@,
            symbols: self.symbols@.map_values(|s: String| s@),
            occurrences: self.occurrences@.map_values(|o: Occurrence| o@),
        }
    }
}

/// The views of a vector of records.
pub open spec fn views_of_records(rs: Seq<TagRecord>) -> Seq<TagRecordV> {
    rs.map_values(|t: TagRecord| t@)
}

/// The views of a vector of documents.
pub open spec fn views_of_documents(ds: Seq<Document>) -> Seq<DocumentV> {
    ds.map_values(|d: Document| d@)
}

/// The canonical symbol of a record.
pub open spec fn record_symbol(r: TagRecordV) -> Seq<char> {
    symbol_of(r.path, r.name, r.kind, r.line)
}

/// The occurrence recorded for `r`: its 1-based line made 0-based, columns
/// fixed at zero, and exactly the definition role bit set.
pub open spec fn occ_of(r: TagRecordV) -> OccurrenceV {
    OccurrenceV {
        start_line: r.line - 1,
        start_column: 0,
        end_column: 0,
        symbol: record_symbol(r),
        symbol_roles: 1,
    }
}

/// The index of the document for `path`, or -1 when none exists.
pub open spec fn find_path(docs: Seq<DocumentV>, path: Seq<char>) -> int
    decreases docs.len(),
{
    if docs.len() == 0 {
        -1
    } else if docs[0].relative_path == path {
        0
    } else {
        let i = find_path(docs.drop_first(), path);
        if i == -1 {
            -1
        } else {
            i + 1
        }
    }
}

pub proof fn lemma_find_path(docs: Seq<DocumentV>, path: Seq<char>)
    ensures
        find_path(docs, path) == -1 ==> forall|k: int|
            0 <= k < docs.len() ==> docs[k].relative_path != path,
        find_path(docs, path) != -1 ==> 0 <= find_path(docs, path) < docs.len() && docs[find_path(
            docs,
            path,
        )].relative_path == path && forall|k: int|
            0 <= k < find_path(docs, path) ==> docs[k].relative_path != path,
    decreases docs.len(),
{
    if docs.len() != 0 && docs[0].relative_path != path {
        let d = docs.drop_first();
        lemma_find_path(d, path);
        assert(forall|k: int| 1 <= k < docs.len() ==> docs[k] == d[k - 1]);
    }
}

/// One record folded into the document list: appended to its path's
/// document when one exists, else opening a new document at the end.
pub open spec fn agg_step(docs: Seq<DocumentV>, r: TagRecordV) -> Seq<DocumentV> {
    let i = find_path(docs, r.path);
    if i >= 0 {
        docs.update(
            i,
            (DocumentV {
                relative_path: docs[i].relative_path,
                language: docs[i].language,
                symbols: docs[i].symbols.push(record_symbol(r)),
                occurrences: docs[i].occurrences.push(occ_of(r)),
            }),
        )
    } else {
        docs.push(
            (DocumentV {
                relative_path: r.path,
                language: r.language,
                symbols: seq![record_symbol(r)],
                occurrences: seq![occ_of(r)],
            }),
        )
    }
}

/// The documents produced by folding `rs`, in order, into an empty list.
pub open spec fn aggregate_records(rs: Seq<TagRecordV>) -> Seq<DocumentV>
    decreases rs.len(),
{
    if rs.len() == 0 {
        Seq::empty()
    } else {
        agg_step(aggregate_records(rs.drop_last()), rs.last())
    }
}

pub proof fn lemma_find_path_push(docs: Seq<DocumentV>, d: DocumentV, path: Seq<char>)
    ensures
        find_path(docs.push(d), path) == if find_path(docs, path) != -1 {
            find_path(docs, path)
        } else if d.relative_path == path {
            docs.len() as int
        } else {
            -1
        },
    decreases docs.len(),
{
    if docs.len() == 0 {
        assert(docs.push(d).len() == 1);
        assert(docs.push(d)[0] == d);
        assert(docs.push(d).drop_first() =~= Seq::<DocumentV>::empty());
        assert(find_path(Seq::<DocumentV>::empty(), path) == -1);
        assert(find_path(docs, path) == -1);
        if d.relative_path == path {
            assert(find_path(docs.push(d), path) == 0);
        } else {
            assert(find_path(docs.push(d), path) == -1);
        }
    } else {
        assert(docs.push(d)[0] == docs[0]);
        assert(docs.push(d).drop_first() =~= docs.drop_first().push(d));
        lemma_find_path_push(docs.drop_first(), d, path);
        lemma_find_path(docs.drop_first(), path);
        if docs[0].relative_path == path {
            assert(find_path(docs.push(d), path) == 0);
            assert(find_path(docs, path) == 0);
        } else {
            let i0 = find_path(docs.drop_first(), path);
            if i0 != -1 {
                assert(find_path(docs, path) == i0 + 1);
                assert(find_path(docs.push(d), path) == i0 + 1);
            } else if d.relative_path == path {
                assert(find_path(docs, path) == -1);
                assert(find_path(docs.drop_first().push(d), path) == docs.drop_first().len()
                    as int);
                assert(find_path(docs.push(d), path) == docs.len() as int);
            } else {
                assert(find_path(docs, path) == -1);
                assert(find_path(docs.push(d), path) == -1);
            }
        }
    }
}

pub proof fn lemma_find_path_same(d1: Seq<DocumentV>, d2: Seq<DocumentV>, path: Seq<char>)
    requires
        d1.len() == d2.len(),
        forall|k: int| 0 <= k < d1.len() ==> d1[k].relative_path == d2[k].relative_path,
    ensures
        find_path(d1, path) == find_path(d2, path),
    decreases d1.len(),
{
    if d1.len() != 0 {
        assert forall|k: int|
            0 <= k < d1.drop_first().len() implies d1.drop_first()[k].relative_path
            == d2.drop_first()[k].relative_path by {
            assert(d1.drop_first()[k] == d1[k + 1]);
            assert(d2.drop_first()[k] == d2[k + 1]);
        }
        lemma_find_path_same(d1.drop_first(), d2.drop_first(), path);
    }
}

/// The occurrence list of the document for `path`, empty when none exists.
pub open spec fn doc_occs(docs: Seq<DocumentV>, path: Seq<char>) -> Seq<OccurrenceV> {
    if find_path(docs, path) >= 0 {
        docs[find_path(docs, path)].occurrences
    } else {
        Seq::empty()
    }
}

/// The symbol list of the document for `path`, empty when none exists.
pub open spec fn doc_syms(docs: Seq<DocumentV>, path: Seq<char>) -> Seq<Seq<char>> {
    if find_path(docs, path) >= 0 {
        docs[find_path(docs, path)].symbols
    } else {
        Seq::empty()
    }
}

/// Aggregation law: for every path, the document holds exactly the
/// occurrences of the records with that path, one each, in input order;
/// and the symbols correspond one-to-one, in the same order.
pub proof fn lemma_aggregation(rs: Seq<TagRecordV>, path: Seq<char>)
    ensures
        doc_occs(aggregate_records(rs), path) == rs.filter(|r: TagRecordV| r.path == path)
            .map_values(|r: TagRecordV| occ_of(r)),
        doc_syms(aggregate_records(rs), path) == rs.filter(|r: TagRecordV| r.path == path)
            .map_values(|r: TagRecordV| record_symbol(r)),
    decreases rs.len(),
{
    reveal(Seq::filter);
    let pred = |r: TagRecordV| r.path == path;
    let occf = |r: TagRecordV| occ_of(r);
    let symf = |r: TagRecordV| record_symbol(r);
    if rs.len() == 0 {
        assert(rs.filter(pred) =~= Seq::<TagRecordV>::empty());
        assert(rs.filter(pred).map_values(occf) =~= Seq::<OccurrenceV>::empty());
        assert(rs.filter(pred).map_values(symf) =~= Seq::<Seq<char>>::empty());
    } else {
        let rs0 = rs.drop_last();
        let r = rs.last();
        lemma_aggregation(rs0, path);
        let docs = aggregate_records(rs0);
        let docs2 = aggregate_records(rs);
        assert(docs2 == agg_step(docs, r));
        assert(rs.filter(pred) == if pred(r) {
            rs0.filter(pred).push(r)
        } else {
            rs0.filter(pred)
        });
        let f = find_path(docs, r.path);
        lemma_find_path(docs, r.path);
        if f >= 0 {
            assert forall|k: int|
                0 <= k < docs.len() implies docs[k].relative_path
                == docs2[k].relative_path by {}
            lemma_find_path_same(docs, docs2, path);
            if r.path == path {
                assert(find_path(docs2, path) == f);
                assert(doc_occs(docs2, path) == docs[f].occurrences.push(occ_of(r)));
                assert(doc_syms(docs2, path) == docs[f].symbols.push(record_symbol(r)));
                assert(rs0.filter(pred).push(r).map_values(occf) =~= rs0.filter(pred).map_values(
                    occf,
                ).push(occ_of(r)));
                assert(rs0.filter(pred).push(r).map_values(symf) =~= rs0.filter(pred).map_values(
                    symf,
                ).push(record_symbol(r)));
            } else {
                lemma_find_path(docs, path);
                let g = find_path(docs, path);
                if g >= 0 {
                    assert(docs[g].relative_path == path);
                    assert(g != f);
                    assert(docs2[g] == docs[g]);
                }
            }
        } else {
            let nd = (DocumentV {
                relative_path: r.path,
                language: r.language,
                symbols: seq![record_symbol(r)],
                occurrences: seq![occ_of(r)],
            });
            assert(docs2 == docs.push(nd));
            lemma_find_path_push(docs, nd, path);
            if r.path == path {
                assert(find_path(docs, path) == -1);
                assert(find_path(docs2, path) == docs.len() as int);
                assert(doc_occs(docs2, path) == seq![occ_of(r)]);
                assert(doc_syms(docs2, path) == seq![record_symbol(r)]);
                assert(rs0.filter(pred).map_values(occf).len() == 0);
                assert(rs0.filter(pred).len() == 0);
                assert(rs.filter(pred) == rs0.filter(pred).push(r));
                assert(rs.filter(pred).map_values(occf) =~= seq![occ_of(r)]);
                assert(rs.filter(pred).map_values(symf) =~= seq![record_symbol(r)]);
            } else {
                lemma_find_path(docs, path);
                if find_path(docs, path) >= 0 {
                    assert(docs2[find_path(docs, path)] == docs[find_path(docs, path)]);
                }
            }
        }
    }
}

/// Key uniqueness law: no two aggregated documents share a relative path.
pub proof fn lemma_paths_distinct(rs: Seq<TagRecordV>)
    ensures
        forall|i: int, j: int|
            0 <= i < j < aggregate_records(rs).len() ==> (#[trigger] aggregate_records(
                rs,
            )[i].relative_path) != (#[trigger] aggregate_records(rs)[j].relative_path),
    decreases rs.len(),
{
    if rs.len() != 0 {
        let rs0 = rs.drop_last();
        let r = rs.last();
        lemma_paths_distinct(rs0);
        let docs = aggregate_records(rs0);
        let docs2 = aggregate_records(rs);
        let f = find_path(docs, r.path);
        lemma_find_path(docs, r.path);
        if f >= 0 {
            assert forall|i: int, j: int|
                0 <= i < j < docs2.len() implies docs2[i].relative_path
                != docs2[j].relative_path by {
                assert(docs2[i].relative_path == docs[i].relative_path);
                assert(docs2[j].relative_path == docs[j].relative_path);
            }
        } else {
            assert forall|i: int, j: int|
                0 <= i < j < docs2.len() implies docs2[i].relative_path
                != docs2[j].relative_path by {
                if j < docs.len() {
                    assert(docs2[i] == docs[i]);
                    assert(docs2[j] == docs[j]);
                } else {
                    assert(docs2[j].relative_path == r.path);
                    assert(docs2[i] == docs[i]);
                }
            }
        }
    }
}

/// Whether an occurrence is one a record of `rs` for document `d` would
/// produce: columns zero, the definition role bit alone, and a start line
/// one below some matching record's 1-based line.
pub open spec fn occ_from_records(rs: Seq<TagRecordV>, d: DocumentV, o: OccurrenceV) -> bool {
    o.start_column == 0 && o.end_column == 0 && o.symbol_roles == 1 && exists|k: int|
        0 <= k < rs.len() && (#[trigger] rs[k]).path == d.relative_path && o == occ_of(rs[k])
}

/// Range law: every occurrence of every aggregated document has start and
/// end column zero, exactly the definition role bit, and a start line that
/// is the 1-based line of one of its path's records minus one.
pub proof fn lemma_range_invariant(rs: Seq<TagRecordV>)
    ensures
        forall|i: int, j: int|
            0 <= i < aggregate_records(rs).len() && 0 <= j < aggregate_records(
                rs,
            )[i].occurrences.len() ==> occ_from_records(
                rs,
                aggregate_records(rs)[i],
                #[trigger] aggregate_records(rs)[i].occurrences[j],
            ),
    decreases rs.len(),
{
    let docs2 = aggregate_records(rs);
    if rs.len() != 0 {
        let rs0 = rs.drop_last();
        let r = rs.last();
        lemma_range_invariant(rs0);
        let docs = aggregate_records(rs0);
        let f = find_path(docs, r.path);
        lemma_find_path(docs, r.path);
        assert forall|i: int, j: int|
            0 <= i < docs2.len() && 0 <= j < docs2[i].occurrences.len() implies occ_from_records(
            rs,
            docs2[i],
            docs2[i].occurrences[j],
        ) by {
            let o = docs2[i].occurrences[j];
            let fresh = rs.len() - 1;
            assert(rs[fresh] == r);
            if f >= 0 && i == f && j == docs[i].occurrences.len() {
                assert(o == occ_of(r));
                assert(docs2[i].relative_path == docs[f].relative_path);
                assert(docs[f].relative_path == r.path);
                assert(occ_from_records(rs, docs2[i], o));
            } else if f < 0 && i == docs.len() {
                assert(docs2[i].relative_path == r.path);
                assert(docs2[i].occurrences =~= seq![occ_of(r)]);
                assert(o == occ_of(r));
                assert(occ_from_records(rs, docs2[i], o));
            } else {
                if f >= 0 && i == f {
                    assert(docs2[i].occurrences[j] == docs[i].occurrences[j]);
                } else {
                    assert(docs2[i] == docs[i]);
                }
                assert(occ_from_records(rs0, docs[i], docs[i].occurrences[j]));
                let oldocc = docs[i].occurrences[j];
                let k = choose|k: int|
                    0 <= k < rs0.len() && (#[trigger] rs0[k]).path == docs[i].relative_path
                        && oldocc == occ_of(rs0[k]);
                assert(rs[k] == rs0[k]);
                assert(docs2[i].relative_path == docs[i].relative_path);
                assert(occ_from_records(rs, docs2[i], o));
            }
        }
    }
}

/// Whether every record carries the definition role.
pub open spec fn all_def(rs: Seq<TagRecordV>) -> bool {
    forall|i: int| 0 <= i < rs.len() ==> rs[i].roles == "def"@
}

/// The keyed store of document accumulators, one per relative path.
#[derive(Debug)]
pub struct DocumentMap {
    pub docs: Vec<Document>,
}

impl View for DocumentMap {
    type V = Seq<DocumentV>;

    open spec fn view(&self) -> Seq<DocumentV> {
        views_of_documents(self.docs@)
    }
}

impl DocumentMap {
    /// An empty store.
    pub fn new() -> (r: DocumentMap)
        ensures
            r@ == Seq::<DocumentV>::empty(),
    {
        let r = DocumentMap { docs: Vec::new() };
        proof {
            assert(r@ =~= Seq::<DocumentV>::empty());
        }
        r
    }

    /// Returns the index of the document for `path`, creating an empty one
    /// with `language` when none exists; an existing document, including
    /// its language, is returned unchanged.
    pub fn lookup_or_create(&mut self, path: &String, language: &String) -> (idx: usize)
        ensures
            ({
                let f = find_path(old(self)@, path@);
                if f >= 0 {
                    final(self)@ == old(self)@ && idx as int == f
                } else {
                    final(self)@ == old(self)@.push(
                        (DocumentV {
                            relative_path: path@,
                            language: language@,
                            symbols: Seq::empty(),
                            occurrences: Seq::empty(),
                        }),
                    ) && idx as int == old(self)@.len()
                }
            }),
            idx < final(self)@.len(),
    {
        proof {
            lemma_find_path(self@, path@);
        }
        let n = self.docs.len();
        let mut j: usize = 0;
        while j < n
            invariant
                n == self.docs@.len(),
                0 <= j <= n,
                *self == *old(self),
                forall|k: int| 0 <= k < j ==> self@[k].relative_path != path@,
            decreases n - j,
        {
            if self.docs[j].relative_path == *path {
                proof {
                    assert(self@[j as int].relative_path == path@);
                    lemma_find_path(self@, path@);
                }
                return j;
            }
            j = j + 1;
        }
        let doc = Document {
            relative_path: path.clone(),
            language: language.clone(),
            symbols: Vec::new(),
            occurrences: Vec::new(),
        };
        let ghost dv = doc@;
        self.docs.push(doc);
        proof {
            lemma_find_path(old(self)@, path@);
            assert(dv.symbols =~= Seq::<Seq<char>>::empty());
            assert(dv.occurrences =~= Seq::<OccurrenceV>::empty());
            assert(self@ =~= old(self)@.push(dv));
        }
        n
    }

    /// Appends `symbol` and `occurrence` to the document at `idx`, in call
    /// order; no other document changes.
    pub fn append_entry(&mut self, idx: usize, symbol: String, occurrence: Occurrence)
        requires
            idx < old(self)@.len(),
        ensures
            final(self)@ == old(self)@.update(
                idx as int,
                (DocumentV {
                    relative_path: old(self)@[idx as int].relative_path,
                    language: old(self)@[idx as int].language,
                    symbols: old(self)@[idx as int].symbols.push(symbol@),
                    occurrences: old(self)@[idx as int].occurrences.push(occurrence@),
                }),
            ),
    {
        let ghost ov = occurrence@;
        let ghost sv = symbol@;
        let mut doc = self.docs.remove(idx);
        doc.symbols.push(symbol);
        doc.occurrences.push(occurrence);
        proof {
            assert(doc@.symbols =~= old(self)@[idx as int].symbols.push(sv));
            assert(doc@.occurrences =~= old(self)@[idx as int].occurrences.push(ov));
        }
        let ghost dv = doc@;
        self.docs.insert(idx, doc);
        proof {
            assert(self@ =~= old(self)@.update(idx as int, dv));
        }
    }
}

/// Runs the synthesizer and the aggregator over `records`, strictly in
/// input order. Succeeds exactly when every record carries the "def" role;
/// the first other role aborts the run with no documents produced.
pub fn process_records(records: &Vec<TagRecord>) -> (r: Result<Vec<Document>, RunError>)
    ensures
        r is Ok <==> all_def(views_of_records(records@)),
        r is Ok ==> views_of_documents((r->Ok_0)@) == aggregate_records(
            views_of_records(records@),
        ),
        r is Err ==> r->Err_0 == RunError::UnsupportedRole,
{
    let ghost rv = views_of_records(records@);
    let def_str = String::from_str("def");
    let mut map = DocumentMap::new();
    let n = records.len();
    let mut i: usize = 0;
    proof {
        assert(rv.take(0) =~= Seq::<TagRecordV>::empty());
        assert(map@ == aggregate_records(rv.take(0)));
    }
    while i < n
        invariant
            n == records@.len(),
            0 <= i <= n,
            rv == views_of_records(records@),
            def_str@ == "def"@,
            map@ == aggregate_records(rv.take(i as int)),
            all_def(rv.take(i as int)),
        decreases n - i,
    {
        let rec = &records[i];
        proof {
            assert(rv[i as int] == rec@);
        }
        if !(rec.roles == def_str) {
            proof {
                assert(rv[i as int].roles != "def"@);
                assert(!all_def(rv));
            }
            return Err(RunError::UnsupportedRole);
        }
        let symbol = synthesize_symbol(rec);
        let occurrence = Occurrence {
            start_line: (rec.line as i64) - 1,
            start_column: 0,
            end_column: 0,
            symbol: symbol.clone(),
            symbol_roles: 1,
        };
        proof {
            assert(occurrence@ == occ_of(rv[i as int]));
        }
        let ghost docs_before = map@;
        let idx = map.lookup_or_create(&rec.path, &rec.language);
        let ghost docs_mid = map@;
        map.append_entry(idx, symbol, occurrence);
        proof {
            let f = find_path(docs_before, rv[i as int].path);
            if f >= 0 {
                assert(map@ =~= agg_step(docs_before, rv[i as int]));
            } else {
                assert(docs_mid[idx as int].symbols =~= Seq::<Seq<char>>::empty());
                assert(map@ =~= agg_step(docs_before, rv[i as int]));
            }
            assert(rv.take(i as int + 1).drop_last() =~= rv.take(i as int));
            assert(rv.take(i as int + 1).last() == rv[i as int]);
            assert(map@ == aggregate_records(rv.take(i as int + 1)));
            assert(all_def(rv.take(i as int + 1)));
        }
        i = i + 1;
    }
    proof {
        assert(rv.take(n as int) =~= rv);
    }
    Ok(map.docs)
}

} // verus!
