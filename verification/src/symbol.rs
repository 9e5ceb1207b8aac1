//! Symbol synthesis: escaping of identifier tokens and the fixed
//! `file <manager> <package> <version> <segments> <descriptor>` grammar.

use vstd::prelude::*;
use crate::record::TagRecord;
use crate::text::{split_on, split_str, views_of_strings, lemma_split_on_len};

verus! {

/// Characters that carry structural meaning in the symbol grammar.
pub open spec fn is_bad_char(c: char) -> bool {
    c == '/' || c == '#' || c == '.' || c == ':' || c == '!' || c == '(' || c == ')' || c == '['
        || c == ']'
}

/// Whether any character of `s` is reserved by the symbol grammar.
pub open spec fn contains_bad(s: Seq<char>) -> bool {
    exists|i: int| 0 <= i < s.len() && is_bad_char(s[i])
}

/// Whether `string` holds any character reserved by the symbol grammar.
pub fn contains_bad_chars(string: &str) -> (r: bool)
    ensures
        r == contains_bad(string@),
{
    let n = string.unicode_len();
    let mut i: usize = 0;
    while i < n
        invariant
            n == string@.len(),
            0 <= i <= n,
            forall|j: int| 0 <= j < i ==> !is_bad_char(string@[j]),
        decreases n - i,
    {
        let c = string.get_char(i);
        if c == '/' || c == '#' || c == '.' || c == ':' || c == '!' || c == '(' || c == ')'
            || c == '[' || c == ']' {
            assert(is_bad_char(string@[i as int]));
            return true;
        }
        i = i + 1;
    }
    false
}

/// `t` wrapped in backticks when it holds a reserved character, `t`
/// unchanged otherwise.
pub open spec fn escaped(t: Seq<char>) -> Seq<char> {
    if contains_bad(t) {
        "`"@ + t + "`"@
    } else {
        t
    }
}

/// Appends `name` to `string`, wrapped in backticks exactly when it holds a
/// character reserved by the symbol grammar.
pub fn emit_name_maybe_escape(string: &mut String, name: &str)
    ensures
        final(string)@ == old(string)@ + escaped(name@),
{
    let cbc = contains_bad_chars(name);
    if cbc {
        string.append("`");
    }
    string.append(name);
    if cbc {
        string.append("`");
        proof {
            assert(final(string)@ =~= old(string)@ + ("`"@ + name@ + "`"@));
        }
    }
}

/// The decimal digit character for `d`, 0 through 9.
pub open spec fn digit_char(d: int) -> char {
    if d == 0 {
        '0'
    } else if d == 1 {
        '1'
    } else if d == 2 {
        '2'
    } else if d == 3 {
        '3'
    } else if d == 4 {
        '4'
    } else if d == 5 {
        '5'
    } else if d == 6 {
        '6'
    } else if d == 7 {
        '7'
    } else if d == 8 {
        '8'
    } else {
        '9'
    }
}

/// The decimal digits of the nonnegative integer `m`, most significant
/// first.
pub open spec fn dec_nat(m: int) -> Seq<char>
    recommends
        m >= 0,
    decreases m,
{
    if m < 10 {
        seq![digit_char(m)]
    } else {
        dec_nat(m / 10) + seq![digit_char(m % 10)]
    }
}

/// The decimal rendering of `n`, with a leading minus sign when negative.
pub open spec fn dec_int(n: int) -> Seq<char> {
    if n < 0 {
        seq!['-'] + dec_nat(-n)
    } else {
        dec_nat(n)
    }
}

fn append_digit(string: &mut String, d: u32)
    requires
        d < 10,
    ensures
        final(string)@ == old(string)@ + seq![digit_char(d as int)],
{
    proof {
        reveal_strlit("0");
        reveal_strlit("1");
        reveal_strlit("2");
        reveal_strlit("3");
        reveal_strlit("4");
        reveal_strlit("5");
        reveal_strlit("6");
        reveal_strlit("7");
        reveal_strlit("8");
        reveal_strlit("9");
        assert("0"@ =~= seq!['0']);
        assert("1"@ =~= seq!['1']);
        assert("2"@ =~= seq!['2']);
        assert("3"@ =~= seq!['3']);
        assert("4"@ =~= seq!['4']);
        assert("5"@ =~= seq!['5']);
        assert("6"@ =~= seq!['6']);
        assert("7"@ =~= seq!['7']);
        assert("8"@ =~= seq!['8']);
        assert("9"@ =~= seq!['9']);
    }
    if d == 0 {
        string.append("0");
    } else if d == 1 {
        string.append("1");
    } else if d == 2 {
        string.append("2");
    } else if d == 3 {
        string.append("3");
    } else if d == 4 {
        string.append("4");
    } else if d == 5 {
        string.append("5");
    } else if d == 6 {
        string.append("6");
    } else if d == 7 {
        string.append("7");
    } else if d == 8 {
        string.append("8");
    } else {
        string.append("9");
    }
}

fn append_dec_u32(string: &mut String, m: u32)
    ensures
        final(string)@ == old(string)@ + dec_nat(m as int),
    decreases m,
{
    if m >= 10 {
        append_dec_u32(string, m / 10);
        append_digit(string, m % 10);
        proof {
            assert(final(string)@ =~= old(string)@ + (dec_nat(m as int / 10) + seq![
                digit_char(m as int % 10),
            ]));
        }
    } else {
        append_digit(string, m);
    }
}

/// Appends the decimal rendering of `n` to `string`, as `to_string` on the
/// integer would print it.
fn append_dec_i32(string: &mut String, n: i32)
    ensures
        final(string)@ == old(string)@ + dec_int(n as int),
{
    if n >= 0 {
        append_dec_u32(string, n as u32);
    } else {
        proof {
            reveal_strlit("-");
            assert("-"@ =~= seq!['-']);
        }
        string.append("-");
        let m: u32 = (-(n as i64)) as u32;
        proof {
            assert(m as int == -(n as int));
        }
        append_dec_u32(string, m);
        proof {
            assert(final(string)@ =~= old(string)@ + (seq!['-'] + dec_nat(-(n as int))));
        }
    }
}

/// The fixed symbol prefix: no package manager, package, or version is
/// ever resolved for these records.
pub open spec fn symbol_prefix() -> Seq<char> {
    "file no_package_manager no_package no_version "@
}

/// The path portion of a symbol: every segment escaped and closed with `/`.
pub open spec fn segments_part(segs: Seq<Seq<char>>) -> Seq<char>
    decreases segs.len(),
{
    if segs.len() == 0 {
        Seq::empty()
    } else {
        segments_part(segs.drop_last()) + escaped(segs.last()) + "/"@
    }
}

/// The kind-specific descriptor suffix: functions are disambiguated by
/// their 1-based line number.
pub open spec fn descriptor_suffix(kind: Seq<char>, line: int) -> Seq<char> {
    if kind == "function"@ {
        "("@ + dec_int(line) + ")."@
    } else {
        "."@
    }
}

/// The canonical symbol for a record: a pure function of its path, name,
/// kind and line.
pub open spec fn symbol_of(path: Seq<char>, name: Seq<char>, kind: Seq<char>, line: int) -> Seq<
    char,
> {
    symbol_prefix() + segments_part(split_on(path, '/')) + escaped(name) + descriptor_suffix(
        kind,
        line,
    )
}

/// Escaping law: a token holding at least one reserved character is
/// wrapped in backticks and otherwise unchanged; a token holding none is
/// passed through untouched, so no backticks are added around it.
pub proof fn lemma_escaping(t: Seq<char>)
    ensures
        contains_bad(t) ==> escaped(t) == "`"@ + t + "`"@,
        contains_bad(t) ==> escaped(t).len() == t.len() + 2 && escaped(t).first() == '`'
            && escaped(t).last() == '`' && escaped(t).subrange(1, t.len() as int + 1) == t,
        !contains_bad(t) ==> escaped(t) == t,
{
    reveal_strlit("`");
    if contains_bad(t) {
        assert(escaped(t).len() == t.len() + 2);
        assert(escaped(t).first() == '`');
        assert(escaped(t).last() == '`');
        assert(escaped(t).subrange(1, t.len() as int + 1) =~= t);
    }
}

/// Determinism law: the synthesized symbol is a pure function of the
/// record's path, name, kind and line; nothing else reaches it.
pub proof fn lemma_symbol_deterministic(
    path1: Seq<char>,
    name1: Seq<char>,
    kind1: Seq<char>,
    line1: int,
    path2: Seq<char>,
    name2: Seq<char>,
    kind2: Seq<char>,
    line2: int,
)
    requires
        path1 == path2,
        name1 == name2,
        kind1 == kind2,
        line1 == line2,
    ensures
        symbol_of(path1, name1, kind1, line1) == symbol_of(path2, name2, kind2, line2),
{
}

/// The path portion of a symbol always closes with a slash.
pub proof fn lemma_segments_part_last(segs: Seq<Seq<char>>)
    requires
        segs.len() >= 1,
    ensures
        segments_part(segs).len() >= 1,
        segments_part(segs).last() == '/',
{
    reveal_strlit("/");
    assert(segments_part(segs) == segments_part(segs.drop_last()) + escaped(segs.last()) + "/"@);
}

/// The character standing right before a symbol's final descriptor: the
/// last character of the escaped name, or the closing slash of the path
/// portion when the name is empty. It is never a period.
pub proof fn lemma_symbol_base_last(path: Seq<char>, name: Seq<char>)
    ensures
        (symbol_prefix() + segments_part(split_on(path, '/')) + escaped(name)).len() >= 1,
        (symbol_prefix() + segments_part(split_on(path, '/')) + escaped(name)).last() != '.',
{
    reveal_strlit("`");
    let segs = split_on(path, '/');
    lemma_split_on_len(path, '/');
    lemma_segments_part_last(segs);
    let base = symbol_prefix() + segments_part(segs) + escaped(name);
    if contains_bad(name) {
        assert(base.last() == '`');
    } else if name.len() > 0 {
        assert(escaped(name) == name);
        assert(base.last() == name.last());
        assert(!is_bad_char(name[name.len() - 1]));
    } else {
        assert(escaped(name).len() == 0);
        assert(base.last() == segments_part(segs).last());
    }
}

/// Non-function law: for every kind other than "function" the symbol is
/// the escaped path and name closed by exactly one period — it ends with
/// a period, no period stands right before it, and no parenthesized line
/// suffix is present.
pub proof fn lemma_symbol_non_function(
    path: Seq<char>,
    name: Seq<char>,
    kind: Seq<char>,
    line: int,
)
    requires
        kind != "function"@,
    ensures
        symbol_of(path, name, kind, line) == (symbol_prefix() + segments_part(split_on(path, '/'))
            + escaped(name)) + "."@,
        symbol_of(path, name, kind, line).last() == '.',
        symbol_of(path, name, kind, line)[symbol_of(path, name, kind, line).len() - 2] != '.',
{
    reveal_strlit(".");
    let base = symbol_prefix() + segments_part(split_on(path, '/')) + escaped(name);
    let sym = symbol_of(path, name, kind, line);
    assert(sym =~= base + "."@);
    lemma_symbol_base_last(path, name);
    assert(sym.last() == '.');
    assert(sym[sym.len() - 2] == base.last());
}

/// Function law: for kind "function" the symbol is the escaped path and
/// name followed by exactly `(<line>).` with the record's literal 1-based
/// line number in decimal.
pub proof fn lemma_symbol_function(path: Seq<char>, name: Seq<char>, kind: Seq<char>, line: int)
    requires
        kind == "function"@,
    ensures
        symbol_of(path, name, kind, line) == (symbol_prefix() + segments_part(split_on(path, '/'))
            + escaped(name)) + "("@ + dec_int(line) + ")."@,
{
    let base = symbol_prefix() + segments_part(split_on(path, '/')) + escaped(name);
    assert(symbol_of(path, name, kind, line) =~= base + "("@ + dec_int(line) + ")."@);
}

/// Builds the canonical symbol string for `record`.
pub fn synthesize_symbol(record: &TagRecord) -> (r: String)
    ensures
        r@ == symbol_of(record@.path, record@.name, record@.kind, record@.line),
{
    let mut s = String::from_str("file no_package_manager no_package no_version ");
    let segs = split_str(record.path.as_str(), '/');
    let ghost segviews = views_of_strings(segs@);
    let n = segs.len();
    let mut i: usize = 0;
    proof {
        assert(segviews.take(0) =~= Seq::<Seq<char>>::empty());
        assert(s@ =~= symbol_prefix() + segments_part(segviews.take(0)));
    }
    while i < n
        invariant
            n == segs@.len(),
            0 <= i <= n,
            segviews == views_of_strings(segs@),
            segviews == split_on(record.path@, '/'),
            s@ == symbol_prefix() + segments_part(segviews.take(i as int)),
        decreases n - i,
    {
        emit_name_maybe_escape(&mut s, segs[i].as_str());
        s.append("/");
        proof {
            assert(segviews[i as int] == segs@[i as int]@);
            assert(segviews.take(i as int + 1).drop_last() =~= segviews.take(i as int));
            assert(segviews.take(i as int + 1).last() == segviews[i as int]);
            assert(segments_part(segviews.take(i as int + 1)) == segments_part(
                segviews.take(i as int),
            ) + escaped(segviews[i as int]) + "/"@);
            assert(s@ =~= symbol_prefix() + segments_part(segviews.take(i as int + 1)));
        }
        i = i + 1;
    }
    proof {
        assert(segviews.take(n as int) =~= segviews);
    }
    emit_name_maybe_escape(&mut s, record.name.as_str());
    let fkind = String::from_str("function");
    if record.kind == fkind {
        s.append("(");
        append_dec_i32(&mut s, record.line);
        s.append(").");
        proof {
            assert(s@ =~= symbol_prefix() + segments_part(segviews) + escaped(record.name@) + (
            "("@ + dec_int(record@.line) + ")."@));
        }
    } else {
        s.append(".");
        proof {
            assert(s@ =~= symbol_prefix() + segments_part(segviews) + escaped(record.name@)
                + "."@);
        }
    }
    s
}

} // verus!
