//! Text splitting: separator splitting for path segments, and the line
//! discipline of the newline-delimited input.

use vstd::prelude::*;

verus! {

/// The pieces of `s` between occurrences of `sep`, empty pieces kept;
/// always at least one piece.
pub open spec fn split_on(s: Seq<char>, sep: char) -> Seq<Seq<char>>
    decreases s.len(),
{
    if s.len() == 0 {
        seq![Seq::<char>::empty()]
    } else if s[0] == sep {
        seq![Seq::<char>::empty()] + split_on(s.drop_first(), sep)
    } else {
        let rest = split_on(s.drop_first(), sep);
        seq![seq![s[0]] + rest[0]] + rest.drop_first()
    }
}

pub proof fn lemma_split_on_len(s: Seq<char>, sep: char)
    ensures
        split_on(s, sep).len() >= 1,
    decreases s.len(),
{
    if s.len() != 0 {
        lemma_split_on_len(s.drop_first(), sep);
    }
}

/// The views of a vector of strings.
pub open spec fn views_of_strings(v: Seq<String>) -> Seq<Seq<char>> {
    v.map_values(|t: String| t@)
}

/// Splits `s` at every occurrence of `sep`, keeping empty pieces.
pub fn split_str(s: &str, sep: char) -> (r: Vec<String>)
    ensures
        views_of_strings(r@) == split_on(s@, sep),
{
    let n = s.unicode_len();
    let mut segs: Vec<String> = Vec::new();
    let mut cur: String = String::new();
    let mut i: usize = 0;
    proof {
        assert(s@.subrange(0, n as int) =~= s@);
        lemma_split_on_len(s@, sep);
        assert(cur@ + split_on(s@, sep)[0] =~= split_on(s@, sep)[0]);
        assert(split_on(s@, sep) =~= views_of_strings(segs@) + seq![
            cur@ + split_on(s@, sep)[0],
        ] + split_on(s@, sep).drop_first());
    }
    while i < n
        invariant
            n == s@.len(),
            0 <= i <= n,
            split_on(s@, sep) == views_of_strings(segs@) + seq![
                cur@ + split_on(s@.subrange(i as int, n as int), sep)[0],
            ] + split_on(s@.subrange(i as int, n as int), sep).drop_first(),
        decreases n - i,
    {
        let ghost rest = s@.subrange(i as int, n as int);
        let ghost rest2 = s@.subrange(i as int + 1, n as int);
        let ghost r2 = split_on(rest2, sep);
        proof {
            assert(rest[0] == s@[i as int]);
            assert(rest.drop_first() =~= rest2);
            lemma_split_on_len(rest2, sep);
        }
        let c = s.get_char(i);
        if c == sep {
            proof {
                assert(split_on(rest, sep) == seq![Seq::<char>::empty()] + r2);
                assert((seq![Seq::<char>::empty()] + r2)[0] =~= Seq::<char>::empty());
                assert((seq![Seq::<char>::empty()] + r2).drop_first() =~= r2);
                assert(cur@ + Seq::<char>::empty() =~= cur@);
                assert(r2 =~= seq![r2[0]] + r2.drop_first());
                assert(views_of_strings(segs@.push(cur)) =~= views_of_strings(segs@) + seq![cur@]);
            }
            segs.push(cur);
            cur = String::new();
            proof {
                assert(split_on(s@, sep) =~= views_of_strings(segs@) + seq![cur@ + r2[0]]
                    + r2.drop_first());
            }
        } else {
            let piece = s.substring_char(i, i + 1);
            let ghost oldcur = cur@;
            proof {
                assert(piece@ =~= seq![s@[i as int]]);
                assert(split_on(rest, sep) == seq![seq![rest[0]] + r2[0]] + r2.drop_first());
                assert((seq![seq![rest[0]] + r2[0]] + r2.drop_first())[0] == seq![rest[0]] + r2[0]);
                assert((seq![seq![rest[0]] + r2[0]] + r2.drop_first()).drop_first() =~= r2
                    .drop_first());
            }
            cur.append(piece);
            proof {
                assert(cur@ =~= oldcur + seq![s@[i as int]]);
                assert(cur@ + r2[0] =~= oldcur + (seq![rest[0]] + r2[0]));
                assert(split_on(s@, sep) =~= views_of_strings(segs@) + seq![cur@ + r2[0]]
                    + r2.drop_first());
            }
        }
        i = i + 1;
    }
    proof {
        assert(s@.subrange(i as int, n as int) =~= Seq::<char>::empty());
        assert(split_on(s@.subrange(i as int, n as int), sep) == seq![Seq::<char>::empty()]);
        assert(cur@ + Seq::<char>::empty() =~= cur@);
        assert(views_of_strings(segs@.push(cur)) =~= views_of_strings(segs@) + seq![cur@]);
    }
    segs.push(cur);
    proof {
        assert(views_of_strings(segs@) =~= split_on(s@, sep));
    }
    segs
}

/// `t` with one trailing carriage return removed, if it has one.
pub open spec fn strip_cr(t: Seq<char>) -> Seq<char> {
    if t.len() > 0 && t.last() == '\r' {
        t.drop_last()
    } else {
        t
    }
}

/// The lines of `s`: pieces split at `'\n'`, a trailing `'\r'` stripped
/// from every piece that a newline closed, and no final empty piece when
/// the text ends with a line terminator.
pub open spec fn lines_of(s: Seq<char>) -> Seq<Seq<char>> {
    let p = split_on(s, '\n');
    if p.last().len() == 0 {
        p.drop_last().map_values(|t: Seq<char>| strip_cr(t))
    } else {
        p.drop_last().map_values(|t: Seq<char>| strip_cr(t)).push(p.last())
    }
}

/// `t` with one trailing carriage return removed, if it has one.
fn strip_trailing_cr(t: &String) -> (r: String)
    ensures
        r@ == strip_cr(t@),
{
    let s = t.as_str();
    let len = s.unicode_len();
    if len > 0 && s.get_char(len - 1) == '\r' {
        let head = s.substring_char(0, len - 1);
        proof {
            assert(head@ =~= t@.drop_last());
        }
        String::from_str(head)
    } else {
        t.clone()
    }
}

/// Splits `s` into lines as the input format defines them.
pub fn split_lines(s: &str) -> (r: Vec<String>)
    ensures
        views_of_strings(r@) == lines_of(s@),
{
    let mut parts = split_str(s, '\n');
    let ghost p = split_on(s@, '\n');
    proof {
        lemma_split_on_len(s@, '\n');
        assert(parts@.len() == p.len());
        assert(parts@[p.len() - 1]@ == p.last());
    }
    let m = parts.len();
    let keep_last = !parts[m - 1].as_str().is_empty();
    let mut out: Vec<String> = Vec::new();
    let ghost stripped = p.drop_last().map_values(|t: Seq<char>| strip_cr(t));
    let mut i: usize = 0;
    while i < m - 1
        invariant
            m == parts@.len(),
            m == p.len(),
            m >= 1,
            0 <= i <= m - 1,
            views_of_strings(parts@) == p,
            stripped == p.drop_last().map_values(|t: Seq<char>| strip_cr(t)),
            views_of_strings(out@) == stripped.take(i as int),
        decreases m - i,
    {
        proof {
            assert(parts@[i as int]@ == p[i as int]);
            assert(p.drop_last()[i as int] == p[i as int]);
        }
        let piece = strip_trailing_cr(&parts[i]);
        out.push(piece);
        proof {
            assert(stripped.take(i as int + 1) =~= stripped.take(i as int).push(
                strip_cr(p[i as int]),
            ));
            assert(views_of_strings(out@) =~= stripped.take(i as int + 1));
        }
        i = i + 1;
    }
    proof {
        assert(stripped.take(m - 1) =~= stripped);
    }
    if keep_last {
        let last = parts[m - 1].clone();
        out.push(last);
        proof {
            assert(views_of_strings(out@) =~= stripped.push(p.last()));
            assert(p.last().len() != 0);
        }
    } else {
        proof {
            assert(p.last().len() == 0);
        }
    }
    out
}

} // verus!
