//! The substitution semantics of the emitted fragments: sequential literal
//! replacement of `{key}` placeholders.
//!
//! A fragment emitted by the template transform evaluates, at the point
//! where it is spliced in, to the template's string value rewritten by one
//! replacement pass per pair, in the pairs' original order.  This module
//! gives that evaluation as verified code: one left-to-right,
//! non-overlapping replacement of every occurrence of a pattern, folded
//! over the pair list.  Because the passes run in order, a value introduced
//! by an earlier pass can be rewritten again by a later pass; the fold is
//! deliberately not idempotent.

use vstd::prelude::*;

use crate::parse;

verus! {

/// One replacement pass: every occurrence of `pat` in `s`, scanned left to
/// right without overlap, replaced by `rep`.  An empty pattern replaces
/// nothing.
pub open spec fn replace_all_spec(s: Seq<char>, pat: Seq<char>, rep: Seq<char>) -> Seq<char>
    decreases s.len(),
{
    if pat.len() == 0 {
        s
    } else if s.len() < pat.len() {
        s
    } else if s.take(pat.len() as int) == pat {
        rep + replace_all_spec(s.skip(pat.len() as int), pat, rep)
    } else {
        seq![s[0]] + replace_all_spec(s.skip(1), pat, rep)
    }
}

/// The exact placeholder text a key matches: `{key}`.
pub open spec fn placeholder(key: Seq<char>) -> Seq<char> {
    seq!['{'] + key + seq!['}']
}

/// The value of the emitted fragment: the template's string value after one
/// replacement pass per pair, in order.
pub open spec fn subst_spec(t: Seq<char>, ps: Seq<(Seq<char>, Seq<char>)>) -> Seq<char>
    decreases ps.len(),
{
    if ps.len() == 0 {
        t
    } else {
        subst_spec(replace_all_spec(t, placeholder(ps[0].0), ps[0].1), ps.skip(1))
    }
}

/// With zero pairs the fragment evaluates to exactly the template's string
/// value, unmodified.
pub proof fn lemma_subst_no_pairs(t: Seq<char>)
    ensures
        subst_spec(t, Seq::empty()) == t,
{
}

/// A replacement pass beginning with an occurrence of the pattern rewrites
/// it and goes on after it.
proof fn lemma_replace_all_here(s: Seq<char>, pat: Seq<char>, rep: Seq<char>)
    requires
        pat.len() >= 1,
        s.len() >= pat.len(),
        s.take(pat.len() as int) == pat,
    ensures
        replace_all_spec(s, pat, rep) == rep + replace_all_spec(s.skip(pat.len() as int), pat, rep),
{
}

/// A replacement pass not beginning with an occurrence keeps the first
/// character and goes on after it.
proof fn lemma_replace_all_step(s: Seq<char>, pat: Seq<char>, rep: Seq<char>)
    requires
        pat.len() >= 1,
        s.len() >= 1,
        s.len() < pat.len() || s.take(pat.len() as int) != pat,
    ensures
        replace_all_spec(s, pat, rep) == seq![s[0]] + replace_all_spec(s.skip(1), pat, rep),
{
    if s.len() < pat.len() {
        assert(replace_all_spec(s, pat, rep) == s);
        assert(s.skip(1).len() < pat.len());
        assert(replace_all_spec(s.skip(1), pat, rep) == s.skip(1));
        assert(seq![s[0]] + s.skip(1) =~= s);
    }
}

/// Decides whether `pat` occurs in `s` at position `i`.
fn matches_at(s: &str, i: usize, pat: &str) -> (r: bool)
    requires
        i + pat@.len() <= s@.len(),
    ensures
        r == (s@.subrange(i as int, i + pat@.len()) == pat@),
{
    let n = s.unicode_len();
    let m = pat.unicode_len();
    let mut j: usize = 0;
    while j < m
        invariant
            n == s@.len(),
            m == pat@.len(),
            i + m <= s@.len(),
            0 <= j <= m,
            forall|k: int| 0 <= k < j ==> s@[i + k] == pat@[k],
        decreases m - j,
    {
        if s.get_char(i + j) != pat.get_char(j) {
            proof {
                assert(s@.subrange(i as int, i + pat@.len())[j as int] == s@[i + j]);
            }
            return false;
        }
        j += 1;
    }
    proof {
        assert(s@.subrange(i as int, i + pat@.len()) =~= pat@);
    }
    true
}

/// One replacement pass over `s`: every occurrence of `pat`, scanned left
/// to right without overlap, replaced by `rep`.
pub fn replace_all(s: &str, pat: &str, rep: &str) -> (out: String)
    requires
        pat@.len() >= 1,
    ensures
        out@ == replace_all_spec(s@, pat@, rep@),
{
    let n = s.unicode_len();
    let m = pat.unicode_len();
    let mut out = String::new();
    let mut i: usize = 0;
    proof {
        assert(s@.skip(0) =~= s@);
        assert(out@ + s@.skip(0) =~= s@);
    }
    while i < n
        invariant
            n == s@.len(),
            m == pat@.len(),
            m >= 1,
            0 <= i <= n,
            replace_all_spec(s@, pat@, rep@) == out@ + replace_all_spec(
                s@.skip(i as int),
                pat@,
                rep@,
            ),
        decreases n - i,
    {
        let ghost tail = s@.skip(i as int);
        if m <= n - i && matches_at(s, i, pat) {
            out.append(rep);
            proof {
                assert(tail.take(m as int) =~= s@.subrange(i as int, i + m));
                lemma_replace_all_here(tail, pat@, rep@);
                assert(tail.skip(m as int) =~= s@.skip(i + m));
            }
            i += m;
        } else {
            out.append(s.substring_char(i, i + 1));
            proof {
                if m <= n - i {
                    assert(tail.take(m as int) =~= s@.subrange(i as int, i + m));
                }
                assert(tail.len() >= 1);
                lemma_replace_all_step(tail, pat@, rep@);
                assert(tail[0] == s@[i as int]);
                assert(s@.subrange(i as int, i + 1) =~= seq![tail[0]]);
                assert(tail.skip(1) =~= s@.skip(i + 1));
            }
            i += 1;
        }
    }
    proof {
        assert(s@.skip(n as int) =~= Seq::<char>::empty());
        assert(replace_all_spec(Seq::<char>::empty(), pat@, rep@) == Seq::<char>::empty());
        assert(out@ + Seq::<char>::empty() =~= out@);
    }
    out
}

/// Evaluates the emitted fragment's substitution: one replacement pass per
/// pair over the template's string value, in the pairs' original order.
pub fn substitute(template: &str, pairs: &Vec<parse::Pair>) -> (out: String)
    ensures
        out@ == subst_spec(template@, parse::pair_views(pairs@)),
{
    let ghost views = parse::pair_views(pairs@);
    let mut cur = String::from_str(template);
    proof {
        assert(views.skip(0) =~= views);
    }
    let mut idx: usize = 0;
    while idx < pairs.len()
        invariant
            idx <= pairs.len(),
            views == parse::pair_views(pairs@),
            subst_spec(template@, views) == subst_spec(cur@, views.skip(idx as int)),
        decreases pairs.len() - idx,
    {
        let p = &pairs[idx];
        let mut pat = String::from_str("{");
        pat.append(p.key.as_str());
        pat.append("}");
        proof {
            reveal_strlit("{");
            reveal_strlit("}");
            assert(pat@ =~= placeholder(p.key@));
        }
        let next = replace_all(cur.as_str(), pat.as_str(), p.value.as_str());
        proof {
            let rest = views.skip(idx as int);
            assert(rest[0] == views[idx as int]);
            assert(views[idx as int] == pairs@[idx as int]@);
            assert(rest.skip(1) =~= views.skip(idx + 1));
            assert(subst_spec(cur@, rest) == subst_spec(next@, views.skip(idx + 1)));
        }
        cur = next;
        idx += 1;
    }
    proof {
        assert(views.skip(pairs@.len() as int) =~= Seq::<(Seq<char>, Seq<char>)>::empty());
    }
    cur
}

} // verus!
