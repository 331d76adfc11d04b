//! The miniature argument grammar of the template transforms:
//! `template-expr ("," segment)*`, where a segment of the shape
//! `key = value` contributes a key/value pair and any other segment is
//! silently ignored.
//!
//! The input is split on its first comma into the template expression and
//! the remaining text; the remaining text is split on every comma into
//! candidate segments.  A segment is trimmed; an empty one, or one without
//! `=`, yields no pair; otherwise the segment is split on its first `=`
//! into a key and a value, both trimmed.

use vstd::prelude::*;

use crate::text;

verus! {

/// One parsed key/value pair: the placeholder name and the value
/// expression's text.
pub struct Pair {
    pub key: String,
    pub value: String,
}

impl View for Pair {
    type V = (Seq<char>, Seq<char>);

    open spec fn view(&self) -> Self::V {
        (self.key@, self.value@)
    }
}

/// The views of a sequence of pairs.
pub open spec fn pair_views(ps: Seq<Pair>) -> Seq<(Seq<char>, Seq<char>)> {
    ps.map_values(|p: Pair| p@)
}

/// The parsed argument list: the template expression's text and the
/// key/value pairs in their original left-to-right order.
pub struct TemplateArgs {
    pub template: String,
    pub pairs: Vec<Pair>,
}

impl View for TemplateArgs {
    type V = (Seq<char>, Seq<(Seq<char>, Seq<char>)>);

    open spec fn view(&self) -> Self::V {
        (self.template@, pair_views(self.pairs@))
    }
}

/// The pair a single candidate segment contributes, if any: the segment is
/// trimmed, an empty or `=`-less segment is ignored, and otherwise the text
/// on either side of the first `=` is trimmed into the key and the value.
pub open spec fn pair_of_segment(seg: Seq<char>) -> Option<(Seq<char>, Seq<char>)> {
    let t = text::trim_spec(seg);
    if t.len() == 0 {
        None
    } else {
        match text::find_char(t, '=') {
            None => None,
            Some(i) => Some((text::trim_spec(t.take(i)), text::trim_spec(t.skip(i + 1)))),
        }
    }
}

/// The pairs a list of candidate segments contributes, in order.
pub open spec fn pairs_of_segments(segs: Seq<Seq<char>>) -> Seq<(Seq<char>, Seq<char>)>
    decreases segs.len(),
{
    if segs.len() == 0 {
        Seq::empty()
    } else {
        match pair_of_segment(segs[0]) {
            Some(p) => seq![p] + pairs_of_segments(segs.skip(1)),
            None => pairs_of_segments(segs.skip(1)),
        }
    }
}

/// `s` split on every occurrence of `c`: `n` separators yield `n + 1`
/// parts, empty parts included.
pub open spec fn split_all(s: Seq<char>, c: char) -> Seq<Seq<char>>
    decreases s.len(),
{
    match text::find_char(s, c) {
        None => seq![s],
        Some(i) => {
            proof {
                text::lemma_find_char(s, c);
            }
            seq![s.take(i)] + split_all(s.skip(i + 1), c)
        },
    }
}

/// The whole argument list, parsed: the template expression is the trimmed
/// text before the first comma (an empty input defaults to an empty string
/// literal), and the text after the first comma is split on every comma
/// into candidate segments.
pub open spec fn parse_args(input: Seq<char>) -> (Seq<char>, Seq<(Seq<char>, Seq<char>)>) {
    if input.len() == 0 {
        (seq!['"', '"'], Seq::empty())
    } else {
        match text::find_char(input, ',') {
            None => (text::trim_spec(input), Seq::empty()),
            Some(i) => (
                text::trim_spec(input.take(i)),
                pairs_of_segments(split_all(input.skip(i + 1), ',')),
            ),
        }
    }
}

/// A segment in which `=` does not occur contributes no pair.
pub proof fn lemma_no_eq_no_pair(seg: Seq<char>)
    requires
        forall|j: int| 0 <= j < seg.len() ==> seg[j] != '=',
    ensures
        pair_of_segment(seg) is None,
{
    text::lemma_trim_keeps_absence(seg, '=');
    let t = text::trim_spec(seg);
    if t.len() > 0 {
        text::lemma_find_char(t, '=');
        match text::find_char(t, '=') {
            Some(k) => {
                assert(t[k] != '=');
            },
            None => {
            },
        }
    }
}

/// A candidate segment lacking `=` is ignored: removing it from the segment
/// list leaves the parsed pairs, and so every other pair's substitution,
/// unchanged.
pub proof fn lemma_segment_without_eq_ignored(segs: Seq<Seq<char>>, i: int)
    requires
        0 <= i < segs.len(),
        forall|j: int| 0 <= j < segs[i].len() ==> segs[i][j] != '=',
    ensures
        pairs_of_segments(segs.remove(i)) == pairs_of_segments(segs),
    decreases i,
{
    lemma_no_eq_no_pair(segs[i]);
    if i == 0 {
        assert(segs.remove(0) =~= segs.skip(1));
    } else {
        assert(segs.skip(1)[i - 1] == segs[i]);
        lemma_segment_without_eq_ignored(segs.skip(1), i - 1);
        assert(segs.remove(i)[0] == segs[0]);
        assert(segs.remove(i).skip(1) =~= segs.skip(1).remove(i - 1));
        assert(segs.remove(i).len() > 0);
    }
}

/// The contribution of a list of segments unfolds segment by segment.
pub proof fn lemma_pairs_of_segments_cons(x: Seq<char>, rest: Seq<Seq<char>>)
    ensures
        pairs_of_segments(seq![x] + rest) == match pair_of_segment(x) {
            Some(p) => seq![p] + pairs_of_segments(rest),
            None => pairs_of_segments(rest),
        },
{
    let segs = seq![x] + rest;
    assert(segs[0] == x);
    assert(segs.skip(1) =~= rest);
}

/// Appending a view to a mapped pair sequence is mapping the appended
/// sequence.
pub proof fn lemma_pair_views_push(ps: Seq<Pair>, p: Pair)
    ensures
        pair_views(ps.push(p)) == pair_views(ps).push(p@),
{
    assert(pair_views(ps.push(p)) =~= pair_views(ps).push(p@));
}

/// Parses the whole argument list.
pub fn parse_template_args(input: &str) -> (args: TemplateArgs)
    ensures
        args@ == parse_args(input@),
{
    let n = input.unicode_len();
    if n == 0 {
        let args = TemplateArgs { template: String::from_str("\"\""), pairs: Vec::new() };
        proof {
            reveal_strlit("\"\"");
            assert(args.template@ =~= seq!['"', '"']);
            assert(pair_views(args.pairs@) =~= Seq::<(Seq<char>, Seq<char>)>::empty());
        }
        return args;
    }
    match crate::find_first(input, ',') {
        None => {
            let args = TemplateArgs { template: crate::text::trim(input), pairs: Vec::new() };
            proof {
                assert(pair_views(args.pairs@) =~= Seq::<(Seq<char>, Seq<char>)>::empty());
            }
            args
        }
        Some(i) => {
            proof {
                text::lemma_find_char(input@, ',');
            }
            let template = crate::text::trim(input.substring_char(0, i));
            let mut remaining = String::from_str(input.substring_char(i + 1, n));
            let ghost rest0: Seq<char> = remaining@;
            let mut pairs: Vec<Pair> = Vec::new();
            proof {
                assert(pair_views(pairs@) =~= Seq::<(Seq<char>, Seq<char>)>::empty());
                assert(pair_views(pairs@) + pairs_of_segments(split_all(rest0, ','))
                    =~= pairs_of_segments(split_all(rest0, ',')));
            }
            loop
                invariant_except_break
                    pair_views(pairs@) + pairs_of_segments(split_all(remaining@, ','))
                        == pairs_of_segments(split_all(rest0, ',')),
                ensures
                    pair_views(pairs@) == pairs_of_segments(split_all(rest0, ',')),
                decreases remaining@.len(),
            {
                let ghost rem_old: Seq<char> = remaining@;
                let ghost pairs_old: Seq<Pair> = pairs@;
                match crate::find_first(remaining.as_str(), ',') {
                    Some(k) => {
                        proof {
                            text::lemma_find_char(rem_old, ',');
                        }
                        let m = remaining.as_str().unicode_len();
                        let seg = remaining.as_str().substring_char(0, k);
                        proof {
                            assert(seg@ =~= rem_old.take(k as int));
                        }
                        match parse_pair(seg) {
                            Some(p) => {
                                proof {
                                    lemma_pair_views_push(pairs@, p);
                                }
                                pairs.push(p);
                            },
                            None => {
                            },
                        }
                        let tail = String::from_str(remaining.as_str().substring_char(k + 1, m));
                        proof {
                            assert(tail@ =~= rem_old.skip(k + 1));
                        }
                        remaining = tail;
                        proof {
                            lemma_pairs_of_segments_cons(
                                rem_old.take(k as int),
                                split_all(rem_old.skip(k + 1), ','),
                            );
                            assert(split_all(rem_old, ',') == seq![rem_old.take(k as int)]
                                + split_all(rem_old.skip(k + 1), ','));
                            match pair_of_segment(rem_old.take(k as int)) {
                                Some(pv) => {
                                    assert(pair_views(pairs@) + pairs_of_segments(
                                        split_all(remaining@, ','),
                                    ) =~= pair_views(pairs_old) + (seq![pv] + pairs_of_segments(
                                        split_all(remaining@, ','),
                                    )));
                                },
                                None => {
                                },
                            }
                        }
                    },
                    None => {
                        match parse_pair(remaining.as_str()) {
                            Some(p) => {
                                proof {
                                    lemma_pair_views_push(pairs@, p);
                                }
                                pairs.push(p);
                            },
                            None => {
                            },
                        }
                        proof {
                            assert(split_all(rem_old, ',') == seq![rem_old]);
                            assert(seq![rem_old] + Seq::<Seq<char>>::empty() =~= seq![rem_old]);
                            lemma_pairs_of_segments_cons(rem_old, Seq::empty());
                            assert(pairs_of_segments(Seq::<Seq<char>>::empty())
                                =~= Seq::<(Seq<char>, Seq<char>)>::empty());
                            match pair_of_segment(rem_old) {
                                Some(pv) => {
                                    assert(pairs_of_segments(split_all(rem_old, ','))
                                        =~= seq![pv]);
                                    assert(pair_views(pairs@) =~= pair_views(pairs_old)
                                        + seq![pv]);
                                    assert(pair_views(pairs@)
                                        =~= pairs_of_segments(split_all(rest0, ',')));
                                },
                                None => {
                                    assert(pairs_of_segments(split_all(rem_old, ','))
                                        =~= Seq::<(Seq<char>, Seq<char>)>::empty());
                                    assert(pair_views(pairs@) =~= pair_views(pairs_old)
                                        + pairs_of_segments(split_all(rem_old, ',')));
                                    assert(pair_views(pairs@)
                                        =~= pairs_of_segments(split_all(rest0, ',')));
                                },
                            }
                        }
                        break;
                    },
                }
            }
            let args = TemplateArgs { template, pairs };
            proof {
                assert(input@.subrange(0, i as int) =~= input@.take(i as int));
                assert(rest0 =~= input@.skip(i + 1));
            }
            args
        }
    }
}

/// Parses one candidate segment.
pub fn parse_pair(seg: &str) -> (r: Option<Pair>)
    ensures
        match r {
            Some(p) => pair_of_segment(seg@) == Some(p@),
            None => pair_of_segment(seg@) is None,
        },
{
    let t = crate::text::trim(seg);
    let n = t.as_str().unicode_len();
    if n == 0 {
        return None;
    }
    match crate::find_first(t.as_str(), '=') {
        None => None,
        Some(i) => {
            proof {
                text::lemma_find_char(t@, '=');
            }
            let key = crate::text::trim(t.as_str().substring_char(0, i));
            let value = crate::text::trim(t.as_str().substring_char(i + 1, n));
            proof {
                assert(t@.subrange(0, i as int) =~= t@.take(i as int));
                assert(t@.subrange(i + 1, n as int) =~= t@.skip(i + 1));
            }
            Some(Pair { key, value })
        }
    }
}

} // verus!
