//! Code generation for the template transforms: the emitted fragment
//! declares a mutable string initialized from the template expression,
//! reassigns it once per key/value pair with a literal replacement of the
//! pair's `{key}` placeholder, in the pairs' original order, and yields the
//! final string.

use vstd::prelude::*;

use crate::parse;

verus! {

/// Opening of the emitted fragment, up to the template expression.
pub open spec fn header_prefix() -> Seq<char> {
    "{ let mut content_string = "@
}

/// Text between the template expression and the replacement statements.
pub open spec fn header_suffix() -> Seq<char> {
    ".to_string();"@
}

/// Closing of the emitted fragment: it yields the built string.
pub open spec fn footer() -> Seq<char> {
    " content_string }"@
}

/// The replacement statement emitted for one key/value pair.
pub open spec fn stmt_for_pair(p: (Seq<char>, Seq<char>)) -> Seq<char> {
    "content_string = content_string.replace(\"{"@ + p.0 + "}\", &format!(\"{}\", "@ + p.1
        + "));"@
}

/// The replacement statements for a pair list, in order.
pub open spec fn stmts_for_pairs(ps: Seq<(Seq<char>, Seq<char>)>) -> Seq<char>
    decreases ps.len(),
{
    if ps.len() == 0 {
        Seq::empty()
    } else {
        stmt_for_pair(ps[0]) + stmts_for_pairs(ps.skip(1))
    }
}

/// The whole emitted fragment for a parsed argument list.
pub open spec fn emit_spec(t: Seq<char>, ps: Seq<(Seq<char>, Seq<char>)>) -> Seq<char> {
    header_prefix() + t + header_suffix() + stmts_for_pairs(ps) + footer()
}

/// The template transform's whole output as a function of its input text.
pub open spec fn template_output(input: Seq<char>) -> Seq<char> {
    emit_spec(parse::parse_args(input).0, parse::parse_args(input).1)
}

/// The statements for a pair list grow statement by statement at the end.
pub proof fn lemma_stmts_push(ps: Seq<(Seq<char>, Seq<char>)>, p: (Seq<char>, Seq<char>))
    ensures
        stmts_for_pairs(ps.push(p)) == stmts_for_pairs(ps) + stmt_for_pair(p),
    decreases ps.len(),
{
    if ps.len() == 0 {
        assert(ps.push(p)[0] == p);
        assert(ps.push(p).skip(1) =~= Seq::<(Seq<char>, Seq<char>)>::empty());
        assert(stmts_for_pairs(Seq::<(Seq<char>, Seq<char>)>::empty()) == Seq::<char>::empty());
        assert(stmts_for_pairs(ps.push(p)) =~= stmt_for_pair(p));
        assert(stmts_for_pairs(ps) + stmt_for_pair(p) =~= stmt_for_pair(p));
    } else {
        lemma_stmts_push(ps.skip(1), p);
        assert(ps.push(p)[0] == ps[0]);
        assert(ps.push(p).skip(1) =~= ps.skip(1).push(p));
        assert(stmts_for_pairs(ps.push(p)) =~= stmts_for_pairs(ps) + stmt_for_pair(p));
    }
}

/// Emits the code fragment for a parsed argument list.
pub fn emit_template(args: &parse::TemplateArgs) -> (out: String)
    ensures
        out@ == emit_spec(args@.0, args@.1),
{
    let mut out = String::from_str("{ let mut content_string = ");
    out.append(args.template.as_str());
    out.append(".to_string();");
    let ghost views = parse::pair_views(args.pairs@);
    proof {
        assert(views.take(0) =~= Seq::<(Seq<char>, Seq<char>)>::empty());
        assert(stmts_for_pairs(views.take(0)) =~= Seq::<char>::empty());
        assert(out@ =~= header_prefix() + args.template@ + header_suffix() + stmts_for_pairs(
            views.take(0),
        ));
    }
    let mut idx: usize = 0;
    while idx < args.pairs.len()
        invariant
            idx <= args.pairs.len(),
            views == parse::pair_views(args.pairs@),
            out@ == header_prefix() + args.template@ + header_suffix() + stmts_for_pairs(
                views.take(idx as int),
            ),
        decreases args.pairs.len() - idx,
    {
        let p = &args.pairs[idx];
        out.append("content_string = content_string.replace(\"{");
        out.append(p.key.as_str());
        out.append("}\", &format!(\"{}\", ");
        out.append(p.value.as_str());
        out.append("));");
        proof {
            assert(views[idx as int] == args.pairs@[idx as int]@);
            lemma_stmts_push(views.take(idx as int), views[idx as int]);
            assert(views.take(idx as int).push(views[idx as int]) =~= views.take(idx + 1));
            assert(out@ =~= header_prefix() + args.template@ + header_suffix() + stmts_for_pairs(
                views.take(idx + 1),
            ));
        }
        idx += 1;
    }
    out.append(" content_string }");
    proof {
        assert(views.take(args.pairs@.len() as int) =~= views);
        assert(out@ =~= emit_spec(args@.0, args@.1));
    }
    out
}

} // verus!
