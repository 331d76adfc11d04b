//! Compile-time source-to-source transforms for the webio runtime.
//!
//! The crate rewrites textual renderings of token sequences:
//!
//! * [`webio_main`] locates the brace-delimited body of a function and
//!   re-emits a synchronous `main` that hands that body, wrapped in a
//!   deferred computation, to the runtime's `launch` entry point.
//! * [`replace`] compiles a `template, key = value, ...` argument list into
//!   a code fragment that performs sequential literal placeholder
//!   substitution.
//! * [`html`] is a semantic alias of [`replace`].
//!
//! Every transform is a pure function from text to text; the substitution
//! semantics of the emitted fragment is itself modelled and verified in
//! [`subst`].

use vstd::prelude::*;

pub mod emit;
pub mod entry;
pub mod parse;
pub mod subst;
pub mod text;

verus! {

/// Rewrites a function-shaped fragment into the synchronous entry point of
/// the runtime.
///
/// The annotation arguments `_attr` are ignored.  When `item` holds a `{`,
/// the output is the fixed skeleton around the extracted span: everything
/// from the first `{` of `item` to its end, taken verbatim.  When `item`
/// holds no `{`, the output is exactly the fixed diagnostic-producing
/// fragment.
pub fn webio_main(_attr: &str, item: &str) -> (out: String)
    ensures
        out@ == entry::entry_output(item@),
{
    match find_first(item, '{') {
        Some(i) => {
            let n = item.unicode_len();
            proof {
                text::lemma_find_char(item@, '{');
            }
            let mut out = String::from_str(
                "\n        fn main() {\n            let fut = async move ",
            );
            out.append(item.substring_char(i, n));
            out.append(";\n            ::webio::launch(fut);\n        }\n        ");
            proof {
                assert(item@.subrange(i as int, n as int) =~= item@.skip(i as int));
            }
            out
        }
        None => String::from_str(
            "compile_error!(\"webio_main attribute must be applied to a function with a body block { }\")",
        ),
    }
}

/// Compiles a `template, key = value, ...` argument list into a code
/// fragment that performs sequential literal substitution of `{key}`
/// placeholders.
///
/// The output declares a mutable string initialized from the template
/// expression, reassigns it once per parsed pair — replacing every literal
/// occurrence of `{key}` with the formatted value — in the pairs' original
/// left-to-right order, and yields the final string.  Segments without `=`
/// are silently skipped.
pub fn replace(input: &str) -> (out: String)
    ensures
        out@ == emit::template_output(input@),
{
    let args = parse::parse_template_args(input);
    emit::emit_template(&args)
}

/// A semantic alias of [`replace`]: it forwards its input unchanged and
/// returns the result unchanged, so the two transforms produce identical
/// output for identical input — their contracts name the same output
/// function.
pub fn html(input: &str) -> (out: String)
    ensures
        out@ == emit::template_output(input@),
{
    replace(input)
}

/// Returns the first index of `c` in `s`, scanning left to right.
pub fn find_first(s: &str, c: char) -> (r: Option<usize>)
    ensures
        match r {
            Some(i) => text::find_char(s@, c) == Some(i as int),
            None => text::find_char(s@, c) is None,
        },
{
    let n = s.unicode_len();
    let mut i: usize = 0;
    while i < n
        invariant
            n == s@.len(),
            0 <= i <= n,
            forall|j: int| 0 <= j < i ==> s@[j] != c,
        decreases n - i,
    {
        if s.get_char(i) == c {
            proof {
                text::lemma_find_char_at(s@, c, i as int);
            }
            return Some(i);
        }
        i += 1;
    }
    proof {
        text::lemma_find_char(s@, c);
    }
    None
}

} // verus!
