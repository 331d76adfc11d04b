//! The entry-point rewrite: its output text as a function of the input text,
//! and the laws the rewrite obeys.
//!
//! The rewrite finds the first `{` of a function-shaped fragment, takes
//! everything from that brace to the end of the fragment as the extracted
//! body span, and embeds that span, verbatim, as the body of a deferred
//! computation handed to the runtime's `launch` entry point.  A fragment
//! with no `{` is answered with a fixed diagnostic-producing fragment
//! instead.

use vstd::prelude::*;

use crate::text;

verus! {

/// Text of the synthesized entry point that precedes the extracted span.
pub open spec fn entry_prefix() -> Seq<char> {
    "\n        fn main() {\n            let fut = async move "@
}

/// Text of the synthesized entry point that follows the extracted span.
pub open spec fn entry_suffix() -> Seq<char> {
    ";\n            ::webio::launch(fut);\n        }\n        "@
}

/// The fixed diagnostic-producing fragment emitted when the input holds no
/// body block.
pub open spec fn diagnostic_text() -> Seq<char> {
    "compile_error!(\"webio_main attribute must be applied to a function with a body block { }\")"@
}

/// True when `item` holds a `{` somewhere.
pub open spec fn has_body(item: Seq<char>) -> bool {
    text::find_char(item, '{') is Some
}

/// The extracted body span: everything from the first `{` to the end.
pub open spec fn body_span(item: Seq<char>) -> Seq<char>
    recommends
        has_body(item),
{
    item.skip(text::find_char(item, '{').unwrap())
}

/// The entry-point rewrite's whole output as a function of its input.
pub open spec fn entry_output(item: Seq<char>) -> Seq<char> {
    if has_body(item) {
        entry_prefix() + body_span(item) + entry_suffix()
    } else {
        diagnostic_text()
    }
}

/// An input with at least one `{` is rewritten into the skeleton around the
/// span that starts at its first `{`: the span appears in the output
/// unmodified, between the fixed prefix and suffix.
pub proof fn lemma_entry_embeds_body(item: Seq<char>)
    requires
        exists|i: int| 0 <= i < item.len() && item[i] == '{',
    ensures
        exists|i: int|
            {
                &&& 0 <= i < item.len()
                &&& item[i] == '{'
                &&& forall|j: int| 0 <= j < i ==> item[j] != '{'
                &&& entry_output(item) == entry_prefix() + item.skip(i) + entry_suffix()
            },
{
    text::lemma_find_char(item, '{');
    match text::find_char(item, '{') {
        Some(i) => {
            assert(0 <= i < item.len() && item[i] == '{' && (forall|j: int|
                0 <= j < i ==> item[j] != '{') && entry_output(item) == entry_prefix() + item.skip(
                i,
            ) + entry_suffix());
        }
        None => {
            let k = choose|k: int| 0 <= k < item.len() && item[k] == '{';
            assert(item[k] != '{');
        }
    }
}

/// An input with no `{` at all is answered with exactly the fixed
/// diagnostic-producing fragment.
pub proof fn lemma_entry_no_body_is_diagnostic(item: Seq<char>)
    requires
        forall|j: int| 0 <= j < item.len() ==> item[j] != '{',
    ensures
        entry_output(item) == diagnostic_text(),
{
    text::lemma_find_char(item, '{');
    match text::find_char(item, '{') {
        Some(i) => {
            assert(item[i] != '{');
        }
        None => {
        }
    }
}

} // verus!
