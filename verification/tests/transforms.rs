use webio_macros::{html, replace, webio_main};

#[test]
fn entry_with_body_emits_skeleton() {
    let out = webio_main("", "async fn main() { println!(\"hi\"); }");
    let expected = format!(
        "{}{}{}",
        "\n        fn main() {\n            let fut = async move ",
        "{ println!(\"hi\"); }",
        ";\n            ::webio::launch(fut);\n        }\n        ",
    );
    assert_eq!(out, expected);
}

#[test]
fn entry_without_body_is_diagnostic() {
    let out = webio_main("", "async fn main()");
    assert_eq!(
        out,
        "compile_error!(\"webio_main attribute must be applied to a function with a body block { }\")"
    );
}

#[test]
fn entry_diagnostic_ignores_other_content() {
    assert_eq!(webio_main("", "fn f()"), webio_main("", "struct S;"));
}

#[test]
fn entry_attr_is_ignored() {
    let item = "async fn main() { run(); }";
    assert_eq!(webio_main("some = arguments", item), webio_main("", item));
}

#[test]
fn entry_span_starts_at_first_brace_and_keeps_trailing_text() {
    let out = webio_main("", "fn f() { a } trailing { b }");
    let expected = format!(
        "{}{}{}",
        "\n        fn main() {\n            let fut = async move ",
        "{ a } trailing { b }",
        ";\n            ::webio::launch(fut);\n        }\n        ",
    );
    assert_eq!(out, expected);
}

#[test]
fn template_zero_pairs_yields_template_only() {
    let out = replace("\"hello\"");
    assert_eq!(
        out,
        "{ let mut content_string = \"hello\".to_string(); content_string }"
    );
}

#[test]
fn template_two_pairs_emit_two_statements_in_order() {
    let out = replace("\"{a}-{b}\", a = \"X\", b = \"Y\"");
    let expected = format!(
        "{}{}{}{}",
        "{ let mut content_string = \"{a}-{b}\".to_string();",
        "content_string = content_string.replace(\"{a}\", &format!(\"{}\", \"X\"));",
        "content_string = content_string.replace(\"{b}\", &format!(\"{}\", \"Y\"));",
        " content_string }",
    );
    assert_eq!(out, expected);
}

#[test]
fn template_segment_without_eq_is_ignored() {
    let out = replace("t, a=1, garbage, b=2");
    let expected = format!(
        "{}{}{}{}",
        "{ let mut content_string = t.to_string();",
        "content_string = content_string.replace(\"{a}\", &format!(\"{}\", 1));",
        "content_string = content_string.replace(\"{b}\", &format!(\"{}\", 2));",
        " content_string }",
    );
    assert_eq!(out, expected);
}

#[test]
fn template_empty_segment_is_ignored() {
    assert_eq!(replace("t, , a=1"), replace("t, a=1"));
}

#[test]
fn template_empty_input_defaults_to_empty_string_literal() {
    let out = replace("");
    assert_eq!(
        out,
        "{ let mut content_string = \"\".to_string(); content_string }"
    );
}

#[test]
fn template_trims_surrounding_whitespace() {
    let out = replace("  t  ,  a  =  1  ");
    let expected = format!(
        "{}{}{}",
        "{ let mut content_string = t.to_string();",
        "content_string = content_string.replace(\"{a}\", &format!(\"{}\", 1));",
        " content_string }",
    );
    assert_eq!(out, expected);
}

#[test]
fn template_splits_value_expressions_on_every_comma() {
    // The remaining text is split on every comma, so a comma inside a value
    // expression fragments it: only the part before the comma stays in the
    // value, and the part after it is a separate, `=`-less, ignored segment.
    let out = replace("t, a = f(1, 2)");
    let expected = format!(
        "{}{}{}",
        "{ let mut content_string = t.to_string();",
        "content_string = content_string.replace(\"{a}\", &format!(\"{}\", f(1));",
        " content_string }",
    );
    assert_eq!(out, expected);
}

#[test]
fn html_output_is_byte_identical_to_replace() {
    let inputs = [
        "",
        "\"hello\"",
        "\"{a}-{b}\", a = \"X\", b = \"Y\"",
        "t, a=1, garbage, b=2",
        "async fn main() { body }",
    ];
    for input in inputs {
        assert_eq!(html(input), replace(input));
    }
}
