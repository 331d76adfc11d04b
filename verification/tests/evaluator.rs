use webio_macros::parse::{parse_template_args, Pair};
use webio_macros::subst::{replace_all, substitute};

fn pair(key: &str, value: &str) -> Pair {
    Pair {
        key: key.to_string(),
        value: value.to_string(),
    }
}

#[test]
fn substitute_zero_pairs_keeps_template() {
    assert_eq!(substitute("hello {name}", &vec![]), "hello {name}");
}

#[test]
fn substitute_two_pairs() {
    let pairs = vec![pair("a", "X"), pair("b", "Y")];
    assert_eq!(substitute("{a}-{b}", &pairs), "X-Y");
}

#[test]
fn substitute_is_order_sensitive_and_rescans() {
    // The first pass rewrites {a} into {b}; the second pass, running later,
    // rewrites that freshly introduced {b} as well.
    let pairs = vec![pair("a", "{b}"), pair("b", "Z")];
    assert_eq!(substitute("{a}", &pairs), "Z");
    // In the opposite order {b} is introduced only after the pass for b ran.
    let pairs = vec![pair("b", "Z"), pair("a", "{b}")];
    assert_eq!(substitute("{a}", &pairs), "{b}");
}

#[test]
fn substitute_is_not_idempotent() {
    // Replacement can re-trigger on later keys, so running the same pair
    // list twice may rewrite further: this is the documented behavior of
    // the sequential passes, not an accident.
    let pairs = vec![pair("a", "Q"), pair("b", "{a}")];
    let once = substitute("{b}", &pairs);
    let twice = substitute(&once, &pairs);
    assert_eq!(once, "{a}");
    assert_eq!(twice, "Q");
    assert_ne!(once, twice);
}

#[test]
fn substitute_empty_key_matches_empty_braces() {
    let pairs = vec![pair("", "Q")];
    assert_eq!(substitute("x{}y", &pairs), "xQy");
}

#[test]
fn replace_all_scans_left_to_right_without_overlap() {
    assert_eq!(replace_all("aaa", "aa", "b"), "ba");
    assert_eq!(replace_all("xyz", "a", "b"), "xyz");
    assert_eq!(replace_all("{k}{k}", "{k}", "v"), "vv");
}

#[test]
fn parse_splits_template_pairs_and_garbage() {
    let args = parse_template_args("  t  , a = 1, garbage, b = 2");
    assert_eq!(args.template, "t");
    assert_eq!(args.pairs.len(), 2);
    assert_eq!(args.pairs[0].key, "a");
    assert_eq!(args.pairs[0].value, "1");
    assert_eq!(args.pairs[1].key, "b");
    assert_eq!(args.pairs[1].value, "2");
}

#[test]
fn parse_empty_input_defaults_to_empty_string_literal() {
    let args = parse_template_args("");
    assert_eq!(args.template, "\"\"");
    assert_eq!(args.pairs.len(), 0);
}

#[test]
fn parse_splits_key_on_first_eq_only() {
    let args = parse_template_args("t, a = \"x=y\"");
    assert_eq!(args.pairs.len(), 1);
    assert_eq!(args.pairs[0].key, "a");
    assert_eq!(args.pairs[0].value, "\"x=y\"");
}
