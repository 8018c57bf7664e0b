use dioxus_primitives::attributes::{
    is_white_space_char, join_class, merge_attributes, str_less, trim, Attribute, AttributeValue,
};
use dioxus_primitives::otp::split_label_attributes;

fn attr(name: &str, value: &str) -> Attribute<()> {
    Attribute {
        name: name.to_string(),
        namespace: None,
        volatile: false,
        value: AttributeValue::Text(value.to_string()),
    }
}

fn get_value(attr: &Attribute<()>) -> &str {
    match &attr.value {
        AttributeValue::Text(s) => s,
        _ => panic!("expected Text"),
    }
}

#[test]
fn merge_empty_lists() {
    let result = merge_attributes::<()>(vec![]);
    assert!(result.is_empty());
}

#[test]
fn merge_single_list() {
    let result = merge_attributes(vec![vec![attr("a", "1"), attr("b", "2")]]);
    assert_eq!(result.len(), 2);
    assert_eq!(result[0].name, "a");
    assert_eq!(result[1].name, "b");
}

#[test]
fn merge_preserves_sorted_order() {
    let result = merge_attributes(vec![
        vec![attr("a", "1"), attr("c", "3")],
        vec![attr("b", "2"), attr("d", "4")],
    ]);
    assert_eq!(result.len(), 4);
    assert_eq!(result[0].name, "a");
    assert_eq!(result[1].name, "b");
    assert_eq!(result[2].name, "c");
    assert_eq!(result[3].name, "d");
}

#[test]
fn later_list_overwrites() {
    let result = merge_attributes(vec![vec![attr("a", "first")], vec![attr("a", "second")]]);
    assert_eq!(result.len(), 1);
    assert_eq!(get_value(&result[0]), "second");
}

#[test]
fn class_attributes_are_merged() {
    let result = merge_attributes(vec![vec![attr("class", "foo")], vec![attr("class", "bar")]]);
    assert_eq!(result.len(), 1);
    assert_eq!(get_value(&result[0]), "foo bar");
}

#[test]
fn class_merge_trims_whitespace() {
    let result = merge_attributes(vec![
        vec![attr("class", "  foo  ")],
        vec![attr("class", "  bar  ")],
    ]);
    assert_eq!(get_value(&result[0]), "foo bar");
}

#[test]
fn class_merge_handles_empty() {
    let result = merge_attributes(vec![vec![attr("class", "")], vec![attr("class", "bar")]]);
    assert_eq!(get_value(&result[0]), "bar");
}

#[test]
fn mixed_attributes() {
    let result = merge_attributes(vec![
        vec![attr("class", "a"), attr("id", "x")],
        vec![attr("class", "b"), attr("id", "y")],
    ]);
    assert_eq!(result.len(), 2);
    assert_eq!(result[0].name, "class");
    assert_eq!(result[1].name, "id");
    assert_eq!(get_value(&result[0]), "a b");
    assert_eq!(get_value(&result[1]), "y");
}

#[test]
fn unsorted_input_still_works() {
    let result = merge_attributes(vec![
        vec![attr("z", "1"), attr("a", "2")],
        vec![attr("m", "3")],
    ]);
    assert_eq!(result.len(), 3);
    assert_eq!(result[0].name, "a");
    assert_eq!(result[1].name, "m");
    assert_eq!(result[2].name, "z");
}

#[test]
fn volatile_flag_preserved_on_class_merge() {
    let mut a1 = attr("class", "foo");
    a1.volatile = true;
    let a2 = attr("class", "bar");

    let result = merge_attributes(vec![vec![a1], vec![a2]]);
    assert!(result[0].volatile);
}

#[test]
fn namespaces_are_kept_apart() {
    let mut a1 = attr("href", "one");
    a1.namespace = Some("xlink".to_string());
    let a2 = attr("href", "two");
    let mut a3 = attr("href", "three");
    a3.namespace = Some("xlink".to_string());
    let result = merge_attributes(vec![vec![a1, a2], vec![a3]]);
    assert_eq!(result.len(), 2);
    assert_eq!(result[0].namespace.as_deref(), Some("xlink"));
    assert_eq!(get_value(&result[0]), "three");
    assert_eq!(result[1].namespace, None);
    assert_eq!(get_value(&result[1]), "two");
}

#[test]
fn non_text_class_value_replaces() {
    let a1 = attr("class", "foo");
    let a2: Attribute<()> = Attribute {
        name: "class".to_string(),
        namespace: None,
        volatile: false,
        value: AttributeValue::Other(()),
    };
    let result = merge_attributes(vec![vec![a1], vec![a2]]);
    assert_eq!(result.len(), 1);
    assert!(matches!(result[0].value, AttributeValue::Other(())));
}

#[test]
fn same_list_duplicates_last_wins() {
    let result = merge_attributes(vec![vec![attr("b", "1"), attr("a", "x"), attr("b", "2")]]);
    assert_eq!(result.len(), 2);
    assert_eq!(result[0].name, "a");
    assert_eq!(get_value(&result[1]), "2");
}

#[test]
fn join_class_cases() {
    assert_eq!(join_class(" a ", " b "), "a b");
    assert_eq!(join_class("", " b "), "b");
    assert_eq!(join_class("a", ""), "a");
    assert_eq!(join_class("  ", "  "), "");
}

#[test]
fn str_less_orders_by_code_point() {
    assert!(str_less("a", "b"));
    assert!(!str_less("b", "a"));
    assert!(str_less("ab", "abc"));
    assert!(!str_less("abc", "abc"));
    assert!(str_less("Z", "a"));
}

#[test]
fn otp_label_attributes_go_to_the_input() {
    let (labels, others) = split_label_attributes(vec![
        attr("class", "otp"),
        attr("aria-label", "Code"),
        attr("aria_labelledby", "title"),
        attr("id", "x"),
        attr("aria-describedby", "help"),
    ]);
    let label_names: Vec<&str> = labels.iter().map(|a| a.name.as_str()).collect();
    let other_names: Vec<&str> = others.iter().map(|a| a.name.as_str()).collect();
    assert_eq!(label_names, vec!["aria-label", "aria_labelledby"]);
    assert_eq!(other_names, vec!["class", "id", "aria-describedby"]);
}

#[test]
fn trimming_follows_unicode_white_space() {
    assert_eq!(join_class("\u{3000}foo\u{A0}", "\tbar\n"), "foo bar");
    assert_eq!(join_class("   ", "  "), "");
    assert_eq!(join_class("a", ""), "a");
}

#[test]
fn trim_removes_unicode_white_space_at_both_ends() {
    assert_eq!(trim("\u{3000} a b\u{2009}\n"), "a b");
    assert_eq!(trim(" \t\u{85} "), "");
    assert_eq!(trim(""), "");
    assert_eq!(trim("x"), "x");
    assert_eq!(trim("\u{200B}x"), "\u{200B}x");
    for c in ['\t', '\n', ' ', '\u{a0}', '\u{1680}', '\u{2000}', '\u{200a}', '\u{2028}', '\u{3000}'] {
        assert!(is_white_space_char(c));
        assert_eq!(is_white_space_char(c), c.is_whitespace());
    }
    for c in ['a', '\u{200B}', '\u{1f}', '\u{feff}'] {
        assert!(!is_white_space_char(c));
        assert_eq!(is_white_space_char(c), c.is_whitespace());
    }
}
