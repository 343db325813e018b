use aetos::{Label, LabelSet};

#[test]
fn test_single_field_label() {
    let label = LabelSet::empty().with("event_type", "stake");

    let result = label.fmt_labels();
    assert_eq!(result, r#"event_type="stake""#);
}

#[test]
fn test_multi_field_label() {
    let label = LabelSet::empty()
        .with("method", "GET")
        .with("status", &200u32.to_string());

    let result = label.fmt_labels();
    assert_eq!(result, r#"method="GET",status="200""#);
}

#[test]
fn test_label_escaping() {
    let label = LabelSet::empty().with("value", r#"has"quotes"and\backslash"#);

    let result = label.fmt_labels();
    assert_eq!(result, r#"value="has\"quotes\"and\\backslash""#);
}

#[test]
fn test_label_newline_escaping() {
    let label = LabelSet::empty().with("text", "line1\nline2");

    let result = label.fmt_labels();
    assert_eq!(result, r#"text="line1\nline2""#);
}

#[test]
fn test_three_fields_no_trailing_comma() {
    let label = LabelSet::empty().with("a", "1").with("b", "2").with("c", "3");

    let result = label.fmt_labels();
    assert_eq!(result, r#"a="1",b="2",c="3""#);
    assert!(!result.ends_with(','));
}

#[test]
fn empty_label_set_formats_as_nothing() {
    assert_eq!(LabelSet::empty().fmt_labels(), "");
    assert_eq!(().fmt_labels(), "");
}

#[test]
fn label_sets_compare_by_names_values_and_order() {
    let a = LabelSet::empty().with("x", "1").with("y", "2");
    let b = LabelSet::empty().with("x", "1").with("y", "2");
    let c = LabelSet::empty().with("y", "2").with("x", "1");
    assert!(a.same_as(&b));
    assert!(!a.same_as(&c));
    assert!(!a.same_as(&LabelSet::empty()));
}
