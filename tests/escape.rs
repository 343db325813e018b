use aetos::escape_label_value;
use aetos::no_escaping;

#[test]
fn test_escape_label_value() {
    assert_eq!(escape_label_value("simple"), "simple");
    assert_eq!(escape_label_value("with\"quote"), "with\\\"quote");
    assert_eq!(escape_label_value("with\\backslash"), "with\\\\backslash");
    assert_eq!(escape_label_value("with\nnewline"), "with\\nnewline");
    assert_eq!(
        escape_label_value("all\"three\\\nchars"),
        "all\\\"three\\\\\\nchars"
    );
}

#[test]
fn test_escape_label_value_no_escaping() {
    assert_eq!(no_escaping::escape_label_value("simple"), "simple");
    assert_eq!(no_escaping::escape_label_value("with\"quote"), "with\"quote");
    assert_eq!(no_escaping::escape_label_value("with\\backslash"), "with\\backslash");
    assert_eq!(no_escaping::escape_label_value("with\nnewline"), "with\nnewline");
    assert_eq!(
        no_escaping::escape_label_value("all\"three\\\nchars"),
        "all\"three\\\nchars"
    );
}

#[test]
fn escape_plain_value_is_unchanged() {
    assert_eq!(escape_label_value("simple"), "simple");
    assert_eq!(escape_label_value(""), "");
    assert_eq!(escape_label_value("tab\there, ünïcode"), "tab\there, ünïcode");
}

#[test]
fn escape_each_special_character_in_order() {
    assert_eq!(escape_label_value("a\"b\\c\nd"), "a\\\"b\\\\c\\nd");
    assert_eq!(escape_label_value("\n\n"), "\\n\\n");
    assert_eq!(escape_label_value("\\\""), "\\\\\\\"");
}

#[test]
fn escape_keeps_other_control_characters() {
    assert_eq!(escape_label_value("a\rb\tc"), "a\rb\tc");
}
