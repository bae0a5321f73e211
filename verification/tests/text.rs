use schemamaker::text::{decimal_string, join, split_at_char, str_ends_with, str_eq, trim};

#[test]
fn text_helpers() {
    assert_eq!(decimal_string(0), "0");
    assert_eq!(decimal_string(1234567), "1234567");
    assert_eq!(join(&vec!["a".to_string(), "b".to_string()], ", "), "a, b");
    assert_eq!(join(&vec![], ", "), "");
    assert_eq!(split_at_char("a,,b", ','), vec!["a", "", "b"]);
    assert_eq!(split_at_char("", ','), vec![""]);
    assert!(str_ends_with("created_at", "_at"));
    assert!(!str_ends_with("at", "_at"));
    assert!(str_eq("é", "é"));
    assert_eq!(trim("\t x y \n"), "x y");
    assert_eq!(trim("\u{3000}\u{85}"), "");
    assert_eq!(trim("\u{200b}a"), "\u{200b}a");
}
