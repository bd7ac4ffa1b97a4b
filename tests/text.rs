use book_notes::order::text_less;
use book_notes::text::{capitalize, split_words};

#[test]
fn words_split_at_any_whitespace() {
    assert_eq!(
        split_words("  add\tSally \u{3000}to\n Sales  "),
        vec!["add", "Sally", "to", "Sales"]
    );
    assert!(split_words("").is_empty());
    assert!(split_words(" \t\r\n").is_empty());
}

#[test]
fn capitalize_first_letter_only() {
    assert_eq!(capitalize("sALLY"), "Sally");
    assert_eq!(capitalize("x"), "X");
    assert_eq!(capitalize(""), "");
    assert_eq!(capitalize("ßa"), "SSa");
}

#[test]
fn text_order_by_code_point() {
    assert!(text_less("Ray", "Sally"));
    assert!(!text_less("Sally", "Ray"));
    assert!(text_less("Sal", "Sally"));
    assert!(!text_less("Sally", "Sally"));
    assert!(text_less("", "a"));
    assert!(text_less("Zed", "ab"));
}
