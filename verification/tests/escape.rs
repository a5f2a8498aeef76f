use uair::escape::unescape;

#[test]
fn unescape_test() {
    assert_eq!(unescape(r"\u0000"), "\0");
    assert_eq!(unescape(r"\u0009"), "\t");
    assert_eq!(unescape(r"\u000a"), "\n");
    assert_eq!(unescape(r"\uffff"), "\u{ffff}");
    assert_eq!(unescape(r"\u0000Foo"), "\0Foo");

    assert_eq!(unescape(r"\nFoo"), "\nFoo");
    assert_eq!(unescape(r"Foo\"), "Foo\\");
}

#[test]
fn unescape_one_letter_escapes() {
    assert_eq!(unescape(r"\b\f\n\r\t"), "\u{8}\u{c}\n\r\t");
    assert_eq!(unescape(r#"\"quoted\""#), "\"quoted\"");
    assert_eq!(unescape(r"a\\b"), "a\\b");
    assert_eq!(unescape(r"\x"), "\\x");
    assert_eq!(unescape(r"\é"), "\\é");
    assert_eq!(unescape(""), "");
    assert_eq!(unescape("plain ⏸ text"), "plain ⏸ text");
}

#[test]
fn unescape_numbered_escapes() {
    assert_eq!(unescape(r"\u00e9t\u00E9"), "\u{e9}t\u{e9}");
    assert_eq!(unescape(r"\U0001F600!"), "\u{1F600}!");
    assert_eq!(unescape(r"\u+041"), "A");
    // No character has a surrogate's code, nor one beyond the last plane.
    assert_eq!(unescape(r"\ud800x"), "\\ud800x");
    assert_eq!(unescape(r"\U00110000"), "\\U00110000");
    // Digits that are none.
    assert_eq!(unescape(r"\u12g4rest"), "\\u12g4rest");
    assert_eq!(unescape(r"\u-123"), "\\u-123");
    // Too few characters behind the letter.
    assert_eq!(unescape(r"ab\u12"), "ab\\u12");
    assert_eq!(unescape(r"\U0001F60"), "\\U0001F60");
    assert_eq!(unescape(r"\u"), "\\u");
}
