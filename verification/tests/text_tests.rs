use window_list_overlay::text::{append_decimal, append_signed_decimal, chars_of, is_whitespace};

#[test]
fn whitespace_matches_std_for_every_char() {
    for u in 0..=0x10ffffu32 {
        if let Some(c) = char::from_u32(u) {
            assert_eq!(is_whitespace(c), c.is_whitespace(), "U+{:04X}", u);
        }
    }
}

#[test]
fn decimal_text() {
    let mut s = String::from("n=");
    append_decimal(&mut s, 0);
    append_decimal(&mut s, 4294967295);
    assert_eq!(s, "n=04294967295");
    let mut t = String::new();
    append_signed_decimal(&mut t, i32::MIN);
    append_signed_decimal(&mut t, 7);
    assert_eq!(t, "-21474836487");
}

#[test]
fn chars_of_text() {
    assert_eq!(chars_of("a\u{e9}\u{2026}"), vec!['a', '\u{e9}', '\u{2026}']);
    assert!(chars_of("").is_empty());
}
