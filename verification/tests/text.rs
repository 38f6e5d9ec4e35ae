use ip_bypass_plus_frag::text::{
    chars_of, contains_char, copy_text, decimal_text, eq_ignore_ascii_case, find_char,
    is_whitespace, read_i32, read_u32, same_chars, same_text, split_at_first, text_of, trim,
};

#[test]
fn numbers_are_written_in_decimal() {
    for n in [0, 7, 10, 99, 100, 12345, u64::MAX] {
        assert_eq!(decimal_text(n), n.to_string());
    }
}

#[test]
fn numbers_read_back() {
    for n in [0u32, 1, 10, 4294967295] {
        assert_eq!(read_u32(&chars_of(&decimal_text(n as u64))), Some(n));
    }
    assert_eq!(read_u32(&chars_of("4294967296")), None);
    assert_eq!(read_i32(&chars_of("-2147483648")), Some(i32::MIN));
}

#[test]
fn white_space_is_that_of_unicode() {
    for c in (0u32..0x3100).filter_map(char::from_u32) {
        assert_eq!(is_whitespace(c), c.is_whitespace(), "{c:?}");
    }
    assert!(!is_whitespace('\u{feff}'));
}

#[test]
fn text_is_trimmed_on_both_sides() {
    for text in ["", "  ", " a b ", "\u{3000}x\t", "x"] {
        assert_eq!(text_of(trim(&chars_of(text))), text.trim());
    }
}

#[test]
fn text_is_split_at_the_first_separator() {
    let chars = chars_of("a-b-c");
    let (head, tail) = split_at_first(&chars, '-').unwrap();
    assert_eq!(text_of(head), "a");
    assert_eq!(text_of(tail), "b-c");
    assert!(split_at_first(&chars, '+').is_none());
    assert_eq!(find_char(&chars, 'b'), 2);
    assert_eq!(find_char(&chars, 'x'), 5);
    assert!(contains_char(&chars, 'c'));
}

#[test]
fn texts_are_compared() {
    assert!(same_text("ab", "ab"));
    assert!(!same_text("ab", "aB"));
    assert!(same_chars(&chars_of("é"), &chars_of("é")));
    assert!(eq_ignore_ascii_case(&chars_of("TLSHello"), &chars_of("tlshello")));
    assert!(!eq_ignore_ascii_case(&chars_of("É"), &chars_of("é")));
    assert_eq!(copy_text("x"), "x");
}
