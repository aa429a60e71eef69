use parsley6::input::Slice;
use parsley6::token::text::Ascii;

#[test]
fn bytes_are_classified_as_the_standard_library_does() {
    for byte in 0..=255u8 {
        assert_eq!(Ascii::is_ascii_alphabetic(&byte), byte.is_ascii_alphabetic());
        assert_eq!(Ascii::is_ascii_alphanumeric(&byte), byte.is_ascii_alphanumeric());
        assert_eq!(Ascii::is_ascii_digit(&byte), byte.is_ascii_digit());
        assert_eq!(Ascii::is_ascii_hexdigit(&byte), byte.is_ascii_hexdigit());
        assert_eq!(Ascii::is_ascii_space(&byte), byte.is_ascii_whitespace());
    }
}

#[test]
fn characters_are_classified_as_the_standard_library_does() {
    for code in 0..0x300u32 {
        let c = char::from_u32(code).unwrap();
        assert_eq!(Ascii::is_ascii_alphabetic(&c), c.is_ascii_alphabetic());
        assert_eq!(Ascii::is_ascii_alphanumeric(&c), c.is_ascii_alphanumeric());
        assert_eq!(Ascii::is_ascii_digit(&c), c.is_ascii_digit());
        assert_eq!(Ascii::is_ascii_hexdigit(&c), c.is_ascii_hexdigit());
        assert_eq!(Ascii::is_ascii_space(&c), c.is_ascii_whitespace());
    }
}

#[test]
fn the_classes_by_example() {
    assert!(Ascii::is_ascii_alphabetic(&'g'));
    assert!(!Ascii::is_ascii_alphabetic(&'7'));
    assert!(Ascii::is_ascii_alphanumeric(&'7'));
    assert!(!Ascii::is_ascii_alphanumeric(&'_'));
    assert!(Ascii::is_ascii_digit(&b'0'));
    assert!(!Ascii::is_ascii_digit(&b'a'));
    assert!(Ascii::is_ascii_hexdigit(&'F'));
    assert!(!Ascii::is_ascii_hexdigit(&'g'));
    assert!(Ascii::is_ascii_space(&' '));
    assert!(Ascii::is_ascii_space(&b'\n'));
    assert!(!Ascii::is_ascii_space(&'\u{b}'));
    assert!(!Ascii::is_ascii_space(&'1'));
}

#[test]
fn a_str_is_cut_at_character_boundaries() {
    let text = "a\u{e9}b";
    assert_eq!(text.slice_prefix(0), Some(""));
    assert_eq!(text.slice_prefix(1), Some("a"));
    assert_eq!(text.slice_prefix(2), None);
    assert_eq!(text.slice_prefix(3), Some("a\u{e9}"));
    assert_eq!(text.slice_prefix(4), Some("a\u{e9}b"));
    assert_eq!(text.slice_prefix(5), None);
}

#[test]
fn a_slice_is_cut_within_its_length() {
    let items = [1, 2, 3];
    assert_eq!(items[..].slice_prefix(0), Some(&items[..0]));
    assert_eq!(items[..].slice_prefix(2), Some(&items[..2]));
    assert_eq!(items[..].slice_prefix(3), Some(&items[..]));
    assert_eq!(items[..].slice_prefix(4), None);
}
