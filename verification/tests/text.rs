use harper_api::span::Span;
use harper_api::text::{
    ascii_lowercase, chars_eq, chars_eq_ignore_ascii_case, chars_of, decimal_of, is_whitespace,
    parse_number, string_of, to_ascii_lower, to_ascii_upper, trim, trim_bounds,
};

fn chars(text: &str) -> Vec<char> {
    text.chars().collect()
}

#[test]
fn whitespace_is_what_the_standard_library_calls_whitespace() {
    for code in 0u32..0x3100 {
        if let Some(c) = char::from_u32(code) {
            assert_eq!(is_whitespace(c), c.is_whitespace(), "U+{:04X}", code);
        }
    }
}

#[test]
fn ascii_case_is_what_the_standard_library_gives() {
    for code in 0u32..0x250 {
        if let Some(c) = char::from_u32(code) {
            assert_eq!(to_ascii_lower(c), c.to_ascii_lowercase());
            assert_eq!(to_ascii_upper(c), c.to_ascii_uppercase());
        }
    }
    assert_eq!(ascii_lowercase(&chars("You're \u{c9}")), chars("you're \u{c9}"));
}

#[test]
fn trimming_keeps_the_inside() {
    assert_eq!(trim(&chars("  a b \t\n")), &chars("a b")[..]);
    assert_eq!(trim_bounds(&chars("  a b \t\n")), (2, 5));
    assert_eq!(trim(&chars("\u{a0}x\u{3000}")), &chars("x")[..]);
    assert_eq!(trim(&chars("   ")), &chars("")[..]);
    assert_eq!(trim(&chars("")), &chars("")[..]);
    assert_eq!(trim(&chars("x")), &chars("x")[..]);
}

#[test]
fn numbers_are_written_in_decimal() {
    assert_eq!(decimal_of(0), chars("0"));
    assert_eq!(decimal_of(7), chars("7"));
    assert_eq!(decimal_of(10), chars("10"));
    assert_eq!(decimal_of(4096), chars("4096"));
    assert_eq!(decimal_of(usize::MAX), chars(&usize::MAX.to_string()));
}

#[test]
fn numbers_are_read_like_the_standard_library_reads_them() {
    for text in [
        "0", "7", "007", "+7", "42", "", "+", "-1", "1 ", " 1", "1a", "++1", "18446744073709551615",
        "18446744073709551616", "99999999999999999999999", "+0", "1+",
    ] {
        assert_eq!(parse_number(&chars(text)), text.parse::<usize>().ok(), "{:?}", text);
    }
}

#[test]
fn written_numbers_read_back() {
    for n in [0usize, 1, 9, 10, 11, 99, 100, 12345, usize::MAX - 1, usize::MAX] {
        assert_eq!(parse_number(&decimal_of(n)), Some(n));
    }
}

#[test]
fn strings_and_characters_convert_both_ways() {
    assert_eq!(chars_of("d\u{e9}j\u{e0} vu"), chars("d\u{e9}j\u{e0} vu"));
    assert_eq!(string_of(&chars("d\u{e9}j\u{e0} vu")), "d\u{e9}j\u{e0} vu");
    assert_eq!(string_of(&[]), "");
}

#[test]
fn comparison_with_and_without_case() {
    assert!(chars_eq(&chars("that"), &chars("that")));
    assert!(!chars_eq(&chars("that"), &chars("That")));
    assert!(!chars_eq(&chars("that"), &chars("tha")));
    assert!(chars_eq_ignore_ascii_case(&chars("tHaT"), &chars("That")));
    assert!(!chars_eq_ignore_ascii_case(&chars("that"), &chars("than")));
    assert!(!chars_eq_ignore_ascii_case(&chars("\u{c9}"), &chars("\u{e9}")));
}

#[test]
fn spans_measure_and_overlap() {
    let a = Span::new(2, 5);
    assert_eq!(a.len(), 3);
    assert!(!a.is_empty());
    assert!(Span::new(4, 4).is_empty());
    assert!(a.contains(2) && a.contains(4) && !a.contains(5));
    assert!(a.overlaps_with(Span::new(4, 9)));
    assert!(a.overlaps_with(Span::new(0, 3)));
    assert!(!a.overlaps_with(Span::new(5, 9)));
    assert!(!a.overlaps_with(Span::new(0, 2)));
    assert_eq!(Span::new_with_len(3, 4), Span { start: 3, end: 7 });
    assert_eq!(a.get_content(&chars("0123456")), &chars("234")[..]);
    assert_eq!(a.try_get_content(&chars("0123")), None);
    assert_eq!(a.pulled_by(2), Some(Span { start: 0, end: 3 }));
    assert_eq!(a.pulled_by(3), None);
}
