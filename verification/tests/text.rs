use language_greenhouse::calc::text::{
    characters, digit, literal_span, literal_value, name_part, name_span, name_start, skip_digits,
    skip_name, skip_spaces, space, text_of,
};

#[test]
fn space_is_unicode_white_space() {
    let mut spaces = 0;
    for n in 0..=0x10FFFFu32 {
        if let Some(c) = char::from_u32(n) {
            assert_eq!(space(c), c.is_whitespace(), "U+{:04X}", n);
            if space(c) {
                spaces += 1;
            }
        }
    }
    assert_eq!(spaces, 25);
}

#[test]
fn digits_and_name_characters_are_ascii() {
    for n in 0..=0x10FFFFu32 {
        if let Some(c) = char::from_u32(n) {
            assert_eq!(digit(c), c.is_ascii_digit(), "U+{:04X}", n);
            assert_eq!(name_start(c), c.is_ascii_alphabetic() || c == '_', "U+{:04X}", n);
            assert_eq!(name_part(c), c.is_ascii_alphanumeric() || c == '_', "U+{:04X}", n);
        }
    }
}

#[test]
fn characters_are_those_of_the_text() {
    assert_eq!(characters(""), Vec::<char>::new());
    assert_eq!(characters("a\u{e9}\u{3000}z"), vec!['a', '\u{e9}', '\u{3000}', 'z']);
}

#[test]
fn text_of_is_the_slice() {
    let src = characters("let abc = 1");
    assert_eq!(text_of(&src, 4, 7), "abc".to_string());
    assert_eq!(text_of(&src, 4, 4), String::new());
    assert_eq!(text_of(&src, 0, 11), "let abc = 1".to_string());
}

#[test]
fn skipping_stops_at_the_first_other_character() {
    let src = characters("  \t12ab_9 x");
    assert_eq!(skip_spaces(&src, 0), 3);
    assert_eq!(skip_spaces(&src, 3), 3);
    assert_eq!(skip_digits(&src, 3), 5);
    assert_eq!(skip_name(&src, 5), 9);
    assert_eq!(skip_name(&src, 3), 9);
    assert_eq!(skip_spaces(&src, 9), 10);
    assert_eq!(skip_spaces(&src, 11), 11);
    assert_eq!(skip_digits(&src, 11), 11);
}

#[test]
fn spans_of_names_and_literals() {
    let src = characters("x1 007 120 _");
    assert_eq!(name_span(&src, 0), Some(2));
    assert_eq!(name_span(&src, 1), None);
    assert_eq!(name_span(&src, 11), Some(12));
    assert_eq!(name_span(&src, 12), None);
    assert_eq!(literal_span(&src, 0), None);
    assert_eq!(literal_span(&src, 1), Some(2));
    assert_eq!(literal_span(&src, 3), Some(4));
    assert_eq!(literal_span(&src, 5), Some(6));
    assert_eq!(literal_span(&src, 7), Some(10));
    assert_eq!(literal_span(&src, 12), None);
}

#[test]
fn literal_value_is_the_decimal_number() {
    let src = characters("120 9223372036854775807 9223372036854775808 18446744073709551616");
    assert_eq!(literal_value(&src, 0, 3), Some(120));
    assert_eq!(literal_value(&src, 0, 0), Some(0));
    assert_eq!(literal_value(&src, 1, 3), Some(20));
    assert_eq!(literal_value(&src, 4, 23), Some(i64::MAX));
    assert_eq!(literal_value(&src, 24, 43), None);
    assert_eq!(literal_value(&src, 44, 64), None);
}
