use cloudflare_showcase::text::{
    char_is_numeric_like, char_is_whitespace, char_utf8_len, chars_start_with, decimal_digits,
    digit_of, find_char, format_decimal, from_chars, lower_code, same_text,
    same_text_ignoring_ascii_case, slice_chars, split_chars, text_is_numeric_only, to_chars,
    trim_bounds, trimmed_byte_len,
};

fn chars(text: &str) -> Vec<char> {
    text.chars().collect()
}

#[test]
fn white_space_agrees_with_the_standard_library() {
    for code in 0u32..0x3_0000 {
        if let Some(c) = char::from_u32(code) {
            assert_eq!(char_is_whitespace(c), c.is_whitespace(), "U+{:04X}", code);
        }
    }
}

#[test]
fn encoded_length_agrees_with_the_standard_library() {
    for c in ['\0', 'a', '\u{7f}', '\u{80}', 'é', '\u{7ff}', '\u{800}', '€', '\u{ffff}', '😀', '\u{10ffff}'] {
        assert_eq!(char_utf8_len(c), c.len_utf8());
    }
}

#[test]
fn numeric_like_characters() {
    for c in "0123456789 \t\n!\"#$%&'()*+,-./:;<=>?@[\\]^_`{|}~".chars() {
        assert!(char_is_numeric_like(c), "{:?}", c);
    }
    for c in "aZé٣".chars() {
        assert!(!char_is_numeric_like(c), "{:?}", c);
    }
}

#[test]
fn numeric_only_texts() {
    assert!(text_is_numeric_only("12:30"));
    assert!(text_is_numeric_only("1,000.50 - 7%"));
    assert!(text_is_numeric_only(""));
    assert!(text_is_numeric_only(" ... "));
    assert!(!text_is_numeric_only("12 o'clock"));
    assert!(!text_is_numeric_only("one"));
    assert!(!text_is_numeric_only("1e3"));
}

#[test]
fn characters_round_trip() {
    let text = "héllo 😀";
    let v = to_chars(text);
    assert_eq!(v, chars(text));
    assert_eq!(from_chars(&v, 0, v.len()), text);
    assert_eq!(from_chars(&v, 1, 3), "él");
    assert_eq!(from_chars(&v, 2, 2), "");
    assert_eq!(slice_chars(&v, 6, 7), vec!['😀']);
}

#[test]
fn trim_bounds_frame_the_text() {
    assert_eq!(trim_bounds(&chars("  ab c \n")), (2, 6));
    assert_eq!(trim_bounds(&chars("abc")), (0, 3));
    assert_eq!(trim_bounds(&chars("   ")), (3, 3));
    assert_eq!(trim_bounds(&chars("")), (0, 0));
}

#[test]
fn trimmed_length_counts_bytes() {
    assert_eq!(trimmed_byte_len("  hello "), 5);
    assert_eq!(trimmed_byte_len(" é "), 2);
    assert_eq!(trimmed_byte_len("😀"), 4);
    assert_eq!(trimmed_byte_len(" \t "), 0);
    assert_eq!(trimmed_byte_len(""), 0);
    for text in ["a b", " x€y ", "\u{a0}z"] {
        assert_eq!(trimmed_byte_len(text), text.trim().len() as u128);
    }
}

#[test]
fn texts_are_compared_by_their_characters() {
    assert!(same_text("abc", "abc"));
    assert!(same_text("", ""));
    assert!(!same_text("abc", "abd"));
    assert!(!same_text("abc", "ab"));
    assert!(!same_text("abc", "ABC"));
}

#[test]
fn case_of_ascii_letters_can_be_ignored() {
    assert!(same_text_ignoring_ascii_case("WebSocket", "websocket"));
    assert!(same_text_ignoring_ascii_case("", ""));
    assert!(!same_text_ignoring_ascii_case("É", "é"));
    assert!(!same_text_ignoring_ascii_case("a", "ab"));
    assert!(!same_text_ignoring_ascii_case("@", "`"));
    assert!(!same_text_ignoring_ascii_case("[", "{"));
    assert_eq!(lower_code('A'), 'a' as u32);
    assert_eq!(lower_code('Z'), 'z' as u32);
    assert_eq!(lower_code('a'), 'a' as u32);
    assert_eq!(lower_code('@'), '@' as u32);
    for (a, b) in [("Upgrade", "UPGRADE"), ("x1", "X1"), ("k", "K"), ("ß", "SS")] {
        assert_eq!(same_text_ignoring_ascii_case(a, b), a.eq_ignore_ascii_case(b));
    }
}

#[test]
fn decimal_numerals() {
    assert_eq!(format_decimal(0), "0");
    assert_eq!(format_decimal(9), "9");
    assert_eq!(format_decimal(10), "10");
    assert_eq!(format_decimal(1_234_567_890), "1234567890");
    assert_eq!(format_decimal(u64::MAX), "18446744073709551615");
    assert_eq!(decimal_digits(407), vec!['4', '0', '7']);
    assert_eq!(digit_of(0), '0');
    assert_eq!(digit_of(9), '9');
    for n in [1u64, 99, 100, 65_535, 1 << 40] {
        assert_eq!(format_decimal(n), n.to_string());
    }
}

#[test]
fn first_occurrence_is_found() {
    let v = chars("a=b=c");
    assert_eq!(find_char(&v, 0, '='), 1);
    assert_eq!(find_char(&v, 2, '='), 3);
    assert_eq!(find_char(&v, 4, '='), 5);
    assert_eq!(find_char(&v, 5, '='), 5);
    assert_eq!(find_char(&v, 0, 'z'), 5);
}

#[test]
fn text_is_cut_at_separators() {
    assert_eq!(split_chars(&chars("a&b&c"), '&'), vec![chars("a"), chars("b"), chars("c")]);
    assert_eq!(split_chars(&chars("&a&"), '&'), vec![chars(""), chars("a"), chars("")]);
    assert_eq!(split_chars(&chars(""), '&'), vec![chars("")]);
    assert_eq!(split_chars(&chars("abc"), '&'), vec![chars("abc")]);
    for text in ["x,y", ",", ",,", "no comma", ""] {
        let expected: Vec<Vec<char>> = text.split(',').map(chars).collect();
        assert_eq!(split_chars(&chars(text), ','), expected);
    }
}

#[test]
fn prefixes_are_recognised() {
    let v = chars("/user/x");
    assert!(chars_start_with(&v, 0, &chars("/user/")));
    assert!(chars_start_with(&v, 0, &chars("")));
    assert!(chars_start_with(&v, 5, &chars("/x")));
    assert!(!chars_start_with(&v, 1, &chars("/user/")));
    assert!(!chars_start_with(&v, 0, &chars("/user/xy")));
    assert!(chars_start_with(&v, 7, &chars("")));
}
