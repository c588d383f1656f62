use herdr::text::{char_is_white_space, chars_of, spoken_lines};

#[test]
fn white_space_is_what_the_standard_library_takes_for_it() {
    for c in '\0'..=char::MAX {
        assert_eq!(char_is_white_space(c), c.is_whitespace(), "{:?}", c);
    }
}

#[test]
fn lines_are_what_the_standard_library_takes_for_them() {
    for text in [
        "", "\n", "\r\n", "\r", "a", "a\n", "a\r\n", "a\r", "a\n\nb", "a\r\nb\rc\n\r\n d \n",
        "\n\n a \u{a0}\n\u{3000}\u{2003}\n\tb\r", "ä\nö\r\nü",
    ] {
        let expected: Vec<&str> =
            text.lines().filter(|line| !line.trim().is_empty()).collect();
        assert_eq!(spoken_lines(text), expected, "{:?}", text);
    }
}

#[test]
fn characters_are_read_in_order() {
    assert_eq!(chars_of("aä€"), vec!['a', 'ä', '€']);
    assert!(chars_of("").is_empty());
}
