use companion::text::{chars_of, is_whitespace_char};

#[test]
fn white_space_is_that_of_the_standard_library() {
    for code in 0..=0x10FFFFu32 {
        if let Some(c) = char::from_u32(code) {
            assert_eq!(is_whitespace_char(c), c.is_whitespace(), "U+{:04X}", code);
        }
    }
}

#[test]
fn white_space_examples() {
    for c in [' ', '\t', '\n', '\r', '\u{b}', '\u{c}', '\u{85}', '\u{a0}', '\u{2003}', '\u{3000}'] {
        assert!(is_whitespace_char(c), "{:?}", c);
    }
    for c in ['-', '[', 'x', ']', 'a', '0', '\u{0}', '\u{8}', '\u{e}', '\u{200b}', '\u{feff}', '越'] {
        assert!(!is_whitespace_char(c), "{:?}", c);
    }
}

#[test]
fn characters_of_a_text() {
    assert_eq!(chars_of(""), Vec::<char>::new());
    assert_eq!(chars_of("- [x] 🐉ü\n"), vec!['-', ' ', '[', 'x', ']', ' ', '🐉', 'ü', '\n']);
}
