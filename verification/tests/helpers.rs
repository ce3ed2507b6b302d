use loghew::chars::{char_to_byte, fuzzy_match, sanitize_line, utf8_width};
use loghew::numbers::parse_decimal;
use loghew::palette::rgb_to_index;

#[test]
fn decimal_numbers_are_read_like_usize() {
    for text in [
        "0", "7", "42", "+42", "007", "18446744073709551615", "18446744073709551616", "", "+",
        "-1", "++1", "4 2", " 42", "42 ", "4x", "x4", "\u{661}", "99999999999999999999999",
        "+0", "1_000",
    ] {
        assert_eq!(parse_decimal(text), text.parse::<usize>().ok(), "{:?}", text);
    }
    assert_eq!(parse_decimal("42"), Some(42));
    assert_eq!(parse_decimal("+42"), Some(42));
    assert_eq!(parse_decimal("18446744073709551615"), Some(usize::MAX));
    assert_eq!(parse_decimal("18446744073709551616"), None);
}

#[test]
fn letters_are_matched_in_order() {
    assert!(fuzzy_match("bookmarks", "bks"));
    assert!(fuzzy_match("bookmarks", "bookmarks"));
    assert!(fuzzy_match("bookmarks", ""));
    assert!(fuzzy_match("", ""));
    assert!(fuzzy_match("notifications", "ntf"));
    assert!(!fuzzy_match("bookmarks", "skb"));
    assert!(!fuzzy_match("bookmarks", "bookmarksx"));
    assert!(!fuzzy_match("", "a"));
    assert!(!fuzzy_match("follow", "ff"));
    assert!(fuzzy_match("filter", "fit"));
    assert!(fuzzy_match("\u{e9}t\u{e9}", "\u{e9}\u{e9}"));
    // Characters are matched, not bytes.
    assert!(!fuzzy_match("\u{c3}\u{a9}", "\u{e9}"));
}

#[test]
fn characters_have_their_place_in_the_bytes() {
    let text = "a\u{e9}\u{4e16}\u{1f600}z";
    assert_eq!(char_to_byte(text, 0), 0);
    assert_eq!(char_to_byte(text, 1), 1);
    assert_eq!(char_to_byte(text, 2), 3);
    assert_eq!(char_to_byte(text, 3), 6);
    assert_eq!(char_to_byte(text, 4), 10);
    assert_eq!(char_to_byte(text, 5), 11);
    assert_eq!(char_to_byte(text, 6), 11);
    assert_eq!(char_to_byte(text, usize::MAX), 11);
    assert_eq!(char_to_byte("", 0), 0);
    assert_eq!(char_to_byte("", 3), 0);
    for c in ['a', '\u{7f}', '\u{80}', '\u{7ff}', '\u{800}', '\u{ffff}', '\u{10000}', '\u{10ffff}'] {
        assert_eq!(utf8_width(c), c.len_utf8());
    }
}

#[test]
fn lines_without_control_characters_are_left_alone() {
    assert_eq!(sanitize_line("plain text"), None);
    assert_eq!(sanitize_line(""), None);
    assert_eq!(sanitize_line("h\u{e9}llo [INFO] x"), None);
    // Without a control character of ASCII the line is not looked into.
    assert_eq!(sanitize_line("a\u{85}b"), None);
}

#[test]
fn control_sequences_and_characters_are_taken_out() {
    let clean = |text: &str| sanitize_line(text).unwrap();
    assert_eq!(clean("\x1b[31mred\x1b[0m"), "red");
    assert_eq!(clean("a\tb"), "a    b");
    assert_eq!(clean("a\x07b\x7fc\rd"), "abcd");
    assert_eq!(clean("\x1b[1;32mbold green\x1b[0m and \x1b[Kmore"), "bold green and more");
    // An escape character without a bracket is dropped alone.
    assert_eq!(clean("a\x1bb"), "ab");
    assert_eq!(clean("a\x1b"), "a");
    // A sequence that does not end takes the rest of the line.
    assert_eq!(clean("a\x1b[12;34"), "a");
    assert_eq!(clean("a\x1b["), "a");
    assert_eq!(clean("\x1b[m"), "");
    // With a control character of ASCII in the line, the others go too.
    assert_eq!(clean("a\u{85}b\tc"), "ab    c");
    assert_eq!(clean("\t\u{e9}\u{4e16}"), "    \u{e9}\u{4e16}");
    assert_eq!(clean("x\x1b[\u{e9}9A y"), "x y");
}

#[test]
fn palette_colour_for_a_colour() {
    assert_eq!(rgb_to_index(0, 0, 0), 16);
    assert_eq!(rgb_to_index(255, 255, 255), 231);
    assert_eq!(rgb_to_index(255, 0, 0), 196);
    assert_eq!(rgb_to_index(0, 255, 0), 46);
    assert_eq!(rgb_to_index(0, 0, 255), 21);
    assert_eq!(rgb_to_index(95, 135, 175), 16 + 36 + 12 + 3);
    // Greys that the ramp holds are taken from the ramp.
    assert_eq!(rgb_to_index(8, 8, 8), 232);
    assert_eq!(rgb_to_index(128, 128, 128), 244);
    assert_eq!(rgb_to_index(238, 238, 238), 255);
    assert_eq!(rgb_to_index(5, 5, 5), 232);
    assert_eq!(rgb_to_index(3, 3, 3), 16);
    // The colours of a theme.
    assert_eq!(rgb_to_index(255, 85, 85), 203);
    assert_eq!(rgb_to_index(98, 114, 164), 61);
    assert_eq!(rgb_to_index(76, 86, 106), 240);
}
