use loghew::log::parser::{LevelClassifier, LogLevel, TimestampFormat};
use loghew::semantic::{
    covers, digit_byte, fill, kind_of_quote, scan, skip_digits, skip_number, sort_by_start,
    split_bracket, stamp_extent, tokenize_semantic, tokens_with, word_byte, Token, TokenKind,
};

fn tok(start: usize, end: usize, kind: TokenKind) -> Token {
    Token { start, end, kind }
}

fn text(start: usize, end: usize) -> Token {
    tok(start, end, TokenKind::Text)
}

fn tokens_of(line: &str) -> Vec<Token> {
    let format = TimestampFormat::detect(&[line]);
    tokenize_semantic(line, format.as_ref(), &LevelClassifier::new())
}

fn assert_parts(line: &str, tokens: &[Token]) {
    assert!(!tokens.is_empty());
    assert_eq!(tokens[0].start, 0);
    assert_eq!(tokens[tokens.len() - 1].end, line.len());
    let mut whole = String::new();
    for (k, t) in tokens.iter().enumerate() {
        assert!(t.start <= t.end);
        if k > 0 {
            assert_eq!(tokens[k - 1].end, t.start);
        }
        whole.push_str(line.get(t.start..t.end).expect("between two characters"));
    }
    assert_eq!(whole, line);
}

#[test]
fn a_line_is_parted_by_what_its_parts_mean() {
    let line = "2024-01-15 14:32:01.123Z ERROR [main] \"key\": 42 took 1.5s x9 'a:b' done";
    let tokens = tokens_of(line);
    assert_eq!(
        tokens,
        vec![
            tok(0, 24, TokenKind::Timestamp),
            text(24, 25),
            tok(25, 30, TokenKind::Level(LogLevel::Error)),
            text(30, 31),
            tok(31, 37, TokenKind::Bracket),
            text(37, 38),
            tok(38, 43, TokenKind::Key),
            text(43, 45),
            tok(45, 47, TokenKind::Number),
            text(47, 61),
            tok(61, 66, TokenKind::Key),
            text(66, 71),
        ]
    );
    assert_parts(line, &tokens);
}

#[test]
fn a_line_without_a_format_has_no_timestamp_token() {
    let line = "2024-01-15 14:32:01 warn: 3 left";
    let tokens = tokenize_semantic(line, None, &LevelClassifier::new());
    assert_eq!(
        tokens,
        vec![
            tok(0, 4, TokenKind::Number),
            text(4, 5),
            tok(5, 7, TokenKind::Number),
            text(7, 8),
            tok(8, 10, TokenKind::Number),
            text(10, 11),
            tok(11, 13, TokenKind::Number),
            text(13, 14),
            tok(14, 16, TokenKind::Number),
            text(16, 17),
            tok(17, 19, TokenKind::Number),
            text(19, 20),
            tok(20, 24, TokenKind::Level(LogLevel::Warn)),
            text(24, 26),
            tok(26, 27, TokenKind::Number),
            text(27, 32),
        ]
    );
}

#[test]
fn empty_and_plain_lines_are_one_part_of_text() {
    assert_eq!(tokens_of(""), vec![text(0, 0)]);
    assert_eq!(tokens_with("", None, None), vec![text(0, 0)]);
    assert_eq!(tokens_of("plain words"), vec![text(0, 11)]);
    assert_eq!(tokens_of("[never closed"), vec![text(0, 13)]);
    assert_eq!(tokens_of("\"never closed"), vec![text(0, 13)]);
    assert_eq!(tokens_of("it's"), vec![text(0, 4)]);
}

#[test]
fn brackets_are_split_around_the_level_keyword() {
    let line = "[ERROR] x";
    let expected = vec![
        tok(0, 1, TokenKind::Bracket),
        tok(1, 6, TokenKind::Level(LogLevel::Error)),
        tok(6, 7, TokenKind::Bracket),
        text(7, 9),
    ];
    assert_eq!(tokens_with(line, None, Some((1, 6))), expected);
    assert_eq!(tokens_of(line), expected);
    let mut found = vec![tok(0, 0, TokenKind::Text)];
    split_bracket("[a INFO b]", &vec![(3, 7)], 0, 10, &mut found);
    assert_eq!(
        found,
        vec![text(0, 0), tok(0, 3, TokenKind::Bracket), tok(7, 10, TokenKind::Bracket)]
    );
    let mut found = Vec::new();
    split_bracket("[abc] INFO", &vec![(6, 10)], 0, 5, &mut found);
    assert_eq!(found, vec![tok(0, 5, TokenKind::Bracket)]);
    let mut found = Vec::new();
    split_bracket("x [INFO]", &vec![(3, 7), (0, 1)], 2, 8, &mut found);
    assert_eq!(found, vec![tok(2, 3, TokenKind::Bracket), tok(7, 8, TokenKind::Bracket)]);
}

#[test]
fn a_token_within_another_is_left_out() {
    let line = "\"an error here\" 7";
    assert_eq!(
        tokens_with(line, None, Some((4, 9))),
        vec![tok(0, 15, TokenKind::Quoted), text(15, 16), tok(16, 17, TokenKind::Number)]
    );
    assert_eq!(
        tokens_with("12024-01-15T14:32:01 x", Some((1, 20)), None),
        vec![tok(0, 5, TokenKind::Number), text(5, 22)]
    );
}

#[test]
fn the_level_token_carries_the_level_of_its_word() {
    assert_eq!(
        tokens_with("a fatal b", None, Some((2, 7))),
        vec![text(0, 2), tok(2, 7, TokenKind::Level(LogLevel::Error)), text(7, 9)]
    );
    assert_eq!(
        tokens_with("a fatal b", None, Some((2, 6))),
        vec![text(0, 2), tok(2, 6, TokenKind::Level(LogLevel::Unknown)), text(6, 9)]
    );
    for (line, level) in [
        ("CRITICAL", LogLevel::Error),
        ("warning", LogLevel::Warn),
        ("Info", LogLevel::Info),
        ("debug", LogLevel::Debug),
        ("TRACE", LogLevel::Trace),
    ] {
        assert_eq!(tokens_of(line), vec![tok(0, line.len(), TokenKind::Level(level))]);
    }
    assert_eq!(tokens_of("INFORMATION"), vec![text(0, 11)]);
}

#[test]
fn the_timestamp_takes_its_fraction_and_its_zone() {
    assert_eq!(
        tokens_of("2024-01-15T14:32:01+02:00 x"),
        vec![tok(0, 25, TokenKind::Timestamp), text(25, 27)]
    );
    assert_eq!(
        tokens_of("2024-01-15T14:32:01,250-0130 x"),
        vec![tok(0, 29, TokenKind::Timestamp), text(29, 30)]
    );
    assert_eq!(tokens_of("2024-01-15T14:32:01Z"), vec![tok(0, 20, TokenKind::Timestamp)]);
    assert_eq!(
        tokens_of("2024-01-15T14:32:01. x"),
        vec![tok(0, 19, TokenKind::Timestamp), text(19, 22)]
    );
    assert_eq!(
        tokens_of("2024-01-15T14:32:01+02:0"),
        vec![
            tok(0, 19, TokenKind::Timestamp),
            text(19, 20),
            tok(20, 22, TokenKind::Number),
            text(22, 23),
            tok(23, 24, TokenKind::Number),
        ]
    );
    assert_eq!(
        tokens_of("at 2024-01-15T14:32:01.5"),
        vec![text(0, 3), tok(3, 24, TokenKind::Timestamp)]
    );
    let line = "2024-01-15T14:32:01+1a\u{e9}\u{e9}";
    let tokens = tokens_of(line);
    assert_eq!(tokens, vec![tok(0, 19, TokenKind::Timestamp), text(19, 26)]);
    assert_parts(line, &tokens);
    let line = "2024-01-15T14:32:01+1\u{e9}\u{e9}a";
    let tokens = tokens_of(line);
    assert_eq!(tokens, vec![tok(0, 25, TokenKind::Timestamp), text(25, 26)]);
    assert_parts(line, &tokens);
    assert_eq!(stamp_extent("12:00:00.123456Z rest", 8), 16);
    assert_eq!(stamp_extent("12:00:00,5 rest", 8), 10);
    assert_eq!(stamp_extent("12:00:00 rest", 8), 8);
    assert_eq!(stamp_extent("12:00:00", 8), 8);
    assert_eq!(stamp_extent("12:00:00-a5:00 ", 8), 8);
    assert_eq!(stamp_extent("12:00:00-5a:bc ", 8), 14);
}

#[test]
fn numbers_stand_as_words_of_their_own() {
    assert_eq!(
        tokens_of("took 15 ms, 2.75 s, v2, 3x, 1.2.3, 4. 5_6 7"),
        vec![
            text(0, 5),
            tok(5, 7, TokenKind::Number),
            text(7, 12),
            tok(12, 16, TokenKind::Number),
            text(16, 28),
            tok(28, 31, TokenKind::Number),
            text(31, 32),
            tok(32, 33, TokenKind::Number),
            text(33, 35),
            tok(35, 36, TokenKind::Number),
            text(36, 42),
            tok(42, 43, TokenKind::Number),
        ]
    );
    let line = "5\u{e9} 6";
    let tokens = tokens_of(line);
    assert_eq!(
        tokens,
        vec![tok(0, 1, TokenKind::Number), text(1, 4), tok(4, 5, TokenKind::Number)]
    );
    assert_parts(line, &tokens);
    assert_eq!(skip_digits(b"123a", 0), 3);
    assert_eq!(skip_digits(b"123a", 3), 3);
    assert_eq!(skip_digits(b"123", 1), 3);
    assert_eq!(skip_digits(b"123", 3), 3);
    assert_eq!(skip_number(b"12.5.7", 0), 4);
    assert_eq!(skip_number(b"12.", 0), 2);
    assert_eq!(skip_number(b"12.x", 0), 2);
    assert_eq!(skip_number(b"7", 0), 1);
    assert!(digit_byte(b'0') && digit_byte(b'9') && !digit_byte(b'/') && !digit_byte(b':'));
    for b in [b'a', b'z', b'A', b'Z', b'0', b'9', b'_'] {
        assert!(word_byte(b));
    }
    for b in [b'@', b'[', b'`', b'{', b' ', b'-', 0xc3] {
        assert!(!word_byte(b));
    }
}

#[test]
fn quoted_parts_are_keys_or_texts() {
    assert_eq!(
        tokens_of("\"name\":\"value\" 'x y' \"a: b\""),
        vec![
            tok(0, 6, TokenKind::Key),
            text(6, 7),
            tok(7, 14, TokenKind::Quoted),
            text(14, 15),
            tok(15, 20, TokenKind::Quoted),
            text(20, 21),
            tok(21, 27, TokenKind::Key),
        ]
    );
    let long = format!("\"{}:{}\"", "a".repeat(19), "b".repeat(18));
    assert_eq!(long.len(), 40);
    assert_eq!(tokens_of(&long), vec![tok(0, 40, TokenKind::Quoted)]);
    let shorter = format!("\"{}:{}\"", "a".repeat(19), "b".repeat(17));
    assert_eq!(tokens_of(&shorter), vec![tok(0, 39, TokenKind::Key)]);
    assert_eq!(kind_of_quote(b"'a' :", 0, 3), TokenKind::Quoted);
    assert_eq!(kind_of_quote(b"'a':", 0, 3), TokenKind::Key);
    assert_eq!(kind_of_quote(b": 'a'", 2, 5), TokenKind::Quoted);
    assert_eq!(
        tokens_of("say \"it's\" 'a \"b' c\""),
        vec![text(0, 4), tok(4, 10, TokenKind::Quoted), text(10, 11), tok(11, 17, TokenKind::Quoted), text(17, 20)]
    );
}

#[test]
fn scanning_skips_what_is_taken() {
    assert!(covers(&vec![(2, 4), (8, 9)], 2));
    assert!(covers(&vec![(2, 4), (8, 9)], 3));
    assert!(covers(&vec![(2, 4), (8, 9)], 8));
    assert!(!covers(&vec![(2, 4), (8, 9)], 4));
    assert!(!covers(&vec![(2, 4), (8, 9)], 1));
    assert!(!covers(&vec![(4, 4)], 4));
    assert!(!covers(&Vec::new(), 0));
    assert_eq!(
        scan("12 [a] 34", &vec![(0, 2)]),
        vec![tok(3, 6, TokenKind::Bracket), tok(7, 9, TokenKind::Number)]
    );
    assert_eq!(
        scan("12 [a] 34", &Vec::new()),
        vec![tok(0, 2, TokenKind::Number), tok(3, 6, TokenKind::Bracket), tok(7, 9, TokenKind::Number)]
    );
    assert_eq!(scan("[a [b] c]", &Vec::new()), vec![tok(0, 6, TokenKind::Bracket)]);
    assert_eq!(scan("[1] 2", &vec![(0, 3)]), vec![tok(4, 5, TokenKind::Number)]);
}

#[test]
fn tokens_are_ordered_by_their_starts() {
    let given = vec![
        tok(5, 6, TokenKind::Number),
        tok(2, 9, TokenKind::Bracket),
        tok(5, 7, TokenKind::Key),
        tok(0, 1, TokenKind::Quoted),
        tok(2, 3, TokenKind::Timestamp),
        tok(5, 5, TokenKind::Text),
    ];
    assert_eq!(
        sort_by_start(&given),
        vec![
            tok(0, 1, TokenKind::Quoted),
            tok(2, 9, TokenKind::Bracket),
            tok(2, 3, TokenKind::Timestamp),
            tok(5, 6, TokenKind::Number),
            tok(5, 7, TokenKind::Key),
            tok(5, 5, TokenKind::Text),
        ]
    );
    assert_eq!(sort_by_start(&Vec::new()), Vec::new());
    let mut expected = given.clone();
    expected.sort_by_key(|t| t.start);
    assert_eq!(sort_by_start(&given), expected);
}

#[test]
fn gaps_between_tokens_are_filled_with_text() {
    let line = "0123456789";
    assert_eq!(fill(line, &Vec::new()), vec![text(0, 10)]);
    assert_eq!(fill("", &Vec::new()), vec![text(0, 0)]);
    assert_eq!(
        fill(line, &vec![tok(2, 4, TokenKind::Number), tok(4, 6, TokenKind::Key)]),
        vec![text(0, 2), tok(2, 4, TokenKind::Number), tok(4, 6, TokenKind::Key), text(6, 10)]
    );
    assert_eq!(
        fill(line, &vec![tok(0, 5, TokenKind::Quoted), tok(3, 8, TokenKind::Number), tok(5, 10, TokenKind::Key)]),
        vec![tok(0, 5, TokenKind::Quoted), tok(5, 10, TokenKind::Key)]
    );
    assert_eq!(
        fill(line, &vec![tok(0, 10, TokenKind::Bracket)]),
        vec![tok(0, 10, TokenKind::Bracket)]
    );
}

#[test]
fn parts_follow_one_another_through_the_line() {
    for line in [
        "2024-01-15 14:32:01 ERROR [worker-1] failed: \"x\": 12 'y'",
        "Jan  5 03:04:05 host app[123]: warn disk 95.5% full",
        "127.0.0.1 - - [10/Oct/2023:13:55:36 +0000] \"GET / HTTP/1.1\" 200 2326",
        "1705329121.123456 \u{65e5}\u{672c}\u{8a9e} [\u{e9}] 'caf\u{e9}': 3",
        "[[]] '' \"\" 0.0.0.0 ]]][[[ \"'\" 1e5 -7 +8",
        "  \t  ",
        "\u{1f600}1\u{1f600}[\u{1f600}]\u{1f600}'\u{1f600}'",
    ] {
        assert_parts(line, &tokens_of(line));
        assert_parts(line, &tokenize_semantic(line, None, &LevelClassifier::new()));
    }
}
