use loghew::text::{find_in_range, get_line_from_data, line_probe, strip_end, substring};

#[test]
fn find_in_range_finds_the_first_needle() {
    let data = b"ab\ncd\nef";
    assert_eq!(find_in_range(data, b'\n', 0, data.len()), 2);
    assert_eq!(find_in_range(data, b'\n', 2, data.len()), 2);
    assert_eq!(find_in_range(data, b'\n', 3, data.len()), 5);
    assert_eq!(find_in_range(data, b'\n', 6, data.len()), 8);
    assert_eq!(find_in_range(data, b'\n', 3, 5), 5);
    assert_eq!(find_in_range(data, b'\n', 4, 4), 4);
    assert_eq!(find_in_range(b"", b'\n', 0, 0), 0);
}

#[test]
fn text_is_decoded_leniently() {
    assert_eq!(get_line_from_data(b"hello", &[0], 5, 0).as_deref(), Some("hello"));
    assert_eq!(get_line_from_data("h\u{e9}llo".as_bytes(), &[0], 6, 0).as_deref(), Some("h\u{e9}llo"));
    assert_eq!(
        get_line_from_data(&[0x68, 0xff, 0x69], &[0], 3, 0).as_deref(),
        Some("h\u{fffd}i")
    );
    assert_eq!(get_line_from_data(&[0x68, 0xc3], &[0], 2, 0).as_deref(), Some("h\u{fffd}"));
    assert_eq!(
        get_line_from_data(b"ok \xff bad\nnext\n", &[0, 9], 14, 0).as_deref(),
        Some("ok \u{fffd} bad")
    );
    assert_eq!(get_line_from_data(b"ok \xff bad\nnext\n", &[0, 9], 14, 1).as_deref(), Some("next"));
    assert_eq!(line_probe("h\u{e9}llo\n".as_bytes(), 0), "h\u{e9}llo");
}

#[test]
fn strip_end_strips_line_feeds_and_carriage_returns() {
    assert_eq!(strip_end(b"abc\r\n"), b"abc");
    assert_eq!(strip_end(b"abc\n\n\r\r"), b"abc");
    assert_eq!(strip_end(b"abc"), b"abc");
    assert_eq!(strip_end(b"a\rb\n"), b"a\rb");
    assert_eq!(strip_end(b"\n"), b"");
    assert_eq!(strip_end(b""), b"");
    assert_eq!(strip_end(b"abc \t\n"), b"abc \t");
    assert_eq!(strip_end(b"\xff\r\n"), b"\xff");
    assert_eq!(get_line_from_data(b"abc\r\n", &[0], 5, 0).as_deref(), Some("abc"));
    assert_eq!(get_line_from_data("\u{e9}\r\n\r".as_bytes(), &[0], 5, 0).as_deref(), Some("\u{e9}"));
}

#[test]
fn substring_cuts_between_boundaries() {
    let text = "a\u{e9}bc";
    assert_eq!(substring(text, 0, 1), "a");
    assert_eq!(substring(text, 1, 3), "\u{e9}");
    assert_eq!(substring(text, 3, 5), "bc");
    assert_eq!(substring(text, 2 + 1, 3), "");
    assert_eq!(substring(text, 0, 5), text);
}

#[test]
fn get_line_from_data_cuts_lines() {
    let data = b"first\nsecond\r\nthird";
    let offsets = [0u64, 6, 14];
    assert_eq!(get_line_from_data(data, &offsets, data.len(), 0).as_deref(), Some("first"));
    assert_eq!(get_line_from_data(data, &offsets, data.len(), 1).as_deref(), Some("second"));
    assert_eq!(get_line_from_data(data, &offsets, data.len(), 2).as_deref(), Some("third"));
    assert_eq!(get_line_from_data(data, &offsets, data.len(), 3), None);
}

#[test]
fn get_line_from_data_last_line_runs_to_the_end() {
    let data = b"a\nb\n";
    let offsets = [0u64, 2];
    assert_eq!(get_line_from_data(data, &offsets, data.len(), 1).as_deref(), Some("b"));
    // Without the next offset the line holds what follows, up to the end.
    assert_eq!(get_line_from_data(b"a\nb\nc", &[0u64], 5, 0).as_deref(), Some("a\nb\nc"));
}

#[test]
fn get_line_from_data_reads_no_further_than_data_len() {
    let data = b"abcdef\nghi";
    let offsets = [0u64, 7];
    assert_eq!(get_line_from_data(data, &offsets, 3, 0).as_deref(), Some("abc"));
    assert_eq!(get_line_from_data(data, &offsets, 3, 1), None);
    assert_eq!(get_line_from_data(data, &offsets, 8, 1).as_deref(), Some("g"));
    assert_eq!(get_line_from_data(data, &offsets, 1000, 1).as_deref(), Some("ghi"));
    assert_eq!(get_line_from_data(data, &offsets, 0, 0), None);
}

#[test]
fn get_line_from_data_caps_long_lines() {
    let mut data = vec![b'x'; 2500];
    data.push(b'\n');
    data.extend_from_slice(b"next");
    let offsets = [0u64, 2501];
    let line = get_line_from_data(&data, &offsets, data.len(), 0).unwrap();
    assert_eq!(line.len(), 2000);
    assert!(line.bytes().all(|b| b == b'x'));
    assert_eq!(get_line_from_data(&data, &offsets, data.len(), 1).as_deref(), Some("next"));

    let mut exact = vec![b'y'; 2000];
    exact.push(b'\n');
    let line = get_line_from_data(&exact, &[0u64], exact.len(), 0).unwrap();
    assert_eq!(line.len(), 2000);
}

#[test]
fn get_line_from_data_keeps_lines_that_are_not_utf8() {
    let data = [b'o', b'k', b'\n', 0xff, 0xfe, b'\n', b'o', b'k'];
    let offsets = [0u64, 3, 6];
    assert_eq!(get_line_from_data(&data, &offsets, data.len(), 0).as_deref(), Some("ok"));
    assert_eq!(
        get_line_from_data(&data, &offsets, data.len(), 1).as_deref(),
        Some("\u{fffd}\u{fffd}")
    );
    assert_eq!(get_line_from_data(&data, &offsets, data.len(), 2).as_deref(), Some("ok"));

    // A cap that falls inside a character leaves a byte that does not
    // decode: the replacement character stands for it.
    let mut long = vec![b'a'; 1999];
    long.extend_from_slice("\u{e9}".as_bytes());
    long.extend_from_slice(b"tail");
    let line = get_line_from_data(&long, &[0u64], long.len(), 0).unwrap();
    assert_eq!(line.chars().count(), 2000);
    assert!(line.starts_with("aaaa"));
    assert!(line.ends_with("a\u{fffd}"));
}

#[test]
fn get_line_from_data_takes_offsets_as_they_are() {
    let data = b"abc\ndef\n";
    assert_eq!(get_line_from_data(data, &[4u64, 0], data.len(), 0), None);
    assert_eq!(get_line_from_data(data, &[0u64, 0], data.len(), 0).as_deref(), Some(""));
    assert_eq!(get_line_from_data(data, &[8u64], data.len(), 0), None);
    assert_eq!(get_line_from_data(data, &[0u64, 1], data.len(), 0).as_deref(), Some(""));
    assert_eq!(get_line_from_data(b"", &[0u64], 0, 0), None);
}

#[test]
fn line_probe_reads_the_start_of_a_line() {
    let data = b"first line\nsecond\n";
    assert_eq!(line_probe(data, 0), "first line");
    assert_eq!(line_probe(data, 6), "line");
    assert_eq!(line_probe(data, 11), "second");
    assert_eq!(line_probe(data, 10), "");
    assert_eq!(line_probe(data, 18), "");
    assert_eq!(line_probe(data, 999), "");
    assert_eq!(line_probe(b"cr\r\nx", 0), "cr\r");
}

#[test]
fn line_probe_reads_two_hundred_bytes_at_most() {
    let mut data = vec![b'z'; 300];
    data.push(b'\n');
    assert_eq!(line_probe(&data, 0).len(), 200);
    assert_eq!(line_probe(&data, 150).len(), 150);

    let mut split = vec![b'a'; 199];
    split.extend_from_slice("\u{e9}".as_bytes());
    split.push(b'\n');
    assert_eq!(line_probe(&split, 0), "");
    assert_eq!(line_probe(&[0xff, b'a', b'\n'], 0), "");
}
