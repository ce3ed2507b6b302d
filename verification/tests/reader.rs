use loghew::log::index::LevelCounts;
use loghew::log::parser::{LogLevel, TimestampKind};
use loghew::log::reader::{has_grown, next_scan_offset, should_map, LogSource, MMAP_THRESHOLD};
use loghew::log::tail::{find_tail_start, scan_tail_of, split_lines, tail_of_buffer};
use loghew::log::index::build_index_chunk;
use memmap2::{Mmap, MmapMut};
use std::sync::Arc;

fn mapping(bytes: &[u8]) -> Arc<Mmap> {
    let mut map = MmapMut::map_anon(bytes.len()).unwrap();
    map.copy_from_slice(bytes);
    Arc::new(map.make_read_only().unwrap())
}

fn numbered(lines: usize) -> Vec<u8> {
    let mut data = Vec::new();
    for k in 0..lines {
        data.extend_from_slice(format!("line {}\n", k).as_bytes());
    }
    data
}

#[test]
fn files_above_the_threshold_are_mapped() {
    assert_eq!(MMAP_THRESHOLD, 10 * 1024 * 1024);
    assert!(!should_map(0));
    assert!(!should_map(MMAP_THRESHOLD));
    assert!(should_map(MMAP_THRESHOLD + 1));
    assert!(has_grown(10, 11));
    assert!(!has_grown(10, 10));
    assert!(!has_grown(10, 3));
    assert!(has_grown(0, u64::MAX));
}

#[test]
fn buffered_source_is_indexed_at_once() {
    let content = b"2024-01-15 14:32:01 INFO a\n  cont\n2024-01-15 14:32:02 ERROR b\n".to_vec();
    let source = LogSource::from_buffer(content.clone());
    assert!(!source.is_mmap());
    assert!(source.mmap_arc().is_none());
    assert_eq!(source.data(), &content[..]);
    assert!(!source.scanning());
    assert_eq!(source.scan_progress(), None);
    let index = source.index();
    assert_eq!(index.total_lines(), 3);
    assert_eq!(index.timestamp_format().as_ref().unwrap().kind, TimestampKind::Iso8601Space);
    assert_eq!(index.levels(), &vec![LogLevel::Info, LogLevel::Unknown, LogLevel::Error]);
    assert_eq!(
        index.timestamps(),
        &vec![Some(1705329121000), Some(1705329121000), Some(1705329122000)]
    );
    assert_eq!(index.is_entry_start(), &vec![true, false, true]);
    assert_eq!(
        *index.level_counts(),
        LevelCounts { error: 1, warn: 0, info: 1, debug: 0, trace: 0 }
    );
    assert_eq!(source.get_line(0).as_deref(), Some("2024-01-15 14:32:01 INFO a"));
    assert_eq!(source.get_line(1).as_deref(), Some("  cont"));
    assert_eq!(source.get_line(2).as_deref(), Some("2024-01-15 14:32:02 ERROR b"));
    assert_eq!(source.get_line(3), None);
}

#[test]
fn lines_with_separators_make_up_the_content() {
    for content in [
        "a\nbb\n\nccc",
        "a\nbb\n\nccc\n",
        "\n\n",
        "\n",
        "x",
        "h\u{e9}llo\nw\u{f6}rld\n",
    ] {
        let source = LogSource::from_buffer(content.as_bytes().to_vec());
        let total = source.index().total_lines();
        let mut rebuilt = String::new();
        for i in 0..total {
            rebuilt.push_str(&source.get_line(i).unwrap());
            if i + 1 < total {
                rebuilt.push('\n');
            }
        }
        // The line feed at the end of the last line is stripped with it.
        let expected = content.strip_suffix('\n').unwrap_or(content);
        assert_eq!(rebuilt, expected, "{:?}", content);
    }
}

#[test]
fn carriage_returns_are_stripped_from_each_line() {
    let source = LogSource::from_buffer(b"one\r\ntwo\r\nthree\r\n".to_vec());
    assert_eq!(source.index().total_lines(), 3);
    assert_eq!(source.get_line(0).as_deref(), Some("one"));
    assert_eq!(source.get_line(1).as_deref(), Some("two"));
    assert_eq!(source.get_line(2).as_deref(), Some("three"));
}

#[test]
fn empty_buffer_has_one_line_without_text() {
    let source = LogSource::from_buffer(Vec::new());
    assert_eq!(source.index().total_lines(), 1);
    assert_eq!(source.get_line(0), None);
    assert!(source.scan_tail(5).is_empty());
}

#[test]
fn buffered_source_grows_by_its_new_bytes() {
    let mut source = LogSource::from_buffer(b"ERROR a\nWARN b\n".to_vec());
    assert!(!source.parse_deferred_batch(100));
    assert!(source.indexing_ready());

    assert!(!source.reload_buffered(b""));
    assert!(source.reload_buffered(b"INFO c\nDEBUG d"));
    assert_eq!(source.data(), b"ERROR a\nWARN b\nINFO c\nDEBUG d");
    assert_eq!(source.index().total_lines(), 4);
    assert_eq!(source.index().line_offsets(), &vec![0, 8, 15, 22]);
    assert!(!source.indexing_ready());
    // The levels of the new lines are read at once, their timestamps later.
    assert_eq!(
        source.index().levels(),
        &vec![LogLevel::Error, LogLevel::Warn, LogLevel::Info, LogLevel::Debug]
    );
    assert!(!source.parse_deferred_batch(100));
    assert_eq!(
        source.index().levels(),
        &vec![LogLevel::Error, LogLevel::Warn, LogLevel::Info, LogLevel::Debug]
    );
    assert_eq!(source.get_line(3).as_deref(), Some("DEBUG d"));

    // What is added to an open last line is part of that line.
    assert!(!source.reload_buffered(b" more"));
    assert_eq!(source.index().total_lines(), 4);
    assert_eq!(source.get_line(3).as_deref(), Some("DEBUG d more"));
    assert!(source.reload_buffered(b"\nlast"));
    assert_eq!(source.index().total_lines(), 5);
    assert_eq!(source.get_line(4).as_deref(), Some("last"));
    assert!(!source.reload_mapped(mapping(b"other")));
    assert_eq!(source.index().total_lines(), 5);
}

#[test]
fn mapped_source_is_scanned_in_steps() {
    let data = numbered(120_000);
    let source_map = mapping(&data);
    let mut source = LogSource::from_mapping(source_map);
    assert!(source.is_mmap());
    assert!(source.mmap_arc().is_some());
    assert_eq!(source.data(), &data[..]);
    assert_eq!(source.index().total_lines(), 50_000);
    assert!(source.scanning());
    let (at, limit) = source.scan_progress().unwrap();
    assert_eq!(limit, data.len() as u64);
    assert_eq!(at, source.index().line_offsets()[49_999] + 1);
    assert_eq!(source.get_line(49_998).as_deref(), Some("line 49998"));
    // The last line that the index holds runs to the end of the data, as
    // far as the length cap lets it.
    let open = source.get_line(49_999).unwrap();
    assert!(open.starts_with("line 49999\nline 50000\n"));
    assert_eq!(open.len(), 2000);
    assert_eq!(source.index().levels()[0], LogLevel::Unknown);

    assert!(source.scan_batch());
    assert_eq!(source.index().total_lines(), 100_000);
    assert!(source.scan_batch());
    assert_eq!(source.index().total_lines(), 120_000);
    assert!(source.scanning());
    // The step that finds no line ends scanning.
    assert!(!source.scan_batch());
    assert_eq!(source.index().total_lines(), 120_000);
    assert!(!source.scanning());
    assert_eq!(source.scan_progress(), None);
    assert!(!source.scan_batch());
    for k in [0usize, 1, 49_999, 50_000, 50_001, 99_999, 100_000, 119_999] {
        assert_eq!(source.get_line(k).unwrap(), format!("line {}", k));
    }
    assert_eq!(source.get_line(120_000), None);
    assert!(!source.reload_buffered(b"ignored"));
}

#[test]
fn mapped_source_takes_in_scan_chunks() {
    let data = numbered(60_000);
    let mut source = LogSource::from_mapping(mapping(&data));
    let from = source.scan_progress().unwrap().0;
    let chunk = build_index_chunk(&data, from, 50_000, &None, true);
    let next = next_scan_offset(&chunk, data.len() as u64);
    assert_eq!(chunk.line_offsets.len(), 10_000);
    assert!(!source.merge_scan_chunk(chunk, next));
    assert_eq!(source.index().total_lines(), 60_000);
    assert_eq!(source.scan_progress().unwrap().0, next);
    let empty = build_index_chunk(&data, next, 50_000, &None, true);
    assert!(empty.line_offsets.is_empty());
    assert_eq!(next_scan_offset(&empty, 77), 77);
    assert!(source.merge_scan_chunk(empty, 5));
    assert!(!source.scanning());
    assert_eq!(source.index().total_lines(), 60_000);
}

#[test]
fn mapped_source_grows_by_a_new_mapping() {
    let data = b"ERROR a\nWARN b\n".to_vec();
    let mut source = LogSource::from_mapping(mapping(&data));
    assert_eq!(source.index().total_lines(), 2);
    let mut grown = data.clone();
    grown.extend_from_slice(b"INFO c\n");
    assert!(source.reload_mapped(mapping(&grown)));
    assert_eq!(source.data(), &grown[..]);
    assert_eq!(source.index().total_lines(), 3);
    assert_eq!(source.get_line(2).as_deref(), Some("INFO c"));
    // No new line: the new mapping is taken and nothing is added.
    let mut more = grown.clone();
    more.extend_from_slice(b"tail");
    assert!(source.reload_mapped(mapping(&more)));
    assert_eq!(source.index().total_lines(), 4);
    let mut last = more.clone();
    last.extend_from_slice(b" end");
    assert!(!source.reload_mapped(mapping(&last)));
    assert_eq!(source.index().total_lines(), 4);
    assert_eq!(source.get_line(3).as_deref(), Some("tail end"));
    while source.parse_deferred_batch(2) {}
    assert_eq!(
        source.index().levels(),
        &vec![LogLevel::Error, LogLevel::Warn, LogLevel::Info, LogLevel::Unknown]
    );
}

#[test]
fn source_applies_deferred_batches() {
    let mut source = LogSource::from_mapping(mapping(b"ERROR a\nWARN b\n"));
    assert!(!source.indexing_ready());
    assert!(!source.apply_deferred_batch(1, vec![None], vec![LogLevel::Warn], vec![true]));
    assert!(source.apply_deferred_batch(
        0,
        vec![None, None],
        vec![LogLevel::Error, LogLevel::Warn],
        vec![true, true]
    ));
    assert!(source.indexing_ready());
    assert_eq!(source.index().levels(), &vec![LogLevel::Error, LogLevel::Warn]);
}

#[test]
fn tail_starts_behind_the_line_feed_before_the_last_lines() {
    let data = b"a\nb\nc\nd\n";
    assert_eq!(find_tail_start(data, 1), 8);
    assert_eq!(find_tail_start(data, 2), 6);
    assert_eq!(find_tail_start(data, 3), 4);
    assert_eq!(find_tail_start(data, 4), 2);
    assert_eq!(find_tail_start(data, 5), 0);
    assert_eq!(find_tail_start(data, 100), 0);
    assert_eq!(find_tail_start(b"a\nb\nc", 1), 4);
    assert_eq!(find_tail_start(b"", 1), 0);
    assert_eq!(find_tail_start(data, 0), 8);
}

#[test]
fn split_lines_is_like_lines() {
    for text in [
        "a\nb\nc",
        "a\nb\nc\n",
        "a\r\nb\r\n",
        "a\rb\n",
        "a\n\nb",
        "\n",
        "",
        "no newline",
        "tail\r",
        "x\n\r\n\r",
        "h\u{e9}\r\n\u{4e16}\u{754c}\n",
        "\r\n",
        "a\r\r\nb",
    ] {
        let expected: Vec<&str> = text.lines().collect();
        assert_eq!(split_lines(text), expected, "{:?}", text);
    }
}

#[test]
fn lossy_decoding_replaces_what_is_not_utf8() {
    let text = |bytes: &[u8]| tail_of_buffer(bytes, 1).pop().map(|pair| pair.0);
    assert_eq!(text(b"plain"), Some("plain".to_string()));
    assert_eq!(text("h\u{e9}".as_bytes()), Some("h\u{e9}".to_string()));
    assert_eq!(text(&[b'a', 0xff, b'b']), Some("a\u{fffd}b".to_string()));
    assert_eq!(text(b""), None);
}

#[test]
fn tail_of_buffer_keeps_the_last_lines() {
    let buffer = b"cut off\nERROR one\nwarn two\r\nthree\n";
    let pairs = tail_of_buffer(buffer, 2);
    assert_eq!(
        pairs,
        vec![("warn two".to_string(), LogLevel::Warn), ("three".to_string(), LogLevel::Unknown)]
    );
    let all = tail_of_buffer(buffer, 10);
    assert_eq!(all.len(), 4);
    assert_eq!(all[1], ("ERROR one".to_string(), LogLevel::Error));
    assert!(tail_of_buffer(buffer, 0).is_empty());
    assert!(tail_of_buffer(b"", 3).is_empty());
    let odd = tail_of_buffer(&[b'I', b'N', b'F', b'O', b' ', 0xff, b'\n'], 1);
    assert_eq!(odd, vec![("INFO \u{fffd}".to_string(), LogLevel::Info)]);
}

#[test]
fn scan_tail_reads_the_end_of_the_data() {
    let data = b"a\nERROR b\nc\nDEBUG d\n";
    let pairs = scan_tail_of(data, 2);
    assert_eq!(
        pairs,
        vec![("c".to_string(), LogLevel::Unknown), ("DEBUG d".to_string(), LogLevel::Debug)]
    );
    assert_eq!(scan_tail_of(data, 100).len(), 4);
    // Without a line feed at the end the open line comes on top.
    let open = scan_tail_of(b"a\nb\nc", 1);
    assert_eq!(
        open,
        vec![("b".to_string(), LogLevel::Unknown), ("c".to_string(), LogLevel::Unknown)]
    );
    let source = LogSource::from_buffer(data.to_vec());
    assert_eq!(source.scan_tail(1), vec![("DEBUG d".to_string(), LogLevel::Debug)]);
    assert!(source.scan_tail(0).is_empty());
}

#[test]
fn texts_joined_by_line_feeds_are_the_file_without_its_last_line_feed() {
    for content in ["a\nbb\n\nccc", "a\nbb\n\nccc\n", "x", "x\n", "\n", "h\u{e9}llo\nw\u{f6}rld\n", "a\n\n"] {
        let source = LogSource::from_buffer(content.as_bytes().to_vec());
        let total = source.index().total_lines();
        let texts: Vec<String> = (0..total).map(|i| source.get_line(i).unwrap()).collect();
        let expected = content.strip_suffix('\n').unwrap_or(content);
        assert_eq!(texts.join("\n"), expected, "{:?}", content);
    }
}

#[test]
fn a_line_that_is_not_utf8_has_a_text() {
    let source = LogSource::from_buffer(b"ok \xff bad\nnext\n".to_vec());
    assert_eq!(source.index().total_lines(), 2);
    assert_eq!(source.get_line(0).as_deref(), Some("ok \u{fffd} bad"));
    assert_eq!(source.get_line(1).as_deref(), Some("next"));
}
