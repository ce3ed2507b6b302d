use loghew::log::reader::LogSource;
use loghew::matching::{filter_lines, search_lines, text_meets_all};
use loghew::search::{literal_pattern_text, SearchState};
use regex::Regex;
use std::sync::atomic::{AtomicBool, Ordering};

fn source() -> LogSource {
    LogSource::from_buffer(
        b"alpha ERROR one\nbeta\nGamma error two\n\nalpha.beta\nALPHA\n".to_vec(),
    )
}

fn compile(pattern: &str) -> Result<Regex, regex::Error> {
    Regex::new(pattern)
}

#[test]
fn escaping_takes_the_meaning_out_of_a_text() {
    assert_eq!(literal_pattern_text("a.b"), r"(?i)a\.b");
    assert_eq!(literal_pattern_text("plain"), "(?i)plain");
    assert_eq!(literal_pattern_text("(x|y)*"), r"(?i)\(x\|y\)\*");
    assert_eq!(literal_pattern_text(""), "(?i)");
}

#[test]
fn refused_pattern_has_a_message() {
    let mut state = SearchState::new();
    state.set_regex("(unclosed");
    let message = state.error.unwrap();
    assert_eq!(message, Regex::new("(unclosed").unwrap_err().to_string());
}

#[test]
fn new_search_searches_for_nothing() {
    let state = SearchState::new();
    assert_eq!(state.pattern, "");
    assert!(state.regex.is_none());
    assert!(state.error.is_none());
    assert!(state.matches.is_empty());
    assert_eq!(state.current_match, None);
    assert_eq!(state.search_cursor, 0);
    assert_eq!(state.search_total, 0);
    assert!(!state.searching);
    assert_eq!(state.match_count(), 0);
    assert_eq!(state.current_match_line(), None);
}

#[test]
fn literal_search_ignores_case_and_meaning() {
    let source = source();
    let mut state = SearchState::new();
    state.set_literal("error");
    assert_eq!(state.pattern, "error");
    assert!(state.error.is_none());
    state.find_matches(source.index().total_lines(), &source);
    assert_eq!(state.matches, vec![0, 2]);

    state.set_literal("alpha.beta");
    assert!(state.matches.is_empty());
    state.find_matches(source.index().total_lines(), &source);
    assert_eq!(state.matches, vec![4]);

    state.set_literal("a.p");
    state.find_matches(source.index().total_lines(), &source);
    assert!(state.matches.is_empty());

    state.set_literal("");
    assert!(state.regex.is_none());
    assert!(state.error.is_none());
    state.find_matches(source.index().total_lines(), &source);
    assert!(state.matches.is_empty());
}

#[test]
fn regex_search_keeps_case_and_meaning() {
    let source = source();
    let mut state = SearchState::new();
    state.set_regex("a.p");
    state.find_matches(source.index().total_lines(), &source);
    assert_eq!(state.matches, vec![0, 4]);
    state.set_regex("^$");
    state.find_matches(source.index().total_lines(), &source);
    assert_eq!(state.matches, vec![3]);
    state.set_regex("error");
    state.find_matches(2, &source);
    assert!(state.matches.is_empty());
    state.find_matches(3, &source);
    assert_eq!(state.matches, vec![2]);
}

#[test]
fn refused_regex_is_kept_as_an_error_and_changes_nothing_else() {
    let mut state = SearchState::new();
    state.set_regex("alpha");
    state.matches = vec![1, 4];
    state.current_match = Some(1);
    state.search_cursor = 5;
    state.search_total = 9;
    state.searching = true;
    state.set_regex("(");
    assert!(state.error.is_some());
    assert_eq!(state.pattern, "alpha");
    assert_eq!(state.regex.as_ref().unwrap().as_str(), "alpha");
    assert_eq!(state.matches, vec![1, 4]);
    assert_eq!(state.current_match, Some(1));
    assert_eq!(state.search_cursor, 5);
    assert_eq!(state.search_total, 9);
    assert!(state.searching);
    state.set_regex("(unclosed");
    assert!(state.error.as_ref().unwrap().contains("unclosed"));
    assert_eq!(state.matches, vec![1, 4]);
    state.set_regex("fine");
    assert!(state.error.is_none());
    assert_eq!(state.pattern, "fine");
    assert_eq!(state.regex.as_ref().unwrap().as_str(), "fine");
    assert!(state.matches.is_empty());
    assert_eq!(state.current_match, None);
    assert!(state.searching);
    state.set_regex("(");
    state.set_regex("");
    assert!(state.error.is_none());
    assert!(state.regex.is_none());
    assert_eq!(state.pattern, "");
}

#[test]
fn search_runs_in_batches() {
    let source = source();
    let total = source.index().total_lines();
    assert_eq!(total, 6);
    let mut state = SearchState::new();
    state.set_literal("alpha");
    state.start_search(total);
    assert!(state.searching);
    assert_eq!(state.search_total, 6);
    assert!(state.search_batch(4, &source));
    assert_eq!(state.search_cursor, 4);
    assert_eq!(state.matches, vec![0]);
    assert!(!state.search_batch(4, &source));
    assert_eq!(state.search_cursor, 6);
    assert_eq!(state.matches, vec![0, 4, 5]);
    assert!(!state.searching);

    state.start_search(total);
    assert!(state.matches.is_empty());
    assert!(state.search_batch(0, &source));
    assert_eq!(state.search_cursor, 0);
    assert!(!state.search_batch(usize::MAX, &source));
    assert_eq!(state.matches, vec![0, 4, 5]);

    // A search of fewer lines than the index holds ends with them.
    state.start_search(5);
    assert!(!state.search_batch(100, &source));
    assert_eq!(state.search_cursor, 5);
    assert_eq!(state.matches, vec![0, 4]);
}

#[test]
fn search_without_an_expression_ends_at_once() {
    let source = source();
    let mut state = SearchState::new();
    state.start_search(6);
    assert!(!state.search_batch(10, &source));
    assert!(!state.searching);
    assert_eq!(state.search_cursor, 0);
    assert!(state.matches.is_empty());
}

#[test]
fn batches_from_elsewhere_are_added() {
    let mut state = SearchState::new();
    state.start_search(100);
    state.apply_batch(vec![3, 7], 50, false);
    assert_eq!(state.matches, vec![3, 7]);
    assert_eq!(state.search_cursor, 50);
    assert!(state.searching);
    state.apply_batch(vec![60], 100, true);
    assert_eq!(state.matches, vec![3, 7, 60]);
    assert!(!state.searching);
    state.apply_batch(vec![], 100, false);
    assert!(!state.searching);
}

#[test]
fn jump_to_nearest_takes_the_first_match_from_a_line_on() {
    let mut state = SearchState::new();
    assert_eq!(state.jump_to_nearest(0), None);
    assert_eq!(state.current_match, None);
    state.matches = vec![3, 7, 20];
    assert_eq!(state.jump_to_nearest(0), Some(3));
    assert_eq!(state.current_match, Some(0));
    assert_eq!(state.jump_to_nearest(3), Some(3));
    assert_eq!(state.jump_to_nearest(4), Some(7));
    assert_eq!(state.current_match, Some(1));
    assert_eq!(state.jump_to_nearest(20), Some(20));
    assert_eq!(state.current_match, Some(2));
    // Behind the last match: the first one.
    assert_eq!(state.jump_to_nearest(21), Some(3));
    assert_eq!(state.current_match, Some(0));
    assert_eq!(state.jump_to_nearest(usize::MAX), Some(3));
}

#[test]
fn next_and_prev_wrap_around() {
    let mut state = SearchState::new();
    assert_eq!(state.next_match(), None);
    assert_eq!(state.prev_match(), None);
    state.matches = vec![3, 7, 20];
    assert_eq!(state.next_match(), Some(3));
    assert_eq!(state.next_match(), Some(7));
    assert_eq!(state.next_match(), Some(20));
    assert_eq!(state.next_match(), Some(3));
    assert_eq!(state.current_match, Some(0));
    assert_eq!(state.prev_match(), Some(20));
    assert_eq!(state.prev_match(), Some(7));
    assert_eq!(state.prev_match(), Some(3));
    assert_eq!(state.prev_match(), Some(20));
    assert_eq!(state.current_match_line(), Some(20));
    assert!(state.is_current_match_line(20));
    assert!(!state.is_current_match_line(3));
    assert_eq!(state.match_count(), 3);

    let mut fresh = SearchState::new();
    fresh.matches = vec![5, 9];
    assert_eq!(fresh.prev_match(), Some(9));
    assert!(!SearchState::new().is_current_match_line(0));
}

#[test]
fn lines_are_searched_in_a_range() {
    let data = b"a1\nb\na2\na3\nb\na4\n";
    let offsets = [0u64, 3, 5, 8, 11, 13];
    let re = compile("a").unwrap();
    let out = search_lines(data, &re, &offsets, data.len(), 0, 100, 6, None);
    assert_eq!(out.matches, vec![0, 2, 3, 5]);
    assert_eq!(out.cursor, 6);
    assert!(!out.cancelled);
    let out = search_lines(data, &re, &offsets, data.len(), 2, 2, 6, None);
    assert_eq!(out.matches, vec![2, 3]);
    assert_eq!(out.cursor, 4);
    let out = search_lines(data, &re, &offsets, data.len(), 4, 100, 5, None);
    assert!(out.matches.is_empty());
    assert_eq!(out.cursor, 5);
    let out = search_lines(data, &re, &offsets, data.len(), 9, 5, 6, None);
    assert!(out.matches.is_empty());
    assert_eq!(out.cursor, 6);
    let out = search_lines(data, &re, &offsets, data.len(), 1, usize::MAX, 6, None);
    assert_eq!(out.matches, vec![2, 3, 5]);
    // Lines behind the data are no lines.
    let out = search_lines(data, &re, &offsets, 5, 0, 100, 6, None);
    assert_eq!(out.matches, vec![0]);
}

#[test]
fn a_set_stop_flag_ends_the_walk_at_a_check() {
    let mut data = Vec::new();
    let mut offsets = Vec::new();
    for _ in 0..3000 {
        offsets.push(data.len() as u64);
        data.extend_from_slice(b"x\n");
    }
    let re = compile("x").unwrap();
    let flag = AtomicBool::new(true);
    let out = search_lines(&data, &re, &offsets, data.len(), 0, 3000, 3000, Some(&flag));
    assert!(out.cancelled);
    assert_eq!(out.cursor, 0);
    assert!(out.matches.is_empty());
    let out = search_lines(&data, &re, &offsets, data.len(), 1, 3000, 3000, Some(&flag));
    assert!(out.cancelled);
    assert_eq!(out.cursor, 1024);
    assert_eq!(out.matches.len(), 1023);
    let out = search_lines(&data, &re, &offsets, data.len(), 2049, 100, 3000, Some(&flag));
    assert!(!out.cancelled);
    assert_eq!(out.cursor, 2149);
    flag.store(false, Ordering::Relaxed);
    let out = search_lines(&data, &re, &offsets, data.len(), 0, 3000, 3000, Some(&flag));
    assert!(!out.cancelled);
    assert_eq!(out.cursor, 3000);
    assert_eq!(out.matches.len(), 3000);

    let conditions = vec![(compile("x").unwrap(), false)];
    flag.store(true, Ordering::Relaxed);
    let out = filter_lines(&data, &conditions, &offsets, data.len(), 1000, 3000, 3000, Some(&flag));
    assert!(out.cancelled);
    assert_eq!(out.cursor, 1024);
    assert_eq!(out.matches, (1000..1024).collect::<Vec<usize>>());
}

#[test]
fn conditions_are_met_together() {
    let error = compile("(?i)error").unwrap();
    let timeout = compile("(?i)timeout").unwrap();
    let conditions = vec![(error, false), (timeout, true)];
    assert!(text_meets_all(&conditions, "an ERROR here"));
    assert!(!text_meets_all(&conditions, "an ERROR after a Timeout"));
    assert!(!text_meets_all(&conditions, "timeout only"));
    assert!(!text_meets_all(&conditions, "neither"));
    assert!(text_meets_all(&[], "anything"));
    let negated = vec![(compile("x").unwrap(), true)];
    assert!(text_meets_all(&negated, "abc"));
    assert!(!text_meets_all(&negated, "xyz"));
}
