use loghew::engine::{bump, lower_bound_line, percent, Engine, StatusNote, DEFAULT_VIEWPORT};
use loghew::cancel::stop_requested;
use loghew::log::index::{build_index_chunk, LevelCounts};
use loghew::log::parser::LogLevel;
use loghew::log::reader::{next_scan_offset, LogSource};
use loghew::worker::{handle_request, WorkRequest, WorkResult};
use memmap2::{Mmap, MmapMut};
use std::sync::Arc;

fn mapping(bytes: &[u8]) -> Arc<Mmap> {
    let mut map = MmapMut::map_anon(bytes.len()).unwrap();
    map.copy_from_slice(bytes);
    Arc::new(map.make_read_only().unwrap())
}

fn numbered(lines: usize) -> Vec<u8> {
    let mut data = Vec::new();
    for k in 0..lines {
        let word = if k % 10 == 3 { "error" } else if k % 10 == 7 { "timeout error" } else { "ok" };
        data.extend_from_slice(format!("line {} {}\n", k, word).as_bytes());
    }
    data
}

fn buffered(lines: usize) -> Engine {
    Engine::new(LogSource::from_buffer(numbered(lines)))
}

fn mapped(lines: usize) -> Engine {
    Engine::new(LogSource::from_mapping(mapping(&numbered(lines))))
}

/// Runs the worker's side of one tick: what was asked for is carried out
/// and taken in.
fn serve(app: &mut Engine) -> bool {
    match app.submit_next_work() {
        Some(request) => {
            let result = handle_request(request).unwrap();
            assert!(app.worker_busy);
            assert!(app.poll_worker(vec![result]));
            assert!(!app.worker_busy);
            true
        }
        None => false,
    }
}

#[test]
fn new_engine_starts_at_the_top() {
    let app = buffered(100);
    assert_eq!(app.scroll_offset, 0);
    assert_eq!(app.viewport_height, DEFAULT_VIEWPORT);
    assert_eq!(app.total_lines(), 100);
    assert_eq!(app.visible_count(), 100);
    assert!(!app.has_worker);
    assert!(!app.searching());
    assert!(!app.filtering);
    assert!(!app.in_tail_mode());
    assert!(mapped(10).has_worker);
}

#[test]
fn scrolling_stays_within_the_lines() {
    let mut app = buffered(100);
    assert_eq!(app.scroll_limit(), 80);
    app.scroll_down(5);
    assert_eq!(app.scroll_offset, 5);
    app.scroll_down(1000);
    assert_eq!(app.scroll_offset, 80);
    app.scroll_down(usize::MAX);
    assert_eq!(app.scroll_offset, 80);
    app.scroll_up(30);
    assert_eq!(app.scroll_offset, 50);
    app.scroll_up(usize::MAX);
    assert_eq!(app.scroll_offset, 0);
    app.scroll_to(42);
    assert_eq!(app.scroll_offset, 42);
    app.scroll_to(99);
    assert_eq!(app.scroll_offset, 80);
    app.scroll_to_top();
    assert_eq!(app.scroll_offset, 0);
    app.scroll_to_bottom();
    assert_eq!(app.scroll_offset, 80);
    app.viewport_height = 200;
    app.scroll_to_bottom();
    assert_eq!(app.scroll_offset, 0);
    assert_eq!(app.scroll_limit(), 0);
}

#[test]
fn scrolling_up_ends_following() {
    let mut app = buffered(100);
    app.follow_mode = true;
    app.scroll_up(0);
    assert!(app.follow_mode);
    app.scroll_up(1);
    assert!(!app.follow_mode);
}

#[test]
fn go_to_line_counts_from_one() {
    let mut app = buffered(100);
    assert_eq!(app.go_to_line(1), 0);
    assert_eq!(app.go_to_line(0), 0);
    assert_eq!(app.go_to_line(42), 41);
    assert_eq!(app.scroll_offset, 41);
    assert_eq!(app.go_to_line(100), 99);
    assert_eq!(app.scroll_offset, 80);
    assert_eq!(app.go_to_line(5000), 99);
    assert_eq!(app.go_to_line(usize::MAX), 99);
}

#[test]
fn tick_follows_the_end_of_the_file() {
    let mut app = buffered(100);
    assert!(!app.tick(false));
    assert!(app.tick(true));
    assert_eq!(app.scroll_offset, 0);
    app.follow_mode = true;
    assert!(app.tick(false));
    assert_eq!(app.scroll_offset, 80);
}

#[test]
fn percent_is_rounded_down() {
    assert_eq!(percent(0, 10), 0);
    assert_eq!(percent(1, 3), 33);
    assert_eq!(percent(2, 3), 66);
    assert_eq!(percent(3, 3), 100);
    assert_eq!(percent(0, 0), 100);
    assert_eq!(percent(usize::MAX - 1, usize::MAX), 99);
    assert_eq!(percent(usize::MAX, usize::MAX), 100);
}

#[test]
fn generations_wrap_around() {
    assert_eq!(bump(0), 1);
    assert_eq!(bump(41), 42);
    assert_eq!(bump(u64::MAX), 0);
}

#[test]
fn timestamp_lookup_finds_the_first_line_at_or_after() {
    let stamps = vec![None, Some(10), Some(10), Some(20), Some(20), Some(35)];
    assert_eq!(lower_bound_line(&stamps, 0), 1);
    assert_eq!(lower_bound_line(&stamps, 10), 1);
    assert_eq!(lower_bound_line(&stamps, 11), 3);
    assert_eq!(lower_bound_line(&stamps, 20), 3);
    assert_eq!(lower_bound_line(&stamps, 21), 5);
    assert_eq!(lower_bound_line(&stamps, 35), 5);
    // Every line is earlier: the last line.
    assert_eq!(lower_bound_line(&stamps, 36), 5);
    assert_eq!(lower_bound_line(&stamps, i64::MAX), 5);
    // A line without a timestamp counts as earlier than any time.
    assert_eq!(lower_bound_line(&stamps, i64::MIN), 0);
    assert_eq!(lower_bound_line(&[], 5), 0);
    assert_eq!(lower_bound_line(&[None, None], 5), 1);
    assert_eq!(lower_bound_line(&[Some(7)], 7), 0);
    assert_eq!(lower_bound_line(&[Some(7)], 8), 0);
}

#[test]
fn engine_jumps_to_a_time() {
    let data = b"2024-01-15 14:32:01 a\n  b\n2024-01-15 14:32:02 c\n2024-01-15 14:32:05 d\n";
    let mut app = Engine::new(LogSource::from_buffer(data.to_vec()));
    app.viewport_height = 1;
    assert_eq!(app.binary_search_timestamp(1705329122000), 2);
    assert_eq!(app.binary_search_timestamp(1705329121001), 2);
    assert_eq!(app.binary_search_timestamp(1705329123000), 3);
    assert_eq!(app.binary_search_timestamp(0), 0);
    assert_eq!(app.binary_search_timestamp(i64::MAX), 3);
    assert_eq!(app.jump_to_timestamp(1705329122000), 2);
    assert_eq!(app.scroll_offset, 2);
}

#[test]
fn search_runs_at_once_without_a_worker() {
    let mut app = buffered(25_000);
    app.scroll_to(20);
    app.execute_search("ERROR");
    assert!(app.searching());
    assert!(matches!(app.status, Some(StatusNote::Searching)));
    assert_eq!(app.search.search_total, 25_000);
    assert!(app.submit_next_work().is_none());
    assert_eq!(app.search.search_cursor, 10_000);
    assert_eq!(app.search.matches.len(), 2_000);
    match app.status {
        Some(StatusNote::SearchProgress { percent, matches }) => {
            assert_eq!(percent, 40);
            assert_eq!(matches, 2_000);
        }
        _ => panic!("no progress"),
    }
    assert_eq!(app.scroll_offset, 20);
    assert!(app.search_tick());
    assert!(!app.search_tick());
    assert!(!app.searching());
    assert_eq!(app.search.matches.len(), 5_000);
    assert_eq!(app.search.matches[..4], [3, 7, 13, 17]);
    assert!(matches!(app.status, Some(StatusNote::SearchDone { matches: 5_000 })));
    // The view is at the first match at or after the line that was on top.
    assert_eq!(app.search.current_match, Some(4));
    assert_eq!(app.scroll_offset, 23);
}

#[test]
fn refused_search_changes_no_search_under_way() {
    let mut app = buffered(100);
    app.execute_search("error");
    while app.search_tick() {}
    let found = app.search.matches.clone();
    assert_eq!(found.len(), 20);
    app.next_match();
    let current = app.search.current_match;
    let generation = app.search_generation;
    app.status = None;
    app.execute_regex_search("(unclosed");
    assert!(app.search.error.is_some());
    assert_eq!(app.search_generation, generation);
    assert_eq!(app.search.pattern, "error");
    assert_eq!(app.search.regex.as_ref().unwrap().as_str(), "(?i)error");
    assert_eq!(app.search.matches, found);
    assert_eq!(app.search.current_match, current);
    assert!(!app.searching());
    assert!(app.status.is_none());
    app.execute_regex_search("line 1\\d ");
    assert!(app.search.error.is_none());
    assert_eq!(app.search_generation, generation + 1);
    while app.search_tick() {}
    assert_eq!(app.search.matches, (10..20).collect::<Vec<usize>>());
}

#[test]
fn cancel_search_forgets_the_search() {
    let mut app = mapped(100);
    app.execute_search("error");
    let flag = app.search_cancel.clone().unwrap();
    assert!(!stop_requested(&flag));
    let generation = app.search_generation;
    app.cancel_search();
    assert!(stop_requested(&flag));
    assert_eq!(app.search_generation, bump(generation));
    assert!(!app.searching());
    assert!(app.search.regex.is_none());
    assert_eq!(app.search.pattern, "");
}

#[test]
fn newer_search_outdates_the_older_one() {
    let mut app = mapped(3_000);
    app.execute_search("timeout");
    let first = app.submit_next_work().unwrap();
    let first_flag = app.search_cancel.clone().unwrap();
    let first_generation = app.search_generation;
    // The second search begins while the first batch is with the worker.
    app.execute_search("line 12");
    assert!(stop_requested(&first_flag));
    assert_ne!(app.search_generation, first_generation);
    assert!(app.search.matches.is_empty());

    let stale = handle_request(first).unwrap();
    match &stale {
        WorkResult::SearchBatch { generation, done, .. } => {
            assert_eq!(*generation, first_generation);
            assert!(!*done);
        }
        _ => panic!("no search batch"),
    }
    assert!(app.poll_worker(vec![stale]));
    assert!(app.search.matches.is_empty());
    assert!(app.searching());
    assert_eq!(app.search.search_cursor, 0);

    while serve(&mut app) {}
    assert!(!app.searching());
    let expected: Vec<usize> =
        (0..3_000).filter(|k| format!("line {} ", k).contains("line 12")).collect();
    assert_eq!(app.search.matches, expected);
    assert!(matches!(app.status, Some(StatusNote::SearchDone { .. })));

    // Whatever still comes back under the old number is dropped.
    let late = WorkResult::SearchBatch {
        matches: vec![1, 2, 3],
        cursor: 9,
        done: true,
        generation: first_generation,
    };
    assert!(app.poll_worker(vec![late]));
    assert_eq!(app.search.matches, expected);
}

#[test]
fn filter_runs_at_once_without_a_worker() {
    let mut app = buffered(12_000);
    app.scroll_to(500);
    app.apply_filter("error !timeout");
    assert!(app.filtering);
    assert_eq!(app.filter_conditions.len(), 2);
    assert_eq!(app.filter_highlight.as_ref().unwrap().as_str(), "(?i)error");
    assert_eq!(app.scroll_offset, 0);
    assert_eq!(app.filter_total, 12_000);
    assert!(matches!(app.status, Some(StatusNote::Filtering)));
    assert_eq!(app.visible_count(), 0);
    assert!(app.filter_tick());
    assert_eq!(app.filter_cursor, 10_000);
    assert!(matches!(
        app.status,
        Some(StatusNote::FilterProgress { percent: 83, matches: 1_000 })
    ));
    assert!(!app.filter_tick());
    assert!(!app.filtering);
    assert_eq!(app.filtered_lines.len(), 1_200);
    assert_eq!(app.filtered_lines[..3], [3, 13, 23]);
    assert!(matches!(app.status, Some(StatusNote::FilterDone { lines: 1_200 })));
    assert_eq!(app.visible_count(), 1_200);
    assert_eq!(app.actual_line(0), 3);
    assert_eq!(app.actual_line(2), 23);
    assert_eq!(app.actual_line(5_000), 0);
    assert_eq!(app.scroll_limit(), 1_180);
    assert!(!app.filter_tick());
}

#[test]
fn restarted_filter_holds_only_its_own_lines() {
    let mut app = mapped(3_000);
    app.apply_filter("timeout");
    let first = app.submit_next_work().unwrap();
    let first_flag = app.filter_cancel.clone().unwrap();
    let first_generation = app.filter_generation;
    app.clear_filter();
    assert!(stop_requested(&first_flag));
    assert_eq!(app.filter_generation, bump(first_generation));
    assert!(app.filter_conditions.is_empty());
    assert!(!app.filtering);
    assert!(matches!(app.status, Some(StatusNote::FilterCleared)));

    app.apply_filter("error !timeout");
    assert_ne!(app.filter_generation, first_generation);
    let stale = handle_request(first).unwrap();
    assert!(app.poll_worker(vec![stale]));
    assert!(app.filtered_lines.is_empty());
    assert!(app.filtering);

    while serve(&mut app) {}
    assert!(!app.filtering);
    let expected: Vec<usize> = (0..3_000).filter(|k| k % 10 == 3).collect();
    assert_eq!(app.filtered_lines, expected);
    assert!(matches!(app.status, Some(StatusNote::FilterDone { lines: 300 })));
}

#[test]
fn filter_without_terms_clears_the_filter() {
    let mut app = buffered(100);
    app.apply_filter("   ");
    assert!(matches!(app.status, Some(StatusNote::NoActiveFilter)));
    app.apply_filter("error");
    app.filter_tick();
    assert_eq!(app.visible_count(), 20);
    app.scroll_to(5);
    let generation = app.filter_generation;
    app.apply_filter("!");
    assert!(matches!(app.status, Some(StatusNote::FilterCleared)));
    assert!(app.filter_conditions.is_empty());
    assert!(app.filter_highlight.is_none());
    assert!(app.filtered_lines.is_empty());
    assert_eq!(app.scroll_offset, 0);
    assert_eq!(app.filter_generation, bump(generation));
    assert_eq!(app.visible_count(), 100);
    assert_eq!(app.actual_line(7), 7);
}

#[test]
fn refused_filter_changes_nothing_but_the_note() {
    let mut app = buffered(100);
    app.apply_filter("error");
    app.filter_tick();
    let lines = app.filtered_lines.clone();
    let generation = app.filter_generation;
    app.viewport_height = 5;
    app.scroll_to(3);
    app.apply_filter(&"(".repeat(2_000_000));
    assert!(matches!(app.status, Some(StatusNote::InvalidPattern { .. })));
    assert_eq!(app.filtered_lines, lines);
    assert_eq!(app.filter_generation, generation);
    assert_eq!(app.filter_conditions.len(), 1);
    assert_eq!(app.scroll_offset, 3);
}

fn kind(request: &WorkRequest) -> &'static str {
    match request {
        WorkRequest::ScanBatch { .. } => "scan",
        WorkRequest::DeferredParseBatch { .. } => "parse",
        WorkRequest::SearchBatch { .. } => "search",
        WorkRequest::FilterBatch { .. } => "filter",
        WorkRequest::Quit => "quit",
    }
}

#[test]
fn work_is_taken_up_in_order_of_priority() {
    let mut data = numbered(50_000);
    for k in 50_000..60_000 {
        data.extend_from_slice(format!("line {} ok\n", k).as_bytes());
    }
    let mut app = Engine::new(LogSource::from_mapping(mapping(&data)));
    assert!(app.is_scanning());
    assert!(!app.indexing_ready());
    app.apply_filter("error");
    app.execute_search("line");

    let mut order = Vec::new();
    loop {
        let request = match app.submit_next_work() {
            Some(request) => request,
            None => break,
        };
        order.push(kind(&request));
        // At most one request is under way.
        assert!(app.worker_busy);
        assert!(app.submit_next_work().is_none());
        let result = handle_request(request).unwrap();
        app.poll_worker(vec![result]);
        assert!(order.len() < 100);
    }
    // The search and the filter cover the 50,000 lines there were when they
    // began; then the file is scanned to its end, and then read.
    assert_eq!(
        order,
        vec![
            "search", "filter", "scan", "scan", "parse", "parse", "parse", "parse", "parse",
            "parse"
        ]
    );
    assert!(!app.searching());
    assert!(!app.filtering);
    assert!(!app.is_scanning());
    assert!(app.indexing_ready());
    assert_eq!(app.total_lines(), 60_000);
    assert_eq!(app.search.matches.len(), 50_000);
    assert_eq!(app.filtered_lines.len(), 10_000);
    assert_eq!(
        *app.source.index().level_counts(),
        LevelCounts { error: 10_000, warn: 0, info: 0, debug: 0, trace: 0 }
    );
    assert!(app.submit_next_work().is_none());
}

#[test]
fn requests_carry_what_the_worker_needs() {
    let mut app = mapped(60_000);
    match app.submit_next_work().unwrap() {
        WorkRequest::ScanBatch { start_byte, scan_limit, max_lines, .. } => {
            assert_eq!(Some((start_byte, scan_limit)), app.source.scan_progress());
            assert_eq!(max_lines, 50_000);
        }
        _ => panic!("no scan"),
    }
    app.worker_busy = false;
    app.execute_regex_search("x+");
    app.search.search_cursor = 17;
    match app.submit_next_work().unwrap() {
        WorkRequest::SearchBatch {
            regex, line_offsets, data_len, start_line, batch_size, generation, cancel, ..
        } => {
            assert_eq!(regex.as_str(), "x+");
            assert_eq!(&*line_offsets, app.source.index().line_offsets());
            assert_eq!(data_len, app.source.data().len());
            assert_eq!(start_line, 17);
            assert_eq!(batch_size, 50_000);
            assert_eq!(generation, app.search_generation);
            assert!(Arc::ptr_eq(&cancel, app.search_cancel.as_ref().unwrap()));
        }
        _ => panic!("no search"),
    }
    app.worker_busy = false;
    app.cancel_search();
    app.apply_filter("a !b");
    match app.submit_next_work().unwrap() {
        WorkRequest::FilterBatch { conditions, start_line, batch_size, generation, .. } => {
            assert_eq!(conditions.len(), 2);
            assert_eq!(conditions[0].0.as_str(), "(?i)a");
            assert!(!conditions[0].1);
            assert!(conditions[1].1);
            assert_eq!(start_line, 0);
            assert_eq!(batch_size, 50_000);
            assert_eq!(generation, app.filter_generation);
        }
        _ => panic!("no filter"),
    }
}

#[test]
fn parse_requests_cover_the_next_lines() {
    let mut app = mapped(25_000);
    while app.is_scanning() {
        assert!(serve(&mut app));
    }
    match app.submit_next_work().unwrap() {
        WorkRequest::DeferredParseBatch { offsets, start_index, last_ts, .. } => {
            assert_eq!(start_index, 0);
            assert_eq!(offsets[..], app.source.index().line_offsets()[..10_000]);
            assert_eq!(last_ts, None);
        }
        _ => panic!("no parse"),
    }
    app.worker_busy = false;
    assert!(serve(&mut app));
    assert!(serve(&mut app));
    assert_eq!(app.source.index().parse_cursor(), 20_000);
    match app.submit_next_work().unwrap() {
        WorkRequest::DeferredParseBatch { offsets, start_index, .. } => {
            assert_eq!(start_index, 20_000);
            assert_eq!(offsets.len(), 5_000);
        }
        _ => panic!("no parse"),
    }
}

#[test]
fn results_that_do_not_fit_are_dropped() {
    let mut app = mapped(100);
    let total = app.total_lines();
    let broken = WorkResult::ScanChunk {
        chunk: loghew::log::index::IndexChunk {
            line_offsets: vec![5000],
            timestamps: vec![],
            levels: vec![],
            is_entry_start: vec![],
        },
        next_offset: 6000,
    };
    app.worker_busy = true;
    assert!(app.poll_worker(vec![broken]));
    assert!(!app.worker_busy);
    assert_eq!(app.total_lines(), total);

    let misplaced = WorkResult::DeferredParsed {
        start_index: 3,
        timestamps: vec![None],
        levels: vec![LogLevel::Error],
        is_entry_start: vec![true],
        level_counts_delta: LevelCounts { error: 1, warn: 0, info: 0, debug: 0, trace: 0 },
        last_parsed_ts: None,
    };
    let counts = *app.source.index().level_counts();
    assert_eq!(counts, LevelCounts { error: 20, warn: 0, info: 0, debug: 0, trace: 0 });
    assert!(app.poll_worker(vec![misplaced]));
    assert_eq!(app.source.index().parse_cursor(), 0);
    assert_eq!(*app.source.index().level_counts(), counts);
    assert!(!app.poll_worker(vec![]));
}

#[test]
fn scan_results_settle_the_view() {
    let data = numbered(120_000);
    let mut app = Engine::new(LogSource::from_mapping(mapping(&data)));
    app.jump_to_bottom();
    assert!(app.tail_wanted);
    assert!(!app.in_tail_mode());
    assert_eq!(app.tail_lines_wanted(), 40);
    let (lines, levels): (Vec<String>, Vec<LogLevel>) =
        app.source.scan_tail(app.tail_lines_wanted()).into_iter().unzip();
    app.show_tail(lines, levels);
    assert!(app.in_tail_mode());
    assert!(!app.tail_wanted);
    assert_eq!(app.tail_view.as_ref().unwrap().lines.len(), 40);
    assert_eq!(app.tail_view.as_ref().unwrap().lines[39], "line 119999 ok");

    app.follow_mode = true;
    assert!(serve(&mut app));
    // Still scanning: a view that follows asks for the tail anew.
    assert!(app.is_scanning());
    assert!(app.tail_wanted);
    assert!(app.status.is_none());
    while app.is_scanning() {
        assert!(serve(&mut app));
    }
    // Scanning has ended: the tail view gives way to the indexed lines.
    assert!(!app.in_tail_mode());
    assert_eq!(app.total_lines(), 120_000);
    assert_eq!(app.scroll_offset, 120_000 - 20);

    let mut plain = Engine::new(LogSource::from_buffer(numbered(50)));
    plain.jump_to_bottom();
    assert!(!plain.tail_wanted);
    assert_eq!(plain.scroll_offset, 30);
}

#[test]
fn leaving_the_tail_view() {
    let mut app = mapped(100);
    app.show_tail(vec!["x".to_string()], vec![LogLevel::Unknown]);
    app.scroll_up(3);
    assert!(!app.in_tail_mode());
    assert_eq!(app.scroll_offset, 80);
    app.show_tail(vec![], vec![]);
    app.exit_tail_mode();
    assert!(!app.in_tail_mode());
}

#[test]
fn sync_steps_follow_the_same_order() {
    let mut app = Engine::new(LogSource::from_buffer(numbered(100)));
    assert!(!app.indexing_ready());
    app.apply_filter("error");
    app.execute_search("timeout");
    app.submit_sync_work();
    assert!(!app.searching());
    assert!(app.filtering);
    app.submit_sync_work();
    assert!(!app.filtering);
    assert!(!app.indexing_ready());
    app.submit_sync_work();
    assert!(app.indexing_ready());
    app.submit_sync_work();
    assert_eq!(app.search.matches.len(), 10);
    assert_eq!(app.filtered_lines.len(), 20);
}

#[test]
fn scan_chunks_go_into_the_index() {
    let data = numbered(60_000);
    let mut app = Engine::new(LogSource::from_mapping(mapping(&data)));
    let from = app.source.scan_progress().unwrap().0;
    let chunk = build_index_chunk(&data, from, 50_000, &None, true);
    let next = next_scan_offset(&chunk, data.len() as u64);
    app.poll_worker(vec![WorkResult::ScanChunk { chunk, next_offset: next }]);
    assert_eq!(app.total_lines(), 60_000);
    assert!(app.is_scanning());
    app.scan_tick();
    assert!(!app.is_scanning());
    assert!(app.parse_deferred_batch());
    assert_eq!(app.source.index().parse_cursor(), 10_000);
}

#[test]
fn what_comes_back_for_a_search_that_was_ended_is_dropped() {
    let mut app = mapped(3_000);
    app.execute_search("error");
    let first = app.submit_next_work().unwrap();
    app.cancel_search();
    app.status = None;
    let stale = handle_request(first).unwrap();
    match &stale {
        WorkResult::SearchBatch { cursor, done, .. } => {
            assert_eq!(*cursor, 0);
            assert!(!*done);
        }
        _ => panic!("no search batch"),
    }
    assert!(app.poll_worker(vec![stale]));
    assert!(!app.worker_busy);
    assert!(app.search.matches.is_empty());
    assert_eq!(app.search.search_cursor, 0);
    assert!(!app.searching());
    assert!(app.status.is_none());
}

#[test]
fn what_comes_back_for_a_filter_that_was_cleared_is_dropped() {
    let mut app = mapped(3_000);
    app.apply_filter("error");
    let first = app.submit_next_work().unwrap();
    app.clear_filter();
    let stale = handle_request(first).unwrap();
    assert!(app.poll_worker(vec![stale]));
    assert!(app.filtered_lines.is_empty());
    assert!(!app.filtering);
    assert!(matches!(app.status, Some(StatusNote::FilterCleared)));
}

#[test]
fn a_run_keeps_the_line_starts_it_began_with() {
    let mut app = mapped(100);
    app.execute_search("error");
    let kept = app.shared_offsets.clone().unwrap();
    assert_eq!(&*kept, app.source.index().line_offsets());
    app.apply_filter("ok");
    let kept = app.shared_offsets.clone().unwrap();
    assert_eq!(&*kept, app.source.index().line_offsets());
    let mut plain = buffered(100);
    plain.execute_search("error");
    plain.apply_filter("ok");
    assert!(plain.shared_offsets.is_none());
    assert!(plain.search_cancel.is_none());
    assert!(plain.filter_cancel.is_none());
}

#[test]
fn a_filter_run_lets_through_what_meets_every_condition() {
    for step in [1usize, 2, 3] {
        let mut app = buffered(10_000 * step + 7);
        app.apply_filter("error !timeout");
        let mut ticks = 0;
        while app.filter_tick() {
            ticks += 1;
        }
        assert_eq!(ticks, step);
        let total = app.total_lines();
        let expected: Vec<usize> = (0..total).filter(|k| k % 10 == 3).collect();
        assert_eq!(app.filtered_lines, expected);
        assert!(!app.filtering);
    }
}
