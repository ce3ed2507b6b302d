use loghew::app::select::{digit_count, log_entry_range};
use loghew::app::typing::{find_suggestions, same_text, slash_command, starts_with};
use loghew::app::commands::{
    find_bookmark, find_bookmark_named, find_bookmark_place, first_timestamp, make_preview_label,
    move_moment, parse_moment,
};
use loghew::app::{App, InputMode, TextPos, SLASH_COMMAND_COUNT};
use loghew::config::{Config, ConfigFile};
use loghew::engine::StatusNote;
use loghew::log::reader::LogSource;

const TS1: i64 = 1705329121000;

fn sample() -> Vec<u8> {
    let mut data = Vec::new();
    data.extend_from_slice(b"2024-01-15 14:32:01 ERROR first\n");
    data.extend_from_slice(b"    at frame one\n");
    data.extend_from_slice(b"    at frame two\n");
    data.extend_from_slice(b"2024-01-15 14:32:02 WARN second\n");
    data.extend_from_slice(b"2024-01-15 14:33:01 INFO third \xc3\xa9t\xc3\xa9\n");
    data.extend_from_slice(b"    more of third\n");
    data.extend_from_slice(b"2024-01-15 15:32:01 DEBUG fourth\n");
    data
}

fn app_of(data: Vec<u8>) -> App {
    let config = Config::from_file(ConfigFile::default(), true);
    let mut app = App::new(LogSource::from_buffer(data), "sample.log".to_string(), config);
    app.engine.viewport_height = 3;
    app
}

fn app() -> App {
    app_of(sample())
}

fn type_text(app: &mut App, text: &str) {
    for ch in text.chars() {
        app.type_char(ch);
    }
}

fn enter(app: &mut App, text: &str) {
    type_text(app, text);
    app.submit_input();
}

#[test]
fn new_app_is_idle() {
    let app = app();
    assert_eq!(app.filename, "sample.log");
    assert_eq!(app.total_lines(), 7);
    assert_eq!(app.visible_count(), 7);
    assert_eq!(app.input.mode, InputMode::Idle);
    assert_eq!(app.input.text, "");
    assert!(app.selection.lines.is_empty());
    assert!(app.bookmarks.list.is_empty());
    assert!(!app.should_quit);
    assert!(!app.wrap.on);
    assert!(app.semantic_color);
    assert!(app.highlight_regex().is_none());
    assert!(!app.has_active_search());
}

#[test]
fn typing_edits_the_input_line() {
    let mut app = app();
    app.engine.status = Some(StatusNote::Theme);
    type_text(&mut app, "h\u{e9}llo");
    assert_eq!(app.input.mode, InputMode::Typing);
    assert!(app.engine.status.is_none());
    assert_eq!(app.input.text, "h\u{e9}llo");
    assert_eq!(app.input.cursor, 6);
    assert_eq!(app.highlight_regex().unwrap().as_str(), "(?i)h\u{e9}llo");
    app.input_left();
    app.input_left();
    app.input_left();
    assert_eq!(app.input.cursor, 3);
    app.input_backspace();
    assert_eq!(app.input.text, "hllo");
    assert_eq!(app.input.cursor, 1);
    app.input_delete();
    assert_eq!(app.input.text, "hlo");
    app.input_home();
    assert_eq!(app.input.cursor, 0);
    app.input_backspace();
    assert_eq!(app.input.text, "hlo");
    app.input_end();
    assert_eq!(app.input.cursor, 3);
    app.input_delete();
    app.input_right();
    assert_eq!(app.input.cursor, 3);
    app.type_char('!');
    assert_eq!(app.input.text, "hlo!");
    assert_eq!(app.highlight_regex().unwrap().as_str(), r"(?i)hlo!");
    for _ in 0..4 {
        app.input_backspace();
    }
    assert_eq!(app.input.text, "");
    assert_eq!(app.input.mode, InputMode::Idle);
    assert!(app.highlight_regex().is_none());
}

#[test]
fn commands_are_suggested_while_typing() {
    assert_eq!(find_suggestions("/"), (0..SLASH_COMMAND_COUNT).collect::<Vec<usize>>());
    // Names that begin with what is typed come first, then names that
    // hold its letters in order.
    assert_eq!(find_suggestions("/f"), vec![1, 2, 7, 8, 12]);
    assert_eq!(find_suggestions("/bo"), vec![5, 6, 11]);
    assert_eq!(find_suggestions("/BOOKMARKS"), vec![6]);
    assert_eq!(find_suggestions("/q"), vec![16]);
    assert_eq!(find_suggestions("/zz"), Vec::<usize>::new());
    assert_eq!(find_suggestions("/go 5"), Vec::<usize>::new());
    assert_eq!(find_suggestions("go"), vec![4]);
    for i in 0..SLASH_COMMAND_COUNT {
        assert!(!slash_command(i).name.is_empty());
    }
    assert_eq!(slash_command(0).name, "regex");
    assert!(slash_command(0).has_arg);
    assert_eq!(slash_command(16).name, "quit");
    assert!(!slash_command(16).has_arg);
    assert!(starts_with(&['a', 'b', 'c'], &['a', 'b']));
    assert!(starts_with(&['a'], &[]));
    assert!(!starts_with(&['a'], &['a', 'b']));
    assert!(!starts_with(&['a', 'b'], &['b']));
    assert!(same_text("abc", "abc"));
    assert!(!same_text("abc", "abd"));
    assert!(!same_text("abc", "ab"));
}

#[test]
fn suggestions_follow_the_input() {
    let mut app = app();
    type_text(&mut app, "/");
    assert_eq!(app.suggest.commands.len(), SLASH_COMMAND_COUNT);
    assert_eq!(app.suggest.index, Some(0));
    assert!(app.highlight_regex().is_none());
    app.suggestion_prev();
    assert_eq!(app.suggest.index, Some(9));
    app.suggestion_next();
    assert_eq!(app.suggest.index, Some(0));
    app.type_char('b');
    assert_eq!(app.suggest.commands, vec![5, 6, 11]);
    app.suggestion_next();
    app.suggestion_next();
    assert_eq!(app.suggest.index, Some(2));
    app.suggestion_next();
    assert_eq!(app.suggest.index, Some(0));
    app.suggestion_prev();
    assert_eq!(app.suggest.index, Some(2));
    type_text(&mut app, "zz");
    assert!(app.suggest.commands.is_empty());
    assert_eq!(app.suggest.index, None);
    app.suggestion_next();
    assert_eq!(app.suggest.index, None);
    app.cancel_input();
    assert_eq!(app.input.text, "");
    assert_eq!(app.input.mode, InputMode::Idle);
}

#[test]
fn accepting_a_suggestion_fills_in_or_runs_the_command() {
    let mut app = app();
    type_text(&mut app, "/fi");
    assert_eq!(app.suggest.commands, vec![2, 8, 12]);
    app.accept_suggestion();
    assert_eq!(app.input.text, "/filter ");
    assert_eq!(app.input.cursor, 8);
    assert!(app.suggest.commands.is_empty());
    assert_eq!(app.input.mode, InputMode::Typing);

    let mut app = self::app();
    type_text(&mut app, "/q");
    app.accept_suggestion();
    assert!(app.should_quit);
    assert_eq!(app.input.text, "");
    assert_eq!(app.input.history, vec!["/quit"]);

    let mut app = self::app();
    app.accept_suggestion();
    assert_eq!(app.input.text, "");
}

#[test]
fn entering_text_searches_for_it() {
    let mut app = app();
    enter(&mut app, "  frame  ");
    assert_eq!(app.input.text, "");
    assert_eq!(app.input.mode, InputMode::Idle);
    assert_eq!(app.input.history, vec!["frame"]);
    assert!(app.searching());
    assert!(app.has_active_search());
    assert_eq!(app.engine.search.pattern, "frame");
    assert!(!app.search_tick());
    assert_eq!(app.engine.search.matches, vec![1, 2]);
    assert_eq!(app.engine.scroll_offset, 1);
    assert_eq!(app.highlight_regex().unwrap().as_str(), "(?i)frame");
    app.next_match();
    assert_eq!(app.engine.search.current_match, Some(1));
    assert_eq!(app.engine.scroll_offset, 2);
    app.next_match();
    assert_eq!(app.engine.search.current_match, Some(0));
    app.prev_match();
    assert_eq!(app.engine.search.current_match, Some(1));

    enter(&mut app, "   ");
    assert_eq!(app.input.history, vec!["frame"]);
    assert_eq!(app.input.text, "   ");
    app.cancel_input();
    assert!(!app.has_active_search());
    assert!(app.engine.search.matches.is_empty());
}

#[test]
fn history_keeps_the_last_hundred_entries() {
    let mut app = app();
    enter(&mut app, "one");
    enter(&mut app, "one");
    enter(&mut app, "two");
    enter(&mut app, "one");
    assert_eq!(app.input.history, vec!["one", "two", "one"]);
    for k in 0..120 {
        enter(&mut app, &format!("entry {}", k));
    }
    assert_eq!(app.input.history.len(), 100);
    assert_eq!(app.input.history[0], "entry 20");
    assert_eq!(app.input.history[99], "entry 119");
}

#[test]
fn commands_switch_what_is_shown() {
    let mut app = app();
    enter(&mut app, "/help");
    assert!(app.show_help);
    enter(&mut app, "/help");
    assert!(!app.show_help);
    enter(&mut app, "/c");
    assert!(!app.semantic_color);
    assert!(matches!(app.engine.status, Some(StatusNote::SemanticColor { on: false })));
    enter(&mut app, "/wrap");
    assert!(app.wrap.on);
    assert!(matches!(app.engine.status, Some(StatusNote::LineWrap { on: true })));
    enter(&mut app, "/d");
    assert!(app.show_delta);
    assert!(matches!(app.engine.status, Some(StatusNote::TimeDeltas { on: true })));
    enter(&mut app, "/config");
    assert!(app.settings.show);
    enter(&mut app, "/theme");
    assert!(matches!(app.engine.status, Some(StatusNote::Theme)));
    enter(&mut app, "/frobnicate now");
    match &app.engine.status {
        Some(StatusNote::UnknownCommand { name }) => assert_eq!(name, "frobnicate"),
        _ => panic!("no note"),
    }
    assert!(app.engine.status.as_ref().unwrap().is_error());
    assert!(!app.should_quit);
    enter(&mut app, "/x");
    assert!(app.should_quit);
}

#[test]
fn commands_move_the_view() {
    let mut app = app();
    enter(&mut app, "/bottom");
    assert_eq!(app.engine.scroll_offset, 4);
    enter(&mut app, "/top");
    assert_eq!(app.engine.scroll_offset, 0);
    enter(&mut app, "/g 3");
    assert_eq!(app.engine.scroll_offset, 2);
    assert!(matches!(app.engine.status, Some(StatusNote::JumpedToLine { number: 3 })));
    enter(&mut app, "/go 500");
    assert_eq!(app.engine.scroll_offset, 4);
    assert!(matches!(app.engine.status, Some(StatusNote::JumpedToLine { number: 7 })));
    enter(&mut app, "/go");
    assert!(matches!(app.engine.status, Some(StatusNote::GoUsage)));
    enter(&mut app, "/go nowhere");
    match &app.engine.status {
        Some(StatusNote::NoSuchBookmark { name }) => assert_eq!(name, "nowhere"),
        _ => panic!("no note"),
    }
    enter(&mut app, "/follow");
    assert!(app.engine.follow_mode);
    assert!(app.engine.status.is_none());
    assert_eq!(app.engine.scroll_offset, 4);
    enter(&mut app, "/f");
    assert!(!app.engine.follow_mode);
    assert!(matches!(app.engine.status, Some(StatusNote::FollowOff)));
}

#[test]
fn commands_search_and_filter() {
    let mut app = app();
    enter(&mut app, "/r fr.me (one|two)");
    assert!(app.searching());
    app.search_tick();
    assert_eq!(app.engine.search.matches, vec![1, 2]);
    enter(&mut app, "/regex");
    assert_eq!(app.engine.search.matches, vec![1, 2]);
    enter(&mut app, "/r (unclosed");
    assert!(app.engine.search.error.is_some());

    enter(&mut app, "/filter third !more");
    assert!(app.engine.filtering);
    assert!(!app.filter_tick());
    assert_eq!(app.engine.filtered_lines, vec![4]);
    assert_eq!(app.visible_count(), 1);
    assert_eq!(app.actual_line(0), 4);
    enter(&mut app, "/fi");
    assert!(matches!(app.engine.status, Some(StatusNote::FilterCleared)));
    assert_eq!(app.visible_count(), 7);
    enter(&mut app, "/only-show");
    assert!(matches!(app.engine.status, Some(StatusNote::NoActiveFilter)));
}

#[test]
fn bookmarks_are_kept_in_the_order_of_their_lines() {
    let mut app = app();
    app.scroll_to(3);
    enter(&mut app, "/b");
    assert_eq!(app.bookmarks.list, vec![(3, "L4: 2024-01-15 14:32:02 WARN secon".to_string())]);
    match &app.engine.status {
        Some(StatusNote::Bookmarked { label }) => assert_eq!(label, &app.bookmarks.list[0].1),
        _ => panic!("no note"),
    }
    app.scroll_to(1);
    enter(&mut app, "/bookmark stack");
    app.scroll_to(4);
    enter(&mut app, "/bm late");
    assert_eq!(
        app.bookmarks.list.iter().map(|b| b.0).collect::<Vec<usize>>(),
        vec![1, 3, 4]
    );
    assert!(app.is_bookmarked(1) && app.is_bookmarked(3) && app.is_bookmarked(4));
    assert!(!app.is_bookmarked(0) && !app.is_bookmarked(2));
    enter(&mut app, "/b 42");
    assert!(matches!(app.engine.status, Some(StatusNote::BookmarkNameIsNumber)));
    assert_eq!(app.bookmarks.list.len(), 3);

    app.scroll_to_top();
    enter(&mut app, "/g late");
    assert_eq!(app.engine.scroll_offset, 4);
    match &app.engine.status {
        Some(StatusNote::JumpedToBookmark { label }) => assert_eq!(label, "late"),
        _ => panic!("no note"),
    }
    // Asking for a bookmark on a marked line takes the bookmark off.
    enter(&mut app, "/b again");
    assert!(matches!(app.engine.status, Some(StatusNote::BookmarkRemoved { number: 5 })));
    assert_eq!(app.bookmarks.list.len(), 2);
    // A selected line is marked rather than the top of the view.
    app.click_line(2);
    assert_eq!(app.selection.lines.to_vec(), vec![6]);
    enter(&mut app, "/b picked");
    assert_eq!(app.bookmarks.list.last().unwrap(), &(6, "picked".to_string()));
}

#[test]
fn bookmark_helpers() {
    let list = vec![(2, "a".to_string()), (5, "b".to_string()), (9, "a".to_string())];
    assert_eq!(find_bookmark(&list, 5), 1);
    assert_eq!(find_bookmark(&list, 4), 3);
    assert_eq!(find_bookmark_place(&list, 0), 0);
    assert_eq!(find_bookmark_place(&list, 4), 1);
    assert_eq!(find_bookmark_place(&list, 5), 2);
    assert_eq!(find_bookmark_place(&list, 100), 3);
    assert_eq!(find_bookmark_named(&list, "a"), 0);
    assert_eq!(find_bookmark_named(&list, "b"), 1);
    assert_eq!(find_bookmark_named(&list, "c"), 3);
    assert_eq!(make_preview_label(0, "short"), "L1: short");
    assert_eq!(make_preview_label(41, ""), "L42: ");
    assert_eq!(
        make_preview_label(9, "0123456789012345678901234567890123456789"),
        "L10: 012345678901234567890123456789"
    );
    assert_eq!(make_preview_label(1, "\u{e9}\u{e9}"), "L2: \u{e9}\u{e9}");
}

#[test]
fn bookmark_panel_moves_and_deletes() {
    let mut app = app();
    app.open_bookmarks();
    assert!(!app.bookmarks.show);
    assert!(matches!(app.engine.status, Some(StatusNote::NoBookmarks)));
    for line in [0usize, 3, 6] {
        app.scroll_to(line);
        app.engine.scroll_offset = line;
        app.add_bookmark(&format!("mark{}", line));
    }
    enter(&mut app, "/bs");
    assert!(app.bookmarks.show);
    assert_eq!(app.bookmarks.cursor, 0);
    app.bookmark_up();
    assert_eq!(app.bookmarks.cursor, 0);
    app.bookmark_down();
    app.bookmark_down();
    app.bookmark_down();
    assert_eq!(app.bookmarks.cursor, 2);
    app.bookmark_delete_selected();
    assert_eq!(app.bookmarks.list.len(), 2);
    assert_eq!(app.bookmarks.cursor, 1);
    app.engine.scroll_offset = 0;
    app.bookmark_select();
    assert!(!app.bookmarks.show);
    assert_eq!(app.engine.scroll_offset, 3);
    app.bookmarks.show = true;
    app.bookmark_delete_selected();
    assert_eq!(app.bookmarks.cursor, 0);
    app.bookmark_delete_selected();
    assert!(app.bookmarks.list.is_empty());
    assert!(!app.bookmarks.show);
    app.bookmark_delete_selected();
    app.bookmark_select();
    app.bookmark_down();
    assert_eq!(app.bookmarks.cursor, 0);
}

#[test]
fn notifications_are_watched_for_and_listed() {
    let mut app = app();
    enter(&mut app, "/ns");
    assert!(matches!(app.engine.status, Some(StatusNote::NoNotifications)));
    enter(&mut app, "/n");
    assert!(!app.notifications.show);
    enter(&mut app, "/notify Out.Of(Memory");
    enter(&mut app, "/n panic");
    assert_eq!(app.notifications.entries.len(), 2);
    assert_eq!(app.notifications.entries[0].pattern, "Out.Of(Memory");
    assert_eq!(app.notifications.entries[0].regex.as_str(), r"(?i)Out\.Of\(Memory");
    assert!(app.notifications.entries[1].regex.is_match("kernel PANIC"));
    match &app.engine.status {
        Some(StatusNote::NotifyAdded { pattern }) => assert_eq!(pattern, "panic"),
        _ => panic!("no note"),
    }
    enter(&mut app, "/notifications");
    assert!(app.notifications.show);
    app.notification_down();
    app.notification_down();
    assert_eq!(app.notifications.cursor, 1);
    app.notification_up();
    app.notification_up();
    assert_eq!(app.notifications.cursor, 0);
    app.engine.status = None;
    app.notification_delete_selected();
    assert_eq!(app.notifications.entries.len(), 1);
    assert!(app.engine.status.is_none());
    assert!(app.notifications.show);
    app.notification_delete_selected();
    assert!(!app.notifications.show);
    match &app.engine.status {
        Some(StatusNote::NotificationRemoved { pattern }) => assert_eq!(pattern, "panic"),
        _ => panic!("no note"),
    }
    app.notification_delete_selected();
}

#[test]
fn settings_panel_changes_the_settings() {
    let mut app = app();
    assert_eq!(app.config_value(0), "default");
    assert_eq!(app.config_value(1), "ON");
    assert_eq!(app.config_value(2), "ON");
    assert_eq!(app.config_value(3), "3");
    assert_eq!(app.config_value(4), "OFF");
    assert_eq!(app.config_value(5), "ON");
    assert_eq!(app.config_value(6), "");
    app.config_up();
    assert_eq!(app.settings.cursor, 0);
    app.config_toggle();
    assert_eq!(app.config_value(0), "dracula");
    app.config_decrease();
    app.config_decrease();
    assert_eq!(app.config_value(0), "tokyo night");
    for _ in 0..3 {
        app.config_down();
    }
    app.config_toggle();
    assert_eq!(app.config_value(3), "4");
    app.config_decrease();
    app.config_decrease();
    assert_eq!(app.config_value(3), "2");
    app.config_down();
    app.config_toggle();
    assert!(app.wrap.on);
    assert_eq!(app.config_value(4), "ON");
    app.config_decrease();
    assert!(app.wrap.on);
    app.config_down();
    app.config_down();
    app.config_down();
    assert_eq!(app.settings.cursor, 5);
    app.config_toggle();
    assert!(!app.semantic_color);
    assert_eq!(
        app.config_text(),
        "[general]\ntheme = \"tokyo night\"\nscroll_speed = 2\nline_numbers = true\nmouse = true\nwrap = true\nsemantic_color = false\n"
    );
}

#[test]
fn time_commands_go_to_a_moment() {
    let mut app = app();
    enter(&mut app, "/t 14:33");
    assert_eq!(app.engine.scroll_offset, 4);
    match &app.engine.status {
        Some(StatusNote::JumpedToTime { input }) => assert_eq!(input, "14:33"),
        _ => panic!("no note"),
    }
    enter(&mut app, "/time 14:32:02");
    assert_eq!(app.engine.scroll_offset, 3);
    enter(&mut app, "/t 2024-01-15 15:00");
    assert_eq!(app.engine.scroll_offset, 4);
    enter(&mut app, "/t 2024-01-15 14:32:01");
    assert_eq!(app.engine.scroll_offset, 0);
    enter(&mut app, "/t 2030-01-01 00:00:00");
    assert_eq!(app.engine.scroll_offset, 4);
    enter(&mut app, "/t half past two");
    match &app.engine.status {
        Some(StatusNote::CannotParseTime { input }) => assert_eq!(input, "half past two"),
        _ => panic!("no note"),
    }
    enter(&mut app, "/t");
    assert!(matches!(app.engine.status, Some(StatusNote::TimeUsage)));

    app.scroll_to_top();
    enter(&mut app, "/t +1m");
    assert_eq!(app.engine.scroll_offset, 4);
    match &app.engine.status {
        Some(StatusNote::JumpedBy { input }) => assert_eq!(input, "+1m"),
        _ => panic!("no note"),
    }
    enter(&mut app, "/t -59s");
    assert_eq!(app.engine.scroll_offset, 3);
    enter(&mut app, "/t -1h");
    assert_eq!(app.engine.scroll_offset, 0);
    enter(&mut app, "/t +5");
    assert!(matches!(app.engine.status, Some(StatusNote::OffsetNeedsUnit)));
    enter(&mut app, "/t +xm");
    assert!(matches!(app.engine.status, Some(StatusNote::InvalidOffset { .. })));

    let mut plain = app_of(b"no\ntimestamps\nhere\n".to_vec());
    enter(&mut plain, "/t 14:30");
    assert!(matches!(plain.engine.status, Some(StatusNote::NoTimestamps)));
}

#[test]
fn moments_are_read_and_moved() {
    let day = 1705276800000;
    assert_eq!(parse_moment("14:32:01", TS1), Some(TS1));
    assert_eq!(parse_moment("00:00", TS1), Some(day));
    assert_eq!(parse_moment("14:32", 0), Some((14 * 3600 + 32 * 60) * 1000));
    assert_eq!(parse_moment("2024-01-15 14:32:01", 0), Some(TS1));
    assert_eq!(parse_moment("2024-01-15 14:32", 0), Some(TS1 - 1000));
    assert_eq!(parse_moment("25:00", TS1), None);
    assert_eq!(parse_moment("", TS1), None);
    assert_eq!(move_moment(10, -3), 7);
    assert_eq!(move_moment(i64::MAX, 1), i64::MAX);
    assert_eq!(move_moment(i64::MIN, -1), i64::MIN);
    assert_eq!(first_timestamp(&[None, None, Some(5), Some(9)]), 5);
    assert_eq!(first_timestamp(&[None]), 0);
    assert_eq!(first_timestamp(&[]), 0);
}

#[test]
fn clicks_select_lines() {
    let mut app = app();
    app.click_line(1);
    assert_eq!(app.selection.lines.to_vec(), vec![1]);
    assert_eq!(app.selection.anchor, Some(1));
    app.click_line(1);
    assert!(app.selection.lines.is_empty());
    assert_eq!(app.selection.anchor, None);
    app.click_line(2);
    app.ctrl_click_line(0);
    assert_eq!(app.selection.lines.to_vec(), vec![0, 2]);
    assert_eq!(app.selection.anchor, Some(0));
    app.ctrl_click_line(2);
    assert_eq!(app.selection.lines.to_vec(), vec![0]);
    assert_eq!(app.selection.anchor, Some(2));
    app.scroll_to(4);
    app.shift_click_line(1);
    assert_eq!(app.selection.lines.to_vec(), vec![2, 3, 4, 5]);
    assert_eq!(app.selection.anchor, Some(2));
    app.shift_click_line(200);
    assert_eq!(app.selection.lines.to_vec(), vec![2, 3, 4, 5]);
    app.scroll_to_top();
    app.shift_click_line(0);
    assert_eq!(app.selection.lines.to_vec(), vec![0, 1, 2]);
    assert_eq!(
        app.copy_selection().unwrap(),
        "2024-01-15 14:32:01 ERROR first\n    at frame one\n    at frame two"
    );
    assert_eq!(app.selected_text(), app.copy_selection());
    app.clear_selection();
    assert!(app.copy_selection().is_none());
    assert!(app.selected_text().is_none());
    // A row behind the last line selects nothing.
    app.scroll_to(4);
    app.click_line(5);
    assert!(app.selection.lines.is_empty());
}

#[test]
fn double_click_selects_the_entry() {
    let mut app = app();
    app.double_click_line(1);
    assert_eq!(app.selection.lines.to_vec(), vec![0, 1, 2]);
    assert_eq!(app.selection.anchor, Some(0));
    app.double_click_line(0);
    assert_eq!(app.selection.lines.to_vec(), vec![0, 1, 2]);
    app.scroll_to(3);
    app.double_click_line(0);
    assert_eq!(app.selection.lines.to_vec(), vec![3]);
    app.double_click_line(2);
    assert_eq!(app.selection.lines.to_vec(), vec![4, 5]);
    let index = app.engine.source.index();
    assert_eq!(log_entry_range(index, 2), (0, 2));
    assert_eq!(log_entry_range(index, 3), (3, 3));
    assert_eq!(log_entry_range(index, 5), (4, 5));
    assert_eq!(log_entry_range(index, 6), (6, 6));
    assert_eq!(log_entry_range(index, 60), (60, 60));

    let plain = app_of(b"a\n  b\n".to_vec());
    assert_eq!(log_entry_range(plain.engine.source.index(), 1), (1, 1));
}

#[test]
fn clicks_follow_the_filter_and_the_wrap_layout() {
    let mut app = app();
    app.engine.apply_filter("frame");
    app.filter_tick();
    assert_eq!(app.engine.filtered_lines, vec![1, 2]);
    assert_eq!(app.visible_idx_for_row(1), 1);
    app.click_line(1);
    assert_eq!(app.selection.lines.to_vec(), vec![2]);
    app.engine.clear_filter();
    app.wrap.on = true;
    app.wrap.row_map = vec![0, 0, 1, 2];
    app.wrap.char_offsets = vec![0, 20, 0, 0];
    assert_eq!(app.visible_idx_for_row(1), 0);
    assert_eq!(app.visible_idx_for_row(3), 2);
    assert_eq!(app.visible_idx_for_row(9), 0);
    app.click_line(2);
    assert_eq!(app.selection.lines.to_vec(), vec![1]);
    assert_eq!(
        app.terminal_to_text_pos(1, 10),
        Some(TextPos { line: 0, col: 25 })
    );
    app.wrap.on = false;
    app.engine.scroll_offset = usize::MAX;
    assert_eq!(app.visible_idx_for_row(3), usize::MAX);
}

#[test]
fn text_is_selected_by_dragging() {
    let mut app = app();
    // One column for the mark, one for the line number, three for the
    // separator.
    assert_eq!(app.content_col_offset(), 5);
    app.show_delta = true;
    assert_eq!(app.content_col_offset(), 14);
    app.show_delta = false;
    app.settings.config.line_numbers = false;
    assert_eq!(app.content_col_offset(), 4);
    app.settings.config.line_numbers = true;
    assert_eq!(app.terminal_to_text_pos(0, 5), Some(TextPos { line: 0, col: 0 }));
    assert_eq!(app.terminal_to_text_pos(0, 0), Some(TextPos { line: 0, col: 0 }));
    assert_eq!(app.terminal_to_text_pos(1, 9), Some(TextPos { line: 1, col: 4 }));
    assert_eq!(app.terminal_to_text_pos(1, 900), Some(TextPos { line: 1, col: 16 }));
    assert_eq!(app.terminal_to_text_pos(7, 5), None);

    app.click_line(0);
    app.update_drag(1, 9);
    assert!(app.selection.text.is_none());
    app.start_drag(0, 25);
    app.update_drag(0, 25);
    assert!(app.selection.text.is_none());
    app.update_drag(0, 30);
    assert_eq!(
        app.selection.text,
        Some((TextPos { line: 0, col: 20 }, TextPos { line: 0, col: 25 }))
    );
    assert!(app.selection.lines.is_empty());
    assert_eq!(app.selected_text().unwrap(), "ERROR");
    assert_eq!(app.line_text_selection(0), Some((20, 25)));
    assert_eq!(app.line_text_selection(1), None);
    // Dragging back over the origin puts the two places in order.
    app.update_drag(2, 7);
    assert_eq!(
        app.selection.text,
        Some((TextPos { line: 0, col: 20 }, TextPos { line: 2, col: 2 }))
    );
    assert_eq!(app.selected_text().unwrap(), "ERROR first\n    at frame one\n  ");
    assert_eq!(app.line_text_selection(0), Some((20, 31)));
    assert_eq!(app.line_text_selection(1), Some((0, 16)));
    assert_eq!(app.line_text_selection(2), Some((0, 2)));
    app.start_drag(2, 9);
    app.update_drag(0, 5);
    assert_eq!(
        app.selection.text,
        Some((TextPos { line: 0, col: 0 }, TextPos { line: 2, col: 4 }))
    );
    app.update_drag(7, 5);
    assert_eq!(
        app.selection.text,
        Some((TextPos { line: 0, col: 0 }, TextPos { line: 2, col: 4 }))
    );
    app.end_drag();
    assert!(app.selection.drag_origin.is_none());
    app.update_drag(1, 5);
    app.clear_selection();
    assert!(app.selection.text.is_none());
}

#[test]
fn text_between_two_places() {
    let app = app();
    let pos = |line, col| TextPos { line, col };
    assert_eq!(app.extract_text_range(pos(4, 31), pos(4, 34)).unwrap(), "\u{e9}t\u{e9}");
    assert_eq!(app.extract_text_range(pos(4, 25), pos(4, 900)).unwrap(), "third \u{e9}t\u{e9}");
    assert_eq!(app.extract_text_range(pos(4, 5), pos(4, 5)), None);
    assert_eq!(app.extract_text_range(pos(4, 9), pos(4, 5)), None);
    assert_eq!(app.extract_text_range(pos(4, 900), pos(4, 901)), None);
    assert_eq!(app.extract_text_range(pos(70, 0), pos(70, 5)), None);
    assert_eq!(
        app.extract_text_range(pos(5, 12), pos(6, 10)).unwrap(),
        "third\n2024-01-15"
    );
    assert_eq!(app.extract_text_range(pos(6, 26), pos(8, 3)).unwrap(), "fourth\n\n");
    assert_eq!(app.extract_text_range(pos(3, 0), pos(1, 0)).unwrap(), "");
}

#[test]
fn digits_are_counted() {
    assert_eq!(digit_count(0), 1);
    assert_eq!(digit_count(9), 1);
    assert_eq!(digit_count(10), 2);
    assert_eq!(digit_count(999), 3);
    assert_eq!(digit_count(1000), 4);
    assert_eq!(digit_count(usize::MAX), usize::MAX.to_string().len() as u16);
}

#[test]
fn app_hands_work_on_to_the_engine() {
    let mut app = app();
    assert!(!app.indexing_ready());
    assert!(!app.is_scanning());
    assert!(app.submit_next_work().is_none());
    assert!(app.indexing_ready());
    assert!(!app.poll_worker(vec![]));
    assert!(!app.parse_deferred_batch());
    app.scan_tick();
    assert!(!app.tick(false));
    assert!(app.tick(true));
    app.scroll_down(2);
    assert_eq!(app.engine.scroll_offset, 2);
    app.scroll_up(1);
    assert_eq!(app.engine.scroll_offset, 1);
    app.scroll_to_bottom();
    assert_eq!(app.engine.scroll_offset, 4);
    app.jump_to_bottom();
    assert!(!app.in_tail_mode());
    app.exit_tail_mode();
    assert_eq!(app.engine.scroll_offset, 4);
}
