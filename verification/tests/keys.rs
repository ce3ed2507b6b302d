use loghew::app::keys::{
    bookmarks_key, config_key, count_lines, is_double_click, notifications_key, Key, KeyAction,
    Modifiers, MouseAction, MouseKind, Panel,
};
use loghew::app::layout::row_selection;
use loghew::app::{App, InputMode, TextPos};
use loghew::config::{Config, ConfigFile};
use loghew::engine::StatusNote;
use loghew::log::reader::LogSource;

const NONE: Modifiers = Modifiers { control: false, shift: false, alt: false, logo: false };
const SHIFT: Modifiers = Modifiers { control: false, shift: true, alt: false, logo: false };
const ALT: Modifiers = Modifiers { control: false, shift: false, alt: true, logo: false };
const CONTROL: Modifiers = Modifiers { control: true, shift: false, alt: false, logo: false };
const LOGO: Modifiers = Modifiers { control: false, shift: false, alt: false, logo: true };

fn viewer() -> App {
    let config = Config::from_file(ConfigFile::default(), true);
    let data = b"2024-01-15 14:32:01 ERROR first\n    at frame one\n2024-01-15 14:32:02 WARN second\n";
    let mut app = App::new(LogSource::from_buffer(data.to_vec()), "sample.log".to_string(), config);
    app.engine.viewport_height = 2;
    app
}

fn type_text(app: &mut App, text: &str) {
    for ch in text.chars() {
        app.type_char(ch);
    }
}

#[test]
fn keys_of_the_panels() {
    assert_eq!(config_key(Key::Up), KeyAction::ConfigUp);
    assert_eq!(config_key(Key::Down), KeyAction::ConfigDown);
    assert_eq!(config_key(Key::Enter), KeyAction::ConfigToggle);
    assert_eq!(config_key(Key::Right), KeyAction::ConfigToggle);
    assert_eq!(config_key(Key::Left), KeyAction::ConfigDecrease);
    assert_eq!(config_key(Key::Esc), KeyAction::ConfigClose);
    assert_eq!(config_key(Key::Char('d')), KeyAction::Nothing);
    assert_eq!(config_key(Key::Tab), KeyAction::Nothing);
    assert_eq!(notifications_key(Key::Up), KeyAction::NotificationUp);
    assert_eq!(notifications_key(Key::Down), KeyAction::NotificationDown);
    assert_eq!(notifications_key(Key::Char('d')), KeyAction::NotificationDelete);
    assert_eq!(notifications_key(Key::Delete), KeyAction::NotificationDelete);
    assert_eq!(notifications_key(Key::Backspace), KeyAction::NotificationDelete);
    assert_eq!(notifications_key(Key::Esc), KeyAction::NotificationsClose);
    assert_eq!(notifications_key(Key::Char('x')), KeyAction::Nothing);
    assert_eq!(notifications_key(Key::Enter), KeyAction::Nothing);
    assert_eq!(bookmarks_key(Key::Up), KeyAction::BookmarkUp);
    assert_eq!(bookmarks_key(Key::Down), KeyAction::BookmarkDown);
    assert_eq!(bookmarks_key(Key::Enter), KeyAction::BookmarkSelect);
    assert_eq!(bookmarks_key(Key::Char('d')), KeyAction::BookmarkDelete);
    assert_eq!(bookmarks_key(Key::Delete), KeyAction::BookmarkDelete);
    assert_eq!(bookmarks_key(Key::Backspace), KeyAction::BookmarkDelete);
    assert_eq!(bookmarks_key(Key::Esc), KeyAction::BookmarksClose);
    assert_eq!(bookmarks_key(Key::Char('D')), KeyAction::Nothing);
    assert_eq!(bookmarks_key(Key::Other), KeyAction::Nothing);
}

#[test]
fn keys_go_to_the_panel_that_is_shown() {
    let mut app = viewer();
    assert_eq!(app.panel(), Panel::Log);
    assert_eq!(app.key_action(Key::Up, NONE), KeyAction::ScrollUp(1));
    app.bookmarks.show = true;
    assert_eq!(app.panel(), Panel::Bookmarks);
    assert_eq!(app.key_action(Key::Up, NONE), KeyAction::BookmarkUp);
    app.notifications.show = true;
    assert_eq!(app.panel(), Panel::Notifications);
    assert_eq!(app.key_action(Key::Up, NONE), KeyAction::NotificationUp);
    app.settings.show = true;
    assert_eq!(app.panel(), Panel::Config);
    assert_eq!(app.key_action(Key::Up, NONE), KeyAction::ConfigUp);
    app.show_help = true;
    assert_eq!(app.panel(), Panel::Help);
    assert_eq!(app.key_action(Key::Up, NONE), KeyAction::ConfigUp);
    assert_eq!(app.key_action(Key::Char('c'), CONTROL), KeyAction::Copy);
    assert_eq!(app.key_action(Key::Char('c'), LOGO), KeyAction::Copy);
    assert_eq!(app.key_action(Key::Char('x'), CONTROL), KeyAction::Nothing);
    assert_eq!(app.key_action(Key::Esc, CONTROL), KeyAction::Nothing);
    assert_eq!(app.key_action(Key::Char('c'), SHIFT), KeyAction::Nothing);
}

#[test]
fn keys_while_nothing_is_typed() {
    let mut app = viewer();
    assert_eq!(app.input.mode, InputMode::Idle);
    assert_eq!(app.key_action(Key::Up, NONE), KeyAction::ScrollUp(1));
    assert_eq!(app.key_action(Key::Down, NONE), KeyAction::ScrollDown(1));
    assert_eq!(app.key_action(Key::PageUp, NONE), KeyAction::ScrollUp(2));
    assert_eq!(app.key_action(Key::PageDown, NONE), KeyAction::ScrollDown(2));
    assert_eq!(app.key_action(Key::Home, NONE), KeyAction::ScrollToTop);
    assert_eq!(app.key_action(Key::End, NONE), KeyAction::JumpToBottom);
    assert_eq!(app.key_action(Key::Esc, NONE), KeyAction::Escape);
    assert_eq!(app.key_action(Key::Char('x'), NONE), KeyAction::Type('x'));
    assert_eq!(app.key_action(Key::Char('c'), NONE), KeyAction::Type('c'));
    assert_eq!(app.key_action(Key::Tab, NONE), KeyAction::Nothing);
    assert_eq!(app.key_action(Key::Left, NONE), KeyAction::Nothing);
    assert_eq!(app.key_action(Key::Backspace, NONE), KeyAction::Nothing);
    assert_eq!(app.key_action(Key::Enter, NONE), KeyAction::Nothing);
    assert_eq!(app.key_action(Key::Enter, SHIFT), KeyAction::PrevMatch);
    app.engine.execute_search("frame");
    app.search_tick();
    assert_eq!(app.engine.search.match_count(), 1);
    assert_eq!(app.key_action(Key::Enter, NONE), KeyAction::NextMatch);
    assert_eq!(app.idle_key(Key::Enter, SHIFT), KeyAction::PrevMatch);
}

#[test]
fn keys_while_the_input_line_is_typed_in() {
    let mut app = viewer();
    type_text(&mut app, "fra");
    assert_eq!(app.input.mode, InputMode::Typing);
    assert!(!app.suggestions_open());
    assert_eq!(app.key_action(Key::Esc, NONE), KeyAction::CancelInput);
    assert_eq!(app.key_action(Key::Enter, NONE), KeyAction::SubmitInput);
    assert_eq!(app.key_action(Key::Backspace, NONE), KeyAction::Backspace);
    assert_eq!(app.key_action(Key::Delete, NONE), KeyAction::Delete);
    assert_eq!(app.key_action(Key::Left, NONE), KeyAction::Left);
    assert_eq!(app.key_action(Key::Right, NONE), KeyAction::Right);
    assert_eq!(app.key_action(Key::Home, NONE), KeyAction::Home);
    assert_eq!(app.key_action(Key::End, NONE), KeyAction::End);
    assert_eq!(app.key_action(Key::Tab, NONE), KeyAction::Nothing);
    assert_eq!(app.key_action(Key::Up, NONE), KeyAction::ScrollUp(1));
    assert_eq!(app.key_action(Key::Down, NONE), KeyAction::ScrollDown(1));
    assert_eq!(app.key_action(Key::PageUp, NONE), KeyAction::ScrollUp(2));
    assert_eq!(app.key_action(Key::PageDown, NONE), KeyAction::ScrollDown(2));
    assert_eq!(app.key_action(Key::Char('m'), NONE), KeyAction::Type('m'));
    assert_eq!(app.key_action(Key::Other, NONE), KeyAction::Nothing);
    app.cancel_input();
    type_text(&mut app, "/fo");
    assert!(app.suggestions_open());
    assert!(app.suggest.index.is_some());
    assert_eq!(app.key_action(Key::Enter, NONE), KeyAction::AcceptSuggestion);
    assert_eq!(app.key_action(Key::Tab, NONE), KeyAction::SuggestionNext);
    assert_eq!(app.key_action(Key::Up, NONE), KeyAction::SuggestionPrev);
    assert_eq!(app.key_action(Key::Down, NONE), KeyAction::SuggestionNext);
    assert_eq!(app.typing_key(Key::PageUp), KeyAction::ScrollUp(2));
    app.suggest.index = None;
    assert_eq!(app.key_action(Key::Enter, NONE), KeyAction::SubmitInput);
    app.cancel_input();
    type_text(&mut app, "/zzzz");
    assert!(!app.suggestions_open());
    assert_eq!(app.key_action(Key::Tab, NONE), KeyAction::Nothing);
    assert_eq!(app.key_action(Key::Enter, NONE), KeyAction::SubmitInput);
}

#[test]
fn the_mouse_scrolls_and_selects() {
    let mut app = viewer();
    assert_eq!(app.mouse_action(MouseKind::ScrollUp, NONE, false), MouseAction::ScrollUp(3));
    assert_eq!(app.mouse_action(MouseKind::ScrollDown, NONE, false), MouseAction::ScrollDown(3));
    app.settings.config.scroll_speed = 7;
    assert_eq!(app.mouse_action(MouseKind::ScrollDown, SHIFT, true), MouseAction::ScrollDown(7));
    app.engine.follow_mode = true;
    assert_eq!(app.mouse_action(MouseKind::ScrollUp, NONE, false), MouseAction::Nothing);
    assert_eq!(app.mouse_action(MouseKind::ScrollDown, NONE, false), MouseAction::Nothing);
    assert_eq!(app.mouse_action(MouseKind::LeftDown, NONE, false), MouseAction::SelectLine);
    assert_eq!(app.mouse_action(MouseKind::LeftDown, NONE, true), MouseAction::SelectEntry);
    assert_eq!(app.mouse_action(MouseKind::LeftDown, SHIFT, true), MouseAction::ExtendLines);
    assert_eq!(app.mouse_action(MouseKind::LeftDown, ALT, true), MouseAction::ToggleLine);
    let both = Modifiers { control: false, shift: true, alt: true, logo: false };
    assert_eq!(app.mouse_action(MouseKind::LeftDown, both, false), MouseAction::ToggleLine);
    assert_eq!(app.mouse_action(MouseKind::LeftDrag, NONE, false), MouseAction::Drag);
    assert_eq!(app.mouse_action(MouseKind::LeftUp, NONE, false), MouseAction::Release);
    assert_eq!(app.mouse_action(MouseKind::Other, NONE, true), MouseAction::Nothing);
    assert!(is_double_click(Some(4), 399, 4));
    assert!(is_double_click(Some(4), 0, 4));
    assert!(!is_double_click(Some(4), 400, 4));
    assert!(!is_double_click(Some(5), 10, 4));
    assert!(!is_double_click(None, 10, 4));
}

#[test]
fn escape_takes_back_one_thing_at_a_time() {
    let mut app = viewer();
    app.engine.toggle_follow();
    assert!(app.engine.follow_mode);
    app.engine.apply_filter("frame");
    app.filter_tick();
    app.engine.execute_search("at");
    app.search_tick();
    app.click_line(0);
    app.engine.show_tail(vec!["last".to_string()], vec![loghew::log::parser::LogLevel::Unknown]);
    app.show_help = true;
    app.engine.status = None;

    app.escape();
    assert!(!app.show_help);
    assert!(app.in_tail_mode());
    app.escape();
    assert!(!app.in_tail_mode());
    assert_eq!(app.selection.lines.len(), 1);
    app.escape();
    assert!(app.selection.lines.is_empty());
    assert!(app.selection.anchor.is_none());
    assert!(app.has_active_search());
    app.escape();
    assert!(!app.has_active_search());
    assert_eq!(app.engine.search.match_count(), 0);
    assert_eq!(app.engine.filtered_lines, vec![1]);
    app.engine.scroll_offset = 0;
    app.escape();
    assert!(app.engine.filter_conditions.is_empty());
    assert!(app.engine.filtered_lines.is_empty());
    assert!(app.engine.filter_highlight.is_none());
    assert!(!app.engine.filtering);
    assert_eq!(app.visible_count(), 3);
    assert!(app.engine.status.is_none());
    assert!(app.engine.follow_mode);
    app.escape();
    assert!(!app.engine.follow_mode);
    assert!(matches!(app.engine.status, Some(StatusNote::FollowOff)));
    app.engine.status = None;
    app.escape();
    assert!(app.engine.status.is_none());

    app.selection.text = Some((TextPos { line: 0, col: 0 }, TextPos { line: 0, col: 4 }));
    app.escape();
    assert!(app.selection.text.is_none());
    app.engine.filtering = true;
    app.engine.scroll_offset = 1;
    app.escape();
    assert!(!app.engine.filtering);
    assert_eq!(app.engine.scroll_offset, 0);
}

#[test]
fn copying_takes_the_selection() {
    let mut app = viewer();
    assert_eq!(app.take_copy(), None);
    assert!(app.engine.status.is_none());
    app.click_line(1);
    assert_eq!(app.take_copy(), Some("    at frame one".to_string()));
    assert!(matches!(app.engine.status, Some(StatusNote::CopiedLines { count: 1 })));
    assert!(app.selection.lines.is_empty());
    app.click_line(0);
    app.shift_click_line(1);
    let text = app.take_copy().unwrap();
    assert_eq!(text, "2024-01-15 14:32:01 ERROR first\n    at frame one");
    assert!(matches!(app.engine.status, Some(StatusNote::CopiedLines { count: 2 })));
    app.selection.text = Some((TextPos { line: 0, col: 20 }, TextPos { line: 0, col: 25 }));
    assert_eq!(app.take_copy(), Some("ERROR".to_string()));
    assert!(matches!(app.engine.status, Some(StatusNote::CopiedChars { count: 5 })));
    assert!(app.selection.text.is_none());
    app.selection.text = Some((TextPos { line: 0, col: 26 }, TextPos { line: 2, col: 4 }));
    assert_eq!(app.take_copy(), Some("first\n    at frame one\n2024".to_string()));
    assert!(matches!(app.engine.status, Some(StatusNote::CopiedLines { count: 3 })));
}

#[test]
fn lines_of_a_text_are_counted() {
    for text in ["", "a", "a\n", "a\nb", "a\nb\n", "\n", "\n\n", "\n\nx", "a\r\nb", "\u{e9}\n\u{e9}"] {
        assert_eq!(count_lines(text), text.lines().count(), "{:?}", text);
    }
    assert_eq!(count_lines("one\ntwo\nthree"), 3);
}

#[test]
fn closing_the_settings_says_so() {
    let mut app = viewer();
    app.settings.show = true;
    app.settings.cursor = 2;
    app.close_config();
    assert!(!app.settings.show);
    assert_eq!(app.settings.cursor, 2);
    assert!(matches!(app.engine.status, Some(StatusNote::SettingsSaved)));
    assert!(!app.engine.status.as_ref().unwrap().is_error());
}

#[test]
fn a_row_shows_its_part_of_a_selection() {
    assert_eq!(row_selection(3, 8, 0, 10), Some((3, 8)));
    assert_eq!(row_selection(3, 18, 0, 10), Some((3, 10)));
    assert_eq!(row_selection(3, 18, 10, 10), Some((0, 8)));
    assert_eq!(row_selection(13, 18, 10, 10), Some((3, 8)));
    assert_eq!(row_selection(3, 38, 10, 10), Some((0, 10)));
    assert_eq!(row_selection(3, 10, 10, 10), None);
    assert_eq!(row_selection(20, 30, 10, 10), None);
    assert_eq!(row_selection(5, 5, 0, 10), None);
    assert_eq!(row_selection(8, 3, 0, 10), None);
    assert_eq!(row_selection(0, usize::MAX, usize::MAX, usize::MAX), None);
    assert_eq!(row_selection(0, usize::MAX, 5, usize::MAX), Some((0, usize::MAX - 5)));
    assert_eq!(row_selection(0, 4, 0, 0), None);
}
