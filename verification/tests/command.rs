use loghew::command::{
    command_kind, is_word, parse_command, parse_file_arg, parse_plus_number, parse_time_offset,
    CommandKind, OffsetError,
};
use loghew::config::{
    compat_color, find_theme, parse_color, parse_color_or, preset, Config, ConfigFile, Paint,
    PRESET_COUNT,
};
use loghew::input::{
    char_at_cursor, insert_char, remove_at, remove_before, step_left, step_right,
};
use loghew::numbers::{decimal_text, format_number};
use loghew::selection::LineSet;

fn parsed(input: &str) -> (CommandKind, String, String) {
    let command = parse_command(input);
    (command.kind, command.name, command.arg)
}

#[test]
fn command_line_is_split_at_the_first_blank() {
    assert_eq!(parsed("/regex foo.*bar"), (CommandKind::RegexSearch, "regex".into(), "foo.*bar".into()));
    assert_eq!(parsed("/fi  ERROR  !debug "), (CommandKind::Filter, "fi".into(), "ERROR  !debug".into()));
    assert_eq!(parsed("/q"), (CommandKind::Quit, "q".into(), "".into()));
    assert_eq!(parsed("top"), (CommandKind::Top, "top".into(), "".into()));
    assert_eq!(parsed("/"), (CommandKind::Unknown, "".into(), "".into()));
    assert_eq!(parsed(""), (CommandKind::Unknown, "".into(), "".into()));
    assert_eq!(parsed("/ go 5"), (CommandKind::Unknown, "".into(), "go 5".into()));
    assert_eq!(parsed("//q"), (CommandKind::Unknown, "/q".into(), "".into()));
    assert_eq!(parsed("/g\t42"), (CommandKind::Unknown, "g\t42".into(), "".into()));
    assert_eq!(parsed("/b my mark"), (CommandKind::Bookmark, "b".into(), "my mark".into()));
    assert_eq!(parsed("/Quit"), (CommandKind::Unknown, "Quit".into(), "".into()));
}

#[test]
fn commands_are_known_by_their_names() {
    let kinds = [
        ("regex", CommandKind::RegexSearch),
        ("r", CommandKind::RegexSearch),
        ("quit", CommandKind::Quit),
        ("q", CommandKind::Quit),
        ("exit", CommandKind::Quit),
        ("x", CommandKind::Quit),
        ("top", CommandKind::Top),
        ("bottom", CommandKind::Bottom),
        ("end", CommandKind::Bottom),
        ("help", CommandKind::Help),
        ("follow", CommandKind::Follow),
        ("f", CommandKind::Follow),
        ("color", CommandKind::Color),
        ("c", CommandKind::Color),
        ("wrap", CommandKind::Wrap),
        ("w", CommandKind::Wrap),
        ("delta", CommandKind::Delta),
        ("d", CommandKind::Delta),
        ("filter", CommandKind::Filter),
        ("fi", CommandKind::Filter),
        ("only-show", CommandKind::Filter),
        ("time", CommandKind::Time),
        ("t", CommandKind::Time),
        ("go", CommandKind::Go),
        ("g", CommandKind::Go),
        ("bookmark", CommandKind::Bookmark),
        ("bm", CommandKind::Bookmark),
        ("b", CommandKind::Bookmark),
        ("bookmarks", CommandKind::Bookmarks),
        ("bs", CommandKind::Bookmarks),
        ("notify", CommandKind::Notify),
        ("n", CommandKind::Notify),
        ("notifications", CommandKind::Notifications),
        ("ns", CommandKind::Notifications),
        ("config", CommandKind::Config),
        ("settings", CommandKind::Config),
        ("theme", CommandKind::Theme),
        ("nonsense", CommandKind::Unknown),
        ("", CommandKind::Unknown),
    ];
    for (name, kind) in kinds {
        let chars: Vec<char> = name.chars().collect();
        assert_eq!(command_kind(&chars), kind, "{}", name);
    }
    assert!(is_word(&['a', 'b'], "ab"));
    assert!(!is_word(&['a', 'b'], "abc"));
    assert!(!is_word(&['a', 'b'], "aB"));
    assert!(is_word(&[], ""));
}

#[test]
fn plus_number_is_a_line_to_go_to() {
    assert_eq!(parse_plus_number("+42"), Some(42));
    assert_eq!(parse_plus_number("+0"), Some(0));
    assert_eq!(parse_plus_number("++7"), Some(7));
    assert_eq!(parse_plus_number("42"), None);
    assert_eq!(parse_plus_number("+"), None);
    assert_eq!(parse_plus_number("+4x"), None);
    assert_eq!(parse_plus_number(""), None);
    assert_eq!(parse_plus_number("+-4"), None);
}

#[test]
fn file_argument_and_line_are_sorted_out() {
    let some = |text: &str| Some(text.to_string());
    assert_eq!(parse_file_arg(some("app.log"), None), (some("app.log"), None));
    assert_eq!(parse_file_arg(some("app.log"), some("+42")), (some("app.log"), Some(42)));
    assert_eq!(parse_file_arg(some("+42"), None), (None, Some(42)));
    assert_eq!(parse_file_arg(some("+42"), some("+7")), (None, Some(7)));
    assert_eq!(parse_file_arg(some("+x"), some("7")), (some("+x"), None));
    assert_eq!(parse_file_arg(None, some("+3")), (None, Some(3)));
    assert_eq!(parse_file_arg(None, None), (None, None));
}

#[test]
fn steps_of_time_are_read_in_milliseconds() {
    assert_eq!(parse_time_offset("-5m"), Ok(-300_000));
    assert_eq!(parse_time_offset("+30s"), Ok(30_000));
    assert_eq!(parse_time_offset("-1h"), Ok(-3_600_000));
    assert_eq!(parse_time_offset("+0s"), Ok(0));
    assert_eq!(parse_time_offset("+007m"), Ok(420_000));
    // The number may have a sign of its own.
    assert_eq!(parse_time_offset("--5m"), Ok(300_000));
    assert_eq!(parse_time_offset("+-5m"), Ok(-300_000));
    assert_eq!(parse_time_offset("-+5m"), Ok(-300_000));
    assert_eq!(parse_time_offset("+9000000000000000s"), Err(OffsetError::InvalidNumber));
    assert_eq!(parse_time_offset("+9000000000000s"), Ok(9_000_000_000_000_000));
    assert_eq!(parse_time_offset("-2500000000h"), Ok(-9_000_000_000_000_000));
    assert_eq!(parse_time_offset("+2500000001h"), Err(OffsetError::InvalidNumber));
}

#[test]
fn steps_of_time_need_a_number_and_a_unit() {
    assert_eq!(parse_time_offset("+5"), Err(OffsetError::NoUnit));
    assert_eq!(parse_time_offset("+5d"), Err(OffsetError::NoUnit));
    assert_eq!(parse_time_offset("+"), Err(OffsetError::NoUnit));
    assert_eq!(parse_time_offset(""), Err(OffsetError::NoUnit));
    assert_eq!(parse_time_offset("m"), Err(OffsetError::NoUnit));
    assert_eq!(parse_time_offset("+m"), Err(OffsetError::InvalidNumber));
    assert_eq!(parse_time_offset("+-m"), Err(OffsetError::InvalidNumber));
    assert_eq!(parse_time_offset("+1.5h"), Err(OffsetError::InvalidNumber));
    assert_eq!(parse_time_offset("+ 5m"), Err(OffsetError::InvalidNumber));
    assert_eq!(parse_time_offset("+5mm"), Err(OffsetError::InvalidNumber));
    assert_eq!(parse_time_offset("+99999999999999999999s"), Err(OffsetError::InvalidNumber));
}

#[test]
fn numbers_are_written_in_base_ten() {
    assert_eq!(decimal_text(0), "0");
    assert_eq!(decimal_text(7), "7");
    assert_eq!(decimal_text(10), "10");
    assert_eq!(decimal_text(1234567890), "1234567890");
    assert_eq!(decimal_text(usize::MAX), usize::MAX.to_string());
    assert_eq!(format_number(0), "0");
    assert_eq!(format_number(999), "999");
    assert_eq!(format_number(1_000), "1,000");
    assert_eq!(format_number(1_001), "1,001");
    assert_eq!(format_number(12_345), "12,345");
    assert_eq!(format_number(1_234_567), "1,234,567");
    assert_eq!(format_number(1_000_000), "1,000,000");
    assert_eq!(format_number(100_020_003), "100,020,003");
}

#[test]
fn colours_are_read_from_digits_and_names() {
    let fallback = Paint::Reset;
    assert_eq!(parse_color("#ff5555", fallback), Paint::Rgb(255, 85, 85));
    assert_eq!(parse_color("FF5555", fallback), Paint::Rgb(255, 85, 85));
    assert_eq!(parse_color("  #0a0B0c ", fallback), Paint::Rgb(10, 11, 12));
    assert_eq!(parse_color("000000", fallback), Paint::Rgb(0, 0, 0));
    assert_eq!(parse_color("red", fallback), Paint::Red);
    assert_eq!(parse_color(" Light_Blue ", fallback), Paint::LightBlue);
    assert_eq!(parse_color("grey", fallback), Paint::Gray);
    assert_eq!(parse_color("darkgray", fallback), Paint::DarkGray);
    assert_eq!(parse_color("dark_grey", fallback), Paint::DarkGray);
    assert_eq!(parse_color("default", Paint::Red), Paint::Reset);
    assert_eq!(parse_color("white", fallback), Paint::White);
    assert_eq!(parse_color("magenta", fallback), Paint::Magenta);
    assert_eq!(parse_color("lightcyan", fallback), Paint::LightCyan);
    for bad in ["#ff555", "#ff55555", "ff555g", "##ff5555", "redd", "", "#red", "light blue"] {
        assert_eq!(parse_color(bad, Paint::Green), Paint::Green, "{:?}", bad);
    }
    assert_eq!(parse_color_or("", Paint::Cyan), Paint::Cyan);
    assert_eq!(parse_color_or("blue", Paint::Cyan), Paint::Blue);
    assert_eq!(parse_color_or("?", Paint::Cyan), Paint::Cyan);
}

#[test]
fn terminal_without_truecolor_gets_palette_colours() {
    assert_eq!(compat_color(Paint::Rgb(255, 85, 85), true), Paint::Rgb(255, 85, 85));
    assert_eq!(compat_color(Paint::Rgb(255, 85, 85), false), Paint::Indexed(203));
    assert_eq!(compat_color(Paint::Yellow, false), Paint::Yellow);
    assert_eq!(compat_color(Paint::Indexed(7), false), Paint::Indexed(7));
}

#[test]
fn themes_are_found_by_name() {
    let names =
        ["default", "dracula", "nord", "gruvbox", "monokai", "solarized", "catppuccin", "tokyo night"];
    assert_eq!(names.len(), PRESET_COUNT);
    for (place, name) in names.iter().enumerate() {
        assert_eq!(preset(place).name, *name);
        assert_eq!(find_theme(name), place);
    }
    assert_eq!(find_theme("no such theme"), 0);
    assert_eq!(find_theme("Dracula"), 0);
    assert_eq!(preset(99).name, "default");
    assert_eq!(preset(1).error, Paint::Rgb(255, 85, 85));
    assert_eq!(preset(0).trace, Paint::DarkGray);
    assert_eq!(preset(7).debug, Paint::Rgb(158, 206, 106));
}

#[test]
fn settings_follow_the_settings_file() {
    let config = Config::from_file(ConfigFile::default(), true);
    assert_eq!(config.scroll_speed, 3);
    assert!(config.line_numbers && config.mouse);
    assert!(!config.wrap);
    assert!(config.semantic_color);
    assert_eq!(config.theme_index, 0);
    assert_eq!(config.theme_name(), "default");
    assert_eq!(config.error_color, Paint::LightRed);
    assert_eq!(config.info_color, Paint::Reset);

    let mut file = ConfigFile::default();
    file.general.theme = "nord".to_string();
    file.general.scroll_speed = 0;
    file.general.mouse = false;
    file.general.wrap = true;
    file.colors.error = "#102030".to_string();
    file.colors.warn = "nonsense".to_string();
    let config = Config::from_file(file, false);
    assert_eq!(config.scroll_speed, 1);
    assert!(!config.mouse);
    assert!(config.wrap);
    assert_eq!(config.theme_index, 2);
    assert_eq!(config.theme_name(), "nord");
    assert_eq!(config.error_color, compat_color(Paint::Rgb(16, 32, 48), false));
    assert_eq!(config.warn_color, compat_color(Paint::Rgb(235, 203, 139), false));
    assert_eq!(config.trace_color, Paint::Indexed(240));
    assert!(!config.truecolor);
}

#[test]
fn settings_are_raised_and_lowered() {
    let mut config = Config::from_file(ConfigFile::default(), true);
    config.raise(0);
    assert_eq!(config.theme_name(), "dracula");
    assert_eq!(config.warn_color, Paint::Rgb(255, 184, 108));
    config.lower(0);
    config.lower(0);
    assert_eq!(config.theme_name(), "tokyo night");
    config.raise(0);
    assert_eq!(config.theme_name(), "default");
    config.raise(1);
    assert!(!config.line_numbers);
    config.raise(2);
    assert!(!config.mouse);
    for _ in 0..20 {
        config.raise(3);
    }
    assert_eq!(config.scroll_speed, 10);
    for _ in 0..20 {
        config.lower(3);
    }
    assert_eq!(config.scroll_speed, 1);
    config.raise(4);
    assert!(config.wrap);
    config.raise(5);
    assert!(!config.semantic_color);
    let before = config;
    config.lower(1);
    config.lower(4);
    config.raise(6);
    config.lower(77);
    assert_eq!(config, before);
    config.apply_preset(5);
    assert_eq!(config.theme_name(), "solarized");
    assert_eq!(config.info_color, Paint::Rgb(42, 161, 152));
}

#[test]
fn characters_are_typed_at_the_cursor() {
    assert_eq!(insert_char("", 0, 'a'), ("a".to_string(), 1));
    assert_eq!(insert_char("ac", 1, 'b'), ("abc".to_string(), 2));
    assert_eq!(insert_char("ab", 2, '\u{e9}'), ("ab\u{e9}".to_string(), 4));
    assert_eq!(insert_char("\u{e9}b", 2, 'x'), ("\u{e9}xb".to_string(), 3));
    assert_eq!(insert_char("ab", 99, 'c'), ("abc".to_string(), 3));
    // A cursor inside a character counts as standing behind it.
    assert_eq!(insert_char("\u{e9}b", 1, 'x'), ("\u{e9}xb".to_string(), 3));
}

#[test]
fn characters_are_taken_out_at_the_cursor() {
    assert_eq!(remove_before("abc", 2), ("ac".to_string(), 1));
    assert_eq!(remove_before("abc", 0), ("abc".to_string(), 0));
    assert_eq!(remove_before("a\u{e9}c", 3), ("ac".to_string(), 1));
    assert_eq!(remove_before("a", 1), ("".to_string(), 0));
    assert_eq!(remove_at("abc", 1), ("ac".to_string(), 1));
    assert_eq!(remove_at("abc", 3), ("abc".to_string(), 3));
    assert_eq!(remove_at("a\u{e9}c", 1), ("ac".to_string(), 1));
    assert_eq!(remove_at("", 0), ("".to_string(), 0));
}

#[test]
fn cursor_steps_over_whole_characters() {
    let text = "a\u{e9}\u{4e16}z";
    assert_eq!(step_right(text, 0), 1);
    assert_eq!(step_right(text, 1), 3);
    assert_eq!(step_right(text, 3), 6);
    assert_eq!(step_right(text, 6), 7);
    assert_eq!(step_right(text, 7), 7);
    assert_eq!(step_left(text, 7), 6);
    assert_eq!(step_left(text, 6), 3);
    assert_eq!(step_left(text, 3), 1);
    assert_eq!(step_left(text, 1), 0);
    assert_eq!(step_left(text, 0), 0);
    let chars: Vec<char> = text.chars().collect();
    assert_eq!(char_at_cursor(&chars, 0), 0);
    assert_eq!(char_at_cursor(&chars, 1), 1);
    assert_eq!(char_at_cursor(&chars, 2), 2);
    assert_eq!(char_at_cursor(&chars, 3), 2);
    assert_eq!(char_at_cursor(&chars, 6), 3);
    assert_eq!(char_at_cursor(&chars, 7), 4);
    assert_eq!(char_at_cursor(&chars, 100), 4);
}

#[test]
fn line_set_keeps_its_lines_in_order() {
    let mut set = LineSet::new();
    assert!(set.is_empty());
    assert_eq!(set.first(), None);
    assert!(set.insert(5));
    assert!(set.insert(2));
    assert!(set.insert(9));
    assert!(!set.insert(5));
    assert!(set.insert(0));
    assert_eq!(set.to_vec(), vec![0, 2, 5, 9]);
    assert_eq!(set.len(), 4);
    assert_eq!(set.first(), Some(0));
    assert!(set.contains(5));
    assert!(!set.contains(4));
    assert!(!set.contains(10));
    assert!(set.remove(2));
    assert!(!set.remove(2));
    assert!(set.remove(9));
    assert!(set.remove(0));
    assert_eq!(set.to_vec(), vec![5]);
    set.clear();
    assert!(set.is_empty());
    assert!(!set.remove(5));
}

#[test]
fn line_set_takes_a_range() {
    let mut set = LineSet::new();
    set.insert(100);
    set.set_range(3, 6, 100);
    assert_eq!(set.to_vec(), vec![3, 4, 5, 6]);
    set.set_range(3, 6, 5);
    assert_eq!(set.to_vec(), vec![3, 4]);
    set.set_range(3, 3, 5);
    assert_eq!(set.to_vec(), vec![3]);
    set.set_range(6, 3, 100);
    assert!(set.is_empty());
    set.set_range(7, 9, 7);
    assert!(set.is_empty());
    set.set_range(0, usize::MAX, 3);
    assert_eq!(set.to_vec(), vec![0, 1, 2]);
}
