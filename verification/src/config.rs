//! Settings: how fast the view scrolls, what it shows, and the colours of
//! the levels, taken from a theme or named one by one.

use crate::chars::chars_of;
use crate::command::is_word;
use crate::palette::{rgb_to_index, stands_in};
use crate::text::{lowercase_text, lowercased, trim_text, trimmed};
use vstd::prelude::*;
use vstd::string::*;

verus! {

/// A colour of the terminal.
#[derive(Debug, Clone, Copy, PartialEq, Eq, Structural)]
pub enum Paint {
    Reset,
    Black,
    Red,
    Green,
    Yellow,
    Blue,
    Magenta,
    Cyan,
    Gray,
    DarkGray,
    LightRed,
    LightGreen,
    LightYellow,
    LightBlue,
    LightMagenta,
    LightCyan,
    White,
    Rgb(u8, u8, u8),
    Indexed(u8),
}

/// A theme: a name and a colour for each level.
#[derive(Debug, Clone, Copy)]
pub struct ColorPreset {
    pub name: &'static str,
    pub error: Paint,
    pub warn: Paint,
    pub info: Paint,
    pub debug: Paint,
    pub trace: Paint,
}

/// How many themes there are.
pub const PRESET_COUNT: usize = 8;

/// The slowest and the fastest that the view scrolls, in lines.
pub const MIN_SCROLL_SPEED: usize = 1;

pub const MAX_SCROLL_SPEED: usize = 10;

/// The theme at place `index`; the first theme for any other place.
pub open spec fn preset_of(index: int) -> ColorPreset {
    if index == 1 {
        ColorPreset {
            name: "dracula",
            error: Paint::Rgb(255, 85, 85),
            warn: Paint::Rgb(255, 184, 108),
            info: Paint::Rgb(139, 233, 253),
            debug: Paint::Rgb(189, 147, 249),
            trace: Paint::Rgb(98, 114, 164),
        }
    } else if index == 2 {
        ColorPreset {
            name: "nord",
            error: Paint::Rgb(191, 97, 106),
            warn: Paint::Rgb(235, 203, 139),
            info: Paint::Rgb(136, 192, 208),
            debug: Paint::Rgb(180, 142, 173),
            trace: Paint::Rgb(76, 86, 106),
        }
    } else if index == 3 {
        ColorPreset {
            name: "gruvbox",
            error: Paint::Rgb(251, 73, 52),
            warn: Paint::Rgb(250, 189, 47),
            info: Paint::Rgb(184, 187, 38),
            debug: Paint::Rgb(131, 165, 152),
            trace: Paint::Rgb(146, 131, 116),
        }
    } else if index == 4 {
        ColorPreset {
            name: "monokai",
            error: Paint::Rgb(249, 38, 114),
            warn: Paint::Rgb(230, 219, 116),
            info: Paint::Rgb(102, 217, 239),
            debug: Paint::Rgb(166, 226, 46),
            trace: Paint::Rgb(117, 113, 94),
        }
    } else if index == 5 {
        ColorPreset {
            name: "solarized",
            error: Paint::Rgb(220, 50, 47),
            warn: Paint::Rgb(181, 137, 0),
            info: Paint::Rgb(42, 161, 152),
            debug: Paint::Rgb(38, 139, 210),
            trace: Paint::Rgb(88, 110, 117),
        }
    } else if index == 6 {
        ColorPreset {
            name: "catppuccin",
            error: Paint::Rgb(243, 139, 168),
            warn: Paint::Rgb(250, 179, 135),
            info: Paint::Rgb(137, 180, 250),
            debug: Paint::Rgb(180, 190, 254),
            trace: Paint::Rgb(108, 112, 134),
        }
    } else if index == 7 {
        ColorPreset {
            name: "tokyo night",
            error: Paint::Rgb(247, 118, 142),
            warn: Paint::Rgb(224, 175, 104),
            info: Paint::Rgb(122, 162, 247),
            debug: Paint::Rgb(158, 206, 106),
            trace: Paint::Rgb(86, 95, 137),
        }
    } else {
        ColorPreset {
            name: "default",
            error: Paint::LightRed,
            warn: Paint::Yellow,
            info: Paint::Reset,
            debug: Paint::Cyan,
            trace: Paint::DarkGray,
        }
    }
}

/// The theme at place `index`; the first theme for any other place.
pub fn preset(index: usize) -> (theme: ColorPreset)
    ensures
        theme == preset_of(index as int),
{
    if index == 1 {
        ColorPreset {
            name: "dracula",
            error: Paint::Rgb(255, 85, 85),
            warn: Paint::Rgb(255, 184, 108),
            info: Paint::Rgb(139, 233, 253),
            debug: Paint::Rgb(189, 147, 249),
            trace: Paint::Rgb(98, 114, 164),
        }
    } else if index == 2 {
        ColorPreset {
            name: "nord",
            error: Paint::Rgb(191, 97, 106),
            warn: Paint::Rgb(235, 203, 139),
            info: Paint::Rgb(136, 192, 208),
            debug: Paint::Rgb(180, 142, 173),
            trace: Paint::Rgb(76, 86, 106),
        }
    } else if index == 3 {
        ColorPreset {
            name: "gruvbox",
            error: Paint::Rgb(251, 73, 52),
            warn: Paint::Rgb(250, 189, 47),
            info: Paint::Rgb(184, 187, 38),
            debug: Paint::Rgb(131, 165, 152),
            trace: Paint::Rgb(146, 131, 116),
        }
    } else if index == 4 {
        ColorPreset {
            name: "monokai",
            error: Paint::Rgb(249, 38, 114),
            warn: Paint::Rgb(230, 219, 116),
            info: Paint::Rgb(102, 217, 239),
            debug: Paint::Rgb(166, 226, 46),
            trace: Paint::Rgb(117, 113, 94),
        }
    } else if index == 5 {
        ColorPreset {
            name: "solarized",
            error: Paint::Rgb(220, 50, 47),
            warn: Paint::Rgb(181, 137, 0),
            info: Paint::Rgb(42, 161, 152),
            debug: Paint::Rgb(38, 139, 210),
            trace: Paint::Rgb(88, 110, 117),
        }
    } else if index == 6 {
        ColorPreset {
            name: "catppuccin",
            error: Paint::Rgb(243, 139, 168),
            warn: Paint::Rgb(250, 179, 135),
            info: Paint::Rgb(137, 180, 250),
            debug: Paint::Rgb(180, 190, 254),
            trace: Paint::Rgb(108, 112, 134),
        }
    } else if index == 7 {
        ColorPreset {
            name: "tokyo night",
            error: Paint::Rgb(247, 118, 142),
            warn: Paint::Rgb(224, 175, 104),
            info: Paint::Rgb(122, 162, 247),
            debug: Paint::Rgb(158, 206, 106),
            trace: Paint::Rgb(86, 95, 137),
        }
    } else {
        ColorPreset {
            name: "default",
            error: Paint::LightRed,
            warn: Paint::Yellow,
            info: Paint::Reset,
            debug: Paint::Cyan,
            trace: Paint::DarkGray,
        }
    }
}

/// The general settings as the settings file holds them.
pub struct GeneralConfig {
    pub scroll_speed: usize,
    pub line_numbers: bool,
    pub mouse: bool,
    pub theme: String,
    pub wrap: bool,
    pub semantic_color: bool,
}

impl Default for GeneralConfig {
    fn default() -> (general: Self)
        ensures
            general.scroll_speed == 3,
            general.line_numbers,
            general.mouse,
            general.theme@ == "default"@,
            !general.wrap,
            general.semantic_color,
    {
        GeneralConfig {
            scroll_speed: 3,
            line_numbers: true,
            mouse: true,
            theme: "default".to_owned(),
            wrap: false,
            semantic_color: true,
        }
    }
}

/// The colours of the levels as the settings file names them; an empty
/// name leaves a level the colour of the theme.
pub struct ColorConfig {
    pub error: String,
    pub warn: String,
    pub info: String,
    pub debug: String,
    pub trace: String,
}

impl Default for ColorConfig {
    fn default() -> (colors: Self)
        ensures
            colors.error@.len() == 0,
            colors.warn@.len() == 0,
            colors.info@.len() == 0,
            colors.debug@.len() == 0,
            colors.trace@.len() == 0,
    {
        ColorConfig {
            error: String::new(),
            warn: String::new(),
            info: String::new(),
            debug: String::new(),
            trace: String::new(),
        }
    }
}

/// What the settings file holds.
pub struct ConfigFile {
    pub general: GeneralConfig,
    pub colors: ColorConfig,
}

impl Default for ConfigFile {
    fn default() -> (file: Self)
        ensures
            file.general.scroll_speed == 3,
            file.general.theme@ == "default"@,
            file.colors.error@.len() == 0,
    {
        ConfigFile { general: GeneralConfig::default(), colors: ColorConfig::default() }
    }
}

/// The settings in force.
#[derive(Debug, Clone, Copy, PartialEq, Eq, Structural)]
pub struct Config {
    pub scroll_speed: usize,
    pub line_numbers: bool,
    pub mouse: bool,
    pub wrap: bool,
    pub semantic_color: bool,
    pub theme_index: usize,
    pub error_color: Paint,
    pub warn_color: Paint,
    pub info_color: Paint,
    pub debug_color: Paint,
    pub trace_color: Paint,
    /// Whether the terminal shows colours given by their parts.
    pub truecolor: bool,
}

/// Whether `shown` is the colour that a terminal shows for `color`: the
/// colour itself, but for a colour given by its parts on a terminal that
/// does not show such colours, the colour of the palette that stands in
/// for it.
pub open spec fn is_shown_as(color: Paint, truecolor: bool, shown: Paint) -> bool {
    match color {
        Paint::Rgb(r, g, b) => if truecolor {
            shown == color
        } else {
            shown matches Paint::Indexed(index) && stands_in(r, g, b, index)
        },
        _ => shown == color,
    }
}

/// The colour that a terminal shows for a colour.
pub fn compat_color(color: Paint, truecolor: bool) -> (shown: Paint)
    ensures
        is_shown_as(color, truecolor, shown),
{
    match color {
        Paint::Rgb(r, g, b) => {
            if truecolor {
                color
            } else {
                Paint::Indexed(rgb_to_index(r, g, b))
            }
        },
        _ => color,
    }
}

/// The number that a hexadecimal digit stands for; `None` for any other
/// character.
pub open spec fn hex_value(c: char) -> Option<u8> {
    let code = c as u32;
    if 48 <= code <= 57 {
        Some((code - 48) as u8)
    } else if 97 <= code <= 102 {
        Some((code - 87) as u8)
    } else if 65 <= code <= 70 {
        Some((code - 55) as u8)
    } else {
        None
    }
}

/// The colour that six hexadecimal digits give the parts of; `None` for
/// anything else.
pub open spec fn hex_color(digits: Seq<char>) -> Option<Paint> {
    if digits.len() == 6 && forall|i: int| 0 <= i < 6 ==> hex_value(#[trigger] digits[i]) is Some {
        Some(
            Paint::Rgb(
                (hex_value(digits[0]).unwrap() * 16 + hex_value(digits[1]).unwrap()) as u8,
                (hex_value(digits[2]).unwrap() * 16 + hex_value(digits[3]).unwrap()) as u8,
                (hex_value(digits[4]).unwrap() * 16 + hex_value(digits[5]).unwrap()) as u8,
            ),
        )
    } else {
        None
    }
}

/// The colour that a name stands for.
pub open spec fn named_color(name: Seq<char>) -> Option<Paint> {
    if name == "black"@ {
        Some(Paint::Black)
    } else if name == "red"@ {
        Some(Paint::Red)
    } else if name == "green"@ {
        Some(Paint::Green)
    } else if name == "yellow"@ {
        Some(Paint::Yellow)
    } else if name == "blue"@ {
        Some(Paint::Blue)
    } else if name == "magenta"@ {
        Some(Paint::Magenta)
    } else if name == "cyan"@ {
        Some(Paint::Cyan)
    } else if name == "gray"@ || name == "grey"@ {
        Some(Paint::Gray)
    } else if name == "dark_gray"@ || name == "dark_grey"@ || name == "darkgray"@ {
        Some(Paint::DarkGray)
    } else if name == "light_red"@ || name == "lightred"@ {
        Some(Paint::LightRed)
    } else if name == "light_green"@ || name == "lightgreen"@ {
        Some(Paint::LightGreen)
    } else if name == "light_yellow"@ || name == "lightyellow"@ {
        Some(Paint::LightYellow)
    } else if name == "light_blue"@ || name == "lightblue"@ {
        Some(Paint::LightBlue)
    } else if name == "light_magenta"@ || name == "lightmagenta"@ {
        Some(Paint::LightMagenta)
    } else if name == "light_cyan"@ || name == "lightcyan"@ {
        Some(Paint::LightCyan)
    } else if name == "white"@ {
        Some(Paint::White)
    } else if name == "reset"@ || name == "default"@ {
        Some(Paint::Reset)
    } else {
        None
    }
}

/// What a text says a colour is, where it is taken in lower case and
/// without the whitespace around it: six hexadecimal digits, with or
/// without a hash sign before them, give the colour's parts; else the text
/// names the colour; `fallback` where it does neither.
pub open spec fn color_of(text: Seq<char>, fallback: Paint) -> Paint {
    let name = lowercased(trimmed(text));
    let digits = if name.len() > 0 && name[0] == '#' {
        name.skip(1)
    } else {
        name
    };
    match hex_color(digits) {
        Some(color) => color,
        None => match named_color(name) {
            Some(color) => color,
            None => fallback,
        },
    }
}

/// The number that a hexadecimal digit stands for.
fn hex_digit(c: char) -> (value: Option<u8>)
    ensures
        value == hex_value(c),
{
    let code = c as u32;
    if 48 <= code && code <= 57 {
        Some((code - 48) as u8)
    } else if 97 <= code && code <= 102 {
        Some((code - 87) as u8)
    } else if 65 <= code && code <= 70 {
        Some((code - 55) as u8)
    } else {
        None
    }
}

/// Reads two hexadecimal digits as one part of a colour.
fn hex_pair(digits: &[char], at: usize) -> (value: Option<u8>)
    requires
        at + 1 < digits@.len(),
    ensures
        match value {
            Some(v) => hex_value(digits@[at as int]) is Some && hex_value(digits@[at + 1]) is Some
                && v == hex_value(digits@[at as int]).unwrap() * 16 + hex_value(
                digits@[at + 1],
            ).unwrap(),
            None => hex_value(digits@[at as int]) is None || hex_value(digits@[at + 1]) is None,
        },
{
    match (hex_digit(digits[at]), hex_digit(digits[at + 1])) {
        (Some(high), Some(low)) => Some(high * 16 + low),
        _ => None,
    }
}

/// Reads six hexadecimal digits as a colour.
fn parse_hex(digits: &[char]) -> (color: Option<Paint>)
    ensures
        color == hex_color(digits@),
{
    if digits.len() != 6 {
        return None;
    }
    match (hex_pair(digits, 0), hex_pair(digits, 2), hex_pair(digits, 4)) {
        (Some(r), Some(g), Some(b)) => Some(Paint::Rgb(r, g, b)),
        _ => None,
    }
}

/// Looks up the colour that a name stands for.
fn parse_named(name: &[char]) -> (color: Option<Paint>)
    ensures
        color == named_color(name@),
{
    if is_word(name, "black") {
        Some(Paint::Black)
    } else if is_word(name, "red") {
        Some(Paint::Red)
    } else if is_word(name, "green") {
        Some(Paint::Green)
    } else if is_word(name, "yellow") {
        Some(Paint::Yellow)
    } else if is_word(name, "blue") {
        Some(Paint::Blue)
    } else if is_word(name, "magenta") {
        Some(Paint::Magenta)
    } else if is_word(name, "cyan") {
        Some(Paint::Cyan)
    } else if is_word(name, "gray") || is_word(name, "grey") {
        Some(Paint::Gray)
    } else if is_word(name, "dark_gray") || is_word(name, "dark_grey") || is_word(
        name,
        "darkgray",
    ) {
        Some(Paint::DarkGray)
    } else if is_word(name, "light_red") || is_word(name, "lightred") {
        Some(Paint::LightRed)
    } else if is_word(name, "light_green") || is_word(name, "lightgreen") {
        Some(Paint::LightGreen)
    } else if is_word(name, "light_yellow") || is_word(name, "lightyellow") {
        Some(Paint::LightYellow)
    } else if is_word(name, "light_blue") || is_word(name, "lightblue") {
        Some(Paint::LightBlue)
    } else if is_word(name, "light_magenta") || is_word(name, "lightmagenta") {
        Some(Paint::LightMagenta)
    } else if is_word(name, "light_cyan") || is_word(name, "lightcyan") {
        Some(Paint::LightCyan)
    } else if is_word(name, "white") {
        Some(Paint::White)
    } else if is_word(name, "reset") || is_word(name, "default") {
        Some(Paint::Reset)
    } else {
        None
    }
}

/// Reads a colour: six hexadecimal digits, with or without a hash sign, or
/// the name of a colour, in any letter case; `fallback` for anything else.
pub fn parse_color(text: &str, fallback: Paint) -> (color: Paint)
    ensures
        color == color_of(text@, fallback),
{
    let lowered = lowercase_text(trim_text(text));
    let name = chars_of(lowered.as_str());
    let start: usize = if name.len() > 0 && name[0] == '#' {
        1
    } else {
        0
    };
    let digits = vstd::slice::slice_subrange(name.as_slice(), start, name.len());
    proof {
        if start == 1 {
            assert(digits@ =~= name@.skip(1));
        } else {
            assert(digits@ =~= name@);
        }
    }
    match parse_hex(digits) {
        Some(color) => color,
        None => match parse_named(name.as_slice()) {
            Some(color) => color,
            None => fallback,
        },
    }
}

/// Reads a colour that the settings file names for a level; an empty name
/// leaves the level its `fallback`.
pub fn parse_color_or(text: &str, fallback: Paint) -> (color: Paint)
    ensures
        color == if text@.len() == 0 {
            fallback
        } else {
            color_of(text@, fallback)
        },
{
    if text.is_empty() {
        fallback
    } else {
        parse_color(text, fallback)
    }
}

/// The place of the theme with the given name; the first theme's place
/// where there is no theme of that name.
pub open spec fn theme_place(name: Seq<char>, from: int) -> int
    decreases PRESET_COUNT - from,
{
    if from < 0 || from >= PRESET_COUNT {
        0
    } else if preset_of(from).name@ == name {
        from
    } else {
        theme_place(name, from + 1)
    }
}

/// Finds the place of the theme with the given name.
pub fn find_theme(name: &str) -> (place: usize)
    ensures
        place == theme_place(name@, 0),
        place < PRESET_COUNT,
{
    let wanted = chars_of(name);
    let mut i: usize = 0;
    while i < PRESET_COUNT
        invariant
            i <= PRESET_COUNT,
            wanted@ == name@,
            theme_place(name@, 0) == theme_place(name@, i as int),
        decreases PRESET_COUNT - i,
    {
        if is_word(wanted.as_slice(), preset(i).name) {
            return i;
        }
        i = i + 1;
    }
    0
}

impl Config {
    /// Whether the settings are those that `file` asks for: the theme that
    /// it names, each level in the colour that it names for it or in the
    /// theme's, as the terminal shows it, and the view scrolling by a line
    /// at least.
    pub open spec fn follows(self, file: ConfigFile, truecolor: bool) -> bool {
        let place = theme_place(file.general.theme@, 0);
        let theme = preset_of(place);
        let colors = file.colors;
        &&& self.scroll_speed == if file.general.scroll_speed >= 1 {
            file.general.scroll_speed
        } else {
            1
        }
        &&& self.line_numbers == file.general.line_numbers
        &&& self.mouse == file.general.mouse
        &&& self.wrap == file.general.wrap
        &&& self.semantic_color == file.general.semantic_color
        &&& self.theme_index == place
        &&& self.truecolor == truecolor
        &&& is_shown_as(wished(colors.error@, theme.error), truecolor, self.error_color)
        &&& is_shown_as(wished(colors.warn@, theme.warn), truecolor, self.warn_color)
        &&& is_shown_as(wished(colors.info@, theme.info), truecolor, self.info_color)
        &&& is_shown_as(wished(colors.debug@, theme.debug), truecolor, self.debug_color)
        &&& is_shown_as(wished(colors.trace@, theme.trace), truecolor, self.trace_color)
    }

    /// The settings that a settings file asks for, on a terminal that
    /// shows colours given by their parts or does not.
    pub fn from_file(file: ConfigFile, truecolor: bool) -> (config: Self)
        ensures
            config.follows(file, truecolor),
    {
        let theme_index = find_theme(file.general.theme.as_str());
        let theme = preset(theme_index);
        Config {
            scroll_speed: if file.general.scroll_speed >= 1 {
                file.general.scroll_speed
            } else {
                1
            },
            line_numbers: file.general.line_numbers,
            mouse: file.general.mouse,
            wrap: file.general.wrap,
            semantic_color: file.general.semantic_color,
            theme_index,
            error_color: compat_color(
                parse_color_or(file.colors.error.as_str(), theme.error),
                truecolor,
            ),
            warn_color: compat_color(
                parse_color_or(file.colors.warn.as_str(), theme.warn),
                truecolor,
            ),
            info_color: compat_color(
                parse_color_or(file.colors.info.as_str(), theme.info),
                truecolor,
            ),
            debug_color: compat_color(
                parse_color_or(file.colors.debug.as_str(), theme.debug),
                truecolor,
            ),
            trace_color: compat_color(
                parse_color_or(file.colors.trace.as_str(), theme.trace),
                truecolor,
            ),
            truecolor,
        }
    }

    /// Whether the colours of the levels are those of the theme at place
    /// `index`, as the terminal shows them.
    pub open spec fn wears(self, index: int) -> bool {
        let theme = preset_of(index);
        &&& is_shown_as(theme.error, self.truecolor, self.error_color)
        &&& is_shown_as(theme.warn, self.truecolor, self.warn_color)
        &&& is_shown_as(theme.info, self.truecolor, self.info_color)
        &&& is_shown_as(theme.debug, self.truecolor, self.debug_color)
        &&& is_shown_as(theme.trace, self.truecolor, self.trace_color)
    }

    /// Takes the colours of the theme at place `index`.
    pub fn apply_preset(&mut self, index: usize)
        ensures
            final(self).wears_instead(*old(self), index),
    {
        let theme = preset(index);
        self.theme_index = index;
        self.error_color = compat_color(theme.error, self.truecolor);
        self.warn_color = compat_color(theme.warn, self.truecolor);
        self.info_color = compat_color(theme.info, self.truecolor);
        self.debug_color = compat_color(theme.debug, self.truecolor);
        self.trace_color = compat_color(theme.trace, self.truecolor);
    }

    /// The name of the theme.
    pub fn theme_name(&self) -> (name: &'static str)
        ensures
            name == preset_of(self.theme_index as int).name,
    {
        preset(self.theme_index).name
    }
}

/// The colour that the settings file wishes for a level: the one it names,
/// or the theme's where it names none.
pub open spec fn wished(name: Seq<char>, fallback: Paint) -> Paint {
    if name.len() == 0 {
        fallback
    } else {
        color_of(name, fallback)
    }
}

/// The place of the theme after the one at `index`, the first after the
/// last.
pub open spec fn theme_after(index: usize) -> usize {
    if index + 1 < PRESET_COUNT {
        (index + 1) as usize
    } else {
        0
    }
}

/// The place of the theme before the one at `index`, the last before the
/// first.
pub open spec fn theme_before(index: usize) -> usize {
    if index == 0 || index > PRESET_COUNT {
        (PRESET_COUNT - 1) as usize
    } else {
        (index - 1) as usize
    }
}

impl Config {
    /// Whether everything but the theme and the colours is as in `before`,
    /// and the colours are those of the theme at place `index`.
    pub open spec fn wears_instead(self, before: Config, index: usize) -> bool {
        &&& self.theme_index == index
        &&& self.wears(index as int)
        &&& self == (Config {
            theme_index: self.theme_index,
            error_color: self.error_color,
            warn_color: self.warn_color,
            info_color: self.info_color,
            debug_color: self.debug_color,
            trace_color: self.trace_color,
            ..before
        })
    }

    /// Whether these are the settings after the setting at place `item` of
    /// `before` has been switched or raised: the next theme; a switch
    /// turned; the scroll speed one line faster, up to `MAX_SCROLL_SPEED`.
    pub open spec fn raised_from(self, before: Config, item: usize) -> bool {
        if item == 0 {
            self.wears_instead(before, theme_after(before.theme_index))
        } else if item == 1 {
            self == (Config { line_numbers: !before.line_numbers, ..before })
        } else if item == 2 {
            self == (Config { mouse: !before.mouse, ..before })
        } else if item == 3 {
            self == (Config {
                scroll_speed: if before.scroll_speed < MAX_SCROLL_SPEED {
                    (before.scroll_speed + 1) as usize
                } else {
                    MAX_SCROLL_SPEED
                },
                ..before
            })
        } else if item == 4 {
            self == (Config { wrap: !before.wrap, ..before })
        } else if item == 5 {
            self == (Config { semantic_color: !before.semantic_color, ..before })
        } else {
            self == before
        }
    }

    /// Whether these are the settings after the setting at place `item` of
    /// `before` has been lowered: the theme before; the scroll speed one
    /// line slower, down to `MIN_SCROLL_SPEED`. A switch is left as it is.
    pub open spec fn lowered_from(self, before: Config, item: usize) -> bool {
        if item == 0 {
            self.wears_instead(before, theme_before(before.theme_index))
        } else if item == 3 {
            self == (Config {
                scroll_speed: if before.scroll_speed > MIN_SCROLL_SPEED + 1 {
                    (before.scroll_speed - 1) as usize
                } else {
                    MIN_SCROLL_SPEED
                },
                ..before
            })
        } else {
            self == before
        }
    }

    /// Switches or raises the setting at place `item`.
    pub fn raise(&mut self, item: usize)
        ensures
            final(self).raised_from(*old(self), item),
    {
        if item == 0 {
            let next = if self.theme_index < PRESET_COUNT - 1 {
                self.theme_index + 1
            } else {
                0
            };
            self.apply_preset(next);
        } else if item == 1 {
            self.line_numbers = !self.line_numbers;
        } else if item == 2 {
            self.mouse = !self.mouse;
        } else if item == 3 {
            self.scroll_speed = if self.scroll_speed < MAX_SCROLL_SPEED {
                self.scroll_speed + 1
            } else {
                MAX_SCROLL_SPEED
            };
        } else if item == 4 {
            self.wrap = !self.wrap;
        } else if item == 5 {
            self.semantic_color = !self.semantic_color;
        }
    }

    /// Lowers the setting at place `item`.
    pub fn lower(&mut self, item: usize)
        ensures
            final(self).lowered_from(*old(self), item),
    {
        if item == 0 {
            let last = if self.theme_index == 0 || self.theme_index > PRESET_COUNT {
                PRESET_COUNT - 1
            } else {
                self.theme_index - 1
            };
            self.apply_preset(last);
        } else if item == 3 {
            self.scroll_speed = if self.scroll_speed > MIN_SCROLL_SPEED + 1 {
                self.scroll_speed - 1
            } else {
                MIN_SCROLL_SPEED
            };
        }
    }
}

} // verus!
