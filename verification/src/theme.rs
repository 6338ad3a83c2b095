//! Colour themes of the user interface.
use vstd::prelude::*;

use crate::text::str_eq;

verus! {

/// A terminal colour.
#[derive(Debug, Clone, Copy, PartialEq, Eq, Structural)]
pub enum Color {
    Reset,
    Black,
    Red,
    Green,
    Yellow,
    Blue,
    Magenta,
    Cyan,
    Gray,
    DarkGray,
    LightRed,
    LightGreen,
    LightYellow,
    LightBlue,
    LightMagenta,
    LightCyan,
    White,
    Rgb(u8, u8, u8),
    Indexed(u8),
}

/// The colours of every part of the interface, and the name of the
/// syntax-highlighting theme that goes with them.
pub struct Theme {
    pub name: &'static str,
    pub fg: Color,
    pub fg_dim: Color,
    pub bg: Color,
    pub black: Color,
    pub red: Color,
    pub green: Color,
    pub yellow: Color,
    pub blue: Color,
    pub magenta: Color,
    pub cyan: Color,
    pub gray: Color,
    pub orange: Color,
    pub diff_added_bg: Color,
    pub diff_added_bg_bright: Color,
    pub diff_removed_bg: Color,
    pub diff_removed_bg_bright: Color,
    pub diff_hunk_bg: Color,
    pub diff_cursor_bg: Color,
    pub diff_selected_stage_bg: Color,
    pub diff_selected_unstage_bg: Color,
    pub diff_viewport_bg: Color,
    pub conflict_ours_bg: Color,
    pub conflict_theirs_bg: Color,
    pub conflict_theirs_accent: Color,
    pub conflict_dim_fg: Color,
    pub conflict_dim_border: Color,
    pub conflict_dim_bg: Color,
    pub syntax_theme: String,
}

/// The colours of the `default` theme.
pub open spec fn is_default_theme(t: Theme) -> bool {
    &&& t.name@ == "default"@
    &&& t.fg == Color::White
    &&& t.fg_dim == Color::DarkGray
    &&& t.bg == Color::Reset
    &&& t.black == Color::Black
    &&& t.red == Color::Red
    &&& t.green == Color::Green
    &&& t.yellow == Color::Yellow
    &&& t.blue == Color::Blue
    &&& t.magenta == Color::Magenta
    &&& t.cyan == Color::Cyan
    &&& t.gray == Color::Gray
    &&& t.orange == Color::Rgb(255, 200, 60)
    &&& t.diff_added_bg == Color::Rgb(10, 40, 10)
    &&& t.diff_added_bg_bright == Color::Rgb(20, 60, 20)
    &&& t.diff_removed_bg == Color::Rgb(40, 10, 10)
    &&& t.diff_removed_bg_bright == Color::Rgb(60, 20, 20)
    &&& t.diff_hunk_bg == Color::Rgb(30, 30, 50)
    &&& t.diff_cursor_bg == Color::Rgb(60, 55, 20)
    &&& t.diff_selected_stage_bg == Color::Rgb(20, 50, 20)
    &&& t.diff_selected_unstage_bg == Color::Rgb(50, 20, 20)
    &&& t.diff_viewport_bg == Color::Rgb(30, 30, 40)
    &&& t.conflict_ours_bg == Color::Rgb(10, 40, 50)
    &&& t.conflict_theirs_bg == Color::Rgb(40, 10, 50)
    &&& t.conflict_theirs_accent == Color::Rgb(255, 100, 255)
    &&& t.conflict_dim_fg == Color::Rgb(100, 100, 100)
    &&& t.conflict_dim_border == Color::Rgb(70, 70, 70)
    &&& t.conflict_dim_bg == Color::Rgb(15, 15, 15)
    &&& t.syntax_theme@ == "base16-eighties.dark"@
}

/// The colours of the `dracula` theme.
pub open spec fn is_dracula_theme(t: Theme) -> bool {
    &&& t.name@ == "dracula"@
    &&& t.fg == Color::Rgb(248, 248, 242)
    &&& t.fg_dim == Color::Rgb(98, 114, 164)
    &&& t.bg == Color::Rgb(40, 42, 54)
    &&& t.black == Color::Rgb(40, 42, 54)
    &&& t.red == Color::Rgb(255, 85, 85)
    &&& t.green == Color::Rgb(80, 250, 123)
    &&& t.yellow == Color::Rgb(241, 250, 140)
    &&& t.blue == Color::Rgb(189, 147, 249)
    &&& t.magenta == Color::Rgb(255, 121, 198)
    &&& t.cyan == Color::Rgb(139, 233, 253)
    &&& t.gray == Color::Rgb(68, 71, 90)
    &&& t.orange == Color::Rgb(255, 184, 108)
    &&& t.diff_added_bg == Color::Rgb(20, 55, 20)
    &&& t.diff_added_bg_bright == Color::Rgb(30, 75, 30)
    &&& t.diff_removed_bg == Color::Rgb(55, 20, 20)
    &&& t.diff_removed_bg_bright == Color::Rgb(75, 30, 30)
    &&& t.diff_hunk_bg == Color::Rgb(44, 47, 75)
    &&& t.diff_cursor_bg == Color::Rgb(68, 71, 90)
    &&& t.diff_selected_stage_bg == Color::Rgb(30, 65, 30)
    &&& t.diff_selected_unstage_bg == Color::Rgb(65, 30, 30)
    &&& t.diff_viewport_bg == Color::Rgb(44, 47, 60)
    &&& t.conflict_ours_bg == Color::Rgb(20, 50, 65)
    &&& t.conflict_theirs_bg == Color::Rgb(55, 20, 60)
    &&& t.conflict_theirs_accent == Color::Rgb(255, 121, 198)
    &&& t.conflict_dim_fg == Color::Rgb(98, 114, 164)
    &&& t.conflict_dim_border == Color::Rgb(68, 71, 90)
    &&& t.conflict_dim_bg == Color::Rgb(30, 32, 40)
    &&& t.syntax_theme@ == "Dracula"@
}

impl Theme {
    /// The theme called `name`; any other name gives the default theme.
    pub fn from_name(name: &str) -> (t: Theme)
        ensures
            name@ == "dracula"@ ==> is_dracula_theme(t),
            name@ != "dracula"@ ==> is_default_theme(t),
    {
        if str_eq(name, "dracula") {
            Self::dracula()
        } else {
            Self::default_theme()
        }
    }

    /// The theme after `current` in the cycle default, dracula (an unknown
    /// name counts as the first).
    pub fn next_theme_name(current: &str) -> (n: &'static str)
        ensures
            n@ == (if current@ == "dracula"@ {
                "default"@
            } else {
                "dracula"@
            }),
    {
        if str_eq(current, "dracula") {
            "default"
        } else {
            "dracula"
        }
    }

    /// The terminal's own colours.
    pub fn default_theme() -> (t: Theme)
        ensures
            is_default_theme(t),
    {
        let t = Theme {
            name: "default",
            fg: Color::White,
            fg_dim: Color::DarkGray,
            bg: Color::Reset,
            black: Color::Black,
            red: Color::Red,
            green: Color::Green,
            yellow: Color::Yellow,
            blue: Color::Blue,
            magenta: Color::Magenta,
            cyan: Color::Cyan,
            gray: Color::Gray,
            orange: Color::Rgb(255, 200, 60),
            diff_added_bg: Color::Rgb(10, 40, 10),
            diff_added_bg_bright: Color::Rgb(20, 60, 20),
            diff_removed_bg: Color::Rgb(40, 10, 10),
            diff_removed_bg_bright: Color::Rgb(60, 20, 20),
            diff_hunk_bg: Color::Rgb(30, 30, 50),
            diff_cursor_bg: Color::Rgb(60, 55, 20),
            diff_selected_stage_bg: Color::Rgb(20, 50, 20),
            diff_selected_unstage_bg: Color::Rgb(50, 20, 20),
            diff_viewport_bg: Color::Rgb(30, 30, 40),
            conflict_ours_bg: Color::Rgb(10, 40, 50),
            conflict_theirs_bg: Color::Rgb(40, 10, 50),
            conflict_theirs_accent: Color::Rgb(255, 100, 255),
            conflict_dim_fg: Color::Rgb(100, 100, 100),
            conflict_dim_border: Color::Rgb(70, 70, 70),
            conflict_dim_bg: Color::Rgb(15, 15, 15),
            syntax_theme: String::from_str("base16-eighties.dark"),
        };
        t
    }

    /// The Dracula palette.
    pub fn dracula() -> (t: Theme)
        ensures
            is_dracula_theme(t),
    {
        let t = Theme {
            name: "dracula",
            fg: Color::Rgb(248, 248, 242),
            fg_dim: Color::Rgb(98, 114, 164),
            bg: Color::Rgb(40, 42, 54),
            black: Color::Rgb(40, 42, 54),
            red: Color::Rgb(255, 85, 85),
            green: Color::Rgb(80, 250, 123),
            yellow: Color::Rgb(241, 250, 140),
            blue: Color::Rgb(189, 147, 249),
            magenta: Color::Rgb(255, 121, 198),
            cyan: Color::Rgb(139, 233, 253),
            gray: Color::Rgb(68, 71, 90),
            orange: Color::Rgb(255, 184, 108),
            diff_added_bg: Color::Rgb(20, 55, 20),
            diff_added_bg_bright: Color::Rgb(30, 75, 30),
            diff_removed_bg: Color::Rgb(55, 20, 20),
            diff_removed_bg_bright: Color::Rgb(75, 30, 30),
            diff_hunk_bg: Color::Rgb(44, 47, 75),
            diff_cursor_bg: Color::Rgb(68, 71, 90),
            diff_selected_stage_bg: Color::Rgb(30, 65, 30),
            diff_selected_unstage_bg: Color::Rgb(65, 30, 30),
            diff_viewport_bg: Color::Rgb(44, 47, 60),
            conflict_ours_bg: Color::Rgb(20, 50, 65),
            conflict_theirs_bg: Color::Rgb(55, 20, 60),
            conflict_theirs_accent: Color::Rgb(255, 121, 198),
            conflict_dim_fg: Color::Rgb(98, 114, 164),
            conflict_dim_border: Color::Rgb(68, 71, 90),
            conflict_dim_bg: Color::Rgb(30, 32, 40),
            syntax_theme: String::from_str("Dracula"),
        };
        t
    }

    /// The theme chosen by the value of the theme variable, when it is set.
    pub fn from_env_value(value: Option<&str>) -> (t: Theme)
        ensures
            (value matches Some(v) && v@ == "dracula"@) ==> is_dracula_theme(t),
            !(value matches Some(v) && v@ == "dracula"@) ==> is_default_theme(t),
    {
        match value {
            Some(v) => Self::from_name(v),
            None => Self::default_theme(),
        }
    }
}

} // verus!
