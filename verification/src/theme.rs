//! Colours of the interface. They are data for whoever paints the screen and
//! take no part in any decision.

use ratatui::style::Color as Tint;
use vstd::prelude::*;

verus! {

/// A terminal colour: one of the sixteen named ones, an RGB triple, an entry
/// of the 256-colour table, or the terminal's own default.
#[derive(Clone, Copy, PartialEq, Eq, Structural, Debug)]
pub enum Color {
    Reset,
    Black,
    Red,
    Green,
    Yellow,
    Blue,
    Magenta,
    Cyan,
    Gray,
    DarkGray,
    LightRed,
    LightGreen,
    LightYellow,
    LightBlue,
    LightMagenta,
    LightCyan,
    White,
    Rgb(u8, u8, u8),
    Indexed(u8),
}

/// The colour of each themed part of the screen.
#[derive(Clone, Copy, PartialEq, Eq, Structural, Debug)]
pub struct Theme {
    pub title_try: Color,
    pub title_rs: Color,
    pub search_box: Color,
    pub list_date: Color,
    pub list_highlight_bg: Color,
    pub list_highlight_fg: Color,
    pub help_text: Color,
    pub status_message: Color,
    pub popup_bg: Color,
    pub popup_text: Color,
}

impl Theme {
    /// The Catppuccin Mocha palette.
    pub open spec fn catppuccin_mocha() -> Theme {
        Theme {
            title_try: Color::Rgb(137, 180, 250),
            title_rs: Color::Rgb(243, 139, 168),
            search_box: Color::Rgb(250, 179, 135),
            list_date: Color::Rgb(166, 173, 200),
            list_highlight_bg: Color::Rgb(88, 91, 112),
            list_highlight_fg: Color::Rgb(205, 214, 244),
            help_text: Color::Rgb(147, 153, 178),
            status_message: Color::Rgb(249, 226, 175),
            popup_bg: Color::Rgb(30, 30, 46),
            popup_text: Color::Rgb(243, 139, 168),
        }
    }
}

impl Default for Theme {
    fn default() -> (theme: Self)
        ensures
            theme == Theme::catppuccin_mocha(),
    {
        Theme {
            title_try: Color::Rgb(137, 180, 250),
            title_rs: Color::Rgb(243, 139, 168),
            search_box: Color::Rgb(250, 179, 135),
            list_date: Color::Rgb(166, 173, 200),
            list_highlight_bg: Color::Rgb(88, 91, 112),
            list_highlight_fg: Color::Rgb(205, 214, 244),
            help_text: Color::Rgb(147, 153, 178),
            status_message: Color::Rgb(249, 226, 175),
            popup_bg: Color::Rgb(30, 30, 46),
            popup_text: Color::Rgb(243, 139, 168),
        }
    }
}

/// The colour that `text` describes, as users write colours in a
/// configuration: by name, in any of the usual spellings, as `#rrggbb`, or as
/// the number of a table entry; `None` where it describes none.
pub uninterp spec fn color_of_text(text: Seq<char>) -> Option<Color>;

/// Reads `text` with `ratatui`'s `FromStr` for its `Color`, and gives the
/// colour found as the variant of the same name with the same numbers.
#[verifier::external_body]
pub(crate) fn parse_color(text: &str) -> (color: Option<Color>)
    ensures
        color == color_of_text(text@),
{
    text.parse::<Tint>().ok().map(|tint| match tint {
        Tint::Reset => Color::Reset, Tint::Black => Color::Black, Tint::Red => Color::Red,
        Tint::Green => Color::Green, Tint::Yellow => Color::Yellow, Tint::Blue => Color::Blue,
        Tint::Magenta => Color::Magenta, Tint::Cyan => Color::Cyan, Tint::Gray => Color::Gray,
        Tint::DarkGray => Color::DarkGray, Tint::LightRed => Color::LightRed,
        Tint::LightGreen => Color::LightGreen, Tint::LightYellow => Color::LightYellow,
        Tint::LightBlue => Color::LightBlue, Tint::LightMagenta => Color::LightMagenta,
        Tint::LightCyan => Color::LightCyan, Tint::White => Color::White,
        Tint::Rgb(r, g, b) => Color::Rgb(r, g, b), Tint::Indexed(i) => Color::Indexed(i),
    })
}

} // verus!
