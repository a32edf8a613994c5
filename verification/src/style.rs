//! Terminal colors and text styles.

use vstd::prelude::*;

verus! {

/// A terminal color: one of the eight basic colors, an entry of the
/// 256-color palette, or a true color.
#[derive(Clone, Copy, Debug, PartialEq, Eq, Structural)]
pub enum AnsiColor {
    Black,
    Red,
    Green,
    Yellow,
    Blue,
    Purple,
    Cyan,
    White,
    Fixed(u8),
    RGB(u8, u8, u8),
}

/// The colors and attributes with which text is drawn.
#[derive(Clone, Copy, Debug, PartialEq, Eq, Structural)]
pub struct AnsiStyle {
    pub foreground: Option<AnsiColor>,
    pub background: Option<AnsiColor>,
    pub is_bold: bool,
    pub is_dimmed: bool,
    pub is_italic: bool,
    pub is_underline: bool,
    pub is_blink: bool,
    pub is_reverse: bool,
    pub is_hidden: bool,
    pub is_strikethrough: bool,
}

/// The plain style: default colors and no attribute.
pub open spec fn plain_style() -> AnsiStyle {
    AnsiStyle {
        foreground: None,
        background: None,
        is_bold: false,
        is_dimmed: false,
        is_italic: false,
        is_underline: false,
        is_blink: false,
        is_reverse: false,
        is_hidden: false,
        is_strikethrough: false,
    }
}

impl AnsiStyle {
    pub fn new() -> (r: AnsiStyle)
        ensures
            r == plain_style(),
    {
        AnsiStyle {
            foreground: None,
            background: None,
            is_bold: false,
            is_dimmed: false,
            is_italic: false,
            is_underline: false,
            is_blink: false,
            is_reverse: false,
            is_hidden: false,
            is_strikethrough: false,
        }
    }
}

impl Default for AnsiStyle {
    fn default() -> (r: AnsiStyle)
        ensures
            r == plain_style(),
    {
        AnsiStyle::new()
    }
}

} // verus!
