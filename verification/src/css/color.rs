use vstd::prelude::*;
use crate::css::combine::Combine;
use crate::style::AnsiColor;
use crate::text::str_eq;

verus! {

#[verifier::external_type_specification]
#[verifier::external_body]
pub struct ExColorParseError(css_color_parser::ColorParseError);

/// The red, green and blue channels that `css_color_parser` reads from a CSS
/// color string, or `None` where it refuses the string.
pub uninterp spec fn css_color_channels(s: Seq<char>) -> Option<(u8, u8, u8)>;

/// Parses a CSS color with `css_color_parser::Color::from_str` and keeps its
/// red, green and blue channels (the alpha channel is dropped). Trusted: the
/// result is the parser's, a function of the string alone, named
/// `css_color_channels`; the parser handles every input without panicking.
#[verifier::external_body]
fn parse_color_channels(s: &str) -> (r: Result<(u8, u8, u8), css_color_parser::ColorParseError>)
    ensures
        r is Ok <==> css_color_channels(s@) is Some,
        r matches Ok(c) ==> css_color_channels(s@) == Some(c),
{
    match s.parse::<css_color_parser::Color>() {
        Ok(c) => Ok((c.r, c.g, c.b)),
        Err(e) => Err(e),
    }
}

/// A CSS color string that the color parser refused.
#[derive(Clone, Copy, Debug, PartialEq, Eq, Structural)]
pub struct CssColorError;

/// A CSS color; `None` is `transparent`, the terminal's default.
#[derive(Clone, Copy, Debug, PartialEq, Eq, Structural)]
pub struct CssColor {
    pub color: Option<AnsiColor>,
}

/// The terminal color that a color name stands for, where it is one of the
/// names this library maps to the terminal palette itself.
pub open spec fn named_color(s: Seq<char>) -> Option<Option<AnsiColor>> {
    if s == "transparent"@ {
        Some(None)
    } else if s == "black"@ {
        Some(Some(AnsiColor::Black))
    } else if s == "darkred"@ {
        Some(Some(AnsiColor::Red))
    } else if s == "darkmagenta"@ {
        Some(Some(AnsiColor::Purple))
    } else if s == "darkcyan"@ {
        Some(Some(AnsiColor::Cyan))
    } else if s == "darkgreen"@ {
        Some(Some(AnsiColor::Green))
    } else if s == "darkblue"@ {
        Some(Some(AnsiColor::Blue))
    } else if s == "lightgray"@ {
        Some(Some(AnsiColor::White))
    } else if s == "khaki"@ {
        Some(Some(AnsiColor::Yellow))
    } else if s == "gray"@ {
        Some(Some(AnsiColor::Fixed(8)))
    } else if s == "red"@ {
        Some(Some(AnsiColor::Fixed(9)))
    } else if s == "green"@ {
        Some(Some(AnsiColor::Fixed(10)))
    } else if s == "yellow"@ {
        Some(Some(AnsiColor::Fixed(11)))
    } else if s == "blue"@ {
        Some(Some(AnsiColor::Fixed(12)))
    } else if s == "magenta"@ {
        Some(Some(AnsiColor::Fixed(13)))
    } else if s == "cyan"@ {
        Some(Some(AnsiColor::Fixed(14)))
    } else if s == "white"@ {
        Some(Some(AnsiColor::Fixed(15)))
    } else {
        None
    }
}

/// The color that the channels read by the CSS color parser give.
pub open spec fn spec_color_from_channels(c: Option<(u8, u8, u8)>) -> Result<CssColor, CssColorError> {
    match c {
        Some((r, g, b)) => Ok(CssColor { color: Some(AnsiColor::RGB(r, g, b)) }),
        None => Err(CssColorError),
    }
}

/// The color that a CSS color string denotes.
pub open spec fn spec_parse_color(s: Seq<char>) -> Result<CssColor, CssColorError> {
    match named_color(s) {
        Some(color) => Ok(CssColor { color }),
        None => spec_color_from_channels(css_color_channels(s)),
    }
}

fn named_color_exec(s: &str) -> (r: Option<Option<AnsiColor>>)
    ensures
        r == named_color(s@),
{
    if str_eq(s, "transparent") {
        Some(None)
    } else if str_eq(s, "black") {
        Some(Some(AnsiColor::Black))
    } else if str_eq(s, "darkred") {
        Some(Some(AnsiColor::Red))
    } else if str_eq(s, "darkmagenta") {
        Some(Some(AnsiColor::Purple))
    } else if str_eq(s, "darkcyan") {
        Some(Some(AnsiColor::Cyan))
    } else if str_eq(s, "darkgreen") {
        Some(Some(AnsiColor::Green))
    } else if str_eq(s, "darkblue") {
        Some(Some(AnsiColor::Blue))
    } else if str_eq(s, "lightgray") {
        Some(Some(AnsiColor::White))
    } else if str_eq(s, "khaki") {
        Some(Some(AnsiColor::Yellow))
    } else if str_eq(s, "gray") {
        Some(Some(AnsiColor::Fixed(8)))
    } else if str_eq(s, "red") {
        Some(Some(AnsiColor::Fixed(9)))
    } else if str_eq(s, "green") {
        Some(Some(AnsiColor::Fixed(10)))
    } else if str_eq(s, "yellow") {
        Some(Some(AnsiColor::Fixed(11)))
    } else if str_eq(s, "blue") {
        Some(Some(AnsiColor::Fixed(12)))
    } else if str_eq(s, "magenta") {
        Some(Some(AnsiColor::Fixed(13)))
    } else if str_eq(s, "cyan") {
        Some(Some(AnsiColor::Fixed(14)))
    } else if str_eq(s, "white") {
        Some(Some(AnsiColor::Fixed(15)))
    } else {
        None
    }
}

impl CssColor {
    pub fn new(color: Option<AnsiColor>) -> (r: Self)
        ensures
            r.color == color,
    {
        Self { color }
    }

    pub fn color(self) -> (r: Option<AnsiColor>)
        ensures
            r == self.color,
    {
        self.color
    }

    /// The color that the channels read by the CSS color parser give: a true
    /// color, or the parser's refusal.
    pub fn from_channels(c: Option<(u8, u8, u8)>) -> (r: Result<CssColor, CssColorError>)
        ensures
            r == spec_color_from_channels(c),
    {
        match c {
            Some((r, g, b)) => Ok(CssColor { color: Some(AnsiColor::RGB(r, g, b)) }),
            None => Err(CssColorError),
        }
    }

    /// Parses a CSS color. The names of the terminal palette map to its
    /// colors; every other string goes to the CSS color parser, whose red,
    /// green and blue channels make a true color.
    pub fn parse(s: &str) -> (r: Result<CssColor, CssColorError>)
        ensures
            r == spec_parse_color(s@),
    {
        match named_color_exec(s) {
            Some(color) => Ok(CssColor { color }),
            None => {
                let channels = match parse_color_channels(s) {
                    Ok(c) => Some(c),
                    Err(_) => None,
                };
                Self::from_channels(channels)
            },
        }
    }
}

impl core::str::FromStr for CssColor {
    type Err = CssColorError;

    /// The same as `parse`.
    fn from_str(s: &str) -> (r: Result<Self, CssColorError>)
        ensures
            r == spec_parse_color(s@),
    {
        CssColor::parse(s)
    }
}

impl Combine for CssColor {
    /// The later declaration wins.
    open spec fn spec_combine(self, other: Self) -> Self {
        other
    }

    fn combine(self, other: Self) -> (r: Self) {
        other
    }
}

} // verus!
