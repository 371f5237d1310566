use vstd::prelude::*;

verus! {

/// A terminal color, as the screens use them.
#[derive(Debug, Clone, Copy, PartialEq, Eq, Structural)]
pub enum Color {
    Red,
    Green,
    Yellow,
    Magenta,
    Gray,
    DarkGray,
    White,
    Rgb(u8, u8, u8),
}

/// How a piece of text is drawn: colors and modifiers.
#[derive(Debug, Clone, Copy, PartialEq, Eq, Structural)]
pub struct Style {
    pub fg: Option<Color>,
    pub bg: Option<Color>,
    pub bold: bool,
    pub italic: bool,
    pub underlined: bool,
}

/// Plain text in color `c`.
pub open spec fn plain_in(c: Color) -> Style {
    Style { fg: Some(c), bg: None, bold: false, italic: false, underlined: false }
}

/// Bold text in color `c`.
pub open spec fn bold_in(c: Color) -> Style {
    Style { fg: Some(c), bg: None, bold: true, italic: false, underlined: false }
}

/// Italic text in color `c`.
pub open spec fn italic_in(c: Color) -> Style {
    Style { fg: Some(c), bg: None, bold: false, italic: true, underlined: false }
}

/// Bold, underlined text in color `c`.
pub open spec fn heading_in(c: Color) -> Style {
    Style { fg: Some(c), bg: None, bold: true, italic: false, underlined: true }
}

/// Bold text in color `fg` on color `bg`.
pub open spec fn highlight_in(fg: Color, bg: Color) -> Style {
    Style { fg: Some(fg), bg: Some(bg), bold: true, italic: false, underlined: false }
}

impl Style {
    /// Plain text in color `c`.
    pub fn fg(c: Color) -> (r: Self)
        ensures
            r == plain_in(c),
    {
        Style { fg: Some(c), bg: None, bold: false, italic: false, underlined: false }
    }

    /// Bold text in color `c`.
    pub fn bold(c: Color) -> (r: Self)
        ensures
            r == bold_in(c),
    {
        Style { fg: Some(c), bg: None, bold: true, italic: false, underlined: false }
    }

    /// Italic text in color `c`.
    pub fn italic(c: Color) -> (r: Self)
        ensures
            r == italic_in(c),
    {
        Style { fg: Some(c), bg: None, bold: false, italic: true, underlined: false }
    }

    /// Bold, underlined text in color `c`: a section heading.
    pub fn heading(c: Color) -> (r: Self)
        ensures
            r == heading_in(c),
    {
        Style { fg: Some(c), bg: None, bold: true, italic: false, underlined: true }
    }

    /// Bold text in color `fg` on color `bg`: a highlighted row.
    pub fn highlight(fg: Color, bg: Color) -> (r: Self)
        ensures
            r == highlight_in(fg, bg),
    {
        Style { fg: Some(fg), bg: Some(bg), bold: true, italic: false, underlined: false }
    }
}

} // verus!
