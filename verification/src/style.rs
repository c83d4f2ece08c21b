//! Colors, style attribute sets, and named themes: pure value types
//! consumed by cells and widgets.

use vstd::prelude::*;

verus! {

/// A terminal color: the terminal's default, a named color, or an RGB triple.
#[derive(Clone, Copy, PartialEq, Eq, Structural, Debug)]
pub enum Color {
    Reset,
    Black,
    Red,
    Green,
    Yellow,
    Blue,
    Magenta,
    Cyan,
    Gray,
    White,
    Rgb(u8, u8, u8),
}

impl Color {
    pub fn red() -> (c: Color)
        ensures
            c == Color::Red,
    {
        Color::Red
    }

    pub fn green() -> (c: Color)
        ensures
            c == Color::Green,
    {
        Color::Green
    }

    pub fn blue() -> (c: Color)
        ensures
            c == Color::Blue,
    {
        Color::Blue
    }

    pub fn white() -> (c: Color)
        ensures
            c == Color::White,
    {
        Color::White
    }

    pub fn black() -> (c: Color)
        ensures
            c == Color::Black,
    {
        Color::Black
    }

    pub fn cyan() -> (c: Color)
        ensures
            c == Color::Cyan,
    {
        Color::Cyan
    }

    pub fn magenta() -> (c: Color)
        ensures
            c == Color::Magenta,
    {
        Color::Magenta
    }

    pub fn yellow() -> (c: Color)
        ensures
            c == Color::Yellow,
    {
        Color::Yellow
    }

    pub fn gray() -> (c: Color)
        ensures
            c == Color::Gray,
    {
        Color::Gray
    }

    pub fn rgb(r: u8, g: u8, b: u8) -> (c: Color)
        ensures
            c == Color::Rgb(r, g, b),
    {
        Color::Rgb(r, g, b)
    }
}

/// A set of style attributes for one cell.
#[derive(Clone, Copy, PartialEq, Eq, Structural, Debug)]
pub struct Style {
    pub is_bold: bool,
    pub is_italic: bool,
    pub is_underline: bool,
}

impl Style {
    /// The plain style: no attributes set.
    pub open spec fn spec_plain() -> Style {
        Style { is_bold: false, is_italic: false, is_underline: false }
    }

    /// The style with only the bold attribute set.
    pub open spec fn spec_bold() -> Style {
        Style { is_bold: true, is_italic: false, is_underline: false }
    }

    /// The style with only the italic attribute set.
    pub open spec fn spec_italic() -> Style {
        Style { is_bold: false, is_italic: true, is_underline: false }
    }

    pub fn new() -> (s: Style)
        ensures
            s == Style::spec_plain(),
    {
        Style { is_bold: false, is_italic: false, is_underline: false }
    }

    /// This style with the bold attribute added.
    pub fn bold(&self) -> (s: Style)
        ensures
            s == (Style { is_bold: true, ..*self }),
    {
        Style { is_bold: true, ..*self }
    }

    /// This style with the italic attribute added.
    pub fn italic(&self) -> (s: Style)
        ensures
            s == (Style { is_italic: true, ..*self }),
    {
        Style { is_italic: true, ..*self }
    }

    /// This style with the underline attribute added.
    pub fn underline(&self) -> (s: Style)
        ensures
            s == (Style { is_underline: true, ..*self }),
    {
        Style { is_underline: true, ..*self }
    }
}

/// A named color theme.
#[derive(Clone, Copy, PartialEq, Eq, Structural, Debug)]
pub enum Theme {
    Dark,
    Light,
    Monokai,
}

impl Theme {
    pub fn dark() -> (t: Theme)
        ensures
            t == Theme::Dark,
    {
        Theme::Dark
    }

    pub fn light() -> (t: Theme)
        ensures
            t == Theme::Light,
    {
        Theme::Light
    }

    pub fn monokai() -> (t: Theme)
        ensures
            t == Theme::Monokai,
    {
        Theme::Monokai
    }
}

} // verus!
