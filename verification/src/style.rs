//! The terminal style model: colors, font attributes, and the flags that the
//! diff renderer attaches to a run of text.

use vstd::prelude::*;

verus! {

/// A terminal color: one of the eight named palette entries, an
/// eight-bit palette index, or a 24-bit RGB value.
#[derive(Clone, Copy, Debug, PartialEq, Eq, Structural)]
pub enum AnsiColor {
    Black,
    Red,
    Green,
    Yellow,
    Blue,
    Purple,
    Cyan,
    White,
    Fixed(u8),
    Rgb(u8, u8, u8),
}

/// The attribute part of a terminal style: optional foreground and background
/// colors plus the classic font flags.
#[derive(Clone, Copy, Debug, PartialEq, Eq)]
pub struct AnsiTermStyle {
    pub foreground: Option<AnsiColor>,
    pub background: Option<AnsiColor>,
    pub is_bold: bool,
    pub is_dimmed: bool,
    pub is_italic: bool,
    pub is_underline: bool,
    pub is_blink: bool,
    pub is_reverse: bool,
    pub is_hidden: bool,
    pub is_strikethrough: bool,
}

impl AnsiTermStyle {
    /// The plain style: no colors, no attributes.
    pub fn new() -> (s: AnsiTermStyle)
        ensures
            s == AnsiTermStyle::plain(),
    {
        AnsiTermStyle {
            foreground: None,
            background: None,
            is_bold: false,
            is_dimmed: false,
            is_italic: false,
            is_underline: false,
            is_blink: false,
            is_reverse: false,
            is_hidden: false,
            is_strikethrough: false,
        }
    }

    pub open spec fn plain() -> AnsiTermStyle {
        AnsiTermStyle {
            foreground: None,
            background: None,
            is_bold: false,
            is_dimmed: false,
            is_italic: false,
            is_underline: false,
            is_blink: false,
            is_reverse: false,
            is_hidden: false,
            is_strikethrough: false,
        }
    }
}

/// The kind of decoration that a style may carry; the hunk renderer never
/// draws decorations itself, it only passes the kind along.
#[derive(Clone, Copy, Debug, PartialEq, Eq, Structural)]
pub enum DecorationStyle {
    Box,
    Underline,
    Overline,
    UnderOverline,
    NoDecoration,
}

/// A resolved style for a run of diff output: terminal attributes plus the
/// flags that record where the run came from and how it is to be painted.
#[derive(Clone, Copy, Debug, PartialEq, Eq)]
pub struct Style {
    pub ansi_term_style: AnsiTermStyle,
    pub is_emph: bool,
    pub is_omitted: bool,
    pub is_raw: bool,
    pub is_syntax_highlighted: bool,
    pub decoration_style: DecorationStyle,
}

impl Style {
    /// The null style: plain attributes and every flag off.
    pub fn new() -> (s: Style)
        ensures
            s == Style::null(),
    {
        Style {
            ansi_term_style: AnsiTermStyle::new(),
            is_emph: false,
            is_omitted: false,
            is_raw: false,
            is_syntax_highlighted: false,
            decoration_style: DecorationStyle::NoDecoration,
        }
    }

    pub open spec fn null() -> Style {
        Style {
            ansi_term_style: AnsiTermStyle::plain(),
            is_emph: false,
            is_omitted: false,
            is_raw: false,
            is_syntax_highlighted: false,
            decoration_style: DecorationStyle::NoDecoration,
        }
    }
}

/// Decides equality of two optional colors; `==` through the derived
/// `PartialEq` would tell Verus nothing.
pub fn option_color_eq(a: &Option<AnsiColor>, b: &Option<AnsiColor>) -> (r: bool)
    ensures
        r == (a == b),
{
    match (a, b) {
        (None, None) => true,
        (Some(x), Some(y)) => *x == *y,
        _ => false,
    }
}

/// Decides equality of two attribute styles field by field.
pub fn ansi_term_style_eq(a: &AnsiTermStyle, b: &AnsiTermStyle) -> (r: bool)
    ensures
        r == (a == b),
{
    option_color_eq(&a.foreground, &b.foreground) && option_color_eq(&a.background, &b.background)
        && a.is_bold == b.is_bold && a.is_dimmed == b.is_dimmed && a.is_italic == b.is_italic
        && a.is_underline == b.is_underline && a.is_blink == b.is_blink && a.is_reverse
        == b.is_reverse && a.is_hidden == b.is_hidden && a.is_strikethrough == b.is_strikethrough
}

/// Decides equality of two resolved styles field by field.
pub fn style_eq(a: &Style, b: &Style) -> (r: bool)
    ensures
        r == (a == b),
{
    ansi_term_style_eq(&a.ansi_term_style, &b.ansi_term_style) && a.is_emph == b.is_emph
        && a.is_omitted == b.is_omitted && a.is_raw == b.is_raw && a.is_syntax_highlighted
        == b.is_syntax_highlighted && a.decoration_style == b.decoration_style
}

} // verus!
