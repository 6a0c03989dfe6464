//! The syntax-highlighter color model and its translation into a
//! terminal-renderable color under the active color capability.

use vstd::prelude::*;

use crate::style::AnsiColor;

verus! {

/// An RGBA color as a syntax-highlighting theme supplies it. An alpha of
/// zero is a palette-passthrough convention: the red component then names a
/// terminal palette entry rather than a color of its own.
#[derive(Clone, Copy, Debug, PartialEq, Eq, Structural)]
pub struct Rgba {
    pub r: u8,
    pub g: u8,
    pub b: u8,
    pub a: u8,
}

/// A style as the syntax highlighter reports it: foreground and background
/// colors plus a font-attribute bit set (bold, underline, italic).
#[derive(Clone, Copy, Debug, PartialEq, Eq, Structural)]
pub struct SyntaxStyle {
    pub foreground: Rgba,
    pub background: Rgba,
    pub font_style: u8,
}

impl SyntaxStyle {
    /// The "no annotation" sentinel: the style a highlighter reports when a
    /// theme gives it nothing to say (black on white, no attributes).
    pub fn null() -> (s: SyntaxStyle)
        ensures
            s == SyntaxStyle::spec_null(),
    {
        SyntaxStyle {
            foreground: Rgba { r: 0x00, g: 0x00, b: 0x00, a: 0xff },
            background: Rgba { r: 0xff, g: 0xff, b: 0xff, a: 0xff },
            font_style: 0,
        }
    }

    pub open spec fn spec_null() -> SyntaxStyle {
        SyntaxStyle {
            foreground: Rgba { r: 0x00, g: 0x00, b: 0x00, a: 0xff },
            background: Rgba { r: 0xff, g: 0xff, b: 0xff, a: 0xff },
            font_style: 0,
        }
    }
}

/// The nearest entry of the 256-color terminal palette for an RGB value:
/// the gray ramp for gray values, otherwise the 6x6x6 color cube.
pub open spec fn spec_ansi256_from_rgb(r: u8, g: u8, b: u8) -> u8 {
    if r == g && g == b {
        if r < 8 {
            16u8
        } else if r > 238 {
            231u8
        } else {
            (232 + (r - 8) / 10) as u8
        }
    } else {
        (16 + 36 * ((r * 5 + 127) / 255) + 6 * ((g * 5 + 127) / 255) + ((b * 5 + 127) / 255)) as u8
    }
}

/// Quantizes one 8-bit channel onto the six levels of the palette cube.
fn cube_level(x: u8) -> (l: u8)
    ensures
        l == (x * 5 + 127) / 255,
        l <= 5,
{
    (((x as u32) * 5 + 127) / 255) as u8
}

/// Maps an RGB value onto the 256-color terminal palette.
pub fn ansi256_from_rgb(r: u8, g: u8, b: u8) -> (idx: u8)
    ensures
        idx == spec_ansi256_from_rgb(r, g, b),
{
    if r == g && g == b {
        if r < 8 {
            16
        } else if r > 238 {
            231
        } else {
            232 + (r - 8) / 10
        }
    } else {
        16 + 36 * cube_level(r) + 6 * cube_level(g) + cube_level(b)
    }
}

/// The terminal color that stands for a theme color under the given color
/// capability: a palette passthrough when the alpha is zero (named entries
/// for the first eight indices), the RGB value itself on a true-color
/// terminal, and the nearest 256-color palette entry otherwise.
pub open spec fn spec_to_ansi_color(color: Rgba, true_color: bool) -> AnsiColor {
    if color.a == 0 {
        match color.r {
            0u8 => AnsiColor::Black,
            1u8 => AnsiColor::Red,
            2u8 => AnsiColor::Green,
            3u8 => AnsiColor::Yellow,
            4u8 => AnsiColor::Blue,
            5u8 => AnsiColor::Purple,
            6u8 => AnsiColor::Cyan,
            7u8 => AnsiColor::White,
            n => AnsiColor::Fixed(n),
        }
    } else if true_color {
        AnsiColor::Rgb(color.r, color.g, color.b)
    } else {
        AnsiColor::Fixed(spec_ansi256_from_rgb(color.r, color.g, color.b))
    }
}

/// Translates a theme color into a terminal-renderable color under the
/// active color capability.
pub fn to_ansi_color(color: Rgba, true_color: bool) -> (c: AnsiColor)
    ensures
        c == spec_to_ansi_color(color, true_color),
{
    if color.a == 0 {
        match color.r {
            0 => AnsiColor::Black,
            1 => AnsiColor::Red,
            2 => AnsiColor::Green,
            3 => AnsiColor::Yellow,
            4 => AnsiColor::Blue,
            5 => AnsiColor::Purple,
            6 => AnsiColor::Cyan,
            7 => AnsiColor::White,
            n => AnsiColor::Fixed(n),
        }
    } else if true_color {
        AnsiColor::Rgb(color.r, color.g, color.b)
    } else {
        AnsiColor::Fixed(ansi256_from_rgb(color.r, color.g, color.b))
    }
}

} // verus!
