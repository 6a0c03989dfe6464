//! The trusted boundary to the syntect syntax highlighter: a highlighter
//! paired with the syntax set it draws its parse contexts from, and one
//! call that partitions a line into styled tokens.

use vstd::prelude::*;

use syntect::easy::HighlightLines;
use syntect::highlighting::Color as SyntectColor;
use syntect::highlighting::Style as SyntectStyle;
use syntect::highlighting::Theme;
use syntect::parsing::SyntaxSet;

use crate::color::{Rgba, SyntaxStyle};
use crate::paint::syntax_sections_view;
use crate::superimpose::section_chars;

verus! {

#[verifier::external_type_specification]
#[verifier::external_body]
pub struct ExHighlightLines<'a>(HighlightLines<'a>);

#[verifier::external_type_specification]
#[verifier::external_body]
pub struct ExSyntaxSet(SyntaxSet);

#[verifier::external_type_specification]
#[verifier::external_body]
pub struct ExTheme(Theme);

#[verifier::external_type_specification]
#[verifier::external_body]
pub struct ExSyntectStyle(SyntectStyle);

#[verifier::external_type_specification]
#[verifier::external_body]
pub struct ExSyntectColor(SyntectColor);

/// A line highlighter kept together with the syntax set it was built from.
/// The pairing matters: the highlighter's parse state addresses contexts by
/// bare index into that one set, so highlighting against any other set
/// would read out of bounds. The only constructor takes the set and looks
/// the syntax up inside it, so the two can never be separated.
pub struct LineHighlighter<'a> {
    highlighter: HighlightLines<'a>,
    syntax_set: &'a SyntaxSet,
}

/// Relies on syntect's find_syntax_by_extension, find_syntax_by_name and
/// HighlightLines::new: picks the syntax for `extension` out of
/// `syntax_set` — falling back to the set's plain-text syntax — and pairs a
/// fresh highlighter over it with that same set. The lookups are plain
/// searches; None comes back when the set holds neither syntax. Every
/// loaded syntax carries its start context, so building the parse state
/// over a syntax found in the set cannot fail.
#[verifier::external_body]
pub fn new_line_highlighter<'a>(
    syntax_set: &'a SyntaxSet,
    extension: &str,
    theme: &'a Theme,
) -> (r: Option<LineHighlighter<'a>>) {
    let syntax = match syntax_set.find_syntax_by_extension(extension) {
        Some(syntax) => syntax,
        None => match syntax_set.find_syntax_by_name("Plain Text") {
            Some(syntax) => syntax,
            None => return None,
        },
    };
    Some(LineHighlighter { highlighter: HighlightLines::new(syntax, theme), syntax_set })
}

/// Relies on syntect's highlighting Color: reads its four channels.
#[verifier::external_body]
fn rgba_of(color: SyntectColor) -> (c: Rgba) {
    Rgba { r: color.r, g: color.g, b: color.b, a: color.a }
}

/// Relies on syntect's highlighting Style: reads its two colors and its
/// font-attribute bits.
#[verifier::external_body]
fn syntax_style_of(style: SyntectStyle) -> (s: SyntaxStyle) {
    SyntaxStyle {
        foreground: rgba_of(style.foreground),
        background: rgba_of(style.background),
        font_style: style.font_style.bits(),
    }
}

/// Relies on syntect's HighlightLines::highlight, called on the syntax set
/// the highlighter was built from: partitions one line into styled tokens.
/// Its source documents that the concatenation of the token texts makes the
/// original line; which styles come back depends on the highlighter's
/// accumulated parse state, so nothing is promised of them.
#[verifier::external_body]
pub fn highlight_line(highlighter: &mut LineHighlighter<'_>, line: &str) -> (sections: Vec<
    (SyntaxStyle, String),
>)
    ensures
        section_chars(syntax_sections_view(sections@)) == line@,
{
    let mut sections: Vec<(SyntaxStyle, String)> = Vec::new();
    for (style, text) in highlighter.highlighter.highlight(line, highlighter.syntax_set) {
        sections.push((syntax_style_of(style), text.to_string()));
    }
    sections
}

} // verus!
