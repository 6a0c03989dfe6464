//! Terminal control sequences, the width-extension fill step, and the
//! trusted rendering of styled pieces through the ansi_term crate.

use vstd::prelude::*;

use ansi_term::Colour as TermColour;
use ansi_term::Style as TermStyle;

use crate::style::{AnsiColor, Style};
use crate::superimpose::owned_runs_view;

verus! {

/// The "clear to end of line" control sequence: it extends the current
/// background color to the edge of the terminal without printing glyphs.
pub open spec fn ansi_csi_erase_in_line() -> Seq<char> {
    seq!['\u{1b}', '[', 'K']
}

/// The style-reset control sequence.
pub open spec fn ansi_sgr_reset() -> Seq<char> {
    seq!['\u{1b}', '[', '0', 'm']
}

/// Whether `s` ends with `suffix`.
pub open spec fn ends_with(s: Seq<char>, suffix: Seq<char>) -> bool {
    s.len() >= suffix.len() && s.subrange(s.len() - suffix.len(), s.len() as int) == suffix
}

/// A composed line with one trailing style-reset sequence removed, if it
/// ends with one.
pub open spec fn strip_trailing_reset(s: Seq<char>) -> Seq<char> {
    if ends_with(s, ansi_sgr_reset()) {
        s.subrange(0, s.len() - 4)
    } else {
        s
    }
}

/// The fixed-width background-fill step: remove a trailing style reset if
/// present, make sure exactly one "clear to end of line" sequence ends the
/// text, and close with one explicit style reset.
pub open spec fn extend_background_fill(s: Seq<char>) -> Seq<char> {
    let stripped = strip_trailing_reset(s);
    if ends_with(stripped, ansi_csi_erase_in_line()) {
        stripped + ansi_sgr_reset()
    } else {
        stripped + ansi_csi_erase_in_line() + ansi_sgr_reset()
    }
}

/// Width-extension idempotence: applying the background-fill step to a line
/// that is already fill-terminated changes nothing, so the clear-to-end-of-
/// line sequence is never duplicated.
pub proof fn lemma_background_fill_idempotent(s: Seq<char>)
    ensures
        extend_background_fill(extend_background_fill(s)) == extend_background_fill(s),
{
    let stripped = strip_trailing_reset(s);
    let filled = extend_background_fill(s);
    if ends_with(stripped, ansi_csi_erase_in_line()) {
        assert(filled == stripped + ansi_sgr_reset());
        assert(ends_with(filled, ansi_sgr_reset())) by {
            assert(filled.subrange(filled.len() - 4, filled.len() as int) =~= ansi_sgr_reset());
        }
        assert(strip_trailing_reset(filled) =~= stripped);
        assert(extend_background_fill(filled) == filled);
    } else {
        assert(filled == stripped + ansi_csi_erase_in_line() + ansi_sgr_reset());
        assert(ends_with(filled, ansi_sgr_reset())) by {
            assert(filled.subrange(filled.len() - 4, filled.len() as int) =~= ansi_sgr_reset());
        }
        assert(strip_trailing_reset(filled) =~= stripped + ansi_csi_erase_in_line());
        assert(ends_with(stripped + ansi_csi_erase_in_line(), ansi_csi_erase_in_line())) by {
            assert((stripped + ansi_csi_erase_in_line()).subrange(
                stripped.len() as int,
                stripped.len() as int + 3,
            ) =~= ansi_csi_erase_in_line());
        }
        assert(extend_background_fill(filled) =~= filled);
    }
}

/// Decides whether a composed line ends with the style-reset sequence.
fn ends_with_reset(line: &Vec<char>) -> (r: bool)
    ensures
        r == ends_with(line@, ansi_sgr_reset()),
{
    let n = line.len();
    if n < 4 {
        return false;
    }
    let r = line[n - 4] == '\u{1b}' && line[n - 3] == '[' && line[n - 2] == '0' && line[n - 1]
        == 'm';
    proof {
        if r {
            assert(line@.subrange(line@.len() - 4, line@.len() as int) =~= ansi_sgr_reset());
        }
    }
    r
}

/// Decides whether a composed line ends with the clear-to-end-of-line
/// sequence.
fn ends_with_erase_in_line(line: &Vec<char>) -> (r: bool)
    ensures
        r == ends_with(line@, ansi_csi_erase_in_line()),
{
    let n = line.len();
    if n < 3 {
        return false;
    }
    let r = line[n - 3] == '\u{1b}' && line[n - 2] == '[' && line[n - 1] == 'K';
    proof {
        if r {
            assert(line@.subrange(line@.len() - 3, line@.len() as int) =~= ansi_csi_erase_in_line());
        }
    }
    r
}

/// Applies the fixed-width background-fill step to a composed line.
pub fn extend_line_background_fill(line: &mut Vec<char>)
    ensures
        final(line)@ == extend_background_fill(old(line)@),
{
    if ends_with_reset(line) {
        let n = line.len();
        line.truncate(n - 4);
        proof {
            assert(line@ =~= strip_trailing_reset(old(line)@));
        }
    }
    if ends_with_erase_in_line(line) {
        line.push('\u{1b}');
        line.push('[');
        line.push('0');
        line.push('m');
        proof {
            assert(line@ =~= strip_trailing_reset(old(line)@) + ansi_sgr_reset());
        }
    } else {
        line.push('\u{1b}');
        line.push('[');
        line.push('K');
        line.push('\u{1b}');
        line.push('[');
        line.push('0');
        line.push('m');
        proof {
            assert(line@ =~= strip_trailing_reset(old(line)@) + ansi_csi_erase_in_line()
                + ansi_sgr_reset());
        }
    }
}

#[verifier::external_type_specification]
#[verifier::external_body]
pub struct ExAnsiStyle(TermStyle);

#[verifier::external_type_specification]
#[verifier::external_body]
pub struct ExAnsiColour(TermColour);

/// What the ansi_term crate prints for a list of styled pieces: each piece's
/// text wrapped in the control sequences of its style, with redundant
/// transitions between equal neighboring styles elided; a function of the
/// pieces alone.
pub uninterp spec fn ansi_rendering(pieces: Seq<(Style, Seq<char>)>) -> Seq<char>;

/// Relies on ansi_term's ANSIStrings display: renders styled pieces into one
/// string of text and control sequences. Its source renders an empty piece
/// list as empty text.
#[verifier::external_body]
pub fn paint_pieces(pieces: &Vec<(Style, String)>) -> (line: Vec<char>)
    ensures
        line@ == ansi_rendering(owned_runs_view(pieces@)),
        pieces@.len() == 0 ==> line@ == Seq::<char>::empty(),
{
    let mut strings: Vec<ansi_term::ANSIString> = Vec::new();
    for (style, text) in pieces.iter() {
        strings.push(to_ansi_term_style(style).paint(text.as_str()));
    }
    let rendered = ansi_term::ANSIStrings(&strings).to_string();
    rendered.chars().collect()
}

/// Relies on ansi_term::Colour: carries one terminal color across, variant
/// for variant.
#[verifier::external_body]
fn to_ansi_term_colour(color: AnsiColor) -> (c: TermColour) {
    match color {
        AnsiColor::Black => ansi_term::Colour::Black,
        AnsiColor::Red => ansi_term::Colour::Red,
        AnsiColor::Green => ansi_term::Colour::Green,
        AnsiColor::Yellow => ansi_term::Colour::Yellow,
        AnsiColor::Blue => ansi_term::Colour::Blue,
        AnsiColor::Purple => ansi_term::Colour::Purple,
        AnsiColor::Cyan => ansi_term::Colour::Cyan,
        AnsiColor::White => ansi_term::Colour::White,
        AnsiColor::Fixed(n) => ansi_term::Colour::Fixed(n),
        AnsiColor::Rgb(r, g, b) => ansi_term::Colour::RGB(r, g, b),
    }
}

/// Relies on ansi_term::Style: carries the attribute fields across one for
/// one.
#[verifier::external_body]
fn to_ansi_term_style(style: &Style) -> (s: TermStyle) {
    TermStyle {
        foreground: style.ansi_term_style.foreground.map(to_ansi_term_colour),
        background: style.ansi_term_style.background.map(to_ansi_term_colour),
        is_bold: style.ansi_term_style.is_bold,
        is_dimmed: style.ansi_term_style.is_dimmed,
        is_italic: style.ansi_term_style.is_italic,
        is_underline: style.ansi_term_style.is_underline,
        is_blink: style.ansi_term_style.is_blink,
        is_reverse: style.ansi_term_style.is_reverse,
        is_hidden: style.ansi_term_style.is_hidden,
        is_strikethrough: style.ansi_term_style.is_strikethrough,
    }
}

} // verus!
