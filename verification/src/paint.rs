//! The line renderer and the paint buffer.
//!
//! `paint_lines` assembles one terminal line per input line — gutter pieces,
//! prefix marker, superimposed content, background fill — and appends the
//! result to an output buffer. `Painter` owns the per-side line buffers and
//! counters, drives a flush, and hands the accumulated output to its caller
//! through an explicit emit-and-clear step.

use vstd::pervasive::unreached;
use vstd::prelude::*;
use vstd::string::StringExecFns;

use crate::ansi::{ansi_rendering, extend_background_fill, extend_line_background_fill, paint_pieces};
use crate::chars::{append_chars, chars_of, chars_range_string};
use crate::color::SyntaxStyle;
use crate::config::Config;
use crate::error::PaintError;
use crate::highlight::{highlight_line, LineHighlighter};
use crate::line_numbers::{
    get_line_number_components, has_line_numbers, placeholder_at, spec_format_line_number,
    template_well_formed,
};
use crate::state::State;
use crate::style::{style_eq, Style};
use crate::superimpose::{
    lemma_section_chars_same_texts, lemma_section_chars_single, owned_runs_view, section_chars,
    spec_superimpose, str_sections_view, superimpose_style_sections,
};

verus! {

/// The mathematical value of one line's syntax partition.
pub open spec fn syntax_sections_view(line: Seq<(SyntaxStyle, String)>) -> Seq<
    (SyntaxStyle, Seq<char>),
> {
    line.map_values(|p: (SyntaxStyle, String)| (p.0, p.1@))
}

/// The mathematical value of a whole buffer's syntax partitions.
pub open spec fn syntax_lines_view(lines: Seq<Vec<(SyntaxStyle, String)>>) -> Seq<
    Seq<(SyntaxStyle, Seq<char>)>,
> {
    lines.map_values(|l: Vec<(SyntaxStyle, String)>| syntax_sections_view(l@))
}

/// The mathematical value of a whole buffer's diff partitions.
pub open spec fn diff_lines_view(lines: Seq<Vec<(Style, String)>>) -> Seq<Seq<(Style, Seq<char>)>> {
    lines.map_values(|l: Vec<(Style, String)>| owned_runs_view(l@))
}

/// Whether a line's diff partition carries more than one distinct style —
/// that is, whether the line holds an emphasized sub-range. The partition
/// arrives uncoalesced, so more than one section does not by itself mean
/// more than one style.
pub open spec fn sections_have_multiple_styles(sections: Seq<(Style, Seq<char>)>) -> bool {
    exists|j: int| 0 < j < sections.len() && (#[trigger] sections[j]).0 != sections[0].0
}

/// Decides whether a diff partition carries more than one distinct style.
pub fn style_sections_contain_more_than_one_style(sections: &Vec<(Style, String)>) -> (r: bool)
    ensures
        r == sections_have_multiple_styles(owned_runs_view(sections@)),
{
    let n = sections.len();
    if n <= 1 {
        return false;
    }
    let first = &sections[0];
    let mut j: usize = 1;
    while j < n
        invariant
            1 <= j <= n,
            n == sections@.len(),
            first == &sections@[0],
            forall|j2: int| 0 < j2 < j ==> (#[trigger] sections@[j2]).0 == sections@[0].0,
        decreases n - j,
    {
        if !style_eq(&sections[j].0, &first.0) {
            proof {
                assert((owned_runs_view(sections@)[j as int]).0 != owned_runs_view(sections@)[0].0);
            }
            return true;
        }
        j += 1;
    }
    proof {
        assert forall|j2: int|
            0 < j2 < owned_runs_view(sections@).len() implies (#[trigger] owned_runs_view(
            sections@,
        )[j2]).0 == owned_runs_view(sections@)[0].0 by {
            assert(sections@[j2].0 == sections@[0].0);
        }
    }
    false
}

/// One line's diff partition with every non-emphasized section rewritten to
/// the non-emphasis style — but only on a line that actually holds an
/// emphasized sub-range, so purely-context lines keep their base style.
pub open spec fn spec_non_emph_line(line: Seq<(Style, Seq<char>)>, non_emph_style: Style) -> Seq<
    (Style, Seq<char>),
> {
    if sections_have_multiple_styles(line) {
        line.map_values(
            |p: (Style, Seq<char>)|
                if !p.0.is_emph {
                    (non_emph_style, p.1)
                } else {
                    p
                },
        )
    } else {
        line
    }
}

/// A whole buffer's diff partitions with non-emphasized sections rewritten
/// line by line.
pub open spec fn spec_set_non_emph(lines: Seq<Seq<(Style, Seq<char>)>>, non_emph_style: Style) -> Seq<
    Seq<(Style, Seq<char>)>,
> {
    lines.map_values(|l: Seq<(Style, Seq<char>)>| spec_non_emph_line(l, non_emph_style))
}

/// Rewrites, in each line that holds an emphasized sub-range, every
/// non-emphasized section to the non-emphasis style; this keeps the visual
/// distinction between the changed text and the context around it.
pub fn set_non_emph_styles(style_sections: &mut Vec<Vec<(Style, String)>>, non_emph_style: Style)
    ensures
        diff_lines_view(final(style_sections)@) == spec_set_non_emph(
            diff_lines_view(old(style_sections)@),
            non_emph_style,
        ),
{
    let n = style_sections.len();
    let mut out: Vec<Vec<(Style, String)>> = Vec::new();
    let mut k: usize = 0;
    while k < n
        invariant
            k <= n,
            n == old(style_sections)@.len(),
            style_sections@ == old(style_sections)@,
            out@.len() == k,
            forall|i: int|
                0 <= i < k ==> owned_runs_view((#[trigger] out@[i])@) == spec_non_emph_line(
                    owned_runs_view(old(style_sections)@[i]@),
                    non_emph_style,
                ),
        decreases n - k,
    {
        let line = &style_sections[k];
        let multiple = style_sections_contain_more_than_one_style(line);
        let m = line.len();
        let mut new_line: Vec<(Style, String)> = Vec::new();
        let mut j: usize = 0;
        while j < m
            invariant
                j <= m,
                m == line@.len(),
                line == &style_sections@[k as int],
                k < style_sections@.len(),
                multiple == sections_have_multiple_styles(owned_runs_view(line@)),
                new_line@.len() == j,
                forall|i: int|
                    0 <= i < j ==> (#[trigger] new_line@[i]).0 == (if multiple
                        && !line@[i].0.is_emph {
                        non_emph_style
                    } else {
                        line@[i].0
                    }) && new_line@[i].1@ == line@[i].1@,
            decreases m - j,
        {
            let section = &line[j];
            if multiple && !section.0.is_emph {
                new_line.push((non_emph_style, section.1.clone()));
            } else {
                new_line.push((section.0, section.1.clone()));
            }
            j += 1;
        }
        proof {
            assert(owned_runs_view(new_line@) =~= spec_non_emph_line(
                owned_runs_view(line@),
                non_emph_style,
            ));
        }
        out.push(new_line);
        k += 1;
    }
    *style_sections = out;
    proof {
        assert(diff_lines_view(final(style_sections)@) =~= spec_set_non_emph(
            diff_lines_view(old(style_sections)@),
            non_emph_style,
        ));
    }
}

/// Whether the gutter is rendered for a line: line numbering must be on,
/// and the line must carry a number on at least one side.
pub open spec fn line_numbers_active(config: Config, ln: (Option<usize>, Option<usize>)) -> bool {
    config.show_line_numbers && (ln.0 is Some || ln.1 is Some)
}

/// The placeholder position of a well-formed gutter template.
pub open spec fn split_point(s: Seq<char>) -> int {
    choose|i: int| placeholder_at(s, i)
}

/// The six styled gutter pieces of one line: the minus column's literal
/// text, number cell and trailing literal, then the plus column's three.
pub open spec fn spec_gutter_pieces(config: Config, ln: (Option<usize>, Option<usize>)) -> Seq<
    (Style, Seq<char>),
> {
    let mf = config.number_minus_format@;
    let pf = config.number_plus_format@;
    let mi = split_point(mf);
    let pi = split_point(pf);
    seq![
        (config.number_minus_format_style, mf.subrange(0, mi)),
        (config.number_minus_style, spec_format_line_number(ln.0)),
        (config.number_minus_format_style, mf.subrange(mi + 3, mf.len() as int)),
        (config.number_plus_format_style, pf.subrange(0, pi)),
        (config.number_plus_style, spec_format_line_number(ln.1)),
        (config.number_plus_format_style, pf.subrange(pi + 3, pf.len() as int)),
    ]
}

/// The superimposed content with the prefix marker injected: the marker is
/// painted in the first content span's style, and one character is consumed
/// from the front of that span's text so the marker is not duplicated. A
/// blank marker leaves the content untouched.
pub open spec fn spec_prefixed_content(
    content: Seq<(Style, Seq<char>)>,
    prefix: Seq<char>,
) -> Seq<(Style, Seq<char>)> {
    if prefix.len() == 0 || content.len() == 0 {
        content
    } else {
        let first = content.first();
        let trimmed = if first.1.len() > 0 {
            first.1.drop_first()
        } else {
            first.1
        };
        seq![(first.0, prefix), (first.0, trimmed)] + content.drop_first()
    }
}

/// The style used for the right fill: the line's own base style, unless the
/// line holds an emphasized sub-range, in which case the side's
/// non-emphasis style.
pub open spec fn spec_fill_style(
    diff_sections: Seq<(Style, Seq<char>)>,
    style: Style,
    non_emph_style: Style,
) -> Style {
    if sections_have_multiple_styles(diff_sections) {
        non_emph_style
    } else {
        style
    }
}

/// Every styled piece of one rendered line, in order: gutter, prefixed
/// content, and — when the fill style has a background color — one empty
/// piece carrying that style, so a width-extension sequence inherits the
/// right background.
pub open spec fn spec_line_pieces(
    syntax_sections: Seq<(SyntaxStyle, Seq<char>)>,
    diff_sections: Seq<(Style, Seq<char>)>,
    ln: (Option<usize>, Option<usize>),
    config: Config,
    prefix: Seq<char>,
    style: Style,
    non_emph_style: Style,
) -> Seq<(Style, Seq<char>)> {
    let gutter = if line_numbers_active(config, ln) {
        spec_gutter_pieces(config, ln)
    } else {
        Seq::empty()
    };
    let content = spec_superimpose(
        syntax_sections,
        diff_sections,
        config.true_color,
        config.null_syntax_style,
    );
    let fill_style = spec_fill_style(diff_sections, style, non_emph_style);
    let with_prefix = gutter + spec_prefixed_content(content, prefix);
    if fill_style.ansi_term_style.background is Some {
        with_prefix + seq![(fill_style, Seq::<char>::empty())]
    } else {
        with_prefix
    }
}

/// One rendered line: its pieces rendered through the terminal-control
/// renderer, the background fill applied when the policy asks for it and a
/// fill background exists, and exactly one line terminator appended.
pub open spec fn spec_render_line(
    syntax_sections: Seq<(SyntaxStyle, Seq<char>)>,
    diff_sections: Seq<(Style, Seq<char>)>,
    ln: (Option<usize>, Option<usize>),
    config: Config,
    prefix: Seq<char>,
    style: Style,
    non_emph_style: Style,
    bg_extend: bool,
) -> Seq<char> {
    let pieces = spec_line_pieces(
        syntax_sections,
        diff_sections,
        ln,
        config,
        prefix,
        style,
        non_emph_style,
    );
    let fill_style = spec_fill_style(diff_sections, style, non_emph_style);
    let line = ansi_rendering(pieces);
    let filled = if bg_extend && fill_style.ansi_term_style.background is Some {
        extend_background_fill(line)
    } else {
        line
    };
    filled.push('\n')
}

/// No fatal condition stops this line: any gutter template it needs is well
/// formed, and its two partitions agree on the text they cover.
pub open spec fn spec_line_ok(
    syntax_sections: Seq<(SyntaxStyle, Seq<char>)>,
    diff_sections: Seq<(Style, Seq<char>)>,
    ln: (Option<usize>, Option<usize>),
    config: Config,
) -> bool {
    &&& line_numbers_active(config, ln) ==> template_well_formed(config.number_minus_format@)
        && template_well_formed(config.number_plus_format@)
    &&& section_chars(syntax_sections) == section_chars(diff_sections)
}

/// The error that a disagreement between the two partitions surfaces:
/// differing lengths, or the first differing position.
pub open spec fn spec_mismatch_error_matches(e: PaintError, c1: Seq<char>, c2: Seq<char>) -> bool {
    if c1.len() != c2.len() {
        e == (PaintError::SectionLengthMismatch {
            syntax_len: c1.len() as usize,
            diff_len: c2.len() as usize,
        })
    } else {
        exists|i: int|
            0 <= i < c1.len() && c1[i] != (#[trigger] c2[i]) && (forall|j: int|
                0 <= j < i ==> c1[j] == c2[j]) && e == (PaintError::SectionCharMismatch {
                position: i as usize,
                syntax_char: c1[i],
                diff_char: c2[i],
            })
    }
}

/// The error that the first failing line surfaces: a bad minus template
/// first, then a bad plus template, then the partition mismatch.
pub open spec fn spec_line_error_matches(
    e: PaintError,
    syntax_sections: Seq<(SyntaxStyle, Seq<char>)>,
    diff_sections: Seq<(Style, Seq<char>)>,
    ln: (Option<usize>, Option<usize>),
    config: Config,
) -> bool {
    if line_numbers_active(config, ln) && !template_well_formed(config.number_minus_format@) {
        &&& e matches PaintError::InvalidLineNumberFormat { format }
        &&& format@ == config.number_minus_format@
    } else if line_numbers_active(config, ln) && !template_well_formed(config.number_plus_format@) {
        &&& e matches PaintError::InvalidLineNumberFormat { format }
        &&& format@ == config.number_plus_format@
    } else {
        spec_mismatch_error_matches(
            e,
            section_chars(syntax_sections),
            section_chars(diff_sections),
        )
    }
}

/// The whole rendering that a list of lines appends, first line first.
pub open spec fn spec_paint_lines(
    syntax_lines: Seq<Seq<(SyntaxStyle, Seq<char>)>>,
    diff_lines: Seq<Seq<(Style, Seq<char>)>>,
    numbers: Seq<(Option<usize>, Option<usize>)>,
    config: Config,
    prefix: Seq<char>,
    style: Style,
    non_emph_style: Style,
    bg_extend: bool,
) -> Seq<char>
    decreases syntax_lines.len(),
{
    if syntax_lines.len() == 0 {
        Seq::empty()
    } else {
        spec_render_line(
            syntax_lines.first(),
            diff_lines.first(),
            numbers.first(),
            config,
            prefix,
            style,
            non_emph_style,
            bg_extend,
        ) + spec_paint_lines(
            syntax_lines.drop_first(),
            diff_lines.drop_first(),
            numbers.drop_first(),
            config,
            prefix,
            style,
            non_emph_style,
            bg_extend,
        )
    }
}

proof fn lemma_paint_lines_snoc(
    syntax_lines: Seq<Seq<(SyntaxStyle, Seq<char>)>>,
    diff_lines: Seq<Seq<(Style, Seq<char>)>>,
    numbers: Seq<(Option<usize>, Option<usize>)>,
    x: Seq<(SyntaxStyle, Seq<char>)>,
    y: Seq<(Style, Seq<char>)>,
    z: (Option<usize>, Option<usize>),
    config: Config,
    prefix: Seq<char>,
    style: Style,
    non_emph_style: Style,
    bg_extend: bool,
)
    requires
        syntax_lines.len() == diff_lines.len(),
        diff_lines.len() == numbers.len(),
    ensures
        spec_paint_lines(
            syntax_lines.push(x),
            diff_lines.push(y),
            numbers.push(z),
            config,
            prefix,
            style,
            non_emph_style,
            bg_extend,
        ) == spec_paint_lines(
            syntax_lines,
            diff_lines,
            numbers,
            config,
            prefix,
            style,
            non_emph_style,
            bg_extend,
        ) + spec_render_line(x, y, z, config, prefix, style, non_emph_style, bg_extend),
    decreases syntax_lines.len(),
{
    if syntax_lines.len() == 0 {
        assert(syntax_lines.push(x).first() == x);
        assert(diff_lines.push(y).first() == y);
        assert(numbers.push(z).first() == z);
        assert(syntax_lines.push(x).drop_first() =~= Seq::<Seq<(SyntaxStyle, Seq<char>)>>::empty());
        assert(diff_lines.push(y).drop_first() =~= Seq::<Seq<(Style, Seq<char>)>>::empty());
        assert(numbers.push(z).drop_first() =~= Seq::<(Option<usize>, Option<usize>)>::empty());
        assert(spec_paint_lines(
            syntax_lines.push(x).drop_first(),
            diff_lines.push(y).drop_first(),
            numbers.push(z).drop_first(),
            config,
            prefix,
            style,
            non_emph_style,
            bg_extend,
        ) =~= Seq::<char>::empty());
        assert(spec_paint_lines(
            syntax_lines.push(x),
            diff_lines.push(y),
            numbers.push(z),
            config,
            prefix,
            style,
            non_emph_style,
            bg_extend,
        ) =~= spec_paint_lines(
            syntax_lines,
            diff_lines,
            numbers,
            config,
            prefix,
            style,
            non_emph_style,
            bg_extend,
        ) + spec_render_line(x, y, z, config, prefix, style, non_emph_style, bg_extend));
    } else {
        assert(syntax_lines.push(x).first() == syntax_lines.first());
        assert(syntax_lines.push(x).drop_first() =~= syntax_lines.drop_first().push(x));
        assert(diff_lines.push(y).drop_first() =~= diff_lines.drop_first().push(y));
        assert(numbers.push(z).drop_first() =~= numbers.drop_first().push(z));
        lemma_paint_lines_snoc(
            syntax_lines.drop_first(),
            diff_lines.drop_first(),
            numbers.drop_first(),
            x,
            y,
            z,
            config,
            prefix,
            style,
            non_emph_style,
            bg_extend,
        );
        assert(spec_paint_lines(
            syntax_lines.push(x),
            diff_lines.push(y),
            numbers.push(z),
            config,
            prefix,
            style,
            non_emph_style,
            bg_extend,
        ) =~= spec_paint_lines(
            syntax_lines,
            diff_lines,
            numbers,
            config,
            prefix,
            style,
            non_emph_style,
            bg_extend,
        ) + spec_render_line(x, y, z, config, prefix, style, non_emph_style, bg_extend));
    }
}

/// The background-extension decision for a render: the per-call override
/// where one is given, else the policy's flag.
pub open spec fn spec_resolved_bg_extend(config: Config, over: Option<bool>) -> bool {
    match over {
        Some(b) => b,
        None => config.background_color_extends_to_terminal_width,
    }
}

/// Renders the six gutter pieces for a line that shows numbers; fails on
/// the first template that does not hold the placeholder exactly once.
fn gutter_line_pieces(
    config: &Config,
    line_numbers: (Option<usize>, Option<usize>),
) -> (r: Result<Vec<(Style, String)>, PaintError>)
    ensures
        (r is Ok) <==> template_well_formed(config.number_minus_format@) && template_well_formed(
            config.number_plus_format@,
        ),
        r matches Ok(v) ==> owned_runs_view(v@) == spec_gutter_pieces(*config, line_numbers),
        r matches Err(e) ==> ({
            if !template_well_formed(config.number_minus_format@) {
                e matches PaintError::InvalidLineNumberFormat { format } && format@
                    == config.number_minus_format@
            } else {
                e matches PaintError::InvalidLineNumberFormat { format } && format@
                    == config.number_plus_format@
            }
        }),
{
    let (minus, plus) = line_numbers;
    let (minus_before, minus_number, minus_after) = match get_line_number_components(
        minus,
        config.number_minus_format.as_str(),
    ) {
        Ok(parts) => parts,
        Err(e) => {
            return Err(e);
        },
    };
    let (plus_before, plus_number, plus_after) = match get_line_number_components(
        plus,
        config.number_plus_format.as_str(),
    ) {
        Ok(parts) => parts,
        Err(e) => {
            return Err(e);
        },
    };
    proof {
        let mf = config.number_minus_format@;
        let pf = config.number_plus_format@;
        let mi = choose|i: int|
            #[trigger] placeholder_at(mf, i) && minus_before@ == mf.subrange(0, i) && minus_number@
                == spec_format_line_number(minus) && minus_after@ == mf.subrange(
                i + 3,
                mf.len() as int,
            );
        let pi = choose|i: int|
            #[trigger] placeholder_at(pf, i) && plus_before@ == pf.subrange(0, i) && plus_number@
                == spec_format_line_number(plus) && plus_after@ == pf.subrange(
                i + 3,
                pf.len() as int,
            );
        assert(placeholder_at(mf, split_point(mf)));
        assert(placeholder_at(pf, split_point(pf)));
        assert(mi == split_point(mf));
        assert(pi == split_point(pf));
    }
    let mut pieces: Vec<(Style, String)> = Vec::new();
    pieces.push((config.number_minus_format_style, minus_before));
    pieces.push((config.number_minus_style, minus_number));
    pieces.push((config.number_minus_format_style, minus_after));
    pieces.push((config.number_plus_format_style, plus_before));
    pieces.push((config.number_plus_style, plus_number));
    pieces.push((config.number_plus_format_style, plus_after));
    proof {
        assert(owned_runs_view(pieces@) =~= spec_gutter_pieces(*config, line_numbers));
    }
    Ok(pieces)
}

/// Borrows one line's syntax partition as text slices.
fn borrow_syntax_sections<'a>(sections: &'a Vec<(SyntaxStyle, String)>) -> (v: Vec<
    (SyntaxStyle, &'a str),
>)
    ensures
        str_sections_view(v@) == syntax_sections_view(sections@),
{
    let mut v: Vec<(SyntaxStyle, &str)> = Vec::new();
    let mut j: usize = 0;
    while j < sections.len()
        invariant
            j <= sections@.len(),
            v@.len() == j,
            forall|i: int|
                0 <= i < j ==> (#[trigger] v@[i]).0 == sections@[i].0 && v@[i].1@
                    == sections@[i].1@,
        decreases sections@.len() - j,
    {
        let e = &sections[j];
        v.push((e.0, e.1.as_str()));
        j += 1;
    }
    proof {
        assert(str_sections_view(v@) =~= syntax_sections_view(sections@));
    }
    v
}

/// Borrows one line's diff partition as text slices.
fn borrow_diff_sections<'a>(sections: &'a Vec<(Style, String)>) -> (v: Vec<(Style, &'a str)>)
    ensures
        str_sections_view(v@) == owned_runs_view(sections@),
{
    let mut v: Vec<(Style, &str)> = Vec::new();
    let mut j: usize = 0;
    while j < sections.len()
        invariant
            j <= sections@.len(),
            v@.len() == j,
            forall|i: int|
                0 <= i < j ==> (#[trigger] v@[i]).0 == sections@[i].0 && v@[i].1@
                    == sections@[i].1@,
        decreases sections@.len() - j,
    {
        let e = &sections[j];
        v.push((e.0, e.1.as_str()));
        j += 1;
    }
    proof {
        assert(str_sections_view(v@) =~= owned_runs_view(sections@));
    }
    v
}

/// Appends the superimposed content to the piece list, injecting the prefix
/// marker into the first span: the marker is painted in that span's style
/// and one character is consumed from the front of its text, so a marker
/// already present in the text is replaced rather than duplicated.
fn push_content_pieces(
    pieces: &mut Vec<(Style, String)>,
    superimposed: &Vec<(Style, String)>,
    prefix: &str,
)
    ensures
        owned_runs_view(final(pieces)@) == owned_runs_view(old(pieces)@) + spec_prefixed_content(
            owned_runs_view(superimposed@),
            prefix@,
        ),
{
    let ghost content = owned_runs_view(superimposed@);
    let ghost prefixed = spec_prefixed_content(content, prefix@);
    let prefix_len = prefix.unicode_len();
    let mut start: usize = 0;
    if prefix_len > 0 && superimposed.len() > 0 {
        let e0 = &superimposed[0];
        let s0 = e0.0;
        pieces.push((s0, prefix.to_owned()));
        let t0_chars = chars_of(e0.1.as_str());
        let trimmed = if t0_chars.len() > 0 {
            chars_range_string(&t0_chars, 1, t0_chars.len())
        } else {
            e0.1.clone()
        };
        proof {
            if e0.1@.len() > 0 {
                assert(trimmed@ =~= e0.1@.drop_first());
            }
        }
        pieces.push((s0, trimmed));
        start = 1;
    }
    let ghost base: int = if start == 1 {
        2int
    } else {
        0int
    };
    proof {
        if start == 1 {
            assert(content.first() == (superimposed@[0].0, superimposed@[0].1@));
            assert(prefixed.len() == 1 + content.len());
            assert forall|i: int| 1 <= i < content.len() implies prefixed[i + 1] == content[i] by {
                assert(prefixed[i + 1] == content.drop_first()[i - 1]);
            }
        } else {
            assert(prefixed == content);
        }
        assert(owned_runs_view(pieces@) =~= owned_runs_view(old(pieces)@) + prefixed.subrange(
            0,
            base,
        ));
    }
    let mut jd: usize = start;
    while jd < superimposed.len()
        invariant
            start <= jd <= superimposed@.len(),
            start == 0 || start == 1,
            base == (if start == 1 {
                2int
            } else {
                0int
            }),
            content == owned_runs_view(superimposed@),
            prefixed == spec_prefixed_content(content, prefix@),
            start == 1 ==> prefixed.len() == 1 + content.len() && (forall|i: int|
                1 <= i < content.len() ==> prefixed[i + 1] == content[i]),
            start == 0 ==> prefixed == content,
            owned_runs_view(pieces@) == owned_runs_view(old(pieces)@) + prefixed.subrange(
                0,
                base + jd - start,
            ),
        decreases superimposed@.len() - jd,
    {
        let e = &superimposed[jd];
        let ghost view_before = owned_runs_view(pieces@);
        pieces.push((e.0, e.1.clone()));
        proof {
            assert(prefixed[base + jd - start] == (e.0, e.1@));
            assert(owned_runs_view(pieces@) =~= view_before.push((e.0, e.1@)));
            assert(view_before.push((e.0, e.1@)) =~= owned_runs_view(old(pieces)@)
                + prefixed.subrange(0, base + jd + 1 - start));
        }
        jd += 1;
    }
    proof {
        assert(base + superimposed@.len() - start == prefixed.len());
        assert(prefixed.subrange(0, prefixed.len() as int) =~= prefixed);
    }
}

/// Renders one line to its final character sequence: gutter, prefix marker,
/// superimposed content, right fill and terminator.
fn paint_one_line(
    syntax_sections: &Vec<(SyntaxStyle, String)>,
    diff_sections: &Vec<(Style, String)>,
    line_numbers: (Option<usize>, Option<usize>),
    config: &Config,
    prefix: &str,
    style: Style,
    non_emph_style: Style,
    background_color_extends: bool,
) -> (r: Result<Vec<char>, PaintError>)
    ensures
        (r is Ok) <==> spec_line_ok(
            syntax_sections_view(syntax_sections@),
            owned_runs_view(diff_sections@),
            line_numbers,
            *config,
        ),
        r matches Ok(line) ==> line@ == spec_render_line(
            syntax_sections_view(syntax_sections@),
            owned_runs_view(diff_sections@),
            line_numbers,
            *config,
            prefix@,
            style,
            non_emph_style,
            background_color_extends,
        ),
        r matches Err(e) ==> spec_line_error_matches(
            e,
            syntax_sections_view(syntax_sections@),
            owned_runs_view(diff_sections@),
            line_numbers,
            *config,
        ),
{
    let ghost sv = syntax_sections_view(syntax_sections@);
    let ghost dv = owned_runs_view(diff_sections@);
    let multiple = style_sections_contain_more_than_one_style(diff_sections);
    let fill_style = if multiple {
        non_emph_style
    } else {
        style
    };
    proof {
        assert(fill_style == spec_fill_style(dv, style, non_emph_style));
    }
    let mut pieces: Vec<(Style, String)> = Vec::new();
    let gutter_active = config.show_line_numbers && has_line_numbers(&line_numbers);
    if gutter_active {
        pieces = match gutter_line_pieces(config, line_numbers) {
            Ok(v) => v,
            Err(e) => {
                proof {
                    assert(!spec_line_ok(sv, dv, line_numbers, *config));
                    assert(spec_line_error_matches(e, sv, dv, line_numbers, *config));
                }
                return Err(e);
            },
        };
    }
    let ghost gutter = owned_runs_view(pieces@);
    proof {
        if !gutter_active {
            assert(gutter =~= Seq::<(Style, Seq<char>)>::empty());
        }
    }
    let syntax_borrowed = borrow_syntax_sections(syntax_sections);
    let diff_borrowed = borrow_diff_sections(diff_sections);
    let superimposed = match superimpose_style_sections(
        &syntax_borrowed,
        &diff_borrowed,
        config.true_color,
        config.null_syntax_style,
    ) {
        Ok(v) => v,
        Err(e) => {
            proof {
                let c1 = section_chars(str_sections_view(syntax_borrowed@));
                let c2 = section_chars(str_sections_view(diff_borrowed@));
                assert(c1 == section_chars(sv));
                assert(c2 == section_chars(dv));
                assert(c1 != c2);
                assert(!spec_line_ok(sv, dv, line_numbers, *config));
                if c1.len() == c2.len() {
                    let p = choose|i: int|
                        0 <= i < c1.len() && c1[i] != (#[trigger] c2[i]) && (forall|j: int|
                            0 <= j < i ==> c1[j] == c2[j]) && e == (
                        PaintError::SectionCharMismatch {
                            position: i as usize,
                            syntax_char: c1[i],
                            diff_char: c2[i],
                        });
                    assert(0 <= p < c1.len() && c1[p] != c2[p] && (forall|j: int|
                        0 <= j < p ==> c1[j] == c2[j]) && e == (PaintError::SectionCharMismatch {
                        position: p as usize,
                        syntax_char: c1[p],
                        diff_char: c2[p],
                    }));
                    assert(spec_mismatch_error_matches(e, c1, c2));
                }
                assert(spec_line_error_matches(e, sv, dv, line_numbers, *config));
            }
            return Err(e);
        },
    };
    proof {
        assert(owned_runs_view(superimposed@) == spec_superimpose(
            sv,
            dv,
            config.true_color,
            config.null_syntax_style,
        ));
        assert(spec_line_ok(sv, dv, line_numbers, *config));
    }
    push_content_pieces(&mut pieces, &superimposed, prefix);
    let have_background = match fill_style.ansi_term_style.background {
        Some(_) => true,
        None => false,
    };
    if have_background {
        pieces.push((fill_style, String::new()));
    }
    proof {
        assert(owned_runs_view(pieces@) =~= spec_line_pieces(
            sv,
            dv,
            line_numbers,
            *config,
            prefix@,
            style,
            non_emph_style,
        ));
    }
    let mut line = paint_pieces(&pieces);
    if background_color_extends && have_background {
        extend_line_background_fill(&mut line);
    }
    line.push('\n');
    proof {
        assert(line@ == spec_render_line(
            sv,
            dv,
            line_numbers,
            *config,
            prefix@,
            style,
            non_emph_style,
            background_color_extends,
        ));
    }
    Ok(line)
}

/// The bare characters of a line buffer.
pub open spec fn plain_lines_view(lines: Seq<String>) -> Seq<Seq<char>> {
    lines.map_values(|l: String| l@)
}

/// One "no annotation" span per line: what stands in for the highlighter
/// when the policy asks for no syntax coloring on a side.
pub open spec fn spec_null_sections(
    texts: Seq<Seq<char>>,
    null_syntax_style: SyntaxStyle,
) -> Seq<Seq<(SyntaxStyle, Seq<char>)>> {
    texts.map_values(|t: Seq<char>| seq![(null_syntax_style, t)])
}

/// Whether a side's classification requires syntax coloring at all: a theme
/// must be selected, and some style of that classification must ask for
/// highlighting.
pub open spec fn spec_should_compute_syntax_highlighting(state: State, config: Config) -> bool {
    if !config.syntax_theme_selected {
        false
    } else {
        match state {
            State::HunkMinus => config.minus_style.is_syntax_highlighted
                || config.minus_emph_style.is_syntax_highlighted,
            State::HunkZero => config.zero_style.is_syntax_highlighted,
            State::HunkPlus => config.plus_style.is_syntax_highlighted
                || config.plus_emph_style.is_syntax_highlighted,
            State::HunkHeader => true,
            _ => false,
        }
    }
}

/// The gutter numbers of a flush's minus side: counting from the side's
/// counter, with the plus cell blank.
pub open spec fn spec_minus_numbers(start: int, n: nat) -> Seq<(Option<usize>, Option<usize>)> {
    Seq::new(n, |i: int| (Some((start + i) as usize), None::<usize>))
}

/// The gutter numbers of a flush's plus side: counting from the side's
/// counter, with the minus cell blank.
pub open spec fn spec_plus_numbers(start: int, n: nat) -> Seq<(Option<usize>, Option<usize>)> {
    Seq::new(n, |i: int| (None::<usize>, Some((start + i) as usize)))
}

/// A side's diff partitions as the renderer sees them: rewritten to the
/// non-emphasis style where that style differs from the emphasis style.
pub open spec fn spec_prepared_diff(
    diff: Seq<Seq<(Style, Seq<char>)>>,
    non_emph_style: Style,
    emph_style: Style,
) -> Seq<Seq<(Style, Seq<char>)>> {
    if non_emph_style != emph_style {
        spec_set_non_emph(diff, non_emph_style)
    } else {
        diff
    }
}

/// Whether a whole flush goes through without a fatal condition.
pub open spec fn spec_flush_ok(
    minus_syntax: Seq<Seq<(SyntaxStyle, Seq<char>)>>,
    plus_syntax: Seq<Seq<(SyntaxStyle, Seq<char>)>>,
    minus_diff: Seq<Seq<(Style, Seq<char>)>>,
    plus_diff: Seq<Seq<(Style, Seq<char>)>>,
    config: Config,
    minus_start: int,
    plus_start: int,
) -> bool {
    let md = spec_prepared_diff(minus_diff, config.minus_non_emph_style, config.minus_emph_style);
    let pd = spec_prepared_diff(plus_diff, config.plus_non_emph_style, config.plus_emph_style);
    let mn = spec_minus_numbers(minus_start, minus_syntax.len());
    let pn = spec_plus_numbers(plus_start, plus_syntax.len());
    &&& forall|i: int|
        0 <= i < minus_syntax.len() ==> spec_line_ok(minus_syntax[i], md[i], mn[i], config)
    &&& forall|i: int|
        0 <= i < plus_syntax.len() ==> spec_line_ok(plus_syntax[i], pd[i], pn[i], config)
}

/// What one flush appends to the output buffer: the minus side's lines in
/// arrival order, then the plus side's.
pub open spec fn spec_flush_rendering(
    minus_syntax: Seq<Seq<(SyntaxStyle, Seq<char>)>>,
    plus_syntax: Seq<Seq<(SyntaxStyle, Seq<char>)>>,
    minus_diff: Seq<Seq<(Style, Seq<char>)>>,
    plus_diff: Seq<Seq<(Style, Seq<char>)>>,
    config: Config,
    minus_start: int,
    plus_start: int,
) -> Seq<char> {
    let md = spec_prepared_diff(minus_diff, config.minus_non_emph_style, config.minus_emph_style);
    let pd = spec_prepared_diff(plus_diff, config.plus_non_emph_style, config.plus_emph_style);
    let mn = spec_minus_numbers(minus_start, minus_syntax.len());
    let pn = spec_plus_numbers(plus_start, plus_syntax.len());
    spec_paint_lines(
        minus_syntax,
        md,
        mn,
        config,
        config.minus_line_marker@,
        config.minus_style,
        config.minus_non_emph_style,
        config.background_color_extends_to_terminal_width,
    ) + spec_paint_lines(
        plus_syntax,
        pd,
        pn,
        config,
        config.plus_line_marker@,
        config.plus_style,
        config.plus_non_emph_style,
        config.background_color_extends_to_terminal_width,
    )
}

proof fn lemma_non_emph_line_preserves_section_chars(
    line: Seq<(Style, Seq<char>)>,
    non_emph_style: Style,
)
    ensures
        section_chars(spec_non_emph_line(line, non_emph_style)) == section_chars(line),
{
    let rewritten = spec_non_emph_line(line, non_emph_style);
    assert(rewritten.len() == line.len());
    assert forall|i: int| 0 <= i < rewritten.len() implies (#[trigger] rewritten[i]).1
        == line[i].1 by {}
    lemma_section_chars_same_texts(rewritten, line);
}

/// Whether a flush succeeds: a function of the buffered lines, the diff
/// partitions and the policy alone. The syntax partitions cannot fail it —
/// the highlighter is trusted to cover each line's text, and so do the
/// substituted "no annotation" spans. What remains fatal is a diff
/// partition that does not cover its line, or, when numbers are shown and a
/// line is there to number, a gutter template without its one placeholder.
pub open spec fn spec_flush_succeeds(
    minus_lines: Seq<String>,
    plus_lines: Seq<String>,
    minus_diff: Seq<Seq<(Style, Seq<char>)>>,
    plus_diff: Seq<Seq<(Style, Seq<char>)>>,
    config: Config,
) -> bool {
    let templates_ok = config.show_line_numbers ==> template_well_formed(
        config.number_minus_format@,
    ) && template_well_formed(config.number_plus_format@);
    &&& forall|i: int|
        0 <= i < minus_lines.len() ==> templates_ok && section_chars(#[trigger] minus_diff[i])
            == minus_lines[i]@
    &&& forall|i: int|
        0 <= i < plus_lines.len() ==> templates_ok && section_chars(#[trigger] plus_diff[i])
            == plus_lines[i]@
}

/// The paint buffer: accumulates removed and added lines within a hunk,
/// renders them at a flush, owns the per-side line counters and the output
/// buffer that a caller drains explicitly.
pub struct Painter {
    pub minus_lines: Vec<String>,
    pub plus_lines: Vec<String>,
    pub output_buffer: String,
    pub minus_line_number: usize,
    pub plus_line_number: usize,
    pub config: Config,
}

impl Painter {
    /// A fresh paint buffer over a resolved policy: both sides empty, both
    /// counters at the configured origin, the output buffer empty.
    pub fn new(config: Config) -> (p: Painter)
        ensures
            p.minus_lines@ == Seq::<String>::empty(),
            p.plus_lines@ == Seq::<String>::empty(),
            p.output_buffer@ == Seq::<char>::empty(),
            p.minus_line_number == 0,
            p.plus_line_number == 0,
            p.config == config,
    {
        Painter {
            minus_lines: Vec::new(),
            plus_lines: Vec::new(),
            output_buffer: String::new(),
            minus_line_number: 0,
            plus_line_number: 0,
            config,
        }
    }

    /// Superimposes each line's two style partitions and writes the colored
    /// lines to the output buffer: gutter, prefix marker, content and right
    /// fill, in input order. The append is atomic: on the first fatal condition
    /// — an unparseable gutter template, or partitions that disagree about the
    /// line's text — the buffer is left untouched and the error surfaces.
    pub fn paint_lines(
        syntax_style_sections: Vec<Vec<(SyntaxStyle, String)>>,
        diff_style_sections: Vec<Vec<(Style, String)>>,
        line_number_sections: Vec<(Option<usize>, Option<usize>)>,
        output_buffer: &mut String,
        config: &Config,
        prefix: &str,
        style: Style,
        non_emph_style: Style,
        background_color_extends_to_terminal_width: Option<bool>,
    ) -> (r: Result<(), PaintError>)
        requires
            syntax_style_sections@.len() == diff_style_sections@.len(),
            diff_style_sections@.len() == line_number_sections@.len(),
        ensures
            (r is Ok) <==> (forall|i: int|
                0 <= i < syntax_style_sections@.len() ==> spec_line_ok(
                    syntax_lines_view(syntax_style_sections@)[i],
                    diff_lines_view(diff_style_sections@)[i],
                    line_number_sections@[i],
                    *config,
                )),
            r is Ok ==> final(output_buffer)@ == old(output_buffer)@ + spec_paint_lines(
                syntax_lines_view(syntax_style_sections@),
                diff_lines_view(diff_style_sections@),
                line_number_sections@,
                *config,
                prefix@,
                style,
                non_emph_style,
                spec_resolved_bg_extend(*config, background_color_extends_to_terminal_width),
            ),
            r matches Err(e) ==> final(output_buffer)@ == old(output_buffer)@ && exists|i: int|
                0 <= i < syntax_style_sections@.len() && !spec_line_ok(
                    syntax_lines_view(syntax_style_sections@)[i],
                    diff_lines_view(diff_style_sections@)[i],
                    line_number_sections@[i],
                    *config,
                ) && (forall|j: int|
                    0 <= j < i ==> spec_line_ok(
                        syntax_lines_view(syntax_style_sections@)[j],
                        diff_lines_view(diff_style_sections@)[j],
                        line_number_sections@[j],
                        *config,
                    )) && #[trigger] spec_line_error_matches(
                    e,
                    syntax_lines_view(syntax_style_sections@)[i],
                    diff_lines_view(diff_style_sections@)[i],
                    line_number_sections@[i],
                    *config,
                ),
    {
        let n = syntax_style_sections.len();
        let ghost sv = syntax_lines_view(syntax_style_sections@);
        let ghost dv = diff_lines_view(diff_style_sections@);
        let ghost ns = line_number_sections@;
        let ghost bg_spec = spec_resolved_bg_extend(
            *config,
            background_color_extends_to_terminal_width,
        );
        let background_color_extends = match background_color_extends_to_terminal_width {
            Some(b) => b,
            None => config.background_color_extends_to_terminal_width,
        };
        let mut rendered: Vec<char> = Vec::new();
        proof {
            assert(spec_paint_lines(
                sv.subrange(0, 0),
                dv.subrange(0, 0),
                ns.subrange(0, 0),
                *config,
                prefix@,
                style,
                non_emph_style,
                bg_spec,
            ) =~= Seq::<char>::empty());
        }
        let mut k: usize = 0;
        while k < n
            invariant
                k <= n,
                n == syntax_style_sections@.len(),
                n == diff_style_sections@.len(),
                n == line_number_sections@.len(),
                sv == syntax_lines_view(syntax_style_sections@),
                dv == diff_lines_view(diff_style_sections@),
                ns == line_number_sections@,
                bg_spec == spec_resolved_bg_extend(
                    *config,
                    background_color_extends_to_terminal_width,
                ),
                background_color_extends == bg_spec,
                forall|i: int| 0 <= i < k ==> spec_line_ok(sv[i], dv[i], ns[i], *config),
                rendered@ == spec_paint_lines(
                    sv.subrange(0, k as int),
                    dv.subrange(0, k as int),
                    ns.subrange(0, k as int),
                    *config,
                    prefix@,
                    style,
                    non_emph_style,
                    bg_spec,
                ),
            decreases n - k,
        {
            let syntax_sections = &syntax_style_sections[k];
            let diff_sections = &diff_style_sections[k];
            let line_numbers = line_number_sections[k];
            proof {
                assert(syntax_sections_view(syntax_sections@) == sv[k as int]);
                assert(owned_runs_view(diff_sections@) == dv[k as int]);
                assert(line_numbers == ns[k as int]);
            }
            let mut line = match paint_one_line(
                syntax_sections,
                diff_sections,
                line_numbers,
                config,
                prefix,
                style,
                non_emph_style,
                background_color_extends,
            ) {
                Ok(line) => line,
                Err(e) => {
                    return Err(e);
                },
            };
            rendered.append(&mut line);
            proof {
                lemma_paint_lines_snoc(
                    sv.subrange(0, k as int),
                    dv.subrange(0, k as int),
                    ns.subrange(0, k as int),
                    sv[k as int],
                    dv[k as int],
                    ns[k as int],
                    *config,
                    prefix@,
                    style,
                    non_emph_style,
                    bg_spec,
                );
                assert(sv.subrange(0, k as int + 1) =~= sv.subrange(0, k as int).push(sv[k as int]));
                assert(dv.subrange(0, k as int + 1) =~= dv.subrange(0, k as int).push(dv[k as int]));
                assert(ns.subrange(0, k as int + 1) =~= ns.subrange(0, k as int).push(ns[k as int]));
            }
            k += 1;
        }
        proof {
            assert(sv.subrange(0, n as int) =~= sv);
            assert(dv.subrange(0, n as int) =~= dv);
            assert(ns.subrange(0, n as int) =~= ns);
        }
        append_chars(output_buffer, &rendered);
        Ok(())
    }

    /// Whether a side's classification requires syntax coloring. With no
    /// theme selected the answer is no for any classification; with one,
    /// the decision is defined for the hunk states only.
    pub fn should_compute_syntax_highlighting(state: &State, config: &Config) -> (r: bool)
        requires
            config.syntax_theme_selected ==> state is HunkMinus || state is HunkZero
                || state is HunkPlus || state is HunkHeader,
        ensures
            r == spec_should_compute_syntax_highlighting(*state, *config),
    {
        if !config.syntax_theme_selected {
            return false;
        }
        match state {
            State::HunkMinus => {
                config.minus_style.is_syntax_highlighted
                    || config.minus_emph_style.is_syntax_highlighted
            },
            State::HunkZero => config.zero_style.is_syntax_highlighted,
            State::HunkPlus => {
                config.plus_style.is_syntax_highlighted
                    || config.plus_emph_style.is_syntax_highlighted
            },
            State::HunkHeader => true,
            _ => unreached(),
        }
    }

    /// One syntax partition per buffered line: from the highlighter when
    /// the side's classification requires syntax coloring, else a single
    /// "no annotation" span per line — which both fails safe and avoids
    /// needless work. Either way each partition covers its line's text.
    pub fn get_syntax_style_sections_for_lines(
        lines: &Vec<String>,
        state: &State,
        highlighter: &mut LineHighlighter<'_>,
        config: &Config,
    ) -> (sections: Vec<Vec<(SyntaxStyle, String)>>)
        requires
            config.syntax_theme_selected ==> state is HunkMinus || state is HunkZero
                || state is HunkPlus || state is HunkHeader,
        ensures
            sections@.len() == lines@.len(),
            forall|i: int|
                0 <= i < lines@.len() ==> section_chars(
                    #[trigger] syntax_lines_view(sections@)[i],
                ) == lines@[i]@,
            !spec_should_compute_syntax_highlighting(*state, *config) ==> syntax_lines_view(
                sections@,
            ) == spec_null_sections(plain_lines_view(lines@), config.null_syntax_style),
    {
        let fake = !Painter::should_compute_syntax_highlighting(state, config);
        let mut line_sections: Vec<Vec<(SyntaxStyle, String)>> = Vec::new();
        let mut i: usize = 0;
        while i < lines.len()
            invariant
                i <= lines@.len(),
                line_sections@.len() == i,
                fake == !spec_should_compute_syntax_highlighting(*state, *config),
                forall|j: int|
                    0 <= j < i ==> section_chars(#[trigger] syntax_lines_view(line_sections@)[j])
                        == lines@[j]@,
                fake ==> forall|j: int|
                    0 <= j < i ==> #[trigger] syntax_lines_view(line_sections@)[j] == seq![
                        (config.null_syntax_style, lines@[j]@),
                    ],
            decreases lines@.len() - i,
        {
            let line = &lines[i];
            let new_sections: Vec<(SyntaxStyle, String)>;
            if fake {
                let mut one: Vec<(SyntaxStyle, String)> = Vec::new();
                one.push((config.null_syntax_style, line.clone()));
                proof {
                    assert(syntax_sections_view(one@) =~= seq![(config.null_syntax_style, line@)]);
                    lemma_section_chars_single(config.null_syntax_style, line@);
                }
                new_sections = one;
            } else {
                new_sections = highlight_line(highlighter, line.as_str());
            }
            let ghost ns_view = syntax_sections_view(new_sections@);
            let ghost prev = line_sections@;
            proof {
                assert(section_chars(ns_view) == lines@[i as int]@);
                if fake {
                    assert(ns_view == seq![(config.null_syntax_style, lines@[i as int]@)]);
                }
            }
            line_sections.push(new_sections);
            proof {
                assert forall|j: int| 0 <= j <= i implies section_chars(
                    #[trigger] syntax_lines_view(line_sections@)[j],
                ) == lines@[j]@ by {
                    if j < i {
                        assert(line_sections@[j] == prev[j]);
                        assert(syntax_lines_view(line_sections@)[j] == syntax_sections_view(
                            prev[j]@,
                        ));
                        assert(syntax_lines_view(prev)[j] == syntax_sections_view(prev[j]@));
                    } else {
                        assert(syntax_lines_view(line_sections@)[j] == ns_view);
                    }
                }
                if fake {
                    assert forall|j: int| 0 <= j <= i implies #[trigger] syntax_lines_view(
                        line_sections@,
                    )[j] == seq![(config.null_syntax_style, lines@[j]@)] by {
                        if j < i {
                            assert(line_sections@[j] == prev[j]);
                            assert(syntax_lines_view(line_sections@)[j] == syntax_sections_view(
                                prev[j]@,
                            ));
                            assert(syntax_lines_view(prev)[j] == syntax_sections_view(prev[j]@));
                        } else {
                            assert(syntax_lines_view(line_sections@)[j] == ns_view);
                        }
                    }
                }
            }
            i += 1;
        }
        proof {
            if fake {
                assert(syntax_lines_view(line_sections@) =~= spec_null_sections(
                    plain_lines_view(lines@),
                    config.null_syntax_style,
                ));
            }
        }
        line_sections
    }

    /// Renders every buffered line from already-computed syntax and diff
    /// partitions: the diff partitions are rewritten to the non-emphasis
    /// styles where configured, gutter numbers are taken from the side
    /// counters, and the minus side is rendered fully before the plus side.
    /// The flush is atomic: on a fatal condition nothing changes at all;
    /// on success both line buffers are cleared and each side's counter
    /// advances by exactly one per line flushed on that side.
    pub fn paint_buffered_lines_with_sections(
        &mut self,
        minus_syntax_sections: Vec<Vec<(SyntaxStyle, String)>>,
        plus_syntax_sections: Vec<Vec<(SyntaxStyle, String)>>,
        minus_diff_sections: Vec<Vec<(Style, String)>>,
        plus_diff_sections: Vec<Vec<(Style, String)>>,
    ) -> (r: Result<(), PaintError>)
        requires
            minus_syntax_sections@.len() == old(self).minus_lines@.len(),
            plus_syntax_sections@.len() == old(self).plus_lines@.len(),
            minus_diff_sections@.len() == old(self).minus_lines@.len(),
            plus_diff_sections@.len() == old(self).plus_lines@.len(),
            old(self).minus_line_number + old(self).minus_lines@.len() <= usize::MAX,
            old(self).plus_line_number + old(self).plus_lines@.len() <= usize::MAX,
        ensures
            (r is Ok) <==> spec_flush_ok(
                syntax_lines_view(minus_syntax_sections@),
                syntax_lines_view(plus_syntax_sections@),
                diff_lines_view(minus_diff_sections@),
                diff_lines_view(plus_diff_sections@),
                old(self).config,
                old(self).minus_line_number as int,
                old(self).plus_line_number as int,
            ),
            r is Ok ==> final(self).output_buffer@ == old(self).output_buffer@
                + spec_flush_rendering(
                syntax_lines_view(minus_syntax_sections@),
                syntax_lines_view(plus_syntax_sections@),
                diff_lines_view(minus_diff_sections@),
                diff_lines_view(plus_diff_sections@),
                old(self).config,
                old(self).minus_line_number as int,
                old(self).plus_line_number as int,
            ),
            r is Ok ==> final(self).minus_lines@ == Seq::<String>::empty() && final(self).plus_lines@ == Seq::<String>::empty(),
            r is Ok ==> final(self).minus_line_number == old(self).minus_line_number + old(self).minus_lines@.len() && final(self).plus_line_number == old(self).plus_line_number
                + old(self).plus_lines@.len(),
            final(self).config == old(self).config,
            r matches Err(_) ==> *final(self) == *old(self),
    {
        let ghost msv = syntax_lines_view(minus_syntax_sections@);
        let ghost psv = syntax_lines_view(plus_syntax_sections@);
        let ghost mdv0 = diff_lines_view(minus_diff_sections@);
        let ghost pdv0 = diff_lines_view(plus_diff_sections@);
        let ghost m0 = self.minus_line_number as int;
        let ghost p0 = self.plus_line_number as int;

        let mut minus_diff = minus_diff_sections;
        if !style_eq(&self.config.minus_non_emph_style, &self.config.minus_emph_style) {
            set_non_emph_styles(&mut minus_diff, self.config.minus_non_emph_style);
        }
        let mut plus_diff = plus_diff_sections;
        if !style_eq(&self.config.plus_non_emph_style, &self.config.plus_emph_style) {
            set_non_emph_styles(&mut plus_diff, self.config.plus_non_emph_style);
        }
        proof {
            assert(diff_lines_view(minus_diff@) == spec_prepared_diff(
                mdv0,
                self.config.minus_non_emph_style,
                self.config.minus_emph_style,
            ));
            assert(diff_lines_view(plus_diff@) == spec_prepared_diff(
                pdv0,
                self.config.plus_non_emph_style,
                self.config.plus_emph_style,
            ));
        }
        let n_minus = self.minus_lines.len();
        let n_plus = self.plus_lines.len();
        let mut minus_line_numbers: Vec<(Option<usize>, Option<usize>)> = Vec::new();
        let mut i: usize = 0;
        while i < n_minus
            invariant
                i <= n_minus,
                n_minus == old(self).minus_lines@.len(),
                self == old(self),
                old(self).minus_line_number + n_minus <= usize::MAX,
                minus_line_numbers@.len() == i,
                forall|j: int|
                    0 <= j < i ==> #[trigger] minus_line_numbers@[j] == (
                        Some((old(self).minus_line_number + j) as usize),
                        None::<usize>,
                    ),
            decreases n_minus - i,
        {
            minus_line_numbers.push((Some(self.minus_line_number + i), None));
            i += 1;
        }
        let mut plus_line_numbers: Vec<(Option<usize>, Option<usize>)> = Vec::new();
        let mut k: usize = 0;
        while k < n_plus
            invariant
                k <= n_plus,
                n_plus == old(self).plus_lines@.len(),
                self == old(self),
                old(self).plus_line_number + n_plus <= usize::MAX,
                plus_line_numbers@.len() == k,
                forall|j: int|
                    0 <= j < k ==> #[trigger] plus_line_numbers@[j] == (
                        None::<usize>,
                        Some((old(self).plus_line_number + j) as usize),
                    ),
            decreases n_plus - k,
        {
            plus_line_numbers.push((None, Some(self.plus_line_number + k)));
            k += 1;
        }
        proof {
            assert(minus_line_numbers@ =~= spec_minus_numbers(m0, msv.len()));
            assert(plus_line_numbers@ =~= spec_plus_numbers(p0, psv.len()));
        }
        let mut local_buffer = String::new();
        let ghost minus_rendering = spec_paint_lines(
            msv,
            diff_lines_view(minus_diff@),
            minus_line_numbers@,
            self.config,
            self.config.minus_line_marker@,
            self.config.minus_style,
            self.config.minus_non_emph_style,
            self.config.background_color_extends_to_terminal_width,
        );
        if n_minus > 0 {
            match Painter::paint_lines(
                minus_syntax_sections,
                minus_diff,
                minus_line_numbers,
                &mut local_buffer,
                &self.config,
                self.config.minus_line_marker.as_str(),
                self.config.minus_style,
                self.config.minus_non_emph_style,
                None,
            ) {
                Ok(()) => {},
                Err(e) => {
                    return Err(e);
                },
            }
        } else {
            proof {
                assert(minus_rendering =~= Seq::<char>::empty());
            }
        }
        proof {
            assert(local_buffer@ == minus_rendering);
        }
        let ghost plus_rendering = spec_paint_lines(
            psv,
            diff_lines_view(plus_diff@),
            plus_line_numbers@,
            self.config,
            self.config.plus_line_marker@,
            self.config.plus_style,
            self.config.plus_non_emph_style,
            self.config.background_color_extends_to_terminal_width,
        );
        if n_plus > 0 {
            match Painter::paint_lines(
                plus_syntax_sections,
                plus_diff,
                plus_line_numbers,
                &mut local_buffer,
                &self.config,
                self.config.plus_line_marker.as_str(),
                self.config.plus_style,
                self.config.plus_non_emph_style,
                None,
            ) {
                Ok(()) => {},
                Err(e) => {
                    return Err(e);
                },
            }
        } else {
            proof {
                assert(plus_rendering =~= Seq::<char>::empty());
            }
        }
        proof {
            assert(local_buffer@ == minus_rendering + plus_rendering);
        }
        self.output_buffer.append(local_buffer.as_str());
        self.minus_lines.clear();
        self.plus_lines.clear();
        self.minus_line_number = self.minus_line_number + n_minus;
        self.plus_line_number = self.plus_line_number + n_plus;
        Ok(())
    }

    /// Renders every buffered line: asks the highlighter for each side's
    /// syntax partitions — or substitutes "no annotation" spans where the
    /// policy asks for no syntax coloring on that side — and flushes with
    /// the diff partitions the edit-inference collaborator produced.
    /// Success is a function of the arguments alone, whatever the
    /// highlighter returned: the flush succeeds exactly when every diff
    /// partition covers its line's text and any needed gutter template is
    /// well formed. On success the buffers are cleared, each side's counter
    /// advances by exactly the lines flushed on that side, and the prior
    /// output is preserved as a prefix; on the fatal mismatch nothing
    /// changes at all.
    pub fn paint_buffered_lines(
        &mut self,
        highlighter: &mut LineHighlighter<'_>,
        minus_diff_sections: Vec<Vec<(Style, String)>>,
        plus_diff_sections: Vec<Vec<(Style, String)>>,
    ) -> (r: Result<(), PaintError>)
        requires
            minus_diff_sections@.len() == old(self).minus_lines@.len(),
            plus_diff_sections@.len() == old(self).plus_lines@.len(),
            old(self).minus_line_number + old(self).minus_lines@.len() <= usize::MAX,
            old(self).plus_line_number + old(self).plus_lines@.len() <= usize::MAX,
        ensures
            r is Ok ==> final(self).minus_lines@ == Seq::<String>::empty() && final(self).plus_lines@ == Seq::<String>::empty(),
            r is Ok ==> final(self).minus_line_number == old(self).minus_line_number + old(self).minus_lines@.len() && final(self).plus_line_number == old(self).plus_line_number
                + old(self).plus_lines@.len(),
            r is Ok ==> final(self).output_buffer@.len() >= old(self).output_buffer@.len() && final(self).output_buffer@.subrange(0, old(self).output_buffer@.len() as int) == old(self).output_buffer@,
            final(self).config == old(self).config,
            r matches Err(_) ==> *final(self) == *old(self),
            (r is Ok) <==> spec_flush_succeeds(
                old(self).minus_lines@,
                old(self).plus_lines@,
                diff_lines_view(minus_diff_sections@),
                diff_lines_view(plus_diff_sections@),
                old(self).config,
            ),
            r is Ok && !spec_should_compute_syntax_highlighting(State::HunkMinus, old(self).config)
                && !spec_should_compute_syntax_highlighting(State::HunkPlus, old(self).config)
                ==> final(self).output_buffer@ == old(self).output_buffer@ + spec_flush_rendering(
                spec_null_sections(
                    plain_lines_view(old(self).minus_lines@),
                    old(self).config.null_syntax_style,
                ),
                spec_null_sections(
                    plain_lines_view(old(self).plus_lines@),
                    old(self).config.null_syntax_style,
                ),
                diff_lines_view(minus_diff_sections@),
                diff_lines_view(plus_diff_sections@),
                old(self).config,
                old(self).minus_line_number as int,
                old(self).plus_line_number as int,
            ),
            r is Ok ==> (exists|
                minus_syntax: Seq<Seq<(SyntaxStyle, Seq<char>)>>,
                plus_syntax: Seq<Seq<(SyntaxStyle, Seq<char>)>>,
            |
                {
                    &&& minus_syntax.len() == old(self).minus_lines@.len()
                    &&& plus_syntax.len() == old(self).plus_lines@.len()
                    &&& forall|i: int|
                        0 <= i < minus_syntax.len() ==> section_chars(#[trigger] minus_syntax[i])
                            == old(self).minus_lines@[i]@
                    &&& forall|i: int|
                        0 <= i < plus_syntax.len() ==> section_chars(#[trigger] plus_syntax[i])
                            == old(self).plus_lines@[i]@
                    &&& final(self).output_buffer@ == old(self).output_buffer@
                        + #[trigger] spec_flush_rendering(
                        minus_syntax,
                        plus_syntax,
                        diff_lines_view(minus_diff_sections@),
                        diff_lines_view(plus_diff_sections@),
                        old(self).config,
                        old(self).minus_line_number as int,
                        old(self).plus_line_number as int,
                    )
                }),
    {
        let minus_syntax_sections = Painter::get_syntax_style_sections_for_lines(
            &self.minus_lines,
            &State::HunkMinus,
            highlighter,
            &self.config,
        );
        let plus_syntax_sections = Painter::get_syntax_style_sections_for_lines(
            &self.plus_lines,
            &State::HunkPlus,
            highlighter,
            &self.config,
        );
        let r = self.paint_buffered_lines_with_sections(
            minus_syntax_sections,
            plus_syntax_sections,
            minus_diff_sections,
            plus_diff_sections,
        );
        proof {
            let msv = syntax_lines_view(minus_syntax_sections@);
            let psv = syntax_lines_view(plus_syntax_sections@);
            let mdv = diff_lines_view(minus_diff_sections@);
            let pdv = diff_lines_view(plus_diff_sections@);
            let config = old(self).config;
            let ml = old(self).minus_lines@;
            let pl = old(self).plus_lines@;
            let m0 = old(self).minus_line_number as int;
            let p0 = old(self).plus_line_number as int;
            let md = spec_prepared_diff(mdv, config.minus_non_emph_style, config.minus_emph_style);
            let pd = spec_prepared_diff(pdv, config.plus_non_emph_style, config.plus_emph_style);
            let mn = spec_minus_numbers(m0, msv.len());
            let pn = spec_plus_numbers(p0, psv.len());
            assert forall|i: int| 0 <= i < msv.len() implies section_chars(#[trigger] msv[i])
                == ml[i]@ by {}
            assert forall|i: int| 0 <= i < psv.len() implies section_chars(#[trigger] psv[i])
                == pl[i]@ by {}
            assert forall|i: int| 0 <= i < mdv.len() implies section_chars(#[trigger] md[i])
                == section_chars(mdv[i]) by {
                if config.minus_non_emph_style != config.minus_emph_style {
                    assert(md[i] == spec_non_emph_line(mdv[i], config.minus_non_emph_style));
                    lemma_non_emph_line_preserves_section_chars(
                        mdv[i],
                        config.minus_non_emph_style,
                    );
                }
            }
            assert forall|i: int| 0 <= i < pdv.len() implies section_chars(#[trigger] pd[i])
                == section_chars(pdv[i]) by {
                if config.plus_non_emph_style != config.plus_emph_style {
                    assert(pd[i] == spec_non_emph_line(pdv[i], config.plus_non_emph_style));
                    lemma_non_emph_line_preserves_section_chars(
                        pdv[i],
                        config.plus_non_emph_style,
                    );
                }
            }
            // Success is a function of the arguments alone: the trusted
            // highlighter covers each line, so only the diff partitions and
            // the templates can fail the flush.
            assert(spec_flush_ok(msv, psv, mdv, pdv, config, m0, p0) ==> spec_flush_succeeds(
                ml,
                pl,
                mdv,
                pdv,
                config,
            )) by {
                if spec_flush_ok(msv, psv, mdv, pdv, config, m0, p0) {
                    assert forall|i: int| 0 <= i < ml.len() implies (config.show_line_numbers
                        ==> template_well_formed(config.number_minus_format@)
                            && template_well_formed(config.number_plus_format@)) && section_chars(
                        #[trigger] mdv[i],
                    ) == ml[i]@ by {
                        assert(spec_line_ok(msv[i], md[i], mn[i], config));
                        assert(mn[i].0 is Some);
                        if config.show_line_numbers {
                            assert(line_numbers_active(config, mn[i]));
                        }
                        assert(section_chars(mdv[i]) == section_chars(md[i]));
                        assert(section_chars(md[i]) == section_chars(msv[i]));
                    }
                    assert forall|i: int| 0 <= i < pl.len() implies (config.show_line_numbers
                        ==> template_well_formed(config.number_minus_format@)
                            && template_well_formed(config.number_plus_format@)) && section_chars(
                        #[trigger] pdv[i],
                    ) == pl[i]@ by {
                        assert(spec_line_ok(psv[i], pd[i], pn[i], config));
                        assert(pn[i].1 is Some);
                        if config.show_line_numbers {
                            assert(line_numbers_active(config, pn[i]));
                        }
                        assert(section_chars(pdv[i]) == section_chars(pd[i]));
                        assert(section_chars(pd[i]) == section_chars(psv[i]));
                    }
                }
            }
            assert(spec_flush_succeeds(ml, pl, mdv, pdv, config) ==> spec_flush_ok(
                msv,
                psv,
                mdv,
                pdv,
                config,
                m0,
                p0,
            )) by {
                if spec_flush_succeeds(ml, pl, mdv, pdv, config) {
                    assert forall|i: int| 0 <= i < msv.len() implies spec_line_ok(
                        msv[i],
                        md[i],
                        mn[i],
                        config,
                    ) by {
                        assert(section_chars(#[trigger] mdv[i]) == ml[i]@);
                        assert(section_chars(md[i]) == ml[i]@);
                        assert(section_chars(msv[i]) == ml[i]@);
                        if line_numbers_active(config, mn[i]) {
                            assert(config.show_line_numbers);
                        }
                    }
                    assert forall|i: int| 0 <= i < psv.len() implies spec_line_ok(
                        psv[i],
                        pd[i],
                        pn[i],
                        config,
                    ) by {
                        assert(section_chars(#[trigger] pdv[i]) == pl[i]@);
                        assert(section_chars(pd[i]) == pl[i]@);
                        assert(section_chars(psv[i]) == pl[i]@);
                        if line_numbers_active(config, pn[i]) {
                            assert(config.show_line_numbers);
                        }
                    }
                }
            }
            if r is Ok {
                assert(self.output_buffer@.subrange(0, old(self).output_buffer@.len() as int)
                    =~= old(self).output_buffer@);
                assert(self.output_buffer@ == old(self).output_buffer@ + spec_flush_rendering(
                    msv,
                    psv,
                    mdv,
                    pdv,
                    config,
                    m0,
                    p0,
                ));
            }
        }
        r
    }

    /// Hands over the accumulated output and clears the buffer; writing
    /// the text to a sink is the caller's affair.
    pub fn emit(&mut self) -> (out: String)
        ensures
            out@ == old(self).output_buffer@,
            final(self).output_buffer@ == Seq::<char>::empty(),
            final(self).minus_lines == old(self).minus_lines,
            final(self).plus_lines == old(self).plus_lines,
            final(self).minus_line_number == old(self).minus_line_number,
            final(self).plus_line_number == old(self).plus_line_number,
            final(self).config == old(self).config,
    {
        let out = self.output_buffer.clone();
        self.output_buffer = String::new();
        out
    }
}

} // verus!
