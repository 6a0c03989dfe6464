//! Style superimposition: merges the syntax-highlight partition and the
//! diff-emphasis partition of one line into a single partition with one
//! resolved style per run.
//!
//! Both inputs partition the same text, but at different run boundaries. The
//! algorithm explodes each partition into per-character spans, zips the two
//! character streams (any disagreement is a fatal collaborator-contract
//! breach), resolves one final style per position from the style pair alone,
//! and coalesces consecutive positions with equal pairs back into runs,
//! stripping the one trailing line terminator that was retained for the
//! highlighter.

use vstd::prelude::*;

use crate::chars::string_of_chars;
use crate::color::{spec_to_ansi_color, to_ansi_color, SyntaxStyle};
use crate::error::PaintError;
use crate::style::{style_eq, AnsiTermStyle, Style};

verus! {

/// The text of one styled section, spread into per-character spans.
pub open spec fn char_spans<T>(style: T, text: Seq<char>) -> Seq<(T, char)> {
    text.map_values(|c: char| (style, c))
}

/// A whole partition, spread into per-character spans in order.
pub open spec fn exploded<T>(sections: Seq<(T, Seq<char>)>) -> Seq<(T, char)>
    decreases sections.len(),
{
    if sections.len() == 0 {
        Seq::empty()
    } else {
        char_spans(sections.first().0, sections.first().1) + exploded(sections.drop_first())
    }
}

/// The bare characters of a per-character span sequence.
pub open spec fn span_chars<T>(spans: Seq<(T, char)>) -> Seq<char> {
    spans.map_values(|p: (T, char)| p.1)
}

/// The full text that a partition covers.
pub open spec fn section_chars<T>(sections: Seq<(T, Seq<char>)>) -> Seq<char> {
    span_chars(exploded(sections))
}

/// The mathematical value of a borrowed-section list: each text slice as its
/// character sequence.
pub open spec fn str_sections_view<T>(sections: Seq<(T, &str)>) -> Seq<(T, Seq<char>)> {
    sections.map_values(|p: (T, &str)| (p.0, p.1@))
}

/// The mathematical value of an owned-run list: each text as its character
/// sequence.
pub open spec fn owned_runs_view(runs_seq: Seq<(Style, String)>) -> Seq<(Style, Seq<char>)> {
    runs_seq.map_values(|p: (Style, String)| (p.0, p.1@))
}

/// The concatenated text of a run list.
pub open spec fn runs_text<S>(runs_seq: Seq<(S, Seq<char>)>) -> Seq<char>
    decreases runs_seq.len(),
{
    if runs_seq.len() == 0 {
        Seq::empty()
    } else {
        runs_seq.first().1 + runs_text(runs_seq.drop_first())
    }
}

/// The summed text length of a run list.
pub open spec fn runs_total_len<S>(runs_seq: Seq<(S, Seq<char>)>) -> nat
    decreases runs_seq.len(),
{
    if runs_seq.len() == 0 {
        0nat
    } else {
        runs_seq.first().1.len() + runs_total_len(runs_seq.drop_first())
    }
}

pub proof fn lemma_exploded_push<T>(sections: Seq<(T, Seq<char>)>, x: (T, Seq<char>))
    ensures
        exploded(sections.push(x)) == exploded(sections) + char_spans(x.0, x.1),
    decreases sections.len(),
{
    if sections.len() == 0 {
        assert(sections.push(x).first() == x);
        assert(sections.push(x).drop_first() =~= Seq::<(T, Seq<char>)>::empty());
        assert(exploded(sections.push(x).drop_first()) =~= Seq::<(T, char)>::empty());
        assert(exploded(sections.push(x)) =~= exploded(sections) + char_spans(x.0, x.1));
    } else {
        assert(sections.push(x).drop_first() =~= sections.drop_first().push(x));
        lemma_exploded_push(sections.drop_first(), x);
        assert(exploded(sections.push(x)) =~= exploded(sections) + char_spans(x.0, x.1));
    }
}

pub proof fn lemma_runs_text_push<S>(runs_seq: Seq<(S, Seq<char>)>, x: (S, Seq<char>))
    ensures
        runs_text(runs_seq.push(x)) == runs_text(runs_seq) + x.1,
        runs_total_len(runs_seq.push(x)) == runs_total_len(runs_seq) + x.1.len(),
    decreases runs_seq.len(),
{
    if runs_seq.len() == 0 {
        assert(runs_seq.push(x).first() == x);
        assert(runs_seq.push(x).drop_first() =~= Seq::<(S, Seq<char>)>::empty());
        assert(runs_text(runs_seq.push(x).drop_first()) =~= Seq::<char>::empty());
        assert(runs_total_len(runs_seq.push(x).drop_first()) == 0);
        assert(runs_text(runs_seq.push(x)) =~= runs_text(runs_seq) + x.1);
        assert(runs_total_len(runs_seq.push(x)) == runs_total_len(runs_seq) + x.1.len());
    } else {
        assert(runs_seq.push(x).first() == runs_seq.first());
        assert(runs_seq.push(x).drop_first() =~= runs_seq.drop_first().push(x));
        lemma_runs_text_push(runs_seq.drop_first(), x);
        assert(runs_text(runs_seq.push(x)) =~= runs_text(runs_seq) + x.1);
        assert(runs_total_len(runs_seq.push(x)) == runs_total_len(runs_seq) + x.1.len());
    }
}

/// Spreads an ordered partition into one `(style, character)` span per
/// character, preserving order.
pub fn explode<T: Copy>(style_sections: &Vec<(T, &str)>) -> (exploded_sections: Vec<(T, char)>)
    ensures
        exploded_sections@ == exploded(str_sections_view(style_sections@)),
{
    let mut out: Vec<(T, char)> = Vec::new();
    let mut i: usize = 0;
    proof {
        assert(str_sections_view(style_sections@.subrange(0, 0)) =~= Seq::<(T, Seq<char>)>::empty());
    }
    while i < style_sections.len()
        invariant
            i <= style_sections@.len(),
            out@ == exploded(str_sections_view(style_sections@.subrange(0, i as int))),
        decreases style_sections@.len() - i,
    {
        let (style, text) = style_sections[i];
        let n = text.unicode_len();
        let mut k: usize = 0;
        proof {
            assert(char_spans(style, text@.subrange(0, 0)) =~= Seq::<(T, char)>::empty());
            assert(out@ =~= exploded(str_sections_view(style_sections@.subrange(0, i as int)))
                + char_spans(style, text@.subrange(0, 0)));
        }
        while k < n
            invariant
                k <= n,
                n == text@.len(),
                i < style_sections@.len(),
                (style, text) == style_sections@[i as int],
                out@ == exploded(str_sections_view(style_sections@.subrange(0, i as int)))
                    + char_spans(style, text@.subrange(0, k as int)),
            decreases n - k,
        {
            out.push((style, text.get_char(k)));
            proof {
                assert(char_spans(style, text@.subrange(0, k as int + 1)) =~= char_spans(
                    style,
                    text@.subrange(0, k as int),
                ).push((style, text@[k as int])));
            }
            k += 1;
        }
        proof {
            assert(text@.subrange(0, text@.len() as int) =~= text@);
            assert(str_sections_view(style_sections@.subrange(0, i as int + 1))
                =~= str_sections_view(style_sections@.subrange(0, i as int)).push((style, text@)));
            lemma_exploded_push(
                str_sections_view(style_sections@.subrange(0, i as int)),
                (style, text@),
            );
        }
        i += 1;
    }
    proof {
        assert(style_sections@.subrange(0, style_sections@.len() as int) =~= style_sections@);
    }
    out
}

/// Whether the two exploded partitions agree on every character.
pub open spec fn pair_chars_agree(pairs: Seq<(&(SyntaxStyle, char), (Style, char))>) -> bool {
    forall|i: int| 0 <= i < pairs.len() ==> (#[trigger] pairs[i]).0.1 == pairs[i].1.1
}

/// The zipped per-position style pairs, keeping the (shared) character.
pub open spec fn superimposed_spans(pairs: Seq<(&(SyntaxStyle, char), (Style, char))>) -> Seq<
    ((SyntaxStyle, Style), char),
> {
    pairs.map_values(|p: (&(SyntaxStyle, char), (Style, char))| ((p.0.0, p.1.0), p.0.1))
}

/// Pairs the two style streams position by position. The two characters at
/// every position must be identical: a difference means the two annotation
/// sources disagree about the underlying line, and the error names the first
/// position where they do.
pub fn superimpose(style_section_pairs: Vec<(&(SyntaxStyle, char), (Style, char))>) -> (r: Result<
    Vec<((SyntaxStyle, Style), char)>,
    PaintError,
>)
    ensures
        (r is Ok) <==> pair_chars_agree(style_section_pairs@),
        r matches Ok(spans) ==> spans@ == superimposed_spans(style_section_pairs@),
        r matches Err(e) ==> exists|i: int|
            0 <= i < style_section_pairs@.len() && (#[trigger] style_section_pairs@[i]).0.1
                != style_section_pairs@[i].1.1 && (forall|j: int|
                0 <= j < i ==> (#[trigger] style_section_pairs@[j]).0.1
                    == style_section_pairs@[j].1.1) && e == (PaintError::SectionCharMismatch {
                position: i as usize,
                syntax_char: style_section_pairs@[i].0.1,
                diff_char: style_section_pairs@[i].1.1,
            }),
{
    let mut superimposed: Vec<((SyntaxStyle, Style), char)> = Vec::new();
    let mut i: usize = 0;
    while i < style_section_pairs.len()
        invariant
            i <= style_section_pairs@.len(),
            forall|j: int|
                0 <= j < i ==> (#[trigger] style_section_pairs@[j]).0.1
                    == style_section_pairs@[j].1.1,
            superimposed@ == superimposed_spans(style_section_pairs@.subrange(0, i as int)),
        decreases style_section_pairs@.len() - i,
    {
        let (syntax_span, diff_span) = style_section_pairs[i];
        let (syntax_style, char_1) = *syntax_span;
        let (style, char_2) = diff_span;
        if char_1 != char_2 {
            return Err(
                PaintError::SectionCharMismatch {
                    position: i,
                    syntax_char: char_1,
                    diff_char: char_2,
                },
            );
        }
        superimposed.push(((syntax_style, style), char_1));
        proof {
            assert(superimposed_spans(style_section_pairs@.subrange(0, i as int + 1))
                =~= superimposed_spans(style_section_pairs@.subrange(0, i as int)).push(
                (
                    ((style_section_pairs@[i as int]).0.0, (style_section_pairs@[i as int]).1.0),
                    (style_section_pairs@[i as int]).0.1,
                ),
            ));
        }
        i += 1;
    }
    proof {
        assert(style_section_pairs@.subrange(0, style_section_pairs@.len() as int)
            =~= style_section_pairs@);
    }
    Ok(superimposed)
}

/// One final style for a `(syntax_style, diff_style)` pair: when the diff
/// style asks for syntax highlighting and the syntax style is not the
/// "no annotation" sentinel, the diff style with its foreground replaced by
/// the terminal translation of the syntax foreground; otherwise exactly the
/// diff style.
pub open spec fn resolve_style(
    pair: (SyntaxStyle, Style),
    true_color: bool,
    null_syntax_style: SyntaxStyle,
) -> Style {
    if pair.1.is_syntax_highlighted && pair.0 != null_syntax_style {
        Style {
            ansi_term_style: AnsiTermStyle {
                foreground: Some(spec_to_ansi_color(pair.0.foreground, true_color)),
                ..pair.1.ansi_term_style
            },
            ..pair.1
        }
    } else {
        pair.1
    }
}

/// Resolves the one final style for a style pair.
pub fn make_superimposed_style(
    pair: (SyntaxStyle, Style),
    true_color: bool,
    null_syntax_style: SyntaxStyle,
) -> (s: Style)
    ensures
        s == resolve_style(pair, true_color, null_syntax_style),
{
    let (syntax_style, style) = pair;
    if style.is_syntax_highlighted && syntax_style != null_syntax_style {
        Style {
            ansi_term_style: AnsiTermStyle {
                foreground: Some(to_ansi_color(syntax_style.foreground, true_color)),
                ..style.ansi_term_style
            },
            ..style
        }
    } else {
        style
    }
}

/// Resolving a final style depends only on the style pair, never on the
/// position that carries it: equal pairs anywhere resolve identically.
pub proof fn lemma_style_resolution_pure(
    spans: Seq<((SyntaxStyle, Style), char)>,
    i: int,
    j: int,
    true_color: bool,
    null_syntax_style: SyntaxStyle,
)
    requires
        0 <= i < spans.len(),
        0 <= j < spans.len(),
        spans[i].0 == spans[j].0,
    ensures
        resolve_style(spans[i].0, true_color, null_syntax_style) == resolve_style(
            spans[j].0,
            true_color,
            null_syntax_style,
        ),
{
}

/// Consecutive positions that carry an identical style pair, grouped back
/// into runs of text.
pub open spec fn runs(spans: Seq<((SyntaxStyle, Style), char)>) -> Seq<
    ((SyntaxStyle, Style), Seq<char>),
>
    decreases spans.len(),
{
    if spans.len() == 0 {
        Seq::empty()
    } else {
        let rest = runs(spans.drop_first());
        if rest.len() > 0 && rest.first().0 == spans.first().0 {
            seq![(spans.first().0, seq![spans.first().1] + rest.first().1)] + rest.drop_first()
        } else {
            seq![(spans.first().0, seq![spans.first().1])] + rest
        }
    }
}

pub proof fn lemma_runs_push(
    spans: Seq<((SyntaxStyle, Style), char)>,
    x: ((SyntaxStyle, Style), char),
)
    ensures
        spans.len() == 0 ==> runs(spans.push(x)) == seq![(x.0, seq![x.1])],
        spans.len() > 0 ==> runs(spans).len() > 0,
        spans.len() > 0 && spans.last().0 == x.0 ==> runs(spans.push(x)) == runs(spans).update(
            runs(spans).len() - 1,
            (x.0, runs(spans).last().1.push(x.1)),
        ),
        spans.len() > 0 && spans.last().0 != x.0 ==> runs(spans.push(x)) == runs(spans).push(
            (x.0, seq![x.1]),
        ),
    decreases spans.len(),
{
    if spans.len() == 0 {
        assert(spans.push(x).first() == x);
        assert(spans.push(x).drop_first() =~= Seq::<((SyntaxStyle, Style), char)>::empty());
        assert(runs(spans.push(x).drop_first()) =~= Seq::<((SyntaxStyle, Style), Seq<char>)>::empty());
        assert(runs(spans.push(x)) =~= seq![(x.0, seq![x.1])]);
    } else {
        let h = spans.first();
        let t = spans.drop_first();
        lemma_runs_push(t, x);
        assert(spans.push(x).first() == h);
        assert(spans.push(x).drop_first() =~= t.push(x));
        assert(spans.last() == if t.len() == 0 { h } else { t.last() });
        let rest = runs(t);
        let rest_after = runs(t.push(x));
        if t.len() == 0 {
            assert(rest =~= Seq::<((SyntaxStyle, Style), Seq<char>)>::empty());
            assert(runs(spans) =~= seq![(h.0, seq![h.1])]);
            assert(rest_after == seq![(x.0, seq![x.1])]);
            if x.0 == h.0 {
                assert(runs(spans.push(x)) =~= seq![(h.0, seq![h.1] + seq![x.1])]);
                assert(seq![h.1] + seq![x.1] =~= seq![h.1].push(x.1));
                assert(runs(spans.push(x)) =~= runs(spans).update(
                    runs(spans).len() - 1,
                    (x.0, runs(spans).last().1.push(x.1)),
                ));
            } else {
                assert(runs(spans.push(x)) =~= runs(spans).push((x.0, seq![x.1])));
            }
        } else {
            assert(rest.len() > 0);
            if t.last().0 == x.0 {
                // The new span merges into the last run of the tail.
                let merged = (x.0, rest.last().1.push(x.1));
                assert(rest_after == rest.update(rest.len() - 1, merged));
                assert(rest_after.len() == rest.len());
                if rest.len() == 1 {
                    assert(rest_after.first() == merged);
                    assert(rest.first() == rest.last());
                    if h.0 == rest.first().0 {
                        assert(runs(spans) =~= seq![(h.0, seq![h.1] + rest.first().1)]
                            + rest.drop_first());
                        assert(rest.drop_first() =~= Seq::<((SyntaxStyle, Style), Seq<char>)>::empty());
                        assert(rest_after.drop_first() =~= Seq::<
                            ((SyntaxStyle, Style), Seq<char>),
                        >::empty());
                        assert(rest_after.first().0 == x.0);
                        assert(h.0 == x.0);
                        assert(runs(spans.push(x)) =~= seq![(h.0, seq![h.1] + merged.1)]);
                        assert(seq![h.1] + rest.first().1.push(x.1) =~= (seq![h.1]
                            + rest.first().1).push(x.1));
                        assert(runs(spans.push(x)) =~= runs(spans).update(
                            runs(spans).len() - 1,
                            (x.0, runs(spans).last().1.push(x.1)),
                        ));
                    } else {
                        assert(runs(spans) =~= seq![(h.0, seq![h.1])] + rest);
                        assert(rest_after.first().0 == x.0);
                        assert(x.0 != h.0);
                        assert(runs(spans.push(x)) =~= seq![(h.0, seq![h.1])] + rest_after);
                        assert(runs(spans.push(x)) =~= runs(spans).update(
                            runs(spans).len() - 1,
                            (x.0, runs(spans).last().1.push(x.1)),
                        ));
                        assert(spans.last().0 == x.0);
                    }
                } else {
                    assert(rest_after.first() == rest.first());
                    assert(rest_after.last() == merged);
                    if h.0 == rest.first().0 {
                        assert(runs(spans) =~= seq![(h.0, seq![h.1] + rest.first().1)]
                            + rest.drop_first());
                        assert(runs(spans.push(x)) =~= seq![(h.0, seq![h.1] + rest_after.first().1)]
                            + rest_after.drop_first());
                        assert(rest_after.drop_first() =~= rest.drop_first().update(
                            rest.len() - 2,
                            merged,
                        ));
                        assert(runs(spans.push(x)) =~= runs(spans).update(
                            runs(spans).len() - 1,
                            (x.0, runs(spans).last().1.push(x.1)),
                        ));
                    } else {
                        assert(runs(spans) =~= seq![(h.0, seq![h.1])] + rest);
                        assert(runs(spans.push(x)) =~= seq![(h.0, seq![h.1])] + rest_after);
                        assert(runs(spans.push(x)) =~= runs(spans).update(
                            runs(spans).len() - 1,
                            (x.0, runs(spans).last().1.push(x.1)),
                        ));
                    }
                }
            } else {
                // The new span opens a run of its own after the tail's runs.
                assert(rest_after == rest.push((x.0, seq![x.1])));
                assert(rest_after.first() == rest.first());
                if h.0 == rest.first().0 {
                    assert(runs(spans) =~= seq![(h.0, seq![h.1] + rest.first().1)]
                        + rest.drop_first());
                    assert(runs(spans.push(x)) =~= seq![(h.0, seq![h.1] + rest_after.first().1)]
                        + rest_after.drop_first());
                    assert(rest_after.drop_first() =~= rest.drop_first().push((x.0, seq![x.1])));
                    assert(runs(spans.push(x)) =~= runs(spans).push((x.0, seq![x.1])));
                } else {
                    assert(runs(spans) =~= seq![(h.0, seq![h.1])] + rest);
                    assert(runs(spans.push(x)) =~= seq![(h.0, seq![h.1])] + rest_after);
                    assert(runs(spans.push(x)) =~= runs(spans).push((x.0, seq![x.1])));
                }
            }
        }
    }
}

pub proof fn lemma_section_chars_cons<T>(sections: Seq<(T, Seq<char>)>)
    requires
        sections.len() > 0,
    ensures
        section_chars(sections) == sections.first().1 + section_chars(sections.drop_first()),
{
    assert(section_chars(sections) =~= sections.first().1 + section_chars(sections.drop_first()));
}

/// The text a partition covers does not depend on its styles: two
/// partitions with the same section texts cover the same text.
pub proof fn lemma_section_chars_same_texts<T>(a: Seq<(T, Seq<char>)>, b: Seq<(T, Seq<char>)>)
    requires
        a.len() == b.len(),
        forall|i: int| 0 <= i < a.len() ==> (#[trigger] a[i]).1 == b[i].1,
    ensures
        section_chars(a) == section_chars(b),
    decreases a.len(),
{
    if a.len() > 0 {
        lemma_section_chars_cons(a);
        lemma_section_chars_cons(b);
        lemma_section_chars_same_texts(a.drop_first(), b.drop_first());
        assert(a.first().1 == b.first().1);
    } else {
        assert(section_chars(a) =~= Seq::<char>::empty());
        assert(section_chars(b) =~= Seq::<char>::empty());
    }
}

pub proof fn lemma_section_chars_single<T>(style: T, text: Seq<char>)
    ensures
        section_chars(seq![(style, text)]) == text,
{
    let s = seq![(style, text)];
    assert(s.drop_first() =~= Seq::<(T, Seq<char>)>::empty());
    assert(exploded(s.drop_first()) =~= Seq::<(T, char)>::empty());
    assert(exploded(s) =~= char_spans(style, text));
    assert(span_chars(char_spans(style, text)) =~= text);
}

pub proof fn lemma_runs_text_len<S>(runs_seq: Seq<(S, Seq<char>)>)
    ensures
        runs_text(runs_seq).len() == runs_total_len(runs_seq),
    decreases runs_seq.len(),
{
    if runs_seq.len() > 0 {
        lemma_runs_text_len(runs_seq.drop_first());
    }
}

/// The last run's text with one trailing line terminator removed, if the
/// text ends with one; every other run is untouched.
pub open spec fn strip_last_newline(runs_seq: Seq<((SyntaxStyle, Style), Seq<char>)>) -> Seq<
    ((SyntaxStyle, Style), Seq<char>),
> {
    if runs_seq.len() > 0 && runs_seq.last().1.len() > 0 && runs_seq.last().1.last() == '\n' {
        runs_seq.update(runs_seq.len() - 1, (runs_seq.last().0, runs_seq.last().1.drop_last()))
    } else {
        runs_seq
    }
}

/// Each run's style pair resolved to its one final style.
pub open spec fn resolve_runs(
    runs_seq: Seq<((SyntaxStyle, Style), Seq<char>)>,
    true_color: bool,
    null_syntax_style: SyntaxStyle,
) -> Seq<(Style, Seq<char>)> {
    runs_seq.map_values(
        |r: ((SyntaxStyle, Style), Seq<char>)|
            (resolve_style(r.0, true_color, null_syntax_style), r.1),
    )
}

/// What coalescing a per-position span sequence yields: equal consecutive
/// pairs grouped into runs, one trailing terminator stripped from the final
/// run, and each run's style resolved once.
pub open spec fn spec_coalesce(
    spans: Seq<((SyntaxStyle, Style), char)>,
    true_color: bool,
    null_syntax_style: SyntaxStyle,
) -> Seq<(Style, Seq<char>)> {
    resolve_runs(strip_last_newline(runs(spans)), true_color, null_syntax_style)
}

/// A character sequence with one trailing line terminator removed, if it
/// ends with one.
pub open spec fn strip_trailing_newline(s: Seq<char>) -> Seq<char> {
    if s.len() > 0 && s.last() == '\n' {
        s.drop_last()
    } else {
        s
    }
}

/// Merges consecutive positions that share an identical style pair into one
/// owned run each, resolves each run's style once, and strips the one
/// trailing line terminator that was retained for the highlighter.
pub fn coalesce(
    style_sections: Vec<((SyntaxStyle, Style), char)>,
    true_color: bool,
    null_syntax_style: SyntaxStyle,
) -> (coalesced: Vec<(Style, String)>)
    ensures
        owned_runs_view(coalesced@) == spec_coalesce(
            style_sections@,
            true_color,
            null_syntax_style,
        ),
        runs_text(owned_runs_view(coalesced@)) == strip_trailing_newline(
            span_chars(style_sections@),
        ),
        style_sections@.len() > 0 ==> coalesced@.len() > 0,
{
    let mut coalesced: Vec<(Style, String)> = Vec::new();
    let n = style_sections.len();
    if n == 0 {
        proof {
            assert(runs(style_sections@) =~= Seq::<((SyntaxStyle, Style), Seq<char>)>::empty());
            assert(owned_runs_view(coalesced@) =~= spec_coalesce(
                style_sections@,
                true_color,
                null_syntax_style,
            ));
            assert(span_chars(style_sections@) =~= Seq::<char>::empty());
            assert(runs_text(owned_runs_view(coalesced@)) =~= strip_trailing_newline(
                span_chars(style_sections@),
            ));
        }
        return coalesced;
    }
    let (first_pair, first_char) = style_sections[0];
    let mut current_pair = first_pair;
    let mut current_text: Vec<char> = Vec::new();
    current_text.push(first_char);
    let ghost mut pushed: Seq<((SyntaxStyle, Style), Seq<char>)> = Seq::empty();
    proof {
        lemma_runs_push(Seq::empty(), style_sections@[0]);
        assert(style_sections@.subrange(0, 1) =~= Seq::empty().push(style_sections@[0]));
        assert(current_text@ =~= seq![first_char]);
        assert(runs(style_sections@.subrange(0, 1)) =~= pushed.push((current_pair, current_text@)));
        assert(span_chars(style_sections@.subrange(0, 1)) =~= seq![first_char]);
        assert(runs_text(owned_runs_view(coalesced@)) =~= Seq::<char>::empty());
        assert(runs_text(owned_runs_view(coalesced@)) + current_text@ =~= span_chars(
            style_sections@.subrange(0, 1),
        ));
    }
    let mut i: usize = 1;
    while i < n
        invariant
            1 <= i <= n,
            n == style_sections@.len(),
            runs(style_sections@.subrange(0, i as int)) == pushed.push(
                (current_pair, current_text@),
            ),
            current_text@.len() > 0,
            current_pair == style_sections@[i - 1].0,
            owned_runs_view(coalesced@) == resolve_runs(pushed, true_color, null_syntax_style),
            runs_text(owned_runs_view(coalesced@)) + current_text@ == span_chars(
                style_sections@.subrange(0, i as int),
            ),
        decreases n - i,
    {
        let (pair, c) = style_sections[i];
        proof {
            lemma_runs_push(style_sections@.subrange(0, i as int), style_sections@[i as int]);
            assert(style_sections@.subrange(0, i as int + 1) =~= style_sections@.subrange(
                0,
                i as int,
            ).push(style_sections@[i as int]));
            assert(style_sections@.subrange(0, i as int).last() == style_sections@[i - 1]);
            assert(span_chars(style_sections@.subrange(0, i as int + 1)) =~= span_chars(
                style_sections@.subrange(0, i as int),
            ).push(c));
        }
        if !(pair.0 == current_pair.0 && style_eq(&pair.1, &current_pair.1)) {
            assert(pair != current_pair);
            let style = make_superimposed_style(current_pair, true_color, null_syntax_style);
            let text = string_of_chars(&current_text);
            let ghost owned_before = owned_runs_view(coalesced@);
            coalesced.push((style, text));
            proof {
                let resolved_run = (
                    resolve_style(current_pair, true_color, null_syntax_style),
                    current_text@,
                );
                assert(owned_runs_view(coalesced@) =~= owned_before.push(resolved_run));
                assert(resolve_runs(
                    pushed.push((current_pair, current_text@)),
                    true_color,
                    null_syntax_style,
                ) =~= resolve_runs(pushed, true_color, null_syntax_style).push(resolved_run));
                lemma_runs_text_push(owned_before, resolved_run);
                pushed = pushed.push((current_pair, current_text@));
            }
            current_pair = pair;
            current_text = Vec::new();
            current_text.push(c);
            proof {
                assert(current_text@ =~= seq![c]);
                assert(runs(style_sections@.subrange(0, i as int + 1)) =~= pushed.push(
                    (current_pair, current_text@),
                ));
                assert(runs_text(owned_runs_view(coalesced@)) + current_text@ =~= span_chars(
                    style_sections@.subrange(0, i as int + 1),
                ));
            }
        } else {
            proof {
                assert(pair == current_pair);
            }
            let ghost prev_text = current_text@;
            current_text.push(c);
            proof {
                assert(pushed.push((current_pair, prev_text)).update(
                    pushed.len() as int,
                    (current_pair, current_text@),
                ) =~= pushed.push((current_pair, current_text@)));
                assert(runs(style_sections@.subrange(0, i as int + 1)) =~= pushed.push(
                    (current_pair, current_text@),
                ));
                assert(current_text@ =~= prev_text.push(c));
                assert(runs_text(owned_runs_view(coalesced@)) + current_text@ =~= (runs_text(
                    owned_runs_view(coalesced@),
                ) + prev_text).push(c));
                assert(runs_text(owned_runs_view(coalesced@)) + current_text@ =~= span_chars(
                    style_sections@.subrange(0, i as int + 1),
                ));
            }
        }
        i += 1;
    }
    proof {
        assert(style_sections@.subrange(0, n as int) =~= style_sections@);
    }
    let ghost text_before_strip = current_text@;
    // Remove the terminating newline whose presence was necessary for the
    // syntax highlighter to work correctly.
    if current_text[current_text.len() - 1] == '\n' {
        let _ = current_text.pop();
    }
    let style = make_superimposed_style(current_pair, true_color, null_syntax_style);
    let text = string_of_chars(&current_text);
    let ghost owned_before = owned_runs_view(coalesced@);
    coalesced.push((style, text));
    proof {
        let full = style_sections@;
        let resolved_pending = (
            resolve_style(current_pair, true_color, null_syntax_style),
            current_text@,
        );
        assert(owned_runs_view(coalesced@) =~= owned_before.push(resolved_pending));
        assert(strip_last_newline(pushed.push((current_pair, text_before_strip))) =~= pushed.push(
            (current_pair, current_text@),
        ));
        assert(resolve_runs(
            pushed.push((current_pair, current_text@)),
            true_color,
            null_syntax_style,
        ) =~= resolve_runs(pushed, true_color, null_syntax_style).push(resolved_pending));
        lemma_runs_text_push(owned_before, resolved_pending);
        assert(runs_text(owned_before) + text_before_strip == span_chars(full));
        if text_before_strip.last() == '\n' {
            assert(span_chars(full).last() == '\n');
            assert(current_text@ =~= text_before_strip.drop_last());
            assert(runs_text(owned_runs_view(coalesced@)) =~= strip_trailing_newline(
                span_chars(full),
            ));
        } else {
            assert(span_chars(full).last() != '\n');
            assert(runs_text(owned_runs_view(coalesced@)) =~= strip_trailing_newline(
                span_chars(full),
            ));
        }
    }
    coalesced
}

proof fn lemma_runs_single_block(pair: (SyntaxStyle, Style), text: Seq<char>)
    requires
        text.len() > 0,
    ensures
        runs(char_spans(pair, text)) == seq![(pair, text)],
    decreases text.len(),
{
    if text.len() == 1 {
        assert(char_spans(pair, text) =~= seq![(pair, text[0])]);
        assert(seq![(pair, text[0])].drop_first() =~= Seq::<((SyntaxStyle, Style), char)>::empty());
        assert(runs(seq![(pair, text[0])].drop_first()) =~= Seq::<
            ((SyntaxStyle, Style), Seq<char>),
        >::empty());
        assert(runs(char_spans(pair, text)) =~= seq![(pair, seq![text[0]])]);
        assert(seq![text[0]] =~= text);
        assert(runs(char_spans(pair, text)) =~= seq![(pair, text)]);
    } else {
        lemma_runs_single_block(pair, text.drop_last());
        assert(char_spans(pair, text) =~= char_spans(pair, text.drop_last()).push(
            (pair, text.last()),
        ));
        lemma_runs_push(char_spans(pair, text.drop_last()), (pair, text.last()));
        assert(char_spans(pair, text.drop_last()).last() == (pair, text.drop_last().last()));
        assert(runs(char_spans(pair, text)) == seq![(pair, text.drop_last())].update(
            0,
            (pair, text.drop_last().push(text.last())),
        ));
        assert(text.drop_last().push(text.last()) =~= text);
        assert(seq![(pair, text.drop_last())].update(0, (pair, text)) =~= seq![(pair, text)]);
    }
}

proof fn lemma_runs_two_blocks(
    pair_1: (SyntaxStyle, Style),
    text_1: Seq<char>,
    pair_2: (SyntaxStyle, Style),
    text_2: Seq<char>,
)
    requires
        text_1.len() > 0,
        text_2.len() > 0,
        pair_1 != pair_2,
    ensures
        runs(char_spans(pair_1, text_1) + char_spans(pair_2, text_2)) == seq![
            (pair_1, text_1),
            (pair_2, text_2),
        ],
    decreases text_2.len(),
{
    lemma_runs_single_block(pair_1, text_1);
    assert(char_spans(pair_1, text_1).last() == (pair_1, text_1.last()));
    if text_2.len() == 1 {
        assert(char_spans(pair_1, text_1) + char_spans(pair_2, text_2) =~= char_spans(
            pair_1,
            text_1,
        ).push((pair_2, text_2[0])));
        lemma_runs_push(char_spans(pair_1, text_1), (pair_2, text_2[0]));
        assert(runs(char_spans(pair_1, text_1).push((pair_2, text_2[0]))) == seq![
            (pair_1, text_1),
        ].push((pair_2, seq![text_2[0]])));
        assert(seq![text_2[0]] =~= text_2);
        assert(seq![(pair_1, text_1)].push((pair_2, seq![text_2[0]])) =~= seq![
            (pair_1, text_1),
            (pair_2, text_2),
        ]);
    } else {
        lemma_runs_two_blocks(pair_1, text_1, pair_2, text_2.drop_last());
        let full_prefix = char_spans(pair_1, text_1) + char_spans(pair_2, text_2.drop_last());
        assert(char_spans(pair_2, text_2) =~= char_spans(pair_2, text_2.drop_last()).push(
            (pair_2, text_2.last()),
        ));
        assert(char_spans(pair_1, text_1) + char_spans(pair_2, text_2) =~= full_prefix.push(
            (pair_2, text_2.last()),
        ));
        assert(full_prefix.last() == (pair_2, text_2.drop_last().last()));
        lemma_runs_push(full_prefix, (pair_2, text_2.last()));
        assert(runs(full_prefix.push((pair_2, text_2.last()))) == runs(full_prefix).update(
            1,
            (pair_2, text_2.drop_last().push(text_2.last())),
        ));
        assert(text_2.drop_last().push(text_2.last()) =~= text_2);
        assert(seq![(pair_1, text_1), (pair_2, text_2.drop_last())].update(1, (pair_2, text_2))
            =~= seq![(pair_1, text_1), (pair_2, text_2)]);
    }
}

/// A line partitioned by the highlighter into a head token and a tail
/// token, and by the diff engine into an emphasized head and a base tail
/// over the same boundary, superimposes to exactly two runs: each keeps its
/// diff style's attributes with the foreground replaced by the terminal
/// translation of its token's foreground. Stated for any texts and any two
/// distinct style pairs, with both diff styles asking for highlighting
/// against non-sentinel token styles, and no trailing terminator to strip.
pub proof fn lemma_emphasized_head_superimposes_to_two_runs(
    head_syntax: SyntaxStyle,
    tail_syntax: SyntaxStyle,
    emph_style: Style,
    base_style: Style,
    head: Seq<char>,
    tail: Seq<char>,
    true_color: bool,
    null_syntax_style: SyntaxStyle,
)
    requires
        head.len() > 0,
        tail.len() > 0,
        tail.last() != '\n',
        (head_syntax, emph_style) != (tail_syntax, base_style),
        emph_style.is_syntax_highlighted,
        base_style.is_syntax_highlighted,
        head_syntax != null_syntax_style,
        tail_syntax != null_syntax_style,
    ensures
        spec_superimpose(
            seq![(head_syntax, head), (tail_syntax, tail)],
            seq![(emph_style, head), (base_style, tail)],
            true_color,
            null_syntax_style,
        ) == seq![
            (
                Style {
                    ansi_term_style: AnsiTermStyle {
                        foreground: Some(spec_to_ansi_color(head_syntax.foreground, true_color)),
                        ..emph_style.ansi_term_style
                    },
                    ..emph_style
                },
                head,
            ),
            (
                Style {
                    ansi_term_style: AnsiTermStyle {
                        foreground: Some(spec_to_ansi_color(tail_syntax.foreground, true_color)),
                        ..base_style.ansi_term_style
                    },
                    ..base_style
                },
                tail,
            ),
        ],
{
    let s1 = seq![(head_syntax, head), (tail_syntax, tail)];
    let s2 = seq![(emph_style, head), (base_style, tail)];
    assert(s1.drop_first() =~= seq![(tail_syntax, tail)]);
    assert(seq![(tail_syntax, tail)].drop_first() =~= Seq::<(SyntaxStyle, Seq<char>)>::empty());
    assert(exploded(seq![(tail_syntax, tail)].drop_first()) =~= Seq::<(SyntaxStyle, char)>::empty());
    assert(exploded(seq![(tail_syntax, tail)]) =~= char_spans(tail_syntax, tail));
    assert(exploded(s1) =~= char_spans(head_syntax, head) + char_spans(tail_syntax, tail));
    assert(s2.drop_first() =~= seq![(base_style, tail)]);
    assert(seq![(base_style, tail)].drop_first() =~= Seq::<(Style, Seq<char>)>::empty());
    assert(exploded(seq![(base_style, tail)].drop_first()) =~= Seq::<(Style, char)>::empty());
    assert(exploded(seq![(base_style, tail)]) =~= char_spans(base_style, tail));
    assert(exploded(s2) =~= char_spans(emph_style, head) + char_spans(base_style, tail));
    let zipped = zip_spans(exploded(s1), exploded(s2));
    assert(zipped =~= char_spans((head_syntax, emph_style), head) + char_spans(
        (tail_syntax, base_style),
        tail,
    ));
    lemma_runs_two_blocks((head_syntax, emph_style), head, (tail_syntax, base_style), tail);
    let grouped = runs(zipped);
    assert(grouped == seq![
        ((head_syntax, emph_style), head),
        ((tail_syntax, base_style), tail),
    ]);
    assert(strip_last_newline(grouped) == grouped);
    assert(resolve_runs(grouped, true_color, null_syntax_style) =~= seq![
        (resolve_style((head_syntax, emph_style), true_color, null_syntax_style), head),
        (resolve_style((tail_syntax, base_style), true_color, null_syntax_style), tail),
    ]);
}

/// The two exploded partitions zipped position by position, keeping the
/// character of the first; meaningful when both cover the same text.
pub open spec fn zip_spans(e1: Seq<(SyntaxStyle, char)>, e2: Seq<(Style, char)>) -> Seq<
    ((SyntaxStyle, Style), char),
> {
    Seq::new(e1.len(), |i: int| ((e1[i].0, e2[i].0), e1[i].1))
}

/// What superimposing two partitions of the same text yields.
pub open spec fn spec_superimpose(
    sections_1: Seq<(SyntaxStyle, Seq<char>)>,
    sections_2: Seq<(Style, Seq<char>)>,
    true_color: bool,
    null_syntax_style: SyntaxStyle,
) -> Seq<(Style, Seq<char>)> {
    spec_coalesce(
        zip_spans(exploded(sections_1), exploded(sections_2)),
        true_color,
        null_syntax_style,
    )
}

/// Merges the syntax-highlight partition and the diff-emphasis partition of
/// one line into a single partition of owned runs, one resolved style each.
///
/// The two inputs must cover the same text; when they do not, the two
/// annotation sources disagree about the underlying line, and the error says
/// where. Success is never silently recovered from a disagreement. On
/// success the output covers the input text with at most one trailing line
/// terminator removed, and no character is duplicated or dropped.
pub fn superimpose_style_sections(
    sections_1: &Vec<(SyntaxStyle, &str)>,
    sections_2: &Vec<(Style, &str)>,
    true_color: bool,
    null_syntax_style: SyntaxStyle,
) -> (r: Result<Vec<(Style, String)>, PaintError>)
    ensures
        (r is Ok) <==> section_chars(str_sections_view(sections_1@)) == section_chars(
            str_sections_view(sections_2@),
        ),
        r matches Ok(coalesced) ==> owned_runs_view(coalesced@) == spec_superimpose(
            str_sections_view(sections_1@),
            str_sections_view(sections_2@),
            true_color,
            null_syntax_style,
        ),
        r matches Ok(coalesced) ==> runs_text(owned_runs_view(coalesced@))
            == strip_trailing_newline(section_chars(str_sections_view(sections_1@))),
        r matches Ok(coalesced) ==> runs_total_len(owned_runs_view(coalesced@))
            == strip_trailing_newline(section_chars(str_sections_view(sections_1@))).len(),
        r matches Ok(coalesced) ==> (section_chars(str_sections_view(sections_1@)).len() > 0
            ==> coalesced@.len() > 0),
        r matches Err(e) ==> {
            let c1 = section_chars(str_sections_view(sections_1@));
            let c2 = section_chars(str_sections_view(sections_2@));
            if c1.len() != c2.len() {
                e == (PaintError::SectionLengthMismatch {
                    syntax_len: c1.len() as usize,
                    diff_len: c2.len() as usize,
                })
            } else {
                exists|i: int|
                    0 <= i < c1.len() && c1[i] != (#[trigger] c2[i]) && (forall|j: int|
                        0 <= j < i ==> c1[j] == c2[j]) && e == (PaintError::SectionCharMismatch {
                        position: i as usize,
                        syntax_char: c1[i],
                        diff_char: c2[i],
                    })
            }
        },
{
    let exploded_1 = explode(sections_1);
    let exploded_2 = explode(sections_2);
    let ghost c1 = section_chars(str_sections_view(sections_1@));
    let ghost c2 = section_chars(str_sections_view(sections_2@));
    proof {
        assert(c1.len() == exploded_1@.len());
        assert(c2.len() == exploded_2@.len());
    }
    if exploded_1.len() != exploded_2.len() {
        return Err(
            PaintError::SectionLengthMismatch {
                syntax_len: exploded_1.len(),
                diff_len: exploded_2.len(),
            },
        );
    }
    let mut pairs: Vec<(&(SyntaxStyle, char), (Style, char))> = Vec::new();
    let mut i: usize = 0;
    while i < exploded_1.len()
        invariant
            i <= exploded_1@.len(),
            exploded_1@.len() == exploded_2@.len(),
            pairs@.len() == i,
            forall|j: int|
                0 <= j < i ==> (#[trigger] pairs@[j]).0 == exploded_1@[j] && pairs@[j].1
                    == exploded_2@[j],
        decreases exploded_1@.len() - i,
    {
        pairs.push((&exploded_1[i], exploded_2[i]));
        i += 1;
    }
    let spans = match superimpose(pairs) {
        Ok(spans) => spans,
        Err(e) => {
            proof {
                assert forall|j: int| 0 <= j < c1.len() implies c1[j] == exploded_1@[j].1
                    && c2[j] == exploded_2@[j].1 by {}
                assert(c1.len() == c2.len());
                let k = choose|k: int|
                    0 <= k < pairs@.len() && (#[trigger] pairs@[k]).0.1 != pairs@[k].1.1 && (
                    forall|j: int|
                        0 <= j < k ==> (#[trigger] pairs@[j]).0.1 == pairs@[j].1.1) && e == (
                    PaintError::SectionCharMismatch {
                        position: k as usize,
                        syntax_char: pairs@[k].0.1,
                        diff_char: pairs@[k].1.1,
                    });
                assert(0 <= k < c1.len());
                assert(c1[k] == pairs@[k].0.1);
                assert(c2[k] == pairs@[k].1.1);
                assert(c1[k] != c2[k]);
                assert forall|j: int| 0 <= j < k implies c1[j] == c2[j] by {
                    assert(pairs@[j].0.1 == pairs@[j].1.1);
                }
                assert(e == (PaintError::SectionCharMismatch {
                    position: k as usize,
                    syntax_char: c1[k],
                    diff_char: c2[k],
                }));
                assert(exists|k: int|
                    0 <= k < c1.len() && c1[k] != (#[trigger] c2[k]) && (forall|j: int|
                        0 <= j < k ==> c1[j] == c2[j]) && e == (PaintError::SectionCharMismatch {
                        position: k as usize,
                        syntax_char: c1[k],
                        diff_char: c2[k],
                    }));
            }
            return Err(e);
        },
    };
    proof {
        assert(spans@ =~= zip_spans(exploded_1@, exploded_2@));
        assert(span_chars(spans@) =~= c1);
        assert(c1 =~= c2);
    }
    let coalesced = coalesce(spans, true_color, null_syntax_style);
    proof {
        lemma_runs_text_len(owned_runs_view(coalesced@));
    }
    Ok(coalesced)
}

} // verus!
