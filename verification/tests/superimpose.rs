use delta::color::{Rgba, SyntaxStyle};
use delta::error::PaintError;
use delta::style::{AnsiColor, AnsiTermStyle, DecorationStyle, Style};
use delta::superimpose::{coalesce, explode, superimpose, superimpose_style_sections};

fn syntax_style() -> SyntaxStyle {
    SyntaxStyle {
        foreground: Rgba { r: 0x00, g: 0x00, b: 0x00, a: 0xff },
        background: Rgba { r: 0x00, g: 0x00, b: 0x00, a: 0xff },
        font_style: 1,
    }
}

fn null_syntax_style() -> SyntaxStyle {
    SyntaxStyle::null()
}

fn white_on_white(is_syntax_highlighted: bool) -> Style {
    Style {
        ansi_term_style: AnsiTermStyle {
            foreground: Some(AnsiColor::White),
            background: Some(AnsiColor::White),
            is_bold: false,
            is_dimmed: false,
            is_italic: false,
            is_underline: true,
            is_blink: false,
            is_reverse: false,
            is_hidden: false,
            is_strikethrough: false,
        },
        is_emph: false,
        is_omitted: false,
        is_raw: false,
        is_syntax_highlighted,
        decoration_style: DecorationStyle::NoDecoration,
    }
}

fn syntax_highlighted_style() -> Style {
    white_on_white(true)
}

fn non_syntax_highlighted_style() -> Style {
    white_on_white(false)
}

fn superimposed_style() -> Style {
    let mut s = syntax_highlighted_style();
    s.ansi_term_style.foreground = Some(delta::color::to_ansi_color(
        Rgba { r: 0x00, g: 0x00, b: 0x00, a: 0xff },
        true,
    ));
    s
}

#[test]
fn test_superimpose_style_sections_1() {
    let sections_1 = vec![(syntax_style(), "ab")];
    let sections_2 = vec![(syntax_highlighted_style(), "ab")];
    let superimposed = vec![(superimposed_style(), "ab".to_string())];
    assert_eq!(
        superimpose_style_sections(&sections_1, &sections_2, true, null_syntax_style()),
        Ok(superimposed)
    );
}

#[test]
fn test_superimpose_style_sections_2() {
    let sections_1 = vec![(syntax_style(), "ab")];
    let sections_2 = vec![
        (syntax_highlighted_style(), "a"),
        (syntax_highlighted_style(), "b"),
    ];
    let superimposed = vec![(superimposed_style(), String::from("ab"))];
    assert_eq!(
        superimpose_style_sections(&sections_1, &sections_2, true, null_syntax_style()),
        Ok(superimposed)
    );
}

#[test]
fn test_superimpose_style_sections_3() {
    let sections_1 = vec![(syntax_style(), "ab")];
    let sections_2 = vec![(non_syntax_highlighted_style(), "ab")];
    let superimposed = vec![(non_syntax_highlighted_style(), "ab".to_string())];
    assert_eq!(
        superimpose_style_sections(&sections_1, &sections_2, true, null_syntax_style()),
        Ok(superimposed)
    );
}

#[test]
fn test_explode() {
    let arbitrary = 0;
    assert_eq!(
        explode(&vec![(arbitrary, "ab")]),
        vec![(arbitrary, 'a'), (arbitrary, 'b')]
    )
}

#[test]
fn test_superimpose() {
    let x = (syntax_style(), 'a');
    let pairs = vec![(&x, (syntax_highlighted_style(), 'a'))];
    assert_eq!(
        superimpose(pairs),
        Ok(vec![((syntax_style(), syntax_highlighted_style()), 'a')])
    );
}

#[test]
fn mismatching_characters_are_a_fatal_error() {
    let sections_1 = vec![(syntax_style(), "abc")];
    let sections_2 = vec![(non_syntax_highlighted_style(), "abd")];
    assert_eq!(
        superimpose_style_sections(&sections_1, &sections_2, true, null_syntax_style()),
        Err(PaintError::SectionCharMismatch {
            position: 2,
            syntax_char: 'c',
            diff_char: 'd',
        })
    );
}

#[test]
fn mismatching_lengths_are_a_fatal_error() {
    let sections_1 = vec![(syntax_style(), "ab")];
    let sections_2 = vec![(non_syntax_highlighted_style(), "abc")];
    assert_eq!(
        superimpose_style_sections(&sections_1, &sections_2, true, null_syntax_style()),
        Err(PaintError::SectionLengthMismatch {
            syntax_len: 2,
            diff_len: 3,
        })
    );
}

#[test]
fn trailing_newline_is_stripped_from_the_final_run() {
    let sections_1 = vec![(syntax_style(), "ab\n")];
    let sections_2 = vec![(non_syntax_highlighted_style(), "ab\n")];
    let superimposed = vec![(non_syntax_highlighted_style(), "ab".to_string())];
    assert_eq!(
        superimpose_style_sections(&sections_1, &sections_2, true, null_syntax_style()),
        Ok(superimposed)
    );
}

#[test]
fn interior_newlines_are_preserved() {
    let sections_1 = vec![(syntax_style(), "a\nb")];
    let sections_2 = vec![(non_syntax_highlighted_style(), "a\nb")];
    let superimposed = vec![(non_syntax_highlighted_style(), "a\nb".to_string())];
    assert_eq!(
        superimpose_style_sections(&sections_1, &sections_2, true, null_syntax_style()),
        Ok(superimposed)
    );
}

#[test]
fn empty_input_coalesces_to_no_runs() {
    let spans: Vec<((SyntaxStyle, Style), char)> = Vec::new();
    let runs: Vec<(Style, String)> = Vec::new();
    assert_eq!(coalesce(spans, true, null_syntax_style()), runs);
}

// The concrete removed-line scenario: syntax spans for a keyword and a
// bracketed argument, diff spans for an emphasized head and a plain tail.
// Exactly two coalesced runs must come out, each keeping its diff style's
// attributes with the foreground re-colored from its syntax span.
#[test]
fn removed_line_with_emphasis_yields_two_recolored_runs() {
    let kw = SyntaxStyle {
        foreground: Rgba { r: 200, g: 40, b: 40, a: 0xff },
        background: Rgba { r: 0, g: 0, b: 0, a: 0xff },
        font_style: 1,
    };
    let punct = SyntaxStyle {
        foreground: Rgba { r: 10, g: 20, b: 30, a: 0xff },
        background: Rgba { r: 0, g: 0, b: 0, a: 0xff },
        font_style: 0,
    };
    let mut minus_emph = white_on_white(true);
    minus_emph.is_emph = true;
    minus_emph.ansi_term_style.background = Some(AnsiColor::Fixed(52));
    let mut minus = white_on_white(true);
    minus.ansi_term_style.background = Some(AnsiColor::Fixed(88));

    let sections_1 = vec![(kw, "foo"), (punct, "(1)")];
    let sections_2 = vec![(minus_emph, "foo"), (minus, "(1)")];

    let mut expected_first = minus_emph;
    expected_first.ansi_term_style.foreground = Some(AnsiColor::Rgb(200, 40, 40));
    let mut expected_second = minus;
    expected_second.ansi_term_style.foreground = Some(AnsiColor::Rgb(10, 20, 30));
    assert_eq!(
        superimpose_style_sections(&sections_1, &sections_2, true, null_syntax_style()),
        Ok(vec![
            (expected_first, "foo".to_string()),
            (expected_second, "(1)".to_string()),
        ])
    );
}

// The sentinel "no annotation" syntax style leaves the diff style's own
// foreground in place even when the diff style asks for highlighting.
#[test]
fn null_syntax_style_does_not_recolor() {
    let sections_1 = vec![(null_syntax_style(), "ab")];
    let sections_2 = vec![(syntax_highlighted_style(), "ab")];
    assert_eq!(
        superimpose_style_sections(&sections_1, &sections_2, true, null_syntax_style()),
        Ok(vec![(syntax_highlighted_style(), "ab".to_string())])
    );
}
