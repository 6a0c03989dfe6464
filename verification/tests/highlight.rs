use syntect::highlighting::ThemeSet;
use syntect::parsing::SyntaxSet;

use delta::color::SyntaxStyle;
use delta::config::{Config, PagingMode, Width};
use delta::highlight::new_line_highlighter;
use delta::paint::Painter;
use delta::state::State;
use delta::style::Style;

fn config_with_highlighting() -> Config {
    Config {
        background_color_extends_to_terminal_width: false,
        commit_style: Style::new(),
        decorations_width: Width::Variable,
        file_added_label: "added:".to_string(),
        file_modified_label: "".to_string(),
        file_removed_label: "removed:".to_string(),
        file_renamed_label: "renamed:".to_string(),
        file_style: Style::new(),
        hunk_header_style: Style::new(),
        max_buffered_lines: 32,
        minus_emph_style: Style::new(),
        minus_line_marker: "".to_string(),
        minus_non_emph_style: Style::new(),
        minus_style: Style::new(),
        navigate: false,
        null_style: Style::new(),
        null_syntax_style: SyntaxStyle::null(),
        number_minus_format: "%ln".to_string(),
        number_minus_format_style: Style::new(),
        number_minus_style: Style::new(),
        number_plus_format: "%ln".to_string(),
        number_plus_format_style: Style::new(),
        number_plus_style: Style::new(),
        paging_mode: PagingMode::QuitIfOneScreen,
        plus_emph_style: Style::new(),
        plus_line_marker: "".to_string(),
        plus_non_emph_style: Style::new(),
        plus_style: Style::new(),
        show_line_numbers: false,
        syntax_theme_selected: true,
        tab_width: 4,
        theme_name: "base16-ocean.dark".to_string(),
        true_color: true,
        zero_style: Style::new(),
    }
}

#[test]
fn highlighter_sections_cover_each_line() {
    let syntax_set = SyntaxSet::load_defaults_newlines();
    let theme_set = ThemeSet::load_defaults();
    let theme = &theme_set.themes["base16-ocean.dark"];
    let mut highlighter = new_line_highlighter(&syntax_set, "rs", theme).unwrap();
    let mut config = config_with_highlighting();
    config.minus_style.is_syntax_highlighted = true;
    let lines = vec!["fn main() {\n".to_string(), "    let x = 1;\n".to_string()];
    let sections = Painter::get_syntax_style_sections_for_lines(
        &lines,
        &State::HunkMinus,
        &mut highlighter,
        &config,
    );
    assert_eq!(sections.len(), lines.len());
    for (line, line_sections) in lines.iter().zip(sections.iter()) {
        let concatenated: String = line_sections.iter().map(|(_, text)| text.as_str()).collect();
        assert_eq!(&concatenated, line);
    }
}

fn strip_ansi_codes(s: &str) -> String {
    let mut out = String::new();
    let mut chars = s.chars();
    while let Some(c) = chars.next() {
        if c == '\u{1b}' {
            for d in chars.by_ref() {
                if d == 'm' || d == 'K' {
                    break;
                }
            }
        } else {
            out.push(c);
        }
    }
    out
}

// A full flush through the real highlighter: whatever styles the theme
// chose, the rendered text itself must be the buffered line, token for
// token, with its terminator.
#[test]
fn full_flush_preserves_the_line_text() {
    let syntax_set = SyntaxSet::load_defaults_newlines();
    let theme_set = ThemeSet::load_defaults();
    let theme = &theme_set.themes["base16-ocean.dark"];
    let mut highlighter = new_line_highlighter(&syntax_set, "rs", theme).unwrap();
    let mut config = config_with_highlighting();
    config.minus_style.is_syntax_highlighted = true;
    let minus_style = config.minus_style;
    let mut painter = Painter::new(config);
    let line = "let x = 1;\n".to_string();
    painter.minus_lines.push(line.clone());
    let minus_diff = vec![vec![(minus_style, line.clone())]];
    let r = painter.paint_buffered_lines(&mut highlighter, minus_diff, Vec::new());
    assert_eq!(r, Ok(()));
    assert_eq!(painter.minus_line_number, 1);
    assert_eq!(painter.plus_line_number, 0);
    let out = painter.emit();
    assert_eq!(strip_ansi_codes(&out), line);
}

// A diff partition that does not cover its line fails the flush and leaves
// the painter untouched, whatever styles the real highlighter produced.
#[test]
fn a_noncovering_diff_partition_fails_the_flush() {
    let syntax_set = SyntaxSet::load_defaults_newlines();
    let theme_set = ThemeSet::load_defaults();
    let theme = &theme_set.themes["base16-ocean.dark"];
    let mut highlighter = new_line_highlighter(&syntax_set, "rs", theme).unwrap();
    let mut config = config_with_highlighting();
    config.minus_style.is_syntax_highlighted = true;
    let minus_style = config.minus_style;
    let mut painter = Painter::new(config);
    painter.minus_lines.push("foo\n".to_string());
    let minus_diff = vec![vec![(minus_style, "fo\n".to_string())]];
    let r = painter.paint_buffered_lines(&mut highlighter, minus_diff, Vec::new());
    assert_eq!(
        r,
        Err(delta::error::PaintError::SectionLengthMismatch {
            syntax_len: 4,
            diff_len: 3,
        })
    );
    assert_eq!(painter.minus_lines.len(), 1);
    assert_eq!(painter.minus_line_number, 0);
    assert_eq!(painter.output_buffer, "");
}

#[test]
fn highlighting_is_skipped_when_the_policy_declines_it() {
    let syntax_set = SyntaxSet::load_defaults_newlines();
    let theme_set = ThemeSet::load_defaults();
    let theme = &theme_set.themes["base16-ocean.dark"];
    let mut highlighter = new_line_highlighter(&syntax_set, "rs", theme).unwrap();
    let config = config_with_highlighting();
    // No style of the minus side asks for highlighting, so every line gets
    // one "no annotation" span.
    let lines = vec!["fn main() {\n".to_string()];
    let sections = Painter::get_syntax_style_sections_for_lines(
        &lines,
        &State::HunkMinus,
        &mut highlighter,
        &config,
    );
    assert_eq!(
        sections,
        vec![vec![(SyntaxStyle::null(), "fn main() {\n".to_string())]]
    );
}
