use delta::ansi::extend_line_background_fill;
use delta::color::SyntaxStyle;
use delta::config::{Config, PagingMode, Width};
use delta::paint::{set_non_emph_styles, style_sections_contain_more_than_one_style, Painter};
use delta::state::State;
use delta::style::{AnsiColor, Style};

fn base_config() -> Config {
    Config {
        background_color_extends_to_terminal_width: false,
        commit_style: Style::new(),
        decorations_width: Width::Variable,
        file_added_label: "added:".to_string(),
        file_modified_label: "".to_string(),
        file_removed_label: "removed:".to_string(),
        file_renamed_label: "renamed:".to_string(),
        file_style: Style::new(),
        hunk_header_style: Style::new(),
        max_buffered_lines: 32,
        minus_emph_style: Style::new(),
        minus_line_marker: "".to_string(),
        minus_non_emph_style: Style::new(),
        minus_style: Style::new(),
        navigate: false,
        null_style: Style::new(),
        null_syntax_style: SyntaxStyle::null(),
        number_minus_format: "%ln\u{22ee}".to_string(),
        number_minus_format_style: Style::new(),
        number_minus_style: Style::new(),
        number_plus_format: "%ln\u{2502} ".to_string(),
        number_plus_format_style: Style::new(),
        number_plus_style: Style::new(),
        paging_mode: PagingMode::QuitIfOneScreen,
        plus_emph_style: Style::new(),
        plus_line_marker: "".to_string(),
        plus_non_emph_style: Style::new(),
        plus_style: Style::new(),
        show_line_numbers: false,
        syntax_theme_selected: false,
        tab_width: 4,
        theme_name: "none".to_string(),
        true_color: true,
        zero_style: Style::new(),
    }
}

fn red_foreground() -> Style {
    let mut s = Style::new();
    s.ansi_term_style.foreground = Some(AnsiColor::Red);
    s
}

fn red_background() -> Style {
    let mut s = Style::new();
    s.ansi_term_style.background = Some(AnsiColor::Red);
    s
}

#[test]
fn paint_lines_emits_color_codes_and_a_terminator() {
    let config = base_config();
    let style = red_foreground();
    let syntax = vec![vec![(SyntaxStyle::null(), "abc\n".to_string())]];
    let diff = vec![vec![(style, "abc\n".to_string())]];
    let numbers = vec![(None, None)];
    let mut buffer = String::new();
    let r = Painter::paint_lines(
        syntax,
        diff,
        numbers,
        &mut buffer,
        &config,
        "",
        style,
        style,
        None,
    );
    assert_eq!(r, Ok(()));
    assert_eq!(buffer, "\u{1b}[31mabc\u{1b}[0m\n");
}

#[test]
fn paint_lines_extends_background_to_terminal_width() {
    let mut config = base_config();
    config.background_color_extends_to_terminal_width = true;
    config.decorations_width = Width::Fixed(80);
    let style = red_background();
    let syntax = vec![vec![(SyntaxStyle::null(), "abc\n".to_string())]];
    let diff = vec![vec![(style, "abc\n".to_string())]];
    let numbers = vec![(None, None)];
    let mut buffer = String::new();
    let r = Painter::paint_lines(
        syntax,
        diff,
        numbers,
        &mut buffer,
        &config,
        "",
        style,
        style,
        None,
    );
    assert_eq!(r, Ok(()));
    assert_eq!(buffer, "\u{1b}[41mabc\u{1b}[K\u{1b}[0m\n");
}

#[test]
fn paint_lines_replaces_a_leading_marker_with_the_prefix() {
    let config = base_config();
    let style = red_foreground();
    let syntax = vec![vec![(SyntaxStyle::null(), "-abc\n".to_string())]];
    let diff = vec![vec![(style, "-abc\n".to_string())]];
    let numbers = vec![(None, None)];
    let mut buffer = String::new();
    let r = Painter::paint_lines(
        syntax,
        diff,
        numbers,
        &mut buffer,
        &config,
        "-",
        style,
        style,
        None,
    );
    assert_eq!(r, Ok(()));
    // The marker is painted in the first span's style and the line's own
    // leading character is consumed, so it is not duplicated.
    assert_eq!(buffer, "\u{1b}[31m-abc\u{1b}[0m\n");
}

#[test]
fn paint_lines_renders_gutters_from_templates() {
    let mut config = base_config();
    config.show_line_numbers = true;
    let style = Style::new();
    let syntax = vec![vec![(SyntaxStyle::null(), "x\n".to_string())]];
    let diff = vec![vec![(style, "x\n".to_string())]];
    let numbers = vec![(Some(8), None)];
    let mut buffer = String::new();
    let r = Painter::paint_lines(
        syntax,
        diff,
        numbers,
        &mut buffer,
        &config,
        "",
        style,
        style,
        None,
    );
    assert_eq!(r, Ok(()));
    // All styles are plain, so the gutter text appears bare: the minus
    // column holds the centered number, the plus column a blank cell.
    assert_eq!(buffer, " 8  \u{22ee}    \u{2502} x\n");
}

#[test]
fn paint_lines_surfaces_a_bad_template() {
    let mut config = base_config();
    config.show_line_numbers = true;
    config.number_minus_format = "no placeholder".to_string();
    let style = Style::new();
    let syntax = vec![vec![(SyntaxStyle::null(), "x\n".to_string())]];
    let diff = vec![vec![(style, "x\n".to_string())]];
    let numbers = vec![(Some(1), None)];
    let mut buffer = String::new();
    let r = Painter::paint_lines(
        syntax,
        diff,
        numbers,
        &mut buffer,
        &config,
        "",
        style,
        style,
        None,
    );
    assert_eq!(
        r,
        Err(delta::error::PaintError::InvalidLineNumberFormat {
            format: "no placeholder".to_string()
        })
    );
    assert_eq!(buffer, "");
}

#[test]
fn width_extension_is_idempotent_on_a_filled_line() {
    let mut once: Vec<char> = "x\u{1b}[0m".chars().collect();
    extend_line_background_fill(&mut once);
    let filled: String = once.iter().collect();
    assert_eq!(filled, "x\u{1b}[K\u{1b}[0m");
    let mut twice = once.clone();
    extend_line_background_fill(&mut twice);
    let refilled: String = twice.iter().collect();
    assert_eq!(refilled, filled);
}

#[test]
fn flushing_one_minus_line_leaves_the_plus_counter_alone() {
    let mut painter = Painter::new(base_config());
    painter.minus_lines.push("foo\n".to_string());
    let minus_syntax = vec![vec![(SyntaxStyle::null(), "foo\n".to_string())]];
    let minus_diff = vec![vec![(Style::new(), "foo\n".to_string())]];
    let r = painter.paint_buffered_lines_with_sections(
        minus_syntax,
        Vec::new(),
        minus_diff,
        Vec::new(),
    );
    assert_eq!(r, Ok(()));
    assert_eq!(painter.minus_line_number, 1);
    assert_eq!(painter.plus_line_number, 0);
    assert!(painter.minus_lines.is_empty());
    assert!(painter.plus_lines.is_empty());
    let out = painter.emit();
    assert_eq!(out.matches('\n').count(), 1);
    assert_eq!(out, "foo\n");
    assert_eq!(painter.output_buffer, "");
}

#[test]
fn flush_renders_minus_lines_before_plus_lines() {
    let mut config = base_config();
    config.minus_line_marker = "-".to_string();
    config.plus_line_marker = "+".to_string();
    let mut painter = Painter::new(config);
    painter.minus_lines.push("-old\n".to_string());
    painter.plus_lines.push("+new\n".to_string());
    let minus_syntax = vec![vec![(SyntaxStyle::null(), "-old\n".to_string())]];
    let plus_syntax = vec![vec![(SyntaxStyle::null(), "+new\n".to_string())]];
    let minus_diff = vec![vec![(Style::new(), "-old\n".to_string())]];
    let plus_diff = vec![vec![(Style::new(), "+new\n".to_string())]];
    let r = painter.paint_buffered_lines_with_sections(
        minus_syntax,
        plus_syntax,
        minus_diff,
        plus_diff,
    );
    assert_eq!(r, Ok(()));
    assert_eq!(painter.emit(), "-old\n+new\n");
    assert_eq!(painter.minus_line_number, 1);
    assert_eq!(painter.plus_line_number, 1);
}

#[test]
fn a_mismatching_flush_changes_nothing() {
    let mut painter = Painter::new(base_config());
    painter.minus_lines.push("foo\n".to_string());
    let minus_syntax = vec![vec![(SyntaxStyle::null(), "foo\n".to_string())]];
    let minus_diff = vec![vec![(Style::new(), "bar\n".to_string())]];
    let r = painter.paint_buffered_lines_with_sections(
        minus_syntax,
        Vec::new(),
        minus_diff,
        Vec::new(),
    );
    assert_eq!(
        r,
        Err(delta::error::PaintError::SectionCharMismatch {
            position: 0,
            syntax_char: 'f',
            diff_char: 'b',
        })
    );
    assert_eq!(painter.minus_line_number, 0);
    assert_eq!(painter.minus_lines.len(), 1);
    assert_eq!(painter.output_buffer, "");
}

// A removed/added pair whose dissimilarity lies above the configured
// distance bound reaches this crate as plain whole-line partitions with no
// emphasized span; such a line must keep its base style everywhere, and
// the non-emphasis rewrite must not touch it.
#[test]
fn an_unrelated_pair_renders_without_emphasis() {
    let plain = red_background();

    let whole_line = vec![(plain, "foo\n".to_string())];
    assert!(!style_sections_contain_more_than_one_style(&whole_line));

    let mut sections = vec![whole_line.clone()];
    let mut non_emph = Style::new();
    non_emph.ansi_term_style.background = Some(AnsiColor::Fixed(17));
    set_non_emph_styles(&mut sections, non_emph);
    assert_eq!(sections, vec![whole_line]);
}

#[test]
fn non_emph_sections_are_rewritten_on_emphasized_lines() {
    let mut emph = Style::new();
    emph.is_emph = true;
    emph.ansi_term_style.background = Some(AnsiColor::Fixed(52));
    let plain = red_background();
    let mut non_emph = Style::new();
    non_emph.ansi_term_style.background = Some(AnsiColor::Fixed(17));

    let line = vec![
        (plain, "a".to_string()),
        (emph, "b".to_string()),
        (plain, "c".to_string()),
    ];
    assert!(style_sections_contain_more_than_one_style(&line));
    let mut sections = vec![line];
    set_non_emph_styles(&mut sections, non_emph);
    assert_eq!(
        sections,
        vec![vec![
            (non_emph, "a".to_string()),
            (emph, "b".to_string()),
            (non_emph, "c".to_string()),
        ]]
    );
}

#[test]
fn should_compute_syntax_highlighting_follows_the_policy() {
    let mut config = base_config();
    assert!(!Painter::should_compute_syntax_highlighting(
        &State::HunkMinus,
        &config
    ));
    // With no theme selected the answer is no whatever the classification.
    assert!(!Painter::should_compute_syntax_highlighting(
        &State::CommitMeta,
        &config
    ));
    assert!(!Painter::should_compute_syntax_highlighting(
        &State::Unknown,
        &config
    ));
    config.syntax_theme_selected = true;
    assert!(!Painter::should_compute_syntax_highlighting(
        &State::HunkMinus,
        &config
    ));
    config.minus_emph_style.is_syntax_highlighted = true;
    assert!(Painter::should_compute_syntax_highlighting(
        &State::HunkMinus,
        &config
    ));
    assert!(Painter::should_compute_syntax_highlighting(
        &State::HunkHeader,
        &config
    ));
    assert!(!Painter::should_compute_syntax_highlighting(
        &State::HunkZero,
        &config
    ));
}

#[test]
fn navigate_regexp_lists_the_file_labels() {
    let config = base_config();
    assert_eq!(
        config.make_navigate_regexp(),
        "^(commit||added:|removed:|renamed:)"
    );
}

#[test]
fn metadata_styles_come_from_the_policy() {
    let mut config = base_config();
    config.file_style.ansi_term_style.foreground = Some(AnsiColor::Blue);
    assert_eq!(*config.get_style(&State::FileMeta), config.file_style);
    assert_eq!(*config.get_style(&State::CommitMeta), config.commit_style);
    assert_eq!(*config.get_style(&State::HunkHeader), config.hunk_header_style);
}

#[test]
fn a_new_painter_is_empty() {
    let painter = Painter::new(base_config());
    assert!(painter.minus_lines.is_empty());
    assert!(painter.plus_lines.is_empty());
    assert_eq!(painter.output_buffer, "");
    assert_eq!(painter.minus_line_number, 0);
    assert_eq!(painter.plus_line_number, 0);
}
