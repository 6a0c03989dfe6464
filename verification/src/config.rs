//! The resolved style/policy object that the renderer consumes read-only,
//! and the small policy computations that belong beside it. How the fields
//! are cascaded together from flags, presets and repository configuration is
//! the configuration system's affair, not this crate's: whatever arrives
//! here is applied without re-validation.

use vstd::prelude::*;
use vstd::pervasive::unreached;
use vstd::string::StringExecFns;

use crate::chars::str_chars_eq;
use crate::color::SyntaxStyle;
use crate::state::State;
use crate::style::Style;

verus! {

/// The terminal width policy: decorations and background fill either stop
/// at a fixed column, or follow the text and go no further.
#[derive(Clone, Copy, Debug, PartialEq, Eq, Structural)]
pub enum Width {
    Fixed(usize),
    Variable,
}

/// Whether output is handed to a pager.
#[derive(Clone, Copy, Debug, PartialEq, Eq, Structural)]
pub enum PagingMode {
    Always,
    Never,
    QuitIfOneScreen,
}

/// The fully resolved style/policy object. The renderer consumes it
/// read-only; every cascading rule has already been applied by the caller.
pub struct Config {
    pub background_color_extends_to_terminal_width: bool,
    pub commit_style: Style,
    pub decorations_width: Width,
    pub file_added_label: String,
    pub file_modified_label: String,
    pub file_removed_label: String,
    pub file_renamed_label: String,
    pub file_style: Style,
    pub hunk_header_style: Style,
    pub max_buffered_lines: usize,
    pub minus_emph_style: Style,
    pub minus_line_marker: String,
    pub minus_non_emph_style: Style,
    pub minus_style: Style,
    pub navigate: bool,
    pub null_style: Style,
    pub null_syntax_style: SyntaxStyle,
    pub number_minus_format: String,
    pub number_minus_format_style: Style,
    pub number_minus_style: Style,
    pub number_plus_format: String,
    pub number_plus_format_style: Style,
    pub number_plus_style: Style,
    pub paging_mode: PagingMode,
    pub plus_emph_style: Style,
    pub plus_line_marker: String,
    pub plus_non_emph_style: Style,
    pub plus_style: Style,
    pub show_line_numbers: bool,
    pub syntax_theme_selected: bool,
    pub tab_width: usize,
    pub theme_name: String,
    pub true_color: bool,
    pub zero_style: Style,
}

impl Config {
    /// The style for a metadata line; only commit, file and hunk-header
    /// lines carry one.
    pub fn get_style(&self, state: &State) -> (s: &Style)
        requires
            state is CommitMeta || state is FileMeta || state is HunkHeader,
        ensures
            state is CommitMeta ==> s == self.commit_style,
            state is FileMeta ==> s == self.file_style,
            state is HunkHeader ==> s == self.hunk_header_style,
    {
        match state {
            State::CommitMeta => &self.commit_style,
            State::FileMeta => &self.file_style,
            State::HunkHeader => &self.hunk_header_style,
            _ => unreached(),
        }
    }

    /// The pattern a pager uses to jump between sections: the commit word
    /// or any of the configured file labels, anchored at line start.
    pub fn make_navigate_regexp(&self) -> (s: String)
        ensures
            s@ == "^(commit|"@ + self.file_modified_label@ + "|"@ + self.file_added_label@ + "|"@
                + self.file_removed_label@ + "|"@ + self.file_renamed_label@ + ")"@,
    {
        let mut s = String::from_str("^(commit|");
        s.append(self.file_modified_label.as_str());
        s.append("|");
        s.append(self.file_added_label.as_str());
        s.append("|");
        s.append(self.file_removed_label.as_str());
        s.append("|");
        s.append(self.file_renamed_label.as_str());
        s.append(")");
        s
    }
}

/// The option string itself, or the given default where the option is
/// empty.
pub fn opt_or_default<'a>(option: &'a str, default: &'a str) -> (r: &'a str)
    ensures
        option@.len() == 0 ==> r@ == default@,
        option@.len() > 0 ==> r@ == option@,
{
    if option.unicode_len() == 0 {
        default
    } else {
        option
    }
}

/// The gitconfig keys under which an option value may be found, most
/// specific first: the key under the selected theme's section, then the key
/// under the main section.
pub fn make_git_config_keys_for_delta(key: &str, theme: Option<&str>) -> (keys: Vec<String>)
    ensures
        theme matches Some(t) ==> keys@.len() == 2 && keys@[0]@ == "delta."@ + t@ + "."@ + key@
            && keys@[1]@ == "delta."@ + key@,
        theme is None ==> keys@.len() == 1 && keys@[0]@ == "delta."@ + key@,
{
    let mut keys: Vec<String> = Vec::new();
    match theme {
        Some(t) => {
            let mut themed = String::from_str("delta.");
            themed.append(t);
            themed.append(".");
            themed.append(key);
            let mut plain = String::from_str("delta.");
            plain.append(key);
            keys.push(themed);
            keys.push(plain);
        },
        None => {
            let mut plain = String::from_str("delta.");
            plain.append(key);
            keys.push(plain);
        },
    }
    keys
}

/// Whether a COLORTERM value announces 24-bit color support; reading the
/// variable out of the environment is the caller's affair.
pub fn colorterm_indicates_true_color(colorterm: &str) -> (r: bool)
    ensures
        r == (colorterm@ == "truecolor"@ || colorterm@ == "24bit"@),
{
    str_chars_eq(colorterm, "truecolor") || str_chars_eq(colorterm, "24bit")
}

/// The width policy, computed once at startup. A requested fixed width is
/// clipped to one column less than the terminal's, tolerating a status
/// column that a downstream pager may add; with no request the clipped
/// terminal width itself is used; a variable width disables width-based
/// background filling entirely.
pub fn resolve_decorations_width(
    requested: Option<usize>,
    variable: bool,
    terminal_width: usize,
) -> (r: (Width, bool))
    requires
        terminal_width >= 1,
    ensures
        variable ==> r == (Width::Variable, false),
        !variable ==> r.1 == true && r.0 == (match requested {
            Some(w) => if w < terminal_width - 1 {
                Width::Fixed(w)
            } else {
                Width::Fixed((terminal_width - 1) as usize)
            },
            None => Width::Fixed((terminal_width - 1) as usize),
        }),
{
    if variable {
        (Width::Variable, false)
    } else {
        let available = terminal_width - 1;
        match requested {
            Some(w) => {
                if w < available {
                    (Width::Fixed(w), true)
                } else {
                    (Width::Fixed(available), true)
                }
            },
            None => (Width::Fixed(available), true),
        }
    }
}

} // verus!
