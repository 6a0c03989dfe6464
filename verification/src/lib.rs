//! Colorized rendering of diff hunks for a terminal.
//!
//! Two independent annotators each partition a line of text into styled runs:
//! a syntax highlighter colors tokens, and an edit-inference engine marks
//! which substrings changed. Their run boundaries rarely coincide, so this
//! crate superimposes the two partitions into one coherent partition, formats
//! the optional line-number gutter, and assembles width-aware terminal lines
//! into an output buffer that a caller drains explicitly.

pub mod ansi;
pub mod chars;
pub mod color;
pub mod config;
pub mod error;
pub mod highlight;
pub mod line_numbers;
pub mod paint;
pub mod state;
pub mod style;
pub mod superimpose;

pub use config::{Config, Width};
pub use paint::Painter;
pub use style::Style;
