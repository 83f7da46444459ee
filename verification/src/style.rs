//! The fixed display-style palette: a pure mapping from log levels (and a few
//! roles independent of any level) to terminal styles.

use vstd::prelude::*;

verus! {

/// Severity of a log record, ordered from least to most severe.
#[derive(Clone, Copy, Debug, PartialEq, Eq, Structural)]
pub enum Level {
    /// Finest-grained diagnostics.
    Trace,
    /// Developer diagnostics.
    Debug,
    /// Ordinary progress reports.
    Info,
    /// Suspicious but recoverable situations.
    Warn,
    /// Failures.
    Error,
}

/// One of the eight standard terminal palette colors used by the style table.
#[derive(Clone, Copy, Debug, PartialEq, Eq, Structural)]
pub enum Color {
    /// Black; with intensity it reads as dark grey.
    Black,
    /// Blue.
    Blue,
    /// Cyan.
    Cyan,
    /// Green.
    Green,
    /// Magenta.
    Magenta,
    /// Red.
    Red,
    /// White.
    White,
    /// Yellow.
    Yellow,
}

/// An immutable display style for a span of text: a palette color, an
/// intensity (brightness) flag, and a boldness flag.
#[derive(Clone, Copy, Debug, PartialEq, Eq, Structural)]
pub struct Style {
    /// Foreground color.
    pub color: Color,
    /// Whether the bright variant of the color is used.
    pub intense: bool,
    /// Whether the text is bold.
    pub bold: bool,
}

impl Style {
    /// The unstyled starting point that the style setters below refine.
    pub fn new() -> (s: Style)
        ensures
            s == plain(),
    {
        Style { color: Color::White, intense: false, bold: false }
    }
}

/// The style every [`Style::new`] starts from: plain white text.
pub open spec fn plain() -> Style {
    Style { color: Color::White, intense: false, bold: false }
}

/// Low-salience style for repeated or unremarkable text.
pub open spec fn deemphasized() -> Style {
    Style { color: Color::Black, intense: true, bold: false }
}

/// Style for text that should occupy space without being visible.
pub open spec fn invisible() -> Style {
    Style { color: Color::Black, intense: false, bold: false }
}

/// Highlighted-but-calm style for salient, expected text.
pub open spec fn normal() -> Style {
    Style { color: Color::White, intense: true, bold: false }
}

/// Style for single-letter path abbreviations.
pub open spec fn abbreviation() -> Style {
    Style { color: Color::Cyan, intense: true, bold: false }
}

/// Style for the final (leaf) segment of a source path.
pub open spec fn path_terminal() -> Style {
    Style { color: Color::Green, intense: true, bold: false }
}

/// Style of the [`Level::Trace`] tag.
pub open spec fn trace_text() -> Style {
    Style { color: Color::Magenta, intense: false, bold: false }
}

/// Style of the [`Level::Debug`] tag.
pub open spec fn debug_text() -> Style {
    Style { color: Color::Blue, intense: false, bold: false }
}

/// Style of the [`Level::Info`] tag, and of intermediate path segments.
pub open spec fn info_text() -> Style {
    Style { color: Color::White, intense: false, bold: false }
}

/// Style of the [`Level::Warn`] tag.
pub open spec fn warn_text() -> Style {
    Style { color: Color::Yellow, intense: true, bold: true }
}

/// Style of the [`Level::Error`] tag, and of anomalous timestamp text.
pub open spec fn error_text() -> Style {
    Style { color: Color::Red, intense: true, bold: true }
}

/// The fixed level-to-style table for level tags.
pub open spec fn level_text(level: Level) -> Style {
    match level {
        Level::Trace => trace_text(),
        Level::Debug => debug_text(),
        Level::Info => info_text(),
        Level::Warn => warn_text(),
        Level::Error => error_text(),
    }
}

/// Styles `s` so a separator occupies space invisibly.
pub fn invisible_style(s: &mut Style)
    ensures
        final(s).color == Color::Black,
        final(s).intense == old(s).intense,
        final(s).bold == old(s).bold,
{
    s.color = Color::Black;
}

/// Styles `s` as deemphasized: intense black (dark grey).
pub fn deemph_style(s: &mut Style)
    ensures
        final(s).color == Color::Black,
        final(s).intense,
        final(s).bold == old(s).bold,
{
    s.intense = true;
    s.color = Color::Black;
}

/// Styles `s` as normal: intense white.
pub fn normal_style(s: &mut Style)
    ensures
        final(s).color == Color::White,
        final(s).intense,
        final(s).bold == old(s).bold,
{
    s.intense = true;
    s.color = Color::White;
}

/// Styles `s` for path abbreviation glyphs: intense cyan.
pub fn abbrev_style(s: &mut Style)
    ensures
        final(s).color == Color::Cyan,
        final(s).intense,
        final(s).bold == old(s).bold,
{
    s.intense = true;
    s.color = Color::Cyan;
}

/// Styles `s` for the leaf path segment: intense green.
pub fn target_last_style(s: &mut Style)
    ensures
        final(s).color == Color::Green,
        final(s).intense,
        final(s).bold == old(s).bold,
{
    s.intense = true;
    s.color = Color::Green;
}

/// Styles `s` for a [`Level::Trace`] tag: magenta.
pub fn trace_style(s: &mut Style)
    ensures
        final(s).color == Color::Magenta,
        final(s).intense == old(s).intense,
        final(s).bold == old(s).bold,
{
    s.color = Color::Magenta;
}

/// Styles `s` for a [`Level::Debug`] tag: blue.
pub fn debug_style(s: &mut Style)
    ensures
        final(s).color == Color::Blue,
        final(s).intense == old(s).intense,
        final(s).bold == old(s).bold,
{
    s.color = Color::Blue;
}

/// Styles `s` for a [`Level::Info`] tag: white.
pub fn info_style(s: &mut Style)
    ensures
        final(s).color == Color::White,
        final(s).intense == old(s).intense,
        final(s).bold == old(s).bold,
{
    s.color = Color::White;
}

/// Styles `s` for a [`Level::Warn`] tag: intense yellow, bold.
pub fn warn_style(s: &mut Style)
    ensures
        *final(s) == warn_text(),
{
    s.intense = true;
    s.color = Color::Yellow;
    s.bold = true;
}

/// Styles `s` for a [`Level::Error`] tag: intense red, bold.
pub fn error_style(s: &mut Style)
    ensures
        *final(s) == error_text(),
{
    s.intense = true;
    s.color = Color::Red;
    s.bold = true;
}

/// Styles `s` according to the fixed level table.
pub fn level_style(s: &mut Style, level: Level)
    requires
        *old(s) == plain(),
    ensures
        *final(s) == level_text(level),
{
    match level {
        Level::Trace => trace_style(s),
        Level::Debug => debug_style(s),
        Level::Info => info_style(s),
        Level::Warn => warn_style(s),
        Level::Error => error_style(s),
    }
}

} // verus!
