//! Rendering scenarios: the timestamp diff, the path abbreviator, the width
//! tracking, the composed record line, and replay determinism.

use rustutil::record::{logformat, logformat_at};
use rustutil::span::Span;
use rustutil::state::RenderState;
use rustutil::style::{Color, Level, Style};
use rustutil::target::write_target;
use rustutil::time::{write_now, write_timestamp};

fn deemph() -> Style {
    Style { color: Color::Black, intense: true, bold: false }
}

fn invisible() -> Style {
    Style { color: Color::Black, intense: false, bold: false }
}

fn normal() -> Style {
    Style { color: Color::White, intense: true, bold: false }
}

fn info() -> Style {
    Style { color: Color::White, intense: false, bold: false }
}

fn error() -> Style {
    Style { color: Color::Red, intense: true, bold: true }
}

fn abbrev() -> Style {
    Style { color: Color::Cyan, intense: true, bold: false }
}

fn leaf() -> Style {
    Style { color: Color::Green, intense: true, bold: false }
}

fn text_of(spans: &[Span]) -> String {
    let bytes: Vec<u8> = spans.iter().flat_map(|s| s.text.iter().copied()).collect();
    String::from_utf8(bytes).unwrap()
}

/// The styles of the 23 digit spans, in digit order, skipping separators and
/// the trailing offset span.
fn digit_styles(spans: &[Span]) -> Vec<Style> {
    let seps = [4usize, 6, 8, 10, 12, 14, 17, 20];
    let mut out = Vec::new();
    let mut idx = 0usize;
    for i in 0..23usize {
        if seps.contains(&i) {
            idx += 1; // skip the separator span
        }
        out.push(spans[idx].style);
        idx += 1;
    }
    out
}

#[test]
fn identical_timestamps_render_all_deemphasized() {
    let mut st = RenderState::new();
    write_timestamp(&mut st, 123_456_789, 0);
    let spans = write_timestamp(&mut st, 123_456_789, 0);
    assert_eq!(spans.len(), 32); // 23 digits + 8 separators + offset
    for style in digit_styles(&spans) {
        assert_eq!(style, deemph());
    }
    // Separators stay deemphasized (invisible for the date/time 'T').
    for (i, span) in spans[..31].iter().enumerate() {
        assert!(span.style == deemph() || (span.text == b"T" && span.style == invisible()), "span {i}");
    }
}

#[test]
fn epoch_renders_expected_glyphs() {
    let mut st = RenderState::new();
    let spans = write_timestamp(&mut st, 0, 0);
    assert_eq!(text_of(&spans), "1970-01-01T00:00:00.000_000_000+00:00");
    assert_eq!(st.last_timestamp, 0);
    assert_eq!(st.last_offset, 0);
}

#[test]
fn forward_divergence_highlights_suffix() {
    let mut st = RenderState::new();
    write_timestamp(&mut st, 1_000_000_000, 0); // ...T00:00:01
    let spans = write_timestamp(&mut st, 2_000_000_000, 0); // ...T00:00:02
    // Digit strings differ first at digit 13 ("01" -> "02" in the seconds).
    let styles = digit_styles(&spans);
    for (i, style) in styles.iter().enumerate() {
        if i < 13 {
            assert_eq!(*style, deemph(), "digit {i}");
        } else {
            assert_eq!(*style, normal(), "digit {i}");
        }
    }
    // Digits before the divergence are character-identical across renders.
    assert!(text_of(&spans).starts_with("1970-01-01T00:00:0"));
}

#[test]
fn backward_divergence_renders_error() {
    let mut st = RenderState::new();
    write_timestamp(&mut st, 2_000_000_000, 0);
    let spans = write_timestamp(&mut st, 1_000_000_000, 0); // clock regression
    let styles = digit_styles(&spans);
    for (i, style) in styles.iter().enumerate() {
        if i < 13 {
            assert_eq!(*style, deemph(), "digit {i}");
        } else {
            assert_eq!(*style, error(), "digit {i}");
        }
    }
}

#[test]
fn offset_first_render_is_normal() {
    let mut st = RenderState::new();
    let spans = write_timestamp(&mut st, 0, 3600);
    let off = spans.last().unwrap();
    assert_eq!(off.text, b"+01:00".to_vec());
    assert_eq!(off.style, normal());
}

#[test]
fn offset_unchanged_is_deemphasized() {
    let mut st = RenderState::new();
    write_timestamp(&mut st, 0, 3600);
    let spans = write_timestamp(&mut st, 5, 3600);
    let off = spans.last().unwrap();
    assert_eq!(off.text, b"+01:00".to_vec());
    assert_eq!(off.style, deemph());
}

#[test]
fn offset_change_is_error() {
    let mut st = RenderState::new();
    write_timestamp(&mut st, 0, 3600);
    let spans = write_timestamp(&mut st, 5, 7200);
    let off = spans.last().unwrap();
    assert_eq!(off.text, b"+02:00".to_vec());
    assert_eq!(off.style, error());
}

#[test]
fn negative_offset_renders_west() {
    let mut st = RenderState::new();
    let spans = write_timestamp(&mut st, 0, -19800);
    let off = spans.last().unwrap();
    assert_eq!(off.text, b"-05:30".to_vec());
}

fn span_pairs(spans: &[Span]) -> Vec<(String, Style)> {
    spans
        .iter()
        .map(|s| (String::from_utf8(s.text.clone()).unwrap(), s.style))
        .collect()
}

#[test]
fn own_root_and_log_abbreviate() {
    let mut st = RenderState::new();
    let spans = write_target(&mut st, "rustutil::log::module::leaf");
    let expected = vec![
        ("U".to_string(), abbrev()),
        ("L".to_string(), abbrev()),
        (":".to_string(), deemph()),
        ("module".to_string(), info()),
        (":".to_string(), deemph()),
        ("leaf".to_string(), leaf()),
    ];
    assert_eq!(span_pairs(&spans), expected);
    assert_eq!(st.max_target_width, 14); // U L :module :leaf
}

#[test]
fn foreign_root_renders_in_full() {
    let mut st = RenderState::new();
    let spans = write_target(&mut st, "app::sub::leaf");
    let expected = vec![
        ("app".to_string(), info()),
        (":".to_string(), deemph()),
        ("sub".to_string(), info()),
        (":".to_string(), deemph()),
        ("leaf".to_string(), leaf()),
    ];
    assert_eq!(span_pairs(&spans), expected);
    assert_eq!(st.max_target_width, 12);
}

#[test]
fn own_root_with_plain_submodule() {
    let mut st = RenderState::new();
    let spans = write_target(&mut st, "rustutil::fs");
    let expected = vec![
        ("U".to_string(), abbrev()),
        (":".to_string(), deemph()),
        ("fs".to_string(), info()),
    ];
    assert_eq!(span_pairs(&spans), expected);
    assert_eq!(st.max_target_width, 4);
}

#[test]
fn lone_segment_is_the_leaf() {
    let mut st = RenderState::new();
    let spans = write_target(&mut st, "main");
    assert_eq!(span_pairs(&spans), vec![("main".to_string(), leaf())]);
    assert_eq!(st.max_target_width, 4);
}

#[test]
fn empty_target_renders_empty_leaf() {
    let mut st = RenderState::new();
    st.max_target_width = 2;
    let spans = write_target(&mut st, "");
    assert_eq!(span_pairs(&spans), vec![(String::new(), leaf())]);
    assert_eq!(st.max_target_width, 2); // width 0 never lowers the maximum
}

#[test]
fn trailing_delimiter_keeps_first_as_leaf() {
    let mut st = RenderState::new();
    let spans = write_target(&mut st, "ab::");
    assert_eq!(span_pairs(&spans), vec![("ab".to_string(), leaf())]);
    assert_eq!(st.max_target_width, 2);
}

#[test]
fn bare_root_is_one_glyph() {
    let mut st = RenderState::new();
    let spans = write_target(&mut st, "rustutil");
    assert_eq!(span_pairs(&spans), vec![("U".to_string(), abbrev())]);
    assert_eq!(st.max_target_width, 1);
}

#[test]
fn max_width_is_a_monotonic_maximum() {
    let mut st = RenderState::new();
    write_target(&mut st, "abcde");
    assert_eq!(st.max_target_width, 5);
    write_target(&mut st, "abc");
    assert_eq!(st.max_target_width, 5); // never decreases
    write_target(&mut st, "abcdefgh");
    assert_eq!(st.max_target_width, 8);
}

#[test]
fn record_line_composes_all_parts() {
    let mut st = RenderState::new();
    let spans = logformat_at(&mut st, 0, 0, Level::Info, "a::b", "hello");
    assert_eq!(
        text_of(&spans),
        "[1970-01-01T00:00:00.000_000_000+00:00INFO  a:b] hello"
    );
    // The Info message body reads as `normal`, not as the Info tag style.
    assert_eq!(spans.last().unwrap().style, normal());
    let tag = spans.iter().find(|s| s.text == b"INFO ").unwrap();
    assert_eq!(tag.style, info());
    assert_eq!(st.last_timestamp, 0);
    assert_eq!(st.last_offset, 0);
    assert_eq!(st.max_target_width, 3);
}

#[test]
fn warn_and_trace_message_styles_differ() {
    let mut st = RenderState::new();
    let spans = logformat_at(&mut st, 0, 0, Level::Warn, "t", "watch out");
    assert_eq!(
        spans.last().unwrap().style,
        Style { color: Color::Yellow, intense: true, bold: true }
    );
    let spans = logformat_at(&mut st, 1, 0, Level::Trace, "t", "fine detail");
    assert_eq!(spans.last().unwrap().style, info());
}

#[test]
fn clock_render_is_well_formed() {
    let mut st = RenderState::new();
    let spans = write_now(&mut st);
    assert_eq!(spans.len(), 32);
    // The fresh state's seed timestamp is maximally old, so the first real
    // render diverges forward at the very first digit.
    for style in digit_styles(&spans) {
        assert_eq!(style, normal());
    }
    let off = spans.last().unwrap();
    assert_eq!(off.text.len(), 6); // sign, two digits, colon, two digits
    assert!(off.text[0] == b'+' || off.text[0] == b'-');
    assert!(st.last_offset > -86400 && st.last_offset < 86400);
    assert_ne!(st.last_timestamp, 0);
}

#[test]
fn clock_record_line_is_well_formed() {
    let mut st = RenderState::new();
    let spans = logformat(&mut st, Level::Debug, "x::y", "m");
    let text = text_of(&spans);
    assert!(text.starts_with('['));
    assert!(text.ends_with("x:y] m"), "{text}");
    assert!(text.contains("DEBUG"));
    assert_eq!(st.max_target_width, 3);
}

#[test]
fn replay_from_fresh_state_is_identical() {
    let records: Vec<(i64, i32, Level, &str, &str)> = vec![
        (1_000, 3600, Level::Info, "rustutil::log::a", "one"),
        (2_000, 3600, Level::Warn, "app::b", "two"),
        (1_500, 3600, Level::Error, "c", "three"),
        (9_999, 7200, Level::Debug, "rustutil::x::y", "four"),
    ];
    let run = |st: &mut RenderState| -> Vec<Vec<Span>> {
        records
            .iter()
            .map(|(n, o, l, t, m)| logformat_at(st, *n, *o, *l, t, m))
            .collect()
    };
    let mut s1 = RenderState::new();
    let mut s2 = RenderState::new();
    let out1 = run(&mut s1);
    let out2 = run(&mut s2);
    assert_eq!(out1, out2);
    assert_eq!(s1, s2);
}
