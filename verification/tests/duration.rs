//! The duration formatter and the elapsed-time logging helper.

use rustutil::style::Level;
use rustutil::timer::{sep, sep2};
use rustutil::{format_duration, Timer};

fn fmt(ns: u128) -> String {
    String::from_utf8(format_duration(ns)).unwrap()
}

#[test]
fn nanoseconds_render_bare() {
    assert_eq!(fmt(0), "0ns");
    assert_eq!(fmt(999), "999ns");
}

#[test]
fn microseconds_render_with_three_digit_rest() {
    assert_eq!(fmt(1_000), "1.000\u{b5}s");
    assert_eq!(fmt(1_500), "1.500\u{b5}s");
    assert_eq!(fmt(999_042), "999.042\u{b5}s");
}

#[test]
fn milliseconds_render_with_grouped_rest() {
    assert_eq!(fmt(1_500_000), "1.500_000ms");
    assert_eq!(fmt(999_999_999), "999.999_999ms");
}

#[test]
fn seconds_render_with_grouped_rest() {
    assert_eq!(fmt(1_500_000_000), "1.500_000_000s");
    assert_eq!(fmt(59_000_000_001), "59.000_000_001s");
}

#[test]
fn minutes_render_colon_separated() {
    assert_eq!(fmt(90_000_000_000), "1:30.000_000_000");
}

#[test]
fn hours_render_colon_separated() {
    assert_eq!(fmt(5_400_000_000_000), "1:30:00.000_000_000");
}

#[test]
fn days_render_with_day_marker() {
    // 1 day, 1 hour, 1 minute, 1 second.
    assert_eq!(fmt(90_061_000_000_000), "1d01:01:01.000_000_000");
}

#[test]
fn separators_depend_on_emptiness() {
    assert_eq!(sep(""), "");
    assert_eq!(sep("x"), " ");
    assert_eq!(sep2("", ""), "");
    assert_eq!(sep2("a", ""), " ");
    assert_eq!(sep2("", "b"), " ");
    assert_eq!(sep2("a", "b"), ": ");
}

#[test]
fn timer_composes_start_line() {
    let (t, line) = Timer::new(Level::Info, "work");
    assert_eq!(line, b"[start] work".to_vec());
    assert_eq!(t.level, Level::Info);
    assert_eq!(t.msg, "work");
}

#[test]
fn timer_convenience_constructors_set_level() {
    assert_eq!(Timer::trace("m").0.level, Level::Trace);
    assert_eq!(Timer::debug("m").0.level, Level::Debug);
    assert_eq!(Timer::info("m").0.level, Level::Info);
    assert_eq!(Timer::warn("m").0.level, Level::Warn);
    assert_eq!(Timer::error("m").0.level, Level::Error);
}

#[test]
fn timer_with_empty_message_has_no_separator() {
    let (t, line) = Timer::new(Level::Debug, "");
    assert_eq!(line, b"[start]".to_vec());
    let report = String::from_utf8(t.finish()).unwrap();
    assert!(report.starts_with('['));
    assert!(report.ends_with(']'));
}

#[test]
fn timer_log_lines_embed_messages() {
    let (t, _) = Timer::new(Level::Info, "work");
    let line = String::from_utf8(t.log("step")).unwrap();
    assert!(line.starts_with('['));
    assert!(line.ends_with("] work: step"), "{line}");
    let line = String::from_utf8(t.log_at(Level::Warn, "careful")).unwrap();
    assert!(line.ends_with("] work: careful"), "{line}");
    for line in [t.log_trace("a"), t.log_debug("a"), t.log_info("a"), t.log_warn("a"), t.log_error("a")] {
        let line = String::from_utf8(line).unwrap();
        assert!(line.ends_with("] work: a"), "{line}");
    }
    let report = String::from_utf8(t.finish()).unwrap();
    assert!(report.ends_with("] work"), "{report}");
}
