//! Basic checks: the style palette tables and the render state.

use rustutil::state::RenderState;
use rustutil::style::{
    abbrev_style, debug_style, deemph_style, error_style, info_style, invisible_style, level_style,
    normal_style, target_last_style, trace_style, warn_style, Color, Level, Style,
};

#[test]
fn it_works() {
    let result = 2 + 2;
    assert_eq!(result, 4);
}

fn style(color: Color, intense: bool, bold: bool) -> Style {
    Style { color, intense, bold }
}

#[test]
fn fixed_styles_match_table() {
    let mut s = Style::new();
    invisible_style(&mut s);
    assert_eq!(s, style(Color::Black, false, false));

    let mut s = Style::new();
    deemph_style(&mut s);
    assert_eq!(s, style(Color::Black, true, false));

    let mut s = Style::new();
    normal_style(&mut s);
    assert_eq!(s, style(Color::White, true, false));

    let mut s = Style::new();
    abbrev_style(&mut s);
    assert_eq!(s, style(Color::Cyan, true, false));

    let mut s = Style::new();
    target_last_style(&mut s);
    assert_eq!(s, style(Color::Green, true, false));
}

#[test]
fn level_styles_match_table() {
    let mut s = Style::new();
    trace_style(&mut s);
    assert_eq!(s, style(Color::Magenta, false, false));

    let mut s = Style::new();
    debug_style(&mut s);
    assert_eq!(s, style(Color::Blue, false, false));

    let mut s = Style::new();
    info_style(&mut s);
    assert_eq!(s, style(Color::White, false, false));

    let mut s = Style::new();
    warn_style(&mut s);
    assert_eq!(s, style(Color::Yellow, true, true));

    let mut s = Style::new();
    error_style(&mut s);
    assert_eq!(s, style(Color::Red, true, true));
}

#[test]
fn level_style_dispatches_by_level() {
    let cases = [
        (Level::Trace, style(Color::Magenta, false, false)),
        (Level::Debug, style(Color::Blue, false, false)),
        (Level::Info, style(Color::White, false, false)),
        (Level::Warn, style(Color::Yellow, true, true)),
        (Level::Error, style(Color::Red, true, true)),
    ];
    for (level, expected) in cases {
        let mut s = Style::new();
        level_style(&mut s, level);
        assert_eq!(s, expected);
    }
}

#[test]
fn fresh_state_holds_sentinels() {
    let st = RenderState::new();
    assert_eq!(st.last_timestamp, 0);
    assert_eq!(st.last_offset, 1);
    assert_eq!(st.max_target_width, 0);
}
