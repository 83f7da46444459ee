//! The record renderer: composes one styled line per log record - a
//! bracketed, diffed timestamp, the level tag, the abbreviated source path
//! and the message - and updates the shared render state.

use vstd::prelude::*;
use vstd::string::StringSliceAdditionalSpecFns;

use crate::span::{append_spans, copy_range, push_byte_span, push_span, span, Span, SpanModel};
use crate::state::RenderState;
use crate::style::{
    deemph_style, deemphasized, error_style, error_text, info_style, info_text, level_style, level_text, normal,
    normal_style, warn_style, warn_text, Level, Style,
};
use crate::target::{target_spans, target_width, updated_max, write_target};
use crate::time::{current_time, timestamp_spans, write_timestamp};

verus! {

/// The five-character level tag: the level's name, padded to width five.
pub open spec fn level_tag(level: Level) -> Seq<u8> {
    match level {
        Level::Trace => seq![('T' as u8), ('R' as u8), ('A' as u8), ('C' as u8), ('E' as u8)],
        Level::Debug => seq![('D' as u8), ('E' as u8), ('B' as u8), ('U' as u8), ('G' as u8)],
        Level::Info => seq![('I' as u8), ('N' as u8), ('F' as u8), ('O' as u8), (' ' as u8)],
        Level::Warn => seq![('W' as u8), ('A' as u8), ('R' as u8), ('N' as u8), (' ' as u8)],
        Level::Error => seq![('E' as u8), ('R' as u8), ('R' as u8), ('O' as u8), ('R' as u8)],
    }
}

/// The style of the message body. It deliberately differs from the level-tag
/// table: an Info message reads as `normal`, Warn and Error messages keep
/// their own styles, and Trace and Debug messages use the info style.
pub open spec fn message_style(level: Level) -> Style {
    match level {
        Level::Info => normal(),
        Level::Warn => warn_text(),
        Level::Error => error_text(),
        Level::Trace => info_text(),
        Level::Debug => info_text(),
    }
}

/// The level tag as bytes.
fn level_tag_bytes(level: Level) -> (v: Vec<u8>)
    ensures
        v@ == level_tag(level),
{
    let mut v: Vec<u8> = Vec::new();
    match level {
        Level::Trace => {
            v.push('T' as u8);
            v.push('R' as u8);
            v.push('A' as u8);
            v.push('C' as u8);
            v.push('E' as u8);
        },
        Level::Debug => {
            v.push('D' as u8);
            v.push('E' as u8);
            v.push('B' as u8);
            v.push('U' as u8);
            v.push('G' as u8);
        },
        Level::Info => {
            v.push('I' as u8);
            v.push('N' as u8);
            v.push('F' as u8);
            v.push('O' as u8);
            v.push(' ' as u8);
        },
        Level::Warn => {
            v.push('W' as u8);
            v.push('A' as u8);
            v.push('R' as u8);
            v.push('N' as u8);
            v.push(' ' as u8);
        },
        Level::Error => {
            v.push('E' as u8);
            v.push('R' as u8);
            v.push('R' as u8);
            v.push('O' as u8);
            v.push('R' as u8);
        },
    }
    assert(v@ =~= level_tag(level));
    v
}

/// The message-body style as a value.
fn message_style_of(level: Level) -> (s: Style)
    ensures
        s == message_style(level),
{
    let mut s = Style::new();
    match level {
        Level::Info => normal_style(&mut s),
        Level::Warn => warn_style(&mut s),
        Level::Error => error_style(&mut s),
        Level::Trace => info_style(&mut s),
        Level::Debug => info_style(&mut s),
    }
    s
}

/// Everything one rendered line holds, in order: the deemphasized opening
/// bracket, the diffed timestamp of the record against the state's previous
/// one, the styled level tag and a space, the abbreviated source path, the
/// deemphasized closing bracket, and the message with its body style.
pub open spec fn line_spans(
    st: RenderState,
    nanos: i64,
    offset_secs: i32,
    level: Level,
    target: Seq<u8>,
    msg: Seq<u8>,
) -> Seq<SpanModel> {
    seq![span(seq![('[' as u8)], deemphasized())] + timestamp_spans(
        st.last_timestamp,
        st.last_offset,
        nanos,
        offset_secs,
    ) + seq![span(level_tag(level), level_text(level)), span(seq![(' ' as u8)], deemphasized())]
        + target_spans(target) + seq![
        span(seq![(']' as u8), (' ' as u8)], deemphasized()),
        span(msg, message_style(level)),
    ]
}

/// The state after rendering one record: the record's timestamp and offset,
/// and the maximum of the old width and the path's rendered width.
pub open spec fn state_after(
    st: RenderState,
    nanos: i64,
    offset_secs: i32,
    target: Seq<u8>,
) -> RenderState {
    RenderState {
        last_timestamp: nanos,
        last_offset: offset_secs,
        max_target_width: updated_max(st.max_target_width, target_width(target)),
    }
}

/// Renders one record whose timestamp and timezone offset are given
/// explicitly, and advances `state` to the record's values.
pub fn logformat_at(
    state: &mut RenderState,
    nanos: i64,
    offset_secs: i32,
    level: Level,
    target: &str,
    msg: &str,
) -> (out: Vec<Span>)
    requires
        -86400 < offset_secs < 86400,
        target.spec_bytes().len() < usize::MAX,
    ensures
        out.deep_view() == line_spans(
            *old(state),
            nanos,
            offset_secs,
            level,
            target.spec_bytes(),
            msg.spec_bytes(),
        ),
        *final(state) == state_after(*old(state), nanos, offset_secs, target.spec_bytes()),
        final(state).max_target_width >= old(state).max_target_width,
{
    let mut deemph = Style::new();
    deemph_style(&mut deemph);
    let mut out: Vec<Span> = Vec::new();
    push_byte_span(&mut out, '[' as u8, deemph);
    let mut ts = write_timestamp(state, nanos, offset_secs);
    append_spans(&mut out, &mut ts);
    let mut tag_style = Style::new();
    level_style(&mut tag_style, level);
    let tag = level_tag_bytes(level);
    push_span(&mut out, tag, tag_style);
    push_byte_span(&mut out, ' ' as u8, deemph);
    let mut path = write_target(state, target);
    append_spans(&mut out, &mut path);
    let mut bracket: Vec<u8> = Vec::new();
    bracket.push(']' as u8);
    bracket.push(' ' as u8);
    assert(bracket@ =~= seq![(']' as u8), (' ' as u8)]);
    push_span(&mut out, bracket, deemph);
    let msg_bytes = msg.as_bytes();
    let text = copy_range(msg_bytes, 0, msg_bytes.len());
    let body_style = message_style_of(level);
    push_span(&mut out, text, body_style);
    proof {
        assert(out.deep_view() =~~= line_spans(
            *old(state),
            nanos,
            offset_secs,
            level,
            target.spec_bytes(),
            msg.spec_bytes(),
        ));
    }
    out
}

/// Renders one record at the current wall-clock time; the timestamp and
/// offset recorded in `state` are the ones rendered.
pub fn logformat(state: &mut RenderState, level: Level, target: &str, msg: &str) -> (out: Vec<Span>)
    requires
        target.spec_bytes().len() < usize::MAX,
    ensures
        out.deep_view() == line_spans(
            *old(state),
            final(state).last_timestamp,
            final(state).last_offset,
            level,
            target.spec_bytes(),
            msg.spec_bytes(),
        ),
        *final(state) == state_after(
            *old(state),
            final(state).last_timestamp,
            final(state).last_offset,
            target.spec_bytes(),
        ),
        final(state).max_target_width >= old(state).max_target_width,
{
    let (nanos, offset_secs) = current_time();
    logformat_at(state, nanos, offset_secs, level, target, msg)
}

/// One log record, at the specification level: its render instant, timezone
/// offset, severity, source path bytes and message bytes.
pub struct LogRecord {
    /// Nanoseconds since the Unix epoch of the record's render instant.
    pub nanos: i64,
    /// Timezone offset in signed seconds east of UTC.
    pub offset_secs: i32,
    /// Severity level.
    pub level: Level,
    /// Source path bytes.
    pub target: Seq<u8>,
    /// Message bytes.
    pub msg: Seq<u8>,
}

/// The styled lines that a fixed, serialized record sequence renders to,
/// starting from state `st`, each line diffed against its predecessor.
pub open spec fn render_seq(st: RenderState, recs: Seq<LogRecord>) -> Seq<Seq<SpanModel>>
    decreases recs.len(),
{
    if recs.len() == 0 {
        seq![]
    } else {
        let r = recs[0];
        seq![line_spans(st, r.nanos, r.offset_secs, r.level, r.target, r.msg)] + render_seq(
            state_after(st, r.nanos, r.offset_secs, r.target),
            recs.drop_first(),
        )
    }
}

/// Law: rendering is a function of the starting state and the records alone.
/// Re-running a fixed, serialized record sequence from an equal state - for
/// instance a freshly reset one - produces identical styled output.
pub proof fn lemma_replay_identical(s1: RenderState, s2: RenderState, recs: Seq<LogRecord>)
    requires
        s1 == s2,
    ensures
        render_seq(s1, recs) == render_seq(s2, recs),
{
}

} // verus!
