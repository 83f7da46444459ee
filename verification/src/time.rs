//! The timestamp-diff renderer: formats the current record's timestamp as a
//! fixed-width digit string and renders it relative to the previously
//! rendered one, suppressing the unchanged prefix and highlighting the point
//! of divergence - calmly when time moved forward, in error style when the
//! clock ran backwards or the timezone offset changed.

use vstd::prelude::*;

use crate::span::{push_byte_span, push_span, span, Span, SpanModel};
use crate::state::{RenderState, UNINIT_OFFSET};
use crate::style::{
    deemph_style, deemphasized, error_style, error_text, invisible, invisible_style, normal,
    normal_style, Style,
};

verus! {

/// The 23 bytes chrono renders for a nanosecond timestamp at a fixed offset
/// with the pattern `%Y%m%d%H%M%S%f`: 4-digit year, then zero-padded month,
/// day, hour, minute, second, then 9 fractional digits.
pub uninterp spec fn timestamp_digits(nanos: i64, offset_secs: i32) -> Seq<u8>;

/// Relies on chrono: `FixedOffset::east_opt` returns `Some` exactly for
/// offsets strictly between -86400 and 86400 seconds, and `DateTime::format`
/// with `%Y%m%d%H%M%S%f` writes the zero-padded 4-digit year (every `i64`
/// nanosecond timestamp falls between the years 1677 and 2262), month, day,
/// hour, minute and second, then exactly 9 fractional digits: 23 bytes
/// computed from the timestamp and the offset alone.
#[verifier::external_body]
fn format_timestamp_digits(nanos: i64, offset_secs: i32) -> (v: Vec<u8>)
    requires
        -86400 < offset_secs < 86400,
    ensures
        v@ == timestamp_digits(nanos, offset_secs),
        v@.len() == 23,
{
    let offset = chrono::FixedOffset::east_opt(offset_secs).unwrap();
    let dt = chrono::TimeZone::timestamp_nanos(&offset, nanos);
    format!("{}", dt.format("%Y%m%d%H%M%S%f")).into_bytes()
}

/// Relies on chrono: `Local::now` returns the current wall-clock time; its
/// offset, fixed via the `Offset` trait, carries a seconds-east value
/// strictly between -86400 and 86400, and `timestamp_nanos_opt` is `Some`
/// for every date before the year 2262. Nothing is assumed about the
/// timestamp itself.
#[verifier::external_body]
pub(crate) fn current_time() -> (r: (i64, i32))
    ensures
        -86400 < r.1 < 86400,
{
    let now = chrono::Local::now();
    let offset_secs = chrono::Offset::fix(now.offset()).local_minus_utc();
    let nanos = now.timestamp_nanos_opt().unwrap_or(0);
    (nanos, offset_secs)
}

/// The first position at which `p` and `c` differ, or their length when they
/// are equal (comparison stops at the shorter sequence).
pub open spec fn first_diff(p: Seq<u8>, c: Seq<u8>) -> int
    decreases p.len(),
{
    if p.len() == 0 || c.len() == 0 {
        0
    } else if p[0] != c[0] {
        0
    } else {
        1 + first_diff(p.drop_first(), c.drop_first())
    }
}

/// `first_diff` is the least differing position: everything before it is
/// equal, and (when in range) the sequences differ at it.
pub proof fn lemma_first_diff(p: Seq<u8>, c: Seq<u8>)
    requires
        p.len() == c.len(),
    ensures
        0 <= first_diff(p, c) <= p.len(),
        forall|j: int| 0 <= j < first_diff(p, c) ==> p[j] == c[j],
        first_diff(p, c) < p.len() ==> p[first_diff(p, c)] != c[first_diff(p, c)],
    decreases p.len(),
{
    if p.len() == 0 {
    } else if p[0] != c[0] {
    } else {
        let pt = p.drop_first();
        let ct = c.drop_first();
        lemma_first_diff(pt, ct);
        let d = first_diff(p, c);
        assert(d == 1 + first_diff(pt, ct));
        assert forall|j: int| 0 <= j < d implies p[j] == c[j] by {
            if j > 0 {
                assert(pt[j - 1] == p[j]);
                assert(ct[j - 1] == c[j]);
            }
        }
        if d < p.len() {
            assert(pt[d - 1] == p[d]);
            assert(ct[d - 1] == c[d]);
        }
    }
}

/// The style of the digit at position `i` of the current digit string `c`
/// diffed against the previous one `p`: deemphasized before the divergence
/// point, then locked to `normal` when time moved forward there, or to the
/// error style when it moved backward.
pub open spec fn digit_style(p: Seq<u8>, c: Seq<u8>, i: int) -> Style {
    let d = first_diff(p, c);
    if i < d {
        deemphasized()
    } else if c[d] > p[d] {
        normal()
    } else {
        error_text()
    }
}

/// Whether a literal separator glyph is emitted just before digit position
/// `i`, so the digits read as `YYYY-MM-DDTHH:MM:SS.fff_fff_fff`.
pub open spec fn has_sep_before(i: int) -> bool {
    i == 4 || i == 6 || i == 8 || i == 10 || i == 12 || i == 14 || i == 17 || i == 20
}

/// The separator glyph emitted before digit position `i`.
pub open spec fn sep_text(i: int) -> Seq<u8> {
    if i == 4 || i == 6 {
        seq![('-' as u8)]
    } else if i == 8 {
        seq![('T' as u8)]
    } else if i == 10 || i == 12 {
        seq![(':' as u8)]
    } else if i == 14 {
        seq![('.' as u8)]
    } else {
        seq![('_' as u8)]
    }
}

/// The separator span before digit position `i`: deemphasized, except the
/// date/time separator, which occupies space invisibly.
pub open spec fn sep_span(i: int) -> SpanModel {
    span(sep_text(i), if i == 8 { invisible() } else { deemphasized() })
}

/// The spans emitted for digit position `i`: its separator, if any, then the
/// current digit with its diff style.
pub open spec fn step_spans(p: Seq<u8>, c: Seq<u8>, i: int) -> Seq<SpanModel> {
    let digit = span(seq![c[i]], digit_style(p, c, i));
    if has_sep_before(i) {
        seq![sep_span(i), digit]
    } else {
        seq![digit]
    }
}

/// The spans of the digit walk over positions `0 .. i`.
pub open spec fn digit_spans_upto(p: Seq<u8>, c: Seq<u8>, i: int) -> Seq<SpanModel>
    decreases i,
{
    if i <= 0 {
        seq![]
    } else {
        digit_spans_upto(p, c, i - 1) + step_spans(p, c, i - 1)
    }
}

/// The spans of the whole digit walk of `c` diffed against `p`.
pub open spec fn digit_spans(p: Seq<u8>, c: Seq<u8>) -> Seq<SpanModel> {
    digit_spans_upto(p, c, c.len() as int)
}

/// An ASCII digit byte.
pub open spec fn digit_byte(n: int) -> u8
    recommends
        0 <= n <= 9,
{
    (48 + n) as u8
}

/// A value below 100 as two ASCII digits, zero-padded.
pub open spec fn two_digits(n: int) -> Seq<u8>
    recommends
        0 <= n < 100,
{
    seq![digit_byte(n / 10), digit_byte(n % 10)]
}

/// A timezone offset in signed seconds east of UTC, rendered `+HH:MM` or
/// `-HH:MM`.
pub open spec fn offset_text(off: i32) -> Seq<u8> {
    let mag = if off >= 0 { off as int } else { -(off as int) };
    let sign: u8 = if off >= 0 { ('+' as u8) } else { ('-' as u8) };
    seq![sign] + two_digits(mag / 3600) + seq![(':' as u8)] + two_digits((mag % 3600) / 60)
}

/// The style of the rendered offset: deemphasized when unchanged, `normal`
/// on the first record ever rendered, and the error style when the offset
/// changed between consecutive records.
pub open spec fn offset_style(last_off: i32, cur_off: i32) -> Style {
    if cur_off == last_off {
        deemphasized()
    } else if last_off == UNINIT_OFFSET {
        normal()
    } else {
        error_text()
    }
}

/// The span of the rendered timezone offset.
pub open spec fn offset_span(last_off: i32, cur_off: i32) -> SpanModel {
    span(offset_text(cur_off), offset_style(last_off, cur_off))
}

/// Everything [`write_timestamp`] emits: the digit walk of the current
/// timestamp against the previous one, then the offset span.
pub open spec fn timestamp_spans(
    prev_nanos: i64,
    last_off: i32,
    nanos: i64,
    off: i32,
) -> Seq<SpanModel> {
    digit_spans(timestamp_digits(prev_nanos, off), timestamp_digits(nanos, off))
        + seq![offset_span(last_off, off)]
}

/// Renders `off` as `+HH:MM` / `-HH:MM` bytes.
fn offset_bytes(off: i32) -> (v: Vec<u8>)
    requires
        -86400 < off < 86400,
    ensures
        v@ == offset_text(off),
{
    let mut v: Vec<u8> = Vec::new();
    let mag: u32;
    if off >= 0 {
        v.push(('+' as u8));
        mag = off as u32;
    } else {
        v.push(('-' as u8));
        mag = (-off) as u32;
    }
    let hh = mag / 3600;
    let mm = (mag % 3600) / 60;
    v.push(48 + (hh / 10) as u8);
    v.push(48 + (hh % 10) as u8);
    v.push((':' as u8));
    v.push(48 + (mm / 10) as u8);
    v.push(48 + (mm % 10) as u8);
    assert(v@ =~= offset_text(off));
    v
}

/// How far the digit walk has diverged, and in which direction.
enum DiffStatus {
    /// No differing digit seen yet.
    Matching,
    /// Diverged with the current digit greater: time moved forward.
    Forward,
    /// Diverged with the current digit smaller: a clock regression.
    Backward,
}

/// Renders the timestamp `nanos` (nanoseconds since the Unix epoch) at
/// timezone offset `offset_secs` against the previously rendered timestamp
/// held in `state`, then records the current values in `state`.
pub fn write_timestamp(state: &mut RenderState, nanos: i64, offset_secs: i32) -> (out: Vec<Span>)
    requires
        -86400 < offset_secs < 86400,
    ensures
        out.deep_view() == timestamp_spans(
            old(state).last_timestamp,
            old(state).last_offset,
            nanos,
            offset_secs,
        ),
        final(state).last_timestamp == nanos,
        final(state).last_offset == offset_secs,
        final(state).max_target_width == old(state).max_target_width,
{
    let prev = format_timestamp_digits(state.last_timestamp, offset_secs);
    let cur = format_timestamp_digits(nanos, offset_secs);
    let ghost p = prev@;
    let ghost c = cur@;
    proof {
        lemma_first_diff(p, c);
    }
    let ghost fd = first_diff(p, c);

    let mut deemph = Style::new();
    deemph_style(&mut deemph);
    let mut invis = Style::new();
    invisible_style(&mut invis);
    let mut norm = Style::new();
    normal_style(&mut norm);
    let mut err = Style::new();
    error_style(&mut err);

    let mut out: Vec<Span> = Vec::new();
    let mut status = DiffStatus::Matching;
    let mut i: usize = 0;
    while i < 23
        invariant
            i <= 23,
            p.len() == 23,
            c.len() == 23,
            prev@ == p,
            cur@ == c,
            deemph == deemphasized(),
            invis == invisible(),
            norm == normal(),
            err == error_text(),
            out.deep_view() == digit_spans_upto(p, c, i as int),
            fd == first_diff(p, c),
            0 <= fd <= 23,
            forall|j: int| 0 <= j < fd ==> p[j] == c[j],
            fd < 23 ==> p[fd] != c[fd],
            (status is Matching) <==> fd >= i,
            (status is Forward) ==> fd < i && c[fd] > p[fd],
            (status is Backward) ==> fd < i && c[fd] < p[fd],
        decreases 23 - i,
    {
        let ghost entry = out.deep_view();
        if i == 8 {
            push_byte_span(&mut out, ('T' as u8), invis);
        } else if i == 4 || i == 6 {
            push_byte_span(&mut out, ('-' as u8), deemph);
        } else if i == 10 || i == 12 {
            push_byte_span(&mut out, (':' as u8), deemph);
        } else if i == 14 {
            push_byte_span(&mut out, ('.' as u8), deemph);
        } else if i == 17 || i == 20 {
            push_byte_span(&mut out, ('_' as u8), deemph);
        }
        proof {
            if has_sep_before(i as int) {
                assert(out.deep_view() =~~= entry + seq![sep_span(i as int)]);
            }
        }
        let l = prev[i];
        let ch = cur[i];
        match status {
            DiffStatus::Matching => {
                if ch == l {
                    proof {
                        // The walk is still matching at i, so the first
                        // difference lies strictly beyond it.
                        assert(fd != i);
                    }
                    push_byte_span(&mut out, ch, deemph);
                } else if ch > l {
                    status = DiffStatus::Forward;
                    proof {
                        assert(fd <= i);
                        assert(fd == i);
                    }
                    push_byte_span(&mut out, ch, norm);
                } else {
                    status = DiffStatus::Backward;
                    proof {
                        assert(fd <= i);
                        assert(fd == i);
                    }
                    push_byte_span(&mut out, ch, err);
                }
            }
            DiffStatus::Forward => {
                push_byte_span(&mut out, ch, norm);
            }
            DiffStatus::Backward => {
                push_byte_span(&mut out, ch, err);
            }
        }
        proof {
            assert(digit_spans_upto(p, c, i + 1) == digit_spans_upto(p, c, i as int)
                + step_spans(p, c, i as int));
            assert(out.deep_view() =~~= digit_spans_upto(p, c, i + 1));
        }
        i += 1;
    }
    let off_style = if offset_secs == state.last_offset {
        deemph
    } else if state.last_offset == UNINIT_OFFSET {
        norm
    } else {
        err
    };
    let text = offset_bytes(offset_secs);
    let ghost before_offset = out.deep_view();
    push_span(&mut out, text, off_style);
    proof {
        assert(out.deep_view() =~~= timestamp_spans(
            old(state).last_timestamp,
            old(state).last_offset,
            nanos,
            offset_secs,
        ));
    }
    state.last_timestamp = nanos;
    state.last_offset = offset_secs;
    out
}

/// Renders the current wall-clock time against the previously rendered
/// timestamp, as [`write_timestamp`] does; the values recorded in `state`
/// are the ones rendered.
pub fn write_now(state: &mut RenderState) -> (out: Vec<Span>)
    ensures
        out.deep_view() == timestamp_spans(
            old(state).last_timestamp,
            old(state).last_offset,
            final(state).last_timestamp,
            final(state).last_offset,
        ),
        -86400 < final(state).last_offset < 86400,
        final(state).max_target_width == old(state).max_target_width,
{
    let (nanos, offset_secs) = current_time();
    write_timestamp(state, nanos, offset_secs)
}

/// Helper for the law below: in the walk of a digit string against itself,
/// every span over positions `0 .. n` is deemphasized or invisible.
proof fn lemma_identical_spans_upto(d: Seq<u8>, n: int)
    requires
        0 <= n <= d.len(),
    ensures
        forall|k: int|
            0 <= k < digit_spans_upto(d, d, n).len() ==> (#[trigger] digit_spans_upto(d, d, n)[k]).style
                == deemphasized() || digit_spans_upto(d, d, n)[k].style == invisible(),
    decreases n,
{
    lemma_first_diff(d, d);
    if n > 0 {
        lemma_identical_spans_upto(d, n - 1);
        assert(digit_style(d, d, n - 1) == deemphasized());
    }
}

/// Law: when the current digit string is identical to the previous one, the
/// digit walk finds no divergence - every digit is styled deemphasized, and
/// every span it emits is deemphasized or invisible.
pub proof fn lemma_identical_digits_deemphasized(d: Seq<u8>)
    ensures
        forall|i: int| 0 <= i < d.len() ==> digit_style(d, d, i) == deemphasized(),
        forall|k: int|
            0 <= k < digit_spans(d, d).len() ==> (#[trigger] digit_spans(d, d)[k]).style
                == deemphasized() || digit_spans(d, d)[k].style == invisible(),
{
    lemma_first_diff(d, d);
    lemma_identical_spans_upto(d, d.len() as int);
}

/// Law: when the digit strings first differ at position `k` with the current
/// digit greater (time moved forward), every digit before `k` is styled
/// deemphasized and every digit from `k` on is styled `normal`.
pub proof fn lemma_forward_divergence(p: Seq<u8>, c: Seq<u8>, k: int)
    requires
        p.len() == c.len(),
        0 <= k < p.len(),
        forall|j: int| 0 <= j < k ==> p[j] == c[j],
        c[k] > p[k],
    ensures
        forall|i: int| 0 <= i < k ==> digit_style(p, c, i) == deemphasized(),
        forall|i: int| k <= i < p.len() ==> digit_style(p, c, i) == normal(),
{
    lemma_first_diff(p, c);
    assert(first_diff(p, c) == k);
}

/// Law: when the digit strings first differ at position `k` with the current
/// digit smaller (a clock regression), every digit from `k` on is styled as
/// an error, and every digit before `k` stays deemphasized.
pub proof fn lemma_backward_divergence(p: Seq<u8>, c: Seq<u8>, k: int)
    requires
        p.len() == c.len(),
        0 <= k < p.len(),
        forall|j: int| 0 <= j < k ==> p[j] == c[j],
        c[k] < p[k],
    ensures
        forall|i: int| 0 <= i < k ==> digit_style(p, c, i) == deemphasized(),
        forall|i: int| k <= i < p.len() ==> digit_style(p, c, i) == error_text(),
{
    lemma_first_diff(p, c);
    assert(first_diff(p, c) == k);
}

/// Law: the timezone offset is styled deemphasized exactly when unchanged;
/// otherwise `normal` on the first record ever rendered, and as an error on
/// any later offset change.
pub proof fn lemma_offset_styling(last_off: i32, cur_off: i32)
    ensures
        cur_off == last_off ==> offset_style(last_off, cur_off) == deemphasized(),
        cur_off != last_off && last_off == UNINIT_OFFSET ==> offset_style(last_off, cur_off)
            == normal(),
        cur_off != last_off && last_off != UNINIT_OFFSET ==> offset_style(last_off, cur_off)
            == error_text(),
{
}

} // verus!
