//! The source-path abbreviator: renders a `::`-separated hierarchical path
//! compactly, collapsing the recognized own-library prefix to single-letter
//! glyphs, dimming intermediate segments, highlighting the leaf segment, and
//! tracking the widest rendering seen so far.

use vstd::prelude::*;
use vstd::slice::slice_subrange;
use vstd::string::StringSliceAdditionalSpecFns;

use crate::span::{copy_range, push_byte_span, push_span, span, Span, SpanModel};
use crate::state::RenderState;
use crate::style::{
    abbrev_style, abbreviation, deemph_style, deemphasized, info_style, info_text, path_terminal,
    target_last_style, Style,
};

verus! {

/// The reserved root segment, collapsed to the glyph `U`.
pub open spec fn root_name() -> Seq<u8> {
    seq![
        ('r' as u8),
        ('u' as u8),
        ('s' as u8),
        ('t' as u8),
        ('u' as u8),
        ('t' as u8),
        ('i' as u8),
        ('l' as u8),
    ]
}

/// The reserved logging submodule segment, collapsed to the glyph `L`.
pub open spec fn log_name() -> Seq<u8> {
    seq![('l' as u8), ('o' as u8), ('g' as u8)]
}

/// Whether the two-byte segment delimiter `::` starts at position `i` of `s`.
pub open spec fn is_sep_at(s: Seq<u8>, i: int) -> bool {
    0 <= i && i + 2 <= s.len() && s[i] == (':' as u8) && s[i + 1] == (':' as u8)
}

/// The first position at or after `pos` where the delimiter starts, or -1.
pub open spec fn first_sep_from(s: Seq<u8>, pos: int) -> int
    decreases s.len() - pos,
{
    if pos < 0 || pos + 2 > s.len() {
        -1
    } else if s[pos] == (':' as u8) && s[pos + 1] == (':' as u8) {
        pos
    } else {
        first_sep_from(s, pos + 1)
    }
}

/// `first_sep_from` finds the leftmost delimiter at or after `pos`.
pub proof fn lemma_first_sep_from(s: Seq<u8>, pos: int)
    requires
        0 <= pos <= s.len(),
    ensures
        first_sep_from(s, pos) >= 0 ==> pos <= first_sep_from(s, pos) && is_sep_at(
            s,
            first_sep_from(s, pos),
        ) && forall|k: int| pos <= k < first_sep_from(s, pos) ==> !is_sep_at(s, k),
        first_sep_from(s, pos) < 0 ==> forall|k: int| pos <= k ==> !is_sep_at(s, k),
    decreases s.len() - pos,
{
    if pos + 2 > s.len() {
    } else if s[pos] == (':' as u8) && s[pos + 1] == (':' as u8) {
    } else {
        lemma_first_sep_from(s, pos + 1);
    }
}

/// The last position at or before `i` where the delimiter starts, or -1.
pub open spec fn last_sep_from(s: Seq<u8>, i: int) -> int
    decreases i + 1,
{
    if i < 0 {
        -1
    } else if is_sep_at(s, i) {
        i
    } else {
        last_sep_from(s, i - 1)
    }
}

/// The last position in `s` where the delimiter starts, or -1.
pub open spec fn last_sep(s: Seq<u8>) -> int {
    last_sep_from(s, s.len() - 2)
}

/// `last_sep` finds the rightmost delimiter.
pub proof fn lemma_last_sep(s: Seq<u8>)
    ensures
        last_sep(s) >= 0 ==> is_sep_at(s, last_sep(s)) && forall|k: int|
            last_sep(s) < k ==> !is_sep_at(s, k),
        last_sep(s) < 0 ==> forall|k: int| !is_sep_at(s, k),
{
    lemma_last_sep_from(s, s.len() - 2);
    assert forall|k: int| k > s.len() - 2 implies !is_sep_at(s, k) by {}
}

/// `last_sep_from` finds the rightmost delimiter at or before `i`.
proof fn lemma_last_sep_from(s: Seq<u8>, i: int)
    ensures
        last_sep_from(s, i) >= 0 ==> last_sep_from(s, i) <= i && is_sep_at(s, last_sep_from(s, i))
            && forall|k: int| last_sep_from(s, i) < k <= i ==> !is_sep_at(s, k),
        last_sep_from(s, i) < 0 ==> forall|k: int| k <= i ==> !is_sep_at(s, k),
    decreases i + 1,
{
    if i < 0 {
    } else if is_sep_at(s, i) {
    } else {
        lemma_last_sep_from(s, i - 1);
    }
}

/// The deemphasized `:` separator span placed before a rendered segment.
pub open spec fn colon_span() -> SpanModel {
    span(seq![(':' as u8)], deemphasized())
}

/// An intermediate path segment, rendered as plain info text.
pub open spec fn info_span(t: Seq<u8>) -> SpanModel {
    span(t, info_text())
}

/// The leaf segment, rendered highlighted.
pub open spec fn leaf_span(t: Seq<u8>) -> SpanModel {
    span(t, path_terminal())
}

/// A single-letter abbreviation glyph.
pub open spec fn abbrev_span(glyph: u8) -> SpanModel {
    span(seq![glyph], abbreviation())
}

/// The spans of the intermediate chunks of `s` from `pos` on: each chunk, in
/// order, as a separator plus info text (this covers every chunk left of the
/// already-split-off leaf, so none is highlighted).
pub open spec fn chunk_spans_from(s: Seq<u8>, pos: int) -> Seq<SpanModel>
    decreases s.len() - pos,
    when 0 <= pos <= s.len()
    via chunk_spans_from_dec
{
    let i = first_sep_from(s, pos);
    if i < 0 {
        seq![colon_span(), info_span(s.subrange(pos, s.len() as int))]
    } else {
        seq![colon_span(), info_span(s.subrange(pos, i))] + chunk_spans_from(s, i + 2)
    }
}

#[via_fn]
proof fn chunk_spans_from_dec(s: Seq<u8>, pos: int) {
    lemma_first_sep_from(s, pos);
}

/// The rendered width of the chunks of `s` from `pos` on: one separator
/// column plus the chunk's own length, per chunk.
pub open spec fn chunk_width_from(s: Seq<u8>, pos: int) -> int
    decreases s.len() - pos,
    when 0 <= pos <= s.len()
    via chunk_width_from_dec
{
    let i = first_sep_from(s, pos);
    if i < 0 {
        1 + s.len() - pos
    } else {
        1 + (i - pos) + chunk_width_from(s, i + 2)
    }
}

#[via_fn]
proof fn chunk_width_from_dec(s: Seq<u8>, pos: int) {
    lemma_first_sep_from(s, pos);
}

/// Each chunk contributes at least its separator and consumes a delimiter,
/// so the accumulated width never outgrows the text.
pub proof fn lemma_chunk_width_bounds(s: Seq<u8>, pos: int)
    requires
        0 <= pos <= s.len(),
    ensures
        1 <= chunk_width_from(s, pos) <= s.len() - pos + 1,
    decreases s.len() - pos,
{
    lemma_first_sep_from(s, pos);
    let i = first_sep_from(s, pos);
    if i >= 0 {
        lemma_chunk_width_bounds(s, i + 2);
    }
}

/// The spans of the generic tail renderer on the remainder `s`: every chunk
/// before the leaf as dimmed-separator plus info text, then the separator and
/// the highlighted leaf, split off at the rightmost delimiter.
pub open spec fn other_spans(s: Seq<u8>) -> Seq<SpanModel> {
    let j = last_sep(s);
    if j < 0 {
        seq![colon_span(), leaf_span(s)]
    } else if j == 0 {
        seq![colon_span(), leaf_span(s.subrange(2, s.len() as int))]
    } else {
        chunk_spans_from(s.subrange(0, j), 0) + seq![
            colon_span(),
            leaf_span(s.subrange(j + 2, s.len() as int)),
        ]
    }
}

/// The rendered width of the generic tail: separator plus segment length for
/// every chunk and for the leaf.
pub open spec fn other_width(s: Seq<u8>) -> int {
    let j = last_sep(s);
    if j < 0 {
        1 + s.len() as int
    } else if j == 0 {
        1 + s.len() - 2
    } else {
        chunk_width_from(s.subrange(0, j), 0) + 1 + (s.len() - j - 2)
    }
}

/// The tail renderer's width is positive and never outgrows the text.
pub proof fn lemma_other_width_bounds(s: Seq<u8>)
    ensures
        1 <= other_width(s) <= s.len() + 1,
{
    lemma_last_sep(s);
    let j = last_sep(s);
    if j > 0 {
        lemma_chunk_width_bounds(s.subrange(0, j), 0);
    }
}

/// The first segment of `t` and the remainder after the first delimiter (the
/// remainder is empty both when there is no delimiter and when it ends `t`).
pub open spec fn split_first(t: Seq<u8>) -> (Seq<u8>, Seq<u8>) {
    let i = first_sep_from(t, 0);
    if i < 0 {
        (t, seq![])
    } else {
        (t.subrange(0, i), t.subrange(i + 2, t.len() as int))
    }
}

/// The spans of the tail after an abbreviated root: a second abbreviation
/// glyph when the next segment is the reserved logging submodule, otherwise
/// the separator and the segment as info text; then the generic tail.
pub open spec fn root_tail_spans(rest: Seq<u8>) -> Seq<SpanModel> {
    let (next, rest2) = split_first(rest);
    if next == log_name() {
        seq![abbrev_span('L' as u8)] + if rest2.len() > 0 {
            other_spans(rest2)
        } else {
            seq![]
        }
    } else {
        seq![colon_span(), info_span(next)] + if rest2.len() > 0 {
            other_spans(rest2)
        } else {
            seq![]
        }
    }
}

/// The width of the tail after an abbreviated root.
pub open spec fn root_tail_width(rest: Seq<u8>) -> int {
    let (next, rest2) = split_first(rest);
    (if next == log_name() {
        1
    } else {
        1 + next.len()
    }) + if rest2.len() > 0 {
        other_width(rest2)
    } else {
        0
    }
}

/// Everything [`write_target`] emits for the path bytes `t`: the reserved
/// root collapses to the glyph `U`, a following reserved logging segment to
/// `L`; an unrecognized first segment renders in full as info text when more
/// segments follow and as the highlighted leaf when it is alone; the rest is
/// the generic tail.
pub open spec fn target_spans(t: Seq<u8>) -> Seq<SpanModel> {
    let (first, rest) = split_first(t);
    if first == root_name() {
        seq![abbrev_span('U' as u8)] + if rest.len() > 0 {
            root_tail_spans(rest)
        } else {
            seq![]
        }
    } else if rest.len() > 0 {
        seq![info_span(first)] + other_spans(rest)
    } else {
        seq![leaf_span(first)]
    }
}

/// The rendered width, in characters, of the path rendering of `t`.
pub open spec fn target_width(t: Seq<u8>) -> int {
    let (first, rest) = split_first(t);
    if first == root_name() {
        1 + if rest.len() > 0 {
            root_tail_width(rest)
        } else {
            0
        }
    } else {
        first.len() + if rest.len() > 0 {
            other_width(rest)
        } else {
            0
        }
    }
}

/// The rendered width never exceeds the path's own length by more than one
/// column.
pub proof fn lemma_target_width_bounds(t: Seq<u8>)
    ensures
        0 <= target_width(t) <= t.len() + 1,
{
    lemma_first_sep_from(t, 0);
    let i = first_sep_from(t, 0);
    let (first, rest) = split_first(t);
    if rest.len() > 0 {
        lemma_other_width_bounds(rest);
    }
    if first == root_name() && rest.len() > 0 {
        lemma_first_sep_from(rest, 0);
        let (next, rest2) = split_first(rest);
        if rest2.len() > 0 {
            lemma_other_width_bounds(rest2);
        }
    }
}

/// The styles the path renderer draws with.
struct TargetStyles {
    /// Dimmed separators.
    deemph: Style,
    /// Intermediate segments.
    info: Style,
    /// Single-letter abbreviation glyphs.
    abbrev: Style,
    /// The leaf segment.
    last: Style,
}

impl TargetStyles {
    /// Builds the fixed style set.
    fn get() -> (s: TargetStyles)
        ensures
            s.deemph == deemphasized(),
            s.info == info_text(),
            s.abbrev == abbreviation(),
            s.last == path_terminal(),
    {
        let mut deemph = Style::new();
        deemph_style(&mut deemph);
        let mut info = Style::new();
        info_style(&mut info);
        let mut abbrev = Style::new();
        abbrev_style(&mut abbrev);
        let mut last = Style::new();
        target_last_style(&mut last);
        TargetStyles { deemph, info, abbrev, last }
    }
}

/// The leftmost delimiter position at or after `pos`, if any.
fn find_sep(s: &[u8], pos: usize) -> (r: Option<usize>)
    requires
        pos <= s@.len(),
        s@.len() < usize::MAX,
    ensures
        match r {
            Some(i) => first_sep_from(s@, pos as int) == i as int && pos <= i && i + 2 <= s@.len(),
            None => first_sep_from(s@, pos as int) < 0,
        },
{
    let mut i = pos;
    while i + 1 < s.len()
        invariant
            pos <= i <= s@.len(),
            s@.len() < usize::MAX,
            first_sep_from(s@, pos as int) == first_sep_from(s@, i as int),
        decreases s@.len() - i,
    {
        if s[i] == (':' as u8) && s[i + 1] == (':' as u8) {
            return Some(i);
        }
        i += 1;
    }
    None
}

/// The rightmost delimiter position in `s`, if any.
fn rfind_sep(s: &[u8]) -> (r: Option<usize>)
    ensures
        match r {
            Some(j) => last_sep(s@) == j as int && j + 2 <= s@.len(),
            None => last_sep(s@) < 0,
        },
{
    if s.len() < 2 {
        return None;
    }
    let mut i = s.len() - 2;
    loop
        invariant
            0 <= i <= s@.len() - 2,
            last_sep(s@) == last_sep_from(s@, i as int),
        decreases i + 1,
    {
        if s[i] == (':' as u8) && s[i + 1] == (':' as u8) {
            return Some(i);
        }
        if i == 0 {
            proof {
                assert(!is_sep_at(s@, 0));
                assert(last_sep_from(s@, 0) == last_sep_from(s@, -1));
                assert(last_sep_from(s@, -1) == -1);
            }
            return None;
        }
        i -= 1;
    }
}

/// Whether `s` is the reserved root segment.
fn is_root_name(s: &[u8]) -> (r: bool)
    ensures
        r == (s@ == root_name()),
{
    if s.len() != 8 {
        return false;
    }
    let r = s[0] == ('r' as u8) && s[1] == ('u' as u8) && s[2] == ('s' as u8) && s[3] == (
    't' as u8) && s[4] == ('u' as u8) && s[5] == ('t' as u8) && s[6] == ('i' as u8) && s[7] == (
    'l' as u8);
    proof {
        if r {
            assert(s@ =~= root_name());
        }
    }
    r
}

/// Whether `s` is the reserved logging submodule segment.
fn is_log_name(s: &[u8]) -> (r: bool)
    ensures
        r == (s@ == log_name()),
{
    if s.len() != 3 {
        return false;
    }
    let r = s[0] == ('l' as u8) && s[1] == ('o' as u8) && s[2] == ('g' as u8);
    proof {
        if r {
            assert(s@ =~= log_name());
        }
    }
    r
}

/// Renders the generic tail `s`: every chunk before the leaf as a dimmed
/// separator plus info text, then the separator and the highlighted leaf.
fn render_other(out: &mut Vec<Span>, width: &mut usize, s: &[u8], st: &TargetStyles)
    requires
        st.deemph == deemphasized(),
        st.info == info_text(),
        st.last == path_terminal(),
        *old(width) + s@.len() + 1 <= usize::MAX,
    ensures
        final(out).deep_view() == old(out).deep_view() + other_spans(s@),
        *final(width) == *old(width) + other_width(s@),
{
    proof {
        lemma_last_sep(s@);
        lemma_other_width_bounds(s@);
    }
    let ghost entry = out.deep_view();
    let ghost entry_w = *width;
    match rfind_sep(s) {
        None => {
            push_byte_span(out, ':' as u8, st.deemph);
            let text = copy_range(s, 0, s.len());
            push_span(out, text, st.last);
            *width = *width + 1 + s.len();
            proof {
                assert(s@.subrange(0, s@.len() as int) =~= s@);
                assert(out.deep_view() =~~= entry + other_spans(s@));
            }
        }
        Some(j) => {
            if j > 0 {
                let before = slice_subrange(s, 0, j);
                let ghost b = before@;
                proof {
                    lemma_chunk_width_bounds(b, 0);
                }
                let mut pos: usize = 0;
                loop
                    invariant_except_break
                        j + 2 <= s@.len(),
                        0 < j < s@.len(),
                        before@ == b,
                        b == s@.subrange(0, j as int),
                        b.len() == j,
                        st.deemph == deemphasized(),
                        st.info == info_text(),
                        0 <= pos <= b.len(),
                        entry + chunk_spans_from(b, 0) == out.deep_view() + chunk_spans_from(
                            b,
                            pos as int,
                        ),
                        entry_w + chunk_width_from(b, 0) == *width + chunk_width_from(
                            b,
                            pos as int,
                        ),
                        entry_w + s@.len() + 1 <= usize::MAX,
                    ensures
                        out.deep_view() == entry + chunk_spans_from(b, 0),
                        *width == entry_w + chunk_width_from(b, 0),
                    decreases b.len() - pos,
                {
                    proof {
                        lemma_chunk_width_bounds(b, 0);
                        lemma_chunk_width_bounds(b, pos as int);
                    }
                    let ghost pre = out.deep_view();
                    match find_sep(before, pos) {
                        Some(i) => {
                            proof {
                                lemma_chunk_width_bounds(b, i + 2);
                                assert(chunk_spans_from(b, pos as int) == seq![
                                    colon_span(),
                                    info_span(b.subrange(pos as int, i as int)),
                                ] + chunk_spans_from(b, i + 2));
                                assert(chunk_width_from(b, pos as int) == 1 + (i - pos)
                                    + chunk_width_from(b, i + 2));
                            }
                            push_byte_span(out, ':' as u8, st.deemph);
                            let text = copy_range(before, pos, i);
                            push_span(out, text, st.info);
                            *width = *width + 1 + (i - pos);
                            proof {
                                assert(out.deep_view() =~~= pre + seq![
                                    colon_span(),
                                    info_span(b.subrange(pos as int, i as int)),
                                ]);
                            }
                            pos = i + 2;
                        }
                        None => {
                            proof {
                                assert(chunk_spans_from(b, pos as int) == seq![
                                    colon_span(),
                                    info_span(b.subrange(pos as int, b.len() as int)),
                                ]);
                                assert(chunk_width_from(b, pos as int) == 1 + b.len() - pos);
                            }
                            push_byte_span(out, ':' as u8, st.deemph);
                            let text = copy_range(before, pos, before.len());
                            push_span(out, text, st.info);
                            *width = *width + 1 + (before.len() - pos);
                            proof {
                                assert(out.deep_view() =~~= pre + chunk_spans_from(b, pos as int));
                            }
                            break;
                        }
                    }
                }
                push_byte_span(out, ':' as u8, st.deemph);
                let text = copy_range(s, j + 2, s.len());
                push_span(out, text, st.last);
                *width = *width + 1 + (s.len() - (j + 2));
                proof {
                    assert(out.deep_view() =~~= entry + other_spans(s@));
                }
            } else {
                push_byte_span(out, ':' as u8, st.deemph);
                let text = copy_range(s, 2, s.len());
                push_span(out, text, st.last);
                *width = *width + 1 + (s.len() - 2);
                proof {
                    assert(out.deep_view() =~~= entry + other_spans(s@));
                }
            }
        }
    }
}

/// Renders the tail after an abbreviated root: the reserved logging segment
/// collapses to the glyph `L`, any other segment renders as a dimmed
/// separator plus info text; the remainder goes to the generic tail.
fn render_root_tail(out: &mut Vec<Span>, width: &mut usize, s: &[u8], st: &TargetStyles)
    requires
        st.deemph == deemphasized(),
        st.info == info_text(),
        st.abbrev == abbreviation(),
        st.last == path_terminal(),
        *old(width) + s@.len() + 1 <= usize::MAX,
    ensures
        final(out).deep_view() == old(out).deep_view() + root_tail_spans(s@),
        *final(width) == *old(width) + root_tail_width(s@),
{
    proof {
        lemma_first_sep_from(s@, 0);
    }
    let ghost entry = out.deep_view();
    let (next, rest2) = match find_sep(s, 0) {
        Some(i) => (slice_subrange(s, 0, i), slice_subrange(s, i + 2, s.len())),
        None => (s, slice_subrange(s, 0, 0)),
    };
    proof {
        assert(split_first(s@).0 == next@);
        assert(split_first(s@).1 =~= rest2@);
    }
    if is_log_name(next) {
        push_byte_span(out, 'L' as u8, st.abbrev);
        *width = *width + 1;
        if rest2.len() > 0 {
            render_other(out, width, rest2, st);
        }
        proof {
            assert(out.deep_view() =~~= entry + root_tail_spans(s@));
        }
    } else {
        push_byte_span(out, ':' as u8, st.deemph);
        let text = copy_range(next, 0, next.len());
        push_span(out, text, st.info);
        *width = *width + 1 + next.len();
        if rest2.len() > 0 {
            render_other(out, width, rest2, st);
        }
        proof {
            assert(out.deep_view() =~~= entry + root_tail_spans(s@));
        }
    }
}

/// The width recorded after a rendering of width `w` meets a previous
/// maximum `prev`: the larger of the two.
pub open spec fn updated_max(prev: usize, w: int) -> usize {
    if prev < w {
        w as usize
    } else {
        prev
    }
}

/// Renders the colon-separated source path `target` compactly and records
/// its rendered width in `state` when it exceeds the maximum seen so far;
/// the maximum never decreases, and no other state field changes.
pub fn write_target(state: &mut RenderState, target: &str) -> (out: Vec<Span>)
    requires
        target.spec_bytes().len() < usize::MAX,
    ensures
        out.deep_view() == target_spans(target.spec_bytes()),
        final(state).last_timestamp == old(state).last_timestamp,
        final(state).last_offset == old(state).last_offset,
        final(state).max_target_width == updated_max(
            old(state).max_target_width,
            target_width(target.spec_bytes()),
        ),
        final(state).max_target_width >= old(state).max_target_width,
{
    let b = target.as_bytes();
    let ghost t = target.spec_bytes();
    proof {
        lemma_first_sep_from(t, 0);
        lemma_target_width_bounds(t);
    }
    let st = TargetStyles::get();
    let mut out: Vec<Span> = Vec::new();
    let mut width: usize = 0;
    let (first, rest) = match find_sep(b, 0) {
        Some(i) => (slice_subrange(b, 0, i), slice_subrange(b, i + 2, b.len())),
        None => (b, slice_subrange(b, 0, 0)),
    };
    proof {
        assert(split_first(t).0 == first@);
        assert(split_first(t).1 =~= rest@);
    }
    if is_root_name(first) {
        push_byte_span(&mut out, 'U' as u8, st.abbrev);
        width = 1;
        if rest.len() > 0 {
            render_root_tail(&mut out, &mut width, rest, &st);
        }
    } else if rest.len() > 0 {
        let text = copy_range(first, 0, first.len());
        push_span(&mut out, text, st.info);
        width = first.len();
        render_other(&mut out, &mut width, rest, &st);
    } else {
        let text = copy_range(first, 0, first.len());
        push_span(&mut out, text, st.last);
        width = first.len();
    }
    proof {
        assert(first@.subrange(0, first@.len() as int) =~= first@);
        assert(out.deep_view() =~~= target_spans(t));
        assert(width == target_width(t));
    }
    if state.max_target_width < width {
        state.max_target_width = width;
    }
    out
}

} // verus!
