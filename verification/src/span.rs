//! Styled text spans, the output unit of the renderer, and small verified
//! helpers for building byte strings and span lists.

use vstd::prelude::*;

use crate::style::Style;

verus! {

/// A run of text rendered with a single [`Style`].
///
/// Text is carried as UTF-8 bytes; every byte the renderer itself produces is
/// ASCII, while path segments and messages pass through unchanged.
#[derive(Debug, PartialEq, Eq)]
pub struct Span {
    /// The bytes of the text.
    pub text: Vec<u8>,
    /// The style the whole run is displayed with.
    pub style: Style,
}

/// The mathematical model of a [`Span`]: its text as a byte sequence and its
/// style.
#[verifier::ext_equal]
pub struct SpanModel {
    /// The text bytes.
    pub text: Seq<u8>,
    /// The style.
    pub style: Style,
}

impl View for Span {
    type V = SpanModel;

    open spec fn view(&self) -> SpanModel {
        SpanModel { text: self.text@, style: self.style }
    }
}

impl DeepView for Span {
    type V = SpanModel;

    open spec fn deep_view(&self) -> SpanModel {
        self@
    }
}

/// The model of a span holding `text` styled `style`.
pub open spec fn span(text: Seq<u8>, style: Style) -> SpanModel {
    SpanModel { text, style }
}

/// Appends a span made of `text` and `style` to `out`.
pub fn push_span(out: &mut Vec<Span>, text: Vec<u8>, style: Style)
    ensures
        final(out).deep_view() == old(out).deep_view() + seq![span(text@, style)],
{
    let ghost old_view = out.deep_view();
    out.push(Span { text, style });
    proof {
        assert(out.deep_view() =~~= old_view + seq![span(out@[out@.len() - 1].text@, style)]);
    }
}

/// Appends a single-byte span to `out`.
pub fn push_byte_span(out: &mut Vec<Span>, byte: u8, style: Style)
    ensures
        final(out).deep_view() == old(out).deep_view() + seq![span(seq![byte], style)],
{
    let mut text: Vec<u8> = Vec::new();
    text.push(byte);
    assert(text@ =~= seq![byte]);
    push_span(out, text, style);
}

/// Appends all of `more` to `out`, leaving `more` empty.
pub fn append_spans(out: &mut Vec<Span>, more: &mut Vec<Span>)
    ensures
        final(out).deep_view() == old(out).deep_view() + old(more).deep_view(),
        final(more).deep_view() == Seq::<SpanModel>::empty(),
{
    let ghost old_out = out.deep_view();
    let ghost old_more = more.deep_view();
    out.append(more);
    proof {
        assert(out.deep_view() =~~= old_out + old_more);
        assert(more.deep_view() =~~= Seq::<SpanModel>::empty());
    }
}

/// Appends the bytes of `src[from..to]` to `v`.
pub fn push_range(v: &mut Vec<u8>, src: &[u8], from: usize, to: usize)
    requires
        from <= to <= src@.len(),
    ensures
        final(v)@ == old(v)@ + src@.subrange(from as int, to as int),
{
    let ghost old_view = v@;
    let mut i = from;
    while i < to
        invariant
            from <= i <= to <= src@.len(),
            v@ == old_view + src@.subrange(from as int, i as int),
        decreases to - i,
    {
        let b = src[i];
        v.push(b);
        proof {
            assert(v@ =~= old_view + src@.subrange(from as int, i + 1));
        }
        i += 1;
    }
}

/// The bytes of `src[from..to]` as a fresh vector.
pub fn copy_range(src: &[u8], from: usize, to: usize) -> (v: Vec<u8>)
    requires
        from <= to <= src@.len(),
    ensures
        v@ == src@.subrange(from as int, to as int),
{
    let mut v: Vec<u8> = Vec::new();
    push_range(&mut v, src, from, to);
    assert(v@ =~= src@.subrange(from as int, to as int));
    v
}

} // verus!
