//! An elapsed-time logging helper: a timer that composes a start line when
//! created and elapsed-time lines afterwards, each handed back to the caller
//! to forward to the logging facade at the stored level, together with the
//! duration formatter those lines embed.

use vstd::prelude::*;
use vstd::string::StringSliceAdditionalSpecFns;

use crate::span::push_range;
use crate::style::Level;
use crate::time::digit_byte;

verus! {

#[verifier::external_type_specification]
#[verifier::external_body]
/// std's opaque monotonic-clock reading.
pub struct ExInstant(std::time::Instant);

/// Relies on std's `Instant::now`: an opaque reading of the monotonic clock.
#[verifier::external_body]
fn instant_now() -> std::time::Instant {
    std::time::Instant::now()
}

/// Relies on std's `Instant::elapsed`: the time since `start`, which depends
/// on when the call happens, so nothing is assumed of it.
#[verifier::external_body]
fn instant_elapsed(start: &std::time::Instant) -> std::time::Duration {
    start.elapsed()
}

/// Relies on std's `Duration::as_nanos`: the total number of nanoseconds in
/// the duration; the duration itself is opaque, so nothing is assumed of the
/// value.
#[verifier::external_body]
fn duration_nanos(d: &std::time::Duration) -> u128 {
    d.as_nanos()
}

/// The decimal digits of `n`, most significant first, without leading zeros
/// (just `0` for zero).
pub open spec fn dec_digits(n: nat) -> Seq<u8>
    decreases n,
{
    if n < 10 {
        seq![digit_byte(n as int)]
    } else {
        dec_digits(n / 10) + seq![digit_byte((n % 10) as int)]
    }
}

/// `n` (below 100) as exactly two decimal digits, zero-padded.
pub open spec fn padded2(n: nat) -> Seq<u8>
    recommends
        n < 100,
{
    if n < 10 {
        seq![('0' as u8)] + dec_digits(n)
    } else {
        dec_digits(n)
    }
}

/// `n` (below 1000) as exactly three decimal digits, zero-padded.
pub open spec fn padded3(n: nat) -> Seq<u8>
    recommends
        n < 1000,
{
    if n < 10 {
        seq![('0' as u8), ('0' as u8)] + dec_digits(n)
    } else if n < 100 {
        seq![('0' as u8)] + dec_digits(n)
    } else {
        dec_digits(n)
    }
}

/// The `µs` unit: the micro sign's two UTF-8 bytes, then `s`.
pub open spec fn micro_unit() -> Seq<u8> {
    seq![194u8, 181u8, ('s' as u8)]
}

/// A duration of `total` nanoseconds rendered at the coarsest unit it
/// reaches, with three-digit groups of the finer fields: `{n}ns`,
/// `{u}.{nnn}µs`, `{m}.{uuu}_{nnn}ms`, `{s}.{mmm}_{uuu}_{nnn}s`,
/// `{m}:{ss}.{...}`, `{h}:{mm}:{ss}.{...}` or `{d}d{hh}:{mm}:{ss}.{...}`.
pub open spec fn duration_text(total: nat) -> Seq<u8> {
    let ns = total % 1000;
    let us_all = total / 1000;
    let us = us_all % 1000;
    let ms_all = us_all / 1000;
    let ms = ms_all % 1000;
    let s_all = ms_all / 1000;
    let sec = s_all % 60;
    let min_all = s_all / 60;
    let min = min_all % 60;
    let hr_all = min_all / 60;
    let hr = hr_all % 24;
    let day = hr_all / 24;
    if us_all == 0 {
        dec_digits(ns) + seq![('n' as u8), ('s' as u8)]
    } else if ms_all == 0 {
        dec_digits(us) + seq![('.' as u8)] + padded3(ns) + micro_unit()
    } else if s_all == 0 {
        dec_digits(ms) + seq![('.' as u8)] + padded3(us) + seq![('_' as u8)] + padded3(ns) + seq![
            ('m' as u8),
            ('s' as u8),
        ]
    } else if min_all == 0 {
        dec_digits(sec) + seq![('.' as u8)] + padded3(ms) + seq![('_' as u8)] + padded3(us) + seq![
            ('_' as u8),
        ] + padded3(ns) + seq![('s' as u8)]
    } else if hr_all == 0 {
        dec_digits(min) + seq![(':' as u8)] + padded2(sec) + seq![('.' as u8)] + padded3(ms)
            + seq![('_' as u8)] + padded3(us) + seq![('_' as u8)] + padded3(ns)
    } else if day == 0 {
        dec_digits(hr) + seq![(':' as u8)] + padded2(min) + seq![(':' as u8)] + padded2(sec)
            + seq![('.' as u8)] + padded3(ms) + seq![('_' as u8)] + padded3(us) + seq![('_' as u8)]
            + padded3(ns)
    } else {
        dec_digits(day) + seq![('d' as u8)] + padded2(hr) + seq![(':' as u8)] + padded2(min)
            + seq![(':' as u8)] + padded2(sec) + seq![('.' as u8)] + padded3(ms) + seq![('_' as u8)]
            + padded3(us) + seq![('_' as u8)] + padded3(ns)
    }
}

/// Appends the decimal digits of `n`.
fn push_decimal(v: &mut Vec<u8>, n: u128)
    ensures
        final(v)@ == old(v)@ + dec_digits(n as nat),
    decreases n,
{
    if n >= 10 {
        push_decimal(v, n / 10);
    }
    v.push(48 + (n % 10) as u8);
    proof {
        assert(v@ =~= old(v)@ + dec_digits(n as nat));
    }
}

/// Appends `n < 100` as two zero-padded decimal digits.
fn push_padded2(v: &mut Vec<u8>, n: u128)
    requires
        n < 100,
    ensures
        final(v)@ == old(v)@ + padded2(n as nat),
{
    if n < 10 {
        v.push('0' as u8);
    }
    push_decimal(v, n);
    proof {
        assert(v@ =~= old(v)@ + padded2(n as nat));
    }
}

/// Appends `n < 1000` as three zero-padded decimal digits.
fn push_padded3(v: &mut Vec<u8>, n: u128)
    requires
        n < 1000,
    ensures
        final(v)@ == old(v)@ + padded3(n as nat),
{
    if n < 10 {
        v.push('0' as u8);
        v.push('0' as u8);
    } else if n < 100 {
        v.push('0' as u8);
    }
    push_decimal(v, n);
    proof {
        assert(v@ =~= old(v)@ + padded3(n as nat));
    }
}

/// Renders a duration of `ns_total` nanoseconds human-readably, at the
/// coarsest unit it reaches.
pub fn format_duration(ns_total: u128) -> (v: Vec<u8>)
    ensures
        v@ == duration_text(ns_total as nat),
{
    let mut v: Vec<u8> = Vec::new();
    let ns = ns_total % 1000;
    let us_all = ns_total / 1000;
    let us = us_all % 1000;
    let ms_all = us_all / 1000;
    let ms = ms_all % 1000;
    let s_all = ms_all / 1000;
    let sec = s_all % 60;
    let min_all = s_all / 60;
    let min = min_all % 60;
    let hr_all = min_all / 60;
    let hr = hr_all % 24;
    let day = hr_all / 24;
    if us_all == 0 {
        push_decimal(&mut v, ns);
        v.push('n' as u8);
        v.push('s' as u8);
    } else if ms_all == 0 {
        push_decimal(&mut v, us);
        v.push('.' as u8);
        push_padded3(&mut v, ns);
        v.push(194);
        v.push(181);
        v.push('s' as u8);
    } else if s_all == 0 {
        push_decimal(&mut v, ms);
        v.push('.' as u8);
        push_padded3(&mut v, us);
        v.push('_' as u8);
        push_padded3(&mut v, ns);
        v.push('m' as u8);
        v.push('s' as u8);
    } else if min_all == 0 {
        push_decimal(&mut v, sec);
        v.push('.' as u8);
        push_padded3(&mut v, ms);
        v.push('_' as u8);
        push_padded3(&mut v, us);
        v.push('_' as u8);
        push_padded3(&mut v, ns);
        v.push('s' as u8);
    } else if hr_all == 0 {
        push_decimal(&mut v, min);
        v.push(':' as u8);
        push_padded2(&mut v, sec);
        v.push('.' as u8);
        push_padded3(&mut v, ms);
        v.push('_' as u8);
        push_padded3(&mut v, us);
        v.push('_' as u8);
        push_padded3(&mut v, ns);
    } else if day == 0 {
        push_decimal(&mut v, hr);
        v.push(':' as u8);
        push_padded2(&mut v, min);
        v.push(':' as u8);
        push_padded2(&mut v, sec);
        v.push('.' as u8);
        push_padded3(&mut v, ms);
        v.push('_' as u8);
        push_padded3(&mut v, us);
        v.push('_' as u8);
        push_padded3(&mut v, ns);
    } else {
        push_decimal(&mut v, day);
        v.push('d' as u8);
        push_padded2(&mut v, hr);
        v.push(':' as u8);
        push_padded2(&mut v, min);
        v.push(':' as u8);
        push_padded2(&mut v, sec);
        v.push('.' as u8);
        push_padded3(&mut v, ms);
        v.push('_' as u8);
        push_padded3(&mut v, us);
        v.push('_' as u8);
        push_padded3(&mut v, ns);
    }
    proof {
        assert(v@ =~= duration_text(ns_total as nat));
    }
    v
}

/// A single space when `m` is non-empty, else nothing: the separator between
/// a bracketed prefix and a message.
pub open spec fn sep_bytes(m: Seq<u8>) -> Seq<u8> {
    if m.len() == 0 {
        seq![]
    } else {
        seq![(' ' as u8)]
    }
}

/// The separator between the stored message and an extra one: nothing when
/// both are empty, a space when exactly one is, `: ` when both are present.
pub open spec fn sep2_bytes(m: Seq<u8>, m2: Seq<u8>) -> Seq<u8> {
    if m.len() == 0 && m2.len() == 0 {
        seq![]
    } else if m.len() == 0 || m2.len() == 0 {
        seq![(' ' as u8)]
    } else {
        seq![(':' as u8), (' ' as u8)]
    }
}

/// The line a timer reports when it starts: `[start]`, then the message.
pub open spec fn start_message(m: Seq<u8>) -> Seq<u8> {
    seq![
        ('[' as u8),
        ('s' as u8),
        ('t' as u8),
        ('a' as u8),
        ('r' as u8),
        ('t' as u8),
        (']' as u8),
    ] + sep_bytes(m) + m
}

/// The line a timer reports when it finishes: the bracketed elapsed time of
/// `n` nanoseconds, then the message.
pub open spec fn elapsed_message(n: nat, m: Seq<u8>) -> Seq<u8> {
    seq![('[' as u8)] + duration_text(n) + seq![(']' as u8)] + sep_bytes(m) + m
}

/// An intermediate report: the bracketed elapsed time, the stored message,
/// and an extra message.
pub open spec fn elapsed_message2(n: nat, m: Seq<u8>, m2: Seq<u8>) -> Seq<u8> {
    elapsed_message(n, m) + sep2_bytes(m, m2) + m2
}

/// The separator written between a bracketed prefix and `msg`: a space,
/// unless `msg` is empty.
pub fn sep(msg: &str) -> (r: &str)
    ensures
        msg@.len() == 0 ==> r@.len() == 0,
        msg@.len() > 0 ==> r@ == " "@,
{
    proof {
        reveal_strlit("");
    }
    if msg.is_empty() {
        ""
    } else {
        " "
    }
}

/// The separator written between `msg` and `msg2`: nothing when both are
/// empty, a space when exactly one is, a colon and a space otherwise.
pub fn sep2(msg: &str, msg2: &str) -> (r: &'static str)
    ensures
        msg@.len() == 0 && msg2@.len() == 0 ==> r@.len() == 0,
        (msg@.len() == 0) != (msg2@.len() == 0) ==> r@ == " "@,
        msg@.len() > 0 && msg2@.len() > 0 ==> r@ == ": "@,
{
    proof {
        reveal_strlit("");
    }
    if msg.is_empty() && msg2.is_empty() {
        ""
    } else if msg.is_empty() || msg2.is_empty() {
        " "
    } else {
        ": "
    }
}

/// An elapsed-time logging helper.
///
/// Creating one composes a `[start]` line; [`Timer::log_at`] and its
/// convenience variants compose elapsed-time lines. Each composed line is
/// returned to the caller, which forwards it to the logging facade at the
/// indicated level (the facade dispatches through macros, which verified
/// code cannot call).
pub struct Timer<'a> {
    /// Base time to measure against.
    pub start: std::time::Instant,
    /// Message embedded in every line the timer composes.
    pub msg: &'a str,
    /// Level the caller logs the timer's lines at.
    pub level: Level,
}

impl<'a> Timer<'a> {
    /// Creates a timer measuring from now and returns it with its `[start]`
    /// line, to be logged at the given level.
    pub fn new(level: Level, msg: &'a str) -> (r: (Timer<'a>, Vec<u8>))
        ensures
            r.0.level == level,
            r.0.msg@ == msg@,
            r.1@ == start_message(msg.spec_bytes()),
    {
        let mut v: Vec<u8> = Vec::new();
        v.push('[' as u8);
        v.push('s' as u8);
        v.push('t' as u8);
        v.push('a' as u8);
        v.push('r' as u8);
        v.push('t' as u8);
        v.push(']' as u8);
        let mb = msg.as_bytes();
        if mb.len() > 0 {
            v.push(' ' as u8);
        }
        push_range(&mut v, mb, 0, mb.len());
        proof {
            assert(mb@.subrange(0, mb@.len() as int) =~= mb@);
            assert(v@ =~= start_message(msg.spec_bytes()));
        }
        (Timer { start: instant_now(), msg, level }, v)
    }

    /// [`Timer::new`] at [`Level::Trace`].
    pub fn trace(msg: &'a str) -> (r: (Timer<'a>, Vec<u8>))
        ensures
            r.0.level == Level::Trace,
            r.0.msg@ == msg@,
            r.1@ == start_message(msg.spec_bytes()),
    {
        Timer::new(Level::Trace, msg)
    }

    /// [`Timer::new`] at [`Level::Debug`].
    pub fn debug(msg: &'a str) -> (r: (Timer<'a>, Vec<u8>))
        ensures
            r.0.level == Level::Debug,
            r.0.msg@ == msg@,
            r.1@ == start_message(msg.spec_bytes()),
    {
        Timer::new(Level::Debug, msg)
    }

    /// [`Timer::new`] at [`Level::Info`].
    pub fn info(msg: &'a str) -> (r: (Timer<'a>, Vec<u8>))
        ensures
            r.0.level == Level::Info,
            r.0.msg@ == msg@,
            r.1@ == start_message(msg.spec_bytes()),
    {
        Timer::new(Level::Info, msg)
    }

    /// [`Timer::new`] at [`Level::Warn`].
    pub fn warn(msg: &'a str) -> (r: (Timer<'a>, Vec<u8>))
        ensures
            r.0.level == Level::Warn,
            r.0.msg@ == msg@,
            r.1@ == start_message(msg.spec_bytes()),
    {
        Timer::new(Level::Warn, msg)
    }

    /// [`Timer::new`] at [`Level::Error`].
    pub fn error(msg: &'a str) -> (r: (Timer<'a>, Vec<u8>))
        ensures
            r.0.level == Level::Error,
            r.0.msg@ == msg@,
            r.1@ == start_message(msg.spec_bytes()),
    {
        Timer::new(Level::Error, msg)
    }

    /// Composes an elapsed-time line holding the stored message and the
    /// extra `msg2`, to be logged at the given level (the elapsed duration
    /// is whatever the clock reports).
    pub fn log_at(&self, level: Level, msg2: &str) -> (line: Vec<u8>)
        ensures
            exists|n: nat|
                line@ == elapsed_message2(n, self.msg.spec_bytes(), msg2.spec_bytes()),
    {
        let d = instant_elapsed(&self.start);
        let n = duration_nanos(&d);
        let mut v: Vec<u8> = Vec::new();
        v.push('[' as u8);
        let mut dt = format_duration(n);
        v.append(&mut dt);
        v.push(']' as u8);
        let mb = self.msg.as_bytes();
        if mb.len() > 0 {
            v.push(' ' as u8);
        }
        push_range(&mut v, mb, 0, mb.len());
        let m2 = msg2.as_bytes();
        if mb.len() == 0 && m2.len() == 0 {
        } else if mb.len() == 0 || m2.len() == 0 {
            v.push(' ' as u8);
        } else {
            v.push(':' as u8);
            v.push(' ' as u8);
        }
        push_range(&mut v, m2, 0, m2.len());
        proof {
            assert(mb@.subrange(0, mb@.len() as int) =~= mb@);
            assert(m2@.subrange(0, m2@.len() as int) =~= m2@);
            assert(v@ =~= elapsed_message2(
                n as nat,
                self.msg.spec_bytes(),
                msg2.spec_bytes(),
            ));
        }
        v
    }

    /// [`Timer::log_at`] at the stored level.
    pub fn log(&self, msg2: &str) -> (line: Vec<u8>)
        ensures
            exists|n: nat|
                line@ == elapsed_message2(n, self.msg.spec_bytes(), msg2.spec_bytes()),
    {
        self.log_at(self.level, msg2)
    }

    /// [`Timer::log_at`] at [`Level::Trace`].
    pub fn log_trace(&self, msg2: &str) -> (line: Vec<u8>)
        ensures
            exists|n: nat|
                line@ == elapsed_message2(n, self.msg.spec_bytes(), msg2.spec_bytes()),
    {
        self.log_at(Level::Trace, msg2)
    }

    /// [`Timer::log_at`] at [`Level::Debug`].
    pub fn log_debug(&self, msg2: &str) -> (line: Vec<u8>)
        ensures
            exists|n: nat|
                line@ == elapsed_message2(n, self.msg.spec_bytes(), msg2.spec_bytes()),
    {
        self.log_at(Level::Debug, msg2)
    }

    /// [`Timer::log_at`] at [`Level::Info`].
    pub fn log_info(&self, msg2: &str) -> (line: Vec<u8>)
        ensures
            exists|n: nat|
                line@ == elapsed_message2(n, self.msg.spec_bytes(), msg2.spec_bytes()),
    {
        self.log_at(Level::Info, msg2)
    }

    /// [`Timer::log_at`] at [`Level::Warn`].
    pub fn log_warn(&self, msg2: &str) -> (line: Vec<u8>)
        ensures
            exists|n: nat|
                line@ == elapsed_message2(n, self.msg.spec_bytes(), msg2.spec_bytes()),
    {
        self.log_at(Level::Warn, msg2)
    }

    /// [`Timer::log_at`] at [`Level::Error`].
    pub fn log_error(&self, msg2: &str) -> (line: Vec<u8>)
        ensures
            exists|n: nat|
                line@ == elapsed_message2(n, self.msg.spec_bytes(), msg2.spec_bytes()),
    {
        self.log_at(Level::Error, msg2)
    }

    /// Composes the final elapsed-time line with the stored message, to be
    /// logged at the stored level when the timer is dropped.
    pub fn finish(&self) -> (line: Vec<u8>)
        ensures
            exists|n: nat| line@ == elapsed_message(n, self.msg.spec_bytes()),
    {
        let d = instant_elapsed(&self.start);
        let n = duration_nanos(&d);
        let mut v: Vec<u8> = Vec::new();
        v.push('[' as u8);
        let mut dt = format_duration(n);
        v.append(&mut dt);
        v.push(']' as u8);
        let mb = self.msg.as_bytes();
        if mb.len() > 0 {
            v.push(' ' as u8);
        }
        push_range(&mut v, mb, 0, mb.len());
        proof {
            assert(mb@.subrange(0, mb@.len() as int) =~= mb@);
            assert(v@ =~= elapsed_message(n as nat, self.msg.spec_bytes()));
        }
        v
    }
}

} // verus!
