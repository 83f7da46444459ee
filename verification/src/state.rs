//! The shared state that rendering reads and updates across calls: the last
//! rendered timestamp and timezone offset, and the widest source-path
//! rendering seen so far.

use vstd::prelude::*;

verus! {

/// The timezone-offset value stored before any record has been rendered.
///
/// One second east of UTC is not an offset any real timezone uses, so it is
/// reserved as the "no prior record" sentinel.
pub const UNINIT_OFFSET: i32 = 1;

/// State shared by every render call on one output stream.
///
/// One instance per stream: renders diff against the previous record of the
/// same stream, and independent streams do not interfere.
#[derive(Clone, Copy, Debug, PartialEq, Eq, Structural)]
pub struct RenderState {
    /// Nanoseconds since the Unix epoch of the most recently rendered
    /// record's timestamp; zero before the first record, so that every digit
    /// of the first record compares as "moved forward".
    pub last_timestamp: i64,
    /// Timezone offset (signed seconds east of UTC) of the most recently
    /// rendered record, or [`UNINIT_OFFSET`] before the first one.
    pub last_offset: i32,
    /// The largest rendered width, in characters, of any source path seen so
    /// far; never decreases.
    pub max_target_width: usize,
}

impl RenderState {
    /// The state before any record has been rendered.
    pub fn new() -> (s: RenderState)
        ensures
            s == initial_state(),
    {
        RenderState { last_timestamp: 0, last_offset: UNINIT_OFFSET, max_target_width: 0 }
    }
}

/// The state a fresh [`RenderState`] holds.
pub open spec fn initial_state() -> RenderState {
    RenderState { last_timestamp: 0, last_offset: UNINIT_OFFSET, max_target_width: 0 }
}

} // verus!
