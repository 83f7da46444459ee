//! Console log-line rendering utilities: a timestamp-diff highlighter, a
//! hierarchical source-path abbreviator, a level-to-style palette, and an
//! elapsed-time logging helper.
//!
//! The rendering engine is pure: each call composes a sequence of styled text
//! spans from the record and a shared [`state::RenderState`]; writing those
//! spans to a terminal sink is left to the caller.

pub mod record;
pub mod span;
pub mod state;
pub mod style;
pub mod target;
pub mod time;
pub mod timer;

pub use timer::format_duration;
pub use timer::Timer;
