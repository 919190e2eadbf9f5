//! An interactive countdown timer library.
//!
//! The timer state machine, key handling, duration parsing and the textual
//! rendering are verified; terminal, audio and clock plumbing live outside.

use vstd::prelude::*;

pub mod app;
pub mod ext;
pub mod handler;
pub mod text;

verus! {

/// Milliseconds added to a restart's deadline so the countdown does not
/// re-trigger before the first tick after the restart is processed.
pub const RESTART_LEAD_MS: i64 = 1000;

} // verus!
