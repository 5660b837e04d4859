//! Audio is fire-and-forget presentation plumbing: it never blocks and never
//! touches the session. A desktop front end with a system beeper supplies
//! its own cues; the portable build of the game plays nothing, and these are
//! its hooks.

use vstd::prelude::*;

verus! {

/// Sound cue hook: the portable build has no system beeper and plays nothing.
pub fn beep(_freq: u32, _dur: u32) {
}

/// Pause hook between the notes of a cue: nothing to pace without a beeper.
pub fn sleep_ms(_ms: u32) {
}

} // verus!
