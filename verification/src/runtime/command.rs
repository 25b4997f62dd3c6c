//! Lifecycle commands sent to runtime-managed animations.

use vstd::prelude::*;

use crate::timing::Duration;

verus! {

/// A lifecycle command that can be sent to a runtime-managed animation.
#[derive(Debug, Clone, Copy, PartialEq, Eq, Structural)]
pub enum AnimationCommand {
    /// Pause a running animation.
    Pause,
    /// Resume a paused animation.
    Resume,
    /// Cancel an animation.
    Cancel,
    /// Move the playback position to the given time from the start.
    Seek(Duration),
    /// Move the animation to completion.
    Finish,
}

} // verus!
