//! Errors returned by typed motion handles and runtime operations.

use vstd::prelude::*;

verus! {

/// Failure while accessing or modifying a runtime-managed motion.
#[derive(Debug, Clone, PartialEq, Eq)]
pub enum MotionError {
    /// The handle references a slot that does not exist.
    SlotOutOfBounds {
        /// Referenced slot index.
        slot: usize,
    },
    /// The slot has been reused since this handle was created.
    StaleHandle {
        /// Referenced slot index.
        slot: usize,
        /// Generation stored in the handle.
        handle_generation: u64,
        /// Current generation stored in the runtime.
        actual_generation: u64,
    },
    /// The animation was removed from its slot.
    Removed {
        /// Referenced slot index.
        slot: usize,
    },
    /// The handle's value type does not match the animation in the slot.
    TypeMismatch {
        /// Type requested through the handle.
        expected: &'static str,
        /// Type currently stored in the slot.
        actual: &'static str,
    },
}

} // verus!
