//! Errors returned while applying motion binding states.

use vstd::prelude::*;

use crate::runtime::error::MotionError;

verus! {

/// Failure while resolving or applying a motion binding state.
#[derive(Debug, Clone, PartialEq, Eq)]
pub enum MotionBindingError<S> {
    /// No target value is configured for the state.
    MissingTarget(S),
    /// Neither an exact transition nor a fallback is configured for the pair.
    MissingTransition {
        /// State the motion is leaving.
        from: S,
        /// State being applied.
        to: S,
    },
    /// The runtime rejected the motion.
    Motion(MotionError),
}

impl<S> From<MotionError> for MotionBindingError<S> {
    fn from(error: MotionError) -> (r: Self) {
        MotionBindingError::Motion(error)
    }
}

impl<S> vstd::std_specs::convert::FromSpecImpl<MotionError> for MotionBindingError<S> {
    open spec fn obeys_from_spec() -> bool {
        true
    }

    open spec fn from_spec(error: MotionError) -> Self {
        MotionBindingError::Motion(error)
    }
}

} // verus!
