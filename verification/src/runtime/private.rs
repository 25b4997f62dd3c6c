use vstd::prelude::*;

use crate::runtime::event::{MotionId, PlaybackId};
use crate::runtime::motion::Motion;

verus! {

/// Restricts event targets to the runtime's own identifier types.
pub trait Sealed {
}

impl<T> Sealed for Motion<T> {
}

impl Sealed for MotionId {
}

impl Sealed for PlaybackId {
}

} // verus!
