//! Sequential, parallel, and fixed-duration animation composition.

pub mod hold;
pub mod parallel;
pub mod sequence;

pub use hold::Hold;
pub use parallel::{Compose, Parallel};
pub use sequence::Sequence;

use vstd::prelude::*;

verus! {

/// A sequential animation timeline.
pub type Timeline<T> = Sequence<T>;

} // verus!
