//! How many times a timed animation repeats.

use vstd::prelude::*;

verus! {

/// The number of active iterations of a timed animation.
#[derive(Debug, Clone, Copy, PartialEq, Eq, Hash, Structural)]
pub enum IterationCount {
    /// Plays a fixed number of iterations.
    Finite(u32),
    /// Repeats without end.
    Infinite,
}

impl IterationCount {
    /// One iteration.
    pub fn once() -> (r: Self)
        ensures
            r == IterationCount::Finite(1),
    {
        IterationCount::Finite(1)
    }

    /// Repeats without end.
    pub fn infinite() -> (r: Self)
        ensures
            r == IterationCount::Infinite,
    {
        IterationCount::Infinite
    }

    /// A fixed number of iterations.
    pub fn finite(count: u32) -> (r: Self)
        ensures
            r == IterationCount::Finite(count),
    {
        IterationCount::Finite(count)
    }

    /// The iteration count when it is finite.
    pub open spec fn spec_finite_count(self) -> Option<u32> {
        match self {
            IterationCount::Finite(count) => Some(count),
            IterationCount::Infinite => None,
        }
    }

    /// Returns the iteration count when it is finite.
    pub fn finite_count(self) -> (r: Option<u32>)
        ensures
            r == self.spec_finite_count(),
    {
        match self {
            IterationCount::Finite(count) => Some(count),
            IterationCount::Infinite => None,
        }
    }
}

impl Default for IterationCount {
    fn default() -> (r: Self)
        ensures
            r == IterationCount::Finite(1),
    {
        IterationCount::Finite(1)
    }
}

impl From<u32> for IterationCount {
    fn from(count: u32) -> (r: Self) {
        IterationCount::Finite(count)
    }
}

impl vstd::std_specs::convert::FromSpecImpl<u32> for IterationCount {
    open spec fn obeys_from_spec() -> bool {
        true
    }

    open spec fn from_spec(count: u32) -> Self {
        IterationCount::Finite(count)
    }
}

} // verus!
