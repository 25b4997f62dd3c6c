//! Playback direction of repeated iterations.

use vstd::prelude::*;

verus! {

/// Playback direction applied to repeated iterations.
#[derive(Debug, Clone, Copy, PartialEq, Eq, Default, Structural)]
pub enum Direction {
    /// Play each iteration from start to end.
    #[default]
    Normal,
    /// Play each iteration from end to start.
    Reverse,
    /// Alternate forward and reverse iterations.
    Alternate,
    /// Alternate reverse and forward iterations.
    AlternateReverse,
}

impl Direction {
    /// Whether the iteration with index `iteration_index` plays from end to start.
    pub open spec fn spec_is_reversed_iteration(self, iteration_index: u32) -> bool {
        match self {
            Direction::Normal => false,
            Direction::Reverse => true,
            Direction::Alternate => iteration_index % 2 == 1,
            Direction::AlternateReverse => iteration_index % 2 == 0,
        }
    }

    /// Returns whether the iteration with index `iteration_index` plays from end to start.
    pub fn is_reversed_iteration(self, iteration_index: u32) -> (r: bool)
        ensures
            r == self.spec_is_reversed_iteration(iteration_index),
    {
        match self {
            Direction::Normal => false,
            Direction::Reverse => true,
            Direction::Alternate => iteration_index % 2 == 1,
            Direction::AlternateReverse => iteration_index % 2 == 0,
        }
    }

    /// Whether the last of `iteration_count` iterations ends at the start value.
    pub open spec fn spec_ends_reversed(self, iteration_count: u32) -> bool {
        self.spec_is_reversed_iteration(if iteration_count == 0 {
            0
        } else {
            (iteration_count - 1) as u32
        })
    }

    /// Returns whether the last of `iteration_count` iterations plays from end to start,
    /// so that a completed animation rests at its start value.
    pub fn ends_reversed(self, iteration_count: u32) -> (r: bool)
        ensures
            r == self.spec_ends_reversed(iteration_count),
    {
        let last_iteration = iteration_count.saturating_sub(1);
        self.is_reversed_iteration(last_iteration)
    }

    /// Alternating directions flip on every iteration; fixed directions never do.
    pub proof fn lemma_alternation(self, i: u32)
        requires
            i < u32::MAX,
        ensures
            (self == Direction::Alternate || self == Direction::AlternateReverse)
                ==> self.spec_is_reversed_iteration(i) != self.spec_is_reversed_iteration(
                (i + 1) as u32,
            ),
            (self == Direction::Normal || self == Direction::Reverse)
                ==> self.spec_is_reversed_iteration(i) == self.spec_is_reversed_iteration(
                (i + 1) as u32,
            ),
    {
    }
}

} // verus!
