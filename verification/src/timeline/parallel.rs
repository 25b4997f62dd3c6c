//! Child animations played together, with their outputs composed into one value.

use vstd::prelude::*;

use crate::traits::{BoxAnimation, lemma_push_len};
use crate::timing::Duration;
use crate::timing::duration::MAX_NANOS;
use crate::traits::{Animation, AnimationState};
use crate::traits::{lemma_position_at, moved_by, position_advanced, position_at, position_sought};

verus! {

/// Combines the current outputs of a parallel composition's children into one value.
///
/// Implementations must be deterministic: `compose` returns what `spec_compose`
/// gives for the same outputs.
pub trait Compose<T> {
    /// The value composed from `outputs`.
    spec fn spec_compose(&self, outputs: &Vec<T>) -> T;

    /// Composes the children's outputs, given in the order the children were added.
    fn compose(&self, outputs: &Vec<T>) -> (r: T)
        ensures
            r == self.spec_compose(outputs),
    ;
}

/// The longest of the durations of `children`, when all are known.
pub open spec fn longest_duration<T>(children: Seq<BoxAnimation<T>>) -> Option<nat>
    decreases children.len(),
{
    if children.len() == 0 {
        Some(0)
    } else {
        match (longest_duration(children.drop_last()), children.last().0.spec_duration()) {
            (Some(longest), Some(d)) => Some(
                if longest >= d.spec_nanos() {
                    longest
                } else {
                    d.spec_nanos()
                },
            ),
            _ => None,
        }
    }
}

/// Runs child animations together and composes their output values.
#[verifier::reject_recursive_types(T)]
pub struct Parallel<T, C> {
    children: Vec<BoxAnimation<T>>,
    outputs: Vec<T>,
    current: T,
    compose: C,
    state: AnimationState,
    position: Ghost<nat>,
}

impl<T, C: Compose<T>> Parallel<T, C> {
    /// Every child has exactly one recorded output.
    pub closed spec fn wf(self) -> bool {
        self.outputs@.len() == self.children@.len()
    }

    /// The child animations in the order they were added.
    pub closed spec fn spec_children(self) -> Seq<BoxAnimation<T>> {
        self.children@
    }

    /// The last recorded output of each child.
    pub closed spec fn spec_outputs(self) -> Seq<T> {
        self.outputs@
    }

    /// The recorded outputs as handed to the compositor.
    pub closed spec fn spec_output_values(self) -> Vec<T> {
        self.outputs
    }

    /// The compositor that combines the children's outputs.
    pub closed spec fn spec_compositor(self) -> C {
        self.compose
    }

    /// The value that the compositor makes of `outputs`.
    pub open spec fn spec_composed(self, outputs: Vec<T>) -> T {
        self.spec_compositor().spec_compose(&outputs)
    }
}

impl<T: Clone, C: Compose<T>> Parallel<T, C> {
    /// Every recorded output is a clone of its child's current value.
    pub open spec fn outputs_follow_children(self) -> bool {
        forall|i: int|
            0 <= i < self.spec_children().len() ==> cloned(
                #[trigger] self.spec_children()[i].0.spec_value(),
                self.spec_outputs()[i],
            )
    }

    /// Creates an empty, idle parallel animation with an output compositor.
    pub fn new(initial: T, compose: C) -> (r: Self)
        ensures
            r.wf(),
            r.spec_children().len() == 0,
            r.spec_outputs().len() == 0,
            r.spec_state() == AnimationState::Idle,
            r.spec_value() == initial,
            r.spec_compositor() == compose,
    {
        Parallel {
            children: Vec::new(),
            outputs: Vec::new(),
            current: initial,
            compose,
            state: AnimationState::Idle,
            position: Ghost(0),
        }
    }

    /// Appends an animation, recording its current value as its output; the
    /// composition then runs.
    pub fn push(&mut self, animation: Box<dyn Animation<T>>)
        requires
            old(self).wf(),
        ensures
            final(self).wf(),
            final(self).spec_children() == old(self).spec_children().push(BoxAnimation(animation)),
            final(self).spec_outputs().drop_last() == old(self).spec_outputs(),
            cloned(animation.spec_value(), final(self).spec_outputs().last()),
            final(self).spec_state() == AnimationState::Running,
            final(self).spec_value() == old(self).spec_value(),
            final(self).spec_compositor() == old(self).spec_compositor(),
    {
        let output = animation.value().clone();
        self.outputs.push(output);
        self.children.push(BoxAnimation(animation));
        self.state = AnimationState::Running;
        proof {
            lemma_push_len(old(self).children@, BoxAnimation(animation));
            assert(self.outputs@.drop_last() =~= old(self).outputs@);
        }
    }

    /// Appends an animation and returns the updated parallel composition.
    pub fn with(self, animation: Box<dyn Animation<T>>) -> (r: Self)
        requires
            self.wf(),
        ensures
            r.wf(),
            r.spec_children() == self.spec_children().push(BoxAnimation(animation)),
            r.spec_outputs().drop_last() == self.spec_outputs(),
            cloned(animation.spec_value(), r.spec_outputs().last()),
            r.spec_state() == AnimationState::Running,
            r.spec_value() == self.spec_value(),
            r.spec_compositor() == self.spec_compositor(),
    {
        let mut parallel = self;
        let output = animation.value().clone();
        parallel.outputs.push(output);
        parallel.children.push(BoxAnimation(animation));
        parallel.state = AnimationState::Running;
        proof {
            lemma_push_len(self.children@, BoxAnimation(animation));
            assert(parallel.outputs@.drop_last() =~= self.outputs@);
        }
        parallel
    }

    /// Returns the number of child animations.
    pub fn len(&self) -> (r: usize)
        ensures
            r == self.spec_children().len(),
    {
        self.children.len()
    }

    /// Returns whether the composition contains no child animations.
    pub fn is_empty(&self) -> (r: bool)
        ensures
            r == (self.spec_children().len() == 0),
    {
        self.children.len() == 0
    }

    fn compose_outputs(&mut self)
        ensures
            final(self).spec_children() == old(self).spec_children(),
            final(self).spec_outputs() == old(self).spec_outputs(),
            final(self).spec_output_values() == old(self).spec_output_values(),
            final(self).spec_state() == old(self).spec_state(),
            final(self).compose == old(self).compose,
            final(self).spec_value() == if old(self).spec_outputs().len() == 0 {
                old(self).spec_value()
            } else {
                old(self).spec_composed(old(self).spec_output_values())
            },
    {
        if self.outputs.len() > 0 {
            self.current = self.compose.compose(&self.outputs);
        }
    }

    /// What advancing by `delta` does: `after` is the composition afterwards and
    /// `r` the time left over.
    pub open spec fn spec_advanced(self, after: Self, delta: Duration, r: Duration) -> bool {
        &&& (self.spec_state() != AnimationState::Running ==> after == self && r == delta)
        &&& (self.spec_state() == AnimationState::Running && self.spec_children().len() == 0
            ==> after.spec_state() == AnimationState::Completed && r == delta && after.spec_value()
            == self.spec_value() && after.wf() == self.wf())
        &&& (self.spec_state() == AnimationState::Running && self.spec_children().len() > 0
            && self.wf() ==> {
            &&& after.wf()
            &&& after.spec_children().len() == self.spec_children().len()
            &&& after.outputs_follow_children()
            &&& after.spec_value() == self.spec_composed(after.spec_output_values())
            &&& (after.spec_state() == AnimationState::Completed) == (forall|i: int|
                0 <= i < after.spec_children().len()
                    ==> #[trigger] after.spec_children()[i].0.spec_state()
                    == AnimationState::Completed)
            &&& after.spec_state() == AnimationState::Running || after.spec_state()
                == AnimationState::Completed
            &&& after.spec_state() == AnimationState::Running ==> r.spec_nanos() == 0
            &&& forall|j: int|
                0 <= j < self.spec_children().len() ==> moved_by(
                    self.spec_children()[j],
                    #[trigger] after.spec_children()[j],
                    delta,
                )
            &&& exists|lefts: Seq<Duration>|
                lefts.len() == self.spec_children().len() && (forall|j: int|
                    0 <= j < lefts.len() ==> child_advanced(
                        self.spec_children()[j],
                        after.spec_children()[j],
                        delta,
                        #[trigger] lefts[j],
                    )) && (after.spec_state() == AnimationState::Completed ==> is_least(r, lefts))
        })
        &&& (self.spec_state() == AnimationState::Running ==> position_advanced(
            self.spec_position().spec_nanos(),
            after.spec_position().spec_nanos(),
            delta.spec_nanos(),
            r.spec_nanos(),
            after.spec_state() == AnimationState::Running,
        ))
        &&& r.spec_nanos() <= delta.spec_nanos()
    }
}

/// What advancing a child by `delta` can give: `after`, with `left` of `delta`
/// not consumed, as [`Animation::advance`] promises.
pub open spec fn child_advanced<T>(before: BoxAnimation<T>, after: BoxAnimation<T>, delta: Duration, left: Duration) -> bool {
    &&& left.spec_nanos() <= delta.spec_nanos()
    &&& before.0.spec_state() != AnimationState::Running ==> {
        &&& after.0.spec_state() == before.0.spec_state()
        &&& after.0.spec_value() == before.0.spec_value()
        &&& after.0.spec_position() == before.0.spec_position()
    }
    &&& before.0.spec_state() == AnimationState::Running ==> position_advanced(
        before.0.spec_position().spec_nanos(),
        after.0.spec_position().spec_nanos(),
        delta.spec_nanos(),
        left.spec_nanos(),
        after.0.spec_state() == AnimationState::Running,
    )
}

/// Whether `least` is the shortest of `lefts`: no longer than any of them and
/// equal to one.
pub open spec fn is_least(least: Duration, lefts: Seq<Duration>) -> bool {
    &&& forall|j: int| 0 <= j < lefts.len() ==> least.spec_nanos() <= (#[trigger] lefts[j]).spec_nanos()
    &&& exists|j: int| 0 <= j < lefts.len() && least == #[trigger] lefts[j]
}

/// A child after it was paused: a running child pauses, any other keeps its
/// state, and its value stays.
pub open spec fn paused_child<T>(before: BoxAnimation<T>, after: BoxAnimation<T>) -> bool {
    &&& after.0.spec_state() == if before.0.spec_state() == AnimationState::Running {
        AnimationState::Paused
    } else {
        before.0.spec_state()
    }
    &&& after.0.spec_value() == before.0.spec_value()
}

/// A child after it was resumed: a paused child runs, any other keeps its
/// state, and its value stays.
pub open spec fn resumed_child<T>(before: BoxAnimation<T>, after: BoxAnimation<T>) -> bool {
    &&& after.0.spec_state() == if before.0.spec_state() == AnimationState::Paused {
        AnimationState::Running
    } else {
        before.0.spec_state()
    }
    &&& after.0.spec_value() == before.0.spec_value()
}

/// A child after it was canceled: an unfinished child is canceled, a settled
/// one keeps its state, and its value stays.
pub open spec fn canceled_child<T>(before: BoxAnimation<T>, after: BoxAnimation<T>) -> bool {
    &&& before.0.spec_state().is_unfinished() ==> after.0.spec_state() == AnimationState::Canceled
    &&& before.0.spec_state().is_settled() ==> after.0.spec_state() == before.0.spec_state()
    &&& after.0.spec_value() == before.0.spec_value()
}

impl<T: Clone, C: Compose<T>> Animation<T> for Parallel<T, C> {
    closed spec fn spec_state(&self) -> AnimationState {
        self.state
    }

    closed spec fn spec_value(&self) -> T {
        self.current
    }

    open spec fn spec_duration(&self) -> Option<Duration> {
        match longest_duration(self.spec_children()) {
            Some(n) => if n <= MAX_NANOS {
                Some(Duration::spec_from_nanos(n))
            } else {
                None
            },
            None => None,
        }
    }

    /// The time played: what advancing consumed, or where seeking landed.
    closed spec fn spec_position(&self) -> Duration {
        position_at(self.position@)
    }

    fn value(&self) -> (r: &T) {
        &self.current
    }

    fn state(&self) -> (r: AnimationState) {
        self.state
    }

    /// The longest of the children's durations; `None` when one is unknown.
    fn duration(&self) -> (r: Option<Duration>) {
        let mut longest = Duration::zero();
        let mut i: usize = 0;
        proof {
            assert(self.children@.subrange(0, 0) =~= Seq::<BoxAnimation<T>>::empty());
        }
        while i < self.children.len()
            invariant
                i <= self.children.len(),
                longest_duration(self.children@.subrange(0, i as int)) == Some(longest.spec_nanos()),
            decreases self.children.len() - i,
        {
            proof {
                assert(self.children@.subrange(0, i + 1).drop_last() =~= self.children@.subrange(0, i as int));
                assert(self.children@.subrange(0, i + 1).last() == self.children@[i as int]);
            }
            match self.children[i].0.duration() {
                Some(d) => {
                    longest = longest.max(d);
                },
                None => {
                    proof {
                        lemma_longest_none(self.children@, i as int + 1);
                    }
                    return None;
                },
            }
            i = i + 1;
        }
        proof {
            assert(self.children@.subrange(0, self.children@.len() as int) =~= self.children@);
            use_type_invariant(&longest);
            Duration::lemma_from_nanos(longest.spec_nanos());
            Duration::lemma_eq(longest, Duration::spec_from_nanos(longest.spec_nanos()));
        }
        Some(longest)
    }

    fn is_active(&self) -> (r: bool) {
        match self.state {
            AnimationState::Running => true,
            _ => false,
        }
    }

    /// Advances as [`Animation::advance`] does, discarding the time left over.
    fn tick(&mut self, delta: Duration)
        ensures
            exists|r: Duration| #[trigger] old(self).spec_advanced(*final(self), delta, r),
    {
        let _ = self.advance(delta);
    }

    /// Advances every child by `delta`. The composition completes when every
    /// child has completed, and then returns the least time left over by a child.
    fn advance(&mut self, delta: Duration) -> (r: Duration)
        ensures
            old(self).spec_advanced(*final(self), delta, r),
    {
        if self.state != AnimationState::Running {
            return delta;
        }
        proof {
            lemma_position_at(old(self).position@);
            lemma_position_at(old(self).position@ + delta.spec_nanos());
        }
        let n = self.children.len();
        if n == 0 {
            self.state = AnimationState::Completed;
            return delta;
        }
        if self.outputs.len() != n {
            self.position = Ghost(old(self).position@ + delta.spec_nanos());
            return Duration::zero();
        }
        let mut overflow = delta;
        let mut completed = true;
        let mut i: usize = 0;
        let ghost mut lefts: Seq<Duration> = Seq::empty();
        while i < n
            invariant
                n == self.children@.len(),
                n == self.outputs@.len(),
                i <= n,
                lefts.len() == i,
                forall|j: int|
                    0 <= j < i ==> child_advanced(
                        old(self).children@[j],
                        self.children@[j],
                        delta,
                        #[trigger] lefts[j],
                    ),
                i == 0 ==> overflow == delta,
                i > 0 ==> is_least(overflow, lefts),
                self.compose == old(self).compose,
                self.state == AnimationState::Running,
                overflow.spec_nanos() <= delta.spec_nanos(),
                forall|j: int|
                    0 <= j < i ==> cloned(
                        #[trigger] self.children@[j].0.spec_value(),
                        self.outputs@[j],
                    ),
                completed == (forall|j: int|
                    0 <= j < i ==> #[trigger] self.children@[j].0.spec_state()
                        == AnimationState::Completed),
                forall|j: int|
                    0 <= j < i ==> moved_by(old(self).children@[j], #[trigger] self.children@[j], delta),
                forall|j: int| i <= j < n ==> #[trigger] self.children@[j] == old(self).children@[j],
            decreases n - i,
        {
            let ghost before = self.children@;
            let child_overflow = self.children[i].0.advance(delta);
            let ghost lefts_before = lefts;
            let ghost overflow_before = overflow;
            overflow = overflow.min(child_overflow);
            proof {
                lefts = lefts.push(child_overflow);
                assert(lefts[i as int] == child_overflow);
                assert forall|j: int| 0 <= j < i implies lefts[j] == lefts_before[j] by {}
                if i > 0 {
                    let k = choose|k: int| 0 <= k < lefts_before.len() && overflow_before == #[trigger] lefts_before[k];
                    if overflow == overflow_before {
                        assert(lefts[k] == overflow);
                    } else {
                        assert(lefts[i as int] == overflow);
                    }
                } else {
                    Duration::lemma_eq(overflow_before, child_overflow);
                    assert(lefts[0] == overflow);
                }
            }
            let output = self.children[i].0.value().clone();
            self.outputs.set(i, output);
            let child_completed = match self.children[i].0.state() {
                AnimationState::Completed => true,
                _ => false,
            };
            proof {
                if completed && child_completed {
                    assert forall|j: int| 0 <= j < i + 1 implies #[trigger] self.children@[j].0.spec_state()
                        == AnimationState::Completed by {
                        if j < i {
                            assert(self.children@[j].0.spec_state() == AnimationState::Completed);
                        }
                    }
                }
                if !child_completed {
                    assert(self.children@[i as int].0.spec_state() != AnimationState::Completed);
                }
                if !completed {
                    let j0 = choose|j: int|
                        0 <= j < i && #[trigger] before[j].0.spec_state() != AnimationState::Completed;
                    assert(self.children@[j0] == before[j0]);
                    assert(self.children@[j0].0.spec_state() != AnimationState::Completed);
                }
            }
            completed = completed && child_completed;
            i = i + 1;
        }
        self.compose_outputs();
        if completed {
            self.state = AnimationState::Completed;
            self.position = Ghost((old(self).position@ + delta.spec_nanos() - overflow.spec_nanos()) as nat);
            proof {
                lemma_position_at(self.position@);
            }
            overflow
        } else {
            self.position = Ghost(old(self).position@ + delta.spec_nanos());
            Duration::zero()
        }
    }

    fn pause(&mut self)
        ensures
            final(self).spec_state() == if old(self).spec_state() == AnimationState::Running {
                AnimationState::Paused
            } else {
                old(self).spec_state()
            },
            final(self).spec_value() == old(self).spec_value(),
            final(self).spec_outputs() == old(self).spec_outputs(),
            final(self).spec_children().len() == old(self).spec_children().len(),
            final(self).wf() == old(self).wf(),
            old(self).spec_state() == AnimationState::Running ==> forall|j: int|
                0 <= j < old(self).spec_children().len() ==> paused_child(
                    old(self).spec_children()[j],
                    #[trigger] final(self).spec_children()[j],
                ),
    {
        if self.state == AnimationState::Running {
            let n = self.children.len();
            let mut i: usize = 0;
            while i < n
                invariant
                    n == self.children@.len(),
                    i <= n,
                    self.outputs == old(self).outputs,
                    self.current == old(self).current,
                    self.position == old(self).position,
                    forall|j: int| 0 <= j < i ==> paused_child(old(self).children@[j], #[trigger] self.children@[j]),
                    forall|j: int| i <= j < n ==> #[trigger] self.children@[j] == old(self).children@[j],
                decreases n - i,
            {
                self.children[i].0.pause();
                i = i + 1;
            }
            self.state = AnimationState::Paused;
        }
    }

    fn resume(&mut self)
        ensures
            final(self).spec_state() == if old(self).spec_state() == AnimationState::Paused {
                AnimationState::Running
            } else {
                old(self).spec_state()
            },
            final(self).spec_value() == old(self).spec_value(),
            final(self).spec_outputs() == old(self).spec_outputs(),
            final(self).spec_children().len() == old(self).spec_children().len(),
            final(self).wf() == old(self).wf(),
            old(self).spec_state() == AnimationState::Paused ==> forall|j: int|
                0 <= j < old(self).spec_children().len() ==> resumed_child(
                    old(self).spec_children()[j],
                    #[trigger] final(self).spec_children()[j],
                ),
    {
        if self.state == AnimationState::Paused {
            let n = self.children.len();
            let mut i: usize = 0;
            while i < n
                invariant
                    n == self.children@.len(),
                    i <= n,
                    self.outputs == old(self).outputs,
                    self.current == old(self).current,
                    self.position == old(self).position,
                    forall|j: int| 0 <= j < i ==> resumed_child(old(self).children@[j], #[trigger] self.children@[j]),
                    forall|j: int| i <= j < n ==> #[trigger] self.children@[j] == old(self).children@[j],
                decreases n - i,
            {
                self.children[i].0.resume();
                i = i + 1;
            }
            self.state = AnimationState::Running;
        }
    }

    fn cancel(&mut self)
        ensures
            final(self).spec_state() == if old(self).spec_state().is_unfinished() {
                AnimationState::Canceled
            } else {
                old(self).spec_state()
            },
            final(self).spec_value() == old(self).spec_value(),
            final(self).spec_outputs() == old(self).spec_outputs(),
            final(self).spec_children().len() == old(self).spec_children().len(),
            final(self).wf() == old(self).wf(),
            old(self).spec_state().is_unfinished() ==> forall|j: int|
                0 <= j < old(self).spec_children().len() ==> canceled_child(
                    old(self).spec_children()[j],
                    #[trigger] final(self).spec_children()[j],
                ),
    {
        if self.state == AnimationState::Running || self.state == AnimationState::Paused {
            let n = self.children.len();
            let mut i: usize = 0;
            while i < n
                invariant
                    n == self.children@.len(),
                    i <= n,
                    self.outputs == old(self).outputs,
                    self.current == old(self).current,
                    self.position == old(self).position,
                    forall|j: int| 0 <= j < i ==> canceled_child(old(self).children@[j], #[trigger] self.children@[j]),
                    forall|j: int| i <= j < n ==> #[trigger] self.children@[j] == old(self).children@[j],
                decreases n - i,
            {
                self.children[i].0.cancel();
                i = i + 1;
            }
            self.state = AnimationState::Canceled;
        }
    }

    /// Moves every child to `elapsed`. The composition completes when its
    /// duration is known and `elapsed` reaches it, and runs otherwise.
    fn seek_to(&mut self, elapsed: Duration)
        ensures
            old(self).wf() ==> {
                &&& final(self).wf()
                &&& final(self).spec_children().len() == old(self).spec_children().len()
                &&& final(self).outputs_follow_children()
                &&& final(self).spec_value() == if old(self).spec_children().len() == 0 {
                    old(self).spec_value()
                } else {
                    old(self).spec_composed(final(self).spec_output_values())
                }
                &&& forall|j: int|
                    0 <= j < old(self).spec_children().len() ==> position_sought(
                        old(self).spec_children()[j].0.spec_duration(),
                        elapsed.spec_nanos(),
                        (#[trigger] final(self).spec_children()[j]).0.spec_position().spec_nanos(),
                    )
            },
            final(self).spec_state() == match old(self).spec_duration() {
                Some(total) => if elapsed.spec_nanos() >= total.spec_nanos() {
                    AnimationState::Completed
                } else {
                    AnimationState::Running
                },
                None => AnimationState::Running,
            },
    {
        let total = self.duration();
        let n = self.children.len();
        if self.outputs.len() == n {
            let mut i: usize = 0;
            while i < n
                invariant
                    n == self.children@.len(),
                    n == self.outputs@.len(),
                    i <= n,
                    self.compose == old(self).compose,
                    self.current == old(self).current,
                    forall|j: int|
                        0 <= j < i ==> cloned(
                            #[trigger] self.children@[j].0.spec_value(),
                            self.outputs@[j],
                        ),
                    forall|j: int|
                        0 <= j < i ==> position_sought(
                            old(self).children@[j].0.spec_duration(),
                            elapsed.spec_nanos(),
                            (#[trigger] self.children@[j]).0.spec_position().spec_nanos(),
                        ),
                    forall|j: int| i <= j < n ==> #[trigger] self.children@[j] == old(self).children@[j],
                decreases n - i,
            {
                self.children[i].0.seek_to(elapsed);
                let output = self.children[i].0.value().clone();
                self.outputs.set(i, output);
                i = i + 1;
            }
            self.compose_outputs();
        }
        self.state = match total {
            Some(total) => if elapsed.at_least(total) {
                AnimationState::Completed
            } else {
                AnimationState::Running
            },
            None => AnimationState::Running,
        };
        self.position = Ghost(
            match total {
                Some(total) => if elapsed.spec_nanos() <= total.spec_nanos() {
                    elapsed.spec_nanos()
                } else {
                    total.spec_nanos()
                },
                None => elapsed.spec_nanos(),
            },
        );
        proof {
            use_type_invariant(&elapsed);
            if let Some(total) = total {
                use_type_invariant(&total);
            }
            lemma_position_at(self.position@);
        }
    }

    fn finish(&mut self)
        ensures
            final(self).spec_state() == AnimationState::Completed,
            old(self).wf() ==> {
                &&& final(self).wf()
                &&& final(self).spec_children().len() == old(self).spec_children().len()
                &&& final(self).outputs_follow_children()
                &&& final(self).spec_value() == if old(self).spec_children().len() == 0 {
                    old(self).spec_value()
                } else {
                    old(self).spec_composed(final(self).spec_output_values())
                }
                &&& forall|j: int|
                    0 <= j < final(self).spec_children().len() ==> (#[trigger] final(self).spec_children()[j]).0.spec_state()
                        == AnimationState::Completed
            },
    {
        let n = self.children.len();
        if self.outputs.len() == n {
            let mut i: usize = 0;
            while i < n
                invariant
                    n == self.children@.len(),
                    n == self.outputs@.len(),
                    i <= n,
                    self.compose == old(self).compose,
                    self.current == old(self).current,
                    forall|j: int|
                        0 <= j < i ==> cloned(
                            #[trigger] self.children@[j].0.spec_value(),
                            self.outputs@[j],
                        ),
                    forall|j: int| 0 <= j < i ==> (#[trigger] self.children@[j]).0.spec_state() == AnimationState::Completed,
                decreases n - i,
            {
                self.children[i].0.finish();
                let output = self.children[i].0.value().clone();
                self.outputs.set(i, output);
                i = i + 1;
            }
            self.compose_outputs();
        }
        self.state = AnimationState::Completed;
    }

    /// A parallel does not retarget.
    fn retarget(&mut self, target: &T) -> (r: bool) {
        false
    }

    fn into_value(self: Box<Self>) -> (r: T) {
        let parallel = *self;
        parallel.current
    }
}

/// When advancing a running, non-empty composition by `delta` completes it, the
/// time it reports left over is the least any child left over: no child left
/// less, and some child left exactly that much. Equivalently, it is `delta`
/// less the time the child that ran longest consumed.
pub proof fn lemma_completed_leftover_is_least<T: Clone, C: Compose<T>>(
    before: Parallel<T, C>,
    after: Parallel<T, C>,
    delta: Duration,
    r: Duration,
)
    requires
        before.wf(),
        before.spec_state() == AnimationState::Running,
        before.spec_children().len() > 0,
        before.spec_advanced(after, delta, r),
        after.spec_state() == AnimationState::Completed,
    ensures
        exists|lefts: Seq<Duration>|
            lefts.len() == before.spec_children().len() && (forall|j: int|
                0 <= j < lefts.len() ==> child_advanced(
                    before.spec_children()[j],
                    after.spec_children()[j],
                    delta,
                    #[trigger] lefts[j],
                )) && (forall|j: int|
                0 <= j < lefts.len() ==> delta.spec_nanos() - (#[trigger] lefts[j]).spec_nanos()
                    <= delta.spec_nanos() - r.spec_nanos()) && (exists|j: int|
                0 <= j < lefts.len() && r == #[trigger] lefts[j]),
{
}

/// A child of unknown duration makes the longest duration unknown.
pub proof fn lemma_longest_none<T>(children: Seq<BoxAnimation<T>>, k: int)
    requires
        0 < k <= children.len(),
        children[k - 1].0.spec_duration() is None,
    ensures
        longest_duration(children) is None,
    decreases children.len() - k,
{
    if k == children.len() {
    } else {
        lemma_longest_none_prefix(children, k);
    }
}

/// An unknown prefix makes the longest duration unknown.
pub proof fn lemma_longest_none_prefix<T>(children: Seq<BoxAnimation<T>>, k: int)
    requires
        0 < k <= children.len(),
        longest_duration(children.subrange(0, k)) is None,
    ensures
        longest_duration(children) is None,
    decreases children.len() - k,
{
    if k == children.len() {
        assert(children.subrange(0, k) =~= children);
    } else {
        assert(children.subrange(0, k + 1).drop_last() =~= children.subrange(0, k));
        lemma_longest_none_prefix(children, k + 1);
    }
}

} // verus!
