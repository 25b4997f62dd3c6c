//! Core traits implemented by animatable values and animation sources.

use vstd::prelude::*;

use crate::timing::Duration;
use crate::timing::duration::MAX_NANOS;

verus! {

/// Marker trait for cloneable, owned values that can be animated.
pub trait Animatable: Clone + 'static {
}

impl<T: Clone + 'static> Animatable for T {
}

/// Lifecycle state of an animation.
#[derive(Debug, Clone, Copy, PartialEq, Eq, Structural)]
pub enum AnimationState {
    /// The animation has not started.
    Idle,
    /// The animation is advancing.
    Running,
    /// The animation is suspended and retains its current value.
    Paused,
    /// The animation reached its final value.
    Completed,
    /// The animation was canceled before completion.
    Canceled,
}

impl AnimationState {
    /// Whether the state ends a playback.
    pub open spec fn is_settled(self) -> bool {
        self == AnimationState::Completed || self == AnimationState::Canceled
    }

    /// Whether the state belongs to an unfinished, started playback.
    pub open spec fn is_unfinished(self) -> bool {
        self == AnimationState::Running || self == AnimationState::Paused
    }
}

/// A stateful source that produces animated values over time.
///
/// Positions and lengths are measured in [`Duration`]s. Implementations report
/// their state and current value through the queries, which must agree with
/// the spec functions of the implementation.
pub trait Animation<T> {
    /// The lifecycle state.
    spec fn spec_state(&self) -> AnimationState;

    /// The current value.
    spec fn spec_value(&self) -> T;

    /// The total duration when it is finite and known.
    open spec fn spec_duration(&self) -> Option<Duration> {
        None
    }

    /// The playback position: how far into its timeline the animation has
    /// played, measured from the start.
    spec fn spec_position(&self) -> Duration;

    /// Returns the animation's current value.
    fn value(&self) -> (r: &T)
        ensures
            *r == self.spec_value(),
    ;

    /// Returns the animation's lifecycle state.
    fn state(&self) -> (r: AnimationState)
        ensures
            r == self.spec_state(),
    ;

    /// Returns the total duration when it is finite and known.
    fn duration(&self) -> (r: Option<Duration>)
        ensures
            r == self.spec_duration(),
    ;

    /// Returns whether the animation is currently running.
    fn is_active(&self) -> (r: bool)
        ensures
            r == (self.spec_state() == AnimationState::Running),
    ;

    /// Advances the animation by `delta`.
    ///
    /// A running animation moves its position forward by `delta`, or by less
    /// when it stops on the way; one that is not running keeps its state, value
    /// and position.
    fn tick(&mut self, delta: Duration)
        ensures
            old(self).spec_state() != AnimationState::Running ==> final(self).spec_state() == old(
                self,
            ).spec_state() && final(self).spec_value() == old(self).spec_value()
                && final(self).spec_position() == old(self).spec_position(),
            old(self).spec_state() == AnimationState::Running ==> position_ticked(
                old(self).spec_position().spec_nanos(),
                final(self).spec_position().spec_nanos(),
                delta.spec_nanos(),
                final(self).spec_state() == AnimationState::Running,
            ),
    ;

    /// Advances the animation and returns any unconsumed duration.
    ///
    /// A running animation consumes `delta` less the part it returns, and
    /// consumes all of it while it keeps running; one that is not running keeps
    /// its state, value and position. The unconsumed part is never longer than
    /// `delta`. The provided implementation ticks by `delta` and reports nothing
    /// left over.
    fn advance(&mut self, delta: Duration) -> (r: Duration)
        ensures
            r.spec_nanos() <= delta.spec_nanos(),
            old(self).spec_state() != AnimationState::Running ==> final(self).spec_state() == old(
                self,
            ).spec_state() && final(self).spec_value() == old(self).spec_value()
                && final(self).spec_position() == old(self).spec_position(),
            old(self).spec_state() == AnimationState::Running ==> position_advanced(
                old(self).spec_position().spec_nanos(),
                final(self).spec_position().spec_nanos(),
                delta.spec_nanos(),
                r.spec_nanos(),
                final(self).spec_state() == AnimationState::Running,
            ),
        default_ensures
            r.spec_nanos() == 0,
    {
        self.tick(delta);
        Duration::zero()
    }

    /// Pauses a running animation.
    ///
    /// A running animation becomes paused, keeping its value; any other is left
    /// in its state.
    fn pause(&mut self)
        ensures
            final(self).spec_state() == if old(self).spec_state() == AnimationState::Running {
                AnimationState::Paused
            } else {
                old(self).spec_state()
            },
            final(self).spec_value() == old(self).spec_value(),
            final(self).spec_position() == old(self).spec_position(),
    ;

    /// Resumes a paused animation.
    ///
    /// A paused animation runs again, keeping its value; any other is left in its
    /// state.
    fn resume(&mut self)
        ensures
            final(self).spec_state() == if old(self).spec_state() == AnimationState::Paused {
                AnimationState::Running
            } else {
                old(self).spec_state()
            },
            final(self).spec_value() == old(self).spec_value(),
            final(self).spec_position() == old(self).spec_position(),
    ;

    /// Cancels the animation.
    ///
    /// A running or paused animation becomes canceled, keeping its value; a
    /// completed or canceled one is left as it is. Whether an idle animation is
    /// canceled or stays idle is the implementation's choice.
    fn cancel(&mut self)
        ensures
            old(self).spec_state().is_unfinished() ==> final(self).spec_state() == AnimationState::Canceled,
            old(self).spec_state().is_settled() ==> final(self).spec_state() == old(self).spec_state(),
            old(self).spec_state() == AnimationState::Idle ==> final(self).spec_state() == AnimationState::Idle
                || final(self).spec_state() == AnimationState::Canceled,
            final(self).spec_value() == old(self).spec_value(),
            final(self).spec_position() == old(self).spec_position(),
    ;

    /// Moves the playback position to `elapsed`, measured from the start.
    ///
    /// An animation of known duration lands at `elapsed`, or at its end when
    /// `elapsed` lies beyond it. Where one of unknown duration lands is left to
    /// it: a spring has no schedule to seek in, and an endlessly repeating
    /// schedule may stop at its first pass.
    fn seek_to(&mut self, elapsed: Duration)
        ensures
            position_sought(
                old(self).spec_duration(),
                elapsed.spec_nanos(),
                final(self).spec_position().spec_nanos(),
            ),
    ;

    /// Moves the animation to its completed state.
    fn finish(&mut self)
        ensures
            final(self).spec_state() == AnimationState::Completed,
    ;

    /// Whether the animation supports retargeting; by default it does not.
    ///
    /// [`Animation::retarget`] reports it, so an implementation that does not
    /// retarget answers `false` there.
    open spec fn spec_retargets(&self) -> bool {
        false
    }

    /// Attempts to continue the animation toward a new target.
    ///
    /// Returns `true` exactly when the animation supports retargeting; an
    /// animation that does not keeps its state and value.
    fn retarget(&mut self, target: &T) -> (r: bool)
        ensures
            r == old(self).spec_retargets(),
            !r ==> final(self).spec_state() == old(self).spec_state() && final(self).spec_value()
                == old(self).spec_value(),
    ;

    /// Consumes the animation and returns its current value.
    fn into_value(self: Box<Self>) -> (r: T)
        ensures
            r == self.spec_value(),
    ;
}

/// Ticking by `delta` from position `before` reaches `after`: the position moves
/// forward by at most `delta`, and by exactly `delta` when the animation keeps
/// running and the sum stays in range.
pub open spec fn position_ticked(before: nat, after: nat, delta: nat, running_after: bool) -> bool {
    &&& before <= after <= before + delta
    &&& running_after && before + delta <= MAX_NANOS ==> after == before + delta
}

/// Advancing by `delta` from position `before` reaches `after` and leaves `left`
/// unconsumed: the position moves forward by at most the consumed part, and an
/// animation that keeps running consumes all of `delta` and moves by exactly
/// that when the sum stays in range.
pub open spec fn position_advanced(
    before: nat,
    after: nat,
    delta: nat,
    left: nat,
    running_after: bool,
) -> bool {
    &&& before <= after
    &&& after + left <= before + delta
    &&& running_after ==> left == 0 && (before + delta <= MAX_NANOS ==> after == before + delta)
}

/// Seeking to `elapsed` an animation whose duration was `duration` reaches
/// position `after`: `elapsed`, or the end when `elapsed` lies beyond it.
pub open spec fn position_sought(duration: Option<Duration>, elapsed: nat, after: nat) -> bool {
    duration matches Some(d) ==> after == if elapsed <= d.spec_nanos() {
        elapsed
    } else {
        d.spec_nanos()
    }
}

/// Whether `after` is what ticking or advancing `before` by `delta` can leave: a
/// running animation moves as [`position_ticked`] says, and one that is not
/// running keeps its state, value and position.
pub open spec fn moved_by<T>(before: BoxAnimation<T>, after: BoxAnimation<T>, delta: Duration) -> bool {
    if before.0.spec_state() == AnimationState::Running {
        position_ticked(
            before.0.spec_position().spec_nanos(),
            after.0.spec_position().spec_nanos(),
            delta.spec_nanos(),
            after.0.spec_state() == AnimationState::Running,
        )
    } else {
        &&& after.0.spec_state() == before.0.spec_state()
        &&& after.0.spec_value() == before.0.spec_value()
        &&& after.0.spec_position() == before.0.spec_position()
    }
}

/// The position `n` nanoseconds into a timeline, held at the end of the
/// representable range.
pub open spec fn position_at(n: nat) -> Duration {
    Duration::spec_from_nanos(if n <= MAX_NANOS { n } else { MAX_NANOS as nat })
}

/// A position built from a count of nanoseconds has that length, up to the end
/// of the representable range.
pub proof fn lemma_position_at(n: nat)
    ensures
        position_at(n).spec_nanos() == if n <= MAX_NANOS { n } else { MAX_NANOS as nat },
{
    Duration::lemma_from_nanos(if n <= MAX_NANOS { n } else { MAX_NANOS as nat });
}

/// An owned, type-erased animation.
#[verifier::reject_recursive_types(T)]
pub struct BoxAnimation<T>(pub Box<dyn Animation<T>>);

/// Replacing one element keeps a sequence's length.
pub proof fn lemma_update_len<A>(s: Seq<A>, i: int, a: A)
    requires
        0 <= i < s.len(),
    ensures
        s.update(i, a).len() == s.len(),
{
}

/// Replacing one element puts it at its index and leaves the others.
pub proof fn lemma_update_index<A>(s: Seq<A>, i: int, a: A)
    requires
        0 <= i < s.len(),
    ensures
        s.update(i, a)[i] == a,
        forall|j: int| 0 <= j < s.len() && j != i ==> s.update(i, a)[j] == s[j],
{
}

/// Appending one element puts it last and leaves the others.
pub proof fn lemma_push_index<A>(s: Seq<A>, a: A)
    ensures
        s.push(a)[s.len() as int] == a,
        forall|j: int| 0 <= j < s.len() ==> s.push(a)[j] == s[j],
{
}

/// Appending one element lengthens a sequence by one.
pub proof fn lemma_push_len<A>(s: Seq<A>, a: A)
    ensures
        s.push(a).len() == s.len() + 1,
{
}

} // verus!
