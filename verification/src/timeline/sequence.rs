//! Child animations played one after another.

use vstd::prelude::*;

use crate::timing::Duration;
use crate::timing::duration::MAX_NANOS;
use crate::traits::BoxAnimation;
use crate::traits::{Animation, AnimationState};
use crate::traits::{lemma_position_at, moved_by, position_advanced, position_at};

verus! {

/// The total of the durations of `children`, when all are known.
pub open spec fn total_duration<T>(children: Seq<BoxAnimation<T>>) -> Option<nat>
    decreases children.len(),
{
    if children.len() == 0 {
        Some(0)
    } else {
        match (total_duration(children.drop_last()), children.last().0.spec_duration()) {
            (Some(total), Some(d)) => Some(total + d.spec_nanos()),
            _ => None,
        }
    }
}

/// Runs child animations one after another.
#[verifier::reject_recursive_types(T)]
pub struct Sequence<T> {
    children: Vec<BoxAnimation<T>>,
    current: T,
    index: usize,
    state: AnimationState,
    position: Ghost<nat>,
}

impl<T> Sequence<T> {
    /// The child animations in order.
    pub closed spec fn spec_children(self) -> Seq<BoxAnimation<T>> {
        self.children@
    }

    /// The index of the child being played.
    pub closed spec fn spec_index(self) -> nat {
        self.index as nat
    }
}

impl<T: Clone> Sequence<T> {
    /// Creates an empty, idle sequence with an initial output value.
    pub fn new(initial: T) -> (r: Self)
        ensures
            r.spec_children().len() == 0,
            r.spec_index() == 0,
            r.spec_state() == AnimationState::Idle,
            r.spec_value() == initial,
    {
        Sequence {
            children: Vec::new(),
            current: initial,
            index: 0,
            state: AnimationState::Idle,
            position: Ghost(0),
        }
    }

    /// Appends an animation to the sequence, which then runs.
    pub fn push(&mut self, animation: Box<dyn Animation<T>>)
        ensures
            final(self).spec_children() == old(self).spec_children().push(BoxAnimation(animation)),
            final(self).spec_state() == AnimationState::Running,
            final(self).spec_index() == old(self).spec_index(),
            final(self).spec_value() == old(self).spec_value(),
    {
        self.children.push(BoxAnimation(animation));
        self.state = AnimationState::Running;
    }

    /// Appends an animation and returns the updated sequence.
    pub fn then_play(self, animation: Box<dyn Animation<T>>) -> (r: Self)
        ensures
            r.spec_children() == self.spec_children().push(BoxAnimation(animation)),
            r.spec_state() == AnimationState::Running,
            r.spec_index() == self.spec_index(),
            r.spec_value() == self.spec_value(),
    {
        let mut sequence = self;
        sequence.children.push(BoxAnimation(animation));
        sequence.state = AnimationState::Running;
        sequence
    }

    /// Returns the number of child animations.
    pub fn len(&self) -> (r: usize)
        ensures
            r == self.spec_children().len(),
    {
        self.children.len()
    }

    /// Returns whether the sequence contains no child animations.
    pub fn is_empty(&self) -> (r: bool)
        ensures
            r == (self.spec_children().len() == 0),
    {
        self.children.len() == 0
    }

    /// What advancing by `delta` does: `after` is the sequence afterwards and `r`
    /// the time left over.
    pub open spec fn spec_advanced(self, after: Self, delta: Duration, r: Duration) -> bool {
        &&& (self.spec_state() != AnimationState::Running ==> after == self && r == delta)
        &&& after.spec_children().len() == self.spec_children().len()
        &&& (self.spec_state() == AnimationState::Running ==> {
            &&& after.spec_index() >= self.spec_index()
            &&& after.spec_state() == AnimationState::Running || after.spec_state()
                == AnimationState::Completed
            &&& after.spec_state() == AnimationState::Completed <==> after.spec_index()
                >= after.spec_children().len()
            &&& after.spec_state() == AnimationState::Running ==> r.spec_nanos() == 0
            &&& forall|j: int|
                0 <= j < self.spec_index() ==> #[trigger] after.spec_children()[j]
                    == self.spec_children()[j]
            &&& self.spec_index() < self.spec_children().len() ==> exists|j: int|
                self.spec_index() <= j <= after.spec_index() && j
                    < after.spec_children().len() && cloned(
                    #[trigger] after.spec_children()[j].0.spec_value(),
                    after.spec_value(),
                )
            &&& self.spec_index() >= self.spec_children().len() ==> after.spec_value()
                == self.spec_value() && r == delta
            &&& position_advanced(
                self.spec_position().spec_nanos(),
                after.spec_position().spec_nanos(),
                delta.spec_nanos(),
                r.spec_nanos(),
                after.spec_state() == AnimationState::Running,
            )
            &&& self.spec_index() < self.spec_children().len() ==> moved_by(
                self.spec_children()[self.spec_index() as int],
                after.spec_children()[self.spec_index() as int],
                delta,
            )
        })
        &&& r.spec_nanos() <= delta.spec_nanos()
    }

    fn sync_current(&mut self)
        ensures
            final(self).spec_children() == old(self).spec_children(),
            final(self).spec_index() == old(self).spec_index(),
            final(self).spec_state() == old(self).spec_state(),
            old(self).spec_index() < old(self).spec_children().len() ==> cloned(
                old(self).spec_children()[old(self).spec_index() as int].0.spec_value(),
                final(self).spec_value(),
            ),
            old(self).spec_index() >= old(self).spec_children().len() ==> final(self).spec_value()
                == old(self).spec_value(),
    {
        if self.index < self.children.len() {
            self.current = self.children[self.index].0.value().clone();
        }
    }
}

impl<T: Clone> Animation<T> for Sequence<T> {
    closed spec fn spec_state(&self) -> AnimationState {
        self.state
    }

    closed spec fn spec_value(&self) -> T {
        self.current
    }

    open spec fn spec_duration(&self) -> Option<Duration> {
        match total_duration(self.spec_children()) {
            Some(n) => if n <= MAX_NANOS {
                Some(Duration::spec_from_nanos(n))
            } else {
                None
            },
            None => None,
        }
    }

    /// The time played: what advancing consumed, or where seeking landed.
    closed spec fn spec_position(&self) -> Duration {
        position_at(self.position@)
    }

    fn value(&self) -> (r: &T) {
        &self.current
    }

    fn state(&self) -> (r: AnimationState) {
        self.state
    }

    /// The sum of the children's durations; `None` when one is unknown or the sum
    /// leaves the representable range.
    fn duration(&self) -> (r: Option<Duration>) {
        let mut total = Duration::zero();
        let mut i: usize = 0;
        proof {
            assert(self.children@.subrange(0, 0) =~= Seq::<BoxAnimation<T>>::empty());
        }
        while i < self.children.len()
            invariant
                i <= self.children.len(),
                total_duration(self.children@.subrange(0, i as int)) == Some(total.spec_nanos()),
            decreases self.children.len() - i,
        {
            proof {
                assert(self.children@.subrange(0, i + 1).drop_last() =~= self.children@.subrange(0, i as int));
                assert(self.children@.subrange(0, i + 1).last() == self.children@[i as int]);
            }
            match self.children[i].0.duration() {
                Some(d) => {
                    match total.checked_add(d) {
                        Some(sum) => {
                            total = sum;
                        },
                        None => {
                            proof {
                                lemma_total_grows(self.children@, i as int + 1);
                            }
                            return None;
                        },
                    }
                },
                None => {
                    proof {
                        lemma_total_none(self.children@, i as int + 1);
                    }
                    return None;
                },
            }
            i = i + 1;
        }
        proof {
            assert(self.children@.subrange(0, self.children@.len() as int) =~= self.children@);
            use_type_invariant(&total);
            Duration::lemma_from_nanos(total.spec_nanos());
            Duration::lemma_eq(total, Duration::spec_from_nanos(total.spec_nanos()));
        }
        Some(total)
    }

    fn is_active(&self) -> (r: bool) {
        match self.state {
            AnimationState::Running => true,
            _ => false,
        }
    }

    /// Advances as [`Animation::advance`] does, discarding the time left over.
    fn tick(&mut self, delta: Duration)
        ensures
            exists|r: Duration| #[trigger] old(self).spec_advanced(*final(self), delta, r),
    {
        let _ = self.advance(delta);
    }

    /// Plays children in order, carrying time left over by a finished child into
    /// the next one, and returns the time left over after the last child.
    #[verifier::spinoff_prover]
    #[verifier::rlimit(30)]
    fn advance(&mut self, delta: Duration) -> (r: Duration)
        ensures
            old(self).spec_advanced(*final(self), delta, r),
    {
        if self.state != AnimationState::Running {
            return delta;
        }
        let mut remaining = delta;
        let ghost mut last: int = -1;
        loop
            invariant_except_break
                self.state == AnimationState::Running,
                last != -1 ==> last < self.index,
            invariant
                remaining.spec_nanos() <= delta.spec_nanos(),
                self.children@.len() == old(self).children@.len(),
                self.index >= old(self).index,
                forall|j: int| 0 <= j < old(self).index ==> #[trigger] self.children@[j] == old(self).children@[j],
                last == -1 ==> self.index == old(self).index && self.current == old(self).current
                    && remaining == delta && self.children@ == old(self).children@,
                last != -1 ==> old(self).index <= last <= self.index && last < self.children@.len()
                    && cloned(self.children@[last].0.spec_value(), self.current),
                last != -1 ==> moved_by(
                    old(self).children@[old(self).index as int],
                    self.children@[old(self).index as int],
                    delta,
                ),
            ensures
                self.state == AnimationState::Running || self.state == AnimationState::Completed,
                self.state == AnimationState::Completed <==> self.index >= self.children@.len(),
                self.state == AnimationState::Running ==> remaining.spec_nanos() == 0,
                last == -1 ==> self.index >= self.children@.len(),
            decreases self.children.len() - self.index,
        {
            let i = self.index;
            if i >= self.children.len() {
                self.state = AnimationState::Completed;
                break;
            }
            remaining = self.children[i].0.advance(remaining);
            self.current = self.children[i].0.value().clone();
            proof {
                last = i as int;
            }
            let finished = match self.children[i].0.state() {
                AnimationState::Completed => true,
                _ => false,
            };
            if !finished {
                remaining = Duration::zero();
                break;
            }
            self.index = i + 1;
            if self.index >= self.children.len() {
                self.state = AnimationState::Completed;
                break;
            }
            if remaining.is_zero() {
                remaining = Duration::zero();
                break;
            }
        }
        self.position = Ghost((old(self).position@ + delta.spec_nanos() - remaining.spec_nanos()) as nat);
        proof {
            if old(self).index < old(self).children@.len() {
                assert(cloned(self.children@[last].0.spec_value(), self.current));
                assert(old(self).spec_index() <= last <= self.spec_index() && last < self.spec_children().len());
                assert(cloned(self.spec_children()[last].0.spec_value(), self.spec_value()));
            }
            assert(self.spec_children().len() == old(self).spec_children().len());
        }
        proof {
            lemma_position_at(old(self).position@);
            lemma_position_at(self.position@);
        }
        remaining
    }

    fn pause(&mut self)
        ensures
            final(self).spec_state() == if old(self).spec_state() == AnimationState::Running {
                AnimationState::Paused
            } else {
                old(self).spec_state()
            },
            final(self).spec_index() == old(self).spec_index(),
            final(self).spec_value() == old(self).spec_value(),
            final(self).spec_children().len() == old(self).spec_children().len(),
            old(self).spec_state() == AnimationState::Running && old(self).spec_index()
                < old(self).spec_children().len() ==> ({
                let before = old(self).spec_children()[old(self).spec_index() as int].0;
                let after = final(self).spec_children()[old(self).spec_index() as int].0;
                &&& after.spec_state() == if before.spec_state() == AnimationState::Running {
                    AnimationState::Paused
                } else {
                    before.spec_state()
                }
                &&& after.spec_value() == before.spec_value()
            }),
    {
        if self.state == AnimationState::Running {
            let i = self.index;
            if i < self.children.len() {
                self.children[i].0.pause();
            }
            self.state = AnimationState::Paused;
        }
    }

    fn resume(&mut self)
        ensures
            final(self).spec_state() == if old(self).spec_state() == AnimationState::Paused {
                AnimationState::Running
            } else {
                old(self).spec_state()
            },
            final(self).spec_index() == old(self).spec_index(),
            final(self).spec_value() == old(self).spec_value(),
            final(self).spec_children().len() == old(self).spec_children().len(),
            old(self).spec_state() == AnimationState::Paused && old(self).spec_index()
                < old(self).spec_children().len() ==> ({
                let before = old(self).spec_children()[old(self).spec_index() as int].0;
                let after = final(self).spec_children()[old(self).spec_index() as int].0;
                &&& after.spec_state() == if before.spec_state() == AnimationState::Paused {
                    AnimationState::Running
                } else {
                    before.spec_state()
                }
                &&& after.spec_value() == before.spec_value()
            }),
    {
        if self.state == AnimationState::Paused {
            let i = self.index;
            if i < self.children.len() {
                self.children[i].0.resume();
            }
            self.state = AnimationState::Running;
        }
    }

    fn cancel(&mut self)
        ensures
            final(self).spec_state() == if old(self).spec_state().is_unfinished() {
                AnimationState::Canceled
            } else {
                old(self).spec_state()
            },
            final(self).spec_index() == old(self).spec_index(),
            final(self).spec_value() == old(self).spec_value(),
            final(self).spec_children().len() == old(self).spec_children().len(),
            old(self).spec_state().is_unfinished() && old(self).spec_index()
                < old(self).spec_children().len() ==> ({
                let before = old(self).spec_children()[old(self).spec_index() as int].0;
                let after = final(self).spec_children()[old(self).spec_index() as int].0;
                &&& before.spec_state().is_unfinished() ==> after.spec_state() == AnimationState::Canceled
                &&& before.spec_state().is_settled() ==> after.spec_state() == before.spec_state()
                &&& after.spec_value() == before.spec_value()
            }),
    {
        if self.state == AnimationState::Running || self.state == AnimationState::Paused {
            let i = self.index;
            if i < self.children.len() {
                self.children[i].0.cancel();
            }
            self.state = AnimationState::Canceled;
        }
    }

    /// Finishes every child whose known duration fits in `elapsed`, in order, and
    /// seeks the first child that does not fit (or whose duration is unknown) to
    /// the time left; the sequence completes when every child fits.
    fn seek_to(&mut self, elapsed: Duration)
        ensures
            final(self).spec_children().len() == old(self).spec_children().len(),
            old(self).spec_children().len() == 0 ==> final(self).spec_state()
                == AnimationState::Completed && final(self).spec_value() == old(self).spec_value()
                && final(self).spec_index() == 0,
            old(self).spec_children().len() > 0 ==> {
                let n = old(self).spec_children().len() as int;
                let k = final(self).spec_index() as int;
                &&& k < n
                &&& final(self).spec_state() == AnimationState::Running || final(self).spec_state()
                    == AnimationState::Completed
                &&& (final(self).spec_state() == AnimationState::Completed) == (total_duration(
                    old(self).spec_children(),
                ) matches Some(t) && t <= elapsed.spec_nanos())
                &&& final(self).spec_state() == AnimationState::Completed ==> k == n - 1 && forall|j: int|
                    0 <= j < n ==> (#[trigger] final(self).spec_children()[j]).0.spec_state()
                        == AnimationState::Completed
                &&& final(self).spec_state() == AnimationState::Running ==> {
                    &&& total_duration(old(self).spec_children().subrange(0, k)) matches Some(p) && p
                        <= elapsed.spec_nanos() && (old(self).spec_children()[k].0.spec_duration() is None
                        || p + old(self).spec_children()[k].0.spec_duration()->Some_0.spec_nanos()
                        > elapsed.spec_nanos()) && (old(self).spec_children()[k].0.spec_duration() is Some
                        ==> final(self).spec_children()[k].0.spec_position().spec_nanos() == elapsed.spec_nanos()
                        - p)
                    &&& forall|j: int|
                        0 <= j < k ==> (#[trigger] final(self).spec_children()[j]).0.spec_state()
                            == AnimationState::Completed
                    &&& forall|j: int|
                        k < j < n ==> #[trigger] final(self).spec_children()[j] == old(
                            self,
                        ).spec_children()[j]
                }
                &&& cloned(
                    final(self).spec_children()[k].0.spec_value(),
                    final(self).spec_value(),
                )
            },
    {
        let n = self.children.len();
        if n == 0 {
            self.index = 0;
            self.state = AnimationState::Completed;
            self.position = Ghost(0);
            proof {
                lemma_position_at(0);
                Duration::lemma_from_nanos(0);
            }
            return ;
        }
        let mut target = elapsed;
        let mut i: usize = 0;
        let mut all_finished = true;
        self.index = 0;
        proof {
            assert(old(self).children@.subrange(0, 0) =~= Seq::<BoxAnimation<T>>::empty());
        }
        while i < n
            invariant_except_break
                self.index == i,
                all_finished,
                forall|j: int| i <= j < n ==> #[trigger] self.children@[j] == old(self).children@[j],
            invariant
                n == self.children@.len(),
                n == old(self).children@.len(),
                i <= n,
                target.spec_nanos() <= elapsed.spec_nanos(),
                total_duration(old(self).children@.subrange(0, i as int)) == Some(
                    (elapsed.spec_nanos() - target.spec_nanos()) as nat,
                ),
                forall|j: int|
                    0 <= j < i ==> (#[trigger] self.children@[j]).0.spec_state() == AnimationState::Completed,
            ensures
                all_finished ==> self.index == n && i == n,
                !all_finished ==> {
                    &&& self.index == i
                    &&& i < n
                    &&& (old(self).children@[i as int].0.spec_duration() is None || (elapsed.spec_nanos()
                        - target.spec_nanos()) + old(self).children@[i as int].0.spec_duration()->Some_0.spec_nanos()
                        > elapsed.spec_nanos())
                    &&& forall|j: int|
                        i < j < n ==> #[trigger] self.children@[j] == old(self).children@[j]
                    &&& old(self).children@[i as int].0.spec_duration() is Some
                        ==> self.children@[i as int].0.spec_position().spec_nanos() == target.spec_nanos()
                },
            decreases n - i,
        {
            proof {
                assert(old(self).children@.subrange(0, i + 1).drop_last() =~= old(self).children@.subrange(0, i as int));
                assert(old(self).children@.subrange(0, i + 1).last() == old(self).children@[i as int]);
            }
            let passed = match self.children[i].0.duration() {
                Some(d) => if target.at_least(d) {
                    target = target.saturating_sub(d);
                    true
                } else {
                    false
                },
                None => false,
            };
            if passed {
                self.children[i].0.finish();
                self.index = i + 1;
                i = i + 1;
            } else {
                self.children[i].0.seek_to(target);
                self.index = i;
                all_finished = false;
                break;
            }
        }
        proof {
            if all_finished {
                assert(old(self).children@.subrange(0, n as int) =~= old(self).children@);
            } else {
                let k = i as int;
                if total_duration(old(self).children@) is Some {
                    if total_duration(old(self).children@)->Some_0 <= elapsed.spec_nanos() {
                        if old(self).children@[k].0.spec_duration() is None {
                            lemma_total_none(old(self).children@, k + 1);
                        } else {
                            lemma_total_prefix_le(old(self).children@, k + 1);
                            assert(old(self).children@.subrange(0, k + 1).drop_last() =~= old(self).children@.subrange(0, k));
                            assert(old(self).children@.subrange(0, k + 1).last() == old(self).children@[k]);
                        }
                    }
                }
            }
        }
        if self.index >= n {
            self.index = n - 1;
        }
        self.sync_current();
        self.state = if all_finished {
            AnimationState::Completed
        } else {
            AnimationState::Running
        };
        self.position = Ghost(
            match old(self).spec_duration() {
                Some(total) => if elapsed.spec_nanos() <= total.spec_nanos() {
                    elapsed.spec_nanos()
                } else {
                    total.spec_nanos()
                },
                None => elapsed.spec_nanos(),
            },
        );
        proof {
            use_type_invariant(&elapsed);
            if let Some(n) = total_duration(old(self).spec_children()) {
                if n <= MAX_NANOS {
                    Duration::lemma_from_nanos(n);
                }
            }
            lemma_position_at(self.position@);
        }
    }

    fn finish(&mut self)
        ensures
            final(self).spec_state() == AnimationState::Completed,
            final(self).spec_index() == final(self).spec_children().len(),
            final(self).spec_children().len() == old(self).spec_children().len(),
            old(self).spec_children().len() > 0 ==> cloned(
                final(self).spec_children().last().0.spec_value(),
                final(self).spec_value(),
            ),
            old(self).spec_children().len() == 0 ==> final(self).spec_value() == old(self).spec_value(),
            forall|j: int|
                0 <= j < final(self).spec_children().len() ==> (#[trigger] final(self).spec_children()[j]).0.spec_state()
                    == AnimationState::Completed,
    {
        let n = self.children.len();
        let mut i: usize = 0;
        while i < n
            invariant
                n == self.children@.len(),
                i <= n,
                self.current == old(self).current,
                self.position == old(self).position,
                forall|j: int| 0 <= j < i ==> (#[trigger] self.children@[j]).0.spec_state() == AnimationState::Completed,
            decreases n - i,
        {
            self.children[i].0.finish();
            i = i + 1;
        }
        if n > 0 {
            self.current = self.children[n - 1].0.value().clone();
        }
        self.index = n;
        self.state = AnimationState::Completed;
    }

    /// A sequence does not retarget.
    fn retarget(&mut self, target: &T) -> (r: bool) {
        false
    }

    fn into_value(self: Box<Self>) -> (r: T) {
        let sequence = *self;
        sequence.current
    }
}

/// A sequence's total grows with every child whose duration is known.
pub proof fn lemma_total_grows<T>(children: Seq<BoxAnimation<T>>, k: int)
    requires
        0 < k <= children.len(),
        total_duration(children.subrange(0, k - 1)) matches Some(t) && children[k - 1].0.spec_duration() matches Some(d)
            && t + d.spec_nanos() > MAX_NANOS,
    ensures
        total_duration(children) is None || total_duration(children).unwrap() > MAX_NANOS,
    decreases children.len() - k,
{
    if k == children.len() {
        assert(children.subrange(0, k - 1) =~= children.drop_last());
    } else {
        let prefix = children.subrange(0, k);
        assert(prefix.drop_last() =~= children.subrange(0, k - 1));
        lemma_total_prefix_exceeds(children, k);
    }
}

/// Once a prefix exceeds the range, so does the whole total, if known.
pub proof fn lemma_total_prefix_exceeds<T>(children: Seq<BoxAnimation<T>>, k: int)
    requires
        0 < k <= children.len(),
        total_duration(children.subrange(0, k)) is None || total_duration(children.subrange(0, k)).unwrap()
            > MAX_NANOS,
    ensures
        total_duration(children) is None || total_duration(children).unwrap() > MAX_NANOS,
    decreases children.len() - k,
{
    if k == children.len() {
        assert(children.subrange(0, k) =~= children);
    } else {
        assert(children.subrange(0, k + 1).drop_last() =~= children.subrange(0, k));
        lemma_total_prefix_exceeds(children, k + 1);
    }
}

/// When the total is known, so is the total of every prefix, and it is no larger.
pub proof fn lemma_total_prefix_le<T>(children: Seq<BoxAnimation<T>>, k: int)
    requires
        0 <= k <= children.len(),
        total_duration(children) is Some,
    ensures
        total_duration(children.subrange(0, k)) is Some,
        total_duration(children.subrange(0, k))->Some_0 <= total_duration(children)->Some_0,
    decreases children.len() - k,
{
    if k == children.len() {
        assert(children.subrange(0, k) =~= children);
    } else {
        lemma_total_prefix_le(children, k + 1);
        assert(children.subrange(0, k + 1).drop_last() =~= children.subrange(0, k));
    }
}

/// A child of unknown duration makes the total unknown.
pub proof fn lemma_total_none<T>(children: Seq<BoxAnimation<T>>, k: int)
    requires
        0 < k <= children.len(),
        children[k - 1].0.spec_duration() is None,
    ensures
        total_duration(children) is None,
    decreases children.len() - k,
{
    if k == children.len() {
    } else {
        lemma_total_none_prefix(children, k);
    }
}

/// An unknown prefix total makes the whole total unknown.
pub proof fn lemma_total_none_prefix<T>(children: Seq<BoxAnimation<T>>, k: int)
    requires
        0 < k <= children.len(),
        total_duration(children.subrange(0, k)) is None,
    ensures
        total_duration(children) is None,
    decreases children.len() - k,
{
    if k == children.len() {
        assert(children.subrange(0, k) =~= children);
    } else {
        assert(children.subrange(0, k + 1).drop_last() =~= children.subrange(0, k));
        lemma_total_none_prefix(children, k + 1);
    }
}

} // verus!
