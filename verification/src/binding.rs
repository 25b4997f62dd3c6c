//! Declarative business-state to motion bindings.

pub mod error;

use vstd::prelude::*;

use vstd::laws_eq::obeys_concrete_eq;
use vstd::std_specs::cmp::PartialEqSpec;

use crate::binding::error::MotionBindingError;
use crate::runtime::{MotionRuntime, RuntimeView};
use crate::runtime::event::{InterruptionReason, PlaybackId};
use crate::runtime::motion::Motion;
use crate::runtime::typed::{AnimationStorage, Tweener, TypedAnimation};
use crate::timing::{Duration, Timing};
use crate::traits::{BoxAnimation, lemma_push_index, lemma_push_len, lemma_update_index, lemma_update_len};

verus! {

/// Owned values supplied to a [`MotionBinding`] transition factory.
///
/// `from` is always the motion's current sampled value, not the target
/// associated with `from_state`. This keeps interrupted transitions visually
/// continuous.
pub struct TransitionContext<S, T> {
    /// Business state that was active before this transition.
    pub from_state: S,
    /// Business state being applied.
    pub to_state: S,
    /// Current sampled motion value.
    pub from: T,
    /// Target value associated with `to_state`.
    pub to: T,
}

/// Per-consumer state used with a reusable [`MotionBinding`].
///
/// Keep one value next to each bound [`Motion`]. The binding itself remains
/// immutable and can be shared by any number of controls.
#[derive(Debug, Clone, Copy, PartialEq, Eq, Hash)]
pub struct MotionBindingState<S> {
    previous: S,
}

impl<S> MotionBindingState<S> {
    /// The last successfully applied business state.
    pub closed spec fn spec_current(self) -> S {
        self.previous
    }

    /// Creates state tracking from `previous`.
    pub fn new(previous: S) -> (r: Self)
        ensures
            r.spec_current() == previous,
    {
        MotionBindingState { previous }
    }

    /// Returns the last successfully applied business state.
    pub fn current(&self) -> (r: &S)
        ensures
            *r == self.spec_current(),
    {
        &self.previous
    }
}

/// Builds the animation played for one change of business state.
pub trait TransitionFactory<S, T> {
    /// The animation this factory builds for `context`.
    spec fn spec_build(&self, context: TransitionContext<S, T>) -> BoxAnimation<T>;

    /// Builds the animation from the transition's context.
    fn build(&self, context: TransitionContext<S, T>) -> (r: BoxAnimation<T>)
        ensures
            r == self.spec_build(context),
    ;
}

/// An owned transition factory.
#[verifier::reject_recursive_types(S)]
#[verifier::reject_recursive_types(T)]
pub struct Factory<S, T>(pub Box<dyn TransitionFactory<S, T>>);

/// Whether no two entries share a key.
pub open spec fn keys_distinct<K, V>(entries: Seq<(K, V)>) -> bool {
    forall|i: int, j: int|
        0 <= i < entries.len() && 0 <= j < entries.len() && i != j ==> #[trigger] entries[i].0
            != #[trigger] entries[j].0
}

/// Whether some entry has key `key`.
pub open spec fn has_key<K, V>(entries: Seq<(K, V)>, key: K) -> bool {
    exists|i: int| 0 <= i < entries.len() && #[trigger] entries[i].0 == key
}

/// The value of the entry with key `key`, if there is one.
pub open spec fn value_of<K, V>(entries: Seq<(K, V)>, key: K) -> Option<V> {
    if has_key(entries, key) {
        Some(entries[choose|i: int| 0 <= i < entries.len() && #[trigger] entries[i].0 == key].1)
    } else {
        None
    }
}

/// Under a lawful `==`, `eq` decides spec equality.
proof fn lemma_eq_law<S: PartialEq>()
    requires
        obeys_concrete_eq::<S>(),
    ensures
        S::obeys_eq_spec(),
        forall|x: S, y: S| x.eq_spec(&y) <==> (x == y),
{
    reveal(obeys_concrete_eq);
}

/// Whether the entry at `i` is the entry with key `key`.
pub proof fn lemma_value_at<K, V>(entries: Seq<(K, V)>, key: K, i: int)
    requires
        keys_distinct(entries),
        0 <= i < entries.len(),
        entries[i].0 == key,
    ensures
        value_of(entries, key) == Some(entries[i].1),
{
    let k = choose|j: int| 0 <= j < entries.len() && #[trigger] entries[j].0 == key;
    assert(entries[k].0 == entries[i].0);
}

/// Reusable configuration that maps business states to motion targets.
///
/// A binding contains no mutable playback state. Call [`MotionBinding::state`]
/// once per consumer, then pass that state to [`MotionBinding::set_state`].
/// Exact `(from, to)` factories take precedence over the fallback factory.
#[verifier::reject_recursive_types(S)]
#[verifier::reject_recursive_types(T)]
pub struct MotionBinding<S, T> {
    initial_state: S,
    initial_target: T,
    targets: Vec<(S, T)>,
    transitions: Vec<(S, S)>,
    factories: Vec<Factory<S, T>>,
    fallback: Option<Factory<S, T>>,
}

impl<S, T> MotionBinding<S, T> {
    /// The initial business state.
    pub closed spec fn spec_initial_state(self) -> S {
        self.initial_state
    }

    /// The value a new motion starts at.
    pub closed spec fn spec_initial_target(self) -> T {
        self.initial_target
    }

    /// The configured `(state, target)` pairs.
    pub closed spec fn spec_targets(self) -> Seq<(S, T)> {
        self.targets@
    }

    /// The `(from, to)` pairs that have an exact transition factory.
    pub closed spec fn spec_transitions(self) -> Seq<(S, S)> {
        self.transitions@
    }

    /// Whether a fallback factory is configured.
    pub closed spec fn spec_has_fallback(self) -> bool {
        self.fallback is Some
    }

    /// The factory used for a change from `from` to `to`: the exact factory for
    /// the pair when there is one, else the fallback, if any.
    pub closed spec fn spec_factory(self, from: S, to: S) -> Option<Factory<S, T>> {
        if self.transitions@.contains((from, to)) {
            let i = choose|i: int| 0 <= i < self.transitions@.len() && self.transitions@[i] == (from, to);
            Some(self.factories@[i])
        } else {
            self.fallback
        }
    }

    /// The animation played for a change from `from` to `to` with `context`: built
    /// by the exact factory for the pair when there is one, else by the fallback.
    pub open spec fn spec_built(self, from: S, to: S, context: TransitionContext<S, T>) -> BoxAnimation<T> {
        self.spec_factory(from, to)->Some_0.0.spec_build(context)
    }

    /// Every exact transition has one factory.
    pub closed spec fn wf(self) -> bool {
        self.factories@.len() == self.transitions@.len()
    }

    /// Each state has at most one target and each pair at most one exact transition.
    pub open spec fn distinct(self) -> bool {
        keys_distinct(self.spec_targets()) && self.spec_transitions().no_duplicates()
    }

    /// The target configured for `state`.
    pub open spec fn target_of(self, state: S) -> Option<T> {
        value_of(self.spec_targets(), state)
    }

    /// Whether an exact transition from `from` to `to` is configured.
    pub open spec fn has_transition(self, from: S, to: S) -> bool {
        self.spec_transitions().contains((from, to))
    }
}

impl<S: PartialEq + Clone, T: Clone> MotionBinding<S, T> {
    /// Creates a binding with its initial business state and target value.
    pub fn new(initial_state: S, initial_target: T) -> (r: Self)
        ensures
            r.wf(),
            r.distinct(),
            cloned(initial_state, r.spec_initial_state()),
            cloned(initial_target, r.spec_initial_target()),
            r.spec_targets() == seq![(initial_state, initial_target)],
            r.spec_transitions().len() == 0,
            !r.spec_has_fallback(),
    {
        let state_copy = initial_state.clone();
        let target_copy = initial_target.clone();
        let mut targets = Vec::new();
        targets.push((initial_state, initial_target));
        MotionBinding {
            initial_state: state_copy,
            initial_target: target_copy,
            targets,
            transitions: Vec::new(),
            factories: Vec::new(),
            fallback: None,
        }
    }

    /// Finds the target entry for `state`.
    fn find_target(&self, state: &S) -> (r: Option<usize>)
        ensures
            r matches Some(i) ==> i < self.spec_targets().len(),
            obeys_concrete_eq::<S>() ==> {
                &&& r matches Some(i) ==> self.spec_targets()[i as int].0 == *state
                &&& r is None ==> !has_key(self.spec_targets(), *state)
            },
    {
        proof {
            if obeys_concrete_eq::<S>() {
                lemma_eq_law::<S>();
            }
        }
        let n = self.targets.len();
        let mut i: usize = 0;
        while i < n
            invariant
                n == self.targets@.len(),
                i <= n,
                obeys_concrete_eq::<S>() ==> forall|j: int| 0 <= j < i ==> #[trigger] self.targets@[j].0 != *state,
            decreases n - i,
        {
            proof {
                if obeys_concrete_eq::<S>() {
                    lemma_eq_law::<S>();
                }
            }
            if self.targets[i].0 == *state {
                return Some(i);
            }
            i = i + 1;
        }
        None
    }

    /// Finds the exact transition from `from` to `to`.
    fn find_transition(&self, from: &S, to: &S) -> (r: Option<usize>)
        requires
            self.wf(),
        ensures
            r matches Some(i) ==> i < self.spec_transitions().len() && i < self.factories@.len(),
            obeys_concrete_eq::<S>() ==> {
                &&& r matches Some(i) ==> self.spec_transitions()[i as int] == (*from, *to)
                &&& r is None ==> !self.has_transition(*from, *to)
            },
    {
        proof {
            if obeys_concrete_eq::<S>() {
                lemma_eq_law::<S>();
            }
        }
        let n = self.transitions.len();
        let mut i: usize = 0;
        while i < n
            invariant
                n == self.transitions@.len(),
                n == self.factories@.len(),
                i <= n,
                obeys_concrete_eq::<S>() ==> forall|j: int|
                    0 <= j < i ==> #[trigger] self.transitions@[j] != (*from, *to),
            decreases n - i,
        {
            proof {
                if obeys_concrete_eq::<S>() {
                    lemma_eq_law::<S>();
                }
            }
            if self.transitions[i].0 == *from && self.transitions[i].1 == *to {
                return Some(i);
            }
            i = i + 1;
        }
        None
    }

    /// Adds or replaces the target associated with `state`.
    pub fn when(self, state: S, target: T) -> (r: Self)
        requires
            self.wf(),
        ensures
            r.wf(),
            r.spec_initial_state() == self.spec_initial_state(),
            r.spec_transitions() == self.spec_transitions(),
            r.spec_has_fallback() == self.spec_has_fallback(),
            obeys_concrete_eq::<S>() ==> {
                &&& self.distinct() ==> r.distinct()
                &&& state == self.spec_initial_state() ==> cloned(target, r.spec_initial_target())
                &&& state != self.spec_initial_state() ==> r.spec_initial_target()
                    == self.spec_initial_target()
                &&& self.distinct() ==> r.target_of(state) == Some(target)
                &&& self.distinct() ==> forall|other: S|
                    other != state ==> #[trigger] r.target_of(other) == self.target_of(other)
            },
    {
        proof {
            if obeys_concrete_eq::<S>() {
                lemma_eq_law::<S>();
            }
        }
        let mut binding = self;
        if state == binding.initial_state {
            binding.initial_target = target.clone();
        }
        match binding.find_target(&state) {
            Some(i) => {
                binding.targets[i].1 = target;
                proof {
                    if obeys_concrete_eq::<S>() && self.distinct() {
                        let t = binding.targets@;
                        let o = self.targets@;
                        assert(t == o.update(i as int, (o[i as int].0, target)));
                        assert forall|a: int, b: int|
                            0 <= a < t.len() && 0 <= b < t.len() && a != b implies #[trigger] t[a].0
                            != #[trigger] t[b].0 by {
                            assert(t[a].0 == o[a].0 && t[b].0 == o[b].0);
                        }
                        lemma_value_at(t, state, i as int);
                        assert forall|other: S| other != state implies #[trigger] value_of(t, other)
                            == value_of(o, other) by {
                            if has_key(o, other) {
                                let k = choose|j: int| 0 <= j < o.len() && #[trigger] o[j].0 == other;
                                lemma_value_at(o, other, k);
                                assert(t[k].0 == other);
                                lemma_value_at(t, other, k);
                            } else {
                                assert forall|j: int| 0 <= j < t.len() implies #[trigger] t[j].0 != other by {
                                    assert(t[j].0 == o[j].0);
                                }
                            }
                        }
                    }
                }
            },
            None => {
                let ghost o = binding.targets@;
                binding.targets.push((state, target));
                proof {
                    lemma_push_len(o, (state, target));
                    if obeys_concrete_eq::<S>() && self.distinct() {
                        let t = binding.targets@;
                        assert forall|a: int, b: int|
                            0 <= a < t.len() && 0 <= b < t.len() && a != b implies #[trigger] t[a].0
                            != #[trigger] t[b].0 by {
                            if a == o.len() {
                                assert(o[b].0 != state);
                            } else if b == o.len() {
                                assert(o[a].0 != state);
                            }
                        }
                        lemma_value_at(t, state, o.len() as int);
                        assert forall|other: S| other != state implies #[trigger] value_of(t, other)
                            == value_of(o, other) by {
                            if has_key(o, other) {
                                let k = choose|j: int| 0 <= j < o.len() && #[trigger] o[j].0 == other;
                                lemma_value_at(o, other, k);
                                assert(t[k].0 == other);
                                lemma_value_at(t, other, k);
                            } else {
                                assert forall|j: int| 0 <= j < t.len() implies #[trigger] t[j].0 != other by {
                                    if j < o.len() {
                                        assert(t[j].0 == o[j].0);
                                    }
                                }
                            }
                        }
                    }
                }
            },
        }
        binding
    }

    /// Adds or replaces an exact `(from, to)` transition factory.
    pub fn transition(self, from: S, to: S, factory: Box<dyn TransitionFactory<S, T>>) -> (r: Self)
        requires
            self.wf(),
        ensures
            r.wf(),
            r.spec_initial_state() == self.spec_initial_state(),
            r.spec_initial_target() == self.spec_initial_target(),
            r.spec_targets() == self.spec_targets(),
            r.spec_has_fallback() == self.spec_has_fallback(),
            obeys_concrete_eq::<S>() ==> {
                &&& self.distinct() ==> r.distinct()
                &&& r.has_transition(from, to)
                &&& forall|f: S, t: S|
                    (f, t) != (from, to) ==> #[trigger] r.has_transition(f, t) == self.has_transition(
                        f,
                        t,
                    )
            },
            obeys_concrete_eq::<S>() && self.distinct() ==> r.spec_factory(from, to) == Some(
                Factory(factory),
            ),
            obeys_concrete_eq::<S>() && self.distinct() ==> forall|context: TransitionContext<S, T>|
                #[trigger] r.spec_built(from, to, context) == Factory(factory).0.spec_build(context),
            obeys_concrete_eq::<S>() && self.distinct() ==> forall|f: S, t: S|
                (f, t) != (from, to) ==> #[trigger] r.spec_factory(f, t) == self.spec_factory(f, t),
    {
        let mut binding = self;
        let ghost fo0 = binding.factories@;
        let found = binding.find_transition(&from, &to);
        let ghost idx: int = match found {
            Some(i) => i as int,
            None => binding.transitions@.len() as int,
        };
        match found {
            Some(i) => {
                let ghost fo = binding.factories@;
                binding.factories.set(i, Factory(factory));
                proof {
                    lemma_update_len(fo, i as int, Factory(factory));
                    assert(binding.transitions@ == self.transitions@);
                    if obeys_concrete_eq::<S>() {
                        assert(binding.transitions@[i as int] == (from, to));
                    }
                }
            },
            None => {
                let ghost o = binding.transitions@;
                let ghost fo = binding.factories@;
                binding.transitions.push((from, to));
                binding.factories.push(Factory(factory));
                proof {
                    lemma_push_len(o, (from, to));
                    lemma_push_len(fo, Factory(factory));
                    lemma_push_index(fo, Factory(factory));
                    let t = binding.transitions@;
                    assert(t[o.len() as int] == (from, to));
                    assert forall|f: S, g: S| (f, g) != (from, to) implies #[trigger] t.contains((f, g))
                        == o.contains((f, g)) by {
                        if o.contains((f, g)) {
                            let k = choose|k: int| 0 <= k < o.len() && o[k] == (f, g);
                            assert(t[k] == (f, g));
                        }
                        if t.contains((f, g)) {
                            let k = choose|k: int| 0 <= k < t.len() && t[k] == (f, g);
                            assert(k < o.len());
                            assert(o[k] == (f, g));
                        }
                    }
                    if obeys_concrete_eq::<S>() && self.distinct() {
                        assert forall|a: int, b: int|
                            0 <= a < t.len() && 0 <= b < t.len() && a != b implies t[a] != t[b] by {
                            if a == o.len() {
                                assert(!o.contains((from, to)));
                                assert(o[b] != (from, to));
                            } else if b == o.len() {
                                assert(o[a] != (from, to));
                            }
                        }
                    }
                }
            },
        }
        proof {
            if idx < fo0.len() {
                lemma_update_index(fo0, idx, Factory(factory));
            }
            if obeys_concrete_eq::<S>() && self.distinct() {
                let tr = binding.transitions@;
                assert(binding.factories@[idx] == Factory(factory));
                assert(tr[idx] == (from, to));
                assert(tr.contains((from, to)));
                let k = choose|k: int| 0 <= k < tr.len() && tr[k] == (from, to);
                assert(tr.no_duplicates());
                assert(k == idx);
                let ot = self.transitions@;
                assert forall|f: S, t: S| (f, t) != (from, to) implies #[trigger] binding.spec_factory(f, t)
                    == self.spec_factory(f, t) by {
                    assert(binding.has_transition(f, t) == self.has_transition(f, t));
                    if ot.contains((f, t)) {
                        let a = choose|a: int| 0 <= a < tr.len() && tr[a] == (f, t);
                        let b = choose|b: int| 0 <= b < ot.len() && ot[b] == (f, t);
                        assert(a != idx);
                        if idx < fo0.len() {
                            assert(tr == ot);
                        } else {
                            assert(tr[b] == ot[b]);
                        }
                        assert(a == b);
                        assert(binding.factories@[a] == fo0[a]);
                    }
                }
            }
        }
        binding
    }

    /// Sets the factory used when no exact transition is configured.
    pub fn fallback(self, factory: Box<dyn TransitionFactory<S, T>>) -> (r: Self)
        requires
            self.wf(),
        ensures
            r.wf(),
            r.spec_initial_state() == self.spec_initial_state(),
            r.spec_initial_target() == self.spec_initial_target(),
            r.spec_targets() == self.spec_targets(),
            r.spec_transitions() == self.spec_transitions(),
            r.spec_has_fallback(),
            forall|from: S, to: S|
                #[trigger] r.spec_factory(from, to) == if r.has_transition(from, to) {
                    self.spec_factory(from, to)
                } else {
                    Some(Factory(factory))
                },
    {
        let mut binding = self;
        binding.fallback = Some(Factory(factory));
        proof {
            assert(binding.factories@ == self.factories@);
        }
        binding
    }

    /// Returns the initial business state.
    pub fn initial_state(&self) -> (r: &S)
        ensures
            *r == self.spec_initial_state(),
    {
        &self.initial_state
    }

    /// Returns the target associated with `state`.
    pub fn target(&self, state: &S) -> (r: Result<&T, MotionBindingError<S>>)
        ensures
            obeys_concrete_eq::<S>() && self.distinct() ==> {
                &&& r is Ok <==> self.target_of(*state) is Some
                &&& r matches Ok(t) ==> self.target_of(*state) == Some(*t)
                &&& r matches Err(e) ==> e matches MotionBindingError::MissingTarget(s) && cloned(
                    *state,
                    s,
                )
            },
    {
        match self.find_target(state) {
            Some(i) => {
                proof {
                    if obeys_concrete_eq::<S>() && self.distinct() {
                        lemma_value_at(self.targets@, *state, i as int);
                    }
                }
                Ok(&self.targets[i].1)
            },
            None => Err(MotionBindingError::MissingTarget(state.clone())),
        }
    }

    /// Creates independent state tracking for one consumer.
    pub fn state(&self) -> (r: MotionBindingState<S>)
        ensures
            cloned(self.spec_initial_state(), r.spec_current()),
    {
        MotionBindingState::new(self.initial_state.clone())
    }

    /// Creates a motion at the initial target and its independent state tracker.
    pub fn create_motion<W: Tweener<T>>(&self, runtime: &mut MotionRuntime<TypedAnimation<T, W>>) -> (r: (
        Motion<T>,
        MotionBindingState<S>,
    ))
        where
            T: 'static,
        requires
            old(runtime).wf(),
            old(runtime)@.slots.len() < usize::MAX,
        ensures
            final(runtime).wf(),
            r.0.spec_id() == old(runtime)@.next_id(),
            cloned(self.spec_initial_state(), r.1.spec_current()),
            exists|rest: T|
                cloned(self.spec_initial_target(), rest) && #[trigger] old(runtime)@.idle_inserted(
                    rest,
                    Timing::spec_linear(Duration::spec_from_nanos(200_000_000)),
                    final(runtime)@,
                ),
    {
        let motion = runtime.motion(self.initial_target.clone());
        (motion, self.state())
    }

    /// Applies `next_state` to an existing motion.
    ///
    /// Returns `Ok(false)` when the requested state is already current.
    pub fn set_state<W>(
        &self,
        binding_state: &mut MotionBindingState<S>,
        next_state: S,
        motion: Motion<T>,
        runtime: &mut MotionRuntime<TypedAnimation<T, W>>,
    ) -> (r: Result<bool, MotionBindingError<S>>)
        requires
            self.wf(),
            old(runtime).wf(),
        ensures
            final(runtime).wf(),
            obeys_concrete_eq::<S>() && self.distinct() ==> {
                &&& r matches Ok(changed) ==> changed == (old(binding_state).spec_current()
                    != next_state)
                &&& r matches Ok(true) ==> final(binding_state).spec_current() == next_state
                &&& r matches Ok(false) ==> *final(binding_state) == *old(binding_state)
                    && final(runtime)@ == old(runtime)@
                &&& r == Ok::<bool, MotionBindingError<S>>(true) <==> self.applies(
                    old(binding_state).spec_current(),
                    next_state,
                    old(runtime)@,
                    motion,
                )
                &&& r matches Err(e) ==> *final(binding_state) == *old(binding_state)
                    && final(runtime)@ == old(runtime)@ && self.is_failure(
                    old(binding_state).spec_current(),
                    next_state,
                    old(runtime)@,
                    motion,
                    e,
                )
            },
    {
        match self.set_state_tracked(binding_state, next_state, motion, runtime) {
            Ok(playback) => Ok(playback.is_some()),
            Err(e) => Err(e),
        }
    }

    /// Whether applying `next` after `previous` plays a transition: the state
    /// changes, it has a target, a factory covers the pair, and the motion has a value.
    pub open spec fn applies<W>(
        self,
        previous: S,
        next: S,
        runtime: RuntimeView<TypedAnimation<T, W>>,
        motion: Motion<T>,
    ) -> bool {
        &&& previous != next
        &&& self.target_of(next) is Some
        &&& self.has_transition(previous, next) || self.spec_has_fallback()
        &&& runtime.value_result(motion.spec_id()) is Ok
    }

    /// Whether `e` is the error of applying `next` after `previous`: the first of
    /// a missing target, a missing factory (naming a clone of `previous`), and
    /// the motion's runtime error.
    pub open spec fn is_failure<W>(
        self,
        previous: S,
        next: S,
        runtime: RuntimeView<TypedAnimation<T, W>>,
        motion: Motion<T>,
        e: MotionBindingError<S>,
    ) -> bool {
        if self.target_of(next) is None {
            e == MotionBindingError::MissingTarget(next)
        } else if !(self.has_transition(previous, next) || self.spec_has_fallback()) {
            e matches MotionBindingError::MissingTransition { from, to } && cloned(previous, from)
                && to == next
        } else {
            e == MotionBindingError::<S>::Motion(runtime.value_result(motion.spec_id())->Err_0)
        }
    }

    /// Applies `next_state` and returns the concrete playback ID.
    ///
    /// Returns `Ok(None)` when the requested state is already current.
    /// Target and transition lookup happen before the motion is modified.
    /// The state tracker is updated only after the new playback starts.
    pub fn set_state_tracked<W>(
        &self,
        binding_state: &mut MotionBindingState<S>,
        next_state: S,
        motion: Motion<T>,
        runtime: &mut MotionRuntime<TypedAnimation<T, W>>,
    ) -> (r: Result<Option<PlaybackId>, MotionBindingError<S>>)
        requires
            self.wf(),
            old(runtime).wf(),
        ensures
            final(runtime).wf(),
            obeys_concrete_eq::<S>() && self.distinct() ==> {
                &&& old(binding_state).spec_current() == next_state ==> r == Ok::<
                    Option<PlaybackId>,
                    MotionBindingError<S>,
                >(None) && *final(binding_state) == *old(binding_state) && final(runtime)@ == old(
                    runtime,
                )@
                &&& r matches Ok(Some(p)) ==> {
                    &&& self.applies(old(binding_state).spec_current(), next_state, old(runtime)@, motion)
                    &&& final(binding_state).spec_current() == next_state
                    &&& p == PlaybackId::spec_new(
                        motion.spec_id(),
                        RuntimeView::<TypedAnimation<T, W>>::next_revision(
                            old(runtime)@.slot_of(motion.spec_id()).playback_revision,
                        ),
                    )
                    &&& exists|played: TypedAnimation<T, W>, context: TransitionContext<S, T>|
                        cloned(old(binding_state).spec_current(), context.from_state) && cloned(
                            next_state,
                            context.to_state,
                        ) && cloned(old(runtime)@.value_result(motion.spec_id())->Ok_0, context.from)
                            && cloned(self.target_of(next_state)->Some_0, context.to)
                            && played.spec_storage() == AnimationStorage::Running(
                            #[trigger] self.spec_built(old(binding_state).spec_current(), next_state, context),
                        ) && #[trigger] old(runtime)@.record_interruption(
                            motion.spec_id(),
                            old(runtime)@.state_of(motion.spec_id()),
                            InterruptionReason::Replaced,
                        ).start_playback(motion.spec_id()).settled_with(
                            motion.spec_id(),
                            played,
                            final(runtime)@,
                        )
                }
                &&& self.applies(old(binding_state).spec_current(), next_state, old(runtime)@, motion)
                    ==> r is Ok && r->Ok_0 is Some
                &&& r matches Err(e) ==> *final(binding_state) == *old(binding_state)
                    && final(runtime)@ == old(runtime)@ && self.is_failure(
                    old(binding_state).spec_current(),
                    next_state,
                    old(runtime)@,
                    motion,
                    e,
                )
                &&& old(binding_state).spec_current() != next_state ==> r != Ok::<
                    Option<PlaybackId>,
                    MotionBindingError<S>,
                >(None)
            },
    {
        proof {
            if obeys_concrete_eq::<S>() {
                lemma_eq_law::<S>();
            }
        }
        if binding_state.previous == next_state {
            return Ok(None);
        }
        let ghost mut target_index: int = 0;
        let target = match self.find_target(&next_state) {
            Some(i) => {
                proof {
                    if obeys_concrete_eq::<S>() && self.distinct() {
                        lemma_value_at(self.targets@, next_state, i as int);
                    }
                }
                let t = self.targets[i].1.clone();
                proof {
                    target_index = i as int;
                }
                t
            },
            None => return Err(MotionBindingError::MissingTarget(next_state)),
        };
        let previous = binding_state.previous.clone();
        let exact = self.find_transition(&binding_state.previous, &next_state);
        if exact.is_none() && self.fallback.is_none() {
            return Err(MotionBindingError::MissingTransition { from: previous, to: next_state });
        }
        let current = match runtime.value(motion) {
            Ok(value) => value.clone(),
            Err(e) => return Err(MotionBindingError::Motion(e)),
        };
        let context = TransitionContext {
            from_state: previous,
            to_state: next_state.clone(),
            from: current,
            to: target,
        };
        let ghost ctx = context;
        proof {
            if obeys_concrete_eq::<S>() && self.distinct() {
                if let Some(i) = exact {
                    assert(self.transitions@[i as int] == (old(binding_state).spec_current(), next_state));
                }
            }
        }
        let animation = match exact {
            Some(i) => self.factories[i].0.build(context),
            None => match &self.fallback {
                Some(factory) => factory.0.build(context),
                None => {
                    return Err(MotionBindingError::MissingTransition {
                        from: context.from_state,
                        to: next_state,
                    });
                },
            },
        };
        let ghost built = animation;
        let played = TypedAnimation::from_box(animation);
        let ghost played_spec = played;
        let playback = match runtime.play_tracked(motion, played) {
            Ok(p) => p,
            Err(e) => return Err(MotionBindingError::Motion(e)),
        };
        proof {
            if obeys_concrete_eq::<S>() && self.distinct() {
                assert(built == self.spec_built(old(binding_state).spec_current(), next_state, ctx));
                assert(played_spec.spec_storage() == AnimationStorage::Running(built));
            }
        }
        binding_state.previous = next_state;
        Ok(Some(playback))
    }
}

} // verus!
