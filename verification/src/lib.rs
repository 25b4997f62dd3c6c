//! Core animation primitives, timing types, composition utilities, and runtime storage.

pub mod binding;
pub mod presence;
pub mod runtime;
pub mod tick;
pub mod timeline;
pub mod timing;
pub mod traits;

pub use binding::error::MotionBindingError;
pub use binding::{MotionBinding, MotionBindingState, TransitionContext, TransitionFactory};
pub use presence::Presence;
pub use runtime::anim_dyn::{AnimationDyn, TransitionSource};
pub use runtime::command::AnimationCommand;
pub use runtime::error::MotionError;
pub use runtime::event::{
    InterruptionReason, MotionEvent, MotionEventKind, MotionEventTarget, MotionId, PlaybackId,
    RemovalReason,
};
pub use runtime::motion::Motion;
pub use runtime::settled::Settled;
pub use runtime::typed::{MotionSource, Tweener, TypedAnimation};
pub use runtime::{MotionRuntime, RetainPolicy};
pub use tick::{TickPolicy, TickRequest, WindowFrame};
pub use timeline::{Compose, Hold, Parallel, Sequence, Timeline};
pub use traits::{Animatable, Animation, AnimationState, BoxAnimation};
