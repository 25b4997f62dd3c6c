//! The easing curves of the `lilt` crate, carried through timing values.

use vstd::prelude::*;

verus! {

/// The easing curve type of the `lilt` crate; its contents stay opaque here.
#[verifier::external_type_specification]
#[verifier::external_body]
pub struct ExEasing(lilt::Easing);

/// The named easing curves that timing constructors choose from.
#[derive(Debug, Clone, Copy, PartialEq, Eq, Structural)]
pub enum Curve {
    /// Constant speed.
    Linear,
    /// Starts slowly and accelerates.
    EaseIn,
    /// Starts quickly and decelerates.
    EaseOut,
    /// Accelerates, then decelerates.
    EaseInOut,
}

/// The `lilt` easing value that stands for `curve`.
pub uninterp spec fn easing_of(curve: Curve) -> lilt::Easing;

/// The `lilt::Easing` variant named by `curve` (`Linear`, `EaseIn`, `EaseOut` or
/// `EaseInOut`); no outside function is called, the variant is only built.
#[verifier::external_body]
pub(crate) fn curve_easing(curve: Curve) -> (r: lilt::Easing)
    ensures
        r == easing_of(curve),
{
    match curve {
        Curve::Linear => lilt::Easing::Linear,
        Curve::EaseIn => lilt::Easing::EaseIn,
        Curve::EaseOut => lilt::Easing::EaseOut,
        Curve::EaseInOut => lilt::Easing::EaseInOut,
    }
}

} // verus!
