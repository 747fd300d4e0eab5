pub mod easing;
pub mod fixed;
pub mod sequence;
pub mod tweenable;

use vstd::prelude::*;

use crate::easing::Easing;
use crate::fixed::Fixed;
use crate::tweenable::Tweenable;

verus! {

/// One-shot interpolation: applies `easing` to an externally managed
/// progress value and interpolates between `from` and `to`, independent of
/// the `Sequence` machinery.
pub fn tween<T: Tweenable, E: Easing>(from: T, to: T, progress: Fixed, easing: E) -> (r: T)
    ensures
        r == from.lerp_spec(to, easing.ease_spec(progress@)),
{
    let amount = easing.ease(progress);
    from.lerp(to, amount)
}

} // verus!
