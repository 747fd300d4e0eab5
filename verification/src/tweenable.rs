use vstd::prelude::*;

use crate::fixed::{clamped, lemma_fixed_eq, lemma_from_view, lerp_raw, Fixed};

verus! {

/// The capability a value type must provide to be tweened: linear
/// interpolation `a + (b - a) * t` by a fixed-point amount, together with a
/// mathematical model of it. Implementations decide how out-of-range results
/// are handled; the scalar instance saturates at the representable range.
pub trait Tweenable: Sized + Copy {
    /// Model of `lerp`.
    spec fn lerp_spec(self, other: Self, amount: int) -> Self;

    /// Interpolate from `self` toward `other`; `amount` is nominally in
    /// [0, 1], but overshooting curves may pass values outside it.
    fn lerp(self, other: Self, amount: Fixed) -> (r: Self)
        ensures
            r == self.lerp_spec(other, amount@),
    ;
}

impl Tweenable for Fixed {
    open spec fn lerp_spec(self, other: Self, amount: int) -> Self {
        Fixed::from_view(lerp_raw(self@, other@, amount))
    }

    fn lerp(self, other: Self, amount: Fixed) -> (r: Self) {
        let r = self.lerp_to(other, amount);
        proof {
            lemma_from_view(lerp_raw(self@, other@, amount@));
            assert(clamped(lerp_raw(self@, other@, amount@)) == lerp_raw(self@, other@, amount@));
            lemma_fixed_eq(r, Fixed::from_view(lerp_raw(self@, other@, amount@)));
        }
        r
    }
}

/// A 2D point or vector of fixed-point coordinates, tweened componentwise.
#[derive(Clone, Copy, PartialEq, Eq, Structural, Debug)]
pub struct Vec2 {
    pub x: Fixed,
    pub y: Fixed,
}

impl Tweenable for Vec2 {
    open spec fn lerp_spec(self, other: Self, amount: int) -> Self {
        Vec2 { x: self.x.lerp_spec(other.x, amount), y: self.y.lerp_spec(other.y, amount) }
    }

    fn lerp(self, other: Self, amount: Fixed) -> (r: Self) {
        Vec2 { x: self.x.lerp(other.x, amount), y: self.y.lerp(other.y, amount) }
    }
}

} // verus!
