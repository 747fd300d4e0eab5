use vstd::arithmetic::div_mod::{lemma_div_nonincreasing, lemma_div_pos_is_pos};
use vstd::prelude::*;

verus! {

/// Fixed-point scale: one whole unit is `SCALE` raw steps (16 fractional bits).
pub const SCALE: i64 = 65536;

/// Largest raw magnitude a `Fixed` may hold (2^48 raw steps, or 2^32 whole
/// units). Keeping values inside this range lets every operation compute its
/// exact intermediate result in an `i128` before rounding and clamping.
pub const RAW_LIMIT: i64 = 281474976710656;

/// Clamp an unbounded integer into the representable raw range.
pub open spec fn clamped(v: int) -> int {
    if v > RAW_LIMIT as int {
        RAW_LIMIT as int
    } else if v < -(RAW_LIMIT as int) {
        -(RAW_LIMIT as int)
    } else {
        v
    }
}

/// Divide a raw product by `SCALE`, rounding toward zero.
pub open spec fn scale_down(v: int) -> int {
    if v >= 0 {
        v / (SCALE as int)
    } else {
        -((-v) / (SCALE as int))
    }
}

/// Raw-value model of saturating fixed-point addition.
pub open spec fn add_raw(a: int, b: int) -> int {
    clamped(a + b)
}

/// Raw-value model of saturating fixed-point subtraction.
pub open spec fn sub_raw(a: int, b: int) -> int {
    clamped(a - b)
}

/// Raw-value model of saturating fixed-point multiplication.
pub open spec fn mul_raw(a: int, b: int) -> int {
    clamped(scale_down(a * b))
}

/// Raw-value model of linear interpolation `a + (b - a) * t`, computed
/// exactly and clamped once at the end.
pub open spec fn lerp_raw(a: int, b: int, t: int) -> int {
    clamped(a + scale_down((b - a) * t))
}

/// A signed fixed-point number with 16 fractional bits, the scalar domain of
/// the engine: time, progress, easing amounts and scalar values all use it.
#[derive(Clone, Copy, PartialEq, Eq, Structural, Debug)]
pub struct Fixed {
    raw: i64,
}

impl View for Fixed {
    type V = int;

    closed spec fn view(&self) -> int {
        self.raw as int
    }
}

impl Fixed {
    #[verifier::type_invariant]
    spec fn bounded(self) -> bool {
        -RAW_LIMIT <= self.raw <= RAW_LIMIT
    }

    /// Whether a raw value is inside the representable range; every run-time
    /// `Fixed` satisfies this, but ghost values must assume it explicitly.
    pub open spec fn wf(self) -> bool {
        -(RAW_LIMIT as int) <= self@ <= RAW_LIMIT as int
    }

    /// The `Fixed` whose raw value is `clamped(v)`; spec-level constructor.
    pub closed spec fn from_view(v: int) -> Fixed {
        Fixed { raw: clamped(v) as i64 }
    }

    pub fn from_raw(raw: i64) -> (r: Fixed)
        requires
            -RAW_LIMIT <= raw <= RAW_LIMIT,
        ensures
            r@ == raw as int,
    {
        Fixed { raw }
    }

    /// The number `v`, i.e. `v * SCALE` raw steps.
    pub fn from_int(v: i32) -> (r: Fixed)
        ensures
            r@ == v as int * SCALE as int,
    {
        Fixed { raw: (v as i64) * SCALE }
    }

    pub fn zero() -> (r: Fixed)
        ensures
            r@ == 0,
    {
        Fixed { raw: 0 }
    }

    /// The number one, `SCALE` raw steps.
    pub fn one() -> (r: Fixed)
        ensures
            r@ == SCALE as int,
    {
        Fixed { raw: SCALE }
    }

    pub fn raw(self) -> (r: i64)
        ensures
            r as int == self@,
            -RAW_LIMIT <= r <= RAW_LIMIT,
    {
        proof {
            use_type_invariant(self);
        }
        self.raw
    }

    pub fn add(self, other: Fixed) -> (r: Fixed)
        ensures
            r@ == add_raw(self@, other@),
    {
        proof {
            use_type_invariant(self);
            use_type_invariant(other);
        }
        let s: i64 = self.raw + other.raw;
        Fixed { raw: clamp_wide(s as i128) }
    }

    pub fn sub(self, other: Fixed) -> (r: Fixed)
        ensures
            r@ == sub_raw(self@, other@),
    {
        proof {
            use_type_invariant(self);
            use_type_invariant(other);
        }
        let s: i64 = self.raw - other.raw;
        Fixed { raw: clamp_wide(s as i128) }
    }

    pub fn mul(self, other: Fixed) -> (r: Fixed)
        ensures
            r@ == mul_raw(self@, other@),
    {
        proof {
            use_type_invariant(self);
            use_type_invariant(other);
            assert((-(RAW_LIMIT as int)) * RAW_LIMIT as int <= (self.raw as int) * (other.raw
                as int) <= RAW_LIMIT as int * RAW_LIMIT as int) by (nonlinear_arith)
                requires
                    -(RAW_LIMIT as int) <= self.raw as int <= RAW_LIMIT as int,
                    -(RAW_LIMIT as int) <= other.raw as int <= RAW_LIMIT as int,
            ;
        }
        let p: i128 = (self.raw as i128) * (other.raw as i128);
        let q: i128 = scale_div(p);
        proof {
            lemma_scale_down_bound(p as int, RAW_LIMIT as int * RAW_LIMIT as int);
        }
        Fixed { raw: clamp_wide(q) }
    }

    /// Linear interpolation `self + (other - self) * amount`, computed exactly
    /// in a wide intermediate and clamped once at the end.
    pub fn lerp_to(self, other: Fixed, amount: Fixed) -> (r: Fixed)
        ensures
            r@ == lerp_raw(self@, other@, amount@),
    {
        proof {
            use_type_invariant(self);
            use_type_invariant(other);
            use_type_invariant(amount);
        }
        let d: i128 = (other.raw as i128) - (self.raw as i128);
        proof {
            assert((-2 * (RAW_LIMIT as int)) * RAW_LIMIT as int <= (d as int) * (amount.raw
                as int) <= 2 * (RAW_LIMIT as int) * RAW_LIMIT as int) by (nonlinear_arith)
                requires
                    -2 * (RAW_LIMIT as int) <= d as int <= 2 * (RAW_LIMIT as int),
                    -(RAW_LIMIT as int) <= amount.raw as int <= RAW_LIMIT as int,
            ;
        }
        let p: i128 = d * (amount.raw as i128);
        let m: i128 = scale_div(p);
        proof {
            lemma_scale_down_bound(p as int, 2 * (RAW_LIMIT as int) * RAW_LIMIT as int);
        }
        let s: i128 = (self.raw as i128) + m;
        Fixed { raw: clamp_wide(s) }
    }
}

/// Exact bound preservation for the rounding division.
proof fn lemma_scale_down_bound(p: int, b: int)
    requires
        0 <= b,
        -b <= p <= b,
    ensures
        -b <= scale_down(p) <= b,
{
    if p >= 0 {
        lemma_div_pos_is_pos(p, SCALE as int);
        lemma_div_nonincreasing(p, SCALE as int);
    } else {
        lemma_div_pos_is_pos(-p, SCALE as int);
        lemma_div_nonincreasing(-p, SCALE as int);
    }
}

/// Divide by `SCALE`, rounding toward zero, on a wide intermediate value.
fn scale_div(p: i128) -> (q: i128)
    requires
        p != i128::MIN,
    ensures
        q == scale_down(p as int),
{
    if p >= 0 {
        (((p as u128) / 65536) as i128)
    } else {
        -((((-p) as u128) / 65536) as i128)
    }
}

/// Clamp a wide intermediate value into the representable raw range.
fn clamp_wide(v: i128) -> (r: i64)
    ensures
        r as int == clamped(v as int),
{
    if v > RAW_LIMIT as i128 {
        RAW_LIMIT
    } else if v < -(RAW_LIMIT as i128) {
        -RAW_LIMIT
    } else {
        v as i64
    }
}

/// The view of `Fixed::from_view(v)` is `clamped(v)`.
pub proof fn lemma_from_view(v: int)
    ensures
        Fixed::from_view(v)@ == clamped(v),
{
}

/// Two `Fixed` values with equal views are equal.
pub proof fn lemma_fixed_eq(a: Fixed, b: Fixed)
    requires
        a@ == b@,
    ensures
        a == b,
{
}

} // verus!
