use vstd::prelude::*;

use crate::fixed::{add_raw, mul_raw, scale_down, sub_raw, Fixed, RAW_LIMIT, SCALE};

verus! {

/// Uniform representation of an easing curve. Stages store one of these, so
/// that a single sequence can mix curves of different types; it is evaluated
/// by a match, and decorators nest through a box.
pub enum Curve {
    Linear,
    Powi(u32),
    Back { amount: Fixed },
    Out(Box<Curve>),
}

/// Fixed-point power: one (`SCALE`) multiplied by `x` `n` times.
pub open spec fn pow_raw(x: int, n: nat) -> int
    decreases n,
{
    if n == 0 {
        SCALE as int
    } else {
        mul_raw(pow_raw(x, (n - 1) as nat), x)
    }
}

/// Model of the back (overshoot) curve `(a + 1) * x^3 - a * x^2`.
pub open spec fn back_raw(a: int, x: int) -> int {
    let x2 = mul_raw(x, x);
    let x3 = mul_raw(x2, x);
    sub_raw(mul_raw(x3, add_raw(a, SCALE as int)), mul_raw(x2, a))
}

impl Curve {
    /// What the curve computes on a raw progress value.
    pub open spec fn eval(self, x: int) -> int
        decreases self,
    {
        match self {
            Curve::Linear => x,
            Curve::Powi(n) => pow_raw(x, n as nat),
            Curve::Back { amount } => back_raw(amount@, x),
            Curve::Out(inner) => sub_raw(SCALE as int, inner.eval(sub_raw(SCALE as int, x))),
        }
    }

    /// Evaluate the curve on a fixed-point progress value.
    pub fn evaluate(&self, x: Fixed) -> (r: Fixed)
        ensures
            r@ == self.eval(x@),
        decreases *self,
    {
        match self {
            Curve::Linear => x,
            Curve::Powi(n) => pow_fixed(x, *n),
            Curve::Back { amount } => back_fixed(*amount, x),
            Curve::Out(inner) => {
                let one = Fixed::one();
                one.sub(inner.evaluate(one.sub(x)))
            },
        }
    }
}

/// Fixed-point power by iterated multiplication.
fn pow_fixed(x: Fixed, n: u32) -> (r: Fixed)
    ensures
        r@ == pow_raw(x@, n as nat),
{
    let mut acc = Fixed::one();
    let mut i: u32 = 0;
    while i < n
        invariant
            i <= n,
            acc@ == pow_raw(x@, i as nat),
        decreases n - i,
    {
        acc = acc.mul(x);
        i = i + 1;
    }
    acc
}

/// The back polynomial on fixed-point values.
fn back_fixed(amount: Fixed, x: Fixed) -> (r: Fixed)
    ensures
        r@ == back_raw(amount@, x@),
{
    let x2 = x.mul(x);
    let x3 = x2.mul(x);
    x3.mul(amount.add(Fixed::one())).sub(x2.mul(amount))
}

/// An easing curve: a pure, stateless reshaping of normalized progress.
/// Progress is nominally in [0, 1]; curves may return values outside that
/// range to overshoot. `into_curve` hands the sequence engine a uniform
/// representation that evaluates exactly as this curve does.
pub trait Easing: Sized {
    /// Model of `ease`.
    spec fn ease_spec(&self, x: int) -> int;

    /// Reshape a normalized progress value.
    fn ease(&self, x: Fixed) -> (r: Fixed)
        ensures
            r@ == self.ease_spec(x@),
    ;

    /// The uniform representation of this curve.
    fn into_curve(self) -> (c: Curve)
        ensures
            forall|x: int| #[trigger] c.eval(x) == self.ease_spec(x),
    ;
}

/// The identity curve: `ease(x) == x`.
#[derive(Clone, Copy, Debug)]
pub struct Linear;

impl Easing for Linear {
    open spec fn ease_spec(&self, x: int) -> int {
        x
    }

    fn ease(&self, x: Fixed) -> (r: Fixed) {
        x
    }

    fn into_curve(self) -> (c: Curve) {
        Curve::Linear
    }
}

/// Raise progress to an integer power: `ease(x) == x^n`.
#[derive(Clone, Copy, Debug)]
pub struct Powi(pub u32);

impl Easing for Powi {
    open spec fn ease_spec(&self, x: int) -> int {
        pow_raw(x, self.0 as nat)
    }

    fn ease(&self, x: Fixed) -> (r: Fixed) {
        pow_fixed(x, self.0)
    }

    fn into_curve(self) -> (c: Curve) {
        Curve::Powi(self.0)
    }
}

/// The cubic overshoot curve `(a + 1) * x^3 - a * x^2`.
#[derive(Clone, Copy, Debug)]
pub struct Back(pub Fixed);

impl Back {
    /// The canonical overshoot amount, about 1.70158.
    pub fn with_default_amount() -> (r: Self)
        ensures
            r.0@ == 111514,
    {
        Back(Fixed::from_raw(111514))
    }
}

impl Easing for Back {
    open spec fn ease_spec(&self, x: int) -> int {
        back_raw(self.0@, x)
    }

    fn ease(&self, x: Fixed) -> (r: Fixed) {
        back_fixed(self.0, x)
    }

    fn into_curve(self) -> (c: Curve) {
        Curve::Back { amount: self.0 }
    }
}

/// Decorator that reflects a curve: `ease(x) == 1 - inner.ease(1 - x)`, so an
/// ease-in becomes an ease-out. Decorators nest arbitrarily.
#[derive(Clone, Copy, Debug)]
pub struct Out<E: Easing>(pub E);

impl<E: Easing> Easing for Out<E> {
    open spec fn ease_spec(&self, x: int) -> int {
        sub_raw(SCALE as int, self.0.ease_spec(sub_raw(SCALE as int, x)))
    }

    fn ease(&self, x: Fixed) -> (r: Fixed) {
        let one = Fixed::one();
        one.sub(self.0.ease(one.sub(x)))
    }

    fn into_curve(self) -> (c: Curve) {
        let ghost me = self;
        let inner = self.0.into_curve();
        let c = Curve::Out(Box::new(inner));
        proof {
            assert forall|x: int| #[trigger] c.eval(x) == me.ease_spec(x) by {
                assert(c.eval(x) == sub_raw(
                    SCALE as int,
                    inner.eval(sub_raw(SCALE as int, x)),
                ));
                assert(inner.eval(sub_raw(SCALE as int, x)) == me.0.ease_spec(
                    sub_raw(SCALE as int, x),
                ));
            }
        }
        c
    }
}

/// Powers fix both endpoints of the unit interval: for every `n >= 1`,
/// `x^n` is `0` at `x == 0` and one at `x == 1`, exactly.
pub proof fn lemma_pow_endpoints(n: u32)
    requires
        n >= 1,
    ensures
        pow_raw(0, n as nat) == 0,
        pow_raw(SCALE as int, n as nat) == SCALE as int,
    decreases n,
{
    if n == 1 {
        assert(pow_raw(0, 0) == SCALE as int);
        assert(pow_raw(0, 1) == mul_raw(SCALE as int, 0));
        assert(pow_raw(SCALE as int, 0) == SCALE as int);
        assert(pow_raw(SCALE as int, 1) == mul_raw(SCALE as int, SCALE as int));
        assert(scale_down(SCALE as int * SCALE as int) == SCALE as int);
    } else {
        lemma_pow_endpoints((n - 1) as u32);
    }
}

/// The reflection law of the `Out` decorator: on the unit interval it
/// computes one minus the inner curve at the reflected progress value,
/// exactly whenever the inner result is not at the saturation boundary.
pub proof fn lemma_out_reflects<E: Easing>(outer: Out<E>, x: int)
    requires
        0 <= x <= SCALE as int,
    ensures
        outer.ease_spec(x) == sub_raw(SCALE as int, outer.0.ease_spec(SCALE as int - x)),
        (SCALE as int - RAW_LIMIT as int <= outer.0.ease_spec(SCALE as int - x) <= SCALE as int
            + RAW_LIMIT as int) ==> outer.ease_spec(x) == SCALE as int - outer.0.ease_spec(
            SCALE as int - x),
{
    assert(sub_raw(SCALE as int, x) == SCALE as int - x);
}

} // verus!
