//! Exact rational scalars.
//!
//! Terrain geometry in this crate is carried as exact rationals instead of
//! floating point: every coordinate the mesh generator, the raycaster and the
//! planar mapper produce is a ratio of two machine integers, and the contracts
//! speak about the mathematical value `num / den` through the view [`qv`].
//!
//! A [`Rat`] is not kept in reduced form; two values denote the same rational
//! exactly when [`q_eq`] holds of their views. The arithmetic methods state
//! their results exactly, so callers know the representation, not merely the
//! value, of what they get back.

use vstd::prelude::*;

verus! {

/// An exact rational number `num / den` with a positive denominator.
#[derive(Clone, Copy, Debug, PartialEq, Eq, Structural)]
pub struct Rat {
    pub num: i128,
    pub den: i128,
}

/// The mathematical view of a rational: the pair `(numerator, denominator)`
/// as unbounded integers.
pub open spec fn qv(r: Rat) -> (int, int) {
    (r.num as int, r.den as int)
}

/// A well-formed rational view: positive denominator.
pub open spec fn q_wf(a: (int, int)) -> bool {
    0 < a.1
}

/// Value equality of two rational views: `a.0 / a.1 == b.0 / b.1`,
/// stated by cross multiplication.
pub open spec fn q_eq(a: (int, int), b: (int, int)) -> bool {
    a.0 * b.1 == b.0 * a.1
}

/// `a <= b` on rational views with positive denominators.
pub open spec fn q_le(a: (int, int), b: (int, int)) -> bool {
    a.0 * b.1 <= b.0 * a.1
}

/// `a < b` on rational views with positive denominators.
pub open spec fn q_lt(a: (int, int), b: (int, int)) -> bool {
    a.0 * b.1 < b.0 * a.1
}

/// The sum of two rational views.
pub open spec fn q_add(a: (int, int), b: (int, int)) -> (int, int) {
    (a.0 * b.1 + b.0 * a.1, a.1 * b.1)
}

/// The difference of two rational views.
pub open spec fn q_sub(a: (int, int), b: (int, int)) -> (int, int) {
    (a.0 * b.1 - b.0 * a.1, a.1 * b.1)
}

/// The product of two rational views.
pub open spec fn q_mul(a: (int, int), b: (int, int)) -> (int, int) {
    (a.0 * b.0, a.1 * b.1)
}

/// The negation of a rational view.
pub open spec fn q_neg(a: (int, int)) -> (int, int) {
    (-a.0, a.1)
}

/// The quotient of two rational views (the divisor's numerator must not be
/// zero); the sign moves into the numerator so the denominator stays positive.
pub open spec fn q_div(a: (int, int), b: (int, int)) -> (int, int) {
    if b.0 >= 0 {
        (a.0 * b.1, a.1 * b.0)
    } else {
        (-(a.0 * b.1), -(a.1 * b.0))
    }
}

/// The view of the integer `n`.
pub open spec fn q_int(n: int) -> (int, int) {
    (n, 1)
}

/// Whether the unbounded integer `n` fits in an `i128`.
pub open spec fn in_i128(n: int) -> bool {
    i128::MIN <= n <= i128::MAX
}

/// A product of two integers bounded in magnitude is bounded by the product
/// of the bounds.
pub proof fn lemma_mul_in_bounds(a: int, b: int, ba: int, bb: int)
    by (nonlinear_arith)
    requires
        -ba <= a <= ba,
        -bb <= b <= bb,
        0 <= ba,
        0 <= bb,
    ensures
        -(ba * bb) <= a * b <= ba * bb,
{
}

impl Rat {
    /// Positive denominator; every method keeps this.
    pub open spec fn wf(self) -> bool {
        0 < self.den
    }

    /// Numerator within `[-b, b]` and denominator within `(0, b]`.
    /// Arithmetic on bounded rationals stays clear of `i128` overflow.
    pub open spec fn bounded(self, b: int) -> bool {
        -b <= self.num <= b && 0 < self.den <= b
    }

    /// Builds `num / den`.
    pub fn new(num: i128, den: i128) -> (r: Rat)
        requires
            den > 0,
        ensures
            r.num == num,
            r.den == den,
            r.wf(),
    {
        Rat { num, den }
    }

    /// Builds the integer `n` as a rational.
    pub fn from_int(n: i128) -> (r: Rat)
        ensures
            qv(r) == q_int(n as int),
            r.wf(),
    {
        Rat { num: n, den: 1 }
    }

    /// The exact sum `self + o`.
    pub fn plus(&self, o: &Rat) -> (r: Rat)
        requires
            self.wf(),
            o.wf(),
            in_i128(self.num * o.den),
            in_i128(o.num * self.den),
            in_i128(self.num * o.den + o.num * self.den),
            in_i128(self.den * o.den),
        ensures
            qv(r) == q_add(qv(*self), qv(*o)),
            r.wf(),
    {
        let r = Rat { num: self.num * o.den + o.num * self.den, den: self.den * o.den };
        proof {
            vstd::arithmetic::mul::lemma_mul_strictly_positive(self.den as int, o.den as int);
        }
        r
    }

    /// The exact difference `self - o`.
    pub fn minus(&self, o: &Rat) -> (r: Rat)
        requires
            self.wf(),
            o.wf(),
            in_i128(self.num * o.den),
            in_i128(o.num * self.den),
            in_i128(self.num * o.den - o.num * self.den),
            in_i128(self.den * o.den),
        ensures
            qv(r) == q_sub(qv(*self), qv(*o)),
            r.wf(),
    {
        let r = Rat { num: self.num * o.den - o.num * self.den, den: self.den * o.den };
        proof {
            vstd::arithmetic::mul::lemma_mul_strictly_positive(self.den as int, o.den as int);
        }
        r
    }

    /// The exact product `self * o`.
    pub fn times(&self, o: &Rat) -> (r: Rat)
        requires
            self.wf(),
            o.wf(),
            in_i128(self.num * o.num),
            in_i128(self.den * o.den),
        ensures
            qv(r) == q_mul(qv(*self), qv(*o)),
            r.wf(),
    {
        let r = Rat { num: self.num * o.num, den: self.den * o.den };
        proof {
            vstd::arithmetic::mul::lemma_mul_strictly_positive(self.den as int, o.den as int);
        }
        r
    }

    /// The exact negation `-self`.
    pub fn neg(&self) -> (r: Rat)
        requires
            self.wf(),
            in_i128(-(self.num as int)),
        ensures
            qv(r) == q_neg(qv(*self)),
            r.wf(),
    {
        Rat { num: -self.num, den: self.den }
    }

    /// The exact quotient `self / o`; `o` must be nonzero.
    pub fn over(&self, o: &Rat) -> (r: Rat)
        requires
            self.wf(),
            o.wf(),
            o.num != 0,
            in_i128(self.num * o.den),
            in_i128(-(self.num * o.den)),
            in_i128(self.den * o.num),
            in_i128(-(self.den * o.num)),
        ensures
            qv(r) == q_div(qv(*self), qv(*o)),
            r.wf(),
    {
        if o.num > 0 {
            let r = Rat { num: self.num * o.den, den: self.den * o.num };
            proof {
                vstd::arithmetic::mul::lemma_mul_strictly_positive(self.den as int, o.num as int);
            }
            r
        } else {
            let r = Rat { num: -(self.num * o.den), den: -(self.den * o.num) };
            proof {
                vstd::arithmetic::mul::lemma_mul_strictly_positive(
                    self.den as int,
                    -(o.num as int),
                );
                assert(self.den * (-(o.num as int)) == -(self.den * o.num))
                    by (nonlinear_arith);
            }
            r
        }
    }

    /// Exact `self <= o` on the rational values.
    pub fn le(&self, o: &Rat) -> (r: bool)
        requires
            self.wf(),
            o.wf(),
            in_i128(self.num * o.den),
            in_i128(o.num * self.den),
        ensures
            r == q_le(qv(*self), qv(*o)),
    {
        self.num * o.den <= o.num * self.den
    }

    /// Exact `self < o` on the rational values.
    pub fn lt(&self, o: &Rat) -> (r: bool)
        requires
            self.wf(),
            o.wf(),
            in_i128(self.num * o.den),
            in_i128(o.num * self.den),
        ensures
            r == q_lt(qv(*self), qv(*o)),
    {
        self.num * o.den < o.num * self.den
    }

    /// Exact value equality `self == o` as rationals (the representations may
    /// differ).
    pub fn eqv(&self, o: &Rat) -> (r: bool)
        requires
            self.wf(),
            o.wf(),
            in_i128(self.num * o.den),
            in_i128(o.num * self.den),
        ensures
            r == q_eq(qv(*self), qv(*o)),
    {
        self.num * o.den == o.num * self.den
    }
}

} // verus!
