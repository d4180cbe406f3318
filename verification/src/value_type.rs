//! The value abstraction: the scalar domains a quantity's magnitude may
//! come from.
//!
//! The engine stores exact rational magnitudes.  [`Rational`] is the real
//! scalar; [`Complex`] is the complex scalar, a pair of rationals, with the
//! exact field operations.  The two marker traits tag which domain a scalar
//! belongs to, mirroring the real/complex split of the quantity engine's
//! operation set (only a real scalar can be ordered, only a complex one has
//! components).

use vstd::prelude::*;

use crate::rational::{abs_i, lemma_canon_canon_add_fits, RatV, Rational};

verus! {

/// Marks a real-valued scalar type.
pub trait RealValueType {

}

/// Marks a complex-valued scalar type.
pub trait ComplexValueType {

}

impl RealValueType for Rational {

}

/// An exact complex number: a pair of rational components.
#[derive(Clone, Copy, PartialEq, Eq, Structural, Debug)]
pub struct Complex {
    pub re: Rational,
    pub im: Rational,
}

impl ComplexValueType for Complex {

}

impl Complex {
    /// Both components are well formed.
    pub open spec fn wf(self) -> bool {
        self.re.wf() && self.im.wf()
    }

    /// Builds a complex number from its components.
    pub fn new(re: Rational, im: Rational) -> (r: Complex)
        requires
            re.wf(),
            im.wf(),
        ensures
            r.wf(),
            r.re == re,
            r.im == im,
    {
        Complex { re, im }
    }

    /// A purely real complex number.
    pub fn from_real(re: Rational) -> (r: Complex)
        requires
            re.wf(),
        ensures
            r.wf(),
            r.re == re,
            r.im@ == RatV::from_int(0),
    {
        Complex { re, im: Rational::zero() }
    }

    /// Zero.
    pub fn zero() -> (r: Complex)
        ensures
            r.wf(),
            r.re@ == RatV::from_int(0),
            r.im@ == RatV::from_int(0),
    {
        Complex { re: Rational::zero(), im: Rational::zero() }
    }

    /// One.
    pub fn one() -> (r: Complex)
        ensures
            r.wf(),
            r.re@ == RatV::from_int(1),
            r.im@ == RatV::from_int(0),
    {
        Complex { re: Rational::one(), im: Rational::zero() }
    }

    /// The imaginary unit.
    pub fn i() -> (r: Complex)
        ensures
            r.wf(),
            r.re@ == RatV::from_int(0),
            r.im@ == RatV::from_int(1),
    {
        Complex { re: Rational::zero(), im: Rational::one() }
    }

    /// Component-wise addition fits.
    pub open spec fn add_fits(self, other: Complex) -> bool {
        self.re@.add_fits(other.re@) && self.im@.add_fits(other.im@)
    }

    /// Exact complex sum.
    pub fn add(&self, other: &Complex) -> (r: Complex)
        requires
            self.wf(),
            other.wf(),
            self.add_fits(*other),
        ensures
            r.wf(),
            r.re@ == self.re@.add(other.re@).canon(),
            r.im@ == self.im@.add(other.im@).canon(),
    {
        Complex { re: self.re.add(&other.re), im: self.im.add(&other.im) }
    }

    /// Exact complex difference.
    pub fn sub(&self, other: &Complex) -> (r: Complex)
        requires
            self.wf(),
            other.wf(),
            self.add_fits(*other),
        ensures
            r.wf(),
            r.re@ == self.re@.sub(other.re@).canon(),
            r.im@ == self.im@.sub(other.im@).canon(),
    {
        Complex { re: self.re.sub(&other.re), im: self.im.sub(&other.im) }
    }

    /// Exact negation.
    pub fn neg(&self) -> (r: Complex)
        requires
            self.wf(),
        ensures
            r.wf(),
            r.re@ == self.re@.neg(),
            r.im@ == self.im@.neg(),
    {
        Complex { re: self.re.neg(), im: self.im.neg() }
    }

    /// The four component products of a complex product fit, and so do the
    /// two cross combinations, stated over the raw products since reduction
    /// between the steps only shrinks the components.
    pub open spec fn mul_fits(self, other: Complex) -> bool {
        &&& self.re@.mul_fits(other.re@)
        &&& self.im@.mul_fits(other.im@)
        &&& self.re@.mul_fits(other.im@)
        &&& self.im@.mul_fits(other.re@)
        &&& combine_fits(self.re@.mul(other.re@), self.im@.mul(other.im@))
        &&& combine_fits(self.re@.mul(other.im@), self.im@.mul(other.re@))
    }

    /// Exact complex product:
    /// `(a + bi)(c + di) = (ac - bd) + (ad + bc)i`.
    pub fn mul(&self, other: &Complex) -> (r: Complex)
        requires
            self.wf(),
            other.wf(),
            self.mul_fits(*other),
        ensures
            r.wf(),
            r.re@ == self.re@.mul(other.re@).canon().sub(
                self.im@.mul(other.im@).canon(),
            ).canon(),
            r.im@ == self.re@.mul(other.im@).canon().add(
                self.im@.mul(other.re@).canon(),
            ).canon(),
    {
        let ac = self.re.mul(&other.re);
        let bd = self.im.mul(&other.im);
        let ad = self.re.mul(&other.im);
        let bc = self.im.mul(&other.re);
        proof {
            lemma_combine(self.re@, other.re@, self.im@, other.im@);
            lemma_combine(self.re@, other.im@, self.im@, other.re@);
        }
        Complex { re: ac.sub(&bd), im: ad.add(&bc) }
    }

    /// Scales both components by a real scalar.
    pub fn scale(&self, s: &Rational) -> (r: Complex)
        requires
            self.wf(),
            s.wf(),
            self.re@.mul_fits(s@),
            self.im@.mul_fits(s@),
        ensures
            r.wf(),
            r.re@ == self.re@.mul(s@).canon(),
            r.im@ == self.im@.mul(s@).canon(),
    {
        Complex { re: self.re.mul(s), im: self.im.mul(s) }
    }

    /// The squared norm `re^2 + im^2` fits, and the two component quotients
    /// against it fit.
    pub open spec fn inv_fits(self) -> bool {
        &&& self.re@.mul_fits(self.re@)
        &&& self.im@.mul_fits(self.im@)
        &&& combine_fits(self.re@.mul(self.re@), self.im@.mul(self.im@))
        &&& self.re@.div_fits(self.norm_sqr_v())
        &&& self.im@.div_fits(self.norm_sqr_v())
    }

    /// The squared norm as a fraction value.
    pub open spec fn norm_sqr_v(self) -> RatV {
        self.re@.mul(self.re@).canon().add(self.im@.mul(self.im@).canon()).canon()
    }

    /// The squared norm `re^2 + im^2`: the exact, always-rational part of
    /// the polar decomposition.
    pub fn norm_sqr(&self) -> (r: Rational)
        requires
            self.wf(),
            self.re@.mul_fits(self.re@),
            self.im@.mul_fits(self.im@),
            combine_fits(self.re@.mul(self.re@), self.im@.mul(self.im@)),
        ensures
            r.wf(),
            r@ == self.norm_sqr_v(),
    {
        let rr = self.re.mul(&self.re);
        let ii = self.im.mul(&self.im);
        proof {
            lemma_combine(self.re@, self.re@, self.im@, self.im@);
        }
        rr.add(&ii)
    }

    /// Exact complex reciprocal: the conjugate over the squared norm.  The
    /// value must be nonzero.
    pub fn inv(&self) -> (r: Complex)
        requires
            self.wf(),
            self.inv_fits(),
            self.norm_sqr_v().n != 0,
        ensures
            r.wf(),
            r.re@ == self.re@.div(self.norm_sqr_v()).canon(),
            r.im@ == self.im@.div(self.norm_sqr_v()).canon().neg(),
    {
        let n = self.norm_sqr();
        let re = self.re.div(&n);
        let im = self.im.div(&n).neg();
        Complex { re, im }
    }

    /// An exact complex value is always finite.
    pub fn is_finite(&self) -> (r: bool)
        ensures
            r == true,
    {
        true
    }

    /// An exact complex value is never infinite.
    pub fn is_infinite(&self) -> (r: bool)
        ensures
            r == false,
    {
        false
    }

    /// An exact complex value is never a NaN.
    pub fn is_nan(&self) -> (r: bool)
        ensures
            r == false,
    {
        false
    }
}

/// The raw combination bound of two products: their cross products fit with
/// room to spare for the sum, and the denominators' product fits.
pub open spec fn combine_fits(x: RatV, y: RatV) -> bool {
    &&& abs_i(x.n * y.d) + abs_i(y.n * x.d) <= i128::MAX
    &&& x.d * y.d <= i128::MAX
}

/// Transfers [`combine_fits`] of two raw products onto the reduced values
/// the composed operation actually combines.
proof fn lemma_combine(a: RatV, b: RatV, c: RatV, e: RatV)
    requires
        a.d > 0,
        b.d > 0,
        c.d > 0,
        e.d > 0,
        combine_fits(a.mul(b), c.mul(e)),
    ensures
        a.mul(b).canon().add_fits(c.mul(e).canon()),
{
    assert(a.mul(b).d > 0 && c.mul(e).d > 0) by (nonlinear_arith)
        requires
            a.mul(b).d == a.d * b.d,
            c.mul(e).d == c.d * e.d,
            a.d > 0,
            b.d > 0,
            c.d > 0,
            e.d > 0,
    ;
    lemma_canon_canon_add_fits(a.mul(b), c.mul(e));
}

} // verus!
