//! The quantity value engine.
//!
//! A [`Quantity`] couples an exact magnitude, always stored in the quantity
//! type's base unit, with a ghost dimension vector and a ghost kind tag.  The
//! ghost data costs nothing at run time; instead, every operation carries the
//! preconditions of the dimension and kind algebras, so a combination that is
//! physically meaningless (adding a length to a mass, adding two absolute
//! temperatures, taking the square root of an odd dimension) cannot be
//! verified and is rejected before any magnitude arithmetic exists.
//! Unverified callers use the run-time registry types ([`SiDim`],
//! [`KindRules`]) to test the same conditions before calling in.

use vstd::prelude::*;

use crate::dimension::{DimV, Dimension, SiDim};
use crate::kind::{Kind, KindRules};
use crate::power::{is_root_floor, rat_root, root_arg, root_fits};
use crate::rational::{pow10, RatV, Rational};
use crate::unit::{UnitDef, UnitFormatter};
use crate::value_type::Complex;
use vstd::arithmetic::power::pow;

verus! {

/// The static description of a quantity type: its dimension vector and its
/// kind.  Values of this type play the role that quantity type aliases play
/// in a fully type-level formulation: `si::length()` describes lengths, and
/// constructing a length quantity goes through that descriptor.
#[derive(Clone, Copy, PartialEq, Eq, Structural, Debug)]
pub struct QuantityTypeInfo {
    pub dim: SiDim,
    pub kind: Kind,
}

impl Dimension for QuantityTypeInfo {
    open spec fn dim(&self) -> DimV {
        self.dim@
    }
}

/// A quantity value: an exact magnitude in the base unit, a ghost dimension
/// and a ghost kind.  Size and alignment equal those of the magnitude alone.
pub struct Quantity {
    pub value: Rational,
    pub dim: Ghost<DimV>,
    pub kind: Ghost<Kind>,
}

impl Dimension for Quantity {
    open spec fn dim(&self) -> DimV {
        self.dim@
    }
}

impl Quantity {
    /// A well-formed quantity carries a well-formed magnitude.
    pub open spec fn wf(self) -> bool {
        self.value.wf()
    }

    /// The ghost kind tag.
    pub open spec fn kind_of(self) -> Kind {
        self.kind@
    }

    /// Wraps a magnitude as the base representation of the quantity type
    /// described by `info`.
    pub fn new_base(info: &QuantityTypeInfo, value: Rational) -> (r: Quantity)
        requires
            value.wf(),
        ensures
            r.wf(),
            r.value == value,
            r.dim@ == info.dim@,
            r.kind@ == info.kind,
    {
        Quantity { value, dim: Ghost(info.dim@), kind: Ghost(info.kind) }
    }

    /// Builds a quantity from a magnitude expressed in the given unit: the
    /// unit's affine conversion takes the magnitude into the base
    /// representation, and the quantity adopts the dimension and kind the
    /// conversion is registered for.
    pub fn new(unit: &UnitDef, value: Rational) -> (r: Quantity)
        requires
            unit.wf(),
            value.wf(),
            unit.conv.to_base_fits(value@),
        ensures
            r.wf(),
            r.value@ == unit.conv.to_base_v(value@),
            r.value@.eqv(value@.add(unit.conv.offset@).mul(unit.conv.factor@)),
            r.dim@ == unit.conv.dim@,
            r.kind@ == unit.conv.kind,
    {
        let base = unit.conv.convert_to_base(&value);
        Quantity { value: base, dim: Ghost(unit.conv.dim@), kind: Ghost(unit.conv.kind) }
    }

    /// Reads this quantity back out in the given unit, through the inverse
    /// affine conversion.  The unit must be registered for exactly this
    /// quantity's dimension and kind.
    pub fn get(&self, unit: &UnitDef) -> (r: Rational)
        requires
            self.wf(),
            unit.wf(),
            self.dim@ == unit.conv.dim@,
            self.kind@ == unit.conv.kind,
            unit.conv.from_base_fits(self.value@),
        ensures
            r.wf(),
            r@ == unit.conv.from_base_v(self.value@),
            r@.eqv(self.value@.div(unit.conv.factor@).sub(unit.conv.offset@)),
    {
        unit.conv.convert_from_base(&self.value)
    }


    /// Reads this quantity out in the given unit and pairs the magnitude
    /// with that unit's print name for rendering.
    pub fn formatted(&self, unit: &UnitDef) -> (f: UnitFormatter)
        requires
            self.wf(),
            unit.wf(),
            self.dim@ == unit.conv.dim@,
            self.kind@ == unit.conv.kind,
            unit.conv.from_base_fits(self.value@),
        ensures
            f.wf(),
            f.value@ == unit.conv.from_base_v(self.value@),
            f.print_name@ == unit.unit.print_name@,
    {
        let v = self.get(unit);
        UnitFormatter::new(v, unit.unit.print_name.as_str())
    }

    /// Relaxes the kind to the neutral kind, keeping magnitude and dimension.
    /// This is the documented escape hatch when a kind rule is intentionally
    /// not provided; there is no way back to a specific kind.
    pub fn unrestricted(&self) -> (r: Quantity)
        requires
            self.wf(),
        ensures
            r.wf(),
            r.value == self.value,
            r.dim@ == self.dim@,
            r.kind@ == Kind::Neutral,
    {
        Quantity { value: self.value, dim: Ghost(self.dim@), kind: Ghost(Kind::Neutral) }
    }

    /// Sum of two quantities.  They must agree in dimension, and the kind
    /// registry must allow the addition; the result keeps the dimension and
    /// carries the kind the rule yields.
    pub fn add(&self, rhs: &Quantity, rules: &KindRules) -> (r: Quantity)
        requires
            self.wf(),
            rhs.wf(),
            self.dim@ == rhs.dim@,
            rules.add_rule(self.kind@, rhs.kind@) is Some,
            self.value@.add_fits(rhs.value@),
        ensures
            r.wf(),
            r.value@ == self.value@.add(rhs.value@).canon(),
            r.value@.eqv(self.value@.add(rhs.value@)),
            r.dim@ == self.dim@,
            Some(r.kind@) == rules.add_rule(self.kind@, rhs.kind@),
    {
        let ghost k = rules.add_rule(self.kind@, rhs.kind@).unwrap();
        Quantity { value: self.value.add(&rhs.value), dim: Ghost(self.dim@), kind: Ghost(k) }
    }

    /// Difference of two quantities, under the subtraction rules.
    pub fn sub(&self, rhs: &Quantity, rules: &KindRules) -> (r: Quantity)
        requires
            self.wf(),
            rhs.wf(),
            self.dim@ == rhs.dim@,
            rules.sub_rule(self.kind@, rhs.kind@) is Some,
            self.value@.add_fits(rhs.value@),
        ensures
            r.wf(),
            r.value@ == self.value@.sub(rhs.value@).canon(),
            r.value@.eqv(self.value@.sub(rhs.value@)),
            r.dim@ == self.dim@,
            Some(r.kind@) == rules.sub_rule(self.kind@, rhs.kind@),
    {
        let ghost k = rules.sub_rule(self.kind@, rhs.kind@).unwrap();
        Quantity { value: self.value.sub(&rhs.value), dim: Ghost(self.dim@), kind: Ghost(k) }
    }

    /// Negation: dimension and kind are untouched.
    pub fn neg(&self) -> (r: Quantity)
        requires
            self.wf(),
        ensures
            r.wf(),
            r.value@ == self.value@.neg(),
            r.dim@ == self.dim@,
            r.kind@ == self.kind@,
    {
        Quantity { value: self.value.neg(), dim: Ghost(self.dim@), kind: Ghost(self.kind@) }
    }

    /// Product of two quantities: dimensions compose, and the kind registry
    /// must allow the multiplication.
    pub fn mul(&self, rhs: &Quantity, rules: &KindRules) -> (r: Quantity)
        requires
            self.wf(),
            rhs.wf(),
            rules.mul_rule(self.kind@, rhs.kind@) is Some,
            self.value@.mul_fits(rhs.value@),
        ensures
            r.wf(),
            r.value@ == self.value@.mul(rhs.value@).canon(),
            r.value@.eqv(self.value@.mul(rhs.value@)),
            r.dim@ == self.dim@.compose(rhs.dim@),
            Some(r.kind@) == rules.mul_rule(self.kind@, rhs.kind@),
    {
        let ghost k = rules.mul_rule(self.kind@, rhs.kind@).unwrap();
        Quantity {
            value: self.value.mul(&rhs.value),
            dim: Ghost(self.dim@.compose(rhs.dim@)),
            kind: Ghost(k),
        }
    }

    /// Quotient of two quantities: dimensions decompose, and the kind
    /// registry must allow the division.  The divisor's magnitude must be
    /// nonzero: an exact scalar has no infinity to absorb a division by zero.
    pub fn div(&self, rhs: &Quantity, rules: &KindRules) -> (r: Quantity)
        requires
            self.wf(),
            rhs.wf(),
            rhs.value@.n != 0,
            rules.div_rule(self.kind@, rhs.kind@) is Some,
            self.value@.div_fits(rhs.value@),
        ensures
            r.wf(),
            r.value@ == self.value@.div(rhs.value@).canon(),
            r.value@.eqv(self.value@.div(rhs.value@)),
            r.dim@ == self.dim@.decompose(rhs.dim@),
            Some(r.kind@) == rules.div_rule(self.kind@, rhs.kind@),
    {
        let ghost k = rules.div_rule(self.kind@, rhs.kind@).unwrap();
        Quantity {
            value: self.value.div(&rhs.value),
            dim: Ghost(self.dim@.decompose(rhs.dim@)),
            kind: Ghost(k),
        }
    }

    /// Multiplication by a bare scalar: dimension and kind are untouched.
    pub fn scalar_mul(&self, s: &Rational) -> (r: Quantity)
        requires
            self.wf(),
            s.wf(),
            self.value@.mul_fits(s@),
        ensures
            r.wf(),
            r.value@ == self.value@.mul(s@).canon(),
            r.value@.eqv(self.value@.mul(s@)),
            r.dim@ == self.dim@,
            r.kind@ == self.kind@,
    {
        Quantity { value: self.value.mul(s), dim: Ghost(self.dim@), kind: Ghost(self.kind@) }
    }

    /// Division by a bare nonzero scalar: dimension and kind are untouched.
    pub fn scalar_div(&self, s: &Rational) -> (r: Quantity)
        requires
            self.wf(),
            s.wf(),
            s@.n != 0,
            self.value@.div_fits(s@),
        ensures
            r.wf(),
            r.value@ == self.value@.div(s@).canon(),
            r.value@.eqv(self.value@.div(s@)),
            r.dim@ == self.dim@,
            r.kind@ == self.kind@,
    {
        Quantity { value: self.value.div(s), dim: Ghost(self.dim@), kind: Ghost(self.kind@) }
    }

    /// Reciprocal: the dimension inverts, and the kind follows the rule for
    /// dividing the neutral kind by this kind.
    pub fn recip(&self, rules: &KindRules) -> (r: Quantity)
        requires
            self.wf(),
            self.value@.n != 0,
            rules.div_rule(Kind::Neutral, self.kind@) is Some,
        ensures
            r.wf(),
            r.value@ == self.value@.inv(),
            r.dim@ == self.dim@.invert(),
            Some(r.kind@) == rules.div_rule(Kind::Neutral, self.kind@),
    {
        let ghost k = rules.div_rule(Kind::Neutral, self.kind@).unwrap();
        Quantity { value: self.value.recip(), dim: Ghost(self.dim@.invert()), kind: Ghost(k) }
    }

    /// Absolute value of the magnitude; dimension and kind are untouched.
    pub fn abs(&self) -> (r: Quantity)
        requires
            self.wf(),
        ensures
            r.wf(),
            self.value@.n >= 0 ==> r.value@ == self.value@,
            self.value@.n < 0 ==> r.value@ == self.value@.neg(),
            r.dim@ == self.dim@,
            r.kind@ == self.kind@,
    {
        Quantity { value: self.value.abs(), dim: Ghost(self.dim@), kind: Ghost(self.kind@) }
    }

    /// The smaller of two quantities of the same type.
    pub fn min(&self, other: &Quantity) -> (r: Quantity)
        requires
            self.wf(),
            other.wf(),
            self.dim@ == other.dim@,
            self.kind@ == other.kind@,
            self.value@.cmp_fits(other.value@),
        ensures
            r.wf(),
            r.value == if self.value@.lev(other.value@) {
                self.value
            } else {
                other.value
            },
            r.dim@ == self.dim@,
            r.kind@ == self.kind@,
    {
        Quantity {
            value: self.value.min(&other.value),
            dim: Ghost(self.dim@),
            kind: Ghost(self.kind@),
        }
    }

    /// The larger of two quantities of the same type.
    pub fn max(&self, other: &Quantity) -> (r: Quantity)
        requires
            self.wf(),
            other.wf(),
            self.dim@ == other.dim@,
            self.kind@ == other.kind@,
            self.value@.cmp_fits(other.value@),
        ensures
            r.wf(),
            r.value == if other.value@.lev(self.value@) {
                self.value
            } else {
                other.value
            },
            r.dim@ == self.dim@,
            r.kind@ == self.kind@,
    {
        Quantity {
            value: self.value.max(&other.value),
            dim: Ghost(self.dim@),
            kind: Ghost(self.kind@),
        }
    }

    /// Clamps the magnitude between two bounds of the same quantity type.
    pub fn clamp(&self, lo: &Quantity, hi: &Quantity) -> (r: Quantity)
        requires
            self.wf(),
            lo.wf(),
            hi.wf(),
            self.dim@ == lo.dim@ && self.dim@ == hi.dim@,
            self.kind@ == lo.kind@ && self.kind@ == hi.kind@,
            lo.value@.lev(hi.value@),
            self.value@.cmp_fits(lo.value@),
            self.value@.cmp_fits(hi.value@),
            lo.value@.cmp_fits(hi.value@),
        ensures
            r.wf(),
            r.value == if !lo.value@.lev(self.value@) {
                lo.value
            } else if !self.value@.lev(hi.value@) {
                hi.value
            } else {
                self.value
            },
            r.dim@ == self.dim@,
            r.kind@ == self.kind@,
    {
        if self.value.lt(&lo.value) {
            Quantity { value: lo.value, dim: Ghost(self.dim@), kind: Ghost(self.kind@) }
        } else if hi.value.lt(&self.value) {
            Quantity { value: hi.value, dim: Ghost(self.dim@), kind: Ghost(self.kind@) }
        } else {
            Quantity { value: self.value, dim: Ghost(self.dim@), kind: Ghost(self.kind@) }
        }
    }


    /// Raises this quantity to an integer power: the dimension scales by the
    /// exponent, the kind relaxes to neutral, and the magnitude is the exact
    /// component-wise power (for a negative exponent, of the reciprocal).
    pub fn powi(&self, p: i32) -> (r: Quantity)
        requires
            self.wf(),
            p > i32::MIN,
            p >= 0 ==> self.value.powi_fits(p as nat),
            p < 0 ==> self.value@.n != 0,
            p < 0 ==> self.value.recip_spec_fits((-p) as nat),
        ensures
            r.wf(),
            r.dim@ == self.dim@.scale(p as int),
            r.kind@ == Kind::Neutral,
            p >= 0 ==> r.value@ == (RatV {
                n: pow(self.value@.n, p as nat),
                d: pow(self.value@.d, p as nat),
            }).canon(),
            p < 0 ==> r.value@ == (RatV {
                n: pow(self.value@.inv().n, (-p) as nat),
                d: pow(self.value@.inv().d, (-p) as nat),
            }).canon(),
    {
        let value = if p >= 0 {
            self.value.powi(p as u32)
        } else {
            let inv = self.value.recip();
            inv.powi((-p) as u32)
        };
        Quantity { value, dim: Ghost(self.dim@.scale(p as int)), kind: Ghost(Kind::Neutral) }
    }

    /// The `p`-th root: every dimension exponent must be an exact multiple
    /// of `p`, the magnitude must not be negative, and the kind relaxes to
    /// neutral.  The magnitude is the floor root on the `10^9` decimal grid,
    /// which is the exact root whenever one exists on that grid.
    pub fn nth_root(&self, p: u32) -> (r: Quantity)
        requires
            self.wf(),
            p >= 1,
            self.value@.n >= 0,
            self.dim@.divisible(p as int),
            root_fits(self.value@, p as nat),
        ensures
            r.wf(),
            r.dim@ == self.dim@.exact_divide(p as int),
            r.kind@ == Kind::Neutral,
            exists|w: int|
                #![trigger is_root_floor(w, root_arg(self.value@, p as nat), p as nat)]
                is_root_floor(w, root_arg(self.value@, p as nat), p as nat) && r.value@ == (RatV {
                    n: w,
                    d: self.value@.d * pow10(9),
                }).canon(),
    {
        let value = rat_root(&self.value, p);
        Quantity {
            value,
            dim: Ghost(self.dim@.exact_divide(p as int)),
            kind: Ghost(Kind::Neutral),
        }
    }

    /// The square root: shorthand for the second root.
    pub fn sqrt(&self) -> (r: Quantity)
        requires
            self.wf(),
            self.value@.n >= 0,
            self.dim@.divisible(2),
            root_fits(self.value@, 2),
        ensures
            r.wf(),
            r.dim@ == self.dim@.exact_divide(2),
            r.kind@ == Kind::Neutral,
            exists|w: int|
                #![trigger is_root_floor(w, root_arg(self.value@, 2), 2)]
                is_root_floor(w, root_arg(self.value@, 2), 2) && r.value@ == (RatV {
                    n: w,
                    d: self.value@.d * pow10(9),
                }).canon(),
    {
        self.nth_root(2)
    }

    /// The cube root: shorthand for the third root.
    pub fn cbrt(&self) -> (r: Quantity)
        requires
            self.wf(),
            self.value@.n >= 0,
            self.dim@.divisible(3),
            root_fits(self.value@, 3),
        ensures
            r.wf(),
            r.dim@ == self.dim@.exact_divide(3),
            r.kind@ == Kind::Neutral,
            exists|w: int|
                #![trigger is_root_floor(w, root_arg(self.value@, 3), 3)]
                is_root_floor(w, root_arg(self.value@, 3), 3) && r.value@ == (RatV {
                    n: w,
                    d: self.value@.d * pow10(9),
                }).canon(),
    {
        self.nth_root(3)
    }


    /// The zero of a quantity type.
    pub fn zero(info: &QuantityTypeInfo) -> (r: Quantity)
        ensures
            r.wf(),
            r.value@ == RatV::from_int(0),
            r.dim@ == info.dim@,
            r.kind@ == info.kind,
    {
        Quantity { value: Rational::zero(), dim: Ghost(info.dim@), kind: Ghost(info.kind) }
    }

    /// The one of a quantity type.
    pub fn one(info: &QuantityTypeInfo) -> (r: Quantity)
        ensures
            r.wf(),
            r.value@ == RatV::from_int(1),
            r.dim@ == info.dim@,
            r.kind@ == info.kind,
    {
        Quantity { value: Rational::one(), dim: Ghost(info.dim@), kind: Ghost(info.kind) }
    }

    /// The floor of the magnitude; dimension and kind are untouched.
    pub fn floor(&self) -> (r: Quantity)
        requires
            self.wf(),
        ensures
            r.wf(),
            r.value@ == RatV::from_int(self.value@.n / self.value@.d),
            r.dim@ == self.dim@,
            r.kind@ == self.kind@,
    {
        Quantity { value: self.value.floor(), dim: Ghost(self.dim@), kind: Ghost(self.kind@) }
    }

    /// The ceiling of the magnitude; dimension and kind are untouched.
    pub fn ceil(&self) -> (r: Quantity)
        requires
            self.wf(),
        ensures
            r.wf(),
            r.value@ == RatV::from_int(-((-self.value@.n) / self.value@.d)),
            r.dim@ == self.dim@,
            r.kind@ == self.kind@,
    {
        Quantity { value: self.value.ceil(), dim: Ghost(self.dim@), kind: Ghost(self.kind@) }
    }

    /// The magnitude rounded to the nearest whole number, halves away from
    /// zero; dimension and kind are untouched.
    pub fn round(&self) -> (r: Quantity)
        requires
            self.wf(),
            2 * (if self.value@.n >= 0 {
                self.value@.n
            } else {
                -self.value@.n
            }) + self.value@.d <= u128::MAX,
        ensures
            r.wf(),
            self.value@.n >= 0 ==> r.value@ == RatV::from_int(
                (2 * self.value@.n + self.value@.d) / (2 * self.value@.d),
            ),
            self.value@.n < 0 ==> r.value@ == RatV::from_int(
                -((2 * (-self.value@.n) + self.value@.d) / (2 * self.value@.d)),
            ),
            r.dim@ == self.dim@,
            r.kind@ == self.kind@,
    {
        Quantity { value: self.value.round(), dim: Ghost(self.dim@), kind: Ghost(self.kind@) }
    }

    /// The fractional part of the magnitude beyond its truncation toward
    /// zero; dimension and kind are untouched.
    pub fn fract(&self) -> (r: Quantity)
        requires
            self.wf(),
        ensures
            r.wf(),
            self.value@.n >= 0 ==> r.value@ == (RatV {
                n: self.value@.n % self.value@.d,
                d: self.value@.d,
            }).canon(),
            self.value@.n < 0 ==> r.value@ == (RatV {
                n: -((-self.value@.n) % self.value@.d),
                d: self.value@.d,
            }).canon(),
            r.dim@ == self.dim@,
            r.kind@ == self.kind@,
    {
        Quantity { value: self.value.fract(), dim: Ghost(self.dim@), kind: Ghost(self.kind@) }
    }

    /// An exact magnitude is always finite.
    pub fn is_finite(&self) -> (r: bool)
        ensures
            r == true,
    {
        true
    }

    /// An exact magnitude is never infinite.
    pub fn is_infinite(&self) -> (r: bool)
        ensures
            r == false,
    {
        false
    }

    /// An exact magnitude is never a NaN.
    pub fn is_nan(&self) -> (r: bool)
        ensures
            r == false,
    {
        false
    }

    /// Every nonzero exact magnitude is a normal number; zero is not.
    pub fn is_normal(&self) -> (r: bool)
        requires
            self.wf(),
        ensures
            r == (self.value@.n != 0),
    {
        !self.value.is_zero()
    }

    /// The magnitude is negative.
    pub fn is_sign_negative(&self) -> (r: bool)
        requires
            self.wf(),
        ensures
            r == (self.value@.n < 0),
    {
        self.value.is_sign_negative()
    }

    /// The magnitude is zero or positive.
    pub fn is_sign_positive(&self) -> (r: bool)
        requires
            self.wf(),
        ensures
            r == (self.value@.n >= 0),
    {
        self.value.is_sign_positive()
    }
}

impl PartialEq for Quantity {
    /// Two quantities are equal when their base-unit magnitudes are equal;
    /// dimension and kind are static metadata and verified callers can only
    /// compare quantities of one type.
    fn eq(&self, other: &Quantity) -> (r: bool) {
        self.value == other.value
    }
}

impl vstd::std_specs::cmp::PartialEqSpecImpl for Quantity {
    open spec fn obeys_eq_spec() -> bool {
        true
    }

    open spec fn eq_spec(&self, other: &Quantity) -> bool {
        self.value == other.value
    }
}


/// Law: when the kind registry allows an addition in both orders — as it
/// does for an absolute temperature and a temperature interval, or for a
/// real and a complex quantity of one type — the two sums have the same
/// magnitude, the same dimension, and kinds given by the same rule pair, so
/// quantity addition is commutative.
pub proof fn lemma_quantity_add_symmetric(a: Quantity, b: Quantity, t: KindRules)
    requires
        a.wf(),
        b.wf(),
        a.dim@ == b.dim@,
        t.add_rule(a.kind@, b.kind@) == t.add_rule(b.kind@, a.kind@),
    ensures
        a.value@.add(b.value@).canon() == b.value@.add(a.value@).canon(),
{
    lemma_add_commutes(a.value@, b.value@);
}

/// Law: the magnitude of a sum does not depend on the order of the operands;
/// together with a symmetric pair of kind rules this makes quantity addition
/// commutative, as for an absolute temperature and a temperature interval.
pub proof fn lemma_add_commutes(x: RatV, y: RatV)
    ensures
        x.add(y) == y.add(x),
{
    assert(x.n * y.d + y.n * x.d == y.n * x.d + x.n * y.d);
    vstd::arithmetic::mul::lemma_mul_is_commutative(x.d, y.d);
}

/// Law: the magnitude of a product does not depend on the order of the
/// operands.
pub proof fn lemma_mul_commutes(x: RatV, y: RatV)
    ensures
        x.mul(y) == y.mul(x),
{
    vstd::arithmetic::mul::lemma_mul_is_commutative(x.n, y.n);
    vstd::arithmetic::mul::lemma_mul_is_commutative(x.d, y.d);
}

/// Law: multiplying by a dimensionless quantity of magnitude one returns the
/// same magnitude; with the neutral-kind identity rules this makes such a
/// quantity the identity of quantity multiplication, so `1 * angle == angle`.
pub proof fn lemma_mul_identity(x: RatV)
    requires
        x.d > 0,
    ensures
        RatV::from_int(1).mul(x) == x,
        RatV::from_int(1).mul(x).canon().eqv(x),
{
    crate::rational::lemma_canon(x);
}

/// A complex-valued quantity: an exact complex magnitude in the base unit,
/// with the same ghost dimension and kind discipline as [`Quantity`].
pub struct ComplexQuantity {
    pub value: Complex,
    pub dim: Ghost<DimV>,
    pub kind: Ghost<Kind>,
}

impl Dimension for ComplexQuantity {
    open spec fn dim(&self) -> DimV {
        self.dim@
    }
}

impl ComplexQuantity {
    /// A well-formed complex quantity carries a well-formed magnitude.
    pub open spec fn wf(self) -> bool {
        self.value.wf()
    }

    /// Wraps a complex magnitude as the base representation of the quantity
    /// type described by `info`.
    pub fn new_base(info: &QuantityTypeInfo, value: Complex) -> (r: ComplexQuantity)
        requires
            value.wf(),
        ensures
            r.wf(),
            r.value == value,
            r.dim@ == info.dim@,
            r.kind@ == info.kind,
    {
        ComplexQuantity { value, dim: Ghost(info.dim@), kind: Ghost(info.kind) }
    }

    /// Builds a complex quantity from a magnitude in the given unit.  The
    /// unit's factor and offset are real, so the offset shifts the real
    /// component and the factor scales both.
    pub fn new(unit: &UnitDef, value: Complex) -> (r: ComplexQuantity)
        requires
            unit.wf(),
            value.wf(),
            unit.conv.to_base_fits(value.re@),
            value.im@.mul_fits(unit.conv.factor@),
        ensures
            r.wf(),
            r.value.re@ == unit.conv.to_base_v(value.re@),
            r.value.im@ == value.im@.mul(unit.conv.factor@).canon(),
            r.dim@ == unit.conv.dim@,
            r.kind@ == unit.conv.kind,
    {
        let re = unit.conv.convert_to_base(&value.re);
        let im = value.im.mul(&unit.conv.factor);
        ComplexQuantity {
            value: Complex { re, im },
            dim: Ghost(unit.conv.dim@),
            kind: Ghost(unit.conv.kind),
        }
    }

    /// Reads this quantity back out in the given unit.
    pub fn get(&self, unit: &UnitDef) -> (r: Complex)
        requires
            self.wf(),
            unit.wf(),
            self.dim@ == unit.conv.dim@,
            self.kind@ == unit.conv.kind,
            unit.conv.from_base_fits(self.value.re@),
            self.value.im@.div_fits(unit.conv.factor@),
        ensures
            r.wf(),
            r.re@ == unit.conv.from_base_v(self.value.re@),
            r.im@ == self.value.im@.div(unit.conv.factor@).canon(),
    {
        let re = unit.conv.convert_from_base(&self.value.re);
        let im = self.value.im.div(&unit.conv.factor);
        Complex { re, im }
    }

    /// Promotes a real quantity to a complex one with zero imaginary part.
    pub fn from_real(q: &Quantity) -> (r: ComplexQuantity)
        requires
            q.wf(),
        ensures
            r.wf(),
            r.value.re == q.value,
            r.value.im@ == RatV::from_int(0),
            r.dim@ == q.dim@,
            r.kind@ == q.kind@,
    {
        ComplexQuantity {
            value: Complex::from_real(q.value),
            dim: Ghost(q.dim@),
            kind: Ghost(q.kind@),
        }
    }

    /// The real component, as a real quantity of the same type.
    pub fn re(&self) -> (r: Quantity)
        requires
            self.wf(),
        ensures
            r.wf(),
            r.value == self.value.re,
            r.dim@ == self.dim@,
            r.kind@ == self.kind@,
    {
        Quantity { value: self.value.re, dim: Ghost(self.dim@), kind: Ghost(self.kind@) }
    }

    /// The imaginary component, as a real quantity of the same type.
    pub fn im(&self) -> (r: Quantity)
        requires
            self.wf(),
        ensures
            r.wf(),
            r.value == self.value.im,
            r.dim@ == self.dim@,
            r.kind@ == self.kind@,
    {
        Quantity { value: self.value.im, dim: Ghost(self.dim@), kind: Ghost(self.kind@) }
    }

    /// The complex one of a quantity type.
    pub fn one(info: &QuantityTypeInfo) -> (r: ComplexQuantity)
        ensures
            r.wf(),
            r.value.re@ == RatV::from_int(1),
            r.value.im@ == RatV::from_int(0),
            r.dim@ == info.dim@,
            r.kind@ == info.kind,
    {
        ComplexQuantity { value: Complex::one(), dim: Ghost(info.dim@), kind: Ghost(info.kind) }
    }

    /// The complex zero of a quantity type.
    pub fn zero(info: &QuantityTypeInfo) -> (r: ComplexQuantity)
        ensures
            r.wf(),
            r.value.re@ == RatV::from_int(0),
            r.value.im@ == RatV::from_int(0),
            r.dim@ == info.dim@,
            r.kind@ == info.kind,
    {
        ComplexQuantity { value: Complex::zero(), dim: Ghost(info.dim@), kind: Ghost(info.kind) }
    }

    /// The imaginary unit of a quantity type.
    pub fn i(info: &QuantityTypeInfo) -> (r: ComplexQuantity)
        ensures
            r.wf(),
            r.value.re@ == RatV::from_int(0),
            r.value.im@ == RatV::from_int(1),
            r.dim@ == info.dim@,
            r.kind@ == info.kind,
    {
        ComplexQuantity { value: Complex::i(), dim: Ghost(info.dim@), kind: Ghost(info.kind) }
    }

    /// The imaginary unit under its engineering name.
    pub fn j(info: &QuantityTypeInfo) -> (r: ComplexQuantity)
        ensures
            r.wf(),
            r.value.re@ == RatV::from_int(0),
            r.value.im@ == RatV::from_int(1),
            r.dim@ == info.dim@,
            r.kind@ == info.kind,
    {
        ComplexQuantity::i(info)
    }

    /// Sum of two complex quantities, under the same dimension and kind
    /// discipline as the real engine.
    pub fn add(&self, rhs: &ComplexQuantity, rules: &KindRules) -> (r: ComplexQuantity)
        requires
            self.wf(),
            rhs.wf(),
            self.dim@ == rhs.dim@,
            rules.add_rule(self.kind@, rhs.kind@) is Some,
            self.value.add_fits(rhs.value),
        ensures
            r.wf(),
            r.value.re@ == self.value.re@.add(rhs.value.re@).canon(),
            r.value.im@ == self.value.im@.add(rhs.value.im@).canon(),
            r.dim@ == self.dim@,
            Some(r.kind@) == rules.add_rule(self.kind@, rhs.kind@),
    {
        let ghost k = rules.add_rule(self.kind@, rhs.kind@).unwrap();
        ComplexQuantity { value: self.value.add(&rhs.value), dim: Ghost(self.dim@), kind: Ghost(k) }
    }

    /// Difference of two complex quantities.
    pub fn sub(&self, rhs: &ComplexQuantity, rules: &KindRules) -> (r: ComplexQuantity)
        requires
            self.wf(),
            rhs.wf(),
            self.dim@ == rhs.dim@,
            rules.sub_rule(self.kind@, rhs.kind@) is Some,
            self.value.add_fits(rhs.value),
        ensures
            r.wf(),
            r.value.re@ == self.value.re@.sub(rhs.value.re@).canon(),
            r.value.im@ == self.value.im@.sub(rhs.value.im@).canon(),
            r.dim@ == self.dim@,
            Some(r.kind@) == rules.sub_rule(self.kind@, rhs.kind@),
    {
        let ghost k = rules.sub_rule(self.kind@, rhs.kind@).unwrap();
        ComplexQuantity { value: self.value.sub(&rhs.value), dim: Ghost(self.dim@), kind: Ghost(k) }
    }

    /// Negation.
    pub fn neg(&self) -> (r: ComplexQuantity)
        requires
            self.wf(),
        ensures
            r.wf(),
            r.value.re@ == self.value.re@.neg(),
            r.value.im@ == self.value.im@.neg(),
            r.dim@ == self.dim@,
            r.kind@ == self.kind@,
    {
        ComplexQuantity { value: self.value.neg(), dim: Ghost(self.dim@), kind: Ghost(self.kind@) }
    }

    /// Product of two complex quantities: dimensions compose and the kind
    /// registry must allow the multiplication.
    pub fn mul(&self, rhs: &ComplexQuantity, rules: &KindRules) -> (r: ComplexQuantity)
        requires
            self.wf(),
            rhs.wf(),
            rules.mul_rule(self.kind@, rhs.kind@) is Some,
            self.value.mul_fits(rhs.value),
        ensures
            r.wf(),
            r.value.re@ == self.value.re@.mul(rhs.value.re@).canon().sub(
                self.value.im@.mul(rhs.value.im@).canon(),
            ).canon(),
            r.value.im@ == self.value.re@.mul(rhs.value.im@).canon().add(
                self.value.im@.mul(rhs.value.re@).canon(),
            ).canon(),
            r.dim@ == self.dim@.compose(rhs.dim@),
            Some(r.kind@) == rules.mul_rule(self.kind@, rhs.kind@),
    {
        let ghost k = rules.mul_rule(self.kind@, rhs.kind@).unwrap();
        ComplexQuantity {
            value: self.value.mul(&rhs.value),
            dim: Ghost(self.dim@.compose(rhs.dim@)),
            kind: Ghost(k),
        }
    }

    /// Scales by a bare complex scalar: dimension and kind are untouched,
    /// and both components scale proportionally.
    pub fn scalar_mul(&self, s: &Complex) -> (r: ComplexQuantity)
        requires
            self.wf(),
            s.wf(),
            self.value.mul_fits(*s),
        ensures
            r.wf(),
            r.value.re@ == self.value.re@.mul(s.re@).canon().sub(
                self.value.im@.mul(s.im@).canon(),
            ).canon(),
            r.value.im@ == self.value.re@.mul(s.im@).canon().add(
                self.value.im@.mul(s.re@).canon(),
            ).canon(),
            r.dim@ == self.dim@,
            r.kind@ == self.kind@,
    {
        ComplexQuantity {
            value: self.value.mul(s),
            dim: Ghost(self.dim@),
            kind: Ghost(self.kind@),
        }
    }

    /// Scales by a bare real scalar: both components scale by it.
    pub fn scale_real(&self, s: &Rational) -> (r: ComplexQuantity)
        requires
            self.wf(),
            s.wf(),
            self.value.re@.mul_fits(s@),
            self.value.im@.mul_fits(s@),
        ensures
            r.wf(),
            r.value.re@ == self.value.re@.mul(s@).canon(),
            r.value.im@ == self.value.im@.mul(s@).canon(),
            r.dim@ == self.dim@,
            r.kind@ == self.kind@,
    {
        ComplexQuantity {
            value: self.value.scale(s),
            dim: Ghost(self.dim@),
            kind: Ghost(self.kind@),
        }
    }

    /// Complex reciprocal: the dimension inverts and the kind follows the
    /// rule for dividing the neutral kind by this kind.
    pub fn inv(&self, rules: &KindRules) -> (r: ComplexQuantity)
        requires
            self.wf(),
            self.value.inv_fits(),
            self.value.norm_sqr_v().n != 0,
            rules.div_rule(Kind::Neutral, self.kind@) is Some,
        ensures
            r.wf(),
            r.value.re@ == self.value.re@.div(self.value.norm_sqr_v()).canon(),
            r.value.im@ == self.value.im@.div(self.value.norm_sqr_v()).canon().neg(),
            r.dim@ == self.dim@.invert(),
            Some(r.kind@) == rules.div_rule(Kind::Neutral, self.kind@),
    {
        let ghost k = rules.div_rule(Kind::Neutral, self.kind@).unwrap();
        ComplexQuantity {
            value: self.value.inv(),
            dim: Ghost(self.dim@.invert()),
            kind: Ghost(k),
        }
    }

    /// The exact squared norm, as a real quantity whose dimension is the
    /// square of this one's.
    pub fn norm_sqr(&self) -> (r: Quantity)
        requires
            self.wf(),
            self.value.re@.mul_fits(self.value.re@),
            self.value.im@.mul_fits(self.value.im@),
            crate::value_type::combine_fits(
                self.value.re@.mul(self.value.re@),
                self.value.im@.mul(self.value.im@),
            ),
        ensures
            r.wf(),
            r.value@ == self.value.norm_sqr_v(),
            r.dim@ == self.dim@.compose(self.dim@),
            r.kind@ == self.kind@,
    {
        Quantity {
            value: self.value.norm_sqr(),
            dim: Ghost(self.dim@.compose(self.dim@)),
            kind: Ghost(self.kind@),
        }
    }

    /// An exact complex quantity is always finite.
    pub fn is_finite(&self) -> (r: bool)
        ensures
            r == true,
    {
        true
    }

    /// An exact complex quantity is never infinite.
    pub fn is_infinite(&self) -> (r: bool)
        ensures
            r == false,
    {
        false
    }

    /// An exact complex quantity is never a NaN.
    pub fn is_nan(&self) -> (r: bool)
        ensures
            r == false,
    {
        false
    }

    /// Every nonzero exact complex value is normal; zero is not.
    pub fn is_normal(&self) -> (r: bool)
        requires
            self.wf(),
        ensures
            r == (self.value.re@.n != 0 || self.value.im@.n != 0),
    {
        !self.value.re.is_zero() || !self.value.im.is_zero()
    }
}

impl PartialEq for ComplexQuantity {
    /// Complex quantities compare by their base-unit magnitudes; dimension
    /// and kind are static metadata.
    fn eq(&self, other: &ComplexQuantity) -> (r: bool) {
        self.value == other.value
    }
}

impl vstd::std_specs::cmp::PartialEqSpecImpl for ComplexQuantity {
    open spec fn obeys_eq_spec() -> bool {
        true
    }

    open spec fn eq_spec(&self, other: &ComplexQuantity) -> bool {
        self.value == other.value
    }
}

/// Law: complex addition is commutative in its magnitude, component by
/// component; with a symmetric pair of kind rules a real quantity added to a
/// complex one gives the same sum in either order.
pub proof fn lemma_complex_add_commutes(a_re: RatV, a_im: RatV, b_re: RatV, b_im: RatV)
    ensures
        a_re.add(b_re).canon() == b_re.add(a_re).canon(),
        a_im.add(b_im).canon() == b_im.add(a_im).canon(),
{
    lemma_add_commutes(a_re, b_re);
    lemma_add_commutes(a_im, b_im);
}

} // verus!
