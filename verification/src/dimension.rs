//! The dimension vector algebra.
//!
//! A physical dimension is an ordered 7-tuple of signed integer exponents
//! over the SI base dimensions (length, mass, time, electric current,
//! thermodynamic temperature, amount of substance, luminous intensity).  The
//! ghost type [`DimV`] carries the exponents as unbounded integers, so the
//! five operations of the algebra — compose, decompose, invert, scale and
//! exact divide — are total mathematical functions; quantities store their
//! dimension only as ghost data of this type.  The executable type [`SiDim`]
//! is the run-time registry form used when units and quantities are declared
//! and when unverified callers test a combination before requesting it.

use vstd::prelude::*;

verus! {

/// A dimension exponent vector, as pure mathematics.  `length` is the
/// exponent of the length base dimension, and so on.
pub ghost struct DimV {
    pub length: int,
    pub mass: int,
    pub time: int,
    pub current: int,
    pub temperature: int,
    pub amount: int,
    pub intensity: int,
}

impl DimV {
    /// The all-zero vector: the dimension of a dimensionless quantity, and
    /// the fixed point of compose and decompose.
    pub open spec fn none() -> DimV {
        DimV { length: 0, mass: 0, time: 0, current: 0, temperature: 0, amount: 0, intensity: 0 }
    }

    /// Compose: element-wise sum, the dimension of a product of quantities.
    pub open spec fn compose(self, other: DimV) -> DimV {
        DimV {
            length: self.length + other.length,
            mass: self.mass + other.mass,
            time: self.time + other.time,
            current: self.current + other.current,
            temperature: self.temperature + other.temperature,
            amount: self.amount + other.amount,
            intensity: self.intensity + other.intensity,
        }
    }

    /// Decompose: element-wise difference, the dimension of a quotient.
    pub open spec fn decompose(self, other: DimV) -> DimV {
        DimV {
            length: self.length - other.length,
            mass: self.mass - other.mass,
            time: self.time - other.time,
            current: self.current - other.current,
            temperature: self.temperature - other.temperature,
            amount: self.amount - other.amount,
            intensity: self.intensity - other.intensity,
        }
    }

    /// Invert: element-wise negation, the dimension of a reciprocal.
    pub open spec fn invert(self) -> DimV {
        DimV {
            length: -self.length,
            mass: -self.mass,
            time: -self.time,
            current: -self.current,
            temperature: -self.temperature,
            amount: -self.amount,
            intensity: -self.intensity,
        }
    }

    /// Scale: element-wise multiplication by an integer power.
    pub open spec fn scale(self, p: int) -> DimV {
        DimV {
            length: self.length * p,
            mass: self.mass * p,
            time: self.time * p,
            current: self.current * p,
            temperature: self.temperature * p,
            amount: self.amount * p,
            intensity: self.intensity * p,
        }
    }

    /// Every exponent is an exact multiple of `p`: the side condition of the
    /// exact-divide operation, and hence of n-th roots.
    pub open spec fn divisible(self, p: int) -> bool {
        &&& p != 0
        &&& self.length % p == 0
        &&& self.mass % p == 0
        &&& self.time % p == 0
        &&& self.current % p == 0
        &&& self.temperature % p == 0
        &&& self.amount % p == 0
        &&& self.intensity % p == 0
    }

    /// Exact divide: element-wise division by `p`, defined only under
    /// [`DimV::divisible`].
    pub open spec fn exact_divide(self, p: int) -> DimV {
        DimV {
            length: self.length / p,
            mass: self.mass / p,
            time: self.time / p,
            current: self.current / p,
            temperature: self.temperature / p,
            amount: self.amount / p,
            intensity: self.intensity / p,
        }
    }
}

/// The identity vector is the fixed point of compose.
pub proof fn lemma_compose_identity(d: DimV)
    ensures
        d.compose(DimV::none()) == d,
        DimV::none().compose(d) == d,
{
}

/// Compose is commutative.
pub proof fn lemma_compose_commutes(a: DimV, b: DimV)
    ensures
        a.compose(b) == b.compose(a),
{
}

/// Decompose undoes compose: the dimension algebra is a group.
pub proof fn lemma_compose_decompose(a: DimV, b: DimV)
    ensures
        a.compose(b).decompose(b) == a,
        a.decompose(b).compose(b) == a,
        a.decompose(a) == DimV::none(),
        a.compose(a.invert()) == DimV::none(),
{
}

/// A vector scaled by `p != 0` is exactly divisible by `p`, and exact
/// division returns the original vector: powers and roots cancel.
pub proof fn lemma_scale_exact_divide(d: DimV, p: int)
    requires
        p > 0,
    ensures
        d.scale(p).divisible(p),
        d.scale(p).exact_divide(p) == d,
{
    lemma_component_scale_divide(d.length, p);
    lemma_component_scale_divide(d.mass, p);
    lemma_component_scale_divide(d.time, p);
    lemma_component_scale_divide(d.current, p);
    lemma_component_scale_divide(d.temperature, p);
    lemma_component_scale_divide(d.amount, p);
    lemma_component_scale_divide(d.intensity, p);
}

/// A doubled vector halves back: the square root of `d + d` is `d`.
pub proof fn lemma_compose_self_root(d: DimV)
    ensures
        d.compose(d).divisible(2),
        d.compose(d).exact_divide(2) == d,
{
    assert(d.compose(d) == d.scale(2));
    lemma_scale_exact_divide(d, 2);
}

/// One component of [`lemma_scale_exact_divide`].
proof fn lemma_component_scale_divide(x: int, p: int)
    requires
        p > 0,
    ensures
        (x * p) % p == 0,
        (x * p) / p == x,
{
    vstd::arithmetic::div_mod::lemma_fundamental_div_mod_converse(x * p, p, x, 0);
}

/// The run-time form of a dimension vector, carried by unit and quantity
/// descriptors.  Exponents of real quantities are tiny, so `i32` components
/// lose nothing.
#[derive(Clone, Copy, PartialEq, Eq, Structural, Debug)]
pub struct SiDim {
    pub length: i32,
    pub mass: i32,
    pub time: i32,
    pub current: i32,
    pub temperature: i32,
    pub amount: i32,
    pub intensity: i32,
}

impl View for SiDim {
    type V = DimV;

    open spec fn view(&self) -> DimV {
        DimV {
            length: self.length as int,
            mass: self.mass as int,
            time: self.time as int,
            current: self.current as int,
            temperature: self.temperature as int,
            amount: self.amount as int,
            intensity: self.intensity as int,
        }
    }
}

/// Something that has a dimension: run-time dimension vectors, quantity
/// descriptors, registered conversions and quantity values all answer with a
/// [`DimV`].
pub trait Dimension {
    /// The dimension exponent vector.
    spec fn dim(&self) -> DimV;
}

impl Dimension for SiDim {
    open spec fn dim(&self) -> DimV {
        self@
    }
}

/// The inverse of a dimension is available: `1/dim`.
pub trait DimInverse: Dimension + Sized {
    /// The element-wise negation of the dimension vector.
    fn dim_inverse(&self) -> (r: Self)
        requires
            sidim_invert_fits(self.dim()),
        ensures
            r.dim() == self.dim().invert(),
    ;
}

/// An integer power of a dimension is available: `dim^p`.
pub trait DimPow: Dimension + Sized {
    /// The element-wise scaling of the dimension vector by `p`.
    fn dim_pow(&self, p: i32) -> (r: Self)
        requires
            sidim_scale_fits(self.dim(), p as int),
        ensures
            r.dim() == self.dim().scale(p as int),
    ;
}

/// An exact root of a dimension is available: `dim^(1/p)`, defined only
/// when every exponent is an exact multiple of `p`.
pub trait DimNthRoot: Dimension + Sized {
    /// The element-wise exact division of the dimension vector by `p`.
    fn dim_nth_root(&self, p: i32) -> (r: Self)
        requires
            p > 0,
            self.dim().divisible(p as int),
        ensures
            r.dim() == self.dim().exact_divide(p as int),
    ;
}

/// All seven negated exponents stay within `i32`.
pub open spec fn sidim_invert_fits(a: DimV) -> bool {
    &&& i32::MIN < a.length
    &&& i32::MIN < a.mass
    &&& i32::MIN < a.time
    &&& i32::MIN < a.current
    &&& i32::MIN < a.temperature
    &&& i32::MIN < a.amount
    &&& i32::MIN < a.intensity
}

/// All seven scaled exponents stay within `i32`.
pub open spec fn sidim_scale_fits(a: DimV, p: int) -> bool {
    &&& i32::MIN <= a.length * p <= i32::MAX
    &&& i32::MIN <= a.mass * p <= i32::MAX
    &&& i32::MIN <= a.time * p <= i32::MAX
    &&& i32::MIN <= a.current * p <= i32::MAX
    &&& i32::MIN <= a.temperature * p <= i32::MAX
    &&& i32::MIN <= a.amount * p <= i32::MAX
    &&& i32::MIN <= a.intensity * p <= i32::MAX
}

impl DimInverse for SiDim {
    fn dim_inverse(&self) -> (r: SiDim) {
        SiDim {
            length: -self.length,
            mass: -self.mass,
            time: -self.time,
            current: -self.current,
            temperature: -self.temperature,
            amount: -self.amount,
            intensity: -self.intensity,
        }
    }
}

impl DimPow for SiDim {
    fn dim_pow(&self, p: i32) -> (r: SiDim) {
        SiDim {
            length: self.length * p,
            mass: self.mass * p,
            time: self.time * p,
            current: self.current * p,
            temperature: self.temperature * p,
            amount: self.amount * p,
            intensity: self.intensity * p,
        }
    }
}

impl DimNthRoot for SiDim {
    fn dim_nth_root(&self, p: i32) -> (r: SiDim) {
        proof {
            lemma_trunc_div_exact(self.length as int, p as int);
            lemma_trunc_div_exact(self.mass as int, p as int);
            lemma_trunc_div_exact(self.time as int, p as int);
            lemma_trunc_div_exact(self.current as int, p as int);
            lemma_trunc_div_exact(self.temperature as int, p as int);
            lemma_trunc_div_exact(self.amount as int, p as int);
            lemma_trunc_div_exact(self.intensity as int, p as int);
        }
        SiDim {
            length: self.length / p,
            mass: self.mass / p,
            time: self.time / p,
            current: self.current / p,
            temperature: self.temperature / p,
            amount: self.amount / p,
            intensity: self.intensity / p,
        }
    }
}

/// On exact multiples, Rust's truncating division agrees with the Euclidean
/// division of the specification.
proof fn lemma_trunc_div_exact(x: int, p: int)
    requires
        p > 0,
        x % p == 0,
    ensures
        x >= 0 ==> x / p >= 0,
        x < 0 ==> -((-x) / p) == x / p,
        p * (x / p) == x,
{
    vstd::arithmetic::div_mod::lemma_fundamental_div_mod(x, p);
    let k = x / p;
    if x < 0 {
        assert(-x == p * (-k)) by (nonlinear_arith)
            requires
                x == p * k,
        ;
        vstd::arithmetic::div_mod::lemma_fundamental_div_mod_converse(-x, p, -k, 0);
    } else {
        vstd::arithmetic::div_mod::lemma_div_pos_is_pos(x, p);
    }
}

/// All fourteen exponent sums stay within `i32`.
pub open spec fn sidim_compose_fits(a: DimV, b: DimV) -> bool {
    &&& i32::MIN <= a.length + b.length <= i32::MAX
    &&& i32::MIN <= a.mass + b.mass <= i32::MAX
    &&& i32::MIN <= a.time + b.time <= i32::MAX
    &&& i32::MIN <= a.current + b.current <= i32::MAX
    &&& i32::MIN <= a.temperature + b.temperature <= i32::MAX
    &&& i32::MIN <= a.amount + b.amount <= i32::MAX
    &&& i32::MIN <= a.temperature + b.temperature <= i32::MAX
    &&& i32::MIN <= a.length - b.length <= i32::MAX
    &&& i32::MIN <= a.mass - b.mass <= i32::MAX
    &&& i32::MIN <= a.time - b.time <= i32::MAX
    &&& i32::MIN <= a.current - b.current <= i32::MAX
    &&& i32::MIN <= a.temperature - b.temperature <= i32::MAX
    &&& i32::MIN <= a.amount - b.amount <= i32::MAX
    &&& i32::MIN <= a.intensity - b.intensity <= i32::MAX
    &&& i32::MIN <= a.intensity + b.intensity <= i32::MAX
}

impl SiDim {
    /// The all-zero vector.
    pub fn none() -> (r: SiDim)
        ensures
            r@ == DimV::none(),
    {
        SiDim { length: 0, mass: 0, time: 0, current: 0, temperature: 0, amount: 0, intensity: 0 }
    }

    /// Run-time compose, for declaring derived quantities.
    pub fn mul(&self, other: &SiDim) -> (r: SiDim)
        requires
            sidim_compose_fits(self@, other@),
        ensures
            r@ == self@.compose(other@),
    {
        SiDim {
            length: self.length + other.length,
            mass: self.mass + other.mass,
            time: self.time + other.time,
            current: self.current + other.current,
            temperature: self.temperature + other.temperature,
            amount: self.amount + other.amount,
            intensity: self.intensity + other.intensity,
        }
    }

    /// Run-time decompose, for declaring derived quantities.
    pub fn div(&self, other: &SiDim) -> (r: SiDim)
        requires
            sidim_compose_fits(self@, other@),
        ensures
            r@ == self@.decompose(other@),
    {
        SiDim {
            length: self.length - other.length,
            mass: self.mass - other.mass,
            time: self.time - other.time,
            current: self.current - other.current,
            temperature: self.temperature - other.temperature,
            amount: self.amount - other.amount,
            intensity: self.intensity - other.intensity,
        }
    }

    /// Run-time check of the exact-divisibility side condition of n-th roots,
    /// for callers that cannot discharge it statically.
    pub fn divisible(&self, p: i32) -> (r: bool)
        requires
            p > 0,
        ensures
            r == self@.divisible(p as int),
    {
        proof {
            lemma_trunc_mod_zero(self.length as int, p as int);
            lemma_trunc_mod_zero(self.mass as int, p as int);
            lemma_trunc_mod_zero(self.time as int, p as int);
            lemma_trunc_mod_zero(self.current as int, p as int);
            lemma_trunc_mod_zero(self.temperature as int, p as int);
            lemma_trunc_mod_zero(self.amount as int, p as int);
            lemma_trunc_mod_zero(self.intensity as int, p as int);
        }
        self.length % p == 0 && self.mass % p == 0 && self.time % p == 0 && self.current % p == 0
            && self.temperature % p == 0 && self.amount % p == 0 && self.intensity % p == 0
    }
}

/// A negated value has remainder zero exactly when the value does, which
/// relates Rust's truncating `%` to the Euclidean one for the zero test.
proof fn lemma_trunc_mod_zero(x: int, p: int)
    requires
        p > 0,
    ensures
        ((-x) % p == 0) <==> (x % p == 0),
{
    vstd::arithmetic::div_mod::lemma_fundamental_div_mod(x, p);
    vstd::arithmetic::div_mod::lemma_fundamental_div_mod(-x, p);
    if x % p == 0 {
        let q = x / p;
        assert(x == p * q);
        assert(-x == (-q) * p) by (nonlinear_arith)
            requires
                x == p * q,
        ;
        vstd::arithmetic::div_mod::lemma_mod_multiples_basic(-q, p);
    }
    if (-x) % p == 0 {
        let q = (-x) / p;
        assert(-x == p * q);
        assert(x == (-q) * p) by (nonlinear_arith)
            requires
                -x == p * q,
        ;
        vstd::arithmetic::div_mod::lemma_mod_multiples_basic(-q, p);
    }
}

} // verus!
