//! Exact rational magnitudes.
//!
//! A [`Rational`] is a fraction of two `i128` components with a positive
//! denominator, kept in lowest terms by every constructor and operation, so
//! that structural equality of two values agrees with equality of the
//! fractions they denote.  Contracts speak about the mathematical fraction
//! through the view type [`RatV`], whose components are unbounded integers.

use vstd::prelude::*;

verus! {

use vstd::arithmetic::div_mod::{
    lemma_fundamental_div_mod,
    lemma_div_by_multiple,
};
use vstd::arithmetic::mul::{
    lemma_mul_is_associative,
    lemma_mul_is_commutative,
};

/// The mathematical value of a `Rational`: an unbounded fraction `n / d`.
pub ghost struct RatV {
    pub n: int,
    pub d: int,
}

impl RatV {
    /// A well-formed fraction has a positive denominator.
    pub open spec fn wf(self) -> bool {
        self.d > 0
    }

    /// Equality of the denoted fractions: `n1/d1 == n2/d2`.
    pub open spec fn eqv(self, other: RatV) -> bool {
        self.n * other.d == other.n * self.d
    }

    /// Order on the denoted fractions; meaningful when both are well formed.
    pub open spec fn lev(self, other: RatV) -> bool {
        self.n * other.d <= other.n * self.d
    }

    /// The fraction `i / 1`.
    pub open spec fn from_int(i: int) -> RatV {
        RatV { n: i, d: 1 }
    }

    /// Sum of two fractions.
    pub open spec fn add(self, other: RatV) -> RatV {
        RatV { n: self.n * other.d + other.n * self.d, d: self.d * other.d }
    }

    /// Difference of two fractions.
    pub open spec fn sub(self, other: RatV) -> RatV {
        RatV { n: self.n * other.d - other.n * self.d, d: self.d * other.d }
    }

    /// Negation of a fraction.
    pub open spec fn neg(self) -> RatV {
        RatV { n: -self.n, d: self.d }
    }

    /// Product of two fractions.
    pub open spec fn mul(self, other: RatV) -> RatV {
        RatV { n: self.n * other.n, d: self.d * other.d }
    }

    /// Reciprocal of a fraction, with the sign moved to the numerator; the
    /// fraction must be nonzero for the result to be meaningful.
    pub open spec fn inv(self) -> RatV {
        if self.n >= 0 {
            RatV { n: self.d, d: self.n }
        } else {
            RatV { n: -self.d, d: -self.n }
        }
    }

    /// Quotient of two fractions; the divisor's numerator must be nonzero.
    pub open spec fn div(self, other: RatV) -> RatV {
        self.mul(other.inv())
    }

    /// Both cross products and their sum stay within `i128`, so the sum or
    /// difference of the two fractions can be computed.
    pub open spec fn add_fits(self, other: RatV) -> bool {
        fits_i128(self.n * other.d) && fits_i128(other.n * self.d) && fits_i128(
            self.n * other.d + other.n * self.d,
        ) && fits_i128(self.n * other.d - other.n * self.d) && fits_i128(self.d * other.d)
    }

    /// The products of numerators and of denominators stay within `i128`.
    pub open spec fn mul_fits(self, other: RatV) -> bool {
        fits_i128(self.n * other.n) && fits_i128(self.d * other.d)
    }

    /// The cross products of a division stay within `i128`.
    pub open spec fn div_fits(self, other: RatV) -> bool {
        fits_i128(self.n * other.d) && fits_i128(self.d * other.n)
    }

    /// The cross products of a comparison stay within `i128`.
    pub open spec fn cmp_fits(self, other: RatV) -> bool {
        fits_i128(self.n * other.d) && fits_i128(other.n * self.d)
    }

    /// The canonical representative of this fraction: both components
    /// divided by the greatest common divisor, for a positive denominator.
    pub open spec fn canon(self) -> RatV {
        let a = if self.n >= 0 {
            self.n
        } else {
            -self.n
        };
        let g = gcd_spec(a as nat, self.d as nat);
        RatV { n: self.n / g as int, d: self.d / g as int }
    }
}

/// Euclid's greatest common divisor, as pure mathematics.
pub open spec fn gcd_spec(a: nat, b: nat) -> nat
    decreases b,
{
    if b == 0 {
        a
    } else {
        gcd_spec(b, a % b)
    }
}

/// `f` divides `x` exactly.
pub open spec fn divides(f: int, x: int) -> bool {
    exists|k: int| x == #[trigger] (f * k)
}

/// An exact rational number, always in lowest terms with a positive
/// denominator, with magnitude small enough that the numerator's negation
/// also fits in `i128`.
#[derive(Clone, Copy, PartialEq, Eq, Structural, Debug)]
pub struct Rational {
    pub num: i128,
    pub den: i128,
}

impl View for Rational {
    type V = RatV;

    open spec fn view(&self) -> RatV {
        RatV { n: self.num as int, d: self.den as int }
    }
}

impl Rational {
    /// The representation invariant: positive denominator and a numerator
    /// whose negation does not overflow.
    pub open spec fn wf(self) -> bool {
        0 < self.den && self.num > i128::MIN
    }

    /// The whole number `i`.
    pub fn from_int(i: i64) -> (r: Rational)
        ensures
            r.wf(),
            r@ == RatV::from_int(i as int),
    {
        Rational { num: i as i128, den: 1 }
    }
}

/// `x` lies strictly above `i128::MIN` and at most at `i128::MAX`, so both it
/// and its negation can be stored.
pub open spec fn fits_i128(x: int) -> bool {
    i128::MIN < x <= i128::MAX
}

/// The absolute value.
pub open spec fn abs_i(n: int) -> int {
    if n >= 0 {
        n
    } else {
        -n
    }
}

/// `10^e`, the scale of a decimal digit.
pub open spec fn pow10(e: nat) -> int
    decreases e,
{
    if e == 0 {
        1
    } else {
        10 * pow10((e - 1) as nat)
    }
}

/// Powers of ten are at least one.
pub proof fn lemma_pow10_pos(e: nat)
    ensures
        pow10(e) >= 1,
    decreases e,
{
    if e > 0 {
        lemma_pow10_pos((e - 1) as nat);
    }
}

/// Powers of ten grow with the exponent.
pub proof fn lemma_pow10_mono(a: nat, b: nat)
    requires
        a <= b,
    ensures
        pow10(a) <= pow10(b),
    decreases b,
{
    if a < b {
        lemma_pow10_mono(a, (b - 1) as nat);
        lemma_pow10_pos((b - 1) as nat);
    }
}

/// `10^38` still fits in an `i128`.
pub proof fn lemma_pow10_38_fits()
    ensures
        pow10(38) == 0x4b3b4ca85a86c47a098a224000000000,
        pow10(30) == 0xc9f2c9cd04674edea40000000,
{
    reveal_with_fuel(pow10, 40);
}

/// `10^e` as a machine integer.
pub fn pow10_exec(e: u32) -> (r: i128)
    requires
        e <= 38,
    ensures
        r == pow10(e as nat),
        r >= 1,
    decreases e,
{
    if e == 0 {
        1
    } else {
        let p = pow10_exec(e - 1);
        proof {
            lemma_pow10_mono((e - 1) as nat, 37);
            lemma_pow10_38_fits();
            reveal_with_fuel(pow10, 40);
        }
        p * 10
    }
}

/// `x == f * (x / f)` when `f` divides `x` exactly.
proof fn lemma_exact_division(f: int, x: int)
    requires
        f > 0,
        x >= 0,
        divides(f, x),
    ensures
        x == f * (x / f),
{
    let k = choose|k: int| x == #[trigger] (f * k);
    assert(k >= 0) by (nonlinear_arith)
        requires
            f > 0,
            x >= 0,
            x == f * k,
    ;
    lemma_div_by_multiple(k, f);
    lemma_mul_is_commutative(f, k);
}

/// And conversely: a divisor of `y` and of `x % y` divides `x`.
proof fn lemma_divides_mod_step_rev(f: int, x: int, y: int)
    requires
        f > 0,
        y > 0,
        divides(f, y),
        divides(f, x % y),
    ensures
        divides(f, x),
{
    let km = choose|k: int| x % y == #[trigger] (f * k);
    let ky = choose|k: int| y == #[trigger] (f * k);
    let q = x / y;
    lemma_fundamental_div_mod(x, y);
    assert(y * q == f * (ky * q)) by {
        lemma_mul_is_associative(f, ky, q);
    }
    assert(x == f * (ky * q) + f * km);
    assert(f * (ky * q) + f * km == f * (ky * q + km)) by {
        vstd::arithmetic::mul::lemma_mul_is_distributive_add(f, ky * q, km);
    }
}

/// A positive divisor of a positive number is no larger than it.
proof fn lemma_divisor_le(f: int, x: int)
    requires
        f > 0,
        x > 0,
        divides(f, x),
    ensures
        f <= x,
{
    let k = choose|k: int| x == #[trigger] (f * k);
    assert(f <= x) by (nonlinear_arith)
        requires
            f > 0,
            x > 0,
            x == f * k,
    ;
}

/// The greatest common divisor is positive and divides both arguments.
pub proof fn lemma_gcd_spec_divides(a: nat, b: nat)
    requires
        a > 0 || b > 0,
    ensures
        gcd_spec(a, b) > 0,
        divides(gcd_spec(a, b) as int, a as int),
        divides(gcd_spec(a, b) as int, b as int),
    decreases b,
{
    let g = gcd_spec(a, b);
    if b == 0 {
        assert(divides(g as int, a as int)) by {
            assert(a as int == a as int * 1);
        }
        assert(divides(g as int, b as int)) by {
            assert(b as int == a as int * 0);
        }
    } else {
        lemma_gcd_spec_divides(b, a % b);
        assert((a % b) as int == a as int % b as int);
        lemma_divides_mod_step_rev(g as int, a as int, b as int);
    }
}

/// Euclid's algorithm, computing [`gcd_spec`].
fn gcd_u128(a: u128, b: u128) -> (g: u128)
    ensures
        g == gcd_spec(a as nat, b as nat),
    decreases b,
{
    if b == 0 {
        a
    } else {
        let r = a % b;
        gcd_u128(b, r)
    }
}

/// What reduction does to a fraction with a positive denominator: the result
/// denotes the same value, stays well formed, and its components shrink.
pub proof fn lemma_canon(v: RatV)
    requires
        v.d > 0,
    ensures
        v.canon().d >= 1,
        v.canon().d <= v.d,
        v.canon().eqv(v),
        v.eqv(v.canon()),
        v.n >= 0 ==> 0 <= v.canon().n <= v.n,
        v.n < 0 ==> v.n <= v.canon().n < 0,
        exists|g: int|
            g >= 1 && v.n == #[trigger] (g * v.canon().n) && v.d == g * v.canon().d,
{
    let a = if v.n >= 0 {
        v.n
    } else {
        -v.n
    };
    let g = gcd_spec(a as nat, v.d as nat) as int;
    let c = v.canon();
    lemma_gcd_spec_divides(a as nat, v.d as nat);
    lemma_divisor_le(g, v.d);
    lemma_exact_division(g, v.d);
    assert(c.d == v.d / g);
    assert(c.d >= 1) by {
        vstd::arithmetic::div_mod::lemma_div_non_zero(v.d, g);
    }
    assert(c.d <= v.d) by {
        vstd::arithmetic::div_mod::lemma_div_nonincreasing(v.d, g);
    }
    if a == 0 {
        assert(v.n / g == 0) by {
            vstd::arithmetic::div_mod::lemma_div_of0(g);
        }
        assert(c.d == 1) by {
            assert(0int % v.d == 0) by {
                vstd::arithmetic::div_mod::lemma_small_mod(0, v.d as nat);
            }
            assert(gcd_spec(0, v.d as nat) == gcd_spec(v.d as nat, 0));
            vstd::arithmetic::div_mod::lemma_div_by_self(v.d);
        }
        assert(c.n * v.d == v.n * c.d) by (nonlinear_arith)
            requires
                c.n == 0,
                v.n == 0,
        ;
        assert(v.n == v.d * c.n && v.d == v.d * c.d) by (nonlinear_arith)
            requires
                c.n == 0,
                v.n == 0,
                c.d == 1,
        ;
        assert(v.d >= 1 && v.n == v.d * c.n && v.d == v.d * c.d);
    } else {
        lemma_divisor_le(g, a);
        lemma_exact_division(g, a);
        let ka = a / g;
        let kd = v.d / g;
        assert(ka >= 1) by {
            vstd::arithmetic::div_mod::lemma_div_non_zero(a, g);
        }
        assert(ka <= a) by {
            vstd::arithmetic::div_mod::lemma_div_nonincreasing(a, g);
        }
        if v.n < 0 {
            assert(v.n == g * (-ka)) by (nonlinear_arith)
                requires
                    a == g * ka,
                    v.n == -a,
            ;
            vstd::arithmetic::div_mod::lemma_fundamental_div_mod_converse(v.n, g, -ka, 0);
            assert(c.n == -ka);
        } else {
            assert(c.n == ka);
        }
        assert(c.n * v.d == v.n * c.d) by (nonlinear_arith)
            requires
                a == g * ka,
                v.d == g * kd,
                c.d == kd,
                (v.n >= 0 && a == v.n && c.n == ka) || (v.n < 0 && a == -v.n && c.n == -ka),
        ;
        assert(v.n == g * c.n) by (nonlinear_arith)
            requires
                a == g * ka,
                (v.n >= 0 && a == v.n && c.n == ka) || (v.n < 0 && a == -v.n && c.n == -ka),
        ;
        assert(g >= 1 && v.n == g * c.n && v.d == g * c.d);
    }
}

/// Reduction only shrinks a fraction, so a product that fits before
/// reduction fits after it.
pub proof fn lemma_canon_mul_fits(v: RatV, f: RatV)
    requires
        v.d > 0,
        v.mul_fits(f),
    ensures
        v.canon().mul_fits(f),
{
    lemma_canon(v);
    let c = v.canon();
    let g = choose|g: int|
        g >= 1 && v.n == #[trigger] (g * c.n) && v.d == g * c.d;
    assert(fits_i128(c.n * f.n)) by (nonlinear_arith)
        requires
            g >= 1,
            v.n == g * c.n,
            fits_i128(v.n * f.n),
            fits_i128(c.n * f.n) == (i128::MIN < c.n * f.n <= i128::MAX),
            fits_i128(v.n * f.n) == (i128::MIN < v.n * f.n <= i128::MAX),
            -(i128::MIN as int) > i128::MAX,
    ;
    assert(fits_i128(c.d * f.d)) by (nonlinear_arith)
        requires
            g >= 1,
            v.d == g * c.d,
            fits_i128(v.d * f.d),
            fits_i128(c.d * f.d) == (i128::MIN < c.d * f.d <= i128::MAX),
            fits_i128(v.d * f.d) == (i128::MIN < v.d * f.d <= i128::MAX),
            -(i128::MIN as int) > i128::MAX,
    ;
}

/// Reduction only shrinks a fraction, so a sum or difference that fits
/// before reduction fits after it.
pub proof fn lemma_canon_add_fits(v: RatV, o: RatV)
    requires
        v.d > 0,
        v.add_fits(o),
    ensures
        v.canon().add_fits(o),
{
    lemma_canon(v);
    let c = v.canon();
    let g = choose|g: int|
        g >= 1 && v.n == #[trigger] (g * c.n) && v.d == g * c.d;
    assert(fits_i128(c.n * o.d) && fits_i128(o.n * c.d) && fits_i128(
        c.n * o.d + o.n * c.d,
    ) && fits_i128(c.n * o.d - o.n * c.d) && fits_i128(c.d * o.d)) by (nonlinear_arith)
        requires
            g >= 1,
            v.n == g * c.n,
            v.d == g * c.d,
            fits_i128(v.n * o.d),
            fits_i128(o.n * v.d),
            fits_i128(v.n * o.d + o.n * v.d),
            fits_i128(v.n * o.d - o.n * v.d),
            fits_i128(v.d * o.d),
            forall|x: int| fits_i128(x) == (i128::MIN < x <= i128::MAX),
            -(i128::MIN as int) > i128::MAX,
    ;
}

/// Reduction only shrinks a fraction, so a division whose cross products
/// fit before reduction fits after it.
pub proof fn lemma_canon_div_fits(v: RatV, o: RatV)
    requires
        v.d > 0,
        v.div_fits(o),
    ensures
        v.canon().div_fits(o),
{
    lemma_canon(v);
    let c = v.canon();
    let g = choose|g: int|
        g >= 1 && v.n == #[trigger] (g * c.n) && v.d == g * c.d;
    assert(fits_i128(c.n * o.d) && fits_i128(c.d * o.n)) by (nonlinear_arith)
        requires
            g >= 1,
            v.n == g * c.n,
            v.d == g * c.d,
            fits_i128(v.n * o.d),
            fits_i128(v.d * o.n),
            forall|x: int| fits_i128(x) == (i128::MIN < x <= i128::MAX),
            -(i128::MIN as int) > i128::MAX,
    ;
}

/// A sum or difference whose raw cross products fit with room for both
/// magnitudes together also fits after both operands are reduced.
pub proof fn lemma_canon_canon_add_fits(x: RatV, y: RatV)
    requires
        x.d > 0,
        y.d > 0,
        abs_i(x.n * y.d) + abs_i(y.n * x.d) <= i128::MAX,
        x.d * y.d <= i128::MAX,
    ensures
        x.canon().add_fits(y.canon()),
{
    lemma_canon(x);
    lemma_canon(y);
    let cx = x.canon();
    let cy = y.canon();
    let gx = choose|g: int| g >= 1 && x.n == #[trigger] (g * cx.n) && x.d == g * cx.d;
    let gy = choose|g: int| g >= 1 && y.n == #[trigger] (g * cy.n) && y.d == g * cy.d;
    assert(abs_i(cx.n * cy.d) <= abs_i(x.n * y.d) && abs_i(cy.n * cx.d) <= abs_i(y.n * x.d)
        && 0 < cx.d * cy.d <= x.d * y.d) by (nonlinear_arith)
        requires
            gx >= 1,
            gy >= 1,
            x.n == gx * cx.n,
            x.d == gx * cx.d,
            y.n == gy * cy.n,
            y.d == gy * cy.d,
            cx.d >= 1,
            cy.d >= 1,
            forall|n: int| abs_i(n) == if n >= 0 {
                n
            } else {
                -n
            },
    ;
}

/// Builds the canonical (lowest-terms, positive-denominator) `Rational`
/// denoting `n / d`.
pub(crate) fn normalize(n: i128, d: i128) -> (r: Rational)
    requires
        d > 0,
        n > i128::MIN,
    ensures
        r.wf(),
        r@ == (RatV { n: n as int, d: d as int }).canon(),
        r@.eqv(RatV { n: n as int, d: d as int }),
{
    let ghost v = RatV { n: n as int, d: d as int };
    proof {
        lemma_canon(v);
    }
    let un: u128 = if n < 0 {
        (-n) as u128
    } else {
        n as u128
    };
    let ud: u128 = d as u128;
    let g = gcd_u128(un, ud);
    proof {
        lemma_gcd_spec_divides(un as nat, ud as nat);
        lemma_divisor_le(g as int, ud as int);
        lemma_exact_division(g as int, ud as int);
        if un > 0 {
            lemma_divisor_le(g as int, un as int);
            lemma_exact_division(g as int, un as int);
        } else {
            vstd::arithmetic::div_mod::lemma_div_of0(g as int);
        }
    }
    let qn = un / g;
    let qd = ud / g;
    let num = if n < 0 {
        -(qn as i128)
    } else {
        qn as i128
    };
    let den = qd as i128;
    proof {
        assert(qn as int == un as int / g as int);
        assert(qd as int == ud as int / g as int);
        if n < 0 {
            let ka = un as int / g as int;
            assert(n as int == g as int * (-ka)) by (nonlinear_arith)
                requires
                    un as int == g as int * ka,
                    n as int == -(un as int),
            ;
            vstd::arithmetic::div_mod::lemma_fundamental_div_mod_converse(
                n as int,
                g as int,
                -ka,
                0,
            );
        }
    }
    Rational { num, den }
}

impl Rational {
    /// Zero.
    pub fn zero() -> (r: Rational)
        ensures
            r.wf(),
            r@ == RatV::from_int(0),
    {
        Rational { num: 0, den: 1 }
    }

    /// One.
    pub fn one() -> (r: Rational)
        ensures
            r.wf(),
            r@ == RatV::from_int(1),
    {
        Rational { num: 1, den: 1 }
    }

    /// The fraction `num / den`, brought to canonical form.
    pub fn new(num: i128, den: i128) -> (r: Rational)
        requires
            den != 0,
            num > i128::MIN,
            den > i128::MIN,
        ensures
            r.wf(),
            r@.eqv(RatV { n: num as int, d: den as int }),
            den > 0 ==> r@ == (RatV { n: num as int, d: den as int }).canon(),
            den < 0 ==> r@ == (RatV { n: -(num as int), d: -(den as int) }).canon(),
    {
        if den < 0 {
            let r = normalize(-num, -den);
            proof {
                assert(r@.n * (den as int) == (num as int) * r@.d) by (nonlinear_arith)
                    requires
                        r@.n * (-den as int) == (-num as int) * r@.d,
                ;
            }
            r
        } else {
            normalize(num, den)
        }
    }

    /// The decimal number `mantissa * 10^-frac_digits`, e.g. `1.346` as
    /// `(1346, 3)`.
    pub fn from_decimal(mantissa: i128, frac_digits: u32) -> (r: Rational)
        requires
            frac_digits <= 38,
            mantissa > i128::MIN,
        ensures
            r.wf(),
            r@ == (RatV { n: mantissa as int, d: pow10(frac_digits as nat) }).canon(),
            r@.eqv(RatV { n: mantissa as int, d: pow10(frac_digits as nat) }),
    {
        let d = pow10_exec(frac_digits);
        normalize(mantissa, d)
    }

    /// The number `mantissa * 10^exp` in scientific notation.
    pub fn from_sci(mantissa: i128, exp: i32) -> (r: Rational)
        requires
            mantissa > i128::MIN,
            exp >= 0 ==> exp <= 38 && fits_i128(mantissa * pow10(exp as nat)),
            exp < 0 ==> -exp <= 38,
        ensures
            r.wf(),
            exp >= 0 ==> r@ == (RatV { n: mantissa * pow10(exp as nat), d: 1 }).canon(),
            exp >= 0 ==> r@.eqv(RatV { n: mantissa * pow10(exp as nat), d: 1 }),
            exp < 0 ==> r@ == (RatV { n: mantissa as int, d: pow10((-exp) as nat) }).canon(),
            exp < 0 ==> r@.eqv(RatV { n: mantissa as int, d: pow10((-exp) as nat) }),
    {
        if exp >= 0 {
            let p = pow10_exec(exp as u32);
            normalize(mantissa * p, 1)
        } else {
            let p = pow10_exec((-exp) as u32);
            normalize(mantissa, p)
        }
    }

    /// Exact sum.
    pub fn add(&self, other: &Rational) -> (r: Rational)
        requires
            self.wf(),
            other.wf(),
            self@.add_fits(other@),
        ensures
            r.wf(),
            r@ == self@.add(other@).canon(),
            r@.eqv(self@.add(other@)),
    {
        proof {
            vstd::arithmetic::mul::lemma_mul_strictly_positive(self@.d, other@.d);
        }
        let n = self.num * other.den + other.num * self.den;
        let d = self.den * other.den;
        normalize(n, d)
    }

    /// Exact difference.
    pub fn sub(&self, other: &Rational) -> (r: Rational)
        requires
            self.wf(),
            other.wf(),
            self@.add_fits(other@),
        ensures
            r.wf(),
            r@ == self@.sub(other@).canon(),
            r@.eqv(self@.sub(other@)),
    {
        proof {
            vstd::arithmetic::mul::lemma_mul_strictly_positive(self@.d, other@.d);
        }
        let n = self.num * other.den - other.num * self.den;
        let d = self.den * other.den;
        normalize(n, d)
    }

    /// Exact negation; never overflows thanks to the invariant.
    pub fn neg(&self) -> (r: Rational)
        requires
            self.wf(),
        ensures
            r.wf(),
            r@ == self@.neg(),
    {
        Rational { num: -self.num, den: self.den }
    }

    /// Exact product.
    pub fn mul(&self, other: &Rational) -> (r: Rational)
        requires
            self.wf(),
            other.wf(),
            self@.mul_fits(other@),
        ensures
            r.wf(),
            r@ == self@.mul(other@).canon(),
            r@.eqv(self@.mul(other@)),
    {
        proof {
            vstd::arithmetic::mul::lemma_mul_strictly_positive(self@.d, other@.d);
        }
        let n = self.num * other.num;
        let d = self.den * other.den;
        normalize(n, d)
    }

    /// Exact quotient; the divisor must be nonzero.
    pub fn div(&self, other: &Rational) -> (r: Rational)
        requires
            self.wf(),
            other.wf(),
            other@.n != 0,
            self@.div_fits(other@),
        ensures
            r.wf(),
            r@ == self@.div(other@).canon(),
            r@.eqv(self@.div(other@)),
    {
        let n = self.num * other.den;
        let d = self.den * other.num;
        proof {
            assert(d as int != 0) by (nonlinear_arith)
                requires
                    d as int == self@.d * other@.n,
                    self@.d > 0,
                    other@.n != 0,
            ;
        }
        let ghost dv = self@.div(other@);
        proof {
            assert(dv.d > 0) by (nonlinear_arith)
                requires
                    dv.d == self@.d * other@.inv().d,
                    self@.d > 0,
                    other@.n != 0,
                    other@.inv().d == if other@.n >= 0 { other@.n } else { -other@.n },
            ;
            lemma_canon(dv);
        }
        let r = if d < 0 {
            proof {
                assert(-(n as int) == self@.n * other@.inv().n && -(d as int) == self@.d
                    * other@.inv().d) by (nonlinear_arith)
                    requires
                        n as int == self@.n * other@.d,
                        d as int == self@.d * other@.n,
                        other@.n < 0,
                        other@.inv().n == -other@.d,
                        other@.inv().d == -other@.n,
                ;
            }
            normalize(-n, -d)
        } else {
            proof {
                assert(other@.n > 0) by (nonlinear_arith)
                    requires
                        d as int == self@.d * other@.n,
                        self@.d > 0,
                        d >= 0,
                        other@.n != 0,
                ;
            }
            normalize(n, d)
        };
        r
    }

    /// Whether the component powers of the reciprocal stay within `i128`.
    pub open spec fn recip_spec_fits(self, p: nat) -> bool {
        &&& vstd::arithmetic::power::pow(
            if self@.inv().n >= 0 {
                self@.inv().n
            } else {
                -self@.inv().n
            },
            p,
        ) <= i128::MAX
        &&& vstd::arithmetic::power::pow(self@.inv().d, p) <= i128::MAX
    }

    /// Multiplicative inverse; the value must be nonzero.
    pub fn recip(&self) -> (r: Rational)
        requires
            self.wf(),
            self@.n != 0,
        ensures
            r.wf(),
            r@ == self@.inv(),
    {
        if self.num < 0 {
            Rational { num: -self.den, den: -self.num }
        } else {
            Rational { num: self.den, den: self.num }
        }
    }

    /// Exact order: `self <= other`.
    pub fn le(&self, other: &Rational) -> (r: bool)
        requires
            self.wf(),
            other.wf(),
            self@.cmp_fits(other@),
        ensures
            r == self@.lev(other@),
    {
        self.num * other.den <= other.num * self.den
    }

    /// Exact strict order: `self < other`.
    pub fn lt(&self, other: &Rational) -> (r: bool)
        requires
            self.wf(),
            other.wf(),
            self@.cmp_fits(other@),
        ensures
            r == !other@.lev(self@),
    {
        self.num * other.den < other.num * self.den
    }

    /// True exactly on zero.
    pub fn is_zero(&self) -> (r: bool)
        requires
            self.wf(),
        ensures
            r == (self@.n == 0),
    {
        self.num == 0
    }

    /// The magnitude is negative.  On an exact scalar this is simply a sign
    /// test; there is no negative zero.
    pub fn is_sign_negative(&self) -> (r: bool)
        requires
            self.wf(),
        ensures
            r == (self@.n < 0),
    {
        self.num < 0
    }

    /// The magnitude is zero or positive.
    pub fn is_sign_positive(&self) -> (r: bool)
        requires
            self.wf(),
        ensures
            r == (self@.n >= 0),
    {
        self.num >= 0
    }

    /// Absolute value.
    pub fn abs(&self) -> (r: Rational)
        requires
            self.wf(),
        ensures
            r.wf(),
            self@.n >= 0 ==> r@ == self@,
            self@.n < 0 ==> r@ == self@.neg(),
    {
        if self.num < 0 {
            self.neg()
        } else {
            *self
        }
    }


    /// The floor: the greatest whole number not above the value.
    pub fn floor(&self) -> (r: Rational)
        requires
            self.wf(),
        ensures
            r.wf(),
            r@ == RatV::from_int(self@.n / self@.d),
    {
        let q = self.div_floor_exec();
        Rational { num: q, den: 1 }
    }

    /// The ceiling: the least whole number not below the value.
    pub fn ceil(&self) -> (r: Rational)
        requires
            self.wf(),
        ensures
            r.wf(),
            r@ == RatV::from_int(-((-self@.n) / self@.d)),
    {
        let n = self.neg();
        let f = n.floor();
        f.neg()
    }

    /// The whole part, truncated toward zero.
    pub fn trunc(&self) -> (r: Rational)
        requires
            self.wf(),
        ensures
            r.wf(),
            self@.n >= 0 ==> r@ == RatV::from_int(self@.n / self@.d),
            self@.n < 0 ==> r@ == RatV::from_int(-((-self@.n) / self@.d)),
    {
        if self.num >= 0 {
            self.floor()
        } else {
            self.ceil()
        }
    }

    /// The fractional part beyond the truncated whole part; it carries the
    /// sign of the value, as the truncation does.
    pub fn fract(&self) -> (r: Rational)
        requires
            self.wf(),
        ensures
            r.wf(),
            self@.n >= 0 ==> r@ == (RatV { n: self@.n % self@.d, d: self@.d }).canon(),
            self@.n < 0 ==> r@ == (RatV { n: -((-self@.n) % self@.d), d: self@.d }).canon(),
    {
        let un: u128 = if self.num < 0 {
            (-self.num) as u128
        } else {
            self.num as u128
        };
        let rem = un % (self.den as u128);
        let num = if self.num < 0 {
            -(rem as i128)
        } else {
            rem as i128
        };
        proof {
            vstd::arithmetic::div_mod::lemma_mod_division_less_than_divisor(
                un as int,
                self@.d,
            );
        }
        normalize(num, self.den)
    }

    /// Rounded to the nearest whole number, halves away from zero.
    pub fn round(&self) -> (r: Rational)
        requires
            self.wf(),
            2 * (if self@.n >= 0 {
                self@.n
            } else {
                -self@.n
            }) + self@.d <= u128::MAX,
        ensures
            r.wf(),
            self@.n >= 0 ==> r@ == RatV::from_int((2 * self@.n + self@.d) / (2 * self@.d)),
            self@.n < 0 ==> r@ == RatV::from_int(-((2 * (-self@.n) + self@.d) / (2 * self@.d))),
    {
        let un: u128 = if self.num < 0 {
            (-self.num) as u128
        } else {
            self.num as u128
        };
        let ud = self.den as u128;
        let mag = (2 * un + ud) / (2 * ud);
        proof {
            vstd::arithmetic::mul::lemma_mul_strictly_positive(2, self@.d);
            let t = 2 * ud as int;
            assert(2 * un as int + ud as int <= t * un as int + ud as int) by (nonlinear_arith)
                requires
                    ud >= 1,
                    un >= 0,
                    t == 2 * ud as int,
            ;
            vstd::arithmetic::div_mod::lemma_div_multiples_vanish_fancy(
                un as int,
                ud as int,
                t,
            );
            vstd::arithmetic::div_mod::lemma_div_is_ordered(
                2 * un as int + ud as int,
                t * un as int + ud as int,
                t,
            );
        }
        let num = if self.num < 0 {
            -(mag as i128)
        } else {
            mag as i128
        };
        Rational { num, den: 1 }
    }

    /// The Euclidean quotient of numerator by denominator, as a machine
    /// integer.
    fn div_floor_exec(&self) -> (q: i128)
        requires
            self.wf(),
        ensures
            q == self@.n / self@.d,
            q > i128::MIN,
    {
        if self.num >= 0 {
            let q = (self.num as u128) / (self.den as u128);
            q as i128
        } else {
            let un = (-self.num) as u128;
            let ud = self.den as u128;
            let q0 = un / ud;
            let rem = un % ud;
            proof {
                let ni = self@.n;
                let di = self@.d;
                vstd::arithmetic::div_mod::lemma_fundamental_div_mod(un as int, di);
                vstd::arithmetic::div_mod::lemma_mod_division_less_than_divisor(un as int, di);
                if rem == 0 {
                    assert(ni == di * (-(q0 as int))) by (nonlinear_arith)
                        requires
                            un as int == di * (q0 as int),
                            ni == -(un as int),
                    ;
                    vstd::arithmetic::div_mod::lemma_fundamental_div_mod_converse(
                        ni,
                        di,
                        -(q0 as int),
                        0,
                    );
                } else {
                    assert(ni == di * (-(q0 as int) - 1) + (di - rem as int)) by (nonlinear_arith)
                        requires
                            un as int == di * (q0 as int) + rem as int,
                            ni == -(un as int),
                    ;
                    vstd::arithmetic::div_mod::lemma_fundamental_div_mod_converse(
                        ni,
                        di,
                        -(q0 as int) - 1,
                        di - rem as int,
                    );
                }
            }
            if rem == 0 {
                -(q0 as i128)
            } else {
                proof {
                    assert(2 * q0 as int <= un as int) by (nonlinear_arith)
                        requires
                            un as int == ud as int * (q0 as int) + rem as int,
                            rem >= 1,
                            (rem as int) < ud as int,
                            q0 >= 0,
                    ;
                }
                -(q0 as i128) - 1
            }
        }
    }

    /// The smaller of two values (`self` on ties).
    pub fn min(&self, other: &Rational) -> (r: Rational)
        requires
            self.wf(),
            other.wf(),
            self@.cmp_fits(other@),
        ensures
            r.wf(),
            r == if self@.lev(other@) {
                *self
            } else {
                *other
            },
    {
        if self.le(other) {
            *self
        } else {
            *other
        }
    }

    /// The larger of two values (`self` on ties).
    pub fn max(&self, other: &Rational) -> (r: Rational)
        requires
            self.wf(),
            other.wf(),
            self@.cmp_fits(other@),
        ensures
            r.wf(),
            r == if other@.lev(self@) {
                *self
            } else {
                *other
            },
    {
        if other.le(self) {
            *self
        } else {
            *other
        }
    }
}

/// Fraction equality is symmetric.
pub proof fn lemma_eqv_sym(a: RatV, b: RatV)
    requires
        a.eqv(b),
    ensures
        b.eqv(a),
{
}

/// Fraction equality is transitive when the middle denominator is nonzero.
pub proof fn lemma_eqv_trans(a: RatV, b: RatV, c: RatV)
    requires
        b.d != 0,
        a.eqv(b),
        b.eqv(c),
    ensures
        a.eqv(c),
{
    assert(a.n * c.d == c.n * a.d) by (nonlinear_arith)
        requires
            b.d != 0,
            a.n * b.d == b.n * a.d,
            b.n * c.d == c.n * b.d,
    ;
}

/// Multiplication respects fraction equality.
pub proof fn lemma_eqv_mul(a: RatV, a2: RatV, b: RatV)
    requires
        a.eqv(a2),
    ensures
        a.mul(b).eqv(a2.mul(b)),
        b.mul(a).eqv(b.mul(a2)),
{
    assert((a.n * b.n) * (a2.d * b.d) == (a2.n * b.n) * (a.d * b.d) && (b.n * a.n) * (b.d * a2.d)
        == (b.n * a2.n) * (b.d * a.d)) by (nonlinear_arith)
        requires
            a.n * a2.d == a2.n * a.d,
    ;
}

/// Negation distributes over a product.
pub proof fn lemma_neg_mul(x: int, y: int)
    ensures
        (-x) * y == -(x * y),
        x * (-y) == -(x * y),
{
    vstd::arithmetic::mul::lemma_mul_unary_negation(x, y);
}

/// Negation respects fraction equality.
pub proof fn lemma_eqv_neg(a: RatV, a2: RatV)
    requires
        a.eqv(a2),
    ensures
        a.neg().eqv(a2.neg()),
{
    lemma_neg_mul(a.n, a2.d);
    lemma_neg_mul(a2.n, a.d);
}

/// Addition respects fraction equality.
#[verifier::rlimit(100)]
pub proof fn lemma_eqv_add(a: RatV, a2: RatV, b: RatV)
    requires
        a.eqv(a2),
    ensures
        a.add(b).eqv(a2.add(b)),
        b.add(a).eqv(b.add(a2)),
{
    let p1 = a.n * b.d;
    let p2 = b.n * a.d;
    let q = a2.d * b.d;
    let r1 = a2.n * b.d;
    let r2 = b.n * a2.d;
    let w = a.d * b.d;
    vstd::arithmetic::mul::lemma_mul_is_distributive_add_other_way(q, p1, p2);
    vstd::arithmetic::mul::lemma_mul_is_distributive_add_other_way(w, r1, r2);
    assert(p1 * q == r1 * w) by (nonlinear_arith)
        requires
            a.n * a2.d == a2.n * a.d,
            p1 == a.n * b.d,
            q == a2.d * b.d,
            r1 == a2.n * b.d,
            w == a.d * b.d,
    ;
    assert(p2 * q == r2 * w) by (nonlinear_arith)
        requires
            p2 == b.n * a.d,
            q == a2.d * b.d,
            r2 == b.n * a2.d,
            w == a.d * b.d,
    ;
    vstd::arithmetic::mul::lemma_mul_is_commutative(b.d, a.d);
    vstd::arithmetic::mul::lemma_mul_is_commutative(b.d, a2.d);
    assert(b.add(a) == a.add(b));
    assert(b.add(a2) == a2.add(b));
}

/// Subtraction respects fraction equality, in both positions.
#[verifier::rlimit(100)]
pub proof fn lemma_eqv_sub(a: RatV, a2: RatV, b: RatV)
    requires
        a.eqv(a2),
    ensures
        a.sub(b).eqv(a2.sub(b)),
        b.sub(a).eqv(b.sub(a2)),
{
    lemma_neg_mul(b.n, a.d);
    lemma_neg_mul(b.n, a2.d);
    assert(a.sub(b) == a.add(b.neg()));
    assert(a2.sub(b) == a2.add(b.neg()));
    lemma_eqv_add(a, a2, b.neg());
    lemma_eqv_neg(a, a2);
    lemma_neg_mul(a.n, b.d);
    lemma_neg_mul(a2.n, b.d);
    assert(b.sub(a) == b.add(a.neg()));
    assert(b.sub(a2) == b.add(a2.neg()));
    lemma_eqv_add(a.neg(), a2.neg(), b);
}

/// Multiplication is commutative on fraction values.
pub proof fn lemma_mul_comm(a: RatV, b: RatV)
    ensures
        a.mul(b).eqv(b.mul(a)),
{
    assert((a.n * b.n) * (b.d * a.d) == (b.n * a.n) * (a.d * b.d)) by (nonlinear_arith);
}

/// Multiplying by one (any fraction with equal components) changes nothing.
pub proof fn lemma_mul_unit(a: RatV, u: RatV)
    requires
        u.n == u.d,
    ensures
        a.mul(u).eqv(a),
        u.mul(a).eqv(a),
{
    assert((a.n * u.n) * a.d == a.n * (a.d * u.d) && (u.n * a.n) * a.d == a.n * (u.d * a.d))
        by (nonlinear_arith)
        requires
            u.n == u.d,
    ;
}

/// A nonzero fraction times its reciprocal is one.
pub proof fn lemma_mul_inv(f: RatV)
    requires
        f.n != 0,
    ensures
        f.mul(f.inv()).n == f.mul(f.inv()).d,
{
    assert(f.n * f.inv().n == f.d * f.inv().d) by (nonlinear_arith)
        requires
            (f.n >= 0 && f.inv().n == f.d && f.inv().d == f.n) || (f.n < 0 && f.inv().n == -f.d
                && f.inv().d == -f.n),
    ;
}

/// Multiplication is associative on fraction values.
pub proof fn lemma_mul_assoc(a: RatV, b: RatV, c: RatV)
    ensures
        a.mul(b).mul(c) == a.mul(b.mul(c)),
{
    vstd::arithmetic::mul::lemma_mul_is_associative(a.n, b.n, c.n);
    vstd::arithmetic::mul::lemma_mul_is_associative(a.d, b.d, c.d);
}

/// Adding and then subtracting the same fraction returns the original value.
pub proof fn lemma_add_sub_cancel(x: RatV, o: RatV)
    requires
        x.d != 0,
        o.d != 0,
    ensures
        x.add(o).sub(o).eqv(x),
{
    let s = x.add(o).sub(o);
    assert(s.n * x.d == x.n * s.d) by (nonlinear_arith)
        requires
            s.n == (x.n * o.d + o.n * x.d) * o.d - o.n * (x.d * o.d),
            s.d == (x.d * o.d) * o.d,
    ;
}

/// A whole number is already canonical.
pub proof fn lemma_canon_int(v: RatV)
    requires
        v.d == 1,
    ensures
        v.canon() == v,
{
    let a = if v.n >= 0 {
        v.n
    } else {
        -v.n
    };
    assert(a % 1 == 0) by (nonlinear_arith);
    assert(gcd_spec(a as nat, 1) == gcd_spec(1, 0));
    assert(v.n / 1int == v.n) by (nonlinear_arith);
    assert(v.d / 1int == v.d) by (nonlinear_arith);
}

/// A unit fraction `1 / d` is already canonical.
pub proof fn lemma_canon_one_den(d: int)
    requires
        d >= 1,
    ensures
        (RatV { n: 1, d }).canon() == (RatV { n: 1, d }),
{
    if d == 1 {
        lemma_canon_int(RatV { n: 1, d });
    } else {
        assert(1int % d == 1) by {
            vstd::arithmetic::div_mod::lemma_small_mod(1, d as nat);
        }
        assert(gcd_spec(1, d as nat) == gcd_spec(d as nat, 1));
        assert(d % 1 == 0) by (nonlinear_arith);
        assert(gcd_spec(d as nat, 1) == gcd_spec(1, 0));
        assert(1int / 1int == 1int) by (nonlinear_arith);
        assert(d / 1int == d) by (nonlinear_arith);
    }
}

} // verus!
