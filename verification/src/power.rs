//! Integer powers and floor roots of exact magnitudes.
//!
//! An integer power of a fraction is the fraction of the powers.  An n-th
//! root is in general irrational, so the engine returns the exactly
//! characterised floor root on a fixed decimal grid: the result `w / (d*S)`
//! satisfies `w^p <= v * (d*S)^p < (w+1)^p` for the scale `S = 10^9`.  On
//! perfect powers the floor root is the exact root
//! ([`lemma_root_floor_exact`]), which is what makes the square root of a
//! squared quantity return the original magnitude.

use vstd::prelude::*;

use crate::rational::{fits_i128, normalize, pow10, RatV, Rational};
use vstd::arithmetic::power::{
    pow, lemma_pow_adds, lemma_pow_increases, lemma_pow_positive, lemma_pow_strictly_increases,
    lemma_pow0, lemma_pow1, lemma0_pow, lemma1_pow,
};

verus! {

/// `w` is the floor of the `p`-th root of `t`.
pub open spec fn is_root_floor(w: int, t: int, p: nat) -> bool {
    &&& 0 <= w
    &&& pow(w, p) <= t
    &&& t < pow(w + 1, p)
}

/// Powers of nonnegative bases are nonnegative.
pub proof fn lemma_pow_nonneg(b: int, e: nat)
    requires
        b >= 0,
    ensures
        pow(b, e) >= 0,
    decreases e,
{
    reveal(pow);
    if e == 0 {
    } else {
        lemma_pow_nonneg(b, (e - 1) as nat);
        assert(b * pow(b, (e - 1) as nat) >= 0) by (nonlinear_arith)
            requires
                b >= 0,
                pow(b, (e - 1) as nat) >= 0,
        ;
    }
}

/// Raising to a power preserves order of nonnegative bases.
pub proof fn lemma_pow_base_mono(x: int, y: int, p: nat)
    requires
        0 <= x <= y,
    ensures
        pow(x, p) <= pow(y, p),
    decreases p,
{
    reveal(pow);
    if p > 0 {
        lemma_pow_base_mono(x, y, (p - 1) as nat);
        lemma_pow_nonneg(x, (p - 1) as nat);
        lemma_pow_nonneg(y, (p - 1) as nat);
        assert(x * pow(x, (p - 1) as nat) <= y * pow(y, (p - 1) as nat)) by (nonlinear_arith)
            requires
                0 <= x <= y,
                0 <= pow(x, (p - 1) as nat),
                pow(x, (p - 1) as nat) <= pow(y, (p - 1) as nat),
        ;
    }
}

/// Raising to a positive power preserves strict order of nonnegative bases.
pub proof fn lemma_pow_base_strict_mono(x: int, y: int, p: nat)
    requires
        0 <= x < y,
        p >= 1,
    ensures
        pow(x, p) < pow(y, p),
    decreases p,
{
    reveal(pow);
    if p == 1 {
        lemma_pow1(x);
        lemma_pow1(y);
    } else {
        lemma_pow_base_strict_mono(x, y, (p - 1) as nat);
        lemma_pow_nonneg(x, (p - 1) as nat);
        lemma_pow_positive(y, (p - 1) as nat);
        assert(x * pow(x, (p - 1) as nat) < y * pow(y, (p - 1) as nat)) by (nonlinear_arith)
            requires
                0 <= x < y,
                0 <= pow(x, (p - 1) as nat),
                pow(x, (p - 1) as nat) < pow(y, (p - 1) as nat),
                pow(y, (p - 1) as nat) >= 1,
        ;
    }
}

/// The floor root of a perfect power is its exact root.
pub proof fn lemma_root_floor_exact(w: int, k: int, p: nat)
    requires
        p >= 1,
        k >= 0,
        is_root_floor(w, pow(k, p), p),
    ensures
        w == k,
{
    if w < k {
        lemma_pow_base_mono(w + 1, k, p);
    }
    if w > k {
        lemma_pow_base_strict_mono(k, w, p);
    }
}

/// A base of at least one is no larger than any of its positive powers.
proof fn lemma_pow_ge_base(b: int, p: nat)
    requires
        b >= 1,
        p >= 1,
    ensures
        b <= pow(b, p),
{
    lemma_pow1(b);
    lemma_pow_increases(b as nat, 1, p);
}

/// Decides whether `x^p <= cap` without ever overflowing.
fn pow_le(x: u128, p: u32, cap: u128) -> (r: bool)
    requires
        p >= 1,
    ensures
        r == (pow(x as int, p as nat) <= cap as int),
{
    proof {
        lemma_pow0(x as int);
    }
    let mut acc: u128 = 1;
    let mut i: u32 = 0;
    while i < p
        invariant
            i <= p,
            acc == pow(x as int, i as nat),
        decreases p - i,
    {
        proof {
            lemma_pow_adds(x as int, i as nat, 1);
            lemma_pow1(x as int);
        }
        acc = match acc.checked_mul(x) {
            Some(v) => v,
            None => {
                // The running power already exceeds the cap, so the full
                // power does too.
                proof {
                    assert(x >= 2) by (nonlinear_arith)
                        requires
                            acc * (x as int) > u128::MAX,
                            acc >= 0,
                            x >= 0,
                            u128::MAX >= 1,
                    ;
                    lemma_pow_increases(x as nat, (i + 1) as nat, p as nat);
                }
                return false;
            },
        };
        i = i + 1;
    }
    acc <= cap
}

/// The floor of the `p`-th root of `v`, by binary search.
pub fn root_floor(v: u128, p: u32) -> (w: u128)
    requires
        p >= 1,
    ensures
        is_root_floor(w as int, v as int, p as nat),
{
    if p == 1 {
        proof {
            lemma_pow1(v as int);
            lemma_pow1(v as int + 1);
        }
        return v;
    }
    if v == 0 {
        proof {
            lemma0_pow(p as nat);
            lemma1_pow(p as nat);
        }
        return 0;
    }
    let mut lo: u128 = 0;
    let mut hi: u128 = if v < u128::MAX {
        v + 1
    } else {
        u128::MAX
    };
    proof {
        lemma0_pow(p as nat);
        if v < u128::MAX {
            lemma_pow_ge_base(v as int + 1, p as nat);
        } else {
            lemma_pow1(u128::MAX as int);
            lemma_pow_strictly_increases(u128::MAX as nat, 1, p as nat);
        }
    }
    while lo + 1 < hi
        invariant
            p >= 2,
            lo < hi,
            pow(lo as int, p as nat) <= v as int,
            pow(hi as int, p as nat) > v as int,
        decreases hi - lo,
    {
        let mid = lo + (hi - lo) / 2;
        if pow_le(mid, p, v) {
            lo = mid;
        } else {
            hi = mid;
        }
    }
    lo
}

/// A power of `x` as a machine integer.
pub fn pow_u128(x: u128, p: u32) -> (r: u128)
    requires
        pow(x as int, p as nat) <= u128::MAX,
    ensures
        r == pow(x as int, p as nat),
{
    proof {
        lemma_pow0(x as int);
    }
    let mut acc: u128 = 1;
    let mut i: u32 = 0;
    while i < p
        invariant
            i <= p,
            acc == pow(x as int, i as nat),
            pow(x as int, p as nat) <= u128::MAX,
        decreases p - i,
    {
        proof {
            lemma_pow_adds(x as int, i as nat, 1);
            lemma_pow1(x as int);
            if x == 0 {
                lemma0_pow((i + 1) as nat);
            } else {
                lemma_pow_increases(x as nat, (i + 1) as nat, p as nat);
            }
            lemma_pow_nonneg(x as int, i as nat);
        }
        acc = acc * x;
        i = i + 1;
    }
    acc
}

/// A power of a negated base: the power of the base, negated on odd
/// exponents.
pub proof fn lemma_pow_neg(a: int, e: nat)
    ensures
        e % 2 == 0 ==> pow(-a, e) == pow(a, e),
        e % 2 == 1 ==> pow(-a, e) == -pow(a, e),
    decreases e,
{
    reveal(pow);
    if e > 0 {
        lemma_pow_neg(a, (e - 1) as nat);
        if e % 2 == 0 {
            assert((e - 1) as nat % 2 == 1);
            assert((-a) * (-pow(a, (e - 1) as nat)) == a * pow(a, (e - 1) as nat))
                by (nonlinear_arith);
        } else {
            assert((e - 1) as nat % 2 == 0);
            assert((-a) * pow(a, (e - 1) as nat) == -(a * pow(a, (e - 1) as nat)))
                by (nonlinear_arith);
        }
    }
}

impl Rational {
    /// Whether both component powers stay within `i128`.
    pub open spec fn powi_fits(self, p: nat) -> bool {
        &&& pow(
            if self@.n >= 0 {
                self@.n
            } else {
                -self@.n
            },
            p,
        ) <= i128::MAX
        &&& pow(self@.d, p) <= i128::MAX
    }

    /// The exact `p`-th power: the fraction of the component powers.
    pub fn powi(&self, p: u32) -> (r: Rational)
        requires
            self.wf(),
            self.powi_fits(p as nat),
        ensures
            r.wf(),
            r@ == (RatV { n: pow(self@.n, p as nat), d: pow(self@.d, p as nat) }).canon(),
    {
        let un: u128 = if self.num < 0 {
            (-self.num) as u128
        } else {
            self.num as u128
        };
        let pn = pow_u128(un, p);
        let pd = pow_u128(self.den as u128, p);
        proof {
            lemma_pow_positive(self@.d, p as nat);
            lemma_pow_nonneg(un as int, p as nat);
            if self.num < 0 {
                lemma_pow_neg(un as int, p as nat);
                assert(-(un as int) == self@.n);
            }
        }
        let num = if self.num < 0 && p % 2 == 1 {
            -(pn as i128)
        } else {
            pn as i128
        };
        let r = normalize(num, pd as i128);
        proof {
            if self.num < 0 && p % 2 == 0 {
                assert(pow(self@.n, p as nat) == pow(un as int, p as nat));
            }
        }
        r
    }
}

/// What the floor `p`-th root of the fraction `x` brackets: the root of
/// `x.n * x.d^(p-1)`, carried onto the decimal grid of `10^9`.
pub open spec fn root_arg(x: RatV, p: nat) -> int {
    x.n * (pow(x.d, (p - 1) as nat) * pow(pow10(9), p))
}

/// The intermediate values of an n-th root computation stay within `i128`.
pub open spec fn root_fits(x: RatV, p: nat) -> bool {
    &&& pow(x.d, (p - 1) as nat) * pow(pow10(9), p) <= i128::MAX
    &&& root_arg(x, p) <= i128::MAX
    &&& fits_i128(x.d * pow10(9))
}

/// The floor `p`-th root of a nonnegative fraction on the `10^9` decimal
/// grid: a fraction `w / (x.d * 10^9)` whose `p`-th power brackets `x`.
pub fn rat_root(x: &Rational, p: u32) -> (r: Rational)
    requires
        x.wf(),
        x@.n >= 0,
        p >= 1,
        root_fits(x@, p as nat),
    ensures
        r.wf(),
        exists|w: int|
            #![trigger is_root_floor(w, root_arg(x@, p as nat), p as nat)]
            is_root_floor(w, root_arg(x@, p as nat), p as nat) && r@ == (RatV {
                n: w,
                d: x@.d * pow10(9),
            }).canon(),
{
    let s: u128 = 1000000000;
    proof {
        crate::rational::lemma_pow10_38_fits();
        reveal_with_fuel(crate::rational::pow10, 11);
        assert(s as int == pow10(9));
    }
    proof {
        lemma_pow_positive(x@.d, (p - 1) as nat);
        lemma_pow_positive(pow10(9), p as nat);
        assert(pow(x@.d, (p - 1) as nat) <= i128::MAX && pow(pow10(9), p as nat) <= i128::MAX)
            by (nonlinear_arith)
            requires
                pow(x@.d, (p - 1) as nat) * pow(pow10(9), p as nat) <= i128::MAX,
                pow(x@.d, (p - 1) as nat) >= 1,
                pow(pow10(9), p as nat) >= 1,
        ;
    }
    let dp = pow_u128(x.den as u128, p - 1);
    let sp = pow_u128(s, p);
    proof {
        assert(dp as int * sp as int <= i128::MAX);
    }
    let m1 = dp * sp;
    proof {
        assert(x@.n * (m1 as int) <= i128::MAX);
        assert(m1 >= 1) by (nonlinear_arith)
            requires
                m1 as int == dp as int * sp as int,
                dp >= 1,
                sp >= 1,
        ;
        assert(x@.n * (m1 as int) >= 0) by (nonlinear_arith)
            requires
                x@.n >= 0,
                m1 as int >= 1,
        ;
    }
    let t = (x.num as u128) * m1;
    let w = root_floor(t, p);
    proof {
        if w >= 1 {
            lemma_pow_ge_base(w as int, p as nat);
        }
        assert(w as int <= i128::MAX);
        vstd::arithmetic::mul::lemma_mul_strictly_positive(x@.d, pow10(9));
    }
    let grid = x.den * pow10_exec_i128();
    let r = normalize(w as i128, grid);
    proof {
        let wi = w as int;
        assert(is_root_floor(wi, root_arg(x@, p as nat), p as nat));
    }
    r
}

/// `10^9` as a machine integer.
fn pow10_exec_i128() -> (r: i128)
    ensures
        r == pow10(9),
{
    proof {
        reveal_with_fuel(crate::rational::pow10, 11);
    }
    1000000000
}

/// Law: an n-th root exactly inverts an n-th power of a whole magnitude.
/// Squaring a quantity of four metres and taking the square root returns
/// exactly four metres: the floor root of `k^p` on the decimal grid is `k`
/// itself, so the root's value equals the original whole magnitude.
pub proof fn lemma_root_of_power(k: int, w: int, p: nat)
    requires
        p >= 1,
        k >= 0,
        is_root_floor(w, root_arg(RatV { n: pow(k, p), d: 1 }, p), p),
    ensures
        (RatV { n: w, d: pow10(9) }).eqv(RatV { n: k, d: 1 }),
{
    let s = pow10(9);
    crate::rational::lemma_pow10_pos(9);
    lemma1_pow((p - 1) as nat);
    vstd::arithmetic::power::lemma_pow_distributes(k, s, p);
    assert(root_arg(RatV { n: pow(k, p), d: 1 }, p) == pow(k, p) * (1 * pow(s, p)));
    assert(pow(k, p) * (1 * pow(s, p)) == pow(k * s, p)) by (nonlinear_arith)
        requires
            pow(k * s, p) == pow(k, p) * pow(s, p),
    ;
    assert(k * s >= 0) by (nonlinear_arith)
        requires
            k >= 0,
            s >= 1,
    ;
    lemma_root_floor_exact(w, k * s, p);
}

} // verus!
