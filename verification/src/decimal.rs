//! Decimal rendering of exact magnitudes.
//!
//! A magnitude is rendered at a given number of fractional digits by
//! rounding half away from zero onto that decimal grid, or at its natural
//! precision: the smallest number of fractional digits that represents the
//! value exactly, when one exists (a whole number renders with no fractional
//! part at all, as the shortest-form rendering of a binary float does).

use vstd::prelude::*;

use crate::rational::{abs_i, pow10, RatV, Rational};

verus! {

use vstd::string::StrSliceExecFns;
use vstd::string::StringExecFns;

/// The digit character of one decimal digit.
pub open spec fn digit_char(d: int) -> char {
    if d == 0 {
        '0'
    } else if d == 1 {
        '1'
    } else if d == 2 {
        '2'
    } else if d == 3 {
        '3'
    } else if d == 4 {
        '4'
    } else if d == 5 {
        '5'
    } else if d == 6 {
        '6'
    } else if d == 7 {
        '7'
    } else if d == 8 {
        '8'
    } else {
        '9'
    }
}

/// The decimal digit string of a natural number, most significant first.
pub open spec fn dec_digits(n: nat) -> Seq<char>
    decreases n,
{
    if n < 10 {
        seq![digit_char(n as int)]
    } else {
        dec_digits(n / 10) + seq![digit_char((n % 10) as int)]
    }
}

/// A run of `k` zero characters.
pub open spec fn zeros(k: nat) -> Seq<char>
    decreases k,
{
    if k == 0 {
        Seq::empty()
    } else {
        zeros((k - 1) as nat) + seq!['0']
    }
}

/// The magnitude of `x`, scaled by `10^p` and rounded half away from zero.
pub open spec fn scaled_mag(x: RatV, p: nat) -> int {
    (2 * (abs_i(x.n) * pow10(p)) + x.d) / (2 * x.d)
}

/// The rendering of `x` with exactly `p` fractional digits: an optional
/// sign, the whole part, and for `p > 0` a point followed by the zero-padded
/// fractional digits.
pub open spec fn format_fixed_spec(x: RatV, p: nat) -> Seq<char> {
    let m = scaled_mag(x, p);
    let sign: Seq<char> = if x.n < 0 && m != 0 {
        seq!['-']
    } else {
        Seq::empty()
    };
    if p == 0 {
        sign + dec_digits(m as nat)
    } else {
        let whole = m / pow10(p);
        let frac = m % pow10(p);
        sign + dec_digits(whole as nat) + seq!['.'] + zeros(
            (p - dec_digits(frac as nat).len()) as nat,
        ) + dec_digits(frac as nat)
    }
}

/// The natural precision of a denominator: the smallest number of decimal
/// digits that renders a fraction over it exactly, capped at seventeen for
/// values with no finite decimal form.
pub open spec fn natural_precision(d: int) -> nat {
    natural_precision_from(d, 0)
}

/// Helper for [`natural_precision`]: the search from `p` upwards.
pub open spec fn natural_precision_from(d: int, p: nat) -> nat
    decreases 17 - p,
{
    if p >= 17 {
        17
    } else if pow10(p) % d == 0 {
        p
    } else {
        natural_precision_from(d, p + 1)
    }
}

/// One decimal digit as a string.
fn digit_str(d: u128) -> (s: &'static str)
    requires
        d < 10,
    ensures
        s@ =~= seq![digit_char(d as int)],
{
    proof {
        reveal_strlit("0");
        reveal_strlit("1");
        reveal_strlit("2");
        reveal_strlit("3");
        reveal_strlit("4");
        reveal_strlit("5");
        reveal_strlit("6");
        reveal_strlit("7");
        reveal_strlit("8");
        reveal_strlit("9");
    }
    if d == 0 {
        "0"
    } else if d == 1 {
        "1"
    } else if d == 2 {
        "2"
    } else if d == 3 {
        "3"
    } else if d == 4 {
        "4"
    } else if d == 5 {
        "5"
    } else if d == 6 {
        "6"
    } else if d == 7 {
        "7"
    } else if d == 8 {
        "8"
    } else {
        "9"
    }
}

/// The decimal digit string of a machine natural number.
pub fn dec_string(n: u128) -> (s: String)
    ensures
        s@ == dec_digits(n as nat),
    decreases n,
{
    if n < 10 {
        let s = digit_str(n).to_owned();
        proof {
            assert(s@ =~= dec_digits(n as nat));
        }
        s
    } else {
        let mut s = dec_string(n / 10);
        s.append(digit_str(n % 10));
        proof {
            assert(s@ =~= dec_digits(n as nat));
        }
        s
    }
}

/// Numbers below `10^k` have at most `k` digits.
proof fn lemma_dec_digits_len(n: nat, k: nat)
    requires
        k >= 1,
        n < pow10(k),
    ensures
        dec_digits(n).len() <= k,
    decreases n,
{
    if n < 10 {
    } else {
        crate::rational::lemma_pow10_pos((k - 1) as nat);
        assert(pow10(k) == 10 * pow10((k - 1) as nat));
        assert(n / 10 < pow10((k - 1) as nat)) by (nonlinear_arith)
            requires
                n < 10 * pow10((k - 1) as nat),
                n >= 10,
                n / 10 == n as int / 10,
        ;
        assert(k >= 2) by {
            if k == 1 {
                assert(pow10(1) == 10 * pow10(0));
            }
        }
        lemma_dec_digits_len(n / 10, (k - 1) as nat);
    }
}

/// Appends `k` zero characters.
fn append_zeros(s: &mut String, k: u32)
    ensures
        final(s)@ == old(s)@ + zeros(k as nat),
{
    let mut i: u32 = 0;
    proof {
        assert(old(s)@ + zeros(0) =~= old(s)@);
    }
    while i < k
        invariant
            i <= k,
            s@ == old(s)@ + zeros(i as nat),
        decreases k - i,
    {
        proof {
            reveal_strlit("0");
            assert((old(s)@ + zeros(i as nat)) + "0"@ =~= old(s)@ + zeros((i + 1) as nat));
        }
        s.append("0");
        i = i + 1;
    }
}

/// Renders `x` with exactly `p` fractional digits, rounding half away from
/// zero.
pub fn format_fixed(x: &Rational, p: u32) -> (s: String)
    requires
        x.wf(),
        p <= 38,
        2 * (abs_i(x@.n) * pow10(p as nat)) + x@.d <= u128::MAX,
    ensures
        s@ == format_fixed_spec(x@, p as nat),
{
    let un: u128 = if x.num < 0 {
        (-x.num) as u128
    } else {
        x.num as u128
    };
    let ud: u128 = x.den as u128;
    let sp128 = crate::rational::pow10_exec(p);
    let sp: u128 = sp128 as u128;
    proof {
        assert(un as int * sp as int >= 0) by (nonlinear_arith)
            requires
                un >= 0,
                sp >= 0,
        ;
        assert(2 * (un as int * sp as int) + ud as int <= u128::MAX);
        vstd::arithmetic::mul::lemma_mul_strictly_positive(2, ud as int);
    }
    let t = un * sp;
    let m = (2 * t + ud) / (2 * ud);
    proof {
        assert(m as int == scaled_mag(x@, p as nat));
        vstd::arithmetic::div_mod::lemma_mod_division_less_than_divisor(m as int, sp as int);
        vstd::arithmetic::div_mod::lemma_mod_bound(m as int, sp as int);
    }
    let mut s = String::new();
    if x.num < 0 && m != 0 {
        proof {
            reveal_strlit("-");
        }
        s.append("-");
    }
    if p == 0 {
        let whole_str = dec_string(m);
        s.append(whole_str.as_str());
        proof {
            assert(s@ =~= format_fixed_spec(x@, p as nat));
        }
        s
    } else {
        let whole = m / sp;
        let frac = m % sp;
        let whole_str = dec_string(whole);
        s.append(whole_str.as_str());
        proof {
            reveal_strlit(".");
        }
        s.append(".");
        let frac_str = dec_string(frac);
        let fl = frac_str.as_str().unicode_len();
        proof {
            lemma_dec_digits_len(frac as nat, p as nat);
        }
        append_zeros(&mut s, p - (fl as u32));
        s.append(frac_str.as_str());
        proof {
            assert(s@ =~= format_fixed_spec(x@, p as nat));
        }
        s
    }
}

/// Renders `x` at its natural precision: exactly, with the fewest
/// fractional digits, when the denominator divides a power of ten; else
/// rounded at seventeen digits.
pub fn format_natural(x: &Rational) -> (s: String)
    requires
        x.wf(),
        2 * (abs_i(x@.n) * pow10(natural_precision(x@.d))) + x@.d <= u128::MAX,
    ensures
        s@ == format_fixed_spec(x@, natural_precision(x@.d)),
{
    let mut p: u32 = 0;
    while p < 17
        invariant
            p <= 17,
            x.wf(),
            natural_precision(x@.d) == natural_precision_from(x@.d, p as nat),
            2 * (abs_i(x@.n) * pow10(natural_precision(x@.d))) + x@.d <= u128::MAX,
        decreases 17 - p,
    {
        let q = crate::rational::pow10_exec(p);
        if q % x.den == 0 {
            return format_fixed(x, p);
        }
        p = p + 1;
    }
    format_fixed(x, 17)
}

} // verus!
