//! The prefix-selection helper.
//!
//! Given a magnitude, [`find_prefix`] picks the largest metric prefix whose
//! scaled magnitude is at least one — clamped to the standard range from
//! quecto to quetta — and returns the rescaled magnitude together with the
//! prefix symbol.  This is a presentation convenience on top of the
//! conversion protocol, not part of it.

use vstd::prelude::*;

use crate::rational::{abs_i, pow10, RatV, Rational};

verus! {

/// The magnitude of `x` reaches `10^e`.
pub open spec fn abs_ge_pow10(x: RatV, e: int) -> bool {
    if e >= 0 {
        abs_i(x.n) >= pow10(e as nat) * x.d
    } else {
        abs_i(x.n) * pow10((-e) as nat) >= x.d
    }
}

/// The search for the prefix slot, from slot `k` downwards: the first slot
/// whose threshold the magnitude reaches, or the lowest slot.
pub open spec fn prefix_index_from(x: RatV, k: int) -> int
    decreases k + 10,
    when k >= -10
{
    if k <= -10 {
        -10
    } else if abs_ge_pow10(x, 3 * k) {
        k
    } else {
        prefix_index_from(x, k - 1)
    }
}

/// The prefix slot of a magnitude: the largest `k` in the standard range
/// with `|x| >= 1000^k`, or the lowest slot for tiny and zero magnitudes.
pub open spec fn prefix_index(x: RatV) -> int {
    prefix_index_from(x, 10)
}

/// The scaling fraction of slot `k`: `1000^k`.
pub open spec fn prefix_scale(k: int) -> RatV {
    if k >= 0 {
        RatV { n: pow10((3 * k) as nat), d: 1 }
    } else {
        RatV { n: 1, d: pow10((-3 * k) as nat) }
    }
}

/// The symbol of slot `k`, from quecto up to quetta.
pub open spec fn prefix_symbol(k: int) -> Seq<char> {
    if k == -10 {
        "q"@
    } else if k == -9 {
        "r"@
    } else if k == -8 {
        "y"@
    } else if k == -7 {
        "z"@
    } else if k == -6 {
        "a"@
    } else if k == -5 {
        "f"@
    } else if k == -4 {
        "p"@
    } else if k == -3 {
        "n"@
    } else if k == -2 {
        "μ"@
    } else if k == -1 {
        "m"@
    } else if k == 0 {
        ""@
    } else if k == 1 {
        "k"@
    } else if k == 2 {
        "M"@
    } else if k == 3 {
        "G"@
    } else if k == 4 {
        "T"@
    } else if k == 5 {
        "P"@
    } else if k == 6 {
        "E"@
    } else if k == 7 {
        "Z"@
    } else if k == 8 {
        "Y"@
    } else if k == 9 {
        "R"@
    } else {
        "Q"@
    }
}

/// Decides [`abs_ge_pow10`] without overflowing, by dividing instead of
/// multiplying.
fn abs_ge_pow10_exec(x: &Rational, e: i32) -> (r: bool)
    requires
        x.wf(),
        -30 <= e <= 30,
    ensures
        r == abs_ge_pow10(x@, e as int),
{
    let un: u128 = if x.num < 0 {
        (-x.num) as u128
    } else {
        x.num as u128
    };
    let ud: u128 = x.den as u128;
    if e >= 0 {
        let t = crate::rational::pow10_exec(e as u32) as u128;
        let q = un / t;
        proof {
            let ti = t as int;
            let uni = un as int;
            let udi = ud as int;
            vstd::arithmetic::div_mod::lemma_fundamental_div_mod(uni, ti);
            vstd::arithmetic::div_mod::lemma_mod_division_less_than_divisor(uni, ti);
            if q as int >= udi {
                assert(uni >= ti * udi) by (nonlinear_arith)
                    requires
                        uni == ti * (q as int) + uni % ti,
                        uni % ti >= 0,
                        q as int >= udi,
                        ti >= 1,
                ;
            } else {
                assert(uni < ti * udi) by (nonlinear_arith)
                    requires
                        uni == ti * (q as int) + uni % ti,
                        uni % ti < ti,
                        q as int <= udi - 1,
                        ti >= 1,
                ;
            }
        }
        q >= ud
    } else {
        let t = crate::rational::pow10_exec((-e) as u32) as u128;
        let q = ud / t;
        let rem = ud % t;
        proof {
            let ti = t as int;
            let uni = un as int;
            let udi = ud as int;
            vstd::arithmetic::div_mod::lemma_fundamental_div_mod(udi, ti);
            vstd::arithmetic::div_mod::lemma_mod_division_less_than_divisor(udi, ti);
            if un > q {
                assert(uni * ti >= udi) by (nonlinear_arith)
                    requires
                        udi == ti * (q as int) + rem as int,
                        (rem as int) < ti,
                        uni >= q as int + 1,
                        ti >= 1,
                ;
            }
            if un == q && rem == 0 {
                assert(uni * ti >= udi) by (nonlinear_arith)
                    requires
                        udi == ti * (q as int),
                        uni == q as int,
                ;
            }
            if un < q {
                assert(uni * ti < udi) by (nonlinear_arith)
                    requires
                        udi == ti * (q as int) + rem as int,
                        rem as int >= 0,
                        uni <= q as int - 1,
                        ti >= 1,
                ;
            }
            if un == q && rem != 0 {
                assert(uni * ti < udi) by (nonlinear_arith)
                    requires
                        udi == ti * (q as int) + rem as int,
                        rem as int > 0,
                        uni == q as int,
                ;
            }
        }
        if un > q {
            true
        } else if un == q {
            rem == 0
        } else {
            false
        }
    }
}

/// The symbol of slot `k`, at run time.
fn prefix_symbol_exec(k: i32) -> (s: &'static str)
    requires
        -10 <= k <= 10,
    ensures
        s@ == prefix_symbol(k as int),
{
    if k == -10 {
        "q"
    } else if k == -9 {
        "r"
    } else if k == -8 {
        "y"
    } else if k == -7 {
        "z"
    } else if k == -6 {
        "a"
    } else if k == -5 {
        "f"
    } else if k == -4 {
        "p"
    } else if k == -3 {
        "n"
    } else if k == -2 {
        "μ"
    } else if k == -1 {
        "m"
    } else if k == 0 {
        ""
    } else if k == 1 {
        "k"
    } else if k == 2 {
        "M"
    } else if k == 3 {
        "G"
    } else if k == 4 {
        "T"
    } else if k == 5 {
        "P"
    } else if k == 6 {
        "E"
    } else if k == 7 {
        "Z"
    } else if k == 8 {
        "Y"
    } else if k == 9 {
        "R"
    } else {
        "Q"
    }
}

/// Finds the closest metric prefix for a magnitude: the value rescaled into
/// the chosen prefix, and the prefix symbol.  Values at or above `10^30`
/// clamp to quetta; values below `10^-30`, including zero, clamp to quecto.
pub fn find_prefix(value: &Rational) -> (r: (Rational, &'static str))
    requires
        value.wf(),
        value@.div_fits(prefix_scale(prefix_index(value@))),
    ensures
        r.0.wf(),
        r.0@ == value@.div(prefix_scale(prefix_index(value@))).canon(),
        r.0@.eqv(value@.div(prefix_scale(prefix_index(value@)))),
        r.1@ == prefix_symbol(prefix_index(value@)),
{
    let mut k: i32 = 10;
    while k > -10
        invariant_except_break
            value.wf(),
            -10 <= k <= 10,
            prefix_index(value@) == prefix_index_from(value@, k as int),
        ensures
            value.wf(),
            -10 <= k <= 10,
            prefix_index(value@) == k as int,
        decreases k + 10,
    {
        if abs_ge_pow10_exec(value, 3 * k) {
            proof {
                assert(prefix_index_from(value@, k as int) == k as int);
            }
            break;
        }
        k = k - 1;
    }
    proof {
        if slot_exp(k) >= 0 {
            crate::rational::lemma_pow10_pos(slot_exp(k) as nat);
        } else {
            crate::rational::lemma_pow10_pos((-slot_exp(k)) as nat);
        }
        crate::rational::lemma_pow10_38_fits();
        crate::rational::lemma_pow10_mono(if slot_exp(k) >= 0 {
            slot_exp(k) as nat
        } else {
            (-slot_exp(k)) as nat
        }, 30);
    }
    let scale = if k >= 0 {
        Rational { num: crate::rational::pow10_exec((3 * k) as u32), den: 1 }
    } else {
        Rational { num: 1, den: crate::rational::pow10_exec((-(3 * k)) as u32) }
    };
    let scaled = value.div(&scale);
    let symbol = prefix_symbol_exec(k);
    (scaled, symbol)
}

/// Three times the slot index, as mathematics.
spec fn slot_exp(k: i32) -> int {
    3 * (k as int)
}

} // verus!
