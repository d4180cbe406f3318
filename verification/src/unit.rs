//! Units and the affine conversion protocol.
//!
//! A [`Unit`] is a named, stateless descriptor.  A [`QuantityConversion`]
//! attaches to a unit, for exactly one dimension/kind pairing, the affine
//! conversion into and out of that quantity type's base representation:
//! `to_base(x) = (x + offset) * factor` and its inverse.  A [`UnitDef`]
//! bundles the two and is what quantity construction and read-out take.
//! Prefixed units are derived from a base-named unit by a pure multiplicative
//! decimal factor; offsets are never prefixed.

use vstd::prelude::*;

use crate::decimal::{format_fixed, format_fixed_spec, format_natural, natural_precision};
use crate::rational::abs_i;
use crate::dimension::{DimV, Dimension, SiDim};
use crate::kind::Kind;
use crate::rational::{pow10, RatV, Rational};
use crate::rational::{
    lemma_canon, lemma_eqv_mul, lemma_eqv_sub, lemma_eqv_trans, lemma_mul_assoc, lemma_mul_comm,
    lemma_mul_inv, lemma_mul_unit, lemma_add_sub_cancel, lemma_eqv_sym,
};

verus! {

use vstd::string::StringExecFns;

/// A named unit marker: a long (canonical) name and a short print name.
pub struct Unit {
    pub long_name: String,
    pub print_name: String,
}

impl Unit {
    /// Declares a unit with the given names.
    pub fn new(long_name: &str, print_name: &str) -> (u: Unit)
        ensures
            u.long_name@ == long_name@,
            u.print_name@ == print_name@,
    {
        Unit { long_name: long_name.to_owned(), print_name: print_name.to_owned() }
    }
}

/// The affine conversion of one unit for one quantity type: a scale factor,
/// an offset (zero for most units, stated in the unit's own scale), and the
/// dimension and kind the conversion is registered for.
pub struct QuantityConversion {
    pub factor: Rational,
    pub offset: Rational,
    pub dim: SiDim,
    pub kind: Kind,
}

impl Dimension for QuantityConversion {
    open spec fn dim(&self) -> DimV {
        self.dim@
    }
}

impl QuantityConversion {
    /// A usable conversion has well-formed components and a nonzero factor.
    pub open spec fn wf(self) -> bool {
        self.factor.wf() && self.offset.wf() && self.factor@.n != 0
    }

    /// What `convert_to_base` computes: `(x + offset) * factor`, reduced
    /// after each step.
    pub open spec fn to_base_v(self, x: RatV) -> RatV {
        x.add(self.offset@).canon().mul(self.factor@).canon()
    }

    /// What `convert_from_base` computes: `base / factor - offset`, reduced
    /// after each step.
    pub open spec fn from_base_v(self, base: RatV) -> RatV {
        base.div(self.factor@).canon().sub(self.offset@).canon()
    }

    /// The intermediate values of `convert_to_base` stay within `i128`:
    /// stated over the raw products of the inputs, since reduction between
    /// the steps only shrinks the components.
    pub open spec fn to_base_fits(self, x: RatV) -> bool {
        x.add_fits(self.offset@) && x.add(self.offset@).mul_fits(self.factor@)
    }

    /// The intermediate values of `convert_from_base` stay within `i128`,
    /// stated over the raw products of the inputs.
    pub open spec fn from_base_fits(self, base: RatV) -> bool {
        base.div_fits(self.factor@) && base.div(self.factor@).add_fits(self.offset@)
    }

    /// The scale factor.
    pub fn factor(&self) -> (r: Rational)
        ensures
            r == self.factor,
    {
        self.factor
    }

    /// The offset, in this unit's own scale.
    pub fn offset(&self) -> (r: Rational)
        ensures
            r == self.offset,
    {
        self.offset
    }

    /// Converts a magnitude in this unit into the base representation:
    /// `(x + offset) * factor`, exactly.
    pub fn convert_to_base(&self, x: &Rational) -> (r: Rational)
        requires
            self.wf(),
            x.wf(),
            self.to_base_fits(x@),
        ensures
            r.wf(),
            r@ == self.to_base_v(x@),
            r@.eqv(x@.add(self.offset@).mul(self.factor@)),
    {
        proof {
            let raw = x@.add(self.offset@);
            assert(raw.d > 0) by (nonlinear_arith)
                requires
                    raw.d == x@.d * self.offset@.d,
                    x@.d > 0,
                    self.offset@.d > 0,
            ;
            crate::rational::lemma_canon_mul_fits(raw, self.factor@);
        }
        let shifted = x.add(&self.offset);
        let r = shifted.mul(&self.factor);
        proof {
            let raw = x@.add(self.offset@);
            lemma_canon(raw);
            lemma_eqv_mul(raw.canon(), raw, self.factor@);
            assert(raw.canon().mul(self.factor@).d > 0) by (nonlinear_arith)
                requires
                    raw.canon().d > 0,
                    self.factor@.d > 0,
                    raw.canon().mul(self.factor@).d == raw.canon().d * self.factor@.d,
            ;
            lemma_canon(raw.canon().mul(self.factor@));
            lemma_eqv_trans(r@, raw.canon().mul(self.factor@), raw.mul(self.factor@));
        }
        r
    }

    /// Converts a base-representation magnitude into this unit:
    /// `base / factor - offset`, exactly.
    pub fn convert_from_base(&self, base: &Rational) -> (r: Rational)
        requires
            self.wf(),
            base.wf(),
            self.from_base_fits(base@),
        ensures
            r.wf(),
            r@ == self.from_base_v(base@),
            r@.eqv(base@.div(self.factor@).sub(self.offset@)),
    {
        proof {
            let raw = base@.div(self.factor@);
            assert(raw.d > 0) by (nonlinear_arith)
                requires
                    base@.d > 0,
                    self.factor@.n != 0,
                    raw.d == base@.d * self.factor@.inv().d,
                    self.factor@.inv().d == if self.factor@.n >= 0 {
                        self.factor@.n
                    } else {
                        -self.factor@.n
                    },
            ;
            crate::rational::lemma_canon_add_fits(raw, self.offset@);
        }
        let scaled = base.div(&self.factor);
        let r = scaled.sub(&self.offset);
        proof {
            let raw = base@.div(self.factor@);
            lemma_canon(raw);
            lemma_eqv_sub(raw.canon(), raw, self.offset@);
            assert(raw.canon().sub(self.offset@).d > 0) by (nonlinear_arith)
                requires
                    raw.canon().d > 0,
                    self.offset@.d > 0,
                    raw.canon().sub(self.offset@).d == raw.canon().d * self.offset@.d,
            ;
            lemma_canon(raw.canon().sub(self.offset@));
            lemma_eqv_trans(r@, raw.canon().sub(self.offset@), raw.sub(self.offset@));
        }
        r
    }
}

/// A unit together with one registered conversion: everything needed to
/// build a quantity from a magnitude in this unit, or to read one out.
pub struct UnitDef {
    pub unit: Unit,
    pub conv: QuantityConversion,
}

impl UnitDef {
    /// A usable unit definition has a usable conversion.
    pub open spec fn wf(self) -> bool {
        self.conv.wf()
    }

    /// Declares a unit with its conversion for one quantity type.
    pub fn new(
        long_name: &str,
        print_name: &str,
        factor: Rational,
        offset: Rational,
        dim: SiDim,
        kind: Kind,
    ) -> (u: UnitDef)
        requires
            factor.wf(),
            offset.wf(),
            factor@.n != 0,
        ensures
            u.wf(),
            u.unit.long_name@ == long_name@,
            u.unit.print_name@ == print_name@,
            u.conv.factor == factor,
            u.conv.offset == offset,
            u.conv.dim == dim,
            u.conv.kind == kind,
    {
        UnitDef {
            unit: Unit::new(long_name, print_name),
            conv: QuantityConversion { factor, offset, dim, kind },
        }
    }
}


/// Pairs a magnitude with a unit's print name, ready for rendering as
/// `"<magnitude> <print name>"`.
pub struct UnitFormatter {
    pub value: Rational,
    pub print_name: String,
}

impl UnitFormatter {
    /// A well-formed formatter holds a well-formed magnitude.
    pub open spec fn wf(self) -> bool {
        self.value.wf()
    }

    /// Creates a formatter for a magnitude and a unit's print name.
    pub fn new(value: Rational, print_name: &str) -> (f: UnitFormatter)
        requires
            value.wf(),
        ensures
            f.wf(),
            f.value == value,
            f.print_name@ == print_name@,
    {
        UnitFormatter { value, print_name: print_name.to_owned() }
    }

    /// Renders at the magnitude's natural precision: exactly, when the value
    /// has a finite decimal form.
    pub fn to_display(&self) -> (s: String)
        requires
            self.wf(),
            2 * (abs_i(self.value@.n) * pow10(natural_precision(self.value@.d))) + self.value@.d
                <= u128::MAX,
        ensures
            s@ == format_fixed_spec(self.value@, natural_precision(self.value@.d)) + " "@
                + self.print_name@,
    {
        let mut s = format_natural(&self.value);
        proof {
            reveal_strlit(" ");
        }
        s.append(" ");
        s.append(self.print_name.as_str());
        s
    }

    /// Renders with exactly `p` fractional digits, rounding half away from
    /// zero.
    pub fn to_display_precision(&self, p: u32) -> (s: String)
        requires
            self.wf(),
            p <= 38,
            2 * (abs_i(self.value@.n) * pow10(p as nat)) + self.value@.d <= u128::MAX,
        ensures
            s@ == format_fixed_spec(self.value@, p as nat) + " "@ + self.print_name@,
    {
        let mut s = format_fixed(&self.value, p);
        proof {
            reveal_strlit(" ");
        }
        s.append(" ");
        s.append(self.print_name.as_str());
        s
    }
}

/// The standard decimal prefixes, from `1e30` down to `1e-30`.
#[derive(Clone, Copy, PartialEq, Eq, Structural, Debug)]
pub enum Prefix {
    Quetta,
    Ronna,
    Yotta,
    Zetta,
    Exa,
    Peta,
    Tera,
    Giga,
    Mega,
    Kilo,
    Hecto,
    Deca,
    Deci,
    Centi,
    Milli,
    Micro,
    Nano,
    Pico,
    Femto,
    Atto,
    Zepto,
    Yocto,
    Ronto,
    Quecto,
}

impl Prefix {
    /// The decimal exponent of this prefix.
    pub open spec fn exp_spec(self) -> int {
        match self {
            Prefix::Quetta => 30,
            Prefix::Ronna => 27,
            Prefix::Yotta => 24,
            Prefix::Zetta => 21,
            Prefix::Exa => 18,
            Prefix::Peta => 15,
            Prefix::Tera => 12,
            Prefix::Giga => 9,
            Prefix::Mega => 6,
            Prefix::Kilo => 3,
            Prefix::Hecto => 2,
            Prefix::Deca => 1,
            Prefix::Deci => -1,
            Prefix::Centi => -2,
            Prefix::Milli => -3,
            Prefix::Micro => -6,
            Prefix::Nano => -9,
            Prefix::Pico => -12,
            Prefix::Femto => -15,
            Prefix::Atto => -18,
            Prefix::Zepto => -21,
            Prefix::Yocto => -24,
            Prefix::Ronto => -27,
            Prefix::Quecto => -30,
        }
    }

    /// The multiplier of this prefix, `10^exp`, as an exact fraction.
    pub open spec fn mult_spec(self) -> RatV {
        if self.exp_spec() >= 0 {
            RatV { n: pow10(self.exp_spec() as nat), d: 1 }
        } else {
            RatV { n: 1, d: pow10((-self.exp_spec()) as nat) }
        }
    }

    /// The decimal exponent, at run time.
    pub fn exponent(&self) -> (e: i32)
        ensures
            e as int == self.exp_spec(),
    {
        match self {
            Prefix::Quetta => 30,
            Prefix::Ronna => 27,
            Prefix::Yotta => 24,
            Prefix::Zetta => 21,
            Prefix::Exa => 18,
            Prefix::Peta => 15,
            Prefix::Tera => 12,
            Prefix::Giga => 9,
            Prefix::Mega => 6,
            Prefix::Kilo => 3,
            Prefix::Hecto => 2,
            Prefix::Deca => 1,
            Prefix::Deci => -1,
            Prefix::Centi => -2,
            Prefix::Milli => -3,
            Prefix::Micro => -6,
            Prefix::Nano => -9,
            Prefix::Pico => -12,
            Prefix::Femto => -15,
            Prefix::Atto => -18,
            Prefix::Zepto => -21,
            Prefix::Yocto => -24,
            Prefix::Ronto => -27,
            Prefix::Quecto => -30,
        }
    }

    /// The print symbol of this prefix.
    pub open spec fn symbol_spec(self) -> Seq<char> {
        match self {
            Prefix::Quetta => "Q"@,
            Prefix::Ronna => "R"@,
            Prefix::Yotta => "Y"@,
            Prefix::Zetta => "Z"@,
            Prefix::Exa => "E"@,
            Prefix::Peta => "P"@,
            Prefix::Tera => "T"@,
            Prefix::Giga => "G"@,
            Prefix::Mega => "M"@,
            Prefix::Kilo => "k"@,
            Prefix::Hecto => "h"@,
            Prefix::Deca => "da"@,
            Prefix::Deci => "d"@,
            Prefix::Centi => "c"@,
            Prefix::Milli => "m"@,
            Prefix::Micro => "μ"@,
            Prefix::Nano => "n"@,
            Prefix::Pico => "p"@,
            Prefix::Femto => "f"@,
            Prefix::Atto => "a"@,
            Prefix::Zepto => "z"@,
            Prefix::Yocto => "y"@,
            Prefix::Ronto => "r"@,
            Prefix::Quecto => "q"@,
        }
    }

    /// The print symbol, at run time.
    pub fn symbol(&self) -> (s: &'static str)
        ensures
            s@ == self.symbol_spec(),
    {
        match self {
            Prefix::Quetta => "Q",
            Prefix::Ronna => "R",
            Prefix::Yotta => "Y",
            Prefix::Zetta => "Z",
            Prefix::Exa => "E",
            Prefix::Peta => "P",
            Prefix::Tera => "T",
            Prefix::Giga => "G",
            Prefix::Mega => "M",
            Prefix::Kilo => "k",
            Prefix::Hecto => "h",
            Prefix::Deca => "da",
            Prefix::Deci => "d",
            Prefix::Centi => "c",
            Prefix::Milli => "m",
            Prefix::Micro => "μ",
            Prefix::Nano => "n",
            Prefix::Pico => "p",
            Prefix::Femto => "f",
            Prefix::Atto => "a",
            Prefix::Zepto => "z",
            Prefix::Yocto => "y",
            Prefix::Ronto => "r",
            Prefix::Quecto => "q",
        }
    }

    /// The multiplier, at run time.
    pub fn multiplier(&self) -> (r: Rational)
        ensures
            r.wf(),
            r@ == self.mult_spec(),
    {
        let e = self.exponent();
        proof {
            crate::rational::lemma_pow10_38_fits();
            if e >= 0 {
                crate::rational::lemma_pow10_pos(e as nat);
                crate::rational::lemma_pow10_mono(e as nat, 38);
                crate::rational::lemma_canon_int(RatV { n: pow10(e as nat), d: 1 });
            } else {
                crate::rational::lemma_pow10_pos((-e) as nat);
            }
        }
        let r = Rational::from_sci(1, e);
        proof {
            if e < 0 {
                crate::rational::lemma_canon_one_den(pow10((-e) as nat));
            }
        }
        r
    }
}

/// Derives the prefixed variant of a base-named unit: the effective factor
/// is the base factor times the prefix multiplier and one extra pure factor
/// (one for regular families; the mass family passes a milli factor because
/// the kilogram, not the gram, is the SI base unit of mass).  The offset is
/// the base unit's offset, never prefixed.
pub fn prefixed_with_factor(base: &UnitDef, p: Prefix, extra: &Rational) -> (u: UnitDef)
    requires
        base.wf(),
        extra.wf(),
        extra@.n != 0,
        base.conv.factor@.mul_fits(p.mult_spec()),
        base.conv.factor@.mul(p.mult_spec()).canon().mul_fits(extra@),
    ensures
        u.wf(),
        u.conv.factor@ == base.conv.factor@.mul(p.mult_spec()).canon().mul(extra@).canon(),
        u.conv.factor@.eqv(base.conv.factor@.mul(p.mult_spec()).mul(extra@)),
        u.conv.offset == base.conv.offset,
        u.conv.dim == base.conv.dim,
        u.conv.kind == base.conv.kind,
        u.unit.print_name@ == p.symbol_spec() + base.unit.print_name@,
    {
    proof {
        if p.exp_spec() >= 0 {
            crate::rational::lemma_pow10_pos(p.exp_spec() as nat);
        } else {
            crate::rational::lemma_pow10_pos((-p.exp_spec()) as nat);
        }
    }
    let mult = p.multiplier();
    let f1 = base.conv.factor.mul(&mult);
    let factor = f1.mul(extra);
    proof {
        let raw = base.conv.factor@.mul(p.mult_spec());
        assert(raw.d > 0) by (nonlinear_arith)
            requires
                raw.d == base.conv.factor@.d * p.mult_spec().d,
                base.conv.factor@.d > 0,
                p.mult_spec().d > 0,
        ;
        lemma_canon(raw);
        lemma_eqv_mul(raw.canon(), raw, extra@);
        let raw2 = raw.canon().mul(extra@);
        assert(raw2.d > 0) by (nonlinear_arith)
            requires
                raw2.d == raw.canon().d * extra@.d,
                raw.canon().d > 0,
                extra@.d > 0,
        ;
        lemma_canon(raw2);
        lemma_eqv_trans(factor@, raw2, raw.mul(extra@));
        // The derived factor is nonzero because its parts are.
        assert(raw.mul(extra@).n != 0 && raw.mul(extra@).d > 0) by (nonlinear_arith)
            requires
                raw.mul(extra@).n == (base.conv.factor@.n * p.mult_spec().n) * extra@.n,
                raw.mul(extra@).d == (base.conv.factor@.d * p.mult_spec().d) * extra@.d,
                raw.n == base.conv.factor@.n * p.mult_spec().n,
                raw.d == base.conv.factor@.d * p.mult_spec().d,
                base.conv.factor@.n != 0,
                p.mult_spec().n >= 1,
                extra@.n != 0,
                base.conv.factor@.d > 0,
                p.mult_spec().d > 0,
                extra@.d > 0,
        ;
        assert(factor@.n != 0) by (nonlinear_arith)
            requires
                factor@.n * raw.mul(extra@).d == raw.mul(extra@).n * factor@.d,
                raw.mul(extra@).n != 0,
                raw.mul(extra@).d > 0,
                factor@.d > 0,
        ;
    }
    let mut print_name = p.symbol().to_owned();
    print_name.append(base.unit.print_name.as_str());
    let mut long_name = p.symbol().to_owned();
    long_name.append(base.unit.long_name.as_str());
    UnitDef {
        unit: Unit { long_name, print_name },
        conv: QuantityConversion {
            factor,
            offset: base.conv.offset,
            dim: base.conv.dim,
            kind: base.conv.kind,
        },
    }
}

/// Derives the plain prefixed variant of a unit: factor times the prefix
/// multiplier, offset unchanged.
pub fn prefixed(base: &UnitDef, p: Prefix) -> (u: UnitDef)
    requires
        base.wf(),
        base.conv.factor@.mul_fits(p.mult_spec()),
        base.conv.factor@.mul(p.mult_spec()).canon().mul_fits(RatV::from_int(1)),
    ensures
        u.wf(),
        u.conv.factor@.eqv(base.conv.factor@.mul(p.mult_spec())),
        u.conv.offset == base.conv.offset,
        u.conv.dim == base.conv.dim,
        u.conv.kind == base.conv.kind,
        u.unit.print_name@ == p.symbol_spec() + base.unit.print_name@,
    {
    proof {
        if p.exp_spec() >= 0 {
            crate::rational::lemma_pow10_pos(p.exp_spec() as nat);
        } else {
            crate::rational::lemma_pow10_pos((-p.exp_spec()) as nat);
        }
    }
    let one = Rational::one();
    let u = prefixed_with_factor(base, p, &one);
    proof {
        let raw = base.conv.factor@.mul(p.mult_spec());
        lemma_mul_unit(raw, RatV::from_int(1));
        assert(raw.d > 0) by (nonlinear_arith)
            requires
                raw.d == base.conv.factor@.d * p.mult_spec().d,
                base.conv.factor@.d > 0,
                p.mult_spec().d > 0,
        ;
        assert(raw.mul(RatV::from_int(1)).d > 0) by (nonlinear_arith)
            requires
                raw.mul(RatV::from_int(1)).d == raw.d * 1,
                raw.d > 0,
        ;
        lemma_eqv_trans(u.conv.factor@, raw.mul(RatV::from_int(1)), raw);
    }
    u
}

/// Law: the affine conversion round-trips exactly.  For every well-formed
/// unit conversion and every magnitude, converting into the base
/// representation and back yields the original value.
pub proof fn lemma_conversion_round_trip(u: QuantityConversion, x: RatV)
    requires
        u.wf(),
        x.d > 0,
    ensures
        u.from_base_v(u.to_base_v(x)).eqv(x),
{
    let o = u.offset@;
    let f = u.factor@;
    let s1 = x.add(o);
    assert(s1.d > 0) by (nonlinear_arith)
        requires
            s1.d == x.d * o.d,
            x.d > 0,
            o.d > 0,
    ;
    lemma_canon(s1);
    let s1c = s1.canon();
    let s2 = s1c.mul(f);
    assert(s2.d > 0) by (nonlinear_arith)
        requires
            s2.d == s1c.d * f.d,
            s1c.d > 0,
            f.d > 0,
    ;
    lemma_canon(s2);
    let y = s2.canon();
    // y eqv (x + o) * f
    lemma_eqv_mul(s1c, s1, f);
    lemma_eqv_trans(y, s2, s1.mul(f));
    // t1 = y / f  eqv  x + o
    let t1 = y.div(f);
    let fi = f.inv();
    assert(fi.d > 0 && fi.n != 0) by (nonlinear_arith)
        requires
            f.n != 0,
            f.d > 0,
            fi.d == if f.n >= 0 {
                f.n
            } else {
                -f.n
            },
            fi.n == if f.n >= 0 {
                f.d
            } else {
                -f.d
            },
    ;
    assert(t1.d > 0) by (nonlinear_arith)
        requires
            t1.d == y.d * fi.d,
            y.d > 0,
            fi.d > 0,
    ;
    // y * inv(f) eqv ((x+o) * f) * inv(f) eqv (x+o) * (f * inv f) eqv x+o
    lemma_eqv_mul(y, s1.mul(f), fi);
    lemma_mul_assoc(s1, f, fi);
    lemma_mul_inv(f);
    lemma_mul_unit(s1, f.mul(fi));
    assert(s1.mul(f).mul(fi).d > 0) by (nonlinear_arith)
        requires
            s1.mul(f).mul(fi).d == (s1.d * f.d) * fi.d,
            s1.d > 0,
            f.d > 0,
            fi.d > 0,
    ;
    lemma_eqv_trans(t1, s1.mul(f).mul(fi), s1);
    // from there, reduce and subtract the offset
    lemma_canon(t1);
    let t1c = t1.canon();
    lemma_eqv_trans(t1c, t1, s1);
    lemma_eqv_sub(t1c, s1, o);
    let t2 = t1c.sub(o);
    assert(t2.d > 0) by (nonlinear_arith)
        requires
            t2.d == t1c.d * o.d,
            t1c.d > 0,
            o.d > 0,
    ;
    lemma_canon(t2);
    lemma_add_sub_cancel(x, o);
    assert(s1.sub(o).d > 0) by (nonlinear_arith)
        requires
            s1.sub(o).d == s1.d * o.d,
            s1.d > 0,
            o.d > 0,
    ;
    lemma_eqv_trans(t2, s1.sub(o), x);
    lemma_eqv_trans(t2.canon(), t2, x);
}


/// Law: multiplying a magnitude by a nonzero factor and dividing by it again
/// returns the original value exactly; this is the round trip of the
/// imaginary component of a complex quantity, which the affine offset never
/// touches.
pub proof fn lemma_scale_round_trip(f: RatV, x: RatV)
    requires
        f.d > 0,
        f.n != 0,
        x.d > 0,
    ensures
        x.mul(f).canon().div(f).canon().eqv(x),
{
    let m = x.mul(f);
    assert(m.d > 0) by (nonlinear_arith)
        requires
            m.d == x.d * f.d,
            x.d > 0,
            f.d > 0,
    ;
    lemma_canon(m);
    let mc = m.canon();
    let fi = f.inv();
    assert(fi.d > 0) by (nonlinear_arith)
        requires
            f.n != 0,
            fi.d == if f.n >= 0 {
                f.n
            } else {
                -f.n
            },
    ;
    let t = mc.mul(fi);
    assert(t.d > 0) by (nonlinear_arith)
        requires
            t.d == mc.d * fi.d,
            mc.d > 0,
            fi.d > 0,
    ;
    lemma_eqv_mul(mc, m, fi);
    lemma_mul_assoc(x, f, fi);
    lemma_mul_inv(f);
    lemma_mul_unit(x, f.mul(fi));
    assert(m.mul(fi).d > 0) by (nonlinear_arith)
        requires
            m.mul(fi).d == m.d * fi.d,
            m.d > 0,
            fi.d > 0,
    ;
    lemma_eqv_trans(t, m.mul(fi), x);
    lemma_canon(t);
    lemma_eqv_trans(t.canon(), t, x);
}

/// Law: for an offset-free unit, a prefixed measurement agrees with the base
/// measurement of the scaled magnitude — `200 m` and `0.2 km` convert to the
/// same base value.
pub proof fn lemma_prefix_consistency(base: QuantityConversion, scaled: QuantityConversion, m: RatV, x: RatV)
    requires
        base.wf(),
        scaled.wf(),
        base.offset@.n == 0,
        scaled.offset == base.offset,
        m.d > 0,
        scaled.factor@.eqv(base.factor@.mul(m)),
        x.d > 0,
    ensures
        scaled.to_base_v(x).eqv(base.to_base_v(x.mul(m))),
{
    let o = base.offset@;
    // Left side: ((x + o) * (f * m)), since adding a zero offset keeps the value.
    let l1 = x.add(o);
    assert(l1.d > 0) by (nonlinear_arith)
        requires
            l1.d == x.d * o.d,
            x.d > 0,
            o.d > 0,
    ;
    lemma_canon(l1);
    let l2 = l1.canon().mul(scaled.factor@);
    assert(l2.d > 0) by (nonlinear_arith)
        requires
            l2.d == l1.canon().d * scaled.factor@.d,
            l1.canon().d > 0,
            scaled.factor@.d > 0,
    ;
    lemma_canon(l2);
    lemma_eqv_mul(l1.canon(), l1, scaled.factor@);
    lemma_eqv_trans(l2.canon(), l2, l1.mul(scaled.factor@));
    // l1 eqv x because o == 0
    assert(l1.eqv(x)) by (nonlinear_arith)
        requires
            o.n == 0,
            l1.n == x.n * o.d + o.n * x.d,
            l1.d == x.d * o.d,
            o.d > 0,
            x.d > 0,
    ;
    lemma_eqv_mul(l1, x, scaled.factor@);
    assert(l1.mul(scaled.factor@).d > 0) by (nonlinear_arith)
        requires
            l1.mul(scaled.factor@).d == l1.d * scaled.factor@.d,
            l1.d > 0,
            scaled.factor@.d > 0,
    ;
    lemma_eqv_trans(l2.canon(), l1.mul(scaled.factor@), x.mul(scaled.factor@));
    // x * (f * m) collects as (x * m) * f.
    lemma_eqv_mul(scaled.factor@, base.factor@.mul(m), x);
    lemma_mul_comm(x, scaled.factor@);
    assert(x.mul(scaled.factor@).d > 0 && scaled.factor@.mul(x).d > 0 && x.mul(m).d > 0) by (nonlinear_arith)
        requires
            x.mul(scaled.factor@).d == x.d * scaled.factor@.d,
            scaled.factor@.mul(x).d == scaled.factor@.d * x.d,
            x.mul(m).d == x.d * m.d,
            x.d > 0,
            m.d > 0,
            scaled.factor@.d > 0,
    ;
    lemma_eqv_trans(l2.canon(), x.mul(scaled.factor@), scaled.factor@.mul(x));
    lemma_eqv_trans(l2.canon(), scaled.factor@.mul(x), base.factor@.mul(m).mul(x));
    // Right side: ((x * m) + o) * f eqv (x * m) * f eqv (f * m) * x.
    let xm = x.mul(m);
    let r1 = xm.add(o);
    assert(r1.d > 0) by (nonlinear_arith)
        requires
            r1.d == xm.d * o.d,
            xm.d > 0,
            o.d > 0,
    ;
    lemma_canon(r1);
    let r2 = r1.canon().mul(base.factor@);
    assert(r2.d > 0) by (nonlinear_arith)
        requires
            r2.d == r1.canon().d * base.factor@.d,
            r1.canon().d > 0,
            base.factor@.d > 0,
    ;
    lemma_canon(r2);
    lemma_eqv_mul(r1.canon(), r1, base.factor@);
    lemma_eqv_trans(r2.canon(), r2, r1.mul(base.factor@));
    assert(r1.eqv(xm)) by (nonlinear_arith)
        requires
            o.n == 0,
            r1.n == xm.n * o.d + o.n * xm.d,
            r1.d == xm.d * o.d,
            o.d > 0,
            xm.d > 0,
    ;
    lemma_eqv_mul(r1, xm, base.factor@);
    assert(r1.mul(base.factor@).d > 0) by (nonlinear_arith)
        requires
            r1.mul(base.factor@).d == r1.d * base.factor@.d,
            r1.d > 0,
            base.factor@.d > 0,
    ;
    lemma_eqv_trans(r2.canon(), r1.mul(base.factor@), xm.mul(base.factor@));
    // Finally, (f * m) * x == f * (m * x) eqv f * (x * m) eqv ... matches the right side.
    lemma_mul_assoc(base.factor@, m, x);
    lemma_mul_comm(m, x);
    lemma_eqv_mul(m.mul(x), x.mul(m), base.factor@);
    lemma_mul_comm(base.factor@.mul(m), x);
    lemma_mul_comm(base.factor@, m.mul(x));
    assert(base.factor@.mul(m).mul(x).d > 0 && m.mul(x).mul(base.factor@).d > 0 && xm.mul(
        base.factor@,
    ).d > 0 && base.factor@.mul(m.mul(x)).d > 0) by (nonlinear_arith)
        requires
            base.factor@.mul(m).mul(x).d == (base.factor@.d * m.d) * x.d,
            m.mul(x).mul(base.factor@).d == (m.d * x.d) * base.factor@.d,
            base.factor@.mul(m.mul(x)).d == base.factor@.d * (m.d * x.d),
            xm.mul(base.factor@).d == (x.d * m.d) * base.factor@.d,
            x.d > 0,
            m.d > 0,
            base.factor@.d > 0,
    ;
    lemma_eqv_trans(l2.canon(), base.factor@.mul(m).mul(x), base.factor@.mul(m.mul(x)));
    lemma_eqv_trans(l2.canon(), base.factor@.mul(m.mul(x)), m.mul(x).mul(base.factor@));
    lemma_eqv_trans(l2.canon(), m.mul(x).mul(base.factor@), xm.mul(base.factor@));
    lemma_eqv_sym(r2.canon(), xm.mul(base.factor@));
    lemma_eqv_trans(l2.canon(), xm.mul(base.factor@), r2.canon());
}

} // verus!
