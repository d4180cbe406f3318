//! The SI registry: quantity descriptors, unit definitions and the kind
//! rules of the standard set.
//!
//! Each function returns a fresh descriptor with a contract pinning its
//! dimension, kind and conversion, playing the role that generated type
//! aliases play in a macro-based formulation.  The base unit of every
//! quantity type has factor one and offset zero; alternate units carry their
//! exact factors, with the two affine cases (Celsius and Fahrenheit against
//! the Kelvin base) carrying offsets.  The mass family reproduces the SI
//! irregularity exactly: the kilogram is the base unit, so the gram family is
//! derived from it with an extra factor of one thousandth.

use vstd::prelude::*;

use crate::dimension::{DimV, SiDim};
use crate::kind::{Kind, KindRules};
use crate::quantity::QuantityTypeInfo;
use crate::rational::{pow10, RatV, Rational};
use crate::unit::{prefixed, prefixed_with_factor, Prefix, UnitDef};

verus! {

/// The label of the absolute-temperature kind.
pub const THERMODYNAMIC_TEMPERATURE_KIND: u64 = 1;

/// The dimension of length.
pub open spec fn length_dim() -> DimV {
    DimV { length: 1, mass: 0, time: 0, current: 0, temperature: 0, amount: 0, intensity: 0 }
}

/// The dimension of mass.
pub open spec fn mass_dim() -> DimV {
    DimV { length: 0, mass: 1, time: 0, current: 0, temperature: 0, amount: 0, intensity: 0 }
}

/// The dimension of time.
pub open spec fn time_dim() -> DimV {
    DimV { length: 0, mass: 0, time: 1, current: 0, temperature: 0, amount: 0, intensity: 0 }
}

/// The dimension of electric current.
pub open spec fn current_dim() -> DimV {
    DimV { length: 0, mass: 0, time: 0, current: 1, temperature: 0, amount: 0, intensity: 0 }
}

/// The dimension of thermodynamic temperature.
pub open spec fn temperature_dim() -> DimV {
    DimV { length: 0, mass: 0, time: 0, current: 0, temperature: 1, amount: 0, intensity: 0 }
}

/// The dimension of amount of substance.
pub open spec fn amount_dim() -> DimV {
    DimV { length: 0, mass: 0, time: 0, current: 0, temperature: 0, amount: 1, intensity: 0 }
}

/// The dimension of luminous intensity.
pub open spec fn intensity_dim() -> DimV {
    DimV { length: 0, mass: 0, time: 0, current: 0, temperature: 0, amount: 0, intensity: 1 }
}

/// The exact fraction used for the circle constant: the first sixteen
/// digits of pi, over `10^15` — the precision of a double-precision float.
pub open spec fn pi_rat() -> RatV {
    RatV { n: 3141592653589793, d: 1000000000000000 }
}

/// The circle constant as an exact rational approximation; this fixed value
/// is what the degree conversion is built from.
pub fn pi() -> (r: Rational)
    ensures
        r.wf(),
        r@.eqv(pi_rat()),
{
    Rational::new(3141592653589793, 1000000000000000)
}

/// The kind rule registry of the standard set: an absolute temperature plus
/// a temperature difference (in either order) is an absolute temperature,
/// and the difference of two absolute temperatures is a plain difference.
/// Adding two absolute temperatures matches no rule and is rejected.
pub fn kind_rules() -> (t: KindRules)
    ensures
        t.add_rule(
            Kind::Custom(THERMODYNAMIC_TEMPERATURE_KIND),
            Kind::Neutral,
        ) == Some(Kind::Custom(THERMODYNAMIC_TEMPERATURE_KIND)),
        t.add_rule(
            Kind::Neutral,
            Kind::Custom(THERMODYNAMIC_TEMPERATURE_KIND),
        ) == Some(Kind::Custom(THERMODYNAMIC_TEMPERATURE_KIND)),
        t.sub_rule(
            Kind::Custom(THERMODYNAMIC_TEMPERATURE_KIND),
            Kind::Custom(THERMODYNAMIC_TEMPERATURE_KIND),
        ) == Some(Kind::Neutral),
        t.add_rule(
            Kind::Custom(THERMODYNAMIC_TEMPERATURE_KIND),
            Kind::Custom(THERMODYNAMIC_TEMPERATURE_KIND),
        ) is None,
        t.mul@ =~= Seq::<crate::kind::KindMulRule>::empty(),
        t.div@ =~= Seq::<crate::kind::KindDivRule>::empty(),
{
    let thermo = Kind::Custom(THERMODYNAMIC_TEMPERATURE_KIND);
    let mut t = KindRules::new();
    t.allow_add(thermo, Kind::Neutral, thermo);
    t.allow_add(Kind::Neutral, thermo, thermo);
    t.allow_sub(thermo, thermo, Kind::Neutral);
    proof {
        reveal_with_fuel(crate::kind::table_add, 4);
        reveal_with_fuel(crate::kind::table_sub, 4);
        assert(t.add@.drop_first() =~= t.add@.skip(1));
        assert(t.add@.skip(1).drop_first() =~= t.add@.skip(2));
        assert(t.add@.skip(2).len() == 0);
        assert(t.sub@.drop_first().len() == 0);
    }
    t
}

/// The dimensionless quantity with no particular kind.
pub fn unitless() -> (q: QuantityTypeInfo)
    ensures
        q.dim@ == DimV::none(),
        q.kind == Kind::Neutral,
{
    QuantityTypeInfo { dim: SiDim::none(), kind: Kind::Neutral }
}

/// Length, measured in metres.
pub fn length() -> (q: QuantityTypeInfo)
    ensures
        q.dim@ == length_dim(),
        q.kind == Kind::Neutral,
{
    QuantityTypeInfo {
        dim: SiDim { length: 1, mass: 0, time: 0, current: 0, temperature: 0, amount: 0, intensity: 0 },
        kind: Kind::Neutral,
    }
}

/// Mass, measured in kilograms.
pub fn mass() -> (q: QuantityTypeInfo)
    ensures
        q.dim@ == mass_dim(),
        q.kind == Kind::Neutral,
{
    QuantityTypeInfo {
        dim: SiDim { length: 0, mass: 1, time: 0, current: 0, temperature: 0, amount: 0, intensity: 0 },
        kind: Kind::Neutral,
    }
}

/// Time, measured in seconds.
pub fn time() -> (q: QuantityTypeInfo)
    ensures
        q.dim@ == time_dim(),
        q.kind == Kind::Neutral,
{
    QuantityTypeInfo {
        dim: SiDim { length: 0, mass: 0, time: 1, current: 0, temperature: 0, amount: 0, intensity: 0 },
        kind: Kind::Neutral,
    }
}

/// Electric current, measured in amperes.
pub fn electric_current() -> (q: QuantityTypeInfo)
    ensures
        q.dim@ == current_dim(),
        q.kind == Kind::Neutral,
{
    QuantityTypeInfo {
        dim: SiDim { length: 0, mass: 0, time: 0, current: 1, temperature: 0, amount: 0, intensity: 0 },
        kind: Kind::Neutral,
    }
}

/// Amount of substance, measured in moles.
pub fn amount() -> (q: QuantityTypeInfo)
    ensures
        q.dim@ == amount_dim(),
        q.kind == Kind::Neutral,
{
    QuantityTypeInfo {
        dim: SiDim { length: 0, mass: 0, time: 0, current: 0, temperature: 0, amount: 1, intensity: 0 },
        kind: Kind::Neutral,
    }
}

/// Luminous intensity, measured in candela.
pub fn luminous_intensity() -> (q: QuantityTypeInfo)
    ensures
        q.dim@ == intensity_dim(),
        q.kind == Kind::Neutral,
{
    QuantityTypeInfo {
        dim: SiDim { length: 0, mass: 0, time: 0, current: 0, temperature: 0, amount: 0, intensity: 1 },
        kind: Kind::Neutral,
    }
}

/// Absolute (thermodynamic) temperature: kelvin-based, with its own kind so
/// that two absolute temperatures cannot be added.
pub fn thermodynamic_temperature() -> (q: QuantityTypeInfo)
    ensures
        q.dim@ == temperature_dim(),
        q.kind == Kind::Custom(THERMODYNAMIC_TEMPERATURE_KIND),
{
    QuantityTypeInfo {
        dim: SiDim { length: 0, mass: 0, time: 0, current: 0, temperature: 1, amount: 0, intensity: 0 },
        kind: Kind::Custom(THERMODYNAMIC_TEMPERATURE_KIND),
    }
}

/// A temperature difference: same dimension as the absolute temperature,
/// neutral kind.
pub fn temperature_interval() -> (q: QuantityTypeInfo)
    ensures
        q.dim@ == temperature_dim(),
        q.kind == Kind::Neutral,
{
    QuantityTypeInfo {
        dim: SiDim { length: 0, mass: 0, time: 0, current: 0, temperature: 1, amount: 0, intensity: 0 },
        kind: Kind::Neutral,
    }
}

/// Plane angle: dimensionless, with the built-in angle kind.
pub fn angle() -> (q: QuantityTypeInfo)
    ensures
        q.dim@ == DimV::none(),
        q.kind == Kind::Angle,
{
    QuantityTypeInfo { dim: SiDim::none(), kind: Kind::Angle }
}

/// Builds the base unit (factor one, offset zero) of a quantity type.
fn base_unit(long_name: &str, print_name: &str, q: &QuantityTypeInfo) -> (u: UnitDef)
    ensures
        u.wf(),
        u.unit.long_name@ == long_name@,
        u.unit.print_name@ == print_name@,
        u.conv.factor@ == RatV::from_int(1),
        u.conv.offset@ == RatV::from_int(0),
        u.conv.dim == q.dim,
        u.conv.kind == q.kind,
{
    UnitDef::new(long_name, print_name, Rational::one(), Rational::zero(), q.dim, q.kind)
}

/// The metre, base unit of length.
pub fn metre() -> (u: UnitDef)
    ensures
        u.wf(),
        u.conv.factor@ == RatV::from_int(1),
        u.conv.offset@ == RatV::from_int(0),
        u.conv.dim@ == length_dim(),
        u.conv.kind == Kind::Neutral,
        u.unit.print_name@ == "m"@,
{
    let q = length();
    base_unit("Metre", "m", &q)
}

/// Every decimal prefix applies cleanly to a factor-one unit.
proof fn lemma_prefix_on_unit_factor(p: Prefix)
    ensures
        (RatV::from_int(1)).mul_fits(p.mult_spec()),
        (RatV::from_int(1)).mul(p.mult_spec()).canon().mul_fits(RatV::from_int(1)),
        (RatV::from_int(1)).mul(p.mult_spec()).canon().mul_fits(RatV { n: 1, d: 1000 }),
{
    let m = p.mult_spec();
    crate::rational::lemma_pow10_38_fits();
    if p.exp_spec() >= 0 {
        crate::rational::lemma_pow10_pos(p.exp_spec() as nat);
        crate::rational::lemma_pow10_mono(p.exp_spec() as nat, 30);
    } else {
        crate::rational::lemma_pow10_pos((-p.exp_spec()) as nat);
        crate::rational::lemma_pow10_mono((-p.exp_spec()) as nat, 30);
    }
    let raw = (RatV::from_int(1)).mul(m);
    assert(raw.n == m.n && raw.d == m.d) by (nonlinear_arith)
        requires
            raw.n == 1 * m.n,
            raw.d == 1 * m.d,
    ;
    crate::rational::lemma_canon(raw);
    let c = raw.canon();
    assert(fits_i128_wide(c.n, c.d)) by (nonlinear_arith)
        requires
            0 <= c.n <= raw.n,
            1 <= c.d <= raw.d,
            raw.n <= pow10(30),
            raw.d <= pow10(30),
            pow10(30) == 0xc9f2c9cd04674edea40000000,
            fits_i128_wide(c.n, c.d) == (c.n * 1000 <= i128::MAX && c.d * 1000 <= i128::MAX),
    ;
}

/// Both scaled components stay far inside the machine range.
spec fn fits_i128_wide(n: int, d: int) -> bool {
    n * 1000 <= i128::MAX && d * 1000 <= i128::MAX
}

/// The kilometre, the prefixed variant of the metre used by the standard
/// catalogue.
pub fn kilo_metre() -> (u: UnitDef)
    ensures
        u.wf(),
        u.conv.factor@.eqv(RatV { n: 1000, d: 1 }),
        u.conv.offset@ == RatV::from_int(0),
        u.conv.dim@ == length_dim(),
        u.conv.kind == Kind::Neutral,
{
    let m = metre();
    proof {
        lemma_prefix_on_unit_factor(Prefix::Kilo);
        reveal_with_fuel(pow10, 5);
    }
    let u = prefixed(&m, Prefix::Kilo);
    proof {
        let raw = (RatV::from_int(1)).mul(Prefix::Kilo.mult_spec());
        assert(raw.n == 1000 && raw.d == 1) by (nonlinear_arith)
            requires
                raw.n == 1 * Prefix::Kilo.mult_spec().n,
                raw.d == 1 * Prefix::Kilo.mult_spec().d,
                Prefix::Kilo.mult_spec().n == 1000,
                Prefix::Kilo.mult_spec().d == 1,
        ;
    }
    u
}

/// The kilogram, base unit of mass.  The SI base unit of mass is the
/// kilogram, not the gram; the gram family hangs below it.
pub fn kilogram() -> (u: UnitDef)
    ensures
        u.wf(),
        u.conv.factor@ == RatV::from_int(1),
        u.conv.offset@ == RatV::from_int(0),
        u.conv.dim@ == mass_dim(),
        u.conv.kind == Kind::Neutral,
        u.unit.print_name@ == "kg"@,
{
    let q = mass();
    base_unit("Kilogram", "kg", &q)
}

/// A prefixed member of the gram family: derived from the kilogram with the
/// extra factor of one thousandth, because the unprefixed gram is itself a
/// scaled variant of the type's true base unit.
pub fn gram_prefixed(p: Prefix) -> (u: UnitDef)
    ensures
        u.wf(),
        u.conv.factor@.eqv(p.mult_spec().mul(RatV { n: 1, d: 1000 })),
        u.conv.offset@ == RatV::from_int(0),
        u.conv.dim@ == mass_dim(),
        u.conv.kind == Kind::Neutral,
{
    let kg = kilogram();
    proof {
        lemma_prefix_on_unit_factor(p);
    }
    let milli = Rational::new(1, 1000);
    proof {
        crate::rational::lemma_canon_one_den(1000);
    }
    let u = prefixed_with_factor(&kg, p, &milli);
    proof {
        let m = p.mult_spec();
        let e = RatV { n: 1, d: 1000 };
        if p.exp_spec() >= 0 {
            crate::rational::lemma_pow10_pos(p.exp_spec() as nat);
        } else {
            crate::rational::lemma_pow10_pos((-p.exp_spec()) as nat);
        }
        let raw = (RatV::from_int(1)).mul(m);
        assert(raw.mul(e) == m.mul(e)) by (nonlinear_arith)
            requires
                raw.n == 1 * m.n,
                raw.d == 1 * m.d,
                raw.mul(e).n == raw.n * e.n,
                raw.mul(e).d == raw.d * e.d,
                m.mul(e).n == m.n * e.n,
                m.mul(e).d == m.d * e.d,
        ;
        assert(milli@ == e);
        assert(raw.mul(milli@).d > 0) by (nonlinear_arith)
            requires
                raw.mul(milli@).d == raw.d * milli@.d,
                raw.d == 1 * m.d,
                m.d > 0,
                milli@.d > 0,
        ;
        crate::rational::lemma_eqv_trans(u.conv.factor@, raw.mul(milli@), m.mul(e));
    }
    u
}

/// The gram: one thousandth of the base kilogram.
pub fn gram() -> (u: UnitDef)
    ensures
        u.wf(),
        u.conv.factor@.eqv(RatV { n: 1, d: 1000 }),
        u.conv.offset@ == RatV::from_int(0),
        u.conv.dim@ == mass_dim(),
        u.conv.kind == Kind::Neutral,
{
    let q = mass();
    let f = Rational::new(1, 1000);
    UnitDef::new("Gram", "g", f, Rational::zero(), q.dim, q.kind)
}

/// The second, base unit of time.
pub fn second() -> (u: UnitDef)
    ensures
        u.wf(),
        u.conv.factor@ == RatV::from_int(1),
        u.conv.offset@ == RatV::from_int(0),
        u.conv.dim@ == time_dim(),
        u.conv.kind == Kind::Neutral,
        u.unit.print_name@ == "s"@,
{
    let q = time();
    base_unit("Second", "s", &q)
}

/// The minute, an alternate unit of time.
pub fn minute() -> (u: UnitDef)
    ensures
        u.wf(),
        u.conv.factor@ == RatV::from_int(60),
        u.conv.offset@ == RatV::from_int(0),
        u.conv.dim@ == time_dim(),
        u.conv.kind == Kind::Neutral,
{
    let q = time();
    let f = Rational::from_int(60);
    UnitDef::new("Minute", "min", f, Rational::zero(), q.dim, q.kind)
}

/// The hour, an alternate unit of time.
pub fn hour() -> (u: UnitDef)
    ensures
        u.wf(),
        u.conv.factor@ == RatV::from_int(3600),
        u.conv.offset@ == RatV::from_int(0),
        u.conv.dim@ == time_dim(),
        u.conv.kind == Kind::Neutral,
{
    let q = time();
    let f = Rational::from_int(3600);
    UnitDef::new("Hour", "hr", f, Rational::zero(), q.dim, q.kind)
}

/// The ampere, base unit of electric current.
pub fn ampere() -> (u: UnitDef)
    ensures
        u.wf(),
        u.conv.factor@ == RatV::from_int(1),
        u.conv.offset@ == RatV::from_int(0),
        u.conv.dim@ == current_dim(),
        u.conv.kind == Kind::Neutral,
{
    let q = electric_current();
    base_unit("Ampere", "A", &q)
}

/// The mole, base unit of amount of substance.
pub fn mole() -> (u: UnitDef)
    ensures
        u.wf(),
        u.conv.factor@ == RatV::from_int(1),
        u.conv.offset@ == RatV::from_int(0),
        u.conv.dim@ == amount_dim(),
        u.conv.kind == Kind::Neutral,
{
    let q = amount();
    base_unit("Mole", "mol", &q)
}

/// The candela, base unit of luminous intensity.
pub fn candela() -> (u: UnitDef)
    ensures
        u.wf(),
        u.conv.factor@ == RatV::from_int(1),
        u.conv.offset@ == RatV::from_int(0),
        u.conv.dim@ == intensity_dim(),
        u.conv.kind == Kind::Neutral,
{
    let q = luminous_intensity();
    base_unit("Candela", "cd", &q)
}

/// The kelvin as the base unit of absolute temperature.
pub fn kelvin() -> (u: UnitDef)
    ensures
        u.wf(),
        u.conv.factor@ == RatV::from_int(1),
        u.conv.offset@ == RatV::from_int(0),
        u.conv.dim@ == temperature_dim(),
        u.conv.kind == Kind::Custom(THERMODYNAMIC_TEMPERATURE_KIND),
        u.unit.print_name@ == "K"@,
{
    let q = thermodynamic_temperature();
    base_unit("Kelvin", "K", &q)
}

/// The kelvin as the base unit of temperature differences.
pub fn kelvin_interval() -> (u: UnitDef)
    ensures
        u.wf(),
        u.conv.factor@ == RatV::from_int(1),
        u.conv.offset@ == RatV::from_int(0),
        u.conv.dim@ == temperature_dim(),
        u.conv.kind == Kind::Neutral,
        u.unit.print_name@ == "K"@,
{
    let q = temperature_interval();
    base_unit("Kelvin", "K", &q)
}

/// Degrees Celsius: factor one, offset 273.15 against the kelvin base.
pub fn celsius() -> (u: UnitDef)
    ensures
        u.wf(),
        u.conv.factor@ == RatV::from_int(1),
        u.conv.offset@.eqv(RatV { n: 27315, d: 100 }),
        u.conv.dim@ == temperature_dim(),
        u.conv.kind == Kind::Custom(THERMODYNAMIC_TEMPERATURE_KIND),
{
    let q = thermodynamic_temperature();
    let offset = Rational::new(27315, 100);
    UnitDef::new("Celsius", "°C", Rational::one(), offset, q.dim, q.kind)
}

/// Degrees Fahrenheit: factor five ninths, offset 459.67 (in Fahrenheit
/// degrees) against the kelvin base.
pub fn fahrenheit() -> (u: UnitDef)
    ensures
        u.wf(),
        u.conv.factor@.eqv(RatV { n: 5, d: 9 }),
        u.conv.offset@.eqv(RatV { n: 45967, d: 100 }),
        u.conv.dim@ == temperature_dim(),
        u.conv.kind == Kind::Custom(THERMODYNAMIC_TEMPERATURE_KIND),
{
    let q = thermodynamic_temperature();
    let f = Rational::new(5, 9);
    let offset = Rational::new(45967, 100);
    UnitDef::new("Fahrenheit", "°F", f, offset, q.dim, q.kind)
}

/// The radian, base unit of plane angle.
pub fn radian() -> (u: UnitDef)
    ensures
        u.wf(),
        u.conv.factor@ == RatV::from_int(1),
        u.conv.offset@ == RatV::from_int(0),
        u.conv.dim@ == DimV::none(),
        u.conv.kind == Kind::Angle,
        u.unit.print_name@ == "rad"@,
{
    let q = angle();
    base_unit("Radian", "rad", &q)
}

/// The degree: pi over one hundred and eighty radians, built from the fixed
/// rational circle constant.
pub fn degree() -> (u: UnitDef)
    ensures
        u.wf(),
        u.conv.factor@.eqv(RatV { n: pi_rat().n, d: 180 * pi_rat().d }),
        u.conv.offset@ == RatV::from_int(0),
        u.conv.dim@ == DimV::none(),
        u.conv.kind == Kind::Angle,
{
    let q = angle();
    let f = Rational::new(3141592653589793, 180000000000000000);
    UnitDef::new("Degree", "°", f, Rational::zero(), q.dim, q.kind)
}

/// The dimensionless ratio unit.
pub fn ratio() -> (u: UnitDef)
    ensures
        u.wf(),
        u.conv.factor@ == RatV::from_int(1),
        u.conv.offset@ == RatV::from_int(0),
        u.conv.dim@ == DimV::none(),
        u.conv.kind == Kind::Neutral,
{
    let q = unitless();
    base_unit("Ratio", "", &q)
}


/// The dimension of energy.
pub open spec fn energy_dim() -> DimV {
    DimV { length: 2, mass: 1, time: -2, current: 0, temperature: 0, amount: 0, intensity: 0 }
}

/// The dimension of power.
pub open spec fn power_dim() -> DimV {
    DimV { length: 2, mass: 1, time: -3, current: 0, temperature: 0, amount: 0, intensity: 0 }
}

/// The dimension of electric resistance.
pub open spec fn resistance_dim() -> DimV {
    DimV { length: 2, mass: 1, time: -3, current: -2, temperature: 0, amount: 0, intensity: 0 }
}

/// The dimension of capacitance.
pub open spec fn capacitance_dim() -> DimV {
    DimV { length: -2, mass: -1, time: 4, current: 2, temperature: 0, amount: 0, intensity: 0 }
}

/// Frequency: inverse time.
pub fn frequency() -> (q: QuantityTypeInfo)
    ensures
        q.dim@ == time_dim().invert(),
        q.kind == Kind::Neutral,
{
    QuantityTypeInfo {
        dim: SiDim { length: 0, mass: 0, time: -1, current: 0, temperature: 0, amount: 0, intensity: 0 },
        kind: Kind::Neutral,
    }
}

/// The hertz, base unit of frequency.
pub fn hertz() -> (u: UnitDef)
    ensures
        u.wf(),
        u.conv.factor@ == RatV::from_int(1),
        u.conv.offset@ == RatV::from_int(0),
        u.conv.dim@ == time_dim().invert(),
        u.conv.kind == Kind::Neutral,
{
    let q = frequency();
    base_unit("Hertz", "Hz", &q)
}

/// Area: length squared.
pub fn area() -> (q: QuantityTypeInfo)
    ensures
        q.dim@ == length_dim().compose(length_dim()),
        q.kind == Kind::Neutral,
{
    QuantityTypeInfo {
        dim: SiDim { length: 2, mass: 0, time: 0, current: 0, temperature: 0, amount: 0, intensity: 0 },
        kind: Kind::Neutral,
    }
}

/// The square metre, base unit of area.
pub fn square_metre() -> (u: UnitDef)
    ensures
        u.wf(),
        u.conv.factor@ == RatV::from_int(1),
        u.conv.offset@ == RatV::from_int(0),
        u.conv.dim@ == length_dim().compose(length_dim()),
        u.conv.kind == Kind::Neutral,
{
    let q = area();
    base_unit("SquareMetre", "m²", &q)
}

/// Volume: length cubed.
pub fn volume() -> (q: QuantityTypeInfo)
    ensures
        q.dim@ == length_dim().compose(length_dim()).compose(length_dim()),
        q.kind == Kind::Neutral,
{
    QuantityTypeInfo {
        dim: SiDim { length: 3, mass: 0, time: 0, current: 0, temperature: 0, amount: 0, intensity: 0 },
        kind: Kind::Neutral,
    }
}

/// The cubic metre, base unit of volume.
pub fn cubic_metre() -> (u: UnitDef)
    ensures
        u.wf(),
        u.conv.factor@ == RatV::from_int(1),
        u.conv.offset@ == RatV::from_int(0),
        u.conv.dim@ == length_dim().compose(length_dim()).compose(length_dim()),
        u.conv.kind == Kind::Neutral,
{
    let q = volume();
    base_unit("CubicMetre", "m³", &q)
}

/// Velocity: length over time.
pub fn velocity() -> (q: QuantityTypeInfo)
    ensures
        q.dim@ == length_dim().decompose(time_dim()),
        q.kind == Kind::Neutral,
{
    QuantityTypeInfo {
        dim: SiDim { length: 1, mass: 0, time: -1, current: 0, temperature: 0, amount: 0, intensity: 0 },
        kind: Kind::Neutral,
    }
}

/// The metre per second, base unit of velocity.
pub fn metre_per_second() -> (u: UnitDef)
    ensures
        u.wf(),
        u.conv.factor@ == RatV::from_int(1),
        u.conv.offset@ == RatV::from_int(0),
        u.conv.dim@ == length_dim().decompose(time_dim()),
        u.conv.kind == Kind::Neutral,
{
    let q = velocity();
    base_unit("MetresPerSecond", "m*s⁻¹", &q)
}

/// Force: mass times acceleration.
pub fn force() -> (q: QuantityTypeInfo)
    ensures
        q.dim@ == mass_dim().compose(length_dim()).decompose(time_dim()).decompose(time_dim()),
        q.kind == Kind::Neutral,
{
    QuantityTypeInfo {
        dim: SiDim { length: 1, mass: 1, time: -2, current: 0, temperature: 0, amount: 0, intensity: 0 },
        kind: Kind::Neutral,
    }
}

/// The newton, base unit of force.
pub fn newton() -> (u: UnitDef)
    ensures
        u.wf(),
        u.conv.factor@ == RatV::from_int(1),
        u.conv.offset@ == RatV::from_int(0),
        u.conv.dim@ == mass_dim().compose(length_dim()).decompose(time_dim()).decompose(time_dim()),
        u.conv.kind == Kind::Neutral,
{
    let q = force();
    base_unit("Newton", "N", &q)
}

/// Energy: force times length.
pub fn energy() -> (q: QuantityTypeInfo)
    ensures
        q.dim@ == energy_dim(),
        q.dim@ == mass_dim().compose(length_dim()).compose(length_dim()).decompose(
            time_dim(),
        ).decompose(time_dim()),
        q.kind == Kind::Neutral,
{
    QuantityTypeInfo {
        dim: SiDim { length: 2, mass: 1, time: -2, current: 0, temperature: 0, amount: 0, intensity: 0 },
        kind: Kind::Neutral,
    }
}

/// The joule, base unit of energy.
pub fn joule() -> (u: UnitDef)
    ensures
        u.wf(),
        u.conv.factor@ == RatV::from_int(1),
        u.conv.offset@ == RatV::from_int(0),
        u.conv.dim@ == energy_dim(),
        u.conv.kind == Kind::Neutral,
{
    let q = energy();
    base_unit("Joule", "J", &q)
}

/// Power: energy over time.
pub fn power() -> (q: QuantityTypeInfo)
    ensures
        q.dim@ == power_dim(),
        q.dim@ == energy_dim().decompose(time_dim()),
        q.kind == Kind::Neutral,
{
    QuantityTypeInfo {
        dim: SiDim { length: 2, mass: 1, time: -3, current: 0, temperature: 0, amount: 0, intensity: 0 },
        kind: Kind::Neutral,
    }
}

/// The watt, base unit of power.
pub fn watt() -> (u: UnitDef)
    ensures
        u.wf(),
        u.conv.factor@ == RatV::from_int(1),
        u.conv.offset@ == RatV::from_int(0),
        u.conv.dim@ == power_dim(),
        u.conv.kind == Kind::Neutral,
{
    let q = power();
    base_unit("Watt", "W", &q)
}

/// Electric resistance: electric potential over current.
pub fn electric_resistance() -> (q: QuantityTypeInfo)
    ensures
        q.dim@ == resistance_dim(),
        q.dim@ == power_dim().decompose(current_dim()).decompose(current_dim()),
        q.kind == Kind::Neutral,
{
    QuantityTypeInfo {
        dim: SiDim { length: 2, mass: 1, time: -3, current: -2, temperature: 0, amount: 0, intensity: 0 },
        kind: Kind::Neutral,
    }
}

/// The ohm, base unit of electric resistance.
pub fn ohm() -> (u: UnitDef)
    ensures
        u.wf(),
        u.conv.factor@ == RatV::from_int(1),
        u.conv.offset@ == RatV::from_int(0),
        u.conv.dim@ == resistance_dim(),
        u.conv.kind == Kind::Neutral,
{
    let q = electric_resistance();
    base_unit("Ohm", "Ω", &q)
}

/// Capacitance: electric charge over electric potential.
pub fn capacitance() -> (q: QuantityTypeInfo)
    ensures
        q.dim@ == capacitance_dim(),
        q.kind == Kind::Neutral,
{
    QuantityTypeInfo {
        dim: SiDim { length: -2, mass: -1, time: 4, current: 2, temperature: 0, amount: 0, intensity: 0 },
        kind: Kind::Neutral,
    }
}

/// The farad, base unit of capacitance.
pub fn farad() -> (u: UnitDef)
    ensures
        u.wf(),
        u.conv.factor@ == RatV::from_int(1),
        u.conv.offset@ == RatV::from_int(0),
        u.conv.dim@ == capacitance_dim(),
        u.conv.kind == Kind::Neutral,
{
    let q = capacitance();
    base_unit("Farad", "F", &q)
}

/// The dimension of pressure.
pub open spec fn pressure_dim() -> DimV {
    DimV { length: -1, mass: 1, time: -2, current: 0, temperature: 0, amount: 0, intensity: 0 }
}

/// Pressure: force over area.
pub fn pressure() -> (q: QuantityTypeInfo)
    ensures
        q.dim@ == pressure_dim(),
        q.kind == Kind::Neutral,
{
    QuantityTypeInfo {
        dim: SiDim { length: -1, mass: 1, time: -2, current: 0, temperature: 0, amount: 0, intensity: 0 },
        kind: Kind::Neutral,
    }
}

/// The pascal, base unit of pressure.
pub fn pascal() -> (u: UnitDef)
    ensures
        u.wf(),
        u.conv.factor@ == RatV::from_int(1),
        u.conv.offset@ == RatV::from_int(0),
        u.conv.dim@ == pressure_dim(),
        u.conv.kind == Kind::Neutral,
{
    let q = pressure();
    base_unit("Pascal", "Pa", &q)
}

/// The bar, an alternate unit of pressure of one hundred thousand pascal.
pub fn bar() -> (u: UnitDef)
    ensures
        u.wf(),
        u.conv.factor@ == RatV::from_int(100000),
        u.conv.offset@ == RatV::from_int(0),
        u.conv.dim@ == pressure_dim(),
        u.conv.kind == Kind::Neutral,
{
    let q = pressure();
    let f = Rational::from_int(100000);
    UnitDef::new("Bar", "Ba", f, Rational::zero(), q.dim, q.kind)
}

/// The newton per square millimetre, an alternate unit of pressure.
pub fn newton_per_square_milli_metre() -> (u: UnitDef)
    ensures
        u.wf(),
        u.conv.factor@.eqv(RatV { n: 1000000, d: 1 }),
        u.conv.offset@ == RatV::from_int(0),
        u.conv.dim@ == pressure_dim(),
        u.conv.kind == Kind::Neutral,
{
    let q = pressure();
    let f = Rational::from_int(1000000);
    UnitDef::new("NewtonPerSquareMilliMetre", "N*mm⁻²", f, Rational::zero(), q.dim, q.kind)
}

/// The kilometre per hour, an alternate unit of velocity.
pub fn kilometre_per_hour() -> (u: UnitDef)
    ensures
        u.wf(),
        u.conv.factor@.eqv(RatV { n: 1000, d: 3600 }),
        u.conv.offset@ == RatV::from_int(0),
        u.conv.dim@ == length_dim().decompose(time_dim()),
        u.conv.kind == Kind::Neutral,
{
    let q = velocity();
    let f = Rational::new(1000, 3600);
    UnitDef::new("KilometresPerHour", "km*h⁻¹", f, Rational::zero(), q.dim, q.kind)
}

/// The mile per hour, an alternate unit of velocity: 1609.34 metres per
/// 3600 seconds.
pub fn mile_per_hour() -> (u: UnitDef)
    ensures
        u.wf(),
        u.conv.factor@.eqv(RatV { n: 160934, d: 360000 }),
        u.conv.offset@ == RatV::from_int(0),
        u.conv.dim@ == length_dim().decompose(time_dim()),
        u.conv.kind == Kind::Neutral,
{
    let q = velocity();
    let f = Rational::new(160934, 360000);
    UnitDef::new("MilesPerHour", "miles*h⁻¹", f, Rational::zero(), q.dim, q.kind)
}

/// The exact fraction used for the full-turn constant: twice [`pi_rat`].
pub open spec fn tau_rat() -> RatV {
    RatV { n: 6283185307179586, d: 1000000000000000 }
}

/// Angular velocity: angle over time, keeping the angle kind.
pub fn angular_velocity() -> (q: QuantityTypeInfo)
    ensures
        q.dim@ == time_dim().invert(),
        q.kind == Kind::Angle,
{
    QuantityTypeInfo {
        dim: SiDim { length: 0, mass: 0, time: -1, current: 0, temperature: 0, amount: 0, intensity: 0 },
        kind: Kind::Angle,
    }
}

/// The radian per second, base unit of angular velocity.
pub fn radian_per_second() -> (u: UnitDef)
    ensures
        u.wf(),
        u.conv.factor@ == RatV::from_int(1),
        u.conv.offset@ == RatV::from_int(0),
        u.conv.dim@ == time_dim().invert(),
        u.conv.kind == Kind::Angle,
{
    let q = angular_velocity();
    base_unit("RadianPerSecond", "rad*s⁻¹", &q)
}

/// The revolution per second, an alternate unit of angular velocity: one
/// full turn of `tau` radians each second.
pub fn revolutions_per_second() -> (u: UnitDef)
    ensures
        u.wf(),
        u.conv.factor@.eqv(tau_rat()),
        u.conv.offset@ == RatV::from_int(0),
        u.conv.dim@ == time_dim().invert(),
        u.conv.kind == Kind::Angle,
{
    let q = angular_velocity();
    let f = Rational::new(6283185307179586, 1000000000000000);
    UnitDef::new("RevolutionsPerSecond", "rps", f, Rational::zero(), q.dim, q.kind)
}

/// The revolution per minute, an alternate unit of angular velocity.
pub fn revolutions_per_minute() -> (u: UnitDef)
    ensures
        u.wf(),
        u.conv.factor@.eqv(RatV { n: tau_rat().n, d: 60 * tau_rat().d }),
        u.conv.offset@ == RatV::from_int(0),
        u.conv.dim@ == time_dim().invert(),
        u.conv.kind == Kind::Angle,
{
    let q = angular_velocity();
    let f = Rational::new(6283185307179586, 60000000000000000);
    UnitDef::new("RevolutionsPerMinute", "rpm", f, Rational::zero(), q.dim, q.kind)
}

/// Torque: energy per angle.  Dividing the neutral energy kind by the angle
/// kind keeps the result angle-flavoured, which is what separates a torque
/// from an energy of equal dimension.
pub fn torque() -> (q: QuantityTypeInfo)
    ensures
        q.dim@ == energy_dim(),
        q.kind == Kind::Angle,
{
    QuantityTypeInfo {
        dim: SiDim { length: 2, mass: 1, time: -2, current: 0, temperature: 0, amount: 0, intensity: 0 },
        kind: Kind::Angle,
    }
}

/// The newton metre, base unit of torque.
pub fn newton_metre() -> (u: UnitDef)
    ensures
        u.wf(),
        u.conv.factor@ == RatV::from_int(1),
        u.conv.offset@ == RatV::from_int(0),
        u.conv.dim@ == energy_dim(),
        u.conv.kind == Kind::Angle,
{
    let q = torque();
    base_unit("NewtonMetre", "N*m", &q)
}

} // verus!
