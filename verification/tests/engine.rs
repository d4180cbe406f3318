use silib::dimension::SiDim;
use silib::kind::Kind;
use silib::quantity::{Quantity, QuantityTypeInfo};
use silib::rational::Rational;
use silib::si;
use silib::unit::UnitDef;
use silib::util::find_prefix;

#[test]
fn sqrt_cbrt() {
    let rules = si::kind_rules();
    let four = Quantity::new_base(&si::length(), Rational::from_int(4));
    let m2 = four.mul(&four, &rules);
    let m = m2.sqrt();
    let m3 = m2.mul(&four, &rules);
    let m_cbrt = m3.cbrt();

    assert!(m.get(&si::metre()) == Rational::from_int(4));
    assert!(m_cbrt.get(&si::metre()) == Rational::from_int(4));
}

#[test]
fn nth_root_of_power() {
    let rules = si::kind_rules();
    let two = Quantity::new_base(&si::length(), Rational::from_int(2));
    let p = two.mul(&two, &rules).mul(&two, &rules).mul(&two, &rules);
    let back = p.nth_root(4);
    assert!(back.get(&si::metre()) == Rational::from_int(2));
}

#[test]
fn sqrt_of_fraction() {
    // 2.25 m² has the exact square root 1.5 m
    let a = Quantity::new_base(&si::area(), Rational::from_decimal(225, 2));
    let r = a.sqrt();
    assert!(r.get(&si::metre()) == Rational::from_decimal(15, 1));
}

#[test]
fn powi_and_recip() {
    let rules = si::kind_rules();
    let q = Quantity::new_base(&si::length(), Rational::from_int(2));
    let cube = q.powi(3);
    assert!(cube.get(&si::cubic_metre()) == Rational::from_int(8));
    let inv = q.powi(-1);
    assert!(inv.value == Rational::new(1, 2));

    let t = Quantity::new_base(&si::time(), Rational::from_int(4));
    let f = t.recip(&rules);
    assert!(f.get(&si::hertz()) == Rational::from_decimal(25, 2));
}

#[test]
fn test_prefix() {
    fn check_pfx(to_check: (Rational, &'static str), val: Rational, chr: &'static str) {
        assert_eq!(chr, to_check.1);
        assert!(to_check.0 == val);
    }

    check_pfx(
        find_prefix(&Rational::from_sci(1, -30)),
        Rational::from_int(1),
        "q",
    );
    check_pfx(
        find_prefix(&Rational::from_sci(1, -29)),
        Rational::from_int(10),
        "q",
    );
    check_pfx(
        find_prefix(&Rational::from_sci(1, -15)),
        Rational::from_int(1),
        "f",
    );
    check_pfx(
        find_prefix(&Rational::from_int(123)),
        Rational::from_int(123),
        "",
    );
    check_pfx(
        find_prefix(&Rational::from_int(123_000_000)),
        Rational::from_int(123),
        "M",
    );
    check_pfx(
        find_prefix(&Rational::from_decimal(1, 1)),
        Rational::from_int(100),
        "m",
    );
}

#[test]
fn prefix_clamps() {
    // values above the range clamp to quetta, tiny and zero values to quecto
    let (v, s) = find_prefix(&Rational::from_sci(1, 33));
    assert_eq!("Q", s);
    assert!(v == Rational::from_int(1000));
    let (v0, s0) = find_prefix(&Rational::from_int(0));
    assert_eq!("q", s0);
    assert!(v0 == Rational::from_int(0));
}

#[test]
fn custom_unit_and_quantity() {
    // a user-derived quantity (length^2 * time^2 / mass) with its own base
    // print unit and an alternate unit of factor 42
    let weird = QuantityTypeInfo {
        dim: SiDim {
            length: 2,
            mass: -1,
            time: 2,
            current: 0,
            temperature: 0,
            amount: 0,
            intensity: 0,
        },
        kind: Kind::Neutral,
    };
    let base = UnitDef::new(
        "Meter2Second2PerKilo",
        "m²*s²/kg",
        Rational::from_int(1),
        Rational::from_int(0),
        weird.dim,
        weird.kind,
    );
    let fuzzy_waffles = UnitDef::new(
        "FuzzyWaffles",
        "fw",
        Rational::from_int(42),
        Rational::from_int(0),
        weird.dim,
        weird.kind,
    );
    let q = Quantity::new_base(&weird, Rational::from_int(420));
    assert!(q.get(&fuzzy_waffles) == Rational::from_int(10));
    assert_eq!("10 fw", q.formatted(&fuzzy_waffles).to_display().as_str());
    assert_eq!("420 m²*s²/kg", q.formatted(&base).to_display().as_str());
}

#[test]
fn unit_round_trip() {
    // from_unit then get is exact, for plain, prefixed and affine units
    let x = Rational::from_decimal(1346, 3);
    assert!(Quantity::new(&si::metre(), x).get(&si::metre()) == x);
    assert!(Quantity::new(&si::kilo_metre(), x).get(&si::kilo_metre()) == x);
    assert!(Quantity::new(&si::fahrenheit(), x).get(&si::fahrenheit()) == x);
    assert!(Quantity::new(&si::degree(), x).get(&si::degree()) == x);
}

#[test]
fn minute_hour() {
    let t = Quantity::new(&si::hour(), Rational::from_int(2));
    assert!(t.get(&si::second()) == Rational::from_int(7200));
    assert!(t.get(&si::minute()) == Rational::from_int(120));
}

#[test]
fn classification_and_order() {
    let a = Quantity::new_base(&si::length(), Rational::from_int(-3));
    assert!(a.is_finite());
    assert!(!a.is_nan());
    assert!(!a.is_infinite());
    assert!(a.is_normal());
    assert!(a.is_sign_negative());
    let b = a.abs();
    assert!(b.is_sign_positive());
    assert!(b.value == Rational::from_int(3));

    let lo = Quantity::new_base(&si::length(), Rational::from_int(0));
    let hi = Quantity::new_base(&si::length(), Rational::from_int(2));
    let c = a.clamp(&lo, &hi);
    assert!(c.value == Rational::from_int(0));
    assert!(a.min(&hi).value == Rational::from_int(-3));
    assert!(a.max(&hi).value == Rational::from_int(2));
}

#[test]
fn unrestricted_drops_kind() {
    let rules = si::kind_rules();
    let angle = Quantity::new(&si::radian(), Rational::from_int(2));
    let plain = angle.unrestricted();
    // the relaxed value can combine with plain dimensionless quantities
    // under the neutral rules
    let one = Quantity::new_base(&si::unitless(), Rational::from_int(1));
    let sum = plain.add(&one, &rules);
    assert!(sum.get(&si::ratio()) == Rational::from_int(3));
}

#[test]
fn scalar_ops() {
    let q = Quantity::new_base(&si::length(), Rational::from_int(6));
    let twice = q.scalar_mul(&Rational::from_int(2));
    assert!(twice.get(&si::metre()) == Rational::from_int(12));
    let third = q.scalar_div(&Rational::from_int(3));
    assert!(third.get(&si::metre()) == Rational::from_int(2));
    let n = q.neg();
    assert!(n.get(&si::metre()) == Rational::from_int(-6));
}

#[test]
fn dimension_arithmetic() {
    let l = si::length();
    let t = si::time();
    let v = l.dim.div(&t.dim);
    assert_eq!(v, si::velocity().dim);
    let a2 = l.dim.mul(&l.dim);
    assert_eq!(a2, si::area().dim);
    assert!(a2.divisible(2));
    assert!(!a2.divisible(4));
}

#[test]
fn rounding_helpers() {
    let q = Quantity::new_base(&si::length(), Rational::new(-7, 2));
    assert!(q.floor().value == Rational::from_int(-4));
    assert!(q.ceil().value == Rational::from_int(-3));
    assert!(q.round().value == Rational::from_int(-4));
    assert!(q.fract().value == Rational::new(-1, 2));

    let p = Quantity::new_base(&si::length(), Rational::from_decimal(26, 1));
    assert!(p.floor().value == Rational::from_int(2));
    assert!(p.ceil().value == Rational::from_int(3));
    assert!(p.round().value == Rational::from_int(3));
    assert!(p.fract().value == Rational::new(3, 5));

    let zero = Quantity::zero(&si::length());
    let one = Quantity::one(&si::unitless());
    assert!(zero.value == Rational::from_int(0));
    assert!(one.value == Rational::from_int(1));
}
