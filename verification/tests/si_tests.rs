use silib::kind::Kind;
use silib::quantity::Quantity;
use silib::rational::Rational;
use silib::si;

#[test]
fn test_prefixes() {
    let l1 = Quantity::new(&si::metre(), Rational::from_int(200));
    let l2 = Quantity::new(&si::kilo_metre(), Rational::from_decimal(2, 1));
    assert!(l1 == l2);

    let mass1 = Quantity::new(&si::kilogram(), Rational::from_int(10));
    let mass2 = Quantity::new(&si::gram(), Rational::from_sci(1, 4));
    assert!(mass1 == mass2);
}

#[test]
fn check_temp() {
    let rules = si::kind_rules();
    let t1 = Quantity::new(&si::celsius(), Rational::from_int(20));
    assert!(t1.get(&si::kelvin()) == Rational::from_decimal(29315, 2));

    // Intervals are in kelvin!
    let t2 = Quantity::new(&si::kelvin_interval(), Rational::from_int(10));
    let t3 = Quantity::new(&si::kelvin_interval(), Rational::from_int(5));
    // you can add intervals
    let t4 = t2.add(&t3, &rules);
    // you can add intervals to temps.
    let t5 = t1.add(&t4, &rules);
    let t6 = t4.add(&t1, &rules);
    assert!(t5 == t6);
    // you cannot add thermodynamic temperatures: no rule covers that pair.
    let thermo = Kind::Custom(si::THERMODYNAMIC_TEMPERATURE_KIND);
    assert!(rules.lookup_add(thermo, thermo).is_none());
    // you *can* subtract them.  It yields intervals!
    let t8 = t1.sub(&t1, &rules);
    assert!(rules.lookup_sub(thermo, thermo) == Some(Kind::Neutral));
    assert!(t8.get(&si::kelvin_interval()) == Rational::from_int(0));
}

#[test]
fn stringify() {
    let dist = Quantity::new(&si::metre(), Rational::from_decimal(1346, 3));
    assert_eq!("1.346 m", dist.formatted(&si::metre()).to_display().as_str());
    assert_eq!("1.35 m", dist.formatted(&si::metre()).to_display_precision(2).as_str());
}

#[test]
fn degree_rad() {
    let a = Quantity::new(&si::radian(), si::pi());
    let b = Quantity::new(&si::degree(), Rational::from_int(180));
    assert!(a == b);
}

#[test]
fn check_kind_conversion() {
    let rules = si::kind_rules();
    let angle = Quantity::new_base(&si::angle(), si::pi());
    let angle2 = Quantity::new_base(&si::angle(), si::pi());
    let a = Quantity::new_base(&si::unitless(), Rational::from_int(1));
    let two_pi = si::pi().add(&si::pi());
    assert!(angle.add(&angle2, &rules) == Quantity::new_base(&si::angle(), two_pi));
    // a dimensionless one is the multiplicative identity, and the product
    // keeps the angle kind
    assert!(a.mul(&angle2, &rules) == angle2);
    assert!(
        rules.lookup_mul(Kind::Neutral, Kind::Angle) == Some(Kind::Angle)
    );
}

#[test]
fn kind_conversion() {
    let mut rules = silib::kind::KindRules::new();
    let a = Kind::Custom(10);
    let b = Kind::Custom(11);
    let c = Kind::Custom(12);
    rules.allow_div(a, b, c);

    assert!(rules.lookup_div(a, a) == Some(Kind::Neutral));
    assert!(rules.lookup_div(a, Kind::Neutral) == Some(a));
    assert!(rules.lookup_mul(a, Kind::Neutral) == Some(a));
    assert!(rules.lookup_mul(Kind::Neutral, a) == Some(a));
    assert!(rules.lookup_mul(Kind::Neutral, Kind::Neutral) == Some(Kind::Neutral));
    assert!(rules.lookup_div(Kind::Neutral, Kind::Neutral) == Some(Kind::Neutral));
    assert!(rules.lookup_div(a, b) == Some(c));
}

#[test]
fn fahrenheit_conversion() {
    // 32 °F is the freezing point: exactly 273.15 K.
    let t = Quantity::new(&si::fahrenheit(), Rational::from_int(32));
    assert!(t.get(&si::kelvin()) == Rational::from_decimal(27315, 2));
    // and back out in Fahrenheit, exactly.
    assert!(t.get(&si::fahrenheit()) == Rational::from_int(32));
}

#[test]
fn celsius_round_trip() {
    let t = Quantity::new(&si::celsius(), Rational::from_decimal(-2015, 2));
    assert!(t.get(&si::celsius()) == Rational::from_decimal(-2015, 2));
    assert!(t.get(&si::kelvin()) == Rational::from_int(253));
}

#[test]
fn angle_reciprocal_keeps_angle_kind() {
    // one over an angle stays angle-flavoured: the documented special case.
    let rules = si::kind_rules();
    assert!(rules.lookup_div(Kind::Neutral, Kind::Angle) == Some(Kind::Angle));
    let angle = Quantity::new_base(&si::angle(), Rational::from_int(4));
    let inv = angle.recip(&rules);
    assert!(inv.get(&si::radian()) == Rational::from_decimal(25, 2));
}

#[test]
fn pressure_units() {
    let p = Quantity::new(&si::bar(), Rational::from_int(2));
    assert!(p.get(&si::pascal()) == Rational::from_int(200000));
    let q = Quantity::new(&si::newton_per_square_milli_metre(), Rational::from_int(3));
    assert!(q.get(&si::pascal()) == Rational::from_int(3000000));
}

#[test]
fn velocity_units() {
    let v = Quantity::new(&si::kilometre_per_hour(), Rational::from_int(36));
    assert!(v.get(&si::metre_per_second()) == Rational::from_int(10));
    let w = Quantity::new(&si::mile_per_hour(), Rational::from_int(100));
    // 100 miles per hour is exactly 160934/3600 metres per second
    assert!(w.get(&si::metre_per_second()) == Rational::new(160934, 3600));
}

#[test]
fn angular_velocity_units() {
    // one revolution per second is tau radians per second
    let w = Quantity::new(&si::revolutions_per_second(), Rational::from_int(1));
    let tau = si::pi().add(&si::pi());
    assert!(w.get(&si::radian_per_second()) == tau);
    // sixty revolutions per minute is one revolution per second
    let rpm = Quantity::new(&si::revolutions_per_minute(), Rational::from_int(60));
    assert!(rpm == w);
}

#[test]
fn torque_is_angle_flavoured() {
    let rules = si::kind_rules();
    // energy divided by an angle keeps the angle kind: that is a torque,
    // not an energy
    assert!(rules.lookup_div(Kind::Neutral, Kind::Angle) == Some(Kind::Angle));
    let e = Quantity::new(&si::joule(), Rational::from_int(10));
    let a = Quantity::new(&si::radian(), Rational::from_int(2));
    let t = e.div(&a, &rules);
    assert!(t.get(&si::newton_metre()) == Rational::from_int(5));
}
