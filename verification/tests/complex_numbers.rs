use silib::quantity::{ComplexQuantity, Quantity};
use silib::rational::Rational;
use silib::si;
use silib::value_type::Complex;

#[test]
fn basic_ops() {
    let rules = si::kind_rules();
    let a = Quantity::new(&si::ohm(), Rational::from_int(123));
    let b = ComplexQuantity::new(
        &si::ohm(),
        Complex::new(Rational::from_int(0), Rational::from_int(432)),
    );
    let c = ComplexQuantity::from_real(&a).add(&b, &rules);
    let d = b.add(&ComplexQuantity::from_real(&a), &rules);
    assert!(c.get(&si::ohm()) == Complex::new(Rational::from_int(123), Rational::from_int(432)));
    assert!(d == c);
}

#[test]
fn basetype_scaling() {
    let a = ComplexQuantity::new_base(
        &si::electric_resistance(),
        Complex::new(Rational::from_int(4), Rational::from_int(5)),
    );
    let b = a.scale_real(&Rational::from_int(10));
    assert!(b.get(&si::ohm()) == Complex::new(Rational::from_int(40), Rational::from_int(50)));

    let c = Quantity::new_base(&si::electric_resistance(), Rational::from_int(2));
    let d = ComplexQuantity::from_real(&c).scalar_mul(&Complex::new(
        Rational::from_int(3),
        Rational::from_int(5),
    ));
    assert!(d.get(&si::ohm()) == Complex::new(Rational::from_int(6), Rational::from_int(10)));
}

#[test]
fn complex_product_and_reciprocal() {
    let rules = si::kind_rules();
    // (1 + 2i) * (3 + 4i) == -5 + 10i, with areas composing the dimension
    let z1 = ComplexQuantity::new_base(
        &si::length(),
        Complex::new(Rational::from_int(1), Rational::from_int(2)),
    );
    let z2 = ComplexQuantity::new_base(
        &si::length(),
        Complex::new(Rational::from_int(3), Rational::from_int(4)),
    );
    let p = z1.mul(&z2, &rules);
    assert!(
        p.get(&si::square_metre())
            == Complex::new(Rational::from_int(-5), Rational::from_int(10))
    );

    // 1 / (3 + 4i) == (3 - 4i) / 25
    let inv = z2.inv(&rules);
    assert!(
        inv.value == Complex::new(Rational::new(3, 25), Rational::new(-4, 25))
    );
    // and the squared norm is exact: |3 + 4i|^2 == 25
    assert!(z2.norm_sqr().value == Rational::from_int(25));
}

#[test]
fn complex_components_and_constants() {
    let info = si::electric_resistance();
    let one = ComplexQuantity::one(&info);
    let i = ComplexQuantity::i(&info);
    let j = ComplexQuantity::j(&info);
    assert!(i == j);
    assert!(one.re().value == Rational::from_int(1));
    assert!(one.im().value == Rational::from_int(0));
    assert!(i.re().value == Rational::from_int(0));
    assert!(i.im().value == Rational::from_int(1));
    assert!(one.is_finite());
    assert!(!one.is_nan());
    assert!(!one.is_infinite());
    assert!(ComplexQuantity::zero(&info).is_normal() == false);
}

#[test]
fn complex_sub_and_neg() {
    let rules = si::kind_rules();
    let a = ComplexQuantity::new_base(
        &si::length(),
        Complex::new(Rational::from_int(7), Rational::from_int(3)),
    );
    let b = ComplexQuantity::new_base(
        &si::length(),
        Complex::new(Rational::from_int(2), Rational::from_int(8)),
    );
    let d = a.sub(&b, &rules);
    assert!(d.value == Complex::new(Rational::from_int(5), Rational::from_int(-5)));
    let n = d.neg();
    assert!(n.value == Complex::new(Rational::from_int(-5), Rational::from_int(5)));
}
