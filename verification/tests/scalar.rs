use raytracing::scalar::{Scalar, INFINITY_RANK, ONE_RANK, SIGN_BIT};
use raytracing::{Color, Onb, Vec3};

fn num(x: f64) -> Scalar {
    Scalar::from_bits(x.to_bits()).unwrap()
}

fn val(s: Scalar) -> f64 {
    f64::from_bits(s.to_bits())
}

fn samples() -> Vec<f64> {
    vec![
        f64::NEG_INFINITY,
        -1.0e300,
        -555.0,
        -1.0,
        -1.0e-8,
        -5.0e-324,
        0.0,
        5.0e-324,
        2.2250738585072014e-308,
        1.0e-8,
        0.001,
        0.5,
        1.0,
        1.0000000000000002,
        554.0,
        1.0e300,
        f64::MAX,
        f64::INFINITY,
    ]
}

#[test]
fn scalar_round_trip_keeps_the_double() {
    for x in samples() {
        let s = num(x);
        assert_eq!(val(s).to_bits(), x.to_bits());
    }
}

#[test]
fn scalar_negative_zero_becomes_zero() {
    let s = Scalar::from_bits(SIGN_BIT).unwrap();
    assert_eq!(s.to_bits(), 0);
    assert_eq!(s, Scalar::zero());
    assert_eq!(s.rank(), 0);
}

#[test]
fn scalar_refuses_nan() {
    assert!(Scalar::from_bits(f64::NAN.to_bits()).is_none());
    assert!(Scalar::from_bits(0x7FF0_0000_0000_0001).is_none());
    assert!(Scalar::from_bits(0xFFF8_0000_0000_0000).is_none());
    assert!(Scalar::from_bits(0x7FF0_0000_0000_0000).is_some());
    assert!(Scalar::from_bits(0xFFF0_0000_0000_0000).is_some());
}

#[test]
fn scalar_order_is_the_order_of_doubles() {
    let xs = samples();
    for a in &xs {
        for b in &xs {
            let (sa, sb) = (num(*a), num(*b));
            assert_eq!(sa.lt(sb), a < b);
            assert_eq!(sa.le(sb), a <= b);
            assert_eq!(sa.gt(sb), a > b);
            assert_eq!(sa.ge(sb), a >= b);
            assert_eq!(sa == sb, a == b);
            assert_eq!(val(sa.min(sb)), a.min(*b));
            assert_eq!(val(sa.max(sb)), a.max(*b));
        }
    }
}

#[test]
fn scalar_neg_and_abs_are_those_of_doubles() {
    for x in samples() {
        assert_eq!(val(num(x).neg()), -x);
        assert_eq!(val(num(x).abs()), x.abs());
        assert_eq!(num(x).is_negative(), x < 0.0);
    }
}

#[test]
fn scalar_constants() {
    assert_eq!(val(Scalar::zero()), 0.0);
    assert_eq!(val(Scalar::one()), 1.0);
    assert_eq!(val(Scalar::infinity()), f64::INFINITY);
    assert_eq!(val(Scalar::neg_infinity()), f64::NEG_INFINITY);
    assert_eq!(Scalar::one().rank(), ONE_RANK);
    assert_eq!(Scalar::infinity().rank(), INFINITY_RANK);
    assert_eq!(num(5.0e-324).rank(), 1);
    assert_eq!(num(-5.0e-324).rank(), -1);
}

#[test]
fn vec3_near_zero_threshold() {
    let tiny = Vec3::new(num(9.9e-9), num(-9.9e-9), num(0.0));
    assert!(tiny.near_zero());
    let edge = Vec3::new(num(1.0e-8), num(0.0), num(0.0));
    assert!(!edge.near_zero());
    let one_large = Vec3::new(num(0.0), num(0.0), num(-0.5));
    assert!(!one_large.near_zero());
}

#[test]
fn vec3_neg_and_axis() {
    let v = Vec3::new(num(1.0), num(-2.0), num(0.0));
    let n = v.neg();
    assert_eq!((val(n.x), val(n.y), val(n.z)), (-1.0, 2.0, 0.0));
    assert_eq!(val(v.axis(0)), 1.0);
    assert_eq!(val(v.axis(1)), -2.0);
    assert_eq!(val(v.axis(2)), 0.0);
    assert_eq!(val(v.axis(7)), 0.0);
    let d = Vec3::default();
    assert_eq!((val(d.x), val(d.y), val(d.z)), (0.0, 0.0, 0.0));
}

#[test]
fn vec3_to_matrix_has_the_vectors_as_columns() {
    let a = Vec3::new(num(1.0), num(2.0), num(3.0));
    let b = Vec3::new(num(4.0), num(5.0), num(6.0));
    let c = Vec3::new(num(7.0), num(8.0), num(9.0));
    let m = Vec3::to_matrix(&a, &b, &c);
    let rows: Vec<Vec<f64>> = m.iter().map(|r| r.iter().map(|s| val(*s)).collect()).collect();
    assert_eq!(rows, vec![vec![1.0, 4.0, 7.0], vec![2.0, 5.0, 8.0], vec![3.0, 6.0, 9.0]]);
}

#[test]
fn vec3_try_from_wants_three_components() {
    let three = vec![num(1.0), num(2.0), num(3.0)];
    let v = Vec3::try_from(&three).unwrap();
    assert_eq!((val(v.x), val(v.y), val(v.z)), (1.0, 2.0, 3.0));
    assert_eq!(v.to_vec(), three);
    assert!(Vec3::try_from(&vec![num(1.0), num(2.0)]).is_err());
    assert!(Vec3::try_from(&vec![num(1.0); 4]).is_err());
    assert!(Vec3::try_from(&Vec::new()).is_err());
}

#[test]
fn onb_helper_axis_avoids_the_normal() {
    let up = Vec3::new(num(0.0), num(1.0), num(0.0));
    let a = Onb::helper_axis(&up);
    assert_eq!((val(a.x), val(a.y), val(a.z)), (1.0, 0.0, 0.0));
    let down = Vec3::new(num(0.0), num(-0.95), num(0.3));
    let a = Onb::helper_axis(&down);
    assert_eq!((val(a.x), val(a.y), val(a.z)), (1.0, 0.0, 0.0));
    let side = Vec3::new(num(1.0), num(0.0), num(0.0));
    let a = Onb::helper_axis(&side);
    assert_eq!((val(a.x), val(a.y), val(a.z)), (0.0, 1.0, 0.0));
    let edge = Vec3::new(num(0.4), num(0.9), num(0.0));
    let a = Onb::helper_axis(&edge);
    assert_eq!((val(a.x), val(a.y), val(a.z)), (0.0, 1.0, 0.0));
}

#[test]
fn color_clamp_brings_into_range() {
    assert_eq!(val(Color::clamp(num(-0.5), num(0.0), num(1.0))), 0.0);
    assert_eq!(val(Color::clamp(num(0.25), num(0.0), num(1.0))), 0.25);
    assert_eq!(val(Color::clamp(num(7.0), num(0.0), num(1.0))), 1.0);
    assert_eq!(val(Color::clamp_color(num(15.0))), 1.0);
    assert_eq!(val(Color::clamp_color(num(-1.0e-9))), 0.0);
    assert_eq!(val(Color::clamp_color(num(1.0))), 1.0);
    let black = Color::default();
    assert_eq!((val(black.0.x), val(black.0.y), val(black.0.z)), (0.0, 0.0, 0.0));
    let c = Color::new(num(0.1), num(0.2), num(0.3));
    assert_eq!((val(c.0.x), val(c.0.y), val(c.0.z)), (0.1, 0.2, 0.3));
}
