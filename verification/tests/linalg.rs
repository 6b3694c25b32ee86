use newton_core::constants::{EPSILON, TOLERANCE};
use newton_core::linalg::Vector;
use newton_core::scalar;
use std::cmp::Ordering;

fn v(xs: &[f64]) -> Vector {
    let bits: Vec<u64> = xs.iter().map(|x| x.to_bits()).collect();
    Vector::from_slice(&bits)
}

fn at(v: &Vector, i: usize) -> f64 {
    f64::from_bits(v.get(i))
}

const SAMPLES: [f64; 17] = [
    0.0,
    -0.0,
    1.0,
    -1.0,
    1e-10,
    -1e-10,
    1e-8,
    0.5,
    0.9,
    100.0,
    1e15,
    -1e15,
    5e-324,
    -5e-324,
    f64::INFINITY,
    f64::NEG_INFINITY,
    f64::NAN,
];

#[test]
fn bits_vector_creation() {
    let v = v(&[1.0, 2.0, 3.0]);
    assert_eq!(v.dim(), 3);
    assert_eq!(at(&v, 0), 1.0);
    assert_eq!(at(&v, 1), 2.0);
    assert_eq!(at(&v, 2), 3.0);
}

#[test]
fn bits_vector_zeros() {
    let v = Vector::zeros(5);
    assert_eq!(v.dim(), 5);
    assert!(v.as_slice().iter().all(|&x| f64::from_bits(x) == 0.0));
}

#[test]
fn bits_vector_clamp() {
    let v = v(&[-5.0, 50.0, 150.0]);
    let clamped = v.clamp(0.0f64.to_bits(), 100.0f64.to_bits());
    assert_eq!(at(&clamped, 0), 0.0);
    assert_eq!(at(&clamped, 1), 50.0);
    assert_eq!(at(&clamped, 2), 100.0);
}

#[test]
fn bits_lexicographic_cmp() {
    let a = v(&[1.0, 2.0, 3.0]);
    let b = v(&[1.0, 2.0, 4.0]);
    let c = v(&[1.0, 3.0, 0.0]);

    assert_eq!(a.lexicographic_cmp(&b), Ordering::Less);
    assert_eq!(b.lexicographic_cmp(&a), Ordering::Greater);
    assert_eq!(a.lexicographic_cmp(&c), Ordering::Less);
}

#[test]
fn constants_are_the_documented_values() {
    assert_eq!(f64::from_bits(EPSILON), 1e-10);
    assert_eq!(f64::from_bits(TOLERANCE), 1e-8);
    assert_eq!(f64::from_bits(newton_core::constants::SEARCH_RADIUS), 100.0);
    let radii: Vec<f64> = newton_core::constants::SHELL_RADII.iter().map(|b| f64::from_bits(*b)).collect();
    assert_eq!(radii, vec![1.0, 2.0, 4.0, 8.0, 100.0]);
    assert_eq!(newton_core::constants::MAX_ITERATIONS, 100);
    assert_eq!(newton_core::constants::MAX_CANDIDATES, 24);
    assert_eq!(newton_core::constants::TIMEOUT_US, 500_000);
    assert_eq!(newton_core::constants::SHELL_ANGULAR_SAMPLES, 8);
    assert_eq!(f64::from_bits(scalar::ONE), 1.0);
    assert_eq!(f64::from_bits(scalar::HALF), 0.5);
    assert_eq!(scalar::ZERO, 0.0f64.to_bits());
    assert_eq!(scalar::INFINITY, f64::INFINITY.to_bits());
    assert_eq!(scalar::NEG_INFINITY, f64::NEG_INFINITY.to_bits());
}

#[test]
fn comparisons_agree_with_the_hardware() {
    for &a in SAMPLES.iter() {
        for &b in SAMPLES.iter() {
            let (x, y) = (a.to_bits(), b.to_bits());
            assert_eq!(scalar::less(x, y), a < b, "{a} < {b}");
            assert_eq!(scalar::less_eq(x, y), a <= b, "{a} <= {b}");
            assert_eq!(scalar::greater(x, y), a > b, "{a} > {b}");
            assert_eq!(scalar::greater_eq(x, y), a >= b, "{a} >= {b}");
            assert_eq!(scalar::equal(x, y), a == b, "{a} == {b}");
        }
    }
}

#[test]
fn classes_and_signs_agree_with_the_hardware() {
    for &a in SAMPLES.iter() {
        let x = a.to_bits();
        assert_eq!(scalar::is_nan(x), a.is_nan());
        assert_eq!(scalar::is_finite(x), a.is_finite());
        assert_eq!(scalar::negate(x), (-a).to_bits());
        assert_eq!(scalar::absolute(x), a.abs().to_bits());
    }
}

#[test]
fn clamp_min_max_agree_with_the_hardware() {
    for &a in SAMPLES.iter() {
        for &b in SAMPLES.iter() {
            let hi = f64::from_bits(scalar::maximum(a.to_bits(), b.to_bits()));
            let lo = f64::from_bits(scalar::minimum(a.to_bits(), b.to_bits()));
            if a.is_nan() && b.is_nan() {
                assert!(hi.is_nan() && lo.is_nan());
            } else {
                assert_eq!(hi, a.max(b));
                assert_eq!(lo, a.min(b));
            }
            if a <= b {
                for &x in SAMPLES.iter() {
                    let got = scalar::clamp(x.to_bits(), a.to_bits(), b.to_bits());
                    assert_eq!(got, x.clamp(a, b).to_bits(), "{x} into [{a}, {b}]");
                }
            }
        }
    }
}

#[test]
fn near_zero_uses_epsilon() {
    assert!(newton_core::constants::is_near_zero(0.0f64.to_bits()));
    assert!(newton_core::constants::is_near_zero(1e-11f64.to_bits()));
    assert!(newton_core::constants::is_near_zero((-1e-11f64).to_bits()));
    assert!(!newton_core::constants::is_near_zero(1e-9f64.to_bits()));
    assert!(!newton_core::constants::is_near_zero(1e-10f64.to_bits()));
    assert!(!newton_core::constants::is_near_zero(f64::NAN.to_bits()));
}

#[test]
fn lexicographic_order_puts_nan_last_and_prefix_first() {
    let nan = v(&[1.0, f64::NAN]);
    let inf = v(&[1.0, f64::INFINITY]);
    let nan2 = v(&[1.0, -f64::NAN]);
    assert_eq!(nan.lexicographic_cmp(&inf), Ordering::Greater);
    assert_eq!(inf.lexicographic_cmp(&nan), Ordering::Less);
    assert_eq!(nan.lexicographic_cmp(&nan2), Ordering::Equal);
    let short = v(&[1.0]);
    let long = v(&[1.0, -5.0]);
    assert_eq!(short.lexicographic_cmp(&long), Ordering::Less);
    assert_eq!(long.lexicographic_cmp(&short), Ordering::Greater);
    assert_eq!(v(&[0.0]).lexicographic_cmp(&v(&[-0.0])), Ordering::Equal);
    assert_eq!(long.lex(&short), 1);
}

#[test]
fn normalising_and_approximate_equality() {
    let x = v(&[3.0, 4.0]);
    assert_eq!(x.normalize(5.0f64.to_bits(), &v(&[0.6, 0.8])), v(&[0.6, 0.8]));
    assert_eq!(x.normalize(9e-11f64.to_bits(), &v(&[0.6, 0.8])), v(&[0.0, 0.0]));
    assert_eq!(x.normalize(1e-10f64.to_bits(), &v(&[0.6, 0.8])), v(&[0.6, 0.8]));
    assert!(x.approx_eq(&v(&[3.0, 4.0]), 0.0f64.to_bits()));
    assert!(x.approx_eq(&v(&[3.0, 4.000000001]), 1e-9f64.to_bits()));
    assert!(!x.approx_eq(&v(&[3.0, 4.1]), 0.1f64.to_bits()));
    assert!(!x.approx_eq(&v(&[3.0, 4.0]), 1e-8f64.to_bits()));
    assert!(!x.approx_eq(&v(&[3.0]), 0.0f64.to_bits()));
}

#[test]
fn unit_neg_and_class_tests() {
    let u = Vector::unit(3, 1);
    assert_eq!(u, v(&[0.0, 1.0, 0.0]));
    assert_eq!(Vector::unit(2, 5), v(&[0.0, 0.0]));
    assert_eq!(Vector::from_elem(2, 2.5f64.to_bits()), v(&[2.5, 2.5]));
    assert_eq!(v(&[1.0, -2.0, 0.0]).neg(), v(&[-1.0, 2.0, -0.0]));
    assert!(v(&[1.0, 2.0]).is_finite());
    assert!(!v(&[1.0, f64::INFINITY]).is_finite());
    assert!(v(&[1.0, f64::NAN]).has_nan());
    assert!(!v(&[1.0, 2.0]).has_nan());
    assert!(Vector::zeros(0).is_empty());
    assert_eq!(v(&[1.0, 2.0]).len(), 2);
    let mut w = v(&[1.0, 2.0]);
    w.set(1, 7.0f64.to_bits());
    assert_eq!(w, v(&[1.0, 7.0]));
    assert!(w.same_bits(&w.copy()));
    assert!(!v(&[0.0]).same_bits(&v(&[-0.0])));
    let c = v(&[-5.0, 50.0, 150.0]).clamp_vec(&v(&[0.0, 60.0, 0.0]), &v(&[1.0, 70.0, 100.0]));
    assert_eq!(c, v(&[0.0, 60.0, 100.0]));
    assert!(c.is_within(&v(&[0.0, 60.0, 0.0]), &v(&[1.0, 70.0, 100.0])));
}
