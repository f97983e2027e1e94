use gram_schmidt::scalar::FloatOps;
use gram_schmidt::vector::{Vector, Vector4};

/// Hardware double-precision arithmetic on bit patterns.
struct HwFloat;

impl FloatOps for HwFloat {
    // the spec members are ghost: every use of them is erased, and they are
    // never called at run time
    fn add_bits(_: u64, _: u64) -> u64 {
        unreachable!()
    }

    fn sub_bits(_: u64, _: u64) -> u64 {
        unreachable!()
    }

    fn mul_bits(_: u64, _: u64) -> u64 {
        unreachable!()
    }

    fn div_bits(_: u64, _: u64) -> u64 {
        unreachable!()
    }

    fn sqrt_bits(_: u64) -> u64 {
        unreachable!()
    }

    fn add(a: u64, b: u64) -> u64 {
        (f64::from_bits(a) + f64::from_bits(b)).to_bits()
    }

    fn sub(a: u64, b: u64) -> u64 {
        (f64::from_bits(a) - f64::from_bits(b)).to_bits()
    }

    fn mul(a: u64, b: u64) -> u64 {
        (f64::from_bits(a) * f64::from_bits(b)).to_bits()
    }

    fn div(a: u64, b: u64) -> u64 {
        (f64::from_bits(a) / f64::from_bits(b)).to_bits()
    }

    fn sqrt(a: u64) -> u64 {
        f64::from_bits(a).sqrt().to_bits()
    }
}

fn v4(xs: [f64; 4]) -> Vector4 {
    let bits: Vec<u64> = xs.iter().map(|x| x.to_bits()).collect();
    Vector::new(bits)
}

fn comps(v: &Vector4) -> [f64; 4] {
    [
        f64::from_bits(v.get_component(0)),
        f64::from_bits(v.get_component(1)),
        f64::from_bits(v.get_component(2)),
        f64::from_bits(v.get_component(3)),
    ]
}

#[test]
fn test_dot_product() {
    let v1 = v4([1.0, 2.0, 3.0, 6.0]);
    let v2 = v4([3.0, 4.0, 5.0, 7.0]);
    let dot = f64::from_bits(Vector::<4>::dot_product::<HwFloat>(&v1, &v2));
    assert_eq!(dot, 68.0);
}

#[test]
fn scale_with_dot_prod() {
    let mut v1 = v4([1.0, 2.0, 3.0, 6.0]);
    let v2 = v4([3.0, 4.0, 5.0, 7.0]);
    v1.scale_with_dot_prod::<HwFloat>(&v2);
    assert_eq!(comps(&v1), [3.0, 16.0, 45.0, 252.0]);
}

#[test]
fn test_normalize() {
    let mut v1 = v4([4.0, 4.0, 4.0, 4.0]);
    v1.normalize::<HwFloat>();
    assert_eq!(comps(&v1), [4.0 / 8.0, 4.0 / 8.0, 4.0 / 8.0, 4.0 / 8.0]);
}

#[test]
fn test_length() {
    let v1 = v4([4.0, 4.0, 4.0, 4.0]);
    let v2 = v4([3.0, 4.0, 5.0, 7.0]);
    assert_eq!(f64::from_bits(v1.length::<HwFloat>()), 8.0);
    assert_eq!(f64::from_bits(v2.length::<HwFloat>()), 99_f64.sqrt());
}

#[test]
fn test_length_formula() {
    // sqrt(1 + 4 + 9 + 36) = sqrt(50)
    let v = v4([1.0, 2.0, 3.0, 6.0]);
    assert_eq!(f64::from_bits(v.length::<HwFloat>()), 50_f64.sqrt());
}

#[test]
fn test_add() {
    let a = v4([1.0, 2.0, 3.0, 4.0]);
    let b = v4([10.0, 20.0, 30.0, 40.0]);
    let r = a.add::<HwFloat>(&b);
    assert_eq!(comps(&r), [11.0, 22.0, 33.0, 44.0]);
}

#[test]
fn test_sub() {
    let a = v4([1.0, 2.0, 3.0, 4.0]);
    let b = v4([10.0, 20.0, 30.0, 40.0]);
    let r = a.sub::<HwFloat>(&b);
    assert_eq!(comps(&r), [-9.0, -18.0, -27.0, -36.0]);
}

#[test]
fn test_scale() {
    let a = v4([1.0, 2.0, 3.0, 4.0]);
    let r = a.scale::<HwFloat>(2.5_f64.to_bits());
    assert_eq!(comps(&r), [2.5, 5.0, 7.5, 10.0]);
}

#[test]
fn test_div_scalar() {
    let a = v4([1.0, 2.0, 3.0, 4.0]);
    let r = a.div_scalar::<HwFloat>(2.0_f64.to_bits());
    assert_eq!(comps(&r), [0.5, 1.0, 1.5, 2.0]);
}

#[test]
fn test_div_scalar_by_zero_propagates() {
    let a = v4([1.0, -2.0, 0.0, 4.0]);
    let r = a.div_scalar::<HwFloat>(0.0_f64.to_bits());
    let c = comps(&r);
    assert_eq!(c[0], f64::INFINITY);
    assert_eq!(c[1], f64::NEG_INFINITY);
    assert!(c[2].is_nan());
    assert_eq!(c[3], f64::INFINITY);
}

#[test]
fn test_empty_is_zero() {
    let z = Vector::<4>::empty();
    assert_eq!(comps(&z), [0.0, 0.0, 0.0, 0.0]);
}

#[test]
fn test_get_component() {
    let v = v4([7.0, 8.0, 9.0, 10.0]);
    assert_eq!(f64::from_bits(v.get_component(2)), 9.0);
}

#[test]
fn test_sum_vectors_folds_from_zero() {
    let vs = vec![
        v4([1.0, 2.0, 3.0, 4.0]),
        v4([10.0, 20.0, 30.0, 40.0]),
        v4([100.0, 200.0, 300.0, 400.0]),
    ];
    let r = Vector::<4>::sum_vectors::<HwFloat>(&vs);
    assert_eq!(comps(&r), [111.0, 222.0, 333.0, 444.0]);
}

#[test]
fn test_sum_vectors_empty() {
    let vs: Vec<Vector4> = vec![];
    let r = Vector::<4>::sum_vectors::<HwFloat>(&vs);
    assert_eq!(comps(&r), [0.0, 0.0, 0.0, 0.0]);
}

#[test]
fn test_normalized_pure_leaves_input() {
    let v = v4([3.0, 0.0, 0.0, 4.0]);
    let r = v.normalized::<HwFloat>();
    assert_eq!(comps(&r), [0.6, 0.0, 0.0, 0.8]);
    // the pure form does not touch its input
    assert_eq!(comps(&v), [3.0, 0.0, 0.0, 4.0]);
}
