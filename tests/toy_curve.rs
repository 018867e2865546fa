use complete_addition::field::Field;
use complete_addition::group::{
    add, double, homogeneous_form_to_affine, homogeneous_to_jacobian, mul, naive_msm, Affine,
    Curve, CurveError, Projective,
};
use complete_addition::small_field::{SmallFp, SMALL_MODULUS};

fn fe(n: u64) -> SmallFp {
    SmallFp::new(n)
}

fn curve() -> Curve<SmallFp> {
    Curve { b: fe(3) }
}

fn point(x: u64, y: u64) -> Projective<SmallFp> {
    Projective::from_affine(&Affine { x: fe(x), y: fe(y) })
}

fn coords(p: &Projective<SmallFp>) -> (u64, u64) {
    let a = homogeneous_form_to_affine(p).unwrap();
    (a.x.to_u64(), a.y.to_u64())
}

fn on_curve(p: &Projective<SmallFp>) -> bool {
    let (x, y, z) = (p.x, p.y, p.z);
    let lhs = y.mul(&y).mul(&z);
    let rhs = x.mul(&x).mul(&x).add(&fe(3).mul(&z).mul(&z).mul(&z));
    lhs == rhs
}

fn bits(n: u64, width: usize) -> Vec<bool> {
    (0..width).rev().map(|i| i < 64 && (n >> i) & 1 == 1).collect()
}

fn scale(p: &Projective<SmallFp>, l: u64) -> Projective<SmallFp> {
    let l = fe(l);
    Projective { x: p.x.mul(&l), y: p.y.mul(&l), z: p.z.mul(&l) }
}

#[test]
fn toy_double_matches_add_and_reference() {
    let c = curve();
    let g = point(1, 2);
    let a = add(&c, &g, &g);
    let d = double(&c, &g);
    assert_eq!(a, d);
    assert_eq!(coords(&d), (20442, 1022));
    assert!(on_curve(&d));
}

#[test]
fn toy_mul_five_matches_addition_chain() {
    let c = curve();
    let g = point(1, 2);
    let chain = add(&c, &add(&c, &add(&c, &add(&c, &g, &g), &g), &g), &g);
    let five = mul(&c, &g, &bits(5, 3));
    assert_eq!(coords(&five), coords(&chain));
    assert_eq!(coords(&five), (47713, 10249));
}

#[test]
fn toy_mul_with_leading_zero_bits() {
    let c = curve();
    let g = point(1, 2);
    let short = mul(&c, &g, &bits(5, 3));
    let long = mul(&c, &g, &bits(5, 64));
    assert_eq!(short, long);
    let big = mul(&c, &g, &bits(1000003, 128));
    assert_eq!(coords(&big), (16349, 15450));
}

#[test]
fn toy_mul_by_zero_is_identity() {
    let c = curve();
    let g = point(1, 2);
    let zero = mul(&c, &g, &bits(0, 16));
    assert_eq!(zero, Projective::identity());
    assert_eq!(mul(&c, &g, &[]), Projective::identity());
    assert_eq!(
        homogeneous_form_to_affine(&zero),
        Err(CurveError::UndefinedInversion)
    );
}

#[test]
fn toy_mul_matches_repeated_addition() {
    let c = curve();
    let g = point(1, 2);
    let mut acc = g;
    for n in 2..40u64 {
        acc = add(&c, &acc, &g);
        assert_eq!(coords(&mul(&c, &g, &bits(n, 8))), coords(&acc));
    }
}

#[test]
fn toy_identity_and_inverse() {
    let c = curve();
    let g = point(1, 2);
    let o = Projective::identity();
    assert_eq!(coords(&add(&c, &g, &o)), (1, 2));
    assert_eq!(coords(&add(&c, &o, &g)), (1, 2));
    let neg = point(1, SMALL_MODULUS - 2);
    let sum = add(&c, &g, &neg);
    assert!(sum.x.is_zero() && sum.z.is_zero() && !sum.y.is_zero());
    let oo = add(&c, &o, &o);
    assert!(oo.x.is_zero() && oo.z.is_zero() && !oo.y.is_zero());
    assert_eq!(double(&c, &o).z, fe(0));
}

#[test]
fn toy_scaling_invariance() {
    let c = curve();
    let g = point(1, 2);
    let h = point(14955, 28176);
    let l = 12345;
    let a = add(&c, &scale(&g, l), &h);
    let b = add(&c, &g, &h);
    assert_eq!(a, scale(&b, l * l % SMALL_MODULUS));
    assert_eq!(coords(&a), coords(&b));
    let d = double(&c, &scale(&g, l));
    assert_eq!(coords(&d), coords(&double(&c, &g)));
}

#[test]
fn toy_results_stay_on_curve() {
    let c = curve();
    let g = point(1, 2);
    let h = point(14955, 28176);
    assert!(on_curve(&g) && on_curve(&h));
    assert!(on_curve(&add(&c, &g, &h)));
    assert!(on_curve(&double(&c, &h)));
    assert!(on_curve(&mul(&c, &h, &bits(999, 10))));
}

#[test]
fn toy_addition_is_commutative() {
    let c = curve();
    let g = point(1, 2);
    let h = point(14955, 28176);
    assert_eq!(add(&c, &g, &h), add(&c, &h, &g));
    let s = Projective { x: fe(3), y: fe(6), z: fe(3) };
    assert_eq!(add(&c, &s, &h), add(&c, &h, &s));
}

#[test]
fn toy_msm_matches_independent_sum() {
    let c = curve();
    let g = point(1, 2);
    let h = point(14955, 28176);
    let r = naive_msm(&c, &[g, h], &[bits(3, 2), bits(4, 3)]).unwrap();
    assert_eq!(coords(&r), (62347, 45236));
    for n in [1usize, 2, 4, 8, 16] {
        let points: Vec<Projective<SmallFp>> =
            (0..n).map(|i| mul(&c, &g, &bits(7 * i as u64 + 3, 8))).collect();
        let scalars: Vec<Vec<bool>> = (0..n).map(|i| bits(31 * i as u64 + 5, 10)).collect();
        let r = naive_msm(&c, &points, &scalars).unwrap();
        let mut total = 0u64;
        for i in 0..n {
            total += (7 * i as u64 + 3) * (31 * i as u64 + 5);
        }
        assert_eq!(coords(&r), coords(&mul(&c, &g, &bits(total, 32))));
    }
}

#[test]
fn toy_msm_errors() {
    let c = curve();
    let g = point(1, 2);
    assert_eq!(naive_msm(&c, &[], &[]), Err(CurveError::EmptyInputSet));
    assert_eq!(naive_msm(&c, &[g], &[]), Err(CurveError::LengthMismatch));
    assert_eq!(
        naive_msm(&c, &[g], &[bits(1, 1), bits(2, 2)]),
        Err(CurveError::LengthMismatch)
    );
}

#[test]
fn toy_normalisation() {
    let g = point(1, 2);
    let s = Projective { x: fe(5), y: fe(10), z: fe(5) };
    assert_eq!(coords(&s), coords(&g));
    let (x, y, z) = homogeneous_to_jacobian(fe(5), fe(10), fe(5)).unwrap();
    assert_eq!((x.to_u64(), y.to_u64(), z.to_u64()), (1, 2, 1));
    assert_eq!(
        homogeneous_to_jacobian(fe(5), fe(10), fe(0)),
        Err(CurveError::UndefinedInversion)
    );
}

#[test]
fn toy_field_operations() {
    assert_eq!(fe(SMALL_MODULUS + 4).to_u64(), 4);
    assert_eq!(fe(3).sub(&fe(5)).to_u64(), SMALL_MODULUS - 2);
    assert_eq!(fe(60000).add(&fe(10000)).to_u64(), 70000 - SMALL_MODULUS);
    assert_eq!(fe(300).mul(&fe(300)).to_u64(), 90000 - SMALL_MODULUS);
    let inv = fe(7).invert().unwrap();
    assert_eq!(inv.mul(&fe(7)).to_u64(), 1);
    assert!(fe(0).invert().is_none());
    assert_eq!(SmallFp::from_u64(2 * SMALL_MODULUS + 1), SmallFp::one());
}
