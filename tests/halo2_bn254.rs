use ark_std::test_rng;
use complete_addition::group::{
    add, double, homogeneous_form_to_affine, mul, naive_msm, Affine, Projective,
};
use complete_addition::field::Field;
use complete_addition::halo2::{bn254_curve, Bn254Fq};
use halo2curves::bn256::{Fr, G1};
use halo2curves::ff::{Field as _, PrimeField};
use halo2curves::group::{Curve as _, Group};
use halo2curves::CurveAffine;

const REPEAT: usize = 5;

fn reference_affine(p: &G1) -> Affine<Bn254Fq> {
    let c = p.to_affine().coordinates().unwrap();
    Affine {
        x: Bn254Fq::from_repr(c.x().to_repr()).unwrap(),
        y: Bn254Fq::from_repr(c.y().to_repr()).unwrap(),
    }
}

fn to_point(p: &G1) -> Projective<Bn254Fq> {
    Projective::from_affine(&reference_affine(p))
}

fn scalar_bits(s: &Fr) -> Vec<bool> {
    s.to_repr()
        .as_ref()
        .iter()
        .rev()
        .flat_map(|byte| (0..8).rev().map(move |i| (byte >> i) & 1u8 == 1))
        .collect()
}

fn affine(p: &Projective<Bn254Fq>) -> Affine<Bn254Fq> {
    homogeneous_form_to_affine(p).unwrap()
}

#[test]
fn test_add() {
    let mut rng = test_rng();
    let curve = bn254_curve();
    for _ in 0..REPEAT {
        let x = G1::random(&mut rng);
        let y = G1::random(&mut rng);

        let z = x + y;
        let res = add(&curve, &to_point(&x), &to_point(&y));
        let res_affine = affine(&res);
        let on_curve = halo2curves::bn256::G1Affine::from_xy(
            halo2curves::bn256::Fq::from_repr(res_affine.x.to_repr()).unwrap(),
            halo2curves::bn256::Fq::from_repr(res_affine.y.to_repr()).unwrap(),
        );
        assert_eq!(on_curve.is_some().unwrap_u8(), 1);
        assert_eq!(reference_affine(&z), res_affine);
    }
}

#[test]
fn test_double() {
    let mut rng = test_rng();
    let curve = bn254_curve();
    for _ in 0..REPEAT {
        let x = G1::random(&mut rng);
        let p = to_point(&x);
        let res = double(&curve, &p);
        let res2 = add(&curve, &p, &p);
        let res3 = x + x;
        assert_eq!(res, res2);
        assert_eq!(reference_affine(&res3), affine(&res));
        assert_eq!(reference_affine(&res3), affine(&res2));
    }
}

#[test]
fn test_mul() {
    let mut rng = test_rng();
    let curve = bn254_curve();
    for _ in 0..REPEAT {
        let base = G1::random(&mut rng);
        let scalar = Fr::random(&mut rng);

        let res = mul(&curve, &to_point(&base), &scalar_bits(&scalar));
        let res2 = base * scalar;
        assert_eq!(reference_affine(&res2), affine(&res));
    }
}

#[test]
fn test_msm() {
    let mut rng = test_rng();
    let curve = bn254_curve();
    for i in 1..REPEAT {
        let dim = 1 << i;
        let bases: Vec<G1> = (0..dim).map(|_| G1::random(&mut rng)).collect();
        let scalars: Vec<Fr> = (0..dim).map(|_| Fr::random(&mut rng)).collect();
        let points: Vec<Projective<Bn254Fq>> = bases.iter().map(to_point).collect();
        let bits: Vec<Vec<bool>> = scalars.iter().map(scalar_bits).collect();

        let res = naive_msm(&curve, &points, &bits).unwrap();
        let mut res2 = G1::identity();
        for (b, s) in bases.iter().zip(scalars.iter()) {
            res2 = res2 + b * s;
        }
        assert_eq!(reference_affine(&res2), affine(&res));
    }
}

#[test]
fn bn254_generator_scenario() {
    let curve = bn254_curve();
    let g = to_point(&G1::generator());
    assert_eq!(reference_affine(&G1::generator()).x.to_repr()[0], 1);
    assert_eq!(reference_affine(&G1::generator()).y.to_repr()[0], 2);
    let two = add(&curve, &g, &g);
    assert_eq!(two, double(&curve, &g));
    assert_eq!(affine(&two), reference_affine(&G1::generator().double()));
    let five_bits = vec![false, false, false, false, true, false, true];
    let five = mul(&curve, &g, &five_bits);
    let chain = add(&curve, &add(&curve, &add(&curve, &add(&curve, &g, &g), &g), &g), &g);
    assert_eq!(affine(&five), affine(&chain));
    assert_eq!(affine(&five), reference_affine(&(G1::generator() * Fr::from(5u64))));
}

#[test]
fn bn254_field_operations() {
    let mut seven = [0u8; 32];
    seven[0] = 7;
    let a = Bn254Fq::from_repr(seven).unwrap();
    let mut three = [0u8; 32];
    three[0] = 3;
    let b = Bn254Fq::from_repr(three).unwrap();
    assert_eq!(a.add(&b).to_repr()[0], 10);
    assert_eq!(a.sub(&b).to_repr()[0], 4);
    assert_eq!(a.mul(&b).to_repr()[0], 21);
    assert_eq!(Bn254Fq::from_u64(300).to_repr()[1], 1);
    assert!(!a.is_zero());
    assert!(Bn254Fq::zero().is_zero());
    assert!(Bn254Fq::zero().invert().is_none());
    let inv = a.invert().unwrap();
    assert_eq!(inv.mul(&a), Bn254Fq::one());
    let neg = b.sub(&a);
    assert_eq!(neg.add(&a), b);
    assert_ne!(neg.to_repr()[31], 0);
    assert!(Bn254Fq::from_repr([0xff; 32]).is_none());
    assert_eq!(bn254_curve().b.to_repr()[0], 3);
}
