use ark_ec::{AffineCurve, ProjectiveCurve};
use ark_ff::{BigInteger, PrimeField};
use ark_std::{test_rng, UniformRand};
use complete_addition::arkworks::{ark_bn254_curve, bls12_377_curve, ArkBn254Fq, Bls12377Fq};
use complete_addition::field::Field;
use complete_addition::group::{
    add, double, homogeneous_form_to_affine, mul, naive_msm, Affine, Projective,
};

const REPEAT: usize = 5;

fn bn_affine(p: &ark_bn254::G1Projective) -> Affine<ArkBn254Fq> {
    let a = p.into_affine();
    Affine {
        x: ArkBn254Fq::from_limbs(a.x.into_repr().0).unwrap(),
        y: ArkBn254Fq::from_limbs(a.y.into_repr().0).unwrap(),
    }
}

fn bls_affine(p: &ark_bls12_377::G1Projective) -> Affine<Bls12377Fq> {
    let a = p.into_affine();
    Affine {
        x: Bls12377Fq::from_limbs(a.x.into_repr().0).unwrap(),
        y: Bls12377Fq::from_limbs(a.y.into_repr().0).unwrap(),
    }
}

#[test]
fn ark_bn254_add_double_mul() {
    let mut rng = test_rng();
    let curve = ark_bn254_curve();
    for _ in 0..REPEAT {
        let x = ark_bn254::G1Projective::rand(&mut rng);
        let y = ark_bn254::G1Projective::rand(&mut rng);
        let px = Projective::from_affine(&bn_affine(&x));
        let py = Projective::from_affine(&bn_affine(&y));

        let sum = add(&curve, &px, &py);
        assert_eq!(homogeneous_form_to_affine(&sum).unwrap(), bn_affine(&(x + y)));

        let d = double(&curve, &px);
        assert_eq!(d, add(&curve, &px, &px));
        assert_eq!(homogeneous_form_to_affine(&d).unwrap(), bn_affine(&(x + x)));

        let s = ark_bn254::Fr::rand(&mut rng);
        let bits = s.into_repr().to_bits_be();
        let r = mul(&curve, &px, &bits);
        assert_eq!(homogeneous_form_to_affine(&r).unwrap(), bn_affine(&x.mul(s.into_repr())));
    }
}

#[test]
fn ark_bn254_msm() {
    let mut rng = test_rng();
    let curve = ark_bn254_curve();
    for i in 1..REPEAT {
        let dim = 1 << i;
        let bases: Vec<ark_bn254::G1Projective> =
            (0..dim).map(|_| ark_bn254::G1Projective::rand(&mut rng)).collect();
        let scalars: Vec<ark_bn254::Fr> = (0..dim).map(|_| ark_bn254::Fr::rand(&mut rng)).collect();
        let points: Vec<Projective<ArkBn254Fq>> =
            bases.iter().map(|b| Projective::from_affine(&bn_affine(b))).collect();
        let bits: Vec<Vec<bool>> = scalars.iter().map(|s| s.into_repr().to_bits_be()).collect();
        let res = naive_msm(&curve, &points, &bits).unwrap();
        let mut expected = ark_bn254::G1Projective::prime_subgroup_generator();
        expected = expected - expected;
        for (b, s) in bases.iter().zip(scalars.iter()) {
            expected += b.mul(s.into_repr());
        }
        assert_eq!(homogeneous_form_to_affine(&res).unwrap(), bn_affine(&expected));
    }
}

#[test]
fn ark_bls12_377_add_double_mul() {
    let mut rng = test_rng();
    let curve = bls12_377_curve();
    assert_eq!(curve.b, Bls12377Fq::one());
    for _ in 0..REPEAT {
        let x = ark_bls12_377::G1Projective::rand(&mut rng);
        let y = ark_bls12_377::G1Projective::rand(&mut rng);
        let px = Projective::from_affine(&bls_affine(&x));
        let py = Projective::from_affine(&bls_affine(&y));

        let sum = add(&curve, &px, &py);
        assert_eq!(homogeneous_form_to_affine(&sum).unwrap(), bls_affine(&(x + y)));

        let d = double(&curve, &px);
        assert_eq!(d, add(&curve, &px, &px));
        assert_eq!(homogeneous_form_to_affine(&d).unwrap(), bls_affine(&(x + x)));

        let s = ark_bls12_377::Fr::rand(&mut rng);
        let bits = s.into_repr().to_bits_be();
        let r = mul(&curve, &px, &bits);
        assert_eq!(homogeneous_form_to_affine(&r).unwrap(), bls_affine(&x.mul(s.into_repr())));
    }
}

#[test]
fn ark_field_operations() {
    let a = ArkBn254Fq::from_limbs([7, 0, 0, 0]).unwrap();
    let b = ArkBn254Fq::from_limbs([3, 0, 0, 0]).unwrap();
    assert_eq!(a.add(&b).to_limbs(), [10, 0, 0, 0]);
    assert_eq!(a.sub(&b).to_limbs(), [4, 0, 0, 0]);
    assert_eq!(a.mul(&b).to_limbs(), [21, 0, 0, 0]);
    assert_eq!(ark_bn254_curve().b.to_limbs(), [3, 0, 0, 0]);
    assert_eq!(ArkBn254Fq::from_u64(300).to_limbs(), [300, 0, 0, 0]);
    assert_eq!(Bls12377Fq::from_u64(7).to_limbs(), [7, 0, 0, 0, 0, 0]);
    assert_eq!(a.invert().unwrap().mul(&a), ArkBn254Fq::one());
    assert!(ArkBn254Fq::zero().invert().is_none());
    assert!(ArkBn254Fq::from_limbs([u64::MAX; 4]).is_none());
    let c = Bls12377Fq::from_limbs([5, 0, 0, 0, 0, 0]).unwrap();
    assert_eq!(c.mul(&c).to_limbs(), [25, 0, 0, 0, 0, 0]);
    assert_ne!(Bls12377Fq::zero().sub(&c).to_limbs()[5], 0);
    assert!(Bls12377Fq::zero().is_zero() && !c.is_zero());
}
