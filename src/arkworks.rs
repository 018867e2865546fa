//! Base fields of the BN254 and BLS12-377 curves with their arithmetic
//! computed by arkworks (`ark-ff`, with the curve parameters of `ark-bn254`
//! and `ark-bls12-377`). An element is held as its canonical little-endian
//! 64-bit limbs.
use vstd::prelude::*;

use ark_bls12_377::g1::Parameters as Bls12377G1Parameters;
use ark_bls12_377::Fq as ArkBls12377Fq;
use ark_bn254::g1::Parameters as Bn254G1Parameters;
use ark_bn254::Fq as ArkBn254BaseField;
use ark_ec::SWModelParameters;
use ark_ff::{BigInteger256, BigInteger384, Field as ArkField, PrimeField, Zero};
use vstd::arithmetic::div_mod::lemma_small_mod;

use crate::field::{has_inverse, Field};
use crate::group::Curve;

verus! {

/// The integer that little-endian 64-bit limbs write.
pub open spec fn limbs_value(s: Seq<u64>) -> nat
    decreases s.len(),
{
    if s.len() == 0 {
        0
    } else {
        s[0] as nat + 0x1_0000_0000_0000_0000 * limbs_value(s.drop_first())
    }
}

/// The modulus of the BN254 base field.
pub open spec fn ark_bn254_modulus() -> int {
    let w = 0x1_0000_0000_0000_0000int;
    0x3c208c16d87cfd47 + w * (0x97816a916871ca8d + w * (0xb85045b68181585d + w * (0x30644e72e131a029)))
}

proof fn lemma_bn254_canonical_value(a: [u64; 4])
    requires
        limbs_value(a@) < ark_bn254_modulus(),
    ensures
        limbs_value(a@) as int % ark_bn254_modulus() == limbs_value(a@) as int,
{
    lemma_small_mod(limbs_value(a@), ark_bn254_modulus() as nat);
}

/// Relies on ark-ff's `PrimeField::from_repr` for the BN254 base field,
/// which accepts exactly the integers below the modulus.
#[verifier::external_body]
fn bn254_is_canonical(a: [u64; 4]) -> (r: bool)
    ensures
        r == (limbs_value(a@) < ark_bn254_modulus()),
{
    ArkBn254BaseField::from_repr(BigInteger256(a)).is_some()
}

/// Relies on ark-ff's addition in the BN254 base field: the sum modulo the
/// modulus, read back with `into_repr`.
#[verifier::external_body]
fn bn254_add(a: [u64; 4], b: [u64; 4]) -> (r: [u64; 4])
    requires
        limbs_value(a@) < ark_bn254_modulus(),
        limbs_value(b@) < ark_bn254_modulus(),
    ensures
        limbs_value(r@) == (limbs_value(a@) + limbs_value(b@)) as int % ark_bn254_modulus(),
{
    (ArkBn254BaseField::from_repr(BigInteger256(a)).unwrap() + ArkBn254BaseField::from_repr(BigInteger256(b)).unwrap()).into_repr().0
}

/// Relies on ark-ff's subtraction in the BN254 base field.
#[verifier::external_body]
fn bn254_sub(a: [u64; 4], b: [u64; 4]) -> (r: [u64; 4])
    requires
        limbs_value(a@) < ark_bn254_modulus(),
        limbs_value(b@) < ark_bn254_modulus(),
    ensures
        limbs_value(r@) == (limbs_value(a@) - limbs_value(b@)) % ark_bn254_modulus(),
{
    (ArkBn254BaseField::from_repr(BigInteger256(a)).unwrap() - ArkBn254BaseField::from_repr(BigInteger256(b)).unwrap()).into_repr().0
}

/// Relies on ark-ff's multiplication in the BN254 base field.
#[verifier::external_body]
fn bn254_mul(a: [u64; 4], b: [u64; 4]) -> (r: [u64; 4])
    requires
        limbs_value(a@) < ark_bn254_modulus(),
        limbs_value(b@) < ark_bn254_modulus(),
    ensures
        limbs_value(r@) == (limbs_value(a@) * limbs_value(b@)) as int % ark_bn254_modulus(),
{
    (ArkBn254BaseField::from_repr(BigInteger256(a)).unwrap() * ArkBn254BaseField::from_repr(BigInteger256(b)).unwrap()).into_repr().0
}

/// Relies on ark-ff's `From<u64>` for the BN254 base field.
#[verifier::external_body]
fn bn254_from_u64(n: u64) -> (r: [u64; 4])
    ensures
        limbs_value(r@) == n as int % ark_bn254_modulus(),
{
    ArkBn254BaseField::from(n).into_repr().0
}

/// Relies on ark-ff's `Field::inverse` for the BN254 base field, which
/// fails exactly on zero and otherwise returns the inverse.
#[verifier::external_body]
fn bn254_invert(a: [u64; 4]) -> (r: Option<[u64; 4]>)
    requires
        limbs_value(a@) < ark_bn254_modulus(),
    ensures
        r is None <==> limbs_value(a@) == 0,
        r matches Some(i) ==> limbs_value(i@) < ark_bn254_modulus() && (limbs_value(i@) * limbs_value(a@))
            as int % ark_bn254_modulus() == 1,
{
    ArkBn254BaseField::from_repr(BigInteger256(a)).unwrap().inverse().map(|i: ArkBn254BaseField| i.into_repr().0)
}

/// Relies on ark-ff's `Zero::is_zero` for the BN254 base field.
#[verifier::external_body]
fn bn254_is_zero(a: [u64; 4]) -> (r: bool)
    requires
        limbs_value(a@) < ark_bn254_modulus(),
    ensures
        r == (limbs_value(a@) == 0),
{
    ArkBn254BaseField::from_repr(BigInteger256(a)).unwrap().is_zero()
}

/// Relies on ark's `COEFF_B` of the BN254 G1 parameters, the constant `b` of
/// `y^2 = x^3 + b`, which is 3.
#[verifier::external_body]
fn bn254_coeff_b() -> (r: [u64; 4])
    ensures
        limbs_value(r@) == 3,
{
    <Bn254G1Parameters as SWModelParameters>::COEFF_B.into_repr().0
}

/// An element of the BN254 base field, held as its canonical little-endian
/// 64-bit limbs.
#[derive(Clone, Copy, Debug, PartialEq, Eq)]
pub struct ArkBn254Fq {
    limbs: [u64; 4],
}

impl ArkBn254Fq {
    #[verifier::type_invariant]
    spec fn inv(self) -> bool {
        limbs_value(self.limbs@) < ark_bn254_modulus()
    }

    /// The element that `limbs` write, little-endian; `None` unless they
    /// write an integer below the modulus.
    pub fn from_limbs(limbs: [u64; 4]) -> (r: Option<ArkBn254Fq>)
        ensures
            r is Some <==> limbs_value(limbs@) < ark_bn254_modulus(),
            r matches Some(e) ==> e.value() == limbs_value(limbs@),
    {
        if bn254_is_canonical(limbs) {
            proof {
                lemma_bn254_canonical_value(limbs);
            }
            Some(ArkBn254Fq { limbs })
        } else {
            None
        }
    }

    /// The canonical little-endian limbs.
    pub fn to_limbs(&self) -> (r: [u64; 4])
        ensures
            limbs_value(r@) == self.value(),
    {
        proof {
            use_type_invariant(self);
            lemma_bn254_canonical_value(self.limbs);
        }
        self.limbs
    }

    fn wrap(limbs: [u64; 4]) -> (r: ArkBn254Fq)
        requires
            limbs_value(limbs@) < ark_bn254_modulus(),
        ensures
            r.value() == limbs_value(limbs@),
    {
        proof {
            lemma_bn254_canonical_value(limbs);
        }
        ArkBn254Fq { limbs }
    }
}

impl Field for ArkBn254Fq {
    open spec fn modulus() -> int {
        ark_bn254_modulus()
    }

    closed spec fn value(&self) -> int {
        limbs_value(self.limbs@) as int % ark_bn254_modulus()
    }

    proof fn lemma_value_range(&self) {
    }

    fn zero() -> (r: Self) {
        ArkBn254Fq::wrap(bn254_from_u64(0))
    }

    fn one() -> (r: Self) {
        proof {
            lemma_small_mod(1, ark_bn254_modulus() as nat);
        }
        ArkBn254Fq::wrap(bn254_from_u64(1))
    }

    fn from_u64(n: u64) -> (r: Self) {
        ArkBn254Fq::wrap(bn254_from_u64(n))
    }

    fn add(&self, rhs: &Self) -> (r: Self) {
        proof {
            use_type_invariant(self);
            use_type_invariant(rhs);
            lemma_bn254_canonical_value(self.limbs);
            lemma_bn254_canonical_value(rhs.limbs);
        }
        ArkBn254Fq::wrap(bn254_add(self.limbs, rhs.limbs))
    }

    fn sub(&self, rhs: &Self) -> (r: Self) {
        proof {
            use_type_invariant(self);
            use_type_invariant(rhs);
            lemma_bn254_canonical_value(self.limbs);
            lemma_bn254_canonical_value(rhs.limbs);
        }
        ArkBn254Fq::wrap(bn254_sub(self.limbs, rhs.limbs))
    }

    fn mul(&self, rhs: &Self) -> (r: Self) {
        proof {
            use_type_invariant(self);
            use_type_invariant(rhs);
            lemma_bn254_canonical_value(self.limbs);
            lemma_bn254_canonical_value(rhs.limbs);
        }
        ArkBn254Fq::wrap(bn254_mul(self.limbs, rhs.limbs))
    }

    fn is_zero(&self) -> (r: bool) {
        proof {
            use_type_invariant(self);
            lemma_bn254_canonical_value(self.limbs);
        }
        bn254_is_zero(self.limbs)
    }

    fn invert(&self) -> (r: Option<Self>) {
        proof {
            use_type_invariant(self);
            lemma_bn254_canonical_value(self.limbs);
        }
        match bn254_invert(self.limbs) {
            None => {
                proof {
                    assert forall|i: int| 0 <= i < ark_bn254_modulus() implies #[trigger] ((i * self.value())
                        % ark_bn254_modulus()) != 1 by {
                        assert(i * self.value() == 0);
                    }
                }
                None
            },
            Some(limbs) => {
                let r = ArkBn254Fq::wrap(limbs);
                assert(has_inverse(self.value(), ark_bn254_modulus())) by {
                    assert(0 <= r.value() < ark_bn254_modulus());
                    assert(((r.value() * self.value()) % ark_bn254_modulus()) == 1);
                }
                Some(r)
            },
        }
    }
}

/// The BN254 curve `y^2 = x^3 + 3` over [`ArkBn254Fq`].
pub fn ark_bn254_curve() -> (r: Curve<ArkBn254Fq>)
    ensures
        r.b.value() == 3,
{
    let limbs = bn254_coeff_b();
    proof {
        lemma_bn254_canonical_value(limbs);
    }
    Curve { b: ArkBn254Fq::wrap(limbs) }
}

/// The modulus of the BLS12-377 base field.
pub open spec fn bls12_377_modulus() -> int {
    let w = 0x1_0000_0000_0000_0000int;
    0x8508c00000000001 + w * (0x170b5d4430000000 + w * (0x1ef3622fba094800 + w * (0x1a22d9f300f5138f + w * (0xc63b05c06ca1493b + w * (0x1ae3a4617c510ea)))))
}

proof fn lemma_bls12_377_canonical_value(a: [u64; 6])
    requires
        limbs_value(a@) < bls12_377_modulus(),
    ensures
        limbs_value(a@) as int % bls12_377_modulus() == limbs_value(a@) as int,
{
    lemma_small_mod(limbs_value(a@), bls12_377_modulus() as nat);
}

/// Relies on ark-ff's `PrimeField::from_repr` for the BLS12-377 base field,
/// which accepts exactly the integers below the modulus.
#[verifier::external_body]
fn bls12_377_is_canonical(a: [u64; 6]) -> (r: bool)
    ensures
        r == (limbs_value(a@) < bls12_377_modulus()),
{
    ArkBls12377Fq::from_repr(BigInteger384(a)).is_some()
}

/// Relies on ark-ff's addition in the BLS12-377 base field: the sum modulo the
/// modulus, read back with `into_repr`.
#[verifier::external_body]
fn bls12_377_add(a: [u64; 6], b: [u64; 6]) -> (r: [u64; 6])
    requires
        limbs_value(a@) < bls12_377_modulus(),
        limbs_value(b@) < bls12_377_modulus(),
    ensures
        limbs_value(r@) == (limbs_value(a@) + limbs_value(b@)) as int % bls12_377_modulus(),
{
    (ArkBls12377Fq::from_repr(BigInteger384(a)).unwrap() + ArkBls12377Fq::from_repr(BigInteger384(b)).unwrap()).into_repr().0
}

/// Relies on ark-ff's subtraction in the BLS12-377 base field.
#[verifier::external_body]
fn bls12_377_sub(a: [u64; 6], b: [u64; 6]) -> (r: [u64; 6])
    requires
        limbs_value(a@) < bls12_377_modulus(),
        limbs_value(b@) < bls12_377_modulus(),
    ensures
        limbs_value(r@) == (limbs_value(a@) - limbs_value(b@)) % bls12_377_modulus(),
{
    (ArkBls12377Fq::from_repr(BigInteger384(a)).unwrap() - ArkBls12377Fq::from_repr(BigInteger384(b)).unwrap()).into_repr().0
}

/// Relies on ark-ff's multiplication in the BLS12-377 base field.
#[verifier::external_body]
fn bls12_377_mul(a: [u64; 6], b: [u64; 6]) -> (r: [u64; 6])
    requires
        limbs_value(a@) < bls12_377_modulus(),
        limbs_value(b@) < bls12_377_modulus(),
    ensures
        limbs_value(r@) == (limbs_value(a@) * limbs_value(b@)) as int % bls12_377_modulus(),
{
    (ArkBls12377Fq::from_repr(BigInteger384(a)).unwrap() * ArkBls12377Fq::from_repr(BigInteger384(b)).unwrap()).into_repr().0
}

/// Relies on ark-ff's `From<u64>` for the BLS12-377 base field.
#[verifier::external_body]
fn bls12_377_from_u64(n: u64) -> (r: [u64; 6])
    ensures
        limbs_value(r@) == n as int % bls12_377_modulus(),
{
    ArkBls12377Fq::from(n).into_repr().0
}

/// Relies on ark-ff's `Field::inverse` for the BLS12-377 base field, which
/// fails exactly on zero and otherwise returns the inverse.
#[verifier::external_body]
fn bls12_377_invert(a: [u64; 6]) -> (r: Option<[u64; 6]>)
    requires
        limbs_value(a@) < bls12_377_modulus(),
    ensures
        r is None <==> limbs_value(a@) == 0,
        r matches Some(i) ==> limbs_value(i@) < bls12_377_modulus() && (limbs_value(i@) * limbs_value(a@))
            as int % bls12_377_modulus() == 1,
{
    ArkBls12377Fq::from_repr(BigInteger384(a)).unwrap().inverse().map(|i: ArkBls12377Fq| i.into_repr().0)
}

/// Relies on ark-ff's `Zero::is_zero` for the BLS12-377 base field.
#[verifier::external_body]
fn bls12_377_is_zero(a: [u64; 6]) -> (r: bool)
    requires
        limbs_value(a@) < bls12_377_modulus(),
    ensures
        r == (limbs_value(a@) == 0),
{
    ArkBls12377Fq::from_repr(BigInteger384(a)).unwrap().is_zero()
}

/// Relies on ark's `COEFF_B` of the BLS12-377 G1 parameters, the constant `b` of
/// `y^2 = x^3 + b`, which is 1.
#[verifier::external_body]
fn bls12_377_coeff_b() -> (r: [u64; 6])
    ensures
        limbs_value(r@) == 1,
{
    <Bls12377G1Parameters as SWModelParameters>::COEFF_B.into_repr().0
}

/// An element of the BLS12-377 base field, held as its canonical little-endian
/// 64-bit limbs.
#[derive(Clone, Copy, Debug, PartialEq, Eq)]
pub struct Bls12377Fq {
    limbs: [u64; 6],
}

impl Bls12377Fq {
    #[verifier::type_invariant]
    spec fn inv(self) -> bool {
        limbs_value(self.limbs@) < bls12_377_modulus()
    }

    /// The element that `limbs` write, little-endian; `None` unless they
    /// write an integer below the modulus.
    pub fn from_limbs(limbs: [u64; 6]) -> (r: Option<Bls12377Fq>)
        ensures
            r is Some <==> limbs_value(limbs@) < bls12_377_modulus(),
            r matches Some(e) ==> e.value() == limbs_value(limbs@),
    {
        if bls12_377_is_canonical(limbs) {
            proof {
                lemma_bls12_377_canonical_value(limbs);
            }
            Some(Bls12377Fq { limbs })
        } else {
            None
        }
    }

    /// The canonical little-endian limbs.
    pub fn to_limbs(&self) -> (r: [u64; 6])
        ensures
            limbs_value(r@) == self.value(),
    {
        proof {
            use_type_invariant(self);
            lemma_bls12_377_canonical_value(self.limbs);
        }
        self.limbs
    }

    fn wrap(limbs: [u64; 6]) -> (r: Bls12377Fq)
        requires
            limbs_value(limbs@) < bls12_377_modulus(),
        ensures
            r.value() == limbs_value(limbs@),
    {
        proof {
            lemma_bls12_377_canonical_value(limbs);
        }
        Bls12377Fq { limbs }
    }
}

impl Field for Bls12377Fq {
    open spec fn modulus() -> int {
        bls12_377_modulus()
    }

    closed spec fn value(&self) -> int {
        limbs_value(self.limbs@) as int % bls12_377_modulus()
    }

    proof fn lemma_value_range(&self) {
    }

    fn zero() -> (r: Self) {
        Bls12377Fq::wrap(bls12_377_from_u64(0))
    }

    fn one() -> (r: Self) {
        proof {
            lemma_small_mod(1, bls12_377_modulus() as nat);
        }
        Bls12377Fq::wrap(bls12_377_from_u64(1))
    }

    fn from_u64(n: u64) -> (r: Self) {
        Bls12377Fq::wrap(bls12_377_from_u64(n))
    }

    fn add(&self, rhs: &Self) -> (r: Self) {
        proof {
            use_type_invariant(self);
            use_type_invariant(rhs);
            lemma_bls12_377_canonical_value(self.limbs);
            lemma_bls12_377_canonical_value(rhs.limbs);
        }
        Bls12377Fq::wrap(bls12_377_add(self.limbs, rhs.limbs))
    }

    fn sub(&self, rhs: &Self) -> (r: Self) {
        proof {
            use_type_invariant(self);
            use_type_invariant(rhs);
            lemma_bls12_377_canonical_value(self.limbs);
            lemma_bls12_377_canonical_value(rhs.limbs);
        }
        Bls12377Fq::wrap(bls12_377_sub(self.limbs, rhs.limbs))
    }

    fn mul(&self, rhs: &Self) -> (r: Self) {
        proof {
            use_type_invariant(self);
            use_type_invariant(rhs);
            lemma_bls12_377_canonical_value(self.limbs);
            lemma_bls12_377_canonical_value(rhs.limbs);
        }
        Bls12377Fq::wrap(bls12_377_mul(self.limbs, rhs.limbs))
    }

    fn is_zero(&self) -> (r: bool) {
        proof {
            use_type_invariant(self);
            lemma_bls12_377_canonical_value(self.limbs);
        }
        bls12_377_is_zero(self.limbs)
    }

    fn invert(&self) -> (r: Option<Self>) {
        proof {
            use_type_invariant(self);
            lemma_bls12_377_canonical_value(self.limbs);
        }
        match bls12_377_invert(self.limbs) {
            None => {
                proof {
                    assert forall|i: int| 0 <= i < bls12_377_modulus() implies #[trigger] ((i * self.value())
                        % bls12_377_modulus()) != 1 by {
                        assert(i * self.value() == 0);
                    }
                }
                None
            },
            Some(limbs) => {
                let r = Bls12377Fq::wrap(limbs);
                assert(has_inverse(self.value(), bls12_377_modulus())) by {
                    assert(0 <= r.value() < bls12_377_modulus());
                    assert(((r.value() * self.value()) % bls12_377_modulus()) == 1);
                }
                Some(r)
            },
        }
    }
}

/// The BLS12-377 curve `y^2 = x^3 + 1` over [`Bls12377Fq`].
pub fn bls12_377_curve() -> (r: Curve<Bls12377Fq>)
    ensures
        r.b.value() == 1,
{
    let limbs = bls12_377_coeff_b();
    proof {
        lemma_bls12_377_canonical_value(limbs);
    }
    Curve { b: Bls12377Fq::wrap(limbs) }
}

} // verus!
