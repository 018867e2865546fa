//! The base field of the BN254 curve `y^2 = x^3 + 3`, with its arithmetic
//! computed by halo2curves' `bn256::Fq`. An element is held as its canonical
//! 32-byte little-endian encoding.
use vstd::prelude::*;

use halo2curves::bn256::{Fq, G1};
use halo2curves::ff::{Field as FfField, PrimeField};
use halo2curves::CurveExt;

use crate::field::{has_inverse, Field};
use crate::group::Curve;

verus! {

/// The modulus `q` of the BN254 base field.
pub open spec fn bn254_modulus() -> int {
    let w = 0x1_0000_0000_0000_0000int;
    0x3c208c16d87cfd47 + w * (0x97816a916871ca8d + w * (0xb85045b68181585d + w
        * 0x30644e72e131a029))
}

/// The integer that a little-endian byte sequence writes.
pub open spec fn le_value(s: Seq<u8>) -> nat
    decreases s.len(),
{
    if s.len() == 0 {
        0
    } else {
        s[0] as nat + 256 * le_value(s.drop_first())
    }
}

/// Whether `a` is the canonical encoding of an element.
pub open spec fn canonical(a: [u8; 32]) -> bool {
    le_value(a@) < bn254_modulus()
}

proof fn lemma_canonical_value(a: [u8; 32])
    requires
        canonical(a),
    ensures
        le_value(a@) as int % bn254_modulus() == le_value(a@) as int,
{
    vstd::arithmetic::div_mod::lemma_small_mod(le_value(a@), bn254_modulus() as nat);
}

/// Relies on halo2curves' `Fq::from_repr`, which accepts exactly the
/// encodings of integers below the modulus.
#[verifier::external_body]
fn fq_is_canonical(a: [u8; 32]) -> (r: bool)
    ensures
        r == canonical(a),
{
    bool::from(Fq::from_repr(a).is_some())
}

/// Relies on halo2curves' `Fq` addition: the sum modulo `q`, encoded by `to_repr`.
#[verifier::external_body]
fn fq_add(a: [u8; 32], b: [u8; 32]) -> (r: [u8; 32])
    requires
        canonical(a),
        canonical(b),
    ensures
        le_value(r@) == (le_value(a@) + le_value(b@)) as int % bn254_modulus(),
{
    (Fq::from_repr(a).unwrap() + Fq::from_repr(b).unwrap()).to_repr()
}

/// Relies on halo2curves' `Fq` subtraction: the difference modulo `q`.
#[verifier::external_body]
fn fq_sub(a: [u8; 32], b: [u8; 32]) -> (r: [u8; 32])
    requires
        canonical(a),
        canonical(b),
    ensures
        le_value(r@) == (le_value(a@) - le_value(b@)) % bn254_modulus(),
{
    (Fq::from_repr(a).unwrap() - Fq::from_repr(b).unwrap()).to_repr()
}

/// Relies on halo2curves' `Fq` multiplication: the product modulo `q`.
#[verifier::external_body]
fn fq_mul(a: [u8; 32], b: [u8; 32]) -> (r: [u8; 32])
    requires
        canonical(a),
        canonical(b),
    ensures
        le_value(r@) == (le_value(a@) * le_value(b@)) as int % bn254_modulus(),
{
    (Fq::from_repr(a).unwrap() * Fq::from_repr(b).unwrap()).to_repr()
}

/// Relies on halo2curves' `Fq::from(u64)`: the residue of `n`.
#[verifier::external_body]
fn fq_from_u64(n: u64) -> (r: [u8; 32])
    ensures
        le_value(r@) == n as int % bn254_modulus(),
{
    Fq::from(n).to_repr()
}

/// Relies on halo2curves' `Fq::invert`, which fails exactly on zero and
/// otherwise returns the inverse modulo `q`.
#[verifier::external_body]
fn fq_invert(a: [u8; 32]) -> (r: Option<[u8; 32]>)
    requires
        canonical(a),
    ensures
        r is None <==> le_value(a@) == 0,
        r matches Some(i) ==> canonical(i) && (le_value(i@) * le_value(a@)) as int % bn254_modulus() == 1,
{
    Option::<Fq>::from(Fq::from_repr(a).unwrap().invert()).map(|i: Fq| i.to_repr())
}

/// Relies on halo2curves' `Fq::is_zero`.
#[verifier::external_body]
fn fq_is_zero(a: [u8; 32]) -> (r: bool)
    requires
        canonical(a),
    ensures
        r == (le_value(a@) == 0),
{
    bool::from(Fq::from_repr(a).unwrap().is_zero())
}

/// Relies on halo2curves' `G1::b()`, the constant of `y^2 = x^3 + 3`.
#[verifier::external_body]
fn g1_b() -> (r: [u8; 32])
    ensures
        le_value(r@) == 3,
{
    G1::b().to_repr()
}

/// An element of the BN254 base field.
#[derive(Clone, Copy, Debug, PartialEq, Eq)]
pub struct Bn254Fq {
    repr: [u8; 32],
}

impl Bn254Fq {
    #[verifier::type_invariant]
    spec fn inv(self) -> bool {
        canonical(self.repr)
    }

    /// The element that `repr` encodes, little-endian; `None` unless
    /// `repr` writes an integer below the modulus.
    pub fn from_repr(repr: [u8; 32]) -> (r: Option<Bn254Fq>)
        ensures
            r is Some <==> canonical(repr),
            r matches Some(e) ==> e.value() == le_value(repr@),
    {
        if fq_is_canonical(repr) {
            proof {
                lemma_canonical_value(repr);
            }
            Some(Bn254Fq { repr })
        } else {
            None
        }
    }

    /// The canonical little-endian encoding.
    pub fn to_repr(&self) -> (r: [u8; 32])
        ensures
            le_value(r@) == self.value(),
    {
        proof {
            use_type_invariant(self);
            lemma_canonical_value(self.repr);
        }
        self.repr
    }
}

impl Field for Bn254Fq {
    open spec fn modulus() -> int {
        bn254_modulus()
    }

    closed spec fn value(&self) -> int {
        le_value(self.repr@) as int % bn254_modulus()
    }

    proof fn lemma_value_range(&self) {
    }

    fn zero() -> (r: Self) {
        let repr = fq_from_u64(0);
        proof {
            lemma_canonical_value(repr);
        }
        Bn254Fq { repr }
    }

    fn one() -> (r: Self) {
        let repr = fq_from_u64(1);
        proof {
            vstd::arithmetic::div_mod::lemma_small_mod(1, bn254_modulus() as nat);
            lemma_canonical_value(repr);
        }
        Bn254Fq { repr }
    }

    fn from_u64(n: u64) -> (r: Self) {
        let repr = fq_from_u64(n);
        proof {
            lemma_canonical_value(repr);
        }
        Bn254Fq { repr }
    }

    fn add(&self, rhs: &Self) -> (r: Self) {
        proof {
            use_type_invariant(self);
            use_type_invariant(rhs);
            lemma_canonical_value(self.repr);
            lemma_canonical_value(rhs.repr);
        }
        let repr = fq_add(self.repr, rhs.repr);
        proof {
            lemma_canonical_value(repr);
        }
        Bn254Fq { repr }
    }

    fn sub(&self, rhs: &Self) -> (r: Self) {
        proof {
            use_type_invariant(self);
            use_type_invariant(rhs);
            lemma_canonical_value(self.repr);
            lemma_canonical_value(rhs.repr);
        }
        let repr = fq_sub(self.repr, rhs.repr);
        proof {
            lemma_canonical_value(repr);
        }
        Bn254Fq { repr }
    }

    fn mul(&self, rhs: &Self) -> (r: Self) {
        proof {
            use_type_invariant(self);
            use_type_invariant(rhs);
            lemma_canonical_value(self.repr);
            lemma_canonical_value(rhs.repr);
        }
        let repr = fq_mul(self.repr, rhs.repr);
        proof {
            lemma_canonical_value(repr);
        }
        Bn254Fq { repr }
    }

    fn is_zero(&self) -> (r: bool) {
        proof {
            use_type_invariant(self);
            lemma_canonical_value(self.repr);
        }
        fq_is_zero(self.repr)
    }

    fn invert(&self) -> (r: Option<Self>) {
        proof {
            use_type_invariant(self);
            lemma_canonical_value(self.repr);
        }
        match fq_invert(self.repr) {
            None => {
                proof {
                    assert forall|i: int| 0 <= i < bn254_modulus() implies #[trigger] ((i
                        * self.value()) % bn254_modulus()) != 1 by {
                        assert(i * self.value() == 0);
                    }
                }
                None
            },
            Some(repr) => {
                proof {
                    lemma_canonical_value(repr);
                }
                let r = Bn254Fq { repr };
                assert(has_inverse(self.value(), bn254_modulus())) by {
                    assert(0 <= r.value() < bn254_modulus());
                    assert(((r.value() * self.value()) % bn254_modulus()) == 1);
                }
                Some(r)
            },
        }
    }
}

/// The BN254 curve `y^2 = x^3 + 3`.
pub fn bn254_curve() -> (r: Curve<Bn254Fq>)
    ensures
        r.b.value() == 3,
{
    let repr = g1_b();
    proof {
        lemma_canonical_value(repr);
    }
    Curve { b: Bn254Fq { repr } }
}

} // verus!
