//! Points, the group operations built on the complete formulas, the
//! double-and-add scalar multiplication, the naive multi-scalar
//! multiplication and the normalisation of projective points.
use vstd::prelude::*;

use vstd::arithmetic::div_mod::{lemma_mul_mod_noop_left, lemma_small_mod};

use crate::field::{has_inverse, Field};
use crate::formulas::{add_formula, core_add, core_double, double_formula, reduce, Triple};

verus! {

/// A point `(x, y, z)` in homogeneous projective coordinates, standing for
/// the affine point `(x / z, y / z)`; the identity is `(0, 1, 0)` up to scaling.
#[derive(Clone, Copy, Debug, PartialEq, Eq)]
pub struct Projective<F> {
    pub x: F,
    pub y: F,
    pub z: F,
}

/// A point in affine coordinates.
#[derive(Clone, Copy, Debug, PartialEq, Eq)]
pub struct Affine<F> {
    pub x: F,
    pub y: F,
}

/// A curve `y^2 = x^3 + b` over the field `F`.
#[derive(Clone, Copy, Debug)]
pub struct Curve<F> {
    pub b: F,
}

/// Why a point operation has no result.
#[derive(Clone, Copy, Debug, PartialEq, Eq)]
pub enum CurveError {
    /// The point's `z` coordinate has no inverse: it is the identity, which
    /// has no affine form.
    UndefinedInversion,
    /// A multi-scalar multiplication of no terms.
    EmptyInputSet,
    /// As many points as scalars are needed.
    LengthMismatch,
}

impl<F: Field> View for Projective<F> {
    type V = Triple;

    open spec fn view(&self) -> Triple {
        (self.x.value(), self.y.value(), self.z.value())
    }
}

/// The identity `(0, 1, 0)`.
pub open spec fn identity_triple() -> Triple {
    (0, 1, 0)
}

/// `3 b` in the field.
pub open spec fn b3_value(m: int, b: int) -> int {
    (3 * b) % m
}

/// The sum of `p` and `q` by the complete addition law, over the field of
/// `m` elements, on the curve with constant `b`.
pub open spec fn add_spec(m: int, b: int, p: Triple, q: Triple) -> Triple {
    reduce(add_formula(p.0, p.1, p.2, q.0, q.1, q.2, b3_value(m, b)), m)
}

/// The double of `p` by the complete doubling law.
pub open spec fn double_spec(m: int, b: int, p: Triple) -> Triple {
    reduce(double_formula(p.0, p.1, p.2, b3_value(m, b)), m)
}

/// The integer that a big-endian sequence of bits writes.
pub open spec fn bits_value(s: Seq<bool>) -> nat
    decreases s.len(),
{
    if s.len() == 0 {
        0
    } else {
        2 * bits_value(s.drop_last()) + if s.last() {
            1nat
        } else {
            0nat
        }
    }
}

/// `n p` by the binary method: `1 p = p`, `(2k) p = double(k p)` and
/// `(2k + 1) p = double(k p) + p`; `0 p` is the identity.
pub open spec fn mul_spec(m: int, b: int, p: Triple, n: nat) -> Triple
    decreases n,
{
    if n == 0 {
        identity_triple()
    } else if n == 1 {
        p
    } else {
        let h = double_spec(m, b, mul_spec(m, b, p, n / 2));
        if n % 2 == 1 {
            add_spec(m, b, h, p)
        } else {
            h
        }
    }
}

/// The sum of the first `k` products `scalars[i] points[i]`, added from the
/// first term on: `(s0 p0 + s1 p1) + s2 p2 + ...`.
pub open spec fn msm_spec<F: Field>(b: int, points: Seq<Projective<F>>, scalars: Seq<Vec<bool>>, k: nat) -> Triple
    decreases k,
{
    let m = F::modulus();
    if k <= 1 {
        mul_spec(m, b, points[0]@, bits_value(scalars[0]@))
    } else {
        add_spec(
            m,
            b,
            msm_spec(b, points, scalars, (k - 1) as nat),
            mul_spec(m, b, points[k - 1]@, bits_value(scalars[k - 1]@)),
        )
    }
}

impl<F: Field> Projective<F> {
    /// The identity `(0, 1, 0)`.
    pub fn identity() -> (r: Projective<F>)
        ensures
            r@ == identity_triple(),
    {
        Projective { x: F::zero(), y: F::one(), z: F::zero() }
    }

    /// The affine point `(x, y)` as `(x, y, 1)`.
    pub fn from_affine(a: &Affine<F>) -> (r: Projective<F>)
        ensures
            r@ == (a.x.value(), a.y.value(), 1int),
    {
        Projective { x: a.x, y: a.y, z: F::one() }
    }
}

fn b3_of<F: Field>(curve: &Curve<F>) -> (r: F)
    ensures
        r.value() == b3_value(F::modulus(), curve.b.value()),
{
    proof {
        curve.b.lemma_value_range();
        lemma_mul_mod_noop_left(3, curve.b.value(), F::modulus());
    }
    F::from_u64(3).mul(&curve.b)
}

/// `p1 + p2` by the complete addition law.
pub fn add<F: Field>(curve: &Curve<F>, p1: &Projective<F>, p2: &Projective<F>) -> (r: Projective<F>)
    ensures
        r@ == add_spec(F::modulus(), curve.b.value(), p1@, p2@),
{
    let b3 = b3_of(curve);
    let (x3, y3, z3) = core_add(p1.x, p1.y, p1.z, p2.x, p2.y, p2.z, b3);
    Projective { x: x3, y: y3, z: z3 }
}

/// `2 p` by the complete doubling law.
pub fn double<F: Field>(curve: &Curve<F>, p: &Projective<F>) -> (r: Projective<F>)
    ensures
        r@ == double_spec(F::modulus(), curve.b.value(), p@),
{
    let b3 = b3_of(curve);
    let (x3, y3, z3) = core_double(p.x, p.y, p.z, b3);
    Projective { x: x3, y: y3, z: z3 }
}

proof fn lemma_bits_value_push(s: Seq<bool>, i: int)
    requires
        0 <= i < s.len(),
    ensures
        bits_value(s.subrange(0, i + 1)) == 2 * bits_value(s.subrange(0, i)) + if s[i] {
            1nat
        } else {
            0nat
        },
{
    assert(s.subrange(0, i + 1).drop_last() =~= s.subrange(0, i));
}

/// `s p` by double-and-add over the big-endian bits of `s`, from its most
/// significant set bit on; the identity where `s` is zero.
pub fn mul<F: Field>(curve: &Curve<F>, base: &Projective<F>, scalar: &[bool]) -> (r: Projective<F>)
    ensures
        r@ == mul_spec(F::modulus(), curve.b.value(), base@, bits_value(scalar@)),
{
    let ghost m = F::modulus();
    let ghost b = curve.b.value();
    let mut acc: Option<Projective<F>> = None;
    let mut i: usize = 0;
    while i < scalar.len()
        invariant
            m == F::modulus(),
            b == curve.b.value(),
            i <= scalar.len(),
            acc is None <==> bits_value(scalar@.subrange(0, i as int)) == 0,
            acc matches Some(a) ==> a@ == mul_spec(m, b, base@, bits_value(scalar@.subrange(0, i as int))),
        decreases scalar.len() - i,
    {
        proof {
            lemma_bits_value_push(scalar@, i as int);
        }
        let ghost v = bits_value(scalar@.subrange(0, i as int));
        let ghost v2 = bits_value(scalar@.subrange(0, i + 1));
        let bit = scalar[i];
        proof {
            if v > 0 {
                assert(v2 >= 2 && v2 / 2 == v && v2 % 2 == if bit {
                    1int
                } else {
                    0int
                });
            } else {
                assert(v2 == if bit {
                    1nat
                } else {
                    0nat
                });
            }
        }
        acc = match acc {
            Some(a) => {
                let d = double(curve, &a);
                if bit {
                    Some(self::add(curve, &d, base))
                } else {
                    Some(d)
                }
            },
            None => if bit {
                Some(*base)
            } else {
                None
            },
        };
        i = i + 1;
    }
    proof {
        assert(scalar@.subrange(0, scalar@.len() as int) =~= scalar@);
    }
    match acc {
        Some(a) => a,
        None => Projective::identity(),
    }
}

/// `scalars[0] points[0] + ... + scalars[n-1] points[n-1]`, each product by
/// [`mul`] and the sum by [`add`] from the first term on.
pub fn naive_msm<F: Field>(curve: &Curve<F>, points: &[Projective<F>], scalars: &[Vec<bool>]) -> (r: Result<Projective<F>, CurveError>)
    ensures
        points@.len() != scalars@.len() <==> r == Err::<Projective<F>, CurveError>(CurveError::LengthMismatch),
        points@.len() == scalars@.len() && points@.len() == 0 <==> r == Err::<Projective<F>, CurveError>(CurveError::EmptyInputSet),
        r is Ok <==> points@.len() == scalars@.len() && points@.len() > 0,
        r matches Ok(p) ==> p@ == msm_spec(curve.b.value(), points@, scalars@, points@.len()),
{
    if points.len() != scalars.len() {
        return Err(CurveError::LengthMismatch);
    }
    if points.len() == 0 {
        return Err(CurveError::EmptyInputSet);
    }
    let mut res = self::mul(curve, &points[0], scalars[0].as_slice());
    let mut i: usize = 1;
    while i < points.len()
        invariant
            1 <= i <= points.len(),
            points@.len() == scalars@.len(),
            res@ == msm_spec(curve.b.value(), points@, scalars@, i as nat),
        decreases points.len() - i,
    {
        let term = self::mul(curve, &points[i], scalars[i].as_slice());
        res = self::add(curve, &res, &term);
        i = i + 1;
    }
    Ok(res)
}

proof fn lemma_zero_has_no_inverse(m: int)
    requires
        m > 1,
    ensures
        !has_inverse(0, m),
{
    assert forall|i: int| 0 <= i < m implies #[trigger] ((i * 0) % m) != 1 by {
        assert(i * 0 == 0);
    }
}

/// `a z^-1` for `z` with `zi z = 1`: the `x` with `x z = a`.
proof fn lemma_scaled_by_inverse(m: int, a: int, z: int, zi: int)
    requires
        m > 1,
        0 <= a < m,
        (zi * z) % m == 1,
    ensures
        (((a * zi) % m) * z) % m == a,
{
    lemma_mul_mod_noop_left(a * zi, z, m);
    assert((a * zi) * z == a * (zi * z)) by (nonlinear_arith);
    vstd::arithmetic::div_mod::lemma_mul_mod_noop_right(a, zi * z, m);
    lemma_small_mod(a as nat, m as nat);
}

/// The affine form `(x / z, y / z)` of a projective point, by one inversion.
pub fn homogeneous_form_to_affine<F: Field>(p: &Projective<F>) -> (r: Result<Affine<F>, CurveError>)
    ensures
        r is Err <==> !has_inverse(p@.2, F::modulus()),
        p@.2 == 0 ==> r is Err,
        r is Err ==> r == Err::<Affine<F>, CurveError>(CurveError::UndefinedInversion),
        r matches Ok(a) ==> (a.x.value() * p@.2) % F::modulus() == p@.0 && (a.y.value() * p@.2)
            % F::modulus() == p@.1,
{
    proof {
        p.x.lemma_value_range();
        p.y.lemma_value_range();
        lemma_zero_has_no_inverse(F::modulus());
    }
    match p.z.invert() {
        None => Err(CurveError::UndefinedInversion),
        Some(zi) => {
            proof {
                lemma_scaled_by_inverse(F::modulus(), p@.0, p@.2, zi.value());
                lemma_scaled_by_inverse(F::modulus(), p@.1, p@.2, zi.value());
            }
            Ok(Affine { x: p.x.mul(&zi), y: p.y.mul(&zi) })
        },
    }
}

/// The representative `(x / z, y / z, 1)` of `(x, y, z)`, which reads the
/// same in homogeneous and in Jacobian coordinates.
pub fn homogeneous_to_jacobian<F: Field>(x: F, y: F, z: F) -> (r: Result<(F, F, F), CurveError>)
    ensures
        r is Err <==> !has_inverse(z.value(), F::modulus()),
        z.value() == 0 ==> r is Err,
        r is Err ==> r == Err::<(F, F, F), CurveError>(CurveError::UndefinedInversion),
        r matches Ok(t) ==> (t.0.value() * z.value()) % F::modulus() == x.value() && (t.1.value()
            * z.value()) % F::modulus() == y.value() && t.2.value() == 1,
{
    match homogeneous_form_to_affine(&Projective { x, y, z }) {
        Err(e) => Err(e),
        Ok(a) => Ok((a.x, a.y, F::one())),
    }
}

} // verus!
