//! The complete addition and doubling formulas (Algorithm 7 of Renes,
//! Costello and Batina, for `a = 0`), as integer polynomials and as
//! straight-line field code that computes them modulo the field's modulus.
use vstd::prelude::*;

use vstd::arithmetic::div_mod::{
    lemma_add_mod_noop, lemma_mul_mod_noop, lemma_small_mod, lemma_sub_mod_noop,
};

use crate::field::Field;

verus! {

/// A projective triple of integers.
pub type Triple = (int, int, int);

/// Each coordinate reduced modulo `m`.
pub open spec fn reduce(t: Triple, m: int) -> Triple {
    (t.0 % m, t.1 % m, t.2 % m)
}

/// The complete addition law of `(x1, y1, z1)` and `(x2, y2, z2)` on
/// `y^2 z = x^3 + b z^3`, as integer polynomials in the coordinates and
/// `b3 = 3 b`.
pub open spec fn add_formula(x1: int, y1: int, z1: int, x2: int, y2: int, z2: int, b3: int) -> Triple {
    let t0 = x1 * x2;
    let t1 = y1 * y2;
    let t2 = z1 * z2;
    let t3 = (x1 + y1) * (x2 + y2) - (t0 + t1);
    let t4 = (y1 + z1) * (y2 + z2) - (t1 + t2);
    let u = b3 * ((x1 + z1) * (x2 + z2) - (t0 + t2));
    let s = t0 + t0 + t0;
    let v = b3 * t2;
    let w = t1 + v;
    let d = t1 - v;
    (t3 * d - t4 * u, d * w + u * s, w * t4 + s * t3)
}

/// The complete doubling law of `(x, y, z)`, as integer polynomials.
pub open spec fn double_formula(x: int, y: int, z: int, b3: int) -> Triple {
    let t0 = y * y;
    let z3 = t0 + t0 + t0 + t0 + t0 + t0 + t0 + t0;
    let v = b3 * (z * z);
    let e = t0 - (v + v + v);
    (e * (x * y) + e * (x * y), v * z3 + e * (t0 + v), (y * z) * z3)
}

/// The values of three field elements.
pub open spec fn values<F: Field>(t: (F, F, F)) -> Triple {
    (t.0.value(), t.1.value(), t.2.value())
}

proof fn lemma_canonical<F: Field>(a: F)
    ensures
        F::modulus() > 1,
        a.value() == a.value() % F::modulus(),
{
    a.lemma_value_range();
    lemma_small_mod(a.value() as nat, F::modulus() as nat);
}

/// `a + b`, tracked as the residue of the sum of the integers that `a` and
/// `b` are residues of.
fn add_c<F: Field>(a: &F, b: &F, Ghost(ea): Ghost<int>, Ghost(eb): Ghost<int>) -> (r: F)
    requires
        F::modulus() > 0,
        a.value() == ea % F::modulus(),
        b.value() == eb % F::modulus(),
    ensures
        r.value() == (ea + eb) % F::modulus(),
{
    proof {
        lemma_add_mod_noop(ea, eb, F::modulus());
    }
    a.add(b)
}

fn sub_c<F: Field>(a: &F, b: &F, Ghost(ea): Ghost<int>, Ghost(eb): Ghost<int>) -> (r: F)
    requires
        F::modulus() > 0,
        a.value() == ea % F::modulus(),
        b.value() == eb % F::modulus(),
    ensures
        r.value() == (ea - eb) % F::modulus(),
{
    proof {
        lemma_sub_mod_noop(ea, eb, F::modulus());
    }
    a.sub(b)
}

fn mul_c<F: Field>(a: &F, b: &F, Ghost(ea): Ghost<int>, Ghost(eb): Ghost<int>) -> (r: F)
    requires
        F::modulus() > 0,
        a.value() == ea % F::modulus(),
        b.value() == eb % F::modulus(),
    ensures
        r.value() == (ea * eb) % F::modulus(),
{
    proof {
        lemma_mul_mod_noop(ea, eb, F::modulus());
    }
    a.mul(b)
}

/// The complete addition of two projective triples, with `b3 = 3 b`:
/// twelve general multiplications and two by `b3`, and no case analysis.
pub fn core_add<F: Field>(x1: F, y1: F, z1: F, x2: F, y2: F, z2: F, b3: F) -> (r: (F, F, F))
    ensures
        values(r) == reduce(
            add_formula(
                x1.value(),
                y1.value(),
                z1.value(),
                x2.value(),
                y2.value(),
                z2.value(),
                b3.value(),
            ),
            F::modulus(),
        ),
{
    let ghost (ex1, ey1, ez1) = (x1.value(), y1.value(), z1.value());
    let ghost (ex2, ey2, ez2) = (x2.value(), y2.value(), z2.value());
    let ghost eb3 = b3.value();
    proof {
        lemma_canonical(x1);
        lemma_canonical(y1);
        lemma_canonical(z1);
        lemma_canonical(x2);
        lemma_canonical(y2);
        lemma_canonical(z2);
        lemma_canonical(b3);
    }
    let t0 = mul_c(&x1, &x2, Ghost(ex1), Ghost(ex2));
    let ghost e0 = ex1 * ex2;
    let t1 = mul_c(&y1, &y2, Ghost(ey1), Ghost(ey2));
    let ghost e1 = ey1 * ey2;
    let t2 = mul_c(&z1, &z2, Ghost(ez1), Ghost(ez2));
    let ghost e2 = ez1 * ez2;

    let a = add_c(&x1, &y1, Ghost(ex1), Ghost(ey1));
    let c = add_c(&x2, &y2, Ghost(ex2), Ghost(ey2));
    let t3 = mul_c(&a, &c, Ghost(ex1 + ey1), Ghost(ex2 + ey2));
    let c = add_c(&t0, &t1, Ghost(e0), Ghost(e1));
    let t3 = sub_c(&t3, &c, Ghost((ex1 + ey1) * (ex2 + ey2)), Ghost(e0 + e1));
    let ghost e3 = (ex1 + ey1) * (ex2 + ey2) - (e0 + e1);

    let a = add_c(&y1, &z1, Ghost(ey1), Ghost(ez1));
    let c = add_c(&y2, &z2, Ghost(ey2), Ghost(ez2));
    let t4 = mul_c(&a, &c, Ghost(ey1 + ez1), Ghost(ey2 + ez2));
    let c = add_c(&t1, &t2, Ghost(e1), Ghost(e2));
    let t4 = sub_c(&t4, &c, Ghost((ey1 + ez1) * (ey2 + ez2)), Ghost(e1 + e2));
    let ghost e4 = (ey1 + ez1) * (ey2 + ez2) - (e1 + e2);

    let a = add_c(&x1, &z1, Ghost(ex1), Ghost(ez1));
    let c = add_c(&x2, &z2, Ghost(ex2), Ghost(ez2));
    let y3 = mul_c(&a, &c, Ghost(ex1 + ez1), Ghost(ex2 + ez2));
    let c = add_c(&t0, &t2, Ghost(e0), Ghost(e2));
    let y3 = sub_c(&y3, &c, Ghost((ex1 + ez1) * (ex2 + ez2)), Ghost(e0 + e2));
    let u = mul_c(&b3, &y3, Ghost(eb3), Ghost((ex1 + ez1) * (ex2 + ez2) - (e0 + e2)));
    let ghost eu = eb3 * ((ex1 + ez1) * (ex2 + ez2) - (e0 + e2));

    let a = add_c(&t0, &t0, Ghost(e0), Ghost(e0));
    let s = add_c(&a, &t0, Ghost(e0 + e0), Ghost(e0));
    let ghost es = e0 + e0 + e0;
    let v = mul_c(&b3, &t2, Ghost(eb3), Ghost(e2));
    let ghost ev = eb3 * e2;
    let w = add_c(&t1, &v, Ghost(e1), Ghost(ev));
    let ghost ew = e1 + ev;
    let d = sub_c(&t1, &v, Ghost(e1), Ghost(ev));
    let ghost ed = e1 - ev;

    let a = mul_c(&t3, &d, Ghost(e3), Ghost(ed));
    let c = mul_c(&t4, &u, Ghost(e4), Ghost(eu));
    let x3 = sub_c(&a, &c, Ghost(e3 * ed), Ghost(e4 * eu));

    let a = mul_c(&d, &w, Ghost(ed), Ghost(ew));
    let c = mul_c(&u, &s, Ghost(eu), Ghost(es));
    let y3 = add_c(&a, &c, Ghost(ed * ew), Ghost(eu * es));

    let a = mul_c(&w, &t4, Ghost(ew), Ghost(e4));
    let c = mul_c(&s, &t3, Ghost(es), Ghost(e3));
    let z3 = add_c(&a, &c, Ghost(ew * e4), Ghost(es * e3));
    (x3, y3, z3)
}

/// The complete doubling of a projective triple, with `b3 = 3 b`: the
/// addition law specialised to equal inputs, with one multiplication by `b3`.
pub fn core_double<F: Field>(x: F, y: F, z: F, b3: F) -> (r: (F, F, F))
    ensures
        values(r) == reduce(double_formula(x.value(), y.value(), z.value(), b3.value()), F::modulus()),
{
    let ghost (ex, ey, ez, eb3) = (x.value(), y.value(), z.value(), b3.value());
    proof {
        lemma_canonical(x);
        lemma_canonical(y);
        lemma_canonical(z);
        lemma_canonical(b3);
    }
    let t0 = mul_c(&y, &y, Ghost(ey), Ghost(ey));
    let ghost e0 = ey * ey;
    let a = add_c(&t0, &t0, Ghost(e0), Ghost(e0));
    let a = add_c(&a, &a, Ghost(e0 + e0), Ghost(e0 + e0));
    let z3 = add_c(&a, &a, Ghost(e0 + e0 + (e0 + e0)), Ghost(e0 + e0 + (e0 + e0)));
    let ghost ez3 = e0 + e0 + (e0 + e0) + (e0 + e0 + (e0 + e0));
    assert(ez3 == e0 + e0 + e0 + e0 + e0 + e0 + e0 + e0);

    let t1 = mul_c(&y, &z, Ghost(ey), Ghost(ez));
    let t2 = mul_c(&z, &z, Ghost(ez), Ghost(ez));
    let v = mul_c(&b3, &t2, Ghost(eb3), Ghost(ez * ez));
    let ghost ev = eb3 * (ez * ez);
    let x3 = mul_c(&v, &z3, Ghost(ev), Ghost(ez3));
    let y3 = add_c(&t0, &v, Ghost(e0), Ghost(ev));
    let z3 = mul_c(&t1, &z3, Ghost(ey * ez), Ghost(ez3));

    let a = add_c(&v, &v, Ghost(ev), Ghost(ev));
    let a = add_c(&a, &v, Ghost(ev + ev), Ghost(ev));
    let e = sub_c(&t0, &a, Ghost(e0), Ghost(ev + ev + ev));
    let ghost ee = e0 - (ev + ev + ev);
    let y3 = mul_c(&e, &y3, Ghost(ee), Ghost(e0 + ev));
    let y3 = add_c(&x3, &y3, Ghost(ev * ez3), Ghost(ee * (e0 + ev)));

    let t1 = mul_c(&x, &y, Ghost(ex), Ghost(ey));
    let a = mul_c(&e, &t1, Ghost(ee), Ghost(ex * ey));
    let x3 = add_c(&a, &a, Ghost(ee * (ex * ey)), Ghost(ee * (ex * ey)));
    (x3, y3, z3)
}

} // verus!
