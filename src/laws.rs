//! Laws of the complete formulas over the field of `m` elements: doubling
//! is exactly addition of a point to itself and keeps points on the curve,
//! addition is commutative, both laws commute with projective scaling, the
//! identity and inverses behave as in the group, and scalar multiples do not
//! depend on leading zero bits.
use vstd::prelude::*;

use vstd::arithmetic::div_mod::{
    lemma_add_mod_noop, lemma_mod_twice, lemma_mul_mod_noop, lemma_mul_mod_noop_right,
    lemma_small_mod, lemma_sub_mod_noop,
};

use crate::formulas::{add_formula, double_formula, reduce, Triple};
use crate::group::{add_spec, b3_value, bits_value, double_spec, identity_triple, mul_spec};

verus! {

/// `y^2 z - x^3 - b z^3`, which vanishes exactly on the curve `y^2 = x^3 + b`
/// in homogeneous coordinates.
pub open spec fn curve_poly(b: int, x: int, y: int, z: int) -> int {
    y * y * z - x * x * x - b * z * z * z
}

/// Whether `p` satisfies the homogeneous curve equation modulo `m`.
pub open spec fn on_curve(m: int, b: int, p: Triple) -> bool {
    curve_poly(b, p.0, p.1, p.2) % m == 0
}

proof fn lemma_congruent_add(m: int, a: int, ap: int, c: int, cp: int)
    requires
        m > 0,
        a % m == ap % m,
        c % m == cp % m,
    ensures
        (a + c) % m == (ap + cp) % m,
{
    lemma_add_mod_noop(a, c, m);
    lemma_add_mod_noop(ap, cp, m);
}

proof fn lemma_congruent_sub(m: int, a: int, ap: int, c: int, cp: int)
    requires
        m > 0,
        a % m == ap % m,
        c % m == cp % m,
    ensures
        (a - c) % m == (ap - cp) % m,
{
    lemma_sub_mod_noop(a, c, m);
    lemma_sub_mod_noop(ap, cp, m);
}

proof fn lemma_congruent_mul(m: int, a: int, ap: int, c: int, cp: int)
    requires
        m > 0,
        a % m == ap % m,
        c % m == cp % m,
    ensures
        (a * c) % m == (ap * cp) % m,
{
    lemma_mul_mod_noop(a, c, m);
    lemma_mul_mod_noop(ap, cp, m);
}

/// The addition law reduced modulo `m` depends on its inputs modulo `m` only.
proof fn lemma_add_formula_congruent(
    m: int,
    x1: int,
    y1: int,
    z1: int,
    x2: int,
    y2: int,
    z2: int,
    b3: int,
    x1p: int,
    y1p: int,
    z1p: int,
    x2p: int,
    y2p: int,
    z2p: int,
    b3p: int,
)
    requires
        m > 0,
        x1 % m == x1p % m,
        y1 % m == y1p % m,
        z1 % m == z1p % m,
        x2 % m == x2p % m,
        y2 % m == y2p % m,
        z2 % m == z2p % m,
        b3 % m == b3p % m,
    ensures
        reduce(add_formula(x1, y1, z1, x2, y2, z2, b3), m) == reduce(
            add_formula(x1p, y1p, z1p, x2p, y2p, z2p, b3p),
            m,
        ),
{
    let t0 = x1 * x2;
    let t0p = x1p * x2p;
    lemma_congruent_mul(m, x1, x1p, x2, x2p);
    let t1 = y1 * y2;
    let t1p = y1p * y2p;
    lemma_congruent_mul(m, y1, y1p, y2, y2p);
    let t2 = z1 * z2;
    let t2p = z1p * z2p;
    lemma_congruent_mul(m, z1, z1p, z2, z2p);
    let h1 = x1 + y1;
    let h1p = x1p + y1p;
    lemma_congruent_add(m, x1, x1p, y1, y1p);
    let h2 = x2 + y2;
    let h2p = x2p + y2p;
    lemma_congruent_add(m, x2, x2p, y2, y2p);
    let h3 = h1 * h2;
    let h3p = h1p * h2p;
    lemma_congruent_mul(m, h1, h1p, h2, h2p);
    let h4 = t0 + t1;
    let h4p = t0p + t1p;
    lemma_congruent_add(m, t0, t0p, t1, t1p);
    let t3 = h3 - h4;
    let t3p = h3p - h4p;
    lemma_congruent_sub(m, h3, h3p, h4, h4p);
    let q1 = y1 + z1;
    let q1p = y1p + z1p;
    lemma_congruent_add(m, y1, y1p, z1, z1p);
    let q2 = y2 + z2;
    let q2p = y2p + z2p;
    lemma_congruent_add(m, y2, y2p, z2, z2p);
    let q3 = q1 * q2;
    let q3p = q1p * q2p;
    lemma_congruent_mul(m, q1, q1p, q2, q2p);
    let q4 = t1 + t2;
    let q4p = t1p + t2p;
    lemma_congruent_add(m, t1, t1p, t2, t2p);
    let t4 = q3 - q4;
    let t4p = q3p - q4p;
    lemma_congruent_sub(m, q3, q3p, q4, q4p);
    let r1 = x1 + z1;
    let r1p = x1p + z1p;
    lemma_congruent_add(m, x1, x1p, z1, z1p);
    let r2 = x2 + z2;
    let r2p = x2p + z2p;
    lemma_congruent_add(m, x2, x2p, z2, z2p);
    let r3 = r1 * r2;
    let r3p = r1p * r2p;
    lemma_congruent_mul(m, r1, r1p, r2, r2p);
    let r4 = t0 + t2;
    let r4p = t0p + t2p;
    lemma_congruent_add(m, t0, t0p, t2, t2p);
    let r5 = r3 - r4;
    let r5p = r3p - r4p;
    lemma_congruent_sub(m, r3, r3p, r4, r4p);
    let u = b3 * r5;
    let up = b3p * r5p;
    lemma_congruent_mul(m, b3, b3p, r5, r5p);
    let s1 = t0 + t0;
    let s1p = t0p + t0p;
    lemma_congruent_add(m, t0, t0p, t0, t0p);
    let s = s1 + t0;
    let sp = s1p + t0p;
    lemma_congruent_add(m, s1, s1p, t0, t0p);
    let v = b3 * t2;
    let vp = b3p * t2p;
    lemma_congruent_mul(m, b3, b3p, t2, t2p);
    let w = t1 + v;
    let wp = t1p + vp;
    lemma_congruent_add(m, t1, t1p, v, vp);
    let d = t1 - v;
    let dp = t1p - vp;
    lemma_congruent_sub(m, t1, t1p, v, vp);
    let a1 = t3 * d;
    let a1p = t3p * dp;
    lemma_congruent_mul(m, t3, t3p, d, dp);
    let a2 = t4 * u;
    let a2p = t4p * up;
    lemma_congruent_mul(m, t4, t4p, u, up);
    let rx = a1 - a2;
    let rxp = a1p - a2p;
    lemma_congruent_sub(m, a1, a1p, a2, a2p);
    let c1 = d * w;
    let c1p = dp * wp;
    lemma_congruent_mul(m, d, dp, w, wp);
    let c2 = u * s;
    let c2p = up * sp;
    lemma_congruent_mul(m, u, up, s, sp);
    let ry = c1 + c2;
    let ryp = c1p + c2p;
    lemma_congruent_add(m, c1, c1p, c2, c2p);
    let e1 = w * t4;
    let e1p = wp * t4p;
    lemma_congruent_mul(m, w, wp, t4, t4p);
    let e2 = s * t3;
    let e2p = sp * t3p;
    lemma_congruent_mul(m, s, sp, t3, t3p);
    let rz = e1 + e2;
    let rzp = e1p + e2p;
    lemma_congruent_add(m, e1, e1p, e2, e2p);
}

/// The doubling law reduced modulo `m` depends on its inputs modulo `m` only.
proof fn lemma_double_formula_congruent(
    m: int,
    x: int,
    y: int,
    z: int,
    b3: int,
    xp: int,
    yp: int,
    zp: int,
    b3p: int,
)
    requires
        m > 0,
        x % m == xp % m,
        y % m == yp % m,
        z % m == zp % m,
        b3 % m == b3p % m,
    ensures
        reduce(double_formula(x, y, z, b3), m) == reduce(double_formula(xp, yp, zp, b3p), m),
{
    let t0 = y * y;
    let t0p = yp * yp;
    lemma_congruent_mul(m, y, yp, y, yp);
    let k1 = t0 + t0;
    let k1p = t0p + t0p;
    lemma_congruent_add(m, t0, t0p, t0, t0p);
    let k2 = k1 + t0;
    let k2p = k1p + t0p;
    lemma_congruent_add(m, k1, k1p, t0, t0p);
    let k3 = k2 + t0;
    let k3p = k2p + t0p;
    lemma_congruent_add(m, k2, k2p, t0, t0p);
    let k4 = k3 + t0;
    let k4p = k3p + t0p;
    lemma_congruent_add(m, k3, k3p, t0, t0p);
    let k5 = k4 + t0;
    let k5p = k4p + t0p;
    lemma_congruent_add(m, k4, k4p, t0, t0p);
    let k6 = k5 + t0;
    let k6p = k5p + t0p;
    lemma_congruent_add(m, k5, k5p, t0, t0p);
    let z3 = k6 + t0;
    let z3p = k6p + t0p;
    lemma_congruent_add(m, k6, k6p, t0, t0p);
    let zz = z * z;
    let zzp = zp * zp;
    lemma_congruent_mul(m, z, zp, z, zp);
    let v = b3 * zz;
    let vp = b3p * zzp;
    lemma_congruent_mul(m, b3, b3p, zz, zzp);
    let v2 = v + v;
    let v2p = vp + vp;
    lemma_congruent_add(m, v, vp, v, vp);
    let v3 = v2 + v;
    let v3p = v2p + vp;
    lemma_congruent_add(m, v2, v2p, v, vp);
    let e = t0 - v3;
    let ep = t0p - v3p;
    lemma_congruent_sub(m, t0, t0p, v3, v3p);
    let xy = x * y;
    let xyp = xp * yp;
    lemma_congruent_mul(m, x, xp, y, yp);
    let f1 = e * xy;
    let f1p = ep * xyp;
    lemma_congruent_mul(m, e, ep, xy, xyp);
    let rx = f1 + f1;
    let rxp = f1p + f1p;
    lemma_congruent_add(m, f1, f1p, f1, f1p);
    let g1 = v * z3;
    let g1p = vp * z3p;
    lemma_congruent_mul(m, v, vp, z3, z3p);
    let g2 = t0 + v;
    let g2p = t0p + vp;
    lemma_congruent_add(m, t0, t0p, v, vp);
    let g3 = e * g2;
    let g3p = ep * g2p;
    lemma_congruent_mul(m, e, ep, g2, g2p);
    let ry = g1 + g3;
    let ryp = g1p + g3p;
    lemma_congruent_add(m, g1, g1p, g3, g3p);
    let yz = y * z;
    let yzp = yp * zp;
    lemma_congruent_mul(m, y, yp, z, zp);
    let rz = yz * z3;
    let rzp = yzp * z3p;
    lemma_congruent_mul(m, yz, yzp, z3, z3p);
}

/// `k1 c1 + k2 c2` vanishes modulo `m` where `c1` and `c2` do.
proof fn lemma_combination_vanishes(m: int, k1: int, c1: int, k2: int, c2: int)
    requires
        m > 0,
        c1 % m == 0,
        c2 % m == 0,
    ensures
        (k1 * c1 + k2 * c2) % m == 0,
{
    lemma_mul_mod_noop_right(k1, c1, m);
    lemma_mul_mod_noop_right(k2, c2, m);
    assert(k1 * (c1 % m) == 0 && k2 * (c2 % m) == 0);
    lemma_small_mod(0, m as nat);
    assert((k1 * c1) % m == 0 && (k2 * c2) % m == 0);
    lemma_add_mod_noop(k1 * c1, k2 * c2, m);
}

proof fn lemma_scaled_add(m: int, a: int, ap: int, c: int, cp: int, l: int)
    requires
        m > 0,
        ap % m == (l * a) % m,
        cp % m == (l * c) % m,
    ensures
        (ap + cp) % m == (l * (a + c)) % m,
{
    lemma_add_mod_noop(ap, cp, m);
    lemma_add_mod_noop(l * a, l * c, m);
    assert(l * a + l * c == l * (a + c)) by (nonlinear_arith);
}

proof fn lemma_scaled_sub(m: int, a: int, ap: int, c: int, cp: int, l: int)
    requires
        m > 0,
        ap % m == (l * a) % m,
        cp % m == (l * c) % m,
    ensures
        (ap - cp) % m == (l * (a - c)) % m,
{
    lemma_sub_mod_noop(ap, cp, m);
    lemma_sub_mod_noop(l * a, l * c, m);
    assert(l * a - l * c == l * (a - c)) by (nonlinear_arith);
}

proof fn lemma_scaled_mul(m: int, a: int, ap: int, la: int, c: int, cp: int, lc: int, lac: int)
    requires
        m > 0,
        ap % m == (la * a) % m,
        cp % m == (lc * c) % m,
        lac == la * lc,
    ensures
        (ap * cp) % m == (lac * (a * c)) % m,
{
    lemma_mul_mod_noop(ap, cp, m);
    lemma_mul_mod_noop(la * a, lc * c, m);
    assert((la * a) * (lc * c) == lac * (a * c)) by (nonlinear_arith)
        requires
            lac == la * lc,
    ;
}

/// Scaling the first input of the addition law by `l` scales each output by `l^2`.
proof fn lemma_add_formula_scaled_left(
    m: int,
    l: int,
    x1: int,
    y1: int,
    z1: int,
    x2: int,
    y2: int,
    z2: int,
    b3: int,
    x1p: int,
    y1p: int,
    z1p: int,
    x2p: int,
    y2p: int,
    z2p: int,
    b3p: int,
)
    requires
        m > 0,
        x1p % m == (l * x1) % m,
        y1p % m == (l * y1) % m,
        z1p % m == (l * z1) % m,
        x2p % m == (1int * x2) % m,
        y2p % m == (1int * y2) % m,
        z2p % m == (1int * z2) % m,
        b3p % m == (1int * b3) % m,
    ensures
        add_formula(x1p, y1p, z1p, x2p, y2p, z2p, b3p).0 % m == ((l * l) * add_formula(x1, y1, z1, x2, y2, z2, b3).0) % m,
        add_formula(x1p, y1p, z1p, x2p, y2p, z2p, b3p).1 % m == ((l * l) * add_formula(x1, y1, z1, x2, y2, z2, b3).1) % m,
        add_formula(x1p, y1p, z1p, x2p, y2p, z2p, b3p).2 % m == ((l * l) * add_formula(x1, y1, z1, x2, y2, z2, b3).2) % m,
{
    let l2 = l * l;
    let t0 = x1 * x2;
    let t0p = x1p * x2p;
    lemma_scaled_mul(m, x1, x1p, l, x2, x2p, 1int, l);
    let t1 = y1 * y2;
    let t1p = y1p * y2p;
    lemma_scaled_mul(m, y1, y1p, l, y2, y2p, 1int, l);
    let t2 = z1 * z2;
    let t2p = z1p * z2p;
    lemma_scaled_mul(m, z1, z1p, l, z2, z2p, 1int, l);
    let h1 = x1 + y1;
    let h1p = x1p + y1p;
    lemma_scaled_add(m, x1, x1p, y1, y1p, l);
    let h2 = x2 + y2;
    let h2p = x2p + y2p;
    lemma_scaled_add(m, x2, x2p, y2, y2p, 1int);
    let h3 = h1 * h2;
    let h3p = h1p * h2p;
    lemma_scaled_mul(m, h1, h1p, l, h2, h2p, 1int, l);
    let h4 = t0 + t1;
    let h4p = t0p + t1p;
    lemma_scaled_add(m, t0, t0p, t1, t1p, l);
    let t3 = h3 - h4;
    let t3p = h3p - h4p;
    lemma_scaled_sub(m, h3, h3p, h4, h4p, l);
    let q1 = y1 + z1;
    let q1p = y1p + z1p;
    lemma_scaled_add(m, y1, y1p, z1, z1p, l);
    let q2 = y2 + z2;
    let q2p = y2p + z2p;
    lemma_scaled_add(m, y2, y2p, z2, z2p, 1int);
    let q3 = q1 * q2;
    let q3p = q1p * q2p;
    lemma_scaled_mul(m, q1, q1p, l, q2, q2p, 1int, l);
    let q4 = t1 + t2;
    let q4p = t1p + t2p;
    lemma_scaled_add(m, t1, t1p, t2, t2p, l);
    let t4 = q3 - q4;
    let t4p = q3p - q4p;
    lemma_scaled_sub(m, q3, q3p, q4, q4p, l);
    let r1 = x1 + z1;
    let r1p = x1p + z1p;
    lemma_scaled_add(m, x1, x1p, z1, z1p, l);
    let r2 = x2 + z2;
    let r2p = x2p + z2p;
    lemma_scaled_add(m, x2, x2p, z2, z2p, 1int);
    let r3 = r1 * r2;
    let r3p = r1p * r2p;
    lemma_scaled_mul(m, r1, r1p, l, r2, r2p, 1int, l);
    let r4 = t0 + t2;
    let r4p = t0p + t2p;
    lemma_scaled_add(m, t0, t0p, t2, t2p, l);
    let r5 = r3 - r4;
    let r5p = r3p - r4p;
    lemma_scaled_sub(m, r3, r3p, r4, r4p, l);
    let u = b3 * r5;
    let up = b3p * r5p;
    lemma_scaled_mul(m, b3, b3p, 1int, r5, r5p, l, l);
    let s1 = t0 + t0;
    let s1p = t0p + t0p;
    lemma_scaled_add(m, t0, t0p, t0, t0p, l);
    let s = s1 + t0;
    let sp = s1p + t0p;
    lemma_scaled_add(m, s1, s1p, t0, t0p, l);
    let v = b3 * t2;
    let vp = b3p * t2p;
    lemma_scaled_mul(m, b3, b3p, 1int, t2, t2p, l, l);
    let w = t1 + v;
    let wp = t1p + vp;
    lemma_scaled_add(m, t1, t1p, v, vp, l);
    let d = t1 - v;
    let dp = t1p - vp;
    lemma_scaled_sub(m, t1, t1p, v, vp, l);
    let a1 = t3 * d;
    let a1p = t3p * dp;
    lemma_scaled_mul(m, t3, t3p, l, d, dp, l, l2);
    let a2 = t4 * u;
    let a2p = t4p * up;
    lemma_scaled_mul(m, t4, t4p, l, u, up, l, l2);
    let rx = a1 - a2;
    let rxp = a1p - a2p;
    lemma_scaled_sub(m, a1, a1p, a2, a2p, l2);
    let c1 = d * w;
    let c1p = dp * wp;
    lemma_scaled_mul(m, d, dp, l, w, wp, l, l2);
    let c2 = u * s;
    let c2p = up * sp;
    lemma_scaled_mul(m, u, up, l, s, sp, l, l2);
    let ry = c1 + c2;
    let ryp = c1p + c2p;
    lemma_scaled_add(m, c1, c1p, c2, c2p, l2);
    let e1 = w * t4;
    let e1p = wp * t4p;
    lemma_scaled_mul(m, w, wp, l, t4, t4p, l, l2);
    let e2 = s * t3;
    let e2p = sp * t3p;
    lemma_scaled_mul(m, s, sp, l, t3, t3p, l, l2);
    let rz = e1 + e2;
    let rzp = e1p + e2p;
    lemma_scaled_add(m, e1, e1p, e2, e2p, l2);
}

/// Scaling the second input of the addition law by `l` scales each output by `l^2`.
proof fn lemma_add_formula_scaled_right(
    m: int,
    l: int,
    x1: int,
    y1: int,
    z1: int,
    x2: int,
    y2: int,
    z2: int,
    b3: int,
    x1p: int,
    y1p: int,
    z1p: int,
    x2p: int,
    y2p: int,
    z2p: int,
    b3p: int,
)
    requires
        m > 0,
        x1p % m == (1int * x1) % m,
        y1p % m == (1int * y1) % m,
        z1p % m == (1int * z1) % m,
        x2p % m == (l * x2) % m,
        y2p % m == (l * y2) % m,
        z2p % m == (l * z2) % m,
        b3p % m == (1int * b3) % m,
    ensures
        add_formula(x1p, y1p, z1p, x2p, y2p, z2p, b3p).0 % m == ((l * l) * add_formula(x1, y1, z1, x2, y2, z2, b3).0) % m,
        add_formula(x1p, y1p, z1p, x2p, y2p, z2p, b3p).1 % m == ((l * l) * add_formula(x1, y1, z1, x2, y2, z2, b3).1) % m,
        add_formula(x1p, y1p, z1p, x2p, y2p, z2p, b3p).2 % m == ((l * l) * add_formula(x1, y1, z1, x2, y2, z2, b3).2) % m,
{
    let l2 = l * l;
    let t0 = x1 * x2;
    let t0p = x1p * x2p;
    lemma_scaled_mul(m, x1, x1p, 1int, x2, x2p, l, l);
    let t1 = y1 * y2;
    let t1p = y1p * y2p;
    lemma_scaled_mul(m, y1, y1p, 1int, y2, y2p, l, l);
    let t2 = z1 * z2;
    let t2p = z1p * z2p;
    lemma_scaled_mul(m, z1, z1p, 1int, z2, z2p, l, l);
    let h1 = x1 + y1;
    let h1p = x1p + y1p;
    lemma_scaled_add(m, x1, x1p, y1, y1p, 1int);
    let h2 = x2 + y2;
    let h2p = x2p + y2p;
    lemma_scaled_add(m, x2, x2p, y2, y2p, l);
    let h3 = h1 * h2;
    let h3p = h1p * h2p;
    lemma_scaled_mul(m, h1, h1p, 1int, h2, h2p, l, l);
    let h4 = t0 + t1;
    let h4p = t0p + t1p;
    lemma_scaled_add(m, t0, t0p, t1, t1p, l);
    let t3 = h3 - h4;
    let t3p = h3p - h4p;
    lemma_scaled_sub(m, h3, h3p, h4, h4p, l);
    let q1 = y1 + z1;
    let q1p = y1p + z1p;
    lemma_scaled_add(m, y1, y1p, z1, z1p, 1int);
    let q2 = y2 + z2;
    let q2p = y2p + z2p;
    lemma_scaled_add(m, y2, y2p, z2, z2p, l);
    let q3 = q1 * q2;
    let q3p = q1p * q2p;
    lemma_scaled_mul(m, q1, q1p, 1int, q2, q2p, l, l);
    let q4 = t1 + t2;
    let q4p = t1p + t2p;
    lemma_scaled_add(m, t1, t1p, t2, t2p, l);
    let t4 = q3 - q4;
    let t4p = q3p - q4p;
    lemma_scaled_sub(m, q3, q3p, q4, q4p, l);
    let r1 = x1 + z1;
    let r1p = x1p + z1p;
    lemma_scaled_add(m, x1, x1p, z1, z1p, 1int);
    let r2 = x2 + z2;
    let r2p = x2p + z2p;
    lemma_scaled_add(m, x2, x2p, z2, z2p, l);
    let r3 = r1 * r2;
    let r3p = r1p * r2p;
    lemma_scaled_mul(m, r1, r1p, 1int, r2, r2p, l, l);
    let r4 = t0 + t2;
    let r4p = t0p + t2p;
    lemma_scaled_add(m, t0, t0p, t2, t2p, l);
    let r5 = r3 - r4;
    let r5p = r3p - r4p;
    lemma_scaled_sub(m, r3, r3p, r4, r4p, l);
    let u = b3 * r5;
    let up = b3p * r5p;
    lemma_scaled_mul(m, b3, b3p, 1int, r5, r5p, l, l);
    let s1 = t0 + t0;
    let s1p = t0p + t0p;
    lemma_scaled_add(m, t0, t0p, t0, t0p, l);
    let s = s1 + t0;
    let sp = s1p + t0p;
    lemma_scaled_add(m, s1, s1p, t0, t0p, l);
    let v = b3 * t2;
    let vp = b3p * t2p;
    lemma_scaled_mul(m, b3, b3p, 1int, t2, t2p, l, l);
    let w = t1 + v;
    let wp = t1p + vp;
    lemma_scaled_add(m, t1, t1p, v, vp, l);
    let d = t1 - v;
    let dp = t1p - vp;
    lemma_scaled_sub(m, t1, t1p, v, vp, l);
    let a1 = t3 * d;
    let a1p = t3p * dp;
    lemma_scaled_mul(m, t3, t3p, l, d, dp, l, l2);
    let a2 = t4 * u;
    let a2p = t4p * up;
    lemma_scaled_mul(m, t4, t4p, l, u, up, l, l2);
    let rx = a1 - a2;
    let rxp = a1p - a2p;
    lemma_scaled_sub(m, a1, a1p, a2, a2p, l2);
    let c1 = d * w;
    let c1p = dp * wp;
    lemma_scaled_mul(m, d, dp, l, w, wp, l, l2);
    let c2 = u * s;
    let c2p = up * sp;
    lemma_scaled_mul(m, u, up, l, s, sp, l, l2);
    let ry = c1 + c2;
    let ryp = c1p + c2p;
    lemma_scaled_add(m, c1, c1p, c2, c2p, l2);
    let e1 = w * t4;
    let e1p = wp * t4p;
    lemma_scaled_mul(m, w, wp, l, t4, t4p, l, l2);
    let e2 = s * t3;
    let e2p = sp * t3p;
    lemma_scaled_mul(m, s, sp, l, t3, t3p, l, l2);
    let rz = e1 + e2;
    let rzp = e1p + e2p;
    lemma_scaled_add(m, e1, e1p, e2, e2p, l2);
}

/// Scaling the input of the doubling law by `l` scales each output by `l^4`.
proof fn lemma_double_formula_scaled(
    m: int,
    l: int,
    x: int,
    y: int,
    z: int,
    b3: int,
    xp: int,
    yp: int,
    zp: int,
    b3p: int,
)
    requires
        m > 0,
        xp % m == (l * x) % m,
        yp % m == (l * y) % m,
        zp % m == (l * z) % m,
        b3p % m == (1int * b3) % m,
    ensures
        double_formula(xp, yp, zp, b3p).0 % m == (((l * l) * (l * l)) * double_formula(x, y, z, b3).0) % m,
        double_formula(xp, yp, zp, b3p).1 % m == (((l * l) * (l * l)) * double_formula(x, y, z, b3).1) % m,
        double_formula(xp, yp, zp, b3p).2 % m == (((l * l) * (l * l)) * double_formula(x, y, z, b3).2) % m,
{
    let l2 = l * l;
    let l4 = l2 * l2;
    let t0 = y * y;
    let t0p = yp * yp;
    lemma_scaled_mul(m, y, yp, l, y, yp, l, l2);
    let k1 = t0 + t0;
    let k1p = t0p + t0p;
    lemma_scaled_add(m, t0, t0p, t0, t0p, l2);
    let k2 = k1 + t0;
    let k2p = k1p + t0p;
    lemma_scaled_add(m, k1, k1p, t0, t0p, l2);
    let k3 = k2 + t0;
    let k3p = k2p + t0p;
    lemma_scaled_add(m, k2, k2p, t0, t0p, l2);
    let k4 = k3 + t0;
    let k4p = k3p + t0p;
    lemma_scaled_add(m, k3, k3p, t0, t0p, l2);
    let k5 = k4 + t0;
    let k5p = k4p + t0p;
    lemma_scaled_add(m, k4, k4p, t0, t0p, l2);
    let k6 = k5 + t0;
    let k6p = k5p + t0p;
    lemma_scaled_add(m, k5, k5p, t0, t0p, l2);
    let z3 = k6 + t0;
    let z3p = k6p + t0p;
    lemma_scaled_add(m, k6, k6p, t0, t0p, l2);
    let zz = z * z;
    let zzp = zp * zp;
    lemma_scaled_mul(m, z, zp, l, z, zp, l, l2);
    let v = b3 * zz;
    let vp = b3p * zzp;
    lemma_scaled_mul(m, b3, b3p, 1int, zz, zzp, l2, l2);
    let v2 = v + v;
    let v2p = vp + vp;
    lemma_scaled_add(m, v, vp, v, vp, l2);
    let v3 = v2 + v;
    let v3p = v2p + vp;
    lemma_scaled_add(m, v2, v2p, v, vp, l2);
    let e = t0 - v3;
    let ep = t0p - v3p;
    lemma_scaled_sub(m, t0, t0p, v3, v3p, l2);
    let xy = x * y;
    let xyp = xp * yp;
    lemma_scaled_mul(m, x, xp, l, y, yp, l, l2);
    let f1 = e * xy;
    let f1p = ep * xyp;
    lemma_scaled_mul(m, e, ep, l2, xy, xyp, l2, l4);
    let rx = f1 + f1;
    let rxp = f1p + f1p;
    lemma_scaled_add(m, f1, f1p, f1, f1p, l4);
    let g1 = v * z3;
    let g1p = vp * z3p;
    lemma_scaled_mul(m, v, vp, l2, z3, z3p, l2, l4);
    let g2 = t0 + v;
    let g2p = t0p + vp;
    lemma_scaled_add(m, t0, t0p, v, vp, l2);
    let g3 = e * g2;
    let g3p = ep * g2p;
    lemma_scaled_mul(m, e, ep, l2, g2, g2p, l2, l4);
    let ry = g1 + g3;
    let ryp = g1p + g3p;
    lemma_scaled_add(m, g1, g1p, g3, g3p, l4);
    let yz = y * z;
    let yzp = yp * zp;
    lemma_scaled_mul(m, y, yp, l, z, zp, l, l2);
    let rz = yz * z3;
    let rzp = yzp * z3p;
    lemma_scaled_mul(m, yz, yzp, l2, z3, z3p, l2, l4);
}

/// Over the integers, the addition law on equal inputs differs from the
/// doubling law by multiples of the curve polynomial and of `b3 - 3 b`.
proof fn lemma_double_add_difference(b: int, b3: int, x: int, y: int, z: int)
    ensures
        add_formula(x, y, z, x, y, z, b3).0 == double_formula(x, y, z, b3).0,
        add_formula(x, y, z, x, y, z, b3).1 - double_formula(x, y, z, b3).1 == (-6 * b3 * z)
            * curve_poly(b, x, y, z) + (2 * b3 * z * z * z * z) * (b3 - 3 * b),
        add_formula(x, y, z, x, y, z, b3).2 - double_formula(x, y, z, b3).2 == (-6 * y)
            * curve_poly(b, x, y, z) + (2 * y * z * z * z) * (b3 - 3 * b),
{
    let t0 = x * x;
    let t1 = y * y;
    let t2 = z * z;
    let xy = x * y;
    let yz = y * z;
    let xz = x * z;
    let t3 = (x + y) * (x + y) - (t0 + t1);
    let t4 = (y + z) * (y + z) - (t1 + t2);
    let r5 = (x + z) * (x + z) - (t0 + t2);
    assert(t3 == 2 * xy) by (nonlinear_arith)
        requires
            t0 == x * x,
            t1 == y * y,
            xy == x * y,
            t3 == (x + y) * (x + y) - (t0 + t1),
    ;
    assert(t4 == 2 * yz) by (nonlinear_arith)
        requires
            t1 == y * y,
            t2 == z * z,
            yz == y * z,
            t4 == (y + z) * (y + z) - (t1 + t2),
    ;
    assert(r5 == 2 * xz) by (nonlinear_arith)
        requires
            t0 == x * x,
            t2 == z * z,
            xz == x * z,
            r5 == (x + z) * (x + z) - (t0 + t2),
    ;
    let u = b3 * r5;
    let bxz = b3 * xz;
    assert(u == 2 * bxz) by (nonlinear_arith)
        requires
            u == b3 * r5,
            r5 == 2 * xz,
            bxz == b3 * xz,
    ;
    let s = t0 + t0 + t0;
    let v = b3 * t2;
    let w = t1 + v;
    let d = t1 - v;
    let e = t1 - (v + v + v);
    let z3 = t1 + t1 + t1 + t1 + t1 + t1 + t1 + t1;
    let c = curve_poly(b, x, y, z);

    // first coordinate
    assert(t3 * d == 2 * (xy * t1) - 2 * (xy * v)) by (nonlinear_arith)
        requires
            t3 == 2 * xy,
            d == t1 - v,
    ;
    assert(t4 * u == 4 * (xy * v)) by (nonlinear_arith)
        requires
            t4 == 2 * yz,
            u == 2 * bxz,
            bxz == b3 * xz,
            yz == y * z,
            xz == x * z,
            xy == x * y,
            v == b3 * t2,
            t2 == z * z,
    ;
    assert(e * xy == xy * t1 - 3 * (xy * v)) by (nonlinear_arith)
        requires
            e == t1 - (v + v + v),
    ;

    // second coordinate
    let vv = b3 * b3 * z * z * z * z;
    let bx3z = b3 * x * x * x * z;
    let by2z2 = b3 * y * y * z * z;
    assert(d * w == t1 * t1 - v * v) by (nonlinear_arith)
        requires
            d == t1 - v,
            w == t1 + v,
    ;
    assert(v * v == vv) by (nonlinear_arith)
        requires
            v == b3 * t2,
            t2 == z * z,
            vv == b3 * b3 * z * z * z * z,
    ;
    assert(u * s == 6 * bx3z) by (nonlinear_arith)
        requires
            u == 2 * bxz,
            bxz == b3 * xz,
            xz == x * z,
            s == t0 + t0 + t0,
            t0 == x * x,
            bx3z == b3 * x * x * x * z,
    ;
    assert(v * z3 == 8 * by2z2) by (nonlinear_arith)
        requires
            v == b3 * t2,
            t2 == z * z,
            t1 == y * y,
            z3 == t1 + t1 + t1 + t1 + t1 + t1 + t1 + t1,
            by2z2 == b3 * y * y * z * z,
    ;
    assert(e * (t1 + v) == t1 * t1 - 2 * (v * t1) - 3 * (v * v)) by (nonlinear_arith)
        requires
            e == t1 - (v + v + v),
    ;
    assert(v * t1 == by2z2) by (nonlinear_arith)
        requires
            v == b3 * t2,
            t2 == z * z,
            t1 == y * y,
            by2z2 == b3 * y * y * z * z,
    ;
    let a1 = y * y * z;
    let a2 = x * x * x;
    let a3 = z * z * z;
    let ba3 = b * a3;
    assert(c == a1 - a2 - ba3) by (nonlinear_arith)
        requires
            c == y * y * z - x * x * x - b * z * z * z,
            a1 == y * y * z,
            a2 == x * x * x,
            a3 == z * z * z,
            ba3 == b * a3,
    ;
    let k = b3 * z;
    assert(k * c == k * a1 - k * a2 - k * ba3) by (nonlinear_arith)
        requires
            c == a1 - a2 - ba3,
    ;
    assert((-6 * b3 * z) * c == -6 * (k * c)) by (nonlinear_arith)
        requires
            k == b3 * z,
    ;
    let g = b3 * z * z * z * z;
    assert(k * a1 == by2z2) by (nonlinear_arith)
        requires
            k == b3 * z,
            a1 == y * y * z,
            by2z2 == b3 * y * y * z * z,
    ;
    assert(k * a2 == bx3z) by (nonlinear_arith)
        requires
            k == b3 * z,
            a2 == x * x * x,
            bx3z == b3 * x * x * x * z,
    ;
    assert(k * ba3 == b * g) by (nonlinear_arith)
        requires
            k == b3 * z,
            ba3 == b * a3,
            a3 == z * z * z,
            g == b3 * z * z * z * z,
    ;
    assert((2 * b3 * z * z * z * z) * (b3 - 3 * b) == 2 * vv - 6 * (b * g)) by (nonlinear_arith)
        requires
            g == b3 * z * z * z * z,
            vv == b3 * b3 * z * z * z * z,
    ;

    // third coordinate
    let y3z = y * y * y * z;
    let byz3 = b3 * y * z * z * z;
    let x3y = x * x * x * y;
    assert(w * t4 == 2 * y3z + 2 * byz3) by (nonlinear_arith)
        requires
            w == t1 + v,
            t4 == 2 * yz,
            yz == y * z,
            t1 == y * y,
            v == b3 * t2,
            t2 == z * z,
            y3z == y * y * y * z,
            byz3 == b3 * y * z * z * z,
    ;
    assert(s * t3 == 6 * x3y) by (nonlinear_arith)
        requires
            s == t0 + t0 + t0,
            t0 == x * x,
            t3 == 2 * xy,
            xy == x * y,
            x3y == x * x * x * y,
    ;
    assert(yz * z3 == 8 * y3z) by (nonlinear_arith)
        requires
            yz == y * z,
            z3 == t1 + t1 + t1 + t1 + t1 + t1 + t1 + t1,
            t1 == y * y,
            y3z == y * y * y * z,
    ;
    assert(y * c == y * a1 - y * a2 - y * ba3) by (nonlinear_arith)
        requires
            c == a1 - a2 - ba3,
    ;
    let h = y * z * z * z;
    assert(y * a1 == y3z && y * a2 == x3y && y * ba3 == b * h) by (nonlinear_arith)
        requires
            a1 == y * y * z,
            a2 == x * x * x,
            ba3 == b * a3,
            a3 == z * z * z,
            y3z == y * y * y * z,
            x3y == x * x * x * y,
            h == y * z * z * z,
    ;
    assert((-6 * y) * c == -6 * (y * c)) by (nonlinear_arith);
    assert((2 * y * z * z * z) * (b3 - 3 * b) == 2 * byz3 - 6 * (b * h)) by (nonlinear_arith)
        requires
            h == y * z * z * z,
            byz3 == b3 * y * z * z * z,
    ;
}

/// Doubling a point on the curve gives exactly the triple that adding the
/// point to itself gives, not merely an equivalent one.
pub proof fn lemma_double_is_add(m: int, b: int, p: Triple)
    requires
        m > 1,
        on_curve(m, b, p),
    ensures
        double_spec(m, b, p) == add_spec(m, b, p, p),
{
    let b3 = b3_value(m, b);
    let (x, y, z) = p;
    let c = curve_poly(b, x, y, z);
    lemma_double_add_difference(b, b3, x, y, z);
    assert((b3 - 3 * b) % m == 0) by {
        lemma_mod_twice(3 * b, m);
        lemma_sub_mod_noop(b3, 3 * b, m);
        lemma_small_mod(0, m as nat);
    }
    let a = add_formula(x, y, z, x, y, z, b3);
    let d = double_formula(x, y, z, b3);
    lemma_combination_vanishes(m, -6 * b3 * z, c, 2 * b3 * z * z * z * z, b3 - 3 * b);
    lemma_combination_vanishes(m, -6 * y, c, 2 * y * z * z * z, b3 - 3 * b);
    vstd::arithmetic::div_mod::lemma_mod_equivalence(a.1, d.1, m);
    vstd::arithmetic::div_mod::lemma_mod_equivalence(a.2, d.2, m);
}

/// The curve polynomial reduced modulo `m` depends on the coordinates
/// modulo `m` only.
proof fn lemma_curve_poly_congruent(m: int, b: int, t: Triple)
    requires
        m > 0,
    ensures
        curve_poly(b, t.0 % m, t.1 % m, t.2 % m) % m == curve_poly(b, t.0, t.1, t.2) % m,
{
    let (x, y, z) = t;
    let (xp, yp, zp) = (x % m, y % m, z % m);
    lemma_mod_twice(x, m);
    lemma_mod_twice(y, m);
    lemma_mod_twice(z, m);
    lemma_congruent_mul(m, y, yp, y, yp);
    lemma_congruent_mul(m, y * y, yp * yp, z, zp);
    lemma_congruent_mul(m, x, xp, x, xp);
    lemma_congruent_mul(m, x * x, xp * xp, x, xp);
    lemma_congruent_mul(m, b, b, z, zp);
    lemma_congruent_mul(m, b * z, b * zp, z, zp);
    lemma_congruent_mul(m, b * z * z, b * zp * zp, z, zp);
    lemma_congruent_sub(m, y * y * z, yp * yp * zp, x * x * x, xp * xp * xp);
    lemma_congruent_sub(
        m,
        y * y * z - x * x * x,
        yp * yp * zp - xp * xp * xp,
        b * z * z * z,
        b * zp * zp * zp,
    );
}

/// Over the integers, the curve polynomial of the double is
/// `8 y^3 (y^2 - 9 b z^2)^3` times the curve polynomial of the input.
proof fn lemma_double_curve_poly(b: int, x: int, y: int, z: int)
    ensures
        ({
            let d = double_formula(x, y, z, 3 * b);
            let e = y * y - 9 * (b * (z * z));
            curve_poly(b, d.0, d.1, d.2) == (8 * (y * y * y) * (e * e * e)) * curve_poly(b, x, y, z)
        }),
{
    let d = double_formula(x, y, z, 3 * b);
    let y2 = y * y;
    let w = b * (z * z);
    let v = (3 * b) * (z * z);
    let z3 = y2 + y2 + y2 + y2 + y2 + y2 + y2 + y2;
    let e = y2 - (v + v + v);
    let xy = x * y;
    let k = y * z;
    assert(v == 3 * w) by (nonlinear_arith)
        requires
            v == (3 * b) * (z * z),
            w == b * (z * z),
    ;
    let xd = e * xy + e * xy;
    let yd = v * z3 + e * (y2 + v);
    let zd = k * z3;
    assert(d == (xd, yd, zd));
    assert(yd == y2 * y2 + 18 * (w * y2) - 27 * (w * w)) by (nonlinear_arith)
        requires
            yd == v * z3 + e * (y2 + v),
            v == 3 * w,
            z3 == y2 + y2 + y2 + y2 + y2 + y2 + y2 + y2,
            e == y2 - (v + v + v),
    ;
    let e3 = e * e * e;
    let a4 = y2 * y2 * y2 * y2;
    let a3w = y2 * y2 * y2 * w;
    let a2w2 = y2 * y2 * w * w;
    let aw3 = y2 * w * w * w;
    let w4 = w * w * w * w;
    assert(e == y2 - 9 * w);
    let h1 = y2 * y2;
    let h2 = w * y2;
    let h3 = w * w;
    assert(yd == h1 + 18 * h2 - 27 * h3);
    assert((h1 + 18 * h2 - 27 * h3) * (h1 + 18 * h2 - 27 * h3) == h1 * h1 + 324 * (h2 * h2) + 729
        * (h3 * h3) + 36 * (h1 * h2) - 54 * (h1 * h3) - 972 * (h2 * h3)) by (nonlinear_arith);
    assert(h1 * h1 == a4 && h2 * h2 == a2w2 && h3 * h3 == w4 && h1 * h2 == a3w && h1 * h3 == a2w2
        && h2 * h3 == aw3) by (nonlinear_arith)
        requires
            h1 == y2 * y2,
            h2 == w * y2,
            h3 == w * w,
            a4 == y2 * y2 * y2 * y2,
            a3w == y2 * y2 * y2 * w,
            a2w2 == y2 * y2 * w * w,
            aw3 == y2 * w * w * w,
            w4 == w * w * w * w,
    ;
    let a3 = y2 * y2 * y2;
    let a2w = y2 * y2 * w;
    let aw2 = y2 * w * w;
    let w3c = w * w * w;
    assert(e3 == a3 - 27 * a2w + 243 * aw2 - 729 * w3c) by (nonlinear_arith)
        requires
            e == y2 - 9 * w,
            e3 == e * e * e,
            a3 == y2 * y2 * y2,
            a2w == y2 * y2 * w,
            aw2 == y2 * w * w,
            w3c == w * w * w,
    ;
    assert(e3 * (y2 - w) == (a3 * y2 - 27 * (a2w * y2) + 243 * (aw2 * y2) - 729 * (w3c * y2)) - (a3
        * w - 27 * (a2w * w) + 243 * (aw2 * w) - 729 * (w3c * w))) by (nonlinear_arith)
        requires
            e3 == a3 - 27 * a2w + 243 * aw2 - 729 * w3c,
    ;
    assert(a3 * y2 == a4 && a2w * y2 == a3w && aw2 * y2 == a2w2 && w3c * y2 == aw3) by (nonlinear_arith)
        requires
            a3 == y2 * y2 * y2,
            a2w == y2 * y2 * w,
            aw2 == y2 * w * w,
            w3c == w * w * w,
            a4 == y2 * y2 * y2 * y2,
            a3w == y2 * y2 * y2 * w,
            a2w2 == y2 * y2 * w * w,
            aw3 == y2 * w * w * w,
    ;
    assert(a3 * w == a3w && a2w * w == a2w2 && aw2 * w == aw3 && w3c * w == w4) by (nonlinear_arith)
        requires
            a3 == y2 * y2 * y2,
            a2w == y2 * y2 * w,
            aw2 == y2 * w * w,
            w3c == w * w * w,
            a3w == y2 * y2 * y2 * w,
            a2w2 == y2 * y2 * w * w,
            aw3 == y2 * w * w * w,
            w4 == w * w * w * w,
    ;
    assert(w * (y2 * y2 * y2) == a3w) by (nonlinear_arith)
        requires
            a3w == y2 * y2 * y2 * w,
    ;
    let mm = y2 * k;
    assert(zd == 8 * mm) by (nonlinear_arith)
        requires
            zd == k * z3,
            z3 == y2 + y2 + y2 + y2 + y2 + y2 + y2 + y2,
            mm == y2 * k,
    ;
    let yy = yd * yd;
    assert(yd * yd * zd == 8 * (yy * mm)) by (nonlinear_arith)
        requires
            zd == 8 * mm,
            yy == yd * yd,
    ;
    let w3 = w * (y2 * y2 * y2);
    assert(mm * mm == y2 * y2 * y2 * (z * z)) by (nonlinear_arith)
        requires
            mm == y2 * k,
            k == y * z,
            y2 == y * y,
    ;
    assert(b * (mm * mm) == w3) by (nonlinear_arith)
        requires
            mm * mm == y2 * y2 * y2 * (z * z),
            w == b * (z * z),
            w3 == w * (y2 * y2 * y2),
    ;
    assert(b * zd * zd * zd == 512 * (mm * w3)) by (nonlinear_arith)
        requires
            zd == 8 * mm,
            b * (mm * mm) == w3,
    ;
    let xy3 = xy * xy * xy;
    assert(xd * xd * xd == 8 * (e3 * xy3)) by (nonlinear_arith)
        requires
            xd == e * xy + e * xy,
            e3 == e * e * e,
            xy3 == xy * xy * xy,
    ;
    let c = curve_poly(b, x, y, z);
    let y3 = y * y * y;
    let kk = 8 * y3 * e3;
    assert(e == y * y - 9 * (b * (z * z)));
    assert(c == y2 * z - x * x * x - w * z) by (nonlinear_arith)
        requires
            c == y * y * z - x * x * x - b * z * z * z,
            y2 == y * y,
            w == b * (z * z),
    ;
    assert(kk * c == kk * (y2 * z) - kk * (x * x * x) - kk * (w * z)) by (nonlinear_arith)
        requires
            c == y2 * z - x * x * x - w * z,
    ;
    assert(kk * (x * x * x) == 8 * (e3 * xy3)) by (nonlinear_arith)
        requires
            kk == 8 * y3 * e3,
            y3 == y * y * y,
            xy3 == xy * xy * xy,
            xy == x * y,
    ;
    assert(kk * (y2 * z) - kk * (w * z) == 8 * (mm * (e3 * (y2 - w)))) by (nonlinear_arith)
        requires
            kk == 8 * y3 * e3,
            y3 == y * y * y,
            mm == y2 * k,
            k == y * z,
            y2 == y * y,
    ;
    assert(8 * (yy * mm) - 512 * (mm * w3) == 8 * (mm * (yy - 64 * w3))) by (nonlinear_arith);
}

/// Doubling keeps a point on the curve.
pub proof fn lemma_double_on_curve(m: int, b: int, p: Triple)
    requires
        m > 1,
        on_curve(m, b, p),
    ensures
        on_curve(m, b, double_spec(m, b, p)),
{
    let (x, y, z) = p;
    let b3 = b3_value(m, b);
    lemma_mod_twice(3 * b, m);
    lemma_double_formula_congruent(m, x, y, z, b3, x, y, z, 3 * b);
    let t = double_formula(x, y, z, 3 * b);
    lemma_curve_poly_congruent(m, b, t);
    lemma_double_curve_poly(b, x, y, z);
    let e = y * y - 9 * (b * (z * z));
    lemma_combination_vanishes(m, 8 * (y * y * y) * (e * e * e), curve_poly(b, x, y, z), 0, 0);
    lemma_small_mod(0, m as nat);
}

/// `(l x, l y, l z)` reduced modulo `m`: the same projective point as
/// `(x, y, z)` for every `l` that is invertible modulo `m`.
pub open spec fn scale(m: int, p: Triple, l: int) -> Triple {
    reduce((l * p.0, l * p.1, l * p.2), m)
}

proof fn lemma_scale_congruent(m: int, p: Triple, l: int)
    requires
        m > 0,
    ensures
        scale(m, p, l).0 % m == (l * p.0) % m,
        scale(m, p, l).1 % m == (l * p.1) % m,
        scale(m, p, l).2 % m == (l * p.2) % m,
{
    lemma_mod_twice(l * p.0, m);
    lemma_mod_twice(l * p.1, m);
    lemma_mod_twice(l * p.2, m);
}

proof fn lemma_scale_reduced(m: int, t: Triple, k: int)
    requires
        m > 0,
    ensures
        scale(m, reduce(t, m), k) == reduce((k * t.0, k * t.1, k * t.2), m),
{
    lemma_mul_mod_noop_right(k, t.0, m);
    lemma_mul_mod_noop_right(k, t.1, m);
    lemma_mul_mod_noop_right(k, t.2, m);
}

/// The addition law commutes with projective scaling: scaling either input
/// by `l` scales the sum by `l^2`, so the sum stands for the same point.
pub proof fn lemma_add_scaling(m: int, b: int, p: Triple, q: Triple, l: int)
    requires
        m > 1,
    ensures
        add_spec(m, b, scale(m, p, l), q) == scale(m, add_spec(m, b, p, q), l * l),
        add_spec(m, b, p, scale(m, q, l)) == scale(m, add_spec(m, b, p, q), l * l),
{
    let b3 = b3_value(m, b);
    let sp = scale(m, p, l);
    let sq = scale(m, q, l);
    lemma_scale_congruent(m, p, l);
    lemma_scale_congruent(m, q, l);
    lemma_add_formula_scaled_left(m, l, p.0, p.1, p.2, q.0, q.1, q.2, b3, sp.0, sp.1, sp.2, q.0, q.1, q.2, b3);
    lemma_add_formula_scaled_right(m, l, p.0, p.1, p.2, q.0, q.1, q.2, b3, p.0, p.1, p.2, sq.0, sq.1, sq.2, b3);
    lemma_scale_reduced(m, add_formula(p.0, p.1, p.2, q.0, q.1, q.2, b3), l * l);
}

/// The doubling law commutes with projective scaling: scaling the input by
/// `l` scales the double by `l^4`.
pub proof fn lemma_double_scaling(m: int, b: int, p: Triple, l: int)
    requires
        m > 1,
    ensures
        double_spec(m, b, scale(m, p, l)) == scale(m, double_spec(m, b, p), (l * l) * (l * l)),
{
    let b3 = b3_value(m, b);
    let sp = scale(m, p, l);
    lemma_scale_congruent(m, p, l);
    lemma_double_formula_scaled(m, l, p.0, p.1, p.2, b3, sp.0, sp.1, sp.2, b3);
    lemma_scale_reduced(m, double_formula(p.0, p.1, p.2, b3), (l * l) * (l * l));
}

/// The addition law is commutative, exactly: `p + q` and `q + p` are the
/// same triple.
pub proof fn lemma_add_commutative(m: int, b: int, p: Triple, q: Triple)
    ensures
        add_spec(m, b, p, q) == add_spec(m, b, q, p),
{
    let (x1, y1, z1) = p;
    let (x2, y2, z2) = q;
    let b3 = b3_value(m, b);
    assert(x1 * x2 == x2 * x1 && y1 * y2 == y2 * y1 && z1 * z2 == z2 * z1) by (nonlinear_arith);
    assert((x1 + y1) * (x2 + y2) == (x2 + y2) * (x1 + y1)) by (nonlinear_arith);
    assert((y1 + z1) * (y2 + z2) == (y2 + z2) * (y1 + z1)) by (nonlinear_arith);
    assert((x1 + z1) * (x2 + z2) == (x2 + z2) * (x1 + z1)) by (nonlinear_arith);
    let r = add_formula(x1, y1, z1, x2, y2, z2, b3);
    let s = add_formula(x2, y2, z2, x1, y1, z1, b3);
    assert(r == s);
}

/// Adding the identity `(0, 1, 0)` on either side scales a triple by its
/// `y` coordinate: the sum stands for the same point wherever `y` is invertible.
pub proof fn lemma_add_identity(m: int, b: int, p: Triple)
    requires
        m > 1,
    ensures
        add_spec(m, b, p, identity_triple()) == scale(m, p, p.1),
        add_spec(m, b, identity_triple(), p) == scale(m, p, p.1),
{
    let (x, y, z) = p;
    let b3 = b3_value(m, b);
    let r = add_formula(x, y, z, 0, 1, 0, b3);
    let t0 = x * 0;
    let t1 = y * 1;
    let t2 = z * 0;
    let t3 = (x + y) * (0 + 1) - (t0 + t1);
    let t4 = (y + z) * (1 + 0) - (t1 + t2);
    let u = b3 * ((x + z) * (0 + 0) - (t0 + t2));
    let s = t0 + t0 + t0;
    let v = b3 * t2;
    let w = t1 + v;
    let d = t1 - v;
    assert(t3 == x && t4 == z && u == 0 && s == 0 && v == 0 && w == y && d == y) by (nonlinear_arith)
        requires
            t0 == x * 0,
            t1 == y * 1,
            t2 == z * 0,
            t3 == (x + y) * (0 + 1) - (t0 + t1),
            t4 == (y + z) * (1 + 0) - (t1 + t2),
            u == b3 * ((x + z) * (0 + 0) - (t0 + t2)),
            s == t0 + t0 + t0,
            v == b3 * t2,
            w == t1 + v,
            d == t1 - v,
    ;
    assert(t3 * d - t4 * u == y * x && d * w + u * s == y * y && w * t4 + s * t3 == y * z)
        by (nonlinear_arith)
        requires
            t3 == x,
            t4 == z,
            u == 0,
            s == 0,
            w == y,
            d == y,
    ;
    let l = add_formula(0, 1, 0, x, y, z, b3);
    let l0 = 0 * x;
    let l1 = 1 * y;
    let l2 = 0 * z;
    let l3 = (0 + 1) * (x + y) - (l0 + l1);
    let l4 = (1 + 0) * (y + z) - (l1 + l2);
    let lu = b3 * ((0 + 0) * (x + z) - (l0 + l2));
    let ls = l0 + l0 + l0;
    let lv = b3 * l2;
    let lw = l1 + lv;
    let ld = l1 - lv;
    assert(l3 == x && l4 == z && lu == 0 && ls == 0 && lv == 0 && lw == y && ld == y) by (nonlinear_arith)
        requires
            l0 == 0 * x,
            l1 == 1 * y,
            l2 == 0 * z,
            l3 == (0 + 1) * (x + y) - (l0 + l1),
            l4 == (1 + 0) * (y + z) - (l1 + l2),
            lu == b3 * ((0 + 0) * (x + z) - (l0 + l2)),
            ls == l0 + l0 + l0,
            lv == b3 * l2,
            lw == l1 + lv,
            ld == l1 - lv,
    ;
    assert(l3 * ld - l4 * lu == y * x && ld * lw + lu * ls == y * y && lw * l4 + ls * l3 == y * z)
        by (nonlinear_arith)
        requires
            l3 == x,
            l4 == z,
            lu == 0,
            ls == 0,
            lw == y,
            ld == y,
    ;
}

/// The negation of a triple: `(x, -y, z)`.
pub open spec fn negate(m: int, p: Triple) -> Triple {
    (p.0, (-p.1) % m, p.2)
}

/// Adding a triple to its negation gives `(0, w, 0)`: the identity, up to scaling.
pub proof fn lemma_add_inverse(m: int, b: int, p: Triple)
    requires
        m > 1,
    ensures
        add_spec(m, b, p, negate(m, p)).0 == 0,
        add_spec(m, b, p, negate(m, p)).2 == 0,
{
    let (x, y, z) = p;
    let b3 = b3_value(m, b);
    let n = negate(m, p);
    lemma_mod_twice(-y, m);
    lemma_add_formula_congruent(m, x, y, z, x, n.1, z, b3, x, y, z, x, -y, z, b3);
    let t0 = x * x;
    let t1 = y * (-y);
    let t2 = z * z;
    let t3 = (x + y) * (x + -y) - (t0 + t1);
    let t4 = (y + z) * (-y + z) - (t1 + t2);
    assert(t3 == 0 && t4 == 0) by (nonlinear_arith)
        requires
            t0 == x * x,
            t1 == y * (-y),
            t2 == z * z,
            t3 == (x + y) * (x + -y) - (t0 + t1),
            t4 == (y + z) * (-y + z) - (t1 + t2),
    ;
    let r = add_formula(x, y, z, x, -y, z, b3);
    assert(r.0 == 0 && r.2 == 0);
    lemma_small_mod(0, m as nat);
}

/// The multiples by two and three of a point on the curve are the repeated
/// sums `p + p` and `(p + p) + p`.
pub proof fn lemma_mul_small_multiples(m: int, b: int, p: Triple)
    requires
        m > 1,
        on_curve(m, b, p),
    ensures
        mul_spec(m, b, p, 2) == add_spec(m, b, p, p),
        mul_spec(m, b, p, 3) == add_spec(m, b, add_spec(m, b, p, p), p),
{
    assert(mul_spec(m, b, p, 1) == p);
    lemma_double_is_add(m, b, p);
}

/// The multiple by zero is the identity.
pub proof fn lemma_mul_zero(m: int, b: int, p: Triple)
    ensures
        mul_spec(m, b, p, 0) == identity_triple(),
{
}

/// Leading zero bits do not change the value of a scalar, so they do not
/// change its multiples either.
pub proof fn lemma_leading_zeros(zeros: Seq<bool>, s: Seq<bool>)
    requires
        forall|i: int| 0 <= i < zeros.len() ==> !#[trigger] zeros[i],
    ensures
        bits_value(zeros + s) == bits_value(s),
    decreases s.len(),
{
    if s.len() == 0 {
        assert(zeros + s =~= zeros);
        lemma_zero_bits(zeros);
    } else {
        assert((zeros + s).drop_last() =~= zeros + s.drop_last());
        lemma_leading_zeros(zeros, s.drop_last());
    }
}

proof fn lemma_zero_bits(zeros: Seq<bool>)
    requires
        forall|i: int| 0 <= i < zeros.len() ==> !#[trigger] zeros[i],
    ensures
        bits_value(zeros) == 0,
    decreases zeros.len(),
{
    if zeros.len() > 0 {
        assert(!zeros[zeros.len() - 1]);
        lemma_zero_bits(zeros.drop_last());
    }
}

} // verus!
