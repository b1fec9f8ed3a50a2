//! Vector primitives on Q16 coordinates (65536 raw units per meter):
//! differences, dot and cross products, normalization, and the mirror
//! reflection used when a shell glances off a plate.

use vstd::prelude::*;
use crate::fixed::{sabs, tdiv, sqrt_s, isqrt, lemma_abs_mul, tdiv_i128, lemma_tdiv_bound,
    lemma_sqrt_s, lemma_square_nonneg};
use crate::series::{asin_deg, asin_deg_s};

verus! {

/// The Q16 unit: 2^16 raw units to the meter.
pub const ONE16: i64 = 65536;

/// Coordinates of mesh points stay within this bound (4096 m).
pub const COORD_MAX: i64 = 0x10000000;

/// Direction components stay within this bound (2.0 in Q16).
pub const DIR_MAX: i64 = 0x20000;

/// A point or direction in Q16 fixed point.
#[derive(Clone, Copy, PartialEq, Eq, Structural, Debug)]
pub struct Vec3 {
    pub x: i64,
    pub y: i64,
    pub z: i64,
}

/// All three coordinates at most `m` in magnitude.
pub open spec fn bounded(v: Vec3, m: int) -> bool {
    sabs(v.x as int) <= m && sabs(v.y as int) <= m && sabs(v.z as int) <= m
}

pub open spec fn dot_s(a: Vec3, b: Vec3) -> int {
    a.x * b.x + a.y * b.y + a.z * b.z
}

pub open spec fn cross_xs(a: Vec3, b: Vec3) -> int {
    a.y * b.z - a.z * b.y
}

pub open spec fn cross_ys(a: Vec3, b: Vec3) -> int {
    a.z * b.x - a.x * b.z
}

pub open spec fn cross_zs(a: Vec3, b: Vec3) -> int {
    a.x * b.y - a.y * b.x
}

pub open spec fn is_zero(v: Vec3) -> bool {
    v.x == 0 && v.y == 0 && v.z == 0
}

/// Componentwise difference.
pub fn vsub(a: &Vec3, b: &Vec3) -> (r: Vec3)
    requires
        bounded(*a, 0x1000000000000000),
        bounded(*b, 0x1000000000000000),
    ensures
        r.x as int == a.x - b.x,
        r.y as int == a.y - b.y,
        r.z as int == a.z - b.z,
{
    Vec3 { x: a.x - b.x, y: a.y - b.y, z: a.z - b.z }
}

/// Componentwise negation.
pub fn neg(a: &Vec3) -> (r: Vec3)
    requires
        bounded(*a, 0x1000000000000000),
    ensures
        r.x as int == -a.x,
        r.y as int == -a.y,
        r.z as int == -a.z,
{
    Vec3 { x: -a.x, y: -a.y, z: -a.z }
}

/// Dot product, exact in a wide integer.
pub fn dot(a: &Vec3, b: &Vec3) -> (r: i128)
    requires
        bounded(*a, 0x40000000),
        bounded(*b, 0x1000000000000000),
    ensures
        r as int == dot_s(*a, *b),
{
    proof {
        lemma_abs_mul(a.x as int, b.x as int, 0x40000000, 0x1000000000000000);
        lemma_abs_mul(a.y as int, b.y as int, 0x40000000, 0x1000000000000000);
        lemma_abs_mul(a.z as int, b.z as int, 0x40000000, 0x1000000000000000);
    }
    (a.x as i128) * (b.x as i128) + (a.y as i128) * (b.y as i128) + (a.z as i128) * (b.z as i128)
}

/// Cross product; the factors stay within 2^29 so the result fits 2^59.
pub fn cross(a: &Vec3, b: &Vec3) -> (r: Vec3)
    requires
        bounded(*a, 0x20000000),
        bounded(*b, 0x20000000),
    ensures
        r.x as int == cross_xs(*a, *b),
        r.y as int == cross_ys(*a, *b),
        r.z as int == cross_zs(*a, *b),
        bounded(r, 0x800000000000000),
{
    proof {
        lemma_abs_mul(a.y as int, b.z as int, 0x20000000, 0x20000000);
        lemma_abs_mul(a.z as int, b.y as int, 0x20000000, 0x20000000);
        lemma_abs_mul(a.z as int, b.x as int, 0x20000000, 0x20000000);
        lemma_abs_mul(a.x as int, b.z as int, 0x20000000, 0x20000000);
        lemma_abs_mul(a.x as int, b.y as int, 0x20000000, 0x20000000);
        lemma_abs_mul(a.y as int, b.x as int, 0x20000000, 0x20000000);
    }
    let x = ((a.y as i128) * (b.z as i128) - (a.z as i128) * (b.y as i128)) as i64;
    let y = ((a.z as i128) * (b.x as i128) - (a.x as i128) * (b.z as i128)) as i64;
    let z = ((a.x as i128) * (b.y as i128) - (a.y as i128) * (b.x as i128)) as i64;
    Vec3 { x, y, z }
}

/// The largest coordinate magnitude.
pub open spec fn max_abs3_s(v: Vec3) -> int {
    max_abs3i_s(v.x as int, v.y as int, v.z as int)
}

/// The unit vector along `(x, y, z)`, on the Q16 grid: the vector is
/// first rescaled so its largest coordinate is exactly one, then
/// divided by the grid square root of its squared length.
#[verifier::opaque]
pub open spec fn normalize_s(x: int, y: int, z: int) -> (int, int, int) {
    let m = max_abs3i_s(x, y, z);
    let sx = tdiv(x * 65536, m);
    let sy = tdiv(y * 65536, m);
    let sz = tdiv(z * 65536, m);
    let mag = sqrt_s(sx * sx + sy * sy + sz * sz);
    (tdiv(sx * 65536, mag), tdiv(sy * 65536, mag), tdiv(sz * 65536, mag))
}

pub open spec fn max_abs3i_s(x: int, y: int, z: int) -> int {
    let mx = sabs(x);
    let my = sabs(y);
    let mz = sabs(z);
    if mx >= my && mx >= mz {
        mx
    } else if my >= mz {
        my
    } else {
        mz
    }
}

/// Normalization to a Q16 unit vector.
#[verifier::rlimit(80)]
pub fn normalize(v: &Vec3) -> (r: Vec3)
    requires
        bounded(*v, 0x800000000000000),
        !is_zero(*v),
    ensures
        (r.x as int, r.y as int, r.z as int) == normalize_s(v.x as int, v.y as int, v.z as int),
        bounded(r, 65536),
{
    proof {
        reveal(normalize_s);
    }
    let ax = if v.x < 0 {
        -v.x
    } else {
        v.x
    };
    let ay = if v.y < 0 {
        -v.y
    } else {
        v.y
    };
    let az = if v.z < 0 {
        -v.z
    } else {
        v.z
    };
    let m: i64 = if ax >= ay && ax >= az {
        ax
    } else if ay >= az {
        ay
    } else {
        az
    };
    assert(m as int == max_abs3_s(*v));
    assert(m >= 1);
    proof {
        lemma_tdiv_bound(v.x as int * 65536, m as int, 65536);
        lemma_tdiv_bound(v.y as int * 65536, m as int, 65536);
        lemma_tdiv_bound(v.z as int * 65536, m as int, 65536);
        lemma_abs_mul(v.x as int, 65536, m as int, 65536);
        lemma_abs_mul(v.y as int, 65536, m as int, 65536);
        lemma_abs_mul(v.z as int, 65536, m as int, 65536);
    }
    let sx = tdiv_i128((v.x as i128) * 65536, m as i128) as i64;
    let sy = tdiv_i128((v.y as i128) * 65536, m as i128) as i64;
    let sz = tdiv_i128((v.z as i128) * 65536, m as i128) as i64;
    proof {
        lemma_abs_mul(sx as int, sx as int, 65536, 65536);
        lemma_abs_mul(sy as int, sy as int, 65536, 65536);
        lemma_abs_mul(sz as int, sz as int, 65536, 65536);
        lemma_square_nonneg(sx as int);
        lemma_square_nonneg(sy as int);
        lemma_square_nonneg(sz as int);
    }
    let q: u128 = ((sx as i128) * (sx as i128) + (sy as i128) * (sy as i128) + (sz as i128) * (
    sz as i128)) as u128;
    proof {
        assert(sabs(m as int * 65536) == m as int * 65536);
        if sabs(v.x as int) == m as int {
            assert(sabs(v.x as int * 65536) == m as int * 65536);
            vstd::arithmetic::div_mod::lemma_div_multiples_vanish(65536, m as int);
            assert(m as int * 65536 == 65536 * (m as int));
            assert(sabs(tdiv(v.x as int * 65536, m as int)) == 65536);
        } else if sabs(v.y as int) == m as int {
            assert(sabs(v.y as int * 65536) == m as int * 65536);
            vstd::arithmetic::div_mod::lemma_div_multiples_vanish(65536, m as int);
            assert(sabs(tdiv(v.y as int * 65536, m as int)) == 65536);
        } else {
            assert(sabs(v.z as int) == m as int);
            assert(sabs(v.z as int * 65536) == m as int * 65536);
            vstd::arithmetic::div_mod::lemma_div_multiples_vanish(65536, m as int);
            assert(sabs(tdiv(v.z as int * 65536, m as int)) == 65536);
        }
        assert(q as int >= 65536 * 65536) by (nonlinear_arith)
            requires
                q as int == sx as int * sx as int + sy as int * sy as int + sz as int * sz as int,
                sabs(sx as int) == 65536 || sabs(sy as int) == 65536 || sabs(sz as int) == 65536,
        ;
    }
    let mag128 = isqrt(q);
    assert(mag128 >= 65536 && mag128 <= 131072) by (nonlinear_arith)
        requires
            mag128 as int * mag128 as int <= q as int,
            (q as int) < (mag128 as int + 1) * (mag128 as int + 1),
            65536 * 65536 <= q as int,
            q as int <= 3 * 65536 * 65536,
            mag128 >= 0,
    ;
    let mag = mag128 as i64;
    proof {
        assert(sabs(sx as int) <= mag as int && sabs(sy as int) <= mag as int && sabs(sz as int)
            <= mag as int) by (nonlinear_arith)
            requires
                (sx as int * sx as int + sy as int * sy as int + sz as int * sz as int) < ((
                mag as int + 1) * (mag as int + 1)),
                sx as int * sx as int >= 0,
                sy as int * sy as int >= 0,
                sz as int * sz as int >= 0,
                mag >= 0,
        ;
        lemma_abs_mul(sx as int, 65536, mag as int, 65536);
        lemma_abs_mul(sy as int, 65536, mag as int, 65536);
        lemma_abs_mul(sz as int, 65536, mag as int, 65536);
        lemma_tdiv_bound(sx as int * 65536, mag as int, 65536);
        lemma_tdiv_bound(sy as int * 65536, mag as int, 65536);
        lemma_tdiv_bound(sz as int * 65536, mag as int, 65536);
        lemma_sqrt_s(q as int, mag128 as int);
    }
    let rx = tdiv_i128((sx as i128) * 65536, mag as i128) as i64;
    let ry = tdiv_i128((sy as i128) * 65536, mag as i128) as i64;
    let rz = tdiv_i128((sz as i128) * 65536, mag as i128) as i64;
    Vec3 { x: rx, y: ry, z: rz }
}

/// The squared length of `v`, exact in a wide integer.
pub fn norm_sq(v: &Vec3) -> (r: i128)
    requires
        bounded(*v, 0x800000000000000),
    ensures
        r as int == dot_s(*v, *v),
        r >= 0,
        r as int <= 0x1000000000000000000000000000000int,
{
    proof {
        lemma_abs_mul(v.x as int, v.x as int, 0x800000000000000, 0x800000000000000);
        lemma_abs_mul(v.y as int, v.y as int, 0x800000000000000, 0x800000000000000);
        lemma_abs_mul(v.z as int, v.z as int, 0x800000000000000, 0x800000000000000);
        lemma_square_nonneg(v.x as int);
        lemma_square_nonneg(v.y as int);
        lemma_square_nonneg(v.z as int);
    }
    (v.x as i128) * (v.x as i128) + (v.y as i128) * (v.y as i128) + (v.z as i128) * (v.z as i128)
}

/// A dot product of bounded vectors is bounded by three times the
/// product of the bounds.
pub proof fn lemma_dot_bound(a: Vec3, b: Vec3, ba: int, bb: int)
    requires
        bounded(a, ba),
        bounded(b, bb),
        0 <= ba,
        0 <= bb,
    ensures
        sabs(dot_s(a, b)) <= 3 * (ba * bb),
{
    lemma_abs_mul(a.x as int, b.x as int, ba, bb);
    lemma_abs_mul(a.y as int, b.y as int, ba, bb);
    lemma_abs_mul(a.z as int, b.z as int, ba, bb);
}

/// The exact mirror image of `v` about the plane with normal `n`,
/// scaled by the squared length of `n`: no rounding enters.
pub open spec fn reflect_exact_s(v: Vec3, n: Vec3) -> (int, int, int) {
    let nn = dot_s(n, n);
    let vn = dot_s(v, n);
    (v.x * nn - 2 * vn * n.x, v.y * nn - 2 * vn * n.y, v.z * nn - 2 * vn * n.z)
}

/// Reflecting twice about the same plane returns the original
/// direction, scaled by the fourth power of the normal's length: the
/// mirror map is an involution in exact arithmetic.
pub proof fn lemma_reflect_involution(v: Vec3, n: Vec3)
    ensures
        ({
            let r1 = reflect_exact_s(v, n);
            let nn = dot_s(n, n);
            let vn = dot_s(v, n);
            let r2x = r1.0 * nn - 2 * (r1.0 * n.x + r1.1 * n.y + r1.2 * n.z) * n.x;
            let r2y = r1.1 * nn - 2 * (r1.0 * n.x + r1.1 * n.y + r1.2 * n.z) * n.y;
            let r2z = r1.2 * nn - 2 * (r1.0 * n.x + r1.1 * n.y + r1.2 * n.z) * n.z;
            r2x == v.x * nn * nn && r2y == v.y * nn * nn && r2z == v.z * nn * nn
        }),
{
    let nn = dot_s(n, n);
    let vn = dot_s(v, n);
    let r1 = reflect_exact_s(v, n);
    assert(r1.0 * n.x == v.x * n.x * nn - 2 * vn * (n.x * n.x)) by (nonlinear_arith)
        requires
            r1.0 == v.x * nn - 2 * vn * n.x,
    ;
    assert(r1.1 * n.y == v.y * n.y * nn - 2 * vn * (n.y * n.y)) by (nonlinear_arith)
        requires
            r1.1 == v.y * nn - 2 * vn * n.y,
    ;
    assert(r1.2 * n.z == v.z * n.z * nn - 2 * vn * (n.z * n.z)) by (nonlinear_arith)
        requires
            r1.2 == v.z * nn - 2 * vn * n.z,
    ;
    assert(v.x * n.x * nn + v.y * n.y * nn + v.z * n.z * nn == vn * nn) by (nonlinear_arith)
        requires
            vn == v.x * n.x + v.y * n.y + v.z * n.z,
    ;
    assert(2 * vn * (n.x * n.x) + 2 * vn * (n.y * n.y) + 2 * vn * (n.z * n.z) == 2 * (vn * nn))
        by (nonlinear_arith)
        requires
            nn == n.x * n.x + n.y * n.y + n.z * n.z,
    ;
    assert(r1.0 * n.x + r1.1 * n.y + r1.2 * n.z == -vn * nn) by {
        assert(vn * nn - 2 * (vn * nn) == -(vn * nn)) by (nonlinear_arith);
        assert(-(vn * nn) == -vn * nn) by (nonlinear_arith);
    }
    assert(r1.0 * nn - 2 * (-vn * nn) * n.x == v.x * nn * nn && r1.1 * nn - 2 * (-vn * nn) * n.y
        == v.y * nn * nn && r1.2 * nn - 2 * (-vn * nn) * n.z == v.z * nn * nn)
        by (nonlinear_arith)
        requires
            r1.0 == v.x * nn - 2 * vn * n.x,
            r1.1 == v.y * nn - 2 * vn * n.y,
            r1.2 == v.z * nn - 2 * vn * n.z,
            vn == v.x * n.x + v.y * n.y + v.z * n.z,
            nn == n.x * n.x + n.y * n.y + n.z * n.z,
    ;
}

} // verus!
