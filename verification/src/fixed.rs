//! Q32 fixed-point scalars: an `i64` holds the real value times 2^32.
//!
//! All scalar quantities of the simulation (speeds in m/s, angles in
//! degrees, thicknesses in mm, masses in kg, damage points) use this
//! representation. Operations truncate toward zero, like Rust's own
//! integer division, and every operation's result is pinned exactly by
//! its contract.

use vstd::prelude::*;

verus! {

/// The fixed-point unit: 2^32.
pub const ONE: i64 = 4294967296;

pub open spec fn sabs(a: int) -> int {
    if a < 0 {
        -a
    } else {
        a
    }
}

/// Quotient truncated toward zero (the rounding of Rust's `/`).
pub open spec fn tdiv(x: int, y: int) -> int
    recommends
        y != 0,
{
    if (x >= 0) == (y >= 0) {
        sabs(x) / sabs(y)
    } else {
        -(sabs(x) / sabs(y))
    }
}

/// Product of two fixed-point numbers, truncated toward zero.
pub open spec fn qmul_s(a: int, b: int) -> int {
    tdiv(a * b, ONE as int)
}

/// Fixed-point quotient, truncated toward zero.
pub open spec fn qdiv_s(a: int, b: int) -> int
    recommends
        b != 0,
{
    tdiv(a * (ONE as int), b)
}

/// The absolute value of a product is the product of absolute values,
/// and products of bounded factors are bounded.
pub proof fn lemma_abs_mul(a: int, b: int, bound_a: int, bound_b: int)
    requires
        sabs(a) <= bound_a,
        sabs(b) <= bound_b,
    ensures
        sabs(a * b) <= bound_a * bound_b,
        sabs(a * b) == sabs(a) * sabs(b),
        a >= 0 && b >= 0 ==> a * b >= 0,
        a >= 0 && b <= 0 ==> a * b <= 0,
{
    assert(sabs(a * b) == sabs(a) * sabs(b) && sabs(a) * sabs(b) <= bound_a * bound_b && (a >= 0
        && b >= 0 ==> a * b >= 0) && (a >= 0 && b <= 0 ==> a * b <= 0)) by (nonlinear_arith)
        requires
            sabs(a) <= bound_a,
            sabs(b) <= bound_b,
    ;
}

pub proof fn lemma_mul_le(x: int, xb: int, y: int, yb: int)
    requires
        0 <= x <= xb,
        0 <= y <= yb,
    ensures
        x * y <= xb * yb,
{
    assert(x * y <= xb * yb) by (nonlinear_arith)
        requires
            0 <= x <= xb,
            0 <= y <= yb,
    ;
}

/// Fixed-point multiplication: `r` is the real product, truncated to
/// the Q32 grid.
pub fn qmul(a: i64, b: i64) -> (r: i64)
    requires
        sabs(a as int) * sabs(b as int) <= i64::MAX as int * (ONE as int),
    ensures
        r == qmul_s(a as int, b as int),
        sabs(r as int) * (ONE as int) <= sabs(a as int) * sabs(b as int),
        a >= 0 && b >= 0 ==> r >= 0,
{
    proof {
        lemma_abs_mul(a as int, b as int, sabs(a as int), sabs(b as int));
    }
    let p: i128 = (a as i128) * (b as i128);
    let neg = p < 0;
    let m: u128 = if neg {
        (-p) as u128
    } else {
        p as u128
    };
    let d: u128 = m / (ONE as u128);
    assert(d <= i64::MAX as u128 && d as int * (ONE as int) <= m as int) by (nonlinear_arith)
        requires
            d == m as int / (ONE as int),
            m as int <= i64::MAX as int * (ONE as int),
            ONE == 4294967296i64,
    ;
    if neg {
        -(d as i64)
    } else {
        d as i64
    }
}

/// Fixed-point division: `r` is the real quotient, truncated to the
/// Q32 grid.
pub fn qdiv(a: i64, b: i64) -> (r: i64)
    requires
        b != 0,
        sabs(a as int) * (ONE as int) <= i64::MAX as int * sabs(b as int),
    ensures
        r == qdiv_s(a as int, b as int),
{
    proof {
        lemma_abs_mul(a as int, ONE as int, sabs(a as int), ONE as int);
    }
    let p: i128 = (a as i128) * (ONE as i128);
    let neg = (p < 0) != (b < 0);
    let m: u128 = if p < 0 {
        (-p) as u128
    } else {
        p as u128
    };
    let bb: u128 = if b < 0 {
        (-(b as i128)) as u128
    } else {
        b as u128
    };
    let d: u128 = m / bb;
    assert(d <= i64::MAX as u128) by (nonlinear_arith)
        requires
            d == m as int / (bb as int),
            bb > 0,
            m as int <= i64::MAX as int * (bb as int),
    ;
    if neg {
        -(d as i64)
    } else {
        d as i64
    }
}

/// Truncating division of a wide value by a positive divisor.
pub fn tdiv_i128(a: i128, b: i128) -> (r: i128)
    requires
        b >= 1,
        a > i128::MIN,
    ensures
        r as int == tdiv(a as int, b as int),
        sabs(r as int) <= sabs(a as int),
{
    let neg = a < 0;
    let m: u128 = if neg {
        (-a) as u128
    } else {
        a as u128
    };
    let d: u128 = m / (b as u128);
    assert(d <= m);
    if neg {
        -(d as i128)
    } else {
        d as i128
    }
}

/// Magnitude of a truncating quotient, from a bound on the dividend.
pub proof fn lemma_tdiv_bound(a: int, m: int, c: int)
    requires
        m >= 1,
        0 <= c,
        sabs(a) <= c * m,
    ensures
        sabs(tdiv(a, m)) <= c,
{
    vstd::arithmetic::div_mod::lemma_div_is_ordered(sabs(a), c * m, m);
    vstd::arithmetic::div_mod::lemma_div_multiples_vanish(c, m);
    assert(c * m == m * c) by (nonlinear_arith);
}

/// A truncating quotient's magnitude times the divisor stays within
/// the dividend's magnitude.
pub proof fn lemma_tdiv_mag(a: int, m: int)
    requires
        m >= 1,
    ensures
        sabs(tdiv(a, m)) * m <= sabs(a),
{
    vstd::arithmetic::div_mod::lemma_fundamental_div_mod(sabs(a), m);
    assert(sabs(tdiv(a, m)) == sabs(a) / m);
    assert((sabs(a) / m) * m <= sabs(a)) by (nonlinear_arith)
        requires
            m * (sabs(a) / m) + sabs(a) % m == sabs(a),
            sabs(a) % m >= 0,
    ;
}

/// A square is never negative.
pub proof fn lemma_square_nonneg(a: int)
    ensures
        a * a >= 0,
{
    assert(a * a >= 0) by (nonlinear_arith);
}

/// The integer square root, as a mathematical function.
pub open spec fn sqrt_s(x: int) -> int {
    choose|r: int| 0 <= r && #[trigger] (r * r) <= x && x < (r + 1) * (r + 1)
}

pub proof fn lemma_sqrt_s(x: int, r: int)
    requires
        0 <= r,
        r * r <= x,
        x < (r + 1) * (r + 1),
    ensures
        sqrt_s(x) == r,
{
    assert(exists|c: int| 0 <= c && #[trigger] (c * c) <= x && x < (c + 1) * (c + 1)) by {
        assert(0 <= r && r * r <= x && x < (r + 1) * (r + 1));
    }
    let c = sqrt_s(x);
    assert(0 <= c && c * c <= x && x < (c + 1) * (c + 1));
    assert(c == r) by (nonlinear_arith)
        requires
            0 <= r,
            r * r <= x,
            x < (r + 1) * (r + 1),
            0 <= c,
            c * c <= x,
            x < (c + 1) * (c + 1),
    ;
}

/// Integer square root, rounded down.
pub fn isqrt(x: u128) -> (r: u128)
    ensures
        r * r <= x,
        x < (r + 1) * (r + 1),
        r as int == sqrt_s(x as int),
{
    let mut lo: u128 = 0;
    let mut hi: u128 = 0x10000000000000000;
    if x == 0 {
        proof {
            lemma_sqrt_s(x as int, 0);
        }
        return 0;
    }
    assert((hi as int) * (hi as int) > x as int) by (nonlinear_arith)
        requires
            hi == 0x10000000000000000u128,
            x <= u128::MAX,
    ;
    while lo + 1 < hi
        invariant
            0 <= lo < hi,
            hi <= 0x10000000000000000,
            (lo as int) * (lo as int) <= x as int,
            (hi as int) * (hi as int) > x as int,
        decreases hi - lo,
    {
        let mid: u128 = lo + (hi - lo) / 2;
        assert(lo < mid < hi);
        assert(mid * mid <= u128::MAX) by (nonlinear_arith)
            requires
                mid < 0x10000000000000000u128,
        ;
        if mid * mid <= x {
            lo = mid;
        } else {
            hi = mid;
        }
    }
    proof {
        lemma_sqrt_s(x as int, lo as int);
    }
    lo
}

/// Square root of a nonnegative Q32 fixed-point number, on the Q32
/// grid: the floor of `sqrt(x * 2^32)` raw units.
pub fn qsqrt(x: i64) -> (r: i64)
    requires
        x >= 0,
    ensures
        r >= 0,
        r as int == sqrt_s(x as int * (ONE as int)),
        (r as int) * (r as int) <= x as int * (ONE as int),
        x as int * (ONE as int) < (r as int + 1) * (r as int + 1),
{
    let w: u128 = (x as u128) * (ONE as u128);
    proof {
        lemma_mul_le(x as int, i64::MAX as int, ONE as int, ONE as int);
    }
    let r = isqrt(w);
    assert(r < 0x1000000000000u128) by (nonlinear_arith)
        requires
            (r as int) * (r as int) <= w as int,
            w as int <= 0x7fffffffffffffffint * 0x100000000int,
    ;
    r as i64
}

/// `v` clipped into `[-lim, lim]`.
pub open spec fn clip_s(v: int, lim: int) -> int
    recommends
        lim >= 0,
{
    if v > lim {
        lim
    } else if v < -lim {
        -lim
    } else {
        v
    }
}

pub fn clip(v: i64, lim: i64) -> (r: i64)
    requires
        lim >= 0,
    ensures
        r == clip_s(v as int, lim as int),
{
    if v > lim {
        lim
    } else if v < -lim {
        -lim
    } else {
        v
    }
}

} // verus!
