//! Polynomial approximations of the transcendental functions on the
//! Q32 grid: sine, cosine and arcsine over angles in degrees, and the
//! logarithm, exponential and real power used by the ballistic model.
//!
//! Every executable function returns exactly the value of its spec-level
//! formula; the formulas are the library's numerical model.

use vstd::prelude::*;
use crate::fixed::{ONE, qmul, qdiv, qmul_s, qdiv_s, sabs, tdiv, lemma_mul_le, lemma_abs_mul};
use vstd::arithmetic::div_mod::lemma_fundamental_div_mod;

verus! {

/// Radians per degree (pi / 180), Q32.
pub const RAD_PER_DEG: i64 = 74961320;

/// The largest radian argument the sine and cosine polynomials accept
/// (a quarter turn).
pub const QUARTER_TURN: i64 = 6746518844;

/// ln 2, Q32.
pub const LN2: i64 = 2977044471;

/// 90 degrees, Q32.
pub const DEG90: i64 = 386547056640;

/// 180 degrees, Q32.
pub const DEG180: i64 = 773094113280;

/// 270 degrees, Q32.
pub const DEG270: i64 = 1159641169920;

/// 360 degrees, Q32.
pub const DEG360: i64 = 1546188226560;

/// Degrees to radians: multiplication by pi / 180 on the Q32 grid.
pub open spec fn deg2rad_s(a: int) -> int {
    qmul_s(a, RAD_PER_DEG as int)
}

pub fn deg2rad(a: i64) -> (r: i64)
    requires
        sabs(a as int) <= DEG360 as int,
    ensures
        r == deg2rad_s(a as int),
        sabs(r as int) <= 26986075200,
{
    proof {
        lemma_mul_le(sabs(a as int), DEG360 as int, RAD_PER_DEG as int, RAD_PER_DEG as int);
        lemma_abs_mul(a as int, RAD_PER_DEG as int, sabs(a as int), RAD_PER_DEG as int);
    }
    qmul(a, RAD_PER_DEG)
}

/// Fixed-point product for the series terms: both factors at most 2^41
/// in magnitude, result at most 2^50.
fn qmul_c(a: i64, b: i64) -> (r: i64)
    requires
        sabs(a as int) <= 0x20000000000,
        sabs(b as int) <= 0x20000000000,
    ensures
        r == qmul_s(a as int, b as int),
        sabs(r as int) * (ONE as int) <= sabs(a as int) * sabs(b as int),
        sabs(r as int) <= 0x4000000000000,
        a >= 0 && b >= 0 ==> r >= 0,
{
    proof {
        lemma_mul_le(sabs(a as int), 0x20000000000, sabs(b as int), 0x20000000000);
        lemma_abs_mul(a as int, b as int, sabs(a as int), sabs(b as int));
    }
    qmul(a, b)
}

/// Quotient of a nonnegative number by a small positive constant.
fn divp(a: i64, n: u64) -> (r: i64)
    requires
        a >= 0,
        1 <= n,
    ensures
        r as int == a as int / n as int,
        0 <= r <= a,
{
    ((a as u64) / n) as i64
}

/// The sine polynomial: five alternating Taylor terms.
pub open spec fn sin_q_s(x: int) -> int {
    let x2 = qmul_s(x, x);
    let x3 = qmul_s(x2, x);
    let x5 = qmul_s(x3, x2);
    let x7 = qmul_s(x5, x2);
    let x9 = qmul_s(x7, x2);
    x - x3 / 6 + x5 / 120 - x7 / 5040 + x9 / 362880
}

/// The cosine polynomial: six alternating Taylor terms.
pub open spec fn cos_q_s(x: int) -> int {
    let x2 = qmul_s(x, x);
    let x4 = qmul_s(x2, x2);
    let x6 = qmul_s(x4, x2);
    let x8 = qmul_s(x6, x2);
    let x10 = qmul_s(x8, x2);
    ONE as int - x2 / 2 + x4 / 24 - x6 / 720 + x8 / 40320 - x10 / 3628800
}

/// Sine of a radian argument in the first quarter turn.
pub fn sin_q(x: i64) -> (r: i64)
    requires
        0 <= x <= QUARTER_TURN,
    ensures
        r == sin_q_s(x as int),
        sabs(r as int) <= 2 * ONE as int,
{
    let x2 = qmul_c(x, x);
    proof {
        lemma_mul_le(x as int, QUARTER_TURN as int, x as int, QUARTER_TURN as int);
    }
    let x3 = qmul_c(x2, x);
    proof {
        lemma_mul_le(x2 as int, 10597407006, x as int, QUARTER_TURN as int);
    }
    let x5 = qmul_c(x3, x2);
    proof {
        lemma_mul_le(x3 as int, 16646368000, x2 as int, 10597407006);
    }
    let x7 = qmul_c(x5, x2);
    proof {
        lemma_mul_le(x5 as int, 41073270000, x2 as int, 10597407006);
    }
    let x9 = qmul_c(x7, x2);
    proof {
        lemma_mul_le(x7 as int, 101344260000, x2 as int, 10597407006);
    }
    x - divp(x3, 6) + divp(x5, 120) - divp(x7, 5040) + divp(x9, 362880)
}

/// Cosine of a radian argument in the first quarter turn.
pub fn cos_q(x: i64) -> (r: i64)
    requires
        0 <= x <= QUARTER_TURN,
    ensures
        r == cos_q_s(x as int),
        sabs(r as int) <= 2 * ONE as int,
{
    let x2 = qmul_c(x, x);
    proof {
        lemma_mul_le(x as int, QUARTER_TURN as int, x as int, QUARTER_TURN as int);
    }
    let x4 = qmul_c(x2, x2);
    proof {
        lemma_mul_le(x2 as int, 10597407006, x2 as int, 10597407006);
    }
    let x6 = qmul_c(x4, x2);
    proof {
        lemma_mul_le(x4 as int, 26148054000, x2 as int, 10597407006);
    }
    let x8 = qmul_c(x6, x2);
    proof {
        lemma_mul_le(x6 as int, 64517740000, x2 as int, 10597407006);
    }
    let x10 = qmul_c(x8, x2);
    proof {
        lemma_mul_le(x8 as int, 159191160000, x2 as int, 10597407006);
    }
    ONE - divp(x2, 2) + divp(x4, 24) - divp(x6, 720) + divp(x8, 40320) - divp(x10, 3628800)
}

/// Sine of a nonnegative angle in degrees, reduced by quadrant symmetry.
pub open spec fn sin_deg_nn_s(a: int) -> int {
    if a <= DEG90 as int {
        sin_q_s(deg2rad_s(a))
    } else if a <= DEG180 as int {
        sin_q_s(deg2rad_s(DEG180 as int - a))
    } else if a <= DEG270 as int {
        -sin_q_s(deg2rad_s(a - DEG180 as int))
    } else {
        -sin_q_s(deg2rad_s(DEG360 as int - a))
    }
}

/// Sine of an angle in degrees.
#[verifier::opaque]
pub open spec fn sin_deg_s(a: int) -> int {
    if a < 0 {
        -sin_deg_nn_s(-a)
    } else {
        sin_deg_nn_s(a)
    }
}

/// Cosine of a nonnegative angle in degrees, reduced by quadrant symmetry.
pub open spec fn cos_deg_nn_s(a: int) -> int {
    if a <= DEG90 as int {
        cos_q_s(deg2rad_s(a))
    } else if a <= DEG180 as int {
        -cos_q_s(deg2rad_s(DEG180 as int - a))
    } else if a <= DEG270 as int {
        -cos_q_s(deg2rad_s(a - DEG180 as int))
    } else {
        cos_q_s(deg2rad_s(DEG360 as int - a))
    }
}

/// Cosine of an angle in degrees.
#[verifier::opaque]
pub open spec fn cos_deg_s(a: int) -> int {
    cos_deg_nn_s(sabs(a))
}

proof fn lemma_first_quadrant(a: int)
    requires
        0 <= a <= DEG90 as int,
    ensures
        0 <= deg2rad_s(a) <= QUARTER_TURN as int,
{
    lemma_mul_le(a, DEG90 as int, RAD_PER_DEG as int, RAD_PER_DEG as int);
    lemma_abs_mul(a, RAD_PER_DEG as int, DEG90 as int, RAD_PER_DEG as int);
    vstd::arithmetic::div_mod::lemma_div_is_ordered(0, a * RAD_PER_DEG as int, ONE as int);
    vstd::arithmetic::div_mod::lemma_div_is_ordered(
        a * RAD_PER_DEG as int,
        386547056640int * 74961320int,
        ONE as int,
    );
}

fn sin_first_quadrant(a: i64) -> (r: i64)
    requires
        0 <= a <= DEG90,
    ensures
        r == sin_q_s(deg2rad_s(a as int)),
        sabs(r as int) <= 2 * ONE as int,
{
    proof {
        lemma_first_quadrant(a as int);
    }
    sin_q(deg2rad(a))
}

fn cos_first_quadrant(a: i64) -> (r: i64)
    requires
        0 <= a <= DEG90,
    ensures
        r == cos_q_s(deg2rad_s(a as int)),
        sabs(r as int) <= 2 * ONE as int,
{
    proof {
        lemma_first_quadrant(a as int);
    }
    cos_q(deg2rad(a))
}

/// Sine of an angle in degrees, any direction up to a full turn.
pub fn sin_deg(a: i64) -> (r: i64)
    requires
        sabs(a as int) <= DEG360 as int,
    ensures
        r == sin_deg_s(a as int),
        sabs(r as int) <= 2 * ONE as int,
{
    proof {
        reveal(sin_deg_s);
    }
    let neg = a < 0;
    let a = if a < 0 {
        -a
    } else {
        a
    };
    let m = if a <= DEG90 {
        sin_first_quadrant(a)
    } else if a <= DEG180 {
        sin_first_quadrant(DEG180 - a)
    } else if a <= DEG270 {
        -sin_first_quadrant(a - DEG180)
    } else {
        -sin_first_quadrant(DEG360 - a)
    };
    if neg {
        -m
    } else {
        m
    }
}

/// Cosine of an angle in degrees, any direction up to a full turn.
pub fn cos_deg(a: i64) -> (r: i64)
    requires
        sabs(a as int) <= DEG360 as int,
    ensures
        r == cos_deg_s(a as int),
        sabs(r as int) <= 2 * ONE as int,
{
    proof {
        reveal(cos_deg_s);
    }
    let a = if a < 0 {
        -a
    } else {
        a
    };
    if a <= DEG90 {
        cos_first_quadrant(a)
    } else if a <= DEG180 {
        -cos_first_quadrant(DEG180 - a)
    } else if a <= DEG270 {
        -cos_first_quadrant(a - DEG180)
    } else {
        cos_first_quadrant(DEG360 - a)
    }
}

/// The sine of `t` degrees, as the arcsine search sees it.
pub open spec fn sin_of_deg_s(t: int) -> int {
    sin_q_s(deg2rad_s(t))
}

/// The binary search that inverts the sine on `[lo, hi)`.
pub open spec fn asin_search_s(c: int, lo: int, hi: int) -> int
    decreases hi - lo,
{
    if hi <= lo + 1 {
        lo
    } else {
        let mid = lo + (hi - lo) / 2;
        if sin_of_deg_s(mid) <= c {
            asin_search_s(c, mid, hi)
        } else {
            asin_search_s(c, lo, mid)
        }
    }
}

/// The angle in degrees whose sine brackets `c`.
#[verifier::opaque]
pub open spec fn asin_deg_s(c: int) -> int {
    if sin_of_deg_s(DEG90 as int) <= c {
        DEG90 as int
    } else {
        asin_search_s(c, 0, DEG90 as int)
    }
}

/// Arcsine in degrees: the result brackets `c` between consecutive
/// grid angles of the sine polynomial.
pub fn asin_deg(c: i64) -> (r: i64)
    requires
        0 <= c <= ONE,
    ensures
        r == asin_deg_s(c as int),
        0 <= r <= DEG90,
        r < DEG90 ==> (sin_of_deg_s(r as int) <= c as int && (c as int) < sin_of_deg_s(r as int + 1)),
        r == DEG90 ==> sin_of_deg_s(DEG90 as int) <= c as int,
{
    proof {
        reveal(asin_deg_s);
    }
    let s90 = sin_first_quadrant(DEG90);
    if s90 <= c {
        return DEG90;
    }
    let mut lo: i64 = 0;
    let mut hi: i64 = DEG90;
    proof {
        lemma_first_quadrant(0);
    }
    assert(sin_q_s(deg2rad_s(0)) == 0) by {
        assert(deg2rad_s(0) == 0);
    }
    while lo + 1 < hi
        invariant
            0 <= lo < hi <= DEG90,
            sin_of_deg_s(lo as int) <= c as int,
            (c as int) < sin_of_deg_s(hi as int),
            asin_search_s(c as int, lo as int, hi as int) == asin_search_s(c as int, 0, DEG90 as int),
        decreases hi - lo,
    {
        let mid: i64 = lo + (hi - lo) / 2;
        let s = sin_first_quadrant(mid);
        if s <= c {
            lo = mid;
        } else {
            hi = mid;
        }
    }
    lo
}

/// Repeated halving toward the unit: the exponent and mantissa of a
/// number at or above one.
pub open spec fn norm_down_s(x: int) -> (int, int)
    decreases x,
{
    if x < 2 * ONE as int || x <= 0 {
        (0, x)
    } else {
        let p = norm_down_s(x / 2);
        (p.0 + 1, p.1)
    }
}

/// Repeated doubling toward the unit: the exponent and mantissa of a
/// positive number below one.
pub open spec fn norm_up_s(x: int) -> (int, int)
    decreases 2 * ONE as int - x,
{
    if x >= ONE as int || x <= 0 {
        (0, x)
    } else {
        let p = norm_up_s(2 * x);
        (p.0 - 1, p.1)
    }
}

/// The logarithm of a mantissa in `[1, 2)`: the odd series in
/// `z = (m - 1) / (m + 1)`.
pub open spec fn ln_mant_s(m: int) -> int {
    let z = qdiv_s(m - ONE as int, m + ONE as int);
    let z2 = qmul_s(z, z);
    let z3 = qmul_s(z2, z);
    let z5 = qmul_s(z3, z2);
    let z7 = qmul_s(z5, z2);
    let z9 = qmul_s(z7, z2);
    2 * (z + z3 / 3 + z5 / 5 + z7 / 7 + z9 / 9)
}

/// The natural logarithm on the Q32 grid.
#[verifier::opaque]
pub open spec fn ln_q_s(x: int) -> int {
    if x >= ONE as int {
        let p = norm_down_s(x);
        p.0 * LN2 as int + ln_mant_s(p.1)
    } else {
        let p = norm_up_s(x);
        p.0 * LN2 as int + ln_mant_s(p.1)
    }
}

proof fn lemma_norm_down_bound(x: int, j: nat)
    requires
        ONE as int <= x,
        x < ONE as int * vstd::arithmetic::power2::pow2(j),
    ensures
        0 <= norm_down_s(x).0 <= j,
        ONE as int <= norm_down_s(x).1 < 2 * ONE as int,
    decreases j,
{
    vstd::arithmetic::power2::lemma_pow2_pos(j);
    if x < 2 * ONE as int {
    } else {
        assert(j >= 1) by {
            if j == 0 {
                assert(vstd::arithmetic::power2::pow2(0) == 1) by {
                    vstd::arithmetic::power2::lemma2_to64();
                }
            }
        }
        assert(vstd::arithmetic::power2::pow2(j) == 2 * vstd::arithmetic::power2::pow2((j - 1) as nat)) by {
            vstd::arithmetic::power2::lemma_pow2_unfold(j);
        }
        lemma_norm_down_bound(x / 2, (j - 1) as nat);
    }
}

proof fn lemma_norm_up_bound(x: int, j: nat)
    requires
        1 <= x < ONE as int,
        ONE as int <= x * vstd::arithmetic::power2::pow2(j),
    ensures
        -(j as int) <= norm_up_s(x).0 <= -1,
        ONE as int <= norm_up_s(x).1 < 2 * ONE as int,
    decreases j,
{
    vstd::arithmetic::power2::lemma2_to64();
    assert(j >= 1) by {
        if j == 0 {
            assert(x * vstd::arithmetic::power2::pow2(0) == x) by (nonlinear_arith)
                requires
                    vstd::arithmetic::power2::pow2(0) == 1nat,
            ;
        }
    }
    if 2 * x >= ONE as int {
        assert(norm_up_s(2 * x) == (0int, 2 * x));
        assert(norm_up_s(x).0 == -1 && norm_up_s(x).1 == 2 * x);
    } else {
        assert(vstd::arithmetic::power2::pow2(j) == 2 * vstd::arithmetic::power2::pow2(
            (j - 1) as nat,
        )) by {
            vstd::arithmetic::power2::lemma_pow2_unfold(j);
        }
        assert((2 * x) * vstd::arithmetic::power2::pow2((j - 1) as nat) == x
            * vstd::arithmetic::power2::pow2(j)) by (nonlinear_arith)
            requires
                vstd::arithmetic::power2::pow2(j) == 2 * vstd::arithmetic::power2::pow2(
                    (j - 1) as nat,
                ),
        ;
        lemma_norm_up_bound(2 * x, (j - 1) as nat);
        assert(norm_up_s(x).0 == norm_up_s(2 * x).0 - 1 && norm_up_s(x).1 == norm_up_s(2 * x).1);
    }
}

/// The logarithm of a mantissa in `[1, 2)`, executable half.
fn ln_mant(m: i64) -> (r: i64)
    requires
        ONE <= m < 2 * ONE,
    ensures
        r == ln_mant_s(m as int),
        0 <= r <= 2977039600,
{
    let z = qdiv(m - ONE, m + ONE);
    proof {
        let a = (m as int - ONE as int) * (ONE as int);
        let d = m as int + ONE as int;
        lemma_abs_mul(m as int - ONE as int, ONE as int, ONE as int, ONE as int);
        assert(z as int == a / d);
        lemma_fundamental_div_mod(a, d);
        assert(0 <= z as int <= 1431655765) by (nonlinear_arith)
            requires
                z as int == a / d,
                d * (a / d) + a % d == a,
                a % d >= 0,
                a == (m as int - ONE as int) * (ONE as int),
                d == m as int + ONE as int,
                ONE as int <= m as int && (m as int) < 2 * ONE as int,
                ONE == 4294967296i64,
        ;
    }
    let z2 = qmul_c(z, z);
    proof {
        lemma_mul_le(z as int, 1431655765, z as int, 1431655765);
    }
    let z3 = qmul_c(z2, z);
    proof {
        lemma_mul_le(z2 as int, 477218589, z as int, 1431655765);
    }
    let z5 = qmul_c(z3, z2);
    proof {
        lemma_mul_le(z3 as int, 159072863, z2 as int, 477218589);
    }
    let z7 = qmul_c(z5, z2);
    proof {
        lemma_mul_le(z5 as int, 17674764, z2 as int, 477218589);
    }
    let z9 = qmul_c(z7, z2);
    proof {
        lemma_mul_le(z7 as int, 1963863, z2 as int, 477218589);
    }
    2 * (z + divp(z3, 3) + divp(z5, 5) + divp(z7, 7) + divp(z9, 9))
}

/// Natural logarithm on the Q32 grid, for arguments below 2^13.
pub fn ln_q(x: i64) -> (r: i64)
    requires
        1 <= x < 0x200000000000,
    ensures
        r == ln_q_s(x as int),
        -95265423072 <= r,
        x >= ONE ==> 0 <= r <= 42949672960,
        x <= ONE ==> r <= 0,
{
    proof {
        reveal(ln_q_s);
    }
    if x >= ONE {
        let mut m = x;
        let mut k: i64 = 0;
        proof {
            vstd::arithmetic::power2::lemma2_to64();
            lemma_norm_down_bound(x as int, 13);
        }
        while m >= 2 * ONE
            invariant
                ONE <= m < 0x200000000000,
                0 <= k,
                norm_down_s(m as int).0 + k == norm_down_s(x as int).0,
                norm_down_s(m as int).1 == norm_down_s(x as int).1,
                0 <= norm_down_s(x as int).0 <= 13,
                norm_down_s(m as int).0 >= 0,
            decreases m,
        {
            proof {
                vstd::arithmetic::power2::lemma2_to64();
                lemma_norm_down_bound(m as int / 2, 13);
            }
            m = divp(m, 2);
            k = k + 1;
        }
        let lm = ln_mant(m);
        proof {
            if x == ONE {
                let z = qdiv_s(ONE as int - ONE as int, ONE as int + ONE as int);
                assert(z == 0) by {
                    assert(0 * ONE as int == 0);
                    assert(tdiv(0, ONE as int + ONE as int) == 0);
                }
                assert(z * z == 0) by (nonlinear_arith)
                    requires
                        z == 0,
                ;
                assert(qmul_s(z, z) == 0) by {
                    assert(tdiv(0, ONE as int) == 0);
                }
                assert(ln_mant_s(ONE as int) == 0);
            }
        }
        k * LN2 + lm
    } else {
        let mut m = x;
        let mut k: i64 = 0;
        proof {
            vstd::arithmetic::power2::lemma2_to64();
            assert(x as int * vstd::arithmetic::power2::pow2(32) >= ONE as int) by (nonlinear_arith)
                requires
                    x >= 1,
                    vstd::arithmetic::power2::pow2(32) == 0x100000000nat,
                    ONE == 4294967296i64,
            ;
            lemma_norm_up_bound(x as int, 32);
        }
        while m < ONE
            invariant
                1 <= m < 2 * ONE,
                k <= 0,
                norm_up_s(m as int).0 + k == norm_up_s(x as int).0,
                norm_up_s(m as int).1 == norm_up_s(x as int).1,
                -32 <= norm_up_s(x as int).0 <= -1,
                k >= norm_up_s(x as int).0,
            decreases 2 * ONE - m,
        {
            proof {
                vstd::arithmetic::power2::lemma2_to64();
                if 2 * (m as int) < ONE as int {
                    assert((2 * m as int) * vstd::arithmetic::power2::pow2(32) >= ONE as int)
                        by (nonlinear_arith)
                        requires
                            m >= 1,
                            vstd::arithmetic::power2::pow2(32) == 0x100000000nat,
                            ONE == 4294967296i64,
                    ;
                    lemma_norm_up_bound(2 * m as int, 32);
                }
            }
            m = 2 * m;
            k = k - 1;
        }
        let lm = ln_mant(m);
        k * LN2 + lm
    }
}

/// The exponent chosen by the exponential's range reduction: the floor
/// of `x / ln 2`.
pub open spec fn exp_exponent_s(x: int) -> int {
    if x >= 0 {
        x / LN2 as int
    } else {
        -((-x + LN2 as int - 1) / LN2 as int)
    }
}

/// The exponential of a remainder in `[0, ln 2)`: eight Taylor terms.
pub open spec fn exp_mant_s(r: int) -> int {
    let t2 = qmul_s(r, r) / 2;
    let t3 = qmul_s(t2, r) / 3;
    let t4 = qmul_s(t3, r) / 4;
    let t5 = qmul_s(t4, r) / 5;
    let t6 = qmul_s(t5, r) / 6;
    let t7 = qmul_s(t6, r) / 7;
    let t8 = qmul_s(t7, r) / 8;
    ONE as int + r + t2 + t3 + t4 + t5 + t6 + t7 + t8
}

/// `v` doubled `k` times.
pub open spec fn scale_up_s(v: int, k: nat) -> int
    decreases k,
{
    if k == 0 {
        v
    } else {
        scale_up_s(2 * v, (k - 1) as nat)
    }
}

/// `v` halved `k` times, truncating.
pub open spec fn scale_down_s(v: int, k: nat) -> int
    decreases k,
{
    if k == 0 {
        v
    } else {
        scale_down_s(v / 2, (k - 1) as nat)
    }
}

/// The exponential on the Q32 grid.
#[verifier::opaque]
pub open spec fn exp_q_s(x: int) -> int {
    let k = exp_exponent_s(x);
    let em = exp_mant_s(x - k * LN2 as int);
    if k >= 0 {
        scale_up_s(em, k as nat)
    } else {
        scale_down_s(em, (-k) as nat)
    }
}

proof fn lemma_scale_up_le(v: int, w: int, k: nat)
    requires
        0 <= v <= w,
    ensures
        v <= scale_up_s(v, k) <= scale_up_s(w, k),
    decreases k,
{
    if k > 0 {
        lemma_scale_up_le(2 * v, 2 * w, (k - 1) as nat);
    }
}

proof fn lemma_scale_down_le(v: int, k: nat)
    requires
        0 <= v,
    ensures
        0 <= scale_down_s(v, k) <= v,
    decreases k,
{
    if k > 0 {
        lemma_scale_down_le(v / 2, (k - 1) as nat);
    }
}

/// The exponential of a remainder in `[0, ln 2)`, executable half.
fn exp_mant(r: i64) -> (em: i64)
    requires
        0 <= r < LN2,
    ensures
        em == exp_mant_s(r as int),
        ONE <= em <= 8589934592,
{
    let t2 = divp(qmul_c(r, r), 2);
    proof {
        lemma_mul_le(r as int, LN2 as int - 1, r as int, LN2 as int - 1);
    }
    let t3 = divp(qmul_c(t2, r), 3);
    proof {
        lemma_mul_le(t2 as int, 1031764990, r as int, LN2 as int - 1);
    }
    let t4 = divp(qmul_c(t3, r), 4);
    proof {
        lemma_mul_le(t3 as int, 238388331, r as int, LN2 as int - 1);
    }
    let t5 = divp(qmul_c(t4, r), 5);
    proof {
        lemma_mul_le(t4 as int, 41309550, r as int, LN2 as int - 1);
    }
    let t6 = divp(qmul_c(t5, r), 6);
    proof {
        lemma_mul_le(t5 as int, 5726720, r as int, LN2 as int - 1);
    }
    let t7 = divp(qmul_c(t6, r), 7);
    proof {
        lemma_mul_le(t6 as int, 661577, r as int, LN2 as int - 1);
    }
    let t8 = divp(qmul_c(t7, r), 8);
    proof {
        lemma_mul_le(t7 as int, 65510, r as int, LN2 as int - 1);
    }
    ONE + r + t2 + t3 + t4 + t5 + t6 + t7 + t8
}

/// The exponential on the Q32 grid, for arguments at most 20.
pub fn exp_q(x: i64) -> (r: i64)
    requires
        -0x10000000000 <= x <= 85899345920,
    ensures
        r == exp_q_s(x as int),
        0 <= r <= 0x2000000000000000,
{
    proof {
        reveal(exp_q_s);
    }
    let k: i64 = if x >= 0 {
        divp(x, LN2 as u64)
    } else {
        -divp(-x + LN2 - 1, LN2 as u64)
    };
    proof {
        if x >= 0 {
            lemma_fundamental_div_mod(x as int, LN2 as int);
        } else {
            lemma_fundamental_div_mod(-x as int + LN2 as int - 1, LN2 as int);
        }
    }
    let r0 = x - k * LN2;
    assert(0 <= r0 < LN2);
    let em = exp_mant(r0);
    if k >= 0 {
        assert(k <= 28);
        let ghost kk = k as nat;
        proof {
            lemma_scale_up_le(em as int, 8589934592, kk);
            vstd::arithmetic::power2::lemma2_to64();
            reveal_with_fuel(scale_up_s, 30);
            assert(scale_up_s(8589934592, 28) == 0x2000000000000000);
            assert(scale_up_s(8589934592, kk) <= scale_up_s(8589934592, 28)) by {
                lemma_scale_up_widen(8589934592, kk, 28);
            }
        }
        let mut v = em;
        let mut j = k;
        while j > 0
            invariant
                0 <= j <= k,
                0 <= v,
                scale_up_s(v as int, j as nat) == scale_up_s(em as int, k as nat),
                scale_up_s(em as int, k as nat) <= 0x2000000000000000,
            decreases j,
        {
            proof {
                lemma_scale_up_le(2 * v as int, 2 * v as int, (j - 1) as nat);
            }
            v = 2 * v;
            j = j - 1;
        }
        v
    } else {
        let mut v = em;
        let mut j = -k;
        while j > 0
            invariant
                0 <= j,
                0 <= v <= 8589934592,
                scale_down_s(v as int, j as nat) == scale_down_s(em as int, (-k) as nat),
            decreases j,
        {
            v = divp(v, 2);
            j = j - 1;
        }
        proof {
            lemma_scale_down_le(em as int, (-k) as nat);
        }
        v
    }
}

proof fn lemma_scale_up_widen(v: int, k1: nat, k2: nat)
    requires
        0 <= v,
        k1 <= k2,
    ensures
        scale_up_s(v, k1) <= scale_up_s(v, k2),
    decreases k2,
{
    if k1 == 0 {
        if k2 > 0 {
            lemma_scale_up_widen(v, 0, (k2 - 1) as nat);
            lemma_scale_up_le(v, 2 * v, (k2 - 1) as nat);
        }
    } else {
        lemma_scale_up_widen(2 * v, (k1 - 1) as nat, (k2 - 1) as nat);
    }
}

/// `x` raised to the real power `e`, as `exp(e ln x)` on the Q32 grid.
#[verifier::opaque]
pub open spec fn pow_q_s(x: int, e: int) -> int {
    exp_q_s(qmul_s(e, ln_q_s(x)))
}

/// Real power for a positive base: exact over the exponential and
/// logarithm of the grid. Exponents above 3/2 only for bases at most one.
pub fn pow_q(x: i64, e: i64) -> (r: i64)
    requires
        1 <= x < 0x200000000000,
        0 <= e <= 25769803776,
        e > 6442450944 ==> x <= ONE,
    ensures
        r == pow_q_s(x as int, e as int),
        0 <= r <= 0x2000000000000000,
{
    proof {
        reveal(pow_q_s);
    }
    let l = ln_q(x);
    proof {
        lemma_mul_le(e as int, 25769803776, sabs(l as int), 95265423072);
        lemma_abs_mul(e as int, l as int, e as int, sabs(l as int));
        if x > ONE {
            lemma_mul_le(e as int, 6442450944, sabs(l as int), 42949672960);
        }
    }
    let p = qmul(e, l);
    exp_q(p)
}

} // verus!
