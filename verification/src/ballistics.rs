//! Exterior ballistics: planar flight under gravity and drag with a
//! barometric atmosphere, integrated by explicit Euler steps on the Q32
//! grid; the inverse range solver; and the dispersion sampler.
//!
//! The integrator's state recurrence is the model: the executable loop
//! returns exactly the recurrence's value, clip by clip.

use vstd::prelude::*;
use crate::fixed::{ONE, sabs, tdiv, sqrt_s, lemma_abs_mul, lemma_mul_le, qmul, qdiv, qmul_s,
    qdiv_s, qsqrt, clip, clip_s, tdiv_i128, lemma_tdiv_bound, lemma_tdiv_mag};
use crate::series::{sin_deg, cos_deg, sin_deg_s, cos_deg_s, asin_deg, asin_deg_s, pow_q, pow_q_s,
    DEG90, DEG360};
use crate::rng::ShotRng;

verus! {

/// Sea-level temperature, 288 K (Q32).
pub const T0: i64 = 1236950581248;

/// Temperature lapse rate, 0.0065 K/m (Q32).
pub const LAPSE: i64 = 27917287;

/// Sea-level pressure, 101325 Pa (Q32).
pub const SEA_PRESSURE: i64 = 435187561267200;

/// Gravity, 9.81 m/s^2 (Q32).
pub const GRAV: i64 = 42133629173;

/// Molar mass of air, 0.0289644 kg/mol (Q32).
pub const AIR_M: i64 = 124401150;

/// Gas constant, 8.31447 J/(mol K) (Q32).
pub const R_GAS: i64 = 35710376733;

/// The barometric exponent, gravity times molar mass over gas constant
/// and lapse rate (Q32).
pub const EXPN: i64 = 22581119955;

/// Pi (Q32).
pub const PI_Q: i64 = 13493037689;

/// The linear drag coefficient's slope in the caliber, 1000/3 (Q32).
pub const CW2_C: i64 = 1431655765333;

/// The Euler time step, 0.05 s (Q32).
pub const DT: i64 = 214748364;

/// The penetration constant over 2400 (Q32).
pub const CPEN_K: i64 = 995289;

/// The speed exponent of the penetration formula, 1.1 (Q32).
pub const E11: i64 = 4724464025;

/// The mass exponent, 0.55 (Q32).
pub const E055: i64 = 2362232012;

/// The caliber exponent, 0.65 (Q32).
pub const E065: i64 = 2791728742;

/// Velocities are clipped to 8000 m/s (Q32).
pub const VEL_MAX: i64 = 34359738368000;

/// Positions are clipped to 65536 m (Q32).
pub const POS_MAX: i64 = 281474976710656;

/// Temperatures below one kelvin count as vacuum.
pub const TEMP_FLOOR: i64 = 4294967296;

/// The integrator's step cap (1000 seconds of flight).
pub const N_MAX: u64 = 20000;

/// Half of one (Q32).
pub const HALF: i64 = 2147483648;

/// A gun's ballistic character: projectile mass (kg), caliber (m),
/// muzzle speed (m/s), drag coefficient, and armor constant, Q32.
#[derive(Clone, Copy, Debug)]
pub struct Ballistics {
    pub mass: i64,
    pub diameter: i64,
    pub muzzle_speed: i64,
    pub drag: i64,
    pub krupp: i64,
}

pub open spec fn wf_ballistics(b: Ballistics) -> bool {
    &&& 268435456 <= b.mass <= 34359738368000
    &&& 42949672 <= b.diameter <= 8589934592
    &&& 0 <= b.muzzle_speed <= VEL_MAX
    &&& 0 <= b.drag <= 68719476736
    &&& 0 <= b.krupp <= 70368744177664
}

/// One flight's outcome: horizontal distance (m), impact speed (m/s),
/// time aloft (s), impact angle from the horizontal (degrees), and
/// penetration capacity (mm), all Q32.
#[derive(Clone, Copy, Debug)]
pub struct BallisticFlight {
    pub distance: i64,
    pub velocity: i64,
    pub time_aloft: i64,
    pub impact_angle: i64,
    pub penetration: i64,
}

/// The integrator's state: velocities, position and time, as exact grid
/// values.
pub struct SimState {
    pub vx: int,
    pub vy: int,
    pub x: int,
    pub y: int,
    pub t: int,
}

/// The shape constant of the drag model: half the drag coefficient
/// times the cross-section over the mass.
pub open spec fn k_const_s(b: Ballistics) -> int {
    let rad = b.diameter as int / 2;
    let rr = qmul_s(rad, rad);
    let area = qmul_s(rr, PI_Q as int);
    let da = qmul_s(area, b.drag as int);
    qdiv_s(da / 2, b.mass as int)
}

/// The linear drag coefficient: 100 plus 1000/3 of the caliber.
pub open spec fn cw2_s(b: Ballistics) -> int {
    100 * (ONE as int) + qmul_s(CW2_C as int, b.diameter as int)
}

/// Air density at the state's altitude, by the barometric model;
/// vacuum above the atmosphere's top.
#[verifier::opaque]
pub open spec fn rho_s(y: int) -> int {
    let temp = T0 as int - qmul_s(LAPSE as int, y);
    if temp < TEMP_FLOOR as int {
        0
    } else {
        let ratio0 = qdiv_s(temp, T0 as int);
        let ratio = if ratio0 > ONE as int {
            ONE as int
        } else {
            ratio0
        };
        let pressure = qmul_s(SEA_PRESSURE as int, clip_s(pow_q_s(ratio, EXPN as int), ONE as int));
        let a1 = qmul_s(pressure, AIR_M as int);
        let a2 = qdiv_s(a1, R_GAS as int);
        clip_s(qdiv_s(a2, temp), 68719476736)
    }
}

/// One Euler step: position first, then velocities under gravity and
/// the two-term drag, everything clipped to the grid's boxes.
#[verifier::opaque]
pub open spec fn step_s(b: Ballistics, s: SimState) -> SimState {
    let x1 = clip_s(s.x + qmul_s(DT as int, s.vx), POS_MAX as int);
    let y1 = clip_s(s.y + qmul_s(DT as int, s.vy), POS_MAX as int);
    let rho = rho_s(y1);
    let factor = clip_s(qmul_s(qmul_s(DT as int, k_const_s(b)), rho), ONE as int);
    let cw2 = cw2_s(b);
    let ix = qmul_s(s.vx, s.vx) + qmul_s(cw2, s.vx);
    let iy = qmul_s(s.vy, s.vy) + qmul_s(cw2, s.vy);
    let vx1 = clip_s(s.vx - qmul_s(factor, ix), VEL_MAX as int);
    let vy1 = clip_s(s.vy - qmul_s(DT as int, GRAV as int) - qmul_s(factor, iy), VEL_MAX as int);
    SimState { vx: vx1, vy: vy1, x: x1, y: y1, t: s.t + DT as int }
}

/// The state after `n` steps of a flight launched at `angle` degrees.
pub open spec fn states_s(b: Ballistics, angle: int, n: nat) -> SimState
    decreases n,
{
    if n == 0 {
        SimState {
            vx: clip_s(qmul_s(b.muzzle_speed as int, cos_deg_s(angle)), VEL_MAX as int),
            vy: clip_s(qmul_s(b.muzzle_speed as int, sin_deg_s(angle)), VEL_MAX as int),
            x: 0,
            y: 0,
            t: 0,
        }
    } else {
        step_s(b, states_s(b, angle, (n - 1) as nat))
    }
}

/// The first step index at or after `m` whose state has landed, or the
/// step cap.
pub open spec fn landing_from_s(b: Ballistics, angle: int, m: nat) -> nat
    decreases N_MAX as nat - m,
{
    if m >= N_MAX as nat {
        N_MAX as nat
    } else if states_s(b, angle, m).y < 0 {
        m
    } else {
        landing_from_s(b, angle, m + 1)
    }
}

proof fn lemma_landing(b: Ballistics, angle: int, n: nat, m: nat)
    requires
        m <= n <= N_MAX as nat,
        forall|j: nat| m <= j < n ==> #[trigger] states_s(b, angle, j).y >= 0,
        states_s(b, angle, n).y < 0 || n == N_MAX as nat,
    ensures
        landing_from_s(b, angle, m) == n,
    decreases n - m,
{
    if m < n {
        assert(states_s(b, angle, m).y >= 0);
        lemma_landing(b, angle, n, m + 1);
    }
}

/// The impact speed of a landed state.
pub open spec fn speed_s(s: SimState) -> int {
    sqrt_s((qmul_s(s.vx, s.vx) + qmul_s(s.vy, s.vy)) * (ONE as int))
}

/// The impact angle from the horizontal, signed like the vertical
/// velocity.
pub open spec fn impact_angle_s(s: SimState) -> int {
    let v = speed_s(s);
    if v == 0 {
        0
    } else {
        let c0 = tdiv(sabs(s.vy) * (ONE as int), v);
        let c = if c0 > ONE as int {
            ONE as int
        } else {
            c0
        };
        if s.vy < 0 {
            -asin_deg_s(c)
        } else {
            asin_deg_s(c)
        }
    }
}

/// The empirical penetration capacity of an impact at speed `v`:
/// the armor constant times `v^1.1 m^0.55 / caliber_mm^0.65`, with each
/// power clipped to its working box.
#[verifier::opaque]
pub open spec fn penetration_s(b: Ballistics, v: int) -> int {
    if v < ONE as int {
        0
    } else {
        let vc = clip_s(v, VEL_MAX as int);
        let cpen = qmul_s(CPEN_K as int, b.krupp as int);
        let v11 = clip_s(pow_q_s(vc, E11 as int), 0x1000000000000);
        let m055 = clip_s(pow_q_s(b.mass as int, E055 as int), 0x40000000000);
        let dmm = b.diameter as int * 1000;
        let d065a = pow_q_s(dmm, E065 as int);
        let d065 = if d065a < ONE as int {
            ONE as int
        } else {
            clip_s(d065a, 0x200000000000)
        };
        let q1 = qmul_s(cpen, v11);
        let q2 = qmul_s(q1, m055);
        clip_s(qdiv_s(q2, d065), 0x4000000000000)
    }
}

/// The record is a real flight of this gun: some launch angle within a
/// full turn whose recurrence flight it equals.
pub open spec fn some_flight_of_s(b: Ballistics, f: BallisticFlight) -> bool {
    exists|g: int| sabs(g) <= DEG360 as int && #[trigger] flight_matches_s(b, g, f)
}

/// The record holds exactly the flight the recurrence gives at this
/// launch angle.
pub open spec fn flight_matches_s(b: Ballistics, angle: int, f: BallisticFlight) -> bool {
    let fs = flight_s(b, angle);
    f.distance == fs.0 && f.velocity == fs.1 && f.time_aloft == fs.2 && f.impact_angle == fs.3
        && f.penetration == fs.4
}

/// The flight outcome at the landing state.
pub open spec fn flight_s(b: Ballistics, angle: int) -> (int, int, int, int, int) {
    let s = states_s(b, angle, landing_from_s(b, angle, 0));
    (s.x, speed_s(s), s.t, impact_angle_s(s), penetration_s(b, speed_s(s)))
}

impl Ballistics {
    pub fn new(mass: i64, diameter: i64, muzzle_speed: i64, drag: i64, krupp: i64) -> (r:
        Ballistics)
        requires
            268435456 <= mass <= 34359738368000,
            42949672 <= diameter <= 8589934592,
            0 <= muzzle_speed <= VEL_MAX,
            0 <= drag <= 68719476736,
            0 <= krupp <= 70368744177664,
        ensures
            r == (Ballistics { mass, diameter, muzzle_speed, drag, krupp }),
            wf_ballistics(r),
    {
        Ballistics { mass, diameter, muzzle_speed, drag, krupp }
    }

    /// One Euler step of the integrator, exactly the recurrence's value.
    #[verifier::rlimit(100)]
    #[verifier::spinoff_prover]
    fn flight_step(&self, vx: i64, vy: i64, x: i64, y: i64, Ghost(gt): Ghost<int>) -> (r: (
        i64,
        i64,
        i64,
        i64,
    ))
        requires
            wf_ballistics(*self),
            sabs(vx as int) <= VEL_MAX as int,
            sabs(vy as int) <= VEL_MAX as int,
            sabs(x as int) <= POS_MAX as int,
            sabs(y as int) <= POS_MAX as int,
        ensures
            ({
                let s1 = step_s(*self, SimState { vx: vx as int, vy: vy as int, x: x as int, y: y as int, t: gt });
                r.0 == s1.vx && r.1 == s1.vy && r.2 == s1.x && r.3 == s1.y
            }),
            sabs(r.0 as int) <= VEL_MAX as int,
            sabs(r.1 as int) <= VEL_MAX as int,
            sabs(r.2 as int) <= POS_MAX as int,
            sabs(r.3 as int) <= POS_MAX as int,
    {
        proof {
            reveal(step_s);
            reveal(rho_s);
            lemma_abs_mul(DT as int, vx as int, DT as int, VEL_MAX as int);
            lemma_abs_mul(DT as int, vy as int, DT as int, VEL_MAX as int);
        }
        let x1 = clip(x + qmul(DT, vx), POS_MAX);
        let y1 = clip(y + qmul(DT, vy), POS_MAX);
        proof {
            lemma_abs_mul(LAPSE as int, y1 as int, LAPSE as int, POS_MAX as int);
        }
        let temp = T0 - qmul(LAPSE, y1);
        let rho: i64 = if temp < TEMP_FLOOR {
            0
        } else {
            proof {
                lemma_abs_mul(temp as int, ONE as int, sabs(temp as int), ONE as int);
            }
            let ratio0 = qdiv(temp, T0);
            let ratio = if ratio0 > ONE {
                ONE
            } else {
                ratio0
            };
            assert(ratio >= 1) by {
                vstd::arithmetic::div_mod::lemma_div_is_ordered(
                    ONE as int * ONE as int,
                    temp as int * ONE as int,
                    T0 as int,
                );
            }
            let pw = clip(pow_q(ratio, EXPN), ONE);
            proof {
                lemma_abs_mul(SEA_PRESSURE as int, pw as int, SEA_PRESSURE as int, ONE as int);
            }
            let pressure = qmul(SEA_PRESSURE, pw);
            assert(sabs(pressure as int) <= SEA_PRESSURE as int);
            proof {
                lemma_abs_mul(pressure as int, AIR_M as int, SEA_PRESSURE as int, AIR_M as int);
            }
            let a1 = qmul(pressure, AIR_M);
            assert(sabs(a1 as int) <= 12605173540216);
            proof {
                lemma_abs_mul(a1 as int, ONE as int, 12605173540216, ONE as int);
                lemma_mul_le(12605173540216, 12605173540216, ONE as int, R_GAS as int);
                lemma_tdiv_bound(a1 as int * (ONE as int), R_GAS as int, 12605173540216);
            }
            let a2 = qdiv(a1, R_GAS);
            proof {
                lemma_abs_mul(a2 as int, ONE as int, 12605173540216, ONE as int);
                lemma_mul_le(12605173540216, 12605173540216, ONE as int, temp as int);
            }
            clip(qdiv(a2, temp), 68719476736)
        };
        let kc = self.k_const();
        proof {
            lemma_abs_mul(DT as int, kc as int, DT as int, 0x40000000000000);
        }
        let dk = qmul(DT, kc);
        assert(sabs(rho as int) <= 68719476736);
        assert(sabs(dk as int) <= 900719922118657) by {
            assert(sabs(dk as int) * (ONE as int) <= DT as int * 0x40000000000000int);
        }
        proof {
            lemma_abs_mul(dk as int, rho as int, 900719922118657, 68719476736);
        }
        let factor = clip(qmul(dk, rho), ONE);
        let cw2 = self.cw2();
        proof {
            lemma_abs_mul(vx as int, vx as int, VEL_MAX as int, VEL_MAX as int);
            lemma_abs_mul(vy as int, vy as int, VEL_MAX as int, VEL_MAX as int);
            lemma_abs_mul(cw2 as int, vx as int, 0x40000000000, VEL_MAX as int);
            lemma_abs_mul(cw2 as int, vy as int, 0x40000000000, VEL_MAX as int);
        }
        let ix = qmul(vx, vx) + qmul(cw2, vx);
        let iy = qmul(vy, vy) + qmul(cw2, vy);
        proof {
            lemma_abs_mul(factor as int, ix as int, ONE as int, sabs(ix as int));
            lemma_abs_mul(factor as int, iy as int, ONE as int, sabs(iy as int));
            lemma_mul_le(ONE as int, ONE as int, sabs(ix as int), 0x1000000000000000000);
            lemma_mul_le(ONE as int, ONE as int, sabs(iy as int), 0x1000000000000000000);
        }
        let vx1 = clip(vx - qmul(factor, ix), VEL_MAX);
        let vy1 = clip(vy - qmul(DT, GRAV) - qmul(factor, iy), VEL_MAX);
        (vx1, vy1, x1, y1)
    }

    fn k_const(&self) -> (r: i64)
        requires
            wf_ballistics(*self),
        ensures
            r == k_const_s(*self),
            0 <= r <= 0x40000000000000,
    {
        let rad = ((self.diameter as u64) / 2) as i64;
        proof {
            lemma_abs_mul(rad as int, rad as int, 4294967296, 4294967296);
        }
        let rr = qmul(rad, rad);
        proof {
            lemma_abs_mul(rr as int, PI_Q as int, 4294967296, PI_Q as int);
        }
        let area = qmul(rr, PI_Q);
        proof {
            lemma_abs_mul(area as int, self.drag as int, 13493037690, 68719476736);
        }
        let da = qmul(area, self.drag);
        let half_da = ((da as u64) / 2) as i64;
        proof {
            lemma_abs_mul(half_da as int, ONE as int, sabs(half_da as int), ONE as int);
            lemma_mul_le(sabs(half_da as int), 107944301520, ONE as int, ONE as int);
            lemma_tdiv_bound(
                half_da as int * (ONE as int),
                self.mass as int,
                0x40000000000000,
            );
        }
        qdiv(half_da, self.mass)
    }

    fn cw2(&self) -> (r: i64)
        requires
            wf_ballistics(*self),
        ensures
            r == cw2_s(*self),
            0 <= r <= 0x40000000000,
    {
        proof {
            lemma_abs_mul(CW2_C as int, self.diameter as int, CW2_C as int, 8589934592);
        }
        100 * ONE + qmul(CW2_C, self.diameter)
    }

    /// Integrates a flight at the given launch angle: Euler steps until
    /// the projectile lands or the step cap trips, then the impact
    /// speed, angle and penetration capacity of the landing state.
    pub fn calculate_flight(&self, angle: i64) -> (r: BallisticFlight)
        requires
            wf_ballistics(*self),
            sabs(angle as int) <= DEG360 as int,
        ensures
            ({
                let f = flight_s(*self, angle as int);
                r.distance == f.0 && r.velocity == f.1 && r.time_aloft == f.2 && r.impact_angle
                    == f.3 && r.penetration == f.4
            }),
            sabs(r.distance as int) <= POS_MAX as int,
            0 <= r.velocity <= 48687826500174,
            sabs(r.impact_angle as int) <= DEG90 as int,
            0 <= r.penetration <= 0x4000000000000,
    {
        let cz = cos_deg(angle);
        let sz = sin_deg(angle);
        proof {
            lemma_abs_mul(self.muzzle_speed as int, cz as int, VEL_MAX as int, 2 * ONE as int);
            lemma_abs_mul(self.muzzle_speed as int, sz as int, VEL_MAX as int, 2 * ONE as int);
        }
        let mut vx = clip(qmul(self.muzzle_speed, cz), VEL_MAX);
        let mut vy = clip(qmul(self.muzzle_speed, sz), VEL_MAX);
        let mut x: i64 = 0;
        let mut y: i64 = 0;
        let mut n: u64 = 0;
        while y >= 0 && n < N_MAX
            invariant
                wf_ballistics(*self),
                sabs(angle as int) <= DEG360 as int,
                n <= N_MAX,
                vx as int == states_s(*self, angle as int, n as nat).vx,
                vy as int == states_s(*self, angle as int, n as nat).vy,
                x as int == states_s(*self, angle as int, n as nat).x,
                y as int == states_s(*self, angle as int, n as nat).y,
                sabs(vx as int) <= VEL_MAX as int,
                sabs(vy as int) <= VEL_MAX as int,
                sabs(x as int) <= POS_MAX as int,
                sabs(y as int) <= POS_MAX as int,
                forall|j: nat| j < n as nat ==> #[trigger] states_s(*self, angle as int, j).y >= 0,
            decreases N_MAX - n,
        {
            let stepped = self.flight_step(
                vx,
                vy,
                x,
                y,
                Ghost(states_s(*self, angle as int, n as nat).t),
            );
            vx = stepped.0;
            vy = stepped.1;
            x = stepped.2;
            y = stepped.3;
            n = n + 1;
            assert(states_s(*self, angle as int, n as nat) == step_s(
                *self,
                states_s(*self, angle as int, (n - 1) as nat),
            ));
        }
        proof {
            lemma_landing(*self, angle as int, n as nat, 0);
        }
        let t = (n as i64) * DT;
        assert(t as int == states_s(*self, angle as int, n as nat).t) by {
            lemma_time(*self, angle as int, n as nat);
        }
        proof {
            lemma_abs_mul(vx as int, vx as int, VEL_MAX as int, VEL_MAX as int);
            lemma_abs_mul(vy as int, vy as int, VEL_MAX as int, VEL_MAX as int);
        }
        proof {
            crate::fixed::lemma_square_nonneg(vx as int);
            crate::fixed::lemma_square_nonneg(vy as int);
        }
        let v2 = qmul(vx, vx) + qmul(vy, vy);
        assert(v2 >= 0);
        let v = qsqrt(v2);
        assert(0 <= v <= 48687826500174) by (nonlinear_arith)
            requires
                v as int * v as int <= v2 as int * (ONE as int),
                v2 as int <= 2 * (VEL_MAX as int * VEL_MAX as int) / (ONE as int),
                v >= 0,
                ONE == 4294967296i64,
                VEL_MAX == 34359738368000i64,
        ;
        let ia: i64 = if v == 0 {
            0
        } else {
            let avy = if vy < 0 {
                -vy
            } else {
                vy
            };
            proof {
                lemma_abs_mul(avy as int, ONE as int, VEL_MAX as int, ONE as int);
            }
            let c128 = tdiv_i128((avy as i128) * (ONE as i128), v as i128);
            let c: i64 = if c128 > ONE as i128 {
                ONE
            } else {
                c128 as i64
            };
            let a = asin_deg(c);
            if vy < 0 {
                -a
            } else {
                a
            }
        };
        let pen = self.penetration_at(v);
        BallisticFlight { distance: x, velocity: v, time_aloft: t, impact_angle: ia, penetration: pen }
    }

    /// The penetration capacity at impact speed `v`.
    #[verifier::rlimit(100)]
    #[verifier::spinoff_prover]
    fn penetration_at(&self, v: i64) -> (r: i64)
        requires
            wf_ballistics(*self),
            0 <= v <= 48687826500174,
        ensures
            r == penetration_s(*self, v as int),
            0 <= r <= 0x4000000000000,
    {
        proof {
            reveal(penetration_s);
        }
        if v < ONE {
            return 0;
        }
        let vc = clip(v, VEL_MAX);
        proof {
            lemma_abs_mul(CPEN_K as int, self.krupp as int, CPEN_K as int, 70368744177664);
        }
        let cpen = qmul(CPEN_K, self.krupp);
        assert(sabs(cpen as int) <= 16306814977) by {
            assert(sabs(cpen as int) * (ONE as int) <= CPEN_K as int * 70368744177664int);
        }
        let v11 = clip(pow_q(vc, E11), 0x1000000000000);
        let m055 = clip(pow_q(self.mass, E055), 0x40000000000);
        let dmm = self.diameter * 1000;
        let d065a = pow_q(dmm, E065);
        let d065 = if d065a < ONE {
            ONE
        } else {
            clip(d065a, 0x200000000000)
        };
        proof {
            lemma_abs_mul(cpen as int, v11 as int, 16306814977, 0x1000000000000);
        }
        let q1 = qmul(cpen, v11);
        assert(sabs(q1 as int) <= 1074790400000001) by {
            assert(sabs(q1 as int) * (ONE as int) <= 16306814977int * 0x1000000000000int);
        }
        proof {
            lemma_abs_mul(q1 as int, m055 as int, 1074790400000001, 0x40000000000);
        }
        let q2 = qmul(q1, m055);
        proof {
            lemma_abs_mul(q2 as int, ONE as int, sabs(q2 as int), ONE as int);
            lemma_mul_le(sabs(q2 as int), 0x7fffffffffffffff, ONE as int, ONE as int);
        }
        clip(qdiv(q2, d065), 0x4000000000000)
    }

    /// Solves for the launch angle whose distance meets `range`:
    /// proportional rescaling from 22.5 degrees, up to twelve
    /// iterations, reporting whether the distance error came under one
    /// meter. A flight with no horizontal progress ends the search.
    pub fn calculate_flight_at_range(&self, range: i64) -> (r: (BallisticFlight, bool))
        requires
            wf_ballistics(*self),
            0 <= range <= POS_MAX,
        ensures
            r.1 ==> sabs(r.0.distance as int - range as int) < ONE as int,
            some_flight_of_s(*self, r.0),
            sabs(r.0.impact_angle as int) <= DEG90 as int,
            0 <= r.0.velocity <= 48687826500174,
            0 <= r.0.penetration <= 0x4000000000000,
    {
        let mut guess: i64 = 96636764160;
        let mut iter: u64 = 0;
        let mut flight = self.calculate_flight(guess);
        loop
            invariant
                wf_ballistics(*self),
                0 <= range <= POS_MAX,
                sabs(guess as int) <= DEG360 as int,
                iter <= 12,
                flight_matches_s(*self, guess as int, flight),
                sabs(flight.distance as int) <= POS_MAX as int,
                sabs(flight.impact_angle as int) <= DEG90 as int,
                0 <= flight.velocity <= 48687826500174,
                0 <= flight.penetration <= 0x4000000000000,
            decreases 12 - iter,
        {
            let error = flight.distance - range;
            proof {
                assert(some_flight_of_s(*self, flight)) by {
                    assert(sabs(guess as int) <= DEG360 as int && flight_matches_s(
                        *self,
                        guess as int,
                        flight,
                    ));
                }
            }
            if -ONE < error && error < ONE {
                return (flight, true);
            }
            if iter >= 12 {
                return (flight, false);
            }
            if flight.distance <= 0 {
                return (flight, false);
            }
            proof {
                lemma_abs_mul(guess as int, range as int, DEG360 as int, POS_MAX as int);
            }
            let gr = tdiv_i128((guess as i128) * (range as i128), ONE as i128);
            proof {
                lemma_abs_mul(gr as int, ONE as int, sabs(gr as int), ONE as int);
            }
            let next128 = tdiv_i128(gr * (ONE as i128), flight.distance as i128);
            guess = if next128 > DEG360 as i128 {
                DEG360
            } else if next128 < 0 {
                0
            } else {
                next128 as i64
            };
            iter = iter + 1;
            flight = self.calculate_flight(guess);
        }
    }
}

proof fn lemma_time(b: Ballistics, angle: int, n: nat)
    ensures
        states_s(b, angle, n).t == n * DT as int,
    decreases n,
{
    reveal(step_s);
    if n > 0 {
        lemma_time(b, angle, (n - 1) as nat);
        assert((n - 1) as nat * DT as int + DT as int == n * DT as int) by (nonlinear_arith)
            requires
                n >= 1,
        ;
    }
}


/// A mount's dispersion profile: horizontal and vertical spread scale
/// (m), the reference maximum range (m), and the Gaussian width, Q32.
#[derive(Clone, Copy, Debug)]
pub struct Dispersion {
    pub horizontal: i64,
    pub vertical: i64,
    pub maxrange: i64,
    pub sigma: i64,
}

pub open spec fn wf_dispersion(d: Dispersion) -> bool {
    &&& 0 <= d.horizontal <= 4398046511104
    &&& 0 <= d.vertical <= 4398046511104
    &&& ONE <= d.maxrange <= POS_MAX
    &&& 0 <= d.sigma <= 34359738368
}

/// A centered sum of twelve uniform draws, scaled by `sigma`, redrawn
/// until it falls strictly inside (-1/2, 1/2); zero if sixty-four draws
/// all land outside. The rejection bound is the contract; the bell
/// shape of the accepted values is not stated.
fn bounded_gauss(sigma: i64, rng: &mut ShotRng) -> (r: i64)
    requires
        0 <= sigma <= 34359738368,
    ensures
        -HALF < r < HALF,
{
    let mut tries: u64 = 0;
    while tries < 64
        invariant
            0 <= sigma <= 34359738368,
        decreases 64 - tries,
    {
        let mut acc: i64 = 0;
        let mut i: u64 = 0;
        while i < 12
            invariant
                0 <= acc <= i * ONE,
                i <= 12,
            decreases 12 - i,
        {
            let draw = rng.next_u64();
            let u = (draw % (ONE as u64)) as i64;
            acc = acc + u;
            i = i + 1;
        }
        let z = acc - 6 * ONE;
        proof {
            lemma_abs_mul(sigma as int, z as int, 34359738368, 6 * ONE as int);
        }
        let g = qmul(sigma, z);
        if -HALF < g && g < HALF {
            return g;
        }
        tries = tries + 1;
    }
    0
}

impl Dispersion {
    pub fn new(horizontal: i64, vertical: i64, maxrange: i64, sigma: i64) -> (r: Dispersion)
        requires
            0 <= horizontal <= 4398046511104,
            0 <= vertical <= 4398046511104,
            ONE <= maxrange <= POS_MAX,
            0 <= sigma <= 34359738368,
        ensures
            r == (Dispersion { horizontal, vertical, maxrange, sigma }),
            wf_dispersion(r),
    {
        Dispersion { horizontal, vertical, maxrange, sigma }
    }

    /// The object-space aim offsets of one dispersed shot: each bounded
    /// Gaussian draw scaled by the spread and by range over maximum
    /// range. Each component stays under half the spread times the
    /// range fraction: the rejection-sampling bound.
    pub fn offset_components(&self, range: i64, rng: &mut ShotRng) -> (r: (i64, i64))
        requires
            wf_dispersion(*self),
            0 <= range <= self.maxrange,
        ensures
            exists|gx: int, gy: int|
                -HALF < gx < HALF && -HALF < gy < HALF && r.0 == qmul_s(
                    #[trigger] qmul_s(self.horizontal as int, gx),
                    qdiv_s(range as int, self.maxrange as int),
                ) && r.1 == qmul_s(
                    #[trigger] qmul_s(self.vertical as int, gy),
                    qdiv_s(range as int, self.maxrange as int),
                ),
            2 * sabs(r.0 as int) <= qmul_s(self.horizontal as int, qdiv_s(range as int, self.maxrange as int)),
            2 * sabs(r.1 as int) <= qmul_s(self.vertical as int, qdiv_s(range as int, self.maxrange as int)),
            sabs(r.0 as int) <= 2199023255552,
            sabs(r.1 as int) <= 2199023255552,
    {
        proof {
            lemma_abs_mul(range as int, ONE as int, POS_MAX as int, ONE as int);
            lemma_mul_le(POS_MAX as int, POS_MAX as int, ONE as int, self.maxrange as int);
        }
        let df = qdiv(range, self.maxrange);
        assert(0 <= df <= ONE) by {
            vstd::arithmetic::div_mod::lemma_div_is_ordered(
                range as int * ONE as int,
                self.maxrange as int * ONE as int,
                self.maxrange as int,
            );
            vstd::arithmetic::div_mod::lemma_div_multiples_vanish(ONE as int, self.maxrange as int);
            assert(self.maxrange as int * ONE as int == self.maxrange as int * ONE as int);
            lemma_abs_mul(range as int, ONE as int, self.maxrange as int, ONE as int);
            lemma_mul_le(range as int, self.maxrange as int, ONE as int, ONE as int);
        }
        let gx = bounded_gauss(self.sigma, rng);
        let gy = bounded_gauss(self.sigma, rng);
        proof {
            lemma_abs_mul(self.horizontal as int, gx as int, 4398046511104, HALF as int);
            lemma_abs_mul(self.vertical as int, gy as int, 4398046511104, HALF as int);
        }
        let sx = qmul(self.horizontal, gx);
        let sy = qmul(self.vertical, gy);
        assert(sabs(sx as int) <= 2199023255552 && sabs(sy as int) <= 2199023255552) by {
            assert(sabs(sx as int) * (ONE as int) <= 4398046511104int * (HALF as int));
            assert(sabs(sy as int) * (ONE as int) <= 4398046511104int * (HALF as int));
        }
        proof {
            lemma_abs_mul(sx as int, df as int, 2199023255552, ONE as int);
            lemma_abs_mul(sy as int, df as int, 2199023255552, ONE as int);
        }
        let dx = qmul(sx, df);
        let dy = qmul(sy, df);
        assert(sabs(dx as int) <= 2199023255552 && sabs(dy as int) <= 2199023255552) by {
            assert(sabs(dx as int) * (ONE as int) <= 2199023255552int * (ONE as int));
            assert(sabs(dy as int) * (ONE as int) <= 2199023255552int * (ONE as int));
        }
        proof {
            lemma_dispersion_bound(self.horizontal as int, gx as int, df as int, dx as int);
            lemma_dispersion_bound(self.vertical as int, gy as int, df as int, dy as int);
        }
        (dx, dy)
    }

    /// One dispersed world-space offset: the object-space components
    /// rotated by the azimuth, on the Q16 grid of the mesh.
    pub fn generate_offset(&self, azimuth: i64, range: i64, rng: &mut ShotRng) -> (r:
        crate::geometry::Vec3)
        requires
            wf_dispersion(*self),
            sabs(azimuth as int) <= DEG360 as int,
            0 <= range <= self.maxrange,
        ensures
            scatter_ok_s(*self, azimuth as int, range as int, r),
            crate::geometry::bounded(r, 0x8000000),
            r.y == 0,
    {
        let (dx, dy) = self.offset_components(range, rng);
        let ghost (ggx, ggy) = choose|gx: int, gy: int|
            -HALF < gx < HALF && -HALF < gy < HALF && dx as int == qmul_s(
                #[trigger] qmul_s(self.horizontal as int, gx),
                qdiv_s(range as int, self.maxrange as int),
            ) && dy as int == qmul_s(
                #[trigger] qmul_s(self.vertical as int, gy),
                qdiv_s(range as int, self.maxrange as int),
            );
        let ca = cos_deg(azimuth);
        let sa = sin_deg(azimuth);
        proof {
            lemma_abs_mul(dx as int, ca as int, 2199023255552, 2 * ONE as int);
            lemma_abs_mul(dy as int, sa as int, 2199023255552, 2 * ONE as int);
            lemma_abs_mul(dx as int, sa as int, 2199023255552, 2 * ONE as int);
            lemma_abs_mul(dy as int, ca as int, 2199023255552, 2 * ONE as int);
        }
        let wx = qmul(dx, ca) - qmul(dy, sa);
        let wz = qmul(dx, sa) + qmul(dy, ca);
        let rx = tdiv_i128(wx as i128, 65536) as i64;
        let rz = tdiv_i128(wz as i128, 65536) as i64;
        proof {
            lemma_tdiv_bound(wx as int, 65536, 0x8000000);
            lemma_tdiv_bound(wz as int, 65536, 0x8000000);
        }
        let out = crate::geometry::Vec3 { x: rx, y: 0, z: rz };
        assert(scatter_ok_s(*self, azimuth as int, range as int, out)) by {
            assert({
                let df = qdiv_s(range as int, self.maxrange as int);
                let sdx = qmul_s(#[trigger] qmul_s(self.horizontal as int, ggx), df);
                let sdy = qmul_s(#[trigger] qmul_s(self.vertical as int, ggy), df);
                -HALF < ggx < HALF && -HALF < ggy < HALF && out.x as int == tdiv(
                    qmul_s(sdx, cos_deg_s(azimuth as int)) - qmul_s(sdy, sin_deg_s(azimuth as int)),
                    65536,
                ) && out.y == 0 && out.z as int == tdiv(
                    qmul_s(sdx, sin_deg_s(azimuth as int)) + qmul_s(sdy, cos_deg_s(azimuth as int)),
                    65536,
                )
            });
        }
        out
    }
}

/// A scatter as `generate_offset` produces it: a bounded Gaussian pair,
/// scaled by the spreads and by range over maximum range, rotated by
/// the azimuth onto the horizontal grid plane. At range zero the
/// scatter is the zero vector.
pub open spec fn scatter_ok_s(d: Dispersion, azimuth: int, range: int, r:
    crate::geometry::Vec3) -> bool {
    exists|gx: int, gy: int|
        {
            let df = qdiv_s(range, d.maxrange as int);
            let dx = qmul_s(#[trigger] qmul_s(d.horizontal as int, gx), df);
            let dy = qmul_s(#[trigger] qmul_s(d.vertical as int, gy), df);
            &&& -HALF < gx < HALF
            &&& -HALF < gy < HALF
            &&& r.x as int == tdiv(
                qmul_s(dx, cos_deg_s(azimuth)) - qmul_s(dy, sin_deg_s(azimuth)),
                65536,
            )
            &&& r.y == 0
            &&& r.z as int == tdiv(
                qmul_s(dx, sin_deg_s(azimuth)) + qmul_s(dy, cos_deg_s(azimuth)),
                65536,
            )
        }
}

/// The dispersion bound: a spread scaled by a bounded Gaussian draw and
/// the range fraction never exceeds half the spread times the range
/// fraction.
pub proof fn lemma_dispersion_bound(h: int, g: int, df: int, d: int)
    requires
        0 <= h,
        -HALF < g < HALF,
        0 <= df <= ONE as int,
        d == qmul_s(qmul_s(h, g), df),
    ensures
        2 * sabs(d) <= qmul_s(h, df),
{
    let s = qmul_s(h, g);
    lemma_abs_mul(h, g, h, HALF as int);
    lemma_tdiv_mag(h * g, ONE as int);
    assert(2 * sabs(s) <= h) by (nonlinear_arith)
        requires
            sabs(s) * (ONE as int) <= h * (HALF as int),
            0 <= h,
            0 <= sabs(s),
            ONE == 4294967296i64,
            HALF == 2147483648i64,
    ;
    lemma_abs_mul(s, df, sabs(s), ONE as int);
    lemma_tdiv_mag(s * df, ONE as int);
    lemma_abs_mul(h, df, h, ONE as int);
    vstd::arithmetic::div_mod::lemma_fundamental_div_mod(h * df, ONE as int);
    assert(qmul_s(h, df) == (h * df) / (ONE as int));
    assert(2 * sabs(d) <= qmul_s(h, df)) by (nonlinear_arith)
        requires
            sabs(d) * (ONE as int) <= sabs(s) * sabs(df),
            sabs(df) == df,
            2 * sabs(s) <= h,
            0 <= df <= ONE as int,
            (ONE as int) * ((h * df) / (ONE as int)) + (h * df) % (ONE as int) == h * df,
            0 <= (h * df) % (ONE as int) < ONE as int,
            qmul_s(h, df) == (h * df) / (ONE as int),
            0 <= h,
            0 <= sabs(d),
            0 <= sabs(s),
            ONE == 4294967296i64,
    ;
}

} // verus!
