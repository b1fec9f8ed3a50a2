//! The simulation driver: one shot from trajectory to damage, a
//! dispersed shot, and a volley aggregated into a mean and a histogram.

use vstd::prelude::*;
use crate::fixed::{ONE, sabs, tdiv, lemma_abs_mul, qmul, qmul_s, clip, clip_s, tdiv_i128};
use crate::series::{sin_deg, cos_deg, sin_deg_s, cos_deg_s, DEG90, DEG360};
use crate::ballistics::{BallisticFlight, VEL_MAX, Dispersion, wf_dispersion, flight_s,
    flight_matches_s, some_flight_of_s, scatter_ok_s};
use crate::geometry::{Vec3, bounded, DIR_MAX};
use crate::gun::{ImpactType, PEN_MAX, DMG_MAX, OFFSET_MAX, wf_mesh, ammo_result_ok,
    cast_origin_s, vec_of_s};
use crate::ship::{Ammo, ShipConfiguration, wf_shell, wf_configuration};
use crate::rng::ShotRng;

verus! {

/// Counts of each impact type over a volley.
#[derive(Clone, Copy, Debug, PartialEq, Eq, Structural)]
pub struct ImpactCounts {
    pub miss: u64,
    pub non_penetration: u64,
    pub citadel: u64,
    pub penetration: u64,
    pub torpedo_protection: u64,
    pub ricochet: u64,
    pub over_penetration: u64,
    pub traversal_exhausted: u64,
}

pub open spec fn counts_total(c: ImpactCounts) -> int {
    c.miss + c.non_penetration + c.citadel + c.penetration + c.torpedo_protection + c.ricochet
        + c.over_penetration + c.traversal_exhausted
}

/// The counts with the given outcome's bucket one higher.
pub open spec fn bump_s(c: ImpactCounts, t: ImpactType) -> ImpactCounts {
    match t {
        ImpactType::Miss => ImpactCounts { miss: (c.miss + 1) as u64, ..c },
        ImpactType::NonPenetration => ImpactCounts {
            non_penetration: (c.non_penetration + 1) as u64,
            ..c
        },
        ImpactType::Citadel => ImpactCounts { citadel: (c.citadel + 1) as u64, ..c },
        ImpactType::Penetration => ImpactCounts { penetration: (c.penetration + 1) as u64, ..c },
        ImpactType::TorpedoProtection => ImpactCounts {
            torpedo_protection: (c.torpedo_protection + 1) as u64,
            ..c
        },
        ImpactType::Ricochet => ImpactCounts { ricochet: (c.ricochet + 1) as u64, ..c },
        ImpactType::OverPenetration => ImpactCounts {
            over_penetration: (c.over_penetration + 1) as u64,
            ..c
        },
        ImpactType::TraversalExhausted => ImpactCounts {
            traversal_exhausted: (c.traversal_exhausted + 1) as u64,
            ..c
        },
    }
}

pub open spec fn zero_counts_s() -> ImpactCounts {
    ImpactCounts {
        miss: 0,
        non_penetration: 0,
        citadel: 0,
        penetration: 0,
        torpedo_protection: 0,
        ricochet: 0,
        over_penetration: 0,
        traversal_exhausted: 0,
    }
}

/// The histogram of a sequence of shot results.
pub open spec fn counts_of_s(ds: Seq<(i64, ImpactType)>) -> ImpactCounts
    decreases ds.len(),
{
    if ds.len() == 0 {
        zero_counts_s()
    } else {
        bump_s(counts_of_s(ds.drop_last()), ds.last().1)
    }
}

/// The total damage of a sequence of shot results.
pub open spec fn dmg_sum_s(ds: Seq<(i64, ImpactType)>) -> int
    decreases ds.len(),
{
    if ds.len() == 0 {
        0
    } else {
        dmg_sum_s(ds.drop_last()) + ds.last().0
    }
}

impl ImpactCounts {
    pub fn new() -> (r: ImpactCounts)
        ensures
            r == zero_counts_s(),
            counts_total(r) == 0,
    {
        ImpactCounts {
            miss: 0,
            non_penetration: 0,
            citadel: 0,
            penetration: 0,
            torpedo_protection: 0,
            ricochet: 0,
            over_penetration: 0,
            traversal_exhausted: 0,
        }
    }

    /// Counts one more outcome: exactly the outcome's bucket grows, by
    /// one.
    pub fn record(&mut self, t: ImpactType)
        requires
            counts_total(*old(self)) < 0xffffffffffffffff,
        ensures
            *final(self) == bump_s(*old(self), t),
            counts_total(*final(self)) == counts_total(*old(self)) + 1,
    {
        match t {
            ImpactType::Miss => {
                self.miss = self.miss + 1;
            },
            ImpactType::NonPenetration => {
                self.non_penetration = self.non_penetration + 1;
            },
            ImpactType::Citadel => {
                self.citadel = self.citadel + 1;
            },
            ImpactType::Penetration => {
                self.penetration = self.penetration + 1;
            },
            ImpactType::TorpedoProtection => {
                self.torpedo_protection = self.torpedo_protection + 1;
            },
            ImpactType::Ricochet => {
                self.ricochet = self.ricochet + 1;
            },
            ImpactType::OverPenetration => {
                self.over_penetration = self.over_penetration + 1;
            },
            ImpactType::TraversalExhausted => {
                self.traversal_exhausted = self.traversal_exhausted + 1;
            },
        }
    }
}

/// The grid components of the impact direction: the azimuth rotation of
/// the horizontal reach, and the sine of the impact angle for the
/// vertical, each brought to the Q16 grid and clipped.
pub open spec fn impact_dir_s(azimuth: int, impact_angle: int) -> (int, int, int) {
    (
        clip_s(tdiv(qmul_s(cos_deg_s(azimuth), cos_deg_s(impact_angle)), 65536), DIR_MAX as int),
        clip_s(tdiv(sin_deg_s(impact_angle), 65536), DIR_MAX as int),
        clip_s(tdiv(qmul_s(sin_deg_s(azimuth), cos_deg_s(impact_angle)), 65536), DIR_MAX as int),
    )
}

/// The impact direction as a grid vector.
pub open spec fn impact_dir_v(azimuth: int, impact_angle: int) -> Vec3 {
    vec_of_s(impact_dir_s(azimuth, impact_angle))
}

/// The impact direction of a shell arriving at `impact_angle` degrees
/// from the horizontal, fired at `azimuth` degrees, on the Q16 grid.
pub fn impact_direction(azimuth: i64, impact_angle: i64) -> (r: Vec3)
    requires
        sabs(azimuth as int) <= DEG360 as int,
        sabs(impact_angle as int) <= DEG90 as int,
    ensures
        r == impact_dir_v(azimuth as int, impact_angle as int),
        bounded(r, DIR_MAX as int),
{
    let ca = cos_deg(azimuth);
    let sa = sin_deg(azimuth);
    let ci = cos_deg(impact_angle);
    let si = sin_deg(impact_angle);
    proof {
        lemma_abs_mul(ca as int, ci as int, 2 * ONE as int, 2 * ONE as int);
        lemma_abs_mul(sa as int, ci as int, 2 * ONE as int, 2 * ONE as int);
    }
    let hx = qmul(ca, ci);
    let hz = qmul(sa, ci);
    assert(sabs(hx as int) <= 17179869184 && sabs(hz as int) <= 17179869184) by {
        assert(sabs(hx as int) * (ONE as int) <= (2 * ONE as int) * (2 * ONE as int));
        assert(sabs(hz as int) * (ONE as int) <= (2 * ONE as int) * (2 * ONE as int));
    }
    let rx = clip(tdiv_i128(hx as i128, 65536) as i64, DIR_MAX);
    let ry = clip(tdiv_i128(si as i128, 65536) as i64, DIR_MAX);
    let rz = clip(tdiv_i128(hz as i128, 65536) as i64, DIR_MAX);
    let out = Vec3 { x: rx, y: ry, z: rz };
    assert(out == impact_dir_v(azimuth as int, impact_angle as int));
    out
}

/// The penetration capacity as the driver hands it to the resolver:
/// clipped into the resolver's box and floored at zero.
pub open spec fn pen_in_s(p: int) -> int {
    let c = clip_s(p, PEN_MAX as int);
    if c < 0 {
        0
    } else {
        c
    }
}

/// One aimed shot resolves as the driver composes it: some launch angle
/// within a full turn whose recurrence flight supplies the impact
/// angle and penetration; the impact direction derives from azimuth and
/// that angle; and the shell's full resolver contract holds of the
/// result, against the target's mesh from the aim point.
pub open spec fn shot_result_ok(gun: Ammo, target: ShipConfiguration, azimuth: int, aim: Vec3, r: (
    i64,
    ImpactType,
)) -> bool {
    exists|g: int|
        #![trigger flight_s(gun.ballistics, g)]
        {
            let fs = flight_s(gun.ballistics, g);
            let d = impact_dir_v(azimuth, fs.3);
            &&& sabs(g) <= DEG360 as int
            &&& ammo_result_ok(
                gun.bullet,
                target.geometry@,
                cast_origin_s(aim, d),
                d,
                pen_in_s(fs.4),
                r,
            )
        }
}

/// One aimed shot: the trajectory at the range gives the impact
/// direction, speed and penetration; the shell's resolver takes it from
/// there.
pub fn simulate_attack(gun: &Ammo, target: &ShipConfiguration, range: i64, azimuth: i64, offset:
    Vec3, rng: &mut ShotRng) -> (r: (i64, ImpactType))
    requires
        wf_shell(*gun),
        wf_configuration(*target),
        0 <= range <= 281474976710656,
        sabs(azimuth as int) <= DEG360 as int,
        bounded(offset, OFFSET_MAX as int),
    ensures
        shot_result_ok(*gun, *target, azimuth as int, offset, r),
        0 <= r.0 <= DMG_MAX,
{
    let (trajectory, _converged) = gun.ballistics.calculate_flight_at_range(range);
    let ghost g = choose|g: int|
        sabs(g) <= DEG360 as int && #[trigger] flight_matches_s(gun.ballistics, g, trajectory);
    let direction = impact_direction(azimuth, trajectory.impact_angle);
    let pen = clip(trajectory.penetration, PEN_MAX);
    let pen = if pen < 0 {
        0
    } else {
        pen
    };
    let speed = clip(trajectory.velocity, VEL_MAX);
    let speed = if speed < 0 {
        0
    } else {
        speed
    };
    let r = gun.bullet.compute_damage(&target.geometry, pen, speed, direction, offset, rng);
    proof {
        let fs = flight_s(gun.ballistics, g);
        assert(trajectory.impact_angle == fs.3 && trajectory.penetration == fs.4);
        assert(direction == impact_dir_v(azimuth as int, fs.3));
        assert(pen as int == pen_in_s(fs.4));
    }
    r
}

/// The aim point of a dispersed shot: the intended offset plus the
/// scatter, clipped into the supported aiming box.
pub open spec fn clipped_aim_s(o: Vec3, sc: Vec3) -> Vec3 {
    Vec3 {
        x: clip_s(o.x + sc.x, OFFSET_MAX as int) as i64,
        y: clip_s(o.y + sc.y, OFFSET_MAX as int) as i64,
        z: clip_s(o.z + sc.z, OFFSET_MAX as int) as i64,
    }
}

/// One dispersed shot resolves as the driver composes it: some scatter
/// of the mount's dispersion perturbs the aim point, and the shot
/// contract holds at the perturbed point.
pub open spec fn dispersed_shot_ok(
    dispersion: Dispersion,
    gun: Ammo,
    target: ShipConfiguration,
    azimuth: int,
    range: int,
    offset: Vec3,
    r: (i64, ImpactType),
) -> bool {
    exists|sc: Vec3|
        #[trigger] scatter_ok_s(dispersion, azimuth, range, sc) && shot_result_ok(
            gun,
            target,
            azimuth,
            clipped_aim_s(offset, sc),
            r,
        )
}

/// One dispersed shot: the mount's dispersion perturbs the aim point
/// before the attack resolves.
pub fn take_shot(dispersion: &Dispersion, gun: &Ammo, target: &ShipConfiguration, range: i64,
    azimuth: i64, offset: Vec3, rng: &mut ShotRng) -> (r: (i64, ImpactType))
    requires
        wf_dispersion(*dispersion),
        wf_shell(*gun),
        wf_configuration(*target),
        0 <= range <= dispersion.maxrange,
        sabs(azimuth as int) <= DEG360 as int,
        bounded(offset, 0x4000000),
    ensures
        dispersed_shot_ok(
            *dispersion,
            *gun,
            *target,
            azimuth as int,
            range as int,
            offset,
            r,
        ),
        0 <= r.0 <= DMG_MAX,
{
    let scatter = dispersion.generate_offset(azimuth, range, rng);
    let aimed = Vec3 {
        x: clip(offset.x + scatter.x, OFFSET_MAX),
        y: clip(offset.y + scatter.y, OFFSET_MAX),
        z: clip(offset.z + scatter.z, OFFSET_MAX),
    };
    assert(aimed == clipped_aim_s(offset, scatter));
    let r = simulate_attack(gun, target, range, azimuth, aimed, rng);
    proof {
        assert(scatter_ok_s(*dispersion, azimuth as int, range as int, scatter) && shot_result_ok(
            *gun,
            *target,
            azimuth as int,
            clipped_aim_s(offset, scatter),
            r,
        ));
    }
    r
}

/// A volley of independent dispersed shots: the mean damage over the
/// shot count, and the histogram of outcomes. Some sequence of per-shot
/// results, each a dispersed shot of this mount, carries exactly the
/// returned mean and histogram.
pub fn volley(count: u64, dispersion: &Dispersion, gun: &Ammo, target: &ShipConfiguration, range:
    i64, azimuth: i64, offset: Vec3, rng: &mut ShotRng) -> (r: (i64, ImpactCounts))
    requires
        wf_dispersion(*dispersion),
        wf_shell(*gun),
        wf_configuration(*target),
        0 <= range <= dispersion.maxrange,
        sabs(azimuth as int) <= DEG360 as int,
        bounded(offset, 0x4000000),
        1 <= count <= 4096,
    ensures
        counts_total(r.1) == count,
        exists|ds: Seq<(i64, ImpactType)>|
            #![trigger counts_of_s(ds)]
            {
                &&& ds.len() == count as nat
                &&& (forall|i: int|
                    0 <= i < ds.len() ==> dispersed_shot_ok(
                        *dispersion,
                        *gun,
                        *target,
                        azimuth as int,
                        range as int,
                        offset,
                        #[trigger] ds[i],
                    ))
                &&& r.1 == counts_of_s(ds)
                &&& r.0 == dmg_sum_s(ds) / (count as int)
            },
        0 <= r.0 <= DMG_MAX,
{
    let mut total: i64 = 0;
    let mut counts = ImpactCounts::new();
    let mut i: u64 = 0;
    let ghost mut ds: Seq<(i64, ImpactType)> = Seq::empty();
    while i < count
        invariant
            wf_dispersion(*dispersion),
            wf_shell(*gun),
            wf_configuration(*target),
            0 <= range <= dispersion.maxrange,
            sabs(azimuth as int) <= DEG360 as int,
            bounded(offset, 0x4000000),
            1 <= count <= 4096,
            i <= count,
            ds.len() == i as nat,
            counts == counts_of_s(ds),
            counts_total(counts) == i as int,
            total == dmg_sum_s(ds),
            0 <= total <= i * DMG_MAX as int,
            forall|j: int|
                0 <= j < ds.len() ==> dispersed_shot_ok(
                    *dispersion,
                    *gun,
                    *target,
                    azimuth as int,
                    range as int,
                    offset,
                    #[trigger] ds[j],
                ),
        decreases count - i,
    {
        let (damage, outcome) = take_shot(dispersion, gun, target, range, azimuth, offset, rng);
        proof {
            crate::fixed::lemma_mul_le(i as int, 4096, DMG_MAX as int, DMG_MAX as int);
            crate::fixed::lemma_mul_le(i as int + 1, 4096, DMG_MAX as int, DMG_MAX as int);
            assert((i + 1) * DMG_MAX as int == i * DMG_MAX as int + DMG_MAX as int)
                by (nonlinear_arith);
            let prev = ds;
            ds = ds.push((damage, outcome));
            assert(ds.drop_last() =~= prev);
            assert(ds.last() == (damage, outcome));
        }
        total = total + damage;
        counts.record(outcome);
        i = i + 1;
    }
    proof {
        vstd::arithmetic::div_mod::lemma_div_is_ordered(
            total as int,
            count as int * DMG_MAX as int,
            count as int,
        );
        vstd::arithmetic::div_mod::lemma_div_multiples_vanish(DMG_MAX as int, count as int);
        assert(count as int * DMG_MAX as int == DMG_MAX as int * count as int)
            by (nonlinear_arith);
        vstd::arithmetic::div_mod::lemma_div_is_ordered(0, total as int, count as int);
    }
    let mean = ((total as u64) / count) as i64;
    (mean, counts)
}

} // verus!
