use broadside::ballistics::{Ballistics, Dispersion};
use broadside::fixed::{qmul, ONE};
use broadside::geometry::Vec3;
use broadside::gun::{ApAmmo, ArmorFace, ArmorType, HeAmmo, ImpactType};
use broadside::rng::ShotRng;
use broadside::series::{cos_deg, sin_deg, DEG90};
use broadside::ship::{Ammo, Gun, Ship, ShipClass, ShipConfiguration};
use broadside::sim::{simulate_attack, take_shot, volley};
use broadside::gun::AmmoType;

const M: i64 = 65536;

fn wall(x_m: i64, thickness_mm: i64, class: ArmorType) -> ArmorFace {
    ArmorFace::new(
        Vec3 { x: x_m * M, y: -100 * M, z: -100 * M },
        Vec3 { x: x_m * M, y: 200 * M, z: -100 * M },
        Vec3 { x: x_m * M, y: -100 * M, z: 200 * M },
        thickness_mm * ONE,
        class,
    )
}

fn ap_300() -> ApAmmo {
    // caliber 300 mm, alpha 10000, detonator 0.01 s, threshold 30 mm
    ApAmmo::new(300 * ONE, 10000 * ONE, 42949672, 30 * ONE)
}

#[test]
fn scenario_citadel_detonation() {
    // Entry face 50 mm, citadel face 20 mm ten meters behind: the fuse
    // armed at the entry plate expires inside the citadel volume.
    let mesh = vec![
        wall(0, 50, ArmorType::Normal),
        wall(10, 20, ArmorType::Citadel),
    ];
    let ap = ap_300();
    let dir = Vec3 { x: M, y: 0, z: 0 };
    let offset = Vec3 { x: 0, y: 0, z: 0 };
    let mut rng = ShotRng::Seeded(7);
    let (damage, outcome) =
        ap.compute_damage(&mesh, 400 * ONE, 800 * ONE, dir, offset, &mut rng);
    assert_eq!(outcome, ImpactType::Citadel);
    assert_eq!(damage, 10000 * ONE);
}

#[test]
fn scenario_first_plate_failure() {
    let mesh = vec![
        wall(0, 50, ArmorType::Normal),
        wall(10, 20, ArmorType::Citadel),
    ];
    let ap = ap_300();
    let dir = Vec3 { x: M, y: 0, z: 0 };
    let offset = Vec3 { x: 0, y: 0, z: 0 };
    let mut rng = ShotRng::Seeded(7);
    let (damage, outcome) =
        ap.compute_damage(&mesh, 10 * ONE, 800 * ONE, dir, offset, &mut rng);
    assert_eq!(outcome, ImpactType::NonPenetration);
    assert_eq!(damage, 0);
}

#[test]
fn scenario_ricochet_off_single_face() {
    // Obliquity about 25 degrees (under the 30 degree line): always
    // ricochets; nothing lies along the reflected ray.
    let mesh = vec![wall(0, 100, ArmorType::Normal)];
    let ap = ap_300();
    let dir = Vec3 { x: 27696, y: 59395, z: 0 };
    let offset = Vec3 { x: 0, y: 0, z: 0 };
    let mut rng = ShotRng::Seeded(7);
    let (damage, outcome) =
        ap.compute_damage(&mesh, 400 * ONE, 800 * ONE, dir, offset, &mut rng);
    assert_eq!(outcome, ImpactType::Ricochet);
    assert_eq!(damage, 0);
}

#[test]
fn scenario_he_penetration() {
    let mesh = vec![wall(0, 30, ArmorType::Normal)];
    let he = HeAmmo::new(9000 * ONE, 100 * ONE);
    let dir = Vec3 { x: M, y: 0, z: 0 };
    let offset = Vec3 { x: 0, y: 0, z: 0 };
    let (damage, outcome) = he.compute_damage(&mesh, 0, 0, dir, offset);
    assert_eq!(outcome, ImpactType::Penetration);
    assert_eq!(damage, 3000 * ONE);
}

#[test]
fn he_thickness_gate() {
    // Piercing below the plate thickness: absorbed, no damage.
    let mesh = vec![wall(0, 30, ArmorType::Normal)];
    let he = HeAmmo::new(9000 * ONE, 20 * ONE);
    let dir = Vec3 { x: M, y: 0, z: 0 };
    let offset = Vec3 { x: 0, y: 0, z: 0 };
    let (damage, outcome) = he.compute_damage(&mesh, 0, 0, dir, offset);
    assert_eq!(outcome, ImpactType::NonPenetration);
    assert_eq!(damage, 0);
}

#[test]
fn he_miss_off_the_mesh() {
    let mesh = vec![wall(0, 30, ArmorType::Normal)];
    let he = HeAmmo::new(9000 * ONE, 100 * ONE);
    let dir = Vec3 { x: M, y: 0, z: 0 };
    let offset = Vec3 { x: 0, y: 5000 * M, z: 5000 * M };
    let (damage, outcome) = he.compute_damage(&mesh, 0, 0, dir, offset);
    assert_eq!(outcome, ImpactType::Miss);
    assert_eq!(damage, 0);
}

#[test]
fn ap_overpenetration_through_thin_plate() {
    let mesh = vec![wall(0, 50, ArmorType::Normal)];
    let ap = ap_300();
    let dir = Vec3 { x: M, y: 0, z: 0 };
    let offset = Vec3 { x: 0, y: 0, z: 0 };
    let mut rng = ShotRng::Seeded(7);
    let (damage, outcome) =
        ap.compute_damage(&mesh, 400 * ONE, 800 * ONE, dir, offset, &mut rng);
    assert_eq!(outcome, ImpactType::OverPenetration);
    assert_eq!(damage, qmul(429496729, 10000 * ONE));
}

#[test]
fn ap_torpedo_protection_absorbs() {
    let mesh = vec![
        wall(0, 50, ArmorType::Normal),
        wall(10, 500, ArmorType::TorpedoProtectionBelt),
    ];
    // High threshold: no fuse; the budget dies inside the belt.
    let ap = ApAmmo::new(300 * ONE, 10000 * ONE, 42949672, 1000 * ONE);
    let dir = Vec3 { x: M, y: 0, z: 0 };
    let offset = Vec3 { x: 0, y: 0, z: 0 };
    let mut rng = ShotRng::Seeded(7);
    let (damage, outcome) =
        ap.compute_damage(&mesh, 60 * ONE, 800 * ONE, dir, offset, &mut rng);
    assert_eq!(outcome, ImpactType::TorpedoProtection);
    assert_eq!(damage, 0);
}

#[test]
fn range_round_trip() {
    let b = Ballistics::new(
        300 * ONE,
        1288490188,
        800 * ONE,
        1288490188,
        2400 * ONE,
    );
    let (flight, converged) = b.calculate_flight_at_range(10000 * ONE);
    // The solver reports convergence only when the distance error is
    // under one meter; the landing step quantizes distance far more
    // coarsely, so most ranges end as best-effort approximations.
    if converged {
        assert!((flight.distance - 10000 * ONE).abs() < ONE);
    }
    assert!((flight.distance - 10000 * ONE).abs() < 200 * ONE);
    assert!(flight.velocity > 0);
    assert!(flight.penetration > 0);
    assert!(flight.impact_angle < 0);
}

#[test]
fn flight_lands_forward() {
    let b = Ballistics::new(
        300 * ONE,
        1288490188,
        800 * ONE,
        1288490188,
        2400 * ONE,
    );
    let f = b.calculate_flight(96636764160); // 22.5 degrees
    assert!(f.distance > 1000 * ONE);
    assert!(f.time_aloft > 0);
    assert!(f.velocity > 0);
}

#[test]
fn dispersion_bound_holds() {
    let d = Dispersion::new(100 * ONE, 100 * ONE, 85899345920000, 2 * ONE);
    let mut rng = ShotRng::Seeded(99);
    for _ in 0..50 {
        let (dx, dy) = d.offset_components(42949672960000, &mut rng);
        // Spread 100 m at half of maximum range: components stay under
        // 100 * (1/2) * (1/2) = 25 m.
        assert!(dx.abs() <= 25 * ONE);
        assert!(dy.abs() <= 25 * ONE);
    }
}

#[test]
fn seeded_rng_is_reproducible() {
    let mut a = ShotRng::Seeded(42);
    let mut b = ShotRng::Seeded(42);
    for _ in 0..8 {
        assert_eq!(a.next_u64(), b.next_u64());
    }
}

#[test]
fn volley_counts_every_shot() {
    let mesh = vec![wall(0, 30, ArmorType::Normal)];
    let target = ShipConfiguration::new(
        Vec::new(),
        mesh,
        0,
        0,
        String::from("target"),
    );
    let b = Ballistics::new(300 * ONE, 1288490188, 800 * ONE, 1288490188, 2400 * ONE);
    let ammo = Ammo::new(AmmoType::He(HeAmmo::new(9000 * ONE, 100 * ONE)), b);
    let d = Dispersion::new(100 * ONE, 100 * ONE, 85899345920000, 2 * ONE);
    let mut rng = ShotRng::Seeded(5);
    let (mean, counts) = volley(
        10,
        &d,
        &ammo,
        &target,
        42949672960000,
        0,
        Vec3 { x: 0, y: 0, z: 0 },
        &mut rng,
    );
    let n = counts.miss
        + counts.non_penetration
        + counts.citadel
        + counts.penetration
        + counts.torpedo_protection
        + counts.ricochet
        + counts.over_penetration
        + counts.traversal_exhausted;
    assert_eq!(n, 10);
    // HE against a thin plate: every non-miss lands a third of alpha,
    // so the mean never exceeds it.
    assert!(mean >= 0);
    assert!(mean <= 3000 * ONE);
}

#[test]
fn single_shot_resolves() {
    let mesh = vec![wall(0, 30, ArmorType::Normal)];
    let target = ShipConfiguration::new(Vec::new(), mesh, 0, 0, String::from("t"));
    let b = Ballistics::new(300 * ONE, 1288490188, 800 * ONE, 1288490188, 2400 * ONE);
    let ammo = Ammo::new(AmmoType::He(HeAmmo::new(9000 * ONE, 100 * ONE)), b);
    let mut rng = ShotRng::Seeded(5);
    let (damage, _outcome) = simulate_attack(
        &ammo,
        &target,
        10000 * ONE,
        0,
        Vec3 { x: 0, y: 0, z: 0 },
        &mut rng,
    );
    assert!(damage >= 0);
    let d = Dispersion::new(100 * ONE, 100 * ONE, 85899345920000, 2 * ONE);
    let (damage2, _outcome2) = take_shot(
        &d,
        &ammo,
        &target,
        10000 * ONE,
        0,
        Vec3 { x: 0, y: 0, z: 0 },
        &mut rng,
    );
    assert!(damage2 >= 0);
}

#[test]
fn battle_tiers_overlap_as_tabled() {
    let cfg = || Vec::<ShipConfiguration>::new();
    let mk = |tier| Ship::new(cfg(), tier, String::from("s"), ShipClass::Cruiser);
    assert!(mk(5).can_battle_with(&mk(7)));
    assert!(mk(7).can_battle_with(&mk(5)));
    assert!(!mk(1).can_battle_with(&mk(3)));
    assert!(mk(1).can_battle_with(&mk(1)));
    assert!(mk(8).can_battle_with(&mk(10)));
    assert!(!mk(5).can_battle_with(&mk(8)));
    assert!(!mk(0).can_battle_with(&mk(5)));
    assert!(!mk(11).can_battle_with(&mk(5)));
    assert!(mk(9).can_battle_with(&mk(10)));
    assert!(!mk(2).can_battle_with(&mk(5)));
}

#[test]
fn armor_class_of_material_id() {
    assert_eq!(ArmorType::from_id(58), ArmorType::Normal);
    assert_eq!(ArmorType::from_id(59), ArmorType::Citadel);
    assert_eq!(ArmorType::from_id(67), ArmorType::Citadel);
    assert_eq!(ArmorType::from_id(68), ArmorType::Normal);
    assert_eq!(ArmorType::from_id(101), ArmorType::TorpedoProtectionBelt);
    assert_eq!(ArmorType::from_id(0), ArmorType::Normal);
}

#[test]
fn mount_holds_its_parts() {
    let b = Ballistics::new(300 * ONE, 1288490188, 800 * ONE, 1288490188, 2400 * ONE);
    let ammo = Ammo::new(AmmoType::Ap(ap_300()), b);
    let d = Dispersion::new(100 * ONE, 100 * ONE, 85899345920000, 2 * ONE);
    let gun = Gun::new(d, vec![ammo]);
    assert_eq!(gun.ammo.len(), 1);
}

#[test]
fn trig_matches_known_values() {
    assert_eq!(cos_deg(0), ONE);
    let s30 = sin_deg(30 * ONE);
    assert!((s30 - ONE / 2).abs() < 200000);
    let s90 = sin_deg(DEG90);
    assert!((s90 - ONE).abs() < 200000);
    let c180 = cos_deg(180 * ONE);
    assert!((c180 + ONE).abs() < 200000);
    let sm45 = sin_deg(-45 * ONE);
    assert!(sm45 < 0);
}
