use broadside::download::{cache_key, cache_key_with_params, concat_bytes};
use broadside::fixed::{isqrt, qdiv, qmul, qsqrt, ONE};
use broadside::geometry::Vec3;
use broadside::gun::{ArmorFace, ArmorType};
use broadside::series::{exp_q, ln_q, pow_q};
use broadside::shiplist::{countries, get_country_ships, get_ship_list};

const M: i64 = 65536;

fn face_x0() -> ArmorFace {
    ArmorFace::new(
        Vec3 { x: 0, y: -100 * M, z: -100 * M },
        Vec3 { x: 0, y: 200 * M, z: -100 * M },
        Vec3 { x: 0, y: -100 * M, z: 200 * M },
        50 * ONE,
        ArmorType::Normal,
    )
}

#[test]
fn intersect_straight_ray() {
    let f = face_x0();
    let origin = Vec3 { x: -10 * M, y: 0, z: 0 };
    let dir = Vec3 { x: M, y: 0, z: 0 };
    let hit = f.intersect(&origin, &dir).expect("must hit");
    assert_eq!(hit.t, 10 * M);
    assert_eq!(hit.point.x, 0);
    assert_eq!(hit.point.y, 0);
    assert_eq!(hit.point.z, 0);
    // Perpendicular hit: obliquity at the top of the scale.
    assert!(hit.angle > 89 * ONE);
}

#[test]
fn intersect_misses_outside_triangle() {
    let f = face_x0();
    let origin = Vec3 { x: -10 * M, y: 5000 * M, z: 0 };
    let dir = Vec3 { x: M, y: 0, z: 0 };
    assert!(f.intersect(&origin, &dir).is_none());
}

#[test]
fn intersect_parallel_ray() {
    let f = face_x0();
    let origin = Vec3 { x: -10 * M, y: 0, z: 0 };
    let dir = Vec3 { x: 0, y: M, z: 0 };
    assert!(f.intersect(&origin, &dir).is_none());
}

#[test]
fn reflect_perpendicular_reverses() {
    let f = face_x0();
    let d = Vec3 { x: -M, y: 0, z: 0 };
    let r = f.reflect(&d);
    assert_eq!(r.x, -M);
    assert_eq!(r.y, 0);
    assert_eq!(r.z, 0);
}

#[test]
fn reflect_mirrors_oblique_ray() {
    let f = face_x0();
    let d = Vec3 { x: -46340, y: -46340, z: 0 };
    let r = f.reflect(&d);
    // The component along the normal flips; the tangential one stays.
    assert!((r.x + 46340).abs() < 10);
    assert!((r.y - 46340).abs() < 10);
    assert_eq!(r.z, 0);
}

#[test]
fn reflect_twice_restores_direction() {
    let f = face_x0();
    let d = Vec3 { x: -46340, y: -46340, z: 0 };
    let once = f.reflect(&d);
    let twice = f.reflect(&once);
    assert!((twice.x - d.x).abs() < 10);
    assert!((twice.y - d.y).abs() < 10);
    assert_eq!(twice.z, 0);
}

#[test]
fn square_roots_are_exact_on_squares() {
    assert_eq!(isqrt(144), 12);
    assert_eq!(isqrt(143), 11);
    assert_eq!(qsqrt(4 * ONE), 2 * ONE);
    assert_eq!(qsqrt(0), 0);
}

#[test]
fn fixed_point_arithmetic() {
    assert_eq!(qmul(2 * ONE, 3 * ONE), 6 * ONE);
    assert_eq!(qdiv(6 * ONE, 3 * ONE), 2 * ONE);
    assert_eq!(qmul(-2 * ONE, 3 * ONE), -6 * ONE);
    assert_eq!(qdiv(-6 * ONE, 3 * ONE), -2 * ONE);
}

#[test]
fn exp_ln_and_pow() {
    assert_eq!(ln_q(ONE), 0);
    assert_eq!(exp_q(0), ONE);
    // ln(2) within a few millionths.
    assert!((ln_q(2 * ONE) - 2977044471).abs() < 50000);
    // 4^(1/2) = 2.
    let half = ONE / 2;
    assert!((pow_q(4 * ONE, half) - 2 * ONE).abs() < 100000);
    // 2^3 = 8.
    assert!((pow_q(2 * ONE, 3 * ONE) - 8 * ONE).abs() < 400000);
}

#[test]
fn cache_key_matches_digest() {
    let key = cache_key(&b"hello".to_vec());
    assert_eq!(
        key,
        "2cf24dba5fb0a30e26e83b2ac5b9e29e1b161e5c1fa7425e73043362938b9824"
    );
}

#[test]
fn cache_key_with_params_concatenates() {
    let key = cache_key_with_params(&b"abc".to_vec(), &b"de".to_vec(), &b"f".to_vec());
    assert_eq!(
        key,
        "bef57ec7f53a6d40beb640a780a639c83bc29ac8a9816f1fc6c5c6dcd93c4721"
    );
    let joined = concat_bytes(&b"abc".to_vec(), &b"def".to_vec());
    assert_eq!(joined, b"abcdef".to_vec());
}

#[test]
fn country_page_yields_vehicle_ids() {
    let page = b"<html><body>\
        <a href=\"/games/worldofwarships/vehicles/pjsb018\">one</a>\
        <a href=\"/games/worldofwarships/vehicles/japan\">index</a>\
        <a href=\"/other/path\">other</a>\
        <a href=\"/games/worldofwarships/vehicles/pasc020\">two</a>\
        </body></html>"
        .to_vec();
    let ids = get_country_ships(&page);
    assert_eq!(ids, vec![b"pjsb018".to_vec(), b"pasc020".to_vec()]);
}

#[test]
fn ship_list_concatenates_pages() {
    let page_a = b"<a href=\"/games/worldofwarships/vehicles/pjsb018\">a</a>".to_vec();
    let page_b = b"<a href=\"/games/worldofwarships/vehicles/pasc020\">b</a>".to_vec();
    let ids = get_ship_list(&vec![page_a, page_b]);
    assert_eq!(ids, vec![b"pjsb018".to_vec(), b"pasc020".to_vec()]);
    assert_eq!(countries().len(), 11);
}
