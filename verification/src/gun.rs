//! Armor plating and the shell's path through it: ray–triangle
//! intersection with obliquity, the impact-path walker, and the HE and
//! AP damage resolvers.
//!
//! Scalars (angles in degrees, thicknesses in mm, damage points,
//! speeds) are Q32 fixed point; coordinates are Q16.

use vstd::prelude::*;
use crate::fixed::{ONE, sabs, tdiv, sqrt_s, isqrt, lemma_abs_mul, lemma_mul_le, tdiv_i128,
    lemma_tdiv_bound, lemma_sqrt_s, lemma_square_nonneg, qmul, qmul_s};
use crate::geometry::{Vec3, bounded, dot_s, is_zero, vsub, neg, dot, cross, normalize, normalize_s,
    norm_sq, lemma_dot_bound, ONE16, COORD_MAX, DIR_MAX};
use crate::series::{asin_deg, asin_deg_s, sin_deg, sin_deg_s, DEG90};
use crate::rng::ShotRng;

verus! {

/// Armor classes of a mesh face.
#[derive(Clone, Copy, Debug, PartialEq, Eq, Structural, Hash)]
pub enum ArmorType {
    Normal,
    Citadel,
    TorpedoProtectionBelt,
}

impl ArmorType {
    /// The armor class behind an ingested material identifier: 59
    /// through 67 are citadel plating, 101 the torpedo protection belt.
    pub fn from_id(id: usize) -> (r: ArmorType)
        ensures
            (r == ArmorType::Citadel) <==> (59 <= id <= 67),
            (r == ArmorType::TorpedoProtectionBelt) <==> (id == 101),
            (r == ArmorType::Normal) <==> (!(59 <= id <= 67) && id != 101),
    {
        if id >= 59 && id <= 67 {
            ArmorType::Citadel
        } else if id == 101 {
            ArmorType::TorpedoProtectionBelt
        } else {
            ArmorType::Normal
        }
    }
}

/// The largest thickness a face may carry (10000 mm, Q32).
pub const THICK_MAX: i64 = 42949672960000;

/// The largest penetration capacity a shell may carry (Q32 mm).
pub const PEN_MAX: i64 = 0x4000000000000;

/// Effective thickness of a plate hit so obliquely that the grid sine
/// vanishes: larger than any penetration capacity.
pub const PEN_INF: i64 = 0x1000000000000000;

/// The largest impact speed (8000 m/s, Q32).
pub const VEL_LIM: i64 = 34359738368000;

/// The largest damage value of an ammunition record (Q32).
pub const DMG_MAX: i64 = 0x4000000000000;

/// Offsets handed to the resolvers stay within 2048 m of the origin,
/// so the cast origin 1000 m behind them stays in the coordinate box.
pub const OFFSET_MAX: i64 = 0x8000000;

/// A triangular armor plate: three vertices, a thickness in mm, and an
/// armor class.
#[derive(Clone, Copy, Debug)]
pub struct ArmorFace {
    pub v0: Vec3,
    pub v1: Vec3,
    pub v2: Vec3,
    pub thickness: i64,
    pub armor_type: ArmorType,
}

pub open spec fn wf_face(f: ArmorFace) -> bool {
    &&& bounded(f.v0, COORD_MAX as int)
    &&& bounded(f.v1, COORD_MAX as int)
    &&& bounded(f.v2, COORD_MAX as int)
    &&& 0 <= f.thickness <= THICK_MAX
}

pub open spec fn wf_mesh(mesh: Seq<ArmorFace>) -> bool {
    forall|i: int| 0 <= i < mesh.len() ==> wf_face(#[trigger] mesh[i])
}

/// A hit: the ray parameter (Q16), the obliquity angle in degrees
/// (Q32, 0 grazing to 90 perpendicular), and the hit point.
#[derive(Clone, Copy, Debug)]
pub struct Intersection {
    pub t: i64,
    pub angle: i64,
    pub point: Vec3,
}

/// The unnormalized face normal: the cross product of the two edges
/// out of the first vertex.
pub open spec fn normal_x_s(f: ArmorFace) -> int {
    (f.v1.y - f.v0.y) * (f.v2.z - f.v0.z) - (f.v1.z - f.v0.z) * (f.v2.y - f.v0.y)
}

pub open spec fn normal_y_s(f: ArmorFace) -> int {
    (f.v1.z - f.v0.z) * (f.v2.x - f.v0.x) - (f.v1.x - f.v0.x) * (f.v2.z - f.v0.z)
}

pub open spec fn normal_z_s(f: ArmorFace) -> int {
    (f.v1.x - f.v0.x) * (f.v2.y - f.v0.y) - (f.v1.y - f.v0.y) * (f.v2.x - f.v0.x)
}

/// The determinant of the ray–triangle system: the triple product of
/// the first edge, the ray direction, and the second edge.
pub open spec fn det_s(f: ArmorFace, d: Vec3) -> int {
    let e2x = f.v2.x - f.v0.x;
    let e2y = f.v2.y - f.v0.y;
    let e2z = f.v2.z - f.v0.z;
    let hx = d.y * e2z - d.z * e2y;
    let hy = d.z * e2x - d.x * e2z;
    let hz = d.x * e2y - d.y * e2x;
    (f.v1.x - f.v0.x) * hx + (f.v1.y - f.v0.y) * hy + (f.v1.z - f.v0.z) * hz
}

/// The numerator of the first barycentric coordinate.
pub open spec fn unum_s(f: ArmorFace, o: Vec3, d: Vec3) -> int {
    let e2x = f.v2.x - f.v0.x;
    let e2y = f.v2.y - f.v0.y;
    let e2z = f.v2.z - f.v0.z;
    let hx = d.y * e2z - d.z * e2y;
    let hy = d.z * e2x - d.x * e2z;
    let hz = d.x * e2y - d.y * e2x;
    (o.x - f.v0.x) * hx + (o.y - f.v0.y) * hy + (o.z - f.v0.z) * hz
}

/// The numerator of the second barycentric coordinate.
pub open spec fn vnum_s(f: ArmorFace, o: Vec3, d: Vec3) -> int {
    let sx = o.x - f.v0.x;
    let sy = o.y - f.v0.y;
    let sz = o.z - f.v0.z;
    let e1x = f.v1.x - f.v0.x;
    let e1y = f.v1.y - f.v0.y;
    let e1z = f.v1.z - f.v0.z;
    let qx = sy * e1z - sz * e1y;
    let qy = sz * e1x - sx * e1z;
    let qz = sx * e1y - sy * e1x;
    d.x * qx + d.y * qy + d.z * qz
}

/// The numerator of the ray parameter.
pub open spec fn tnum_s(f: ArmorFace, o: Vec3, d: Vec3) -> int {
    let sx = o.x - f.v0.x;
    let sy = o.y - f.v0.y;
    let sz = o.z - f.v0.z;
    let e1x = f.v1.x - f.v0.x;
    let e1y = f.v1.y - f.v0.y;
    let e1z = f.v1.z - f.v0.z;
    let qx = sy * e1z - sz * e1y;
    let qy = sz * e1x - sx * e1z;
    let qz = sx * e1y - sy * e1x;
    (f.v2.x - f.v0.x) * qx + (f.v2.y - f.v0.y) * qy + (f.v2.z - f.v0.z) * qz
}

/// A determinant smaller than this counts as parallel (1e-5 of the
/// unit-scale determinant, in raw Q16-cubed units).
pub const EPS_DET: i64 = 2814749;

/// The ray parameter stays within this bound (Q16).
pub const T_RAW_MAX: i64 = 0x400000000;

/// The ray meets the triangle: the determinant clears the parallelism
/// threshold and the barycentric coordinates lie inside the triangle.
pub open spec fn hit_ok_s(f: ArmorFace, o: Vec3, d: Vec3) -> bool {
    let det = det_s(f, d);
    let u = unum_s(f, o, d);
    let v = vnum_s(f, o, d);
    &&& sabs(det) >= EPS_DET as int
    &&& if det > 0 {
        0 <= u <= det && 0 <= v && u + v <= det
    } else {
        det <= u <= 0 && v <= 0 && det <= u + v
    }
}

/// The ray parameter of the hit, on the Q16 grid.
pub open spec fn t_raw_s(f: ArmorFace, o: Vec3, d: Vec3) -> int {
    tdiv(tnum_s(f, o, d) * 65536, det_s(f, d))
}

pub open spec fn hit_x_s(f: ArmorFace, o: Vec3, d: Vec3) -> int {
    o.x + tdiv(t_raw_s(f, o, d) * d.x, 65536)
}

pub open spec fn hit_y_s(f: ArmorFace, o: Vec3, d: Vec3) -> int {
    o.y + tdiv(t_raw_s(f, o, d) * d.y, 65536)
}

pub open spec fn hit_z_s(f: ArmorFace, o: Vec3, d: Vec3) -> int {
    o.z + tdiv(t_raw_s(f, o, d) * d.z, 65536)
}

/// The hit stays on the supported grid: ray parameter and hit point
/// within their boxes.
pub open spec fn in_box_s(f: ArmorFace, o: Vec3, d: Vec3) -> bool {
    &&& sabs(t_raw_s(f, o, d)) <= T_RAW_MAX as int
    &&& sabs(hit_x_s(f, o, d)) <= COORD_MAX as int
    &&& sabs(hit_y_s(f, o, d)) <= COORD_MAX as int
    &&& sabs(hit_z_s(f, o, d)) <= COORD_MAX as int
}

/// Squared length of the unnormalized normal.
pub open spec fn nn_s(f: ArmorFace) -> int {
    normal_x_s(f) * normal_x_s(f) + normal_y_s(f) * normal_y_s(f) + normal_z_s(f) * normal_z_s(f)
}

/// Squared length of the ray direction.
pub open spec fn dd_s(d: Vec3) -> int {
    dot_s(d, d)
}

/// The cosine of the angle between the face normal and the ray, folded
/// to be nonnegative and clamped to one (Q32).
pub open spec fn obliquity_cos_s(f: ArmorFace, d: Vec3) -> int {
    let anum = sabs(d.x * normal_x_s(f) + d.y * normal_y_s(f) + d.z * normal_z_s(f));
    let c = tdiv(anum * (ONE as int), sqrt_s(nn_s(f)) * sqrt_s(dd_s(d)));
    if c > ONE as int {
        ONE as int
    } else {
        c
    }
}

/// The obliquity angle in Q32 degrees: zero grazing, ninety
/// perpendicular.
pub open spec fn angle_s(f: ArmorFace, d: Vec3) -> int {
    asin_deg_s(obliquity_cos_s(f, d))
}

/// The intersection record the hit produces.
pub open spec fn hit_matches(f: ArmorFace, o: Vec3, d: Vec3, it: Intersection) -> bool {
    &&& it.t == t_raw_s(f, o, d)
    &&& it.angle == angle_s(f, d)
    &&& it.point.x == hit_x_s(f, o, d)
    &&& it.point.y == hit_y_s(f, o, d)
    &&& it.point.z == hit_z_s(f, o, d)
}

/// A complete forward hit: the ray meets the triangle ahead of its
/// origin, within the supported grid, with well-defined obliquity.
pub open spec fn fwd_hit(f: ArmorFace, o: Vec3, d: Vec3) -> bool {
    &&& hit_ok_s(f, o, d)
    &&& in_box_s(f, o, d)
    &&& nn_s(f) > 0
    &&& dd_s(d) > 0
    &&& t_raw_s(f, o, d) >= 1
}

pub open spec fn some_fwd_hit(mesh: Seq<ArmorFace>, o: Vec3, d: Vec3) -> bool {
    exists|i: int| 0 <= i < mesh.len() && fwd_hit(#[trigger] mesh[i], o, d)
}

impl ArmorFace {
    pub fn new(v0: Vec3, v1: Vec3, v2: Vec3, thickness: i64, armor_type: ArmorType) -> (r:
        ArmorFace)
        requires
            bounded(v0, COORD_MAX as int),
            bounded(v1, COORD_MAX as int),
            bounded(v2, COORD_MAX as int),
            0 <= thickness <= THICK_MAX,
        ensures
            r == (ArmorFace { v0, v1, v2, thickness, armor_type }),
            wf_face(r),
    {
        ArmorFace { v0, v1, v2, thickness, armor_type }
    }

    /// The unit normal, derived from vertex order: the normalized cross
    /// product of the two edges out of the first vertex.
    pub fn normal(&self) -> (r: Vec3)
        requires
            wf_face(*self),
            !(normal_x_s(*self) == 0 && normal_y_s(*self) == 0 && normal_z_s(*self) == 0),
        ensures
            (r.x as int, r.y as int, r.z as int) == normalize_s(
                normal_x_s(*self),
                normal_y_s(*self),
                normal_z_s(*self),
            ),
            bounded(r, 65536),
    {
        let e1 = vsub(&self.v1, &self.v0);
        let e2 = vsub(&self.v2, &self.v0);
        let n0 = cross(&e1, &e2);
        normalize(&n0)
    }

    /// The direction a shell leaves in when it glances off this face:
    /// the incoming direction is reversed, normalized, and mirrored
    /// about the unit normal whose sign opposes it. Degenerate faces
    /// and zero directions reflect to the incoming direction itself.
    pub fn reflect(&self, other: &Vec3) -> (r: Vec3)
        requires
            wf_face(*self),
            bounded(*other, DIR_MAX as int),
        ensures
            (r.x as int, r.y as int, r.z as int) == reflect_s(*self, *other),
            bounded(r, DIR_MAX as int),
    {
        let e1 = vsub(&self.v1, &self.v0);
        let e2 = vsub(&self.v2, &self.v0);
        let n0 = cross(&e1, &e2);
        if other.x == 0 && other.y == 0 && other.z == 0 {
            return *other;
        }
        if n0.x == 0 && n0.y == 0 && n0.z == 0 {
            return *other;
        }
        let vneg = neg(other);
        let v = normalize(&vneg);
        let nu = normalize(&n0);
        assert((v.x as int, v.y as int, v.z as int) == normalize_s(
            -other.x as int,
            -other.y as int,
            -other.z as int,
        ));
        assert((nu.x as int, nu.y as int, nu.z as int) == normalize_s(
            normal_x_s(*self),
            normal_y_s(*self),
            normal_z_s(*self),
        ));
        let d0 = dot(&v, &nu);
        let n = if d0 < 0 {
            neg(&nu)
        } else {
            nu
        };
        let vn = dot(&v, &n);
        proof {
            lemma_dot_bound(v, n, 65536, 65536);
            lemma_tdiv_bound(vn as int, 65536, 196608);
        }
        let scale: i64 = 2 * (tdiv_i128(vn, 65536) as i64);
        assert(scale as int == ({
            let vs = normalize_s(-other.x as int, -other.y as int, -other.z as int);
            let ns0 = normalize_s(normal_x_s(*self), normal_y_s(*self), normal_z_s(*self));
            let dd0 = vs.0 * ns0.0 + vs.1 * ns0.1 + vs.2 * ns0.2;
            let ns = if dd0 < 0 {
                (-ns0.0, -ns0.1, -ns0.2)
            } else {
                ns0
            };
            2 * tdiv(vs.0 * ns.0 + vs.1 * ns.1 + vs.2 * ns.2, 65536)
        }));
        proof {
            lemma_abs_mul(scale as int, n.x as int, 393216, 65536);
            lemma_abs_mul(scale as int, n.y as int, 393216, 65536);
            lemma_abs_mul(scale as int, n.z as int, 393216, 65536);
            lemma_tdiv_bound(scale as int * n.x as int, 65536, 393216);
            lemma_tdiv_bound(scale as int * n.y as int, 65536, 393216);
            lemma_tdiv_bound(scale as int * n.z as int, 65536, 393216);
        }
        let rx = v.x - tdiv_i128((scale as i128) * (n.x as i128), 65536) as i64;
        let ry = v.y - tdiv_i128((scale as i128) * (n.y as i128), 65536) as i64;
        let rz = v.z - tdiv_i128((scale as i128) * (n.z as i128), 65536) as i64;
        if rx == 0 && ry == 0 && rz == 0 {
            return *other;
        }
        normalize(&Vec3 { x: rx, y: ry, z: rz })
    }

    /// Ray–triangle intersection with obliquity: division-free
    /// barycentric tests against the determinant, a grid ray parameter,
    /// and the obliquity angle of the hit.
    ///
    /// A geometric miss (near-parallel ray or barycentrics outside the
    /// triangle) is always `None`; `None` also covers the grid guards
    /// (ray parameter or hit point beyond their boxes, degenerate
    /// normal or zero direction), the robustness widening of the
    /// supported coordinate ranges.
    #[verifier::rlimit(100)]
    #[verifier::spinoff_prover]
    pub fn intersect(&self, origin: &Vec3, direction: &Vec3) -> (r: Option<Intersection>)
        requires
            wf_face(*self),
            bounded(*origin, COORD_MAX as int),
            bounded(*direction, DIR_MAX as int),
        ensures
            match r {
                Some(it) => hit_ok_s(*self, *origin, *direction) && in_box_s(
                    *self,
                    *origin,
                    *direction,
                ) && nn_s(*self) > 0 && dd_s(*direction) > 0 && hit_matches(
                    *self,
                    *origin,
                    *direction,
                    it,
                ) && 0 <= it.angle <= DEG90 && bounded(it.point, COORD_MAX as int) && sabs(
                    it.t as int,
                ) <= T_RAW_MAX as int,
                None => !(hit_ok_s(*self, *origin, *direction) && in_box_s(
                    *self,
                    *origin,
                    *direction,
                ) && nn_s(*self) > 0 && dd_s(*direction) > 0),
            },
            !hit_ok_s(*self, *origin, *direction) ==> r is None,
    {
        let e1 = vsub(&self.v1, &self.v0);
        let e2 = vsub(&self.v2, &self.v0);
        let h = cross(direction, &e2);
        let a = dot(&e1, &h);
        proof {
            lemma_dot_bound(e1, h, 0x20000000, 0x800000000000000);
        }
        if a > -(EPS_DET as i128) && a < EPS_DET as i128 {
            return None;
        }
        let s = vsub(origin, &self.v0);
        let unum = dot(&s, &h);
        if a > 0 {
            if unum < 0 || unum > a {
                return None;
            }
        } else {
            if unum > 0 || unum < a {
                return None;
            }
        }
        let q = cross(&s, &e1);
        let vnum = dot(direction, &q);
        proof {
            lemma_dot_bound(s, h, 0x20000000, 0x800000000000000);
            lemma_dot_bound(*direction, q, 0x20000, 0x800000000000000);
        }
        if a > 0 {
            if vnum < 0 || unum + vnum > a {
                return None;
            }
        } else {
            if vnum > 0 || unum + vnum < a {
                return None;
            }
        }
        let tnum = dot(&e2, &q);
        proof {
            lemma_dot_bound(e2, q, 0x20000000, 0x800000000000000);
            lemma_abs_mul(tnum as int, 65536, sabs(tnum as int), 65536);
        }
        let tn: i128 = tnum * 65536;
        let t128: i128 = if a >= 1 {
            tdiv_i128(tn, a)
        } else {
            -tdiv_i128(tn, -a)
        };
        assert(t128 as int == tdiv(tn as int, a as int));
        if t128 > T_RAW_MAX as i128 || t128 < -(T_RAW_MAX as i128) {
            return None;
        }
        let t = t128 as i64;
        proof {
            lemma_abs_mul(t as int, direction.x as int, T_RAW_MAX as int, DIR_MAX as int);
            lemma_abs_mul(t as int, direction.y as int, T_RAW_MAX as int, DIR_MAX as int);
            lemma_abs_mul(t as int, direction.z as int, T_RAW_MAX as int, DIR_MAX as int);
        }
        let hx = origin.x as i128 + tdiv_i128((t as i128) * (direction.x as i128), 65536);
        let hy = origin.y as i128 + tdiv_i128((t as i128) * (direction.y as i128), 65536);
        let hz = origin.z as i128 + tdiv_i128((t as i128) * (direction.z as i128), 65536);
        if hx > COORD_MAX as i128 || hx < -(COORD_MAX as i128) || hy > COORD_MAX as i128 || hy < -(
        COORD_MAX as i128) || hz > COORD_MAX as i128 || hz < -(COORD_MAX as i128) {
            return None;
        }
        let hit = Vec3 { x: hx as i64, y: hy as i64, z: hz as i64 };
        let n0 = cross(&e1, &e2);
        let nn = norm_sq(&n0);
        let dd = norm_sq(direction);
        if nn == 0 || dd == 0 {
            return None;
        }
        let magn = isqrt(nn as u128);
        let magd = isqrt(dd as u128);
        assert(magn >= 1 && magd >= 1 && magn as int <= 0x1000000000000000int && magd as int
            <= 0x1000000000000000int) by (nonlinear_arith)
            requires
                magn as int * magn as int <= nn as int,
                (nn as int) < (magn as int + 1) * (magn as int + 1),
                magd as int * magd as int <= dd as int,
                (dd as int) < (magd as int + 1) * (magd as int + 1),
                nn >= 1,
                dd >= 1,
                nn as int <= 0x1000000000000000000000000000000int,
                dd as int <= 0x1000000000000000000000000000000int,
                magn >= 0,
                magd >= 0,
        ;
        proof {
            lemma_mul_le(magn as int, 0x1000000000000000, magd as int, 0x1000000000000000);
        }
        let m2: i128 = (magn as i128) * (magd as i128);
        assert(m2 >= 1 && m2 as int == sqrt_s(nn as int) * sqrt_s(dd as int)) by (nonlinear_arith)
            requires
                m2 as int == magn as int * magd as int,
                magn as int == sqrt_s(nn as int),
                magd as int == sqrt_s(dd as int),
                magn >= 1,
                magd >= 1,
        ;
        let and = dot(direction, &n0);
        proof {
            lemma_dot_bound(*direction, n0, 0x20000, 0x800000000000000);
        }
        let anum: i128 = if and < 0 {
            -and
        } else {
            and
        };
        proof {
            lemma_abs_mul(anum as int, ONE as int, sabs(anum as int), ONE as int);
        }
        let c128 = tdiv_i128(anum * (ONE as i128), m2);
        let c: i64 = if c128 > ONE as i128 {
            ONE
        } else {
            c128 as i64
        };
        assert(c as int == obliquity_cos_s(*self, *direction));
        let angle = asin_deg(c);
        Some(Intersection { t, angle, point: hit })
    }
}

/// The determinant is the negated projection of the ray direction on
/// the unnormalized face normal: one of the two triple-product
/// identities behind the intersection test.
pub proof fn lemma_det_is_normal_projection(f: ArmorFace, o: Vec3, d: Vec3)
    ensures
        det_s(f, d) == -(d.x * normal_x_s(f) + d.y * normal_y_s(f) + d.z * normal_z_s(f)),
        tnum_s(f, o, d) == (o.x - f.v0.x) * normal_x_s(f) + (o.y - f.v0.y) * normal_y_s(f) + (o.z
            - f.v0.z) * normal_z_s(f),
{
    let e1x = f.v1.x - f.v0.x;
    let e1y = f.v1.y - f.v0.y;
    let e1z = f.v1.z - f.v0.z;
    let e2x = f.v2.x - f.v0.x;
    let e2y = f.v2.y - f.v0.y;
    let e2z = f.v2.z - f.v0.z;
    let sx = o.x - f.v0.x;
    let sy = o.y - f.v0.y;
    let sz = o.z - f.v0.z;
    assert(e1x * (d.y * e2z - d.z * e2y) == d.y * (e1x * e2z) - d.z * (e1x * e2y))
        by (nonlinear_arith);
    assert(e1y * (d.z * e2x - d.x * e2z) == d.z * (e1y * e2x) - d.x * (e1y * e2z))
        by (nonlinear_arith);
    assert(e1z * (d.x * e2y - d.y * e2x) == d.x * (e1z * e2y) - d.y * (e1z * e2x))
        by (nonlinear_arith);
    assert(d.x * (e1y * e2z - e1z * e2y) == d.x * (e1y * e2z) - d.x * (e1z * e2y))
        by (nonlinear_arith);
    assert(d.y * (e1z * e2x - e1x * e2z) == d.y * (e1z * e2x) - d.y * (e1x * e2z))
        by (nonlinear_arith);
    assert(d.z * (e1x * e2y - e1y * e2x) == d.z * (e1x * e2y) - d.z * (e1y * e2x))
        by (nonlinear_arith);
    assert(e2x * (sy * e1z - sz * e1y) == sy * (e1z * e2x) - sz * (e1y * e2x))
        by (nonlinear_arith);
    assert(e2y * (sz * e1x - sx * e1z) == sz * (e1x * e2y) - sx * (e1z * e2y))
        by (nonlinear_arith);
    assert(e2z * (sx * e1y - sy * e1x) == sx * (e1y * e2z) - sy * (e1x * e2z))
        by (nonlinear_arith);
    assert(sx * (e1y * e2z - e1z * e2y) == sx * (e1y * e2z) - sx * (e1z * e2y))
        by (nonlinear_arith);
    assert(sy * (e1z * e2x - e1x * e2z) == sy * (e1z * e2x) - sy * (e1x * e2z))
        by (nonlinear_arith);
    assert(sz * (e1x * e2y - e1y * e2x) == sz * (e1x * e2y) - sz * (e1y * e2x))
        by (nonlinear_arith);
}

/// Intersection containment, exact half: scaled by the determinant, the
/// hit point lies in the face's plane. With the barycentric bounds that
/// `hit_ok_s` carries, a successful intersection lies on its triangle.
pub proof fn lemma_hit_in_plane(f: ArmorFace, o: Vec3, d: Vec3)
    ensures
        det_s(f, d) * ((o.x - f.v0.x) * normal_x_s(f) + (o.y - f.v0.y) * normal_y_s(f) + (o.z
            - f.v0.z) * normal_z_s(f)) + tnum_s(f, o, d) * (d.x * normal_x_s(f) + d.y
            * normal_y_s(f) + d.z * normal_z_s(f)) == 0,
{
    lemma_det_is_normal_projection(f, o, d);
    let sn = (o.x - f.v0.x) * normal_x_s(f) + (o.y - f.v0.y) * normal_y_s(f) + (o.z - f.v0.z)
        * normal_z_s(f);
    let dn = d.x * normal_x_s(f) + d.y * normal_y_s(f) + d.z * normal_z_s(f);
    assert((-dn) * sn + sn * dn == 0) by (nonlinear_arith);
}

/// The reflected direction, as `reflect` computes it.
pub open spec fn reflect_s(f: ArmorFace, other: Vec3) -> (int, int, int) {
    if is_zero(other) || (normal_x_s(f) == 0 && normal_y_s(f) == 0 && normal_z_s(f) == 0) {
        (other.x as int, other.y as int, other.z as int)
    } else {
        let v = normalize_s(-other.x as int, -other.y as int, -other.z as int);
        let nu = normalize_s(normal_x_s(f), normal_y_s(f), normal_z_s(f));
        let d0 = v.0 * nu.0 + v.1 * nu.1 + v.2 * nu.2;
        let n = if d0 < 0 {
            (-nu.0, -nu.1, -nu.2)
        } else {
            nu
        };
        let vn = v.0 * n.0 + v.1 * n.1 + v.2 * n.2;
        let scale = 2 * tdiv(vn, 65536);
        let rx = v.0 - tdiv(scale * n.0, 65536);
        let ry = v.1 - tdiv(scale * n.1, 65536);
        let rz = v.2 - tdiv(scale * n.2, 65536);
        if rx == 0 && ry == 0 && rz == 0 {
            (other.x as int, other.y as int, other.z as int)
        } else {
            normalize_s(rx, ry, rz)
        }
    }
}


/// The impact types a shot can resolve to. `TraversalExhausted` is the
/// guard outcome of the explicit step cap on the AP traversal, which
/// makes termination provable on any mesh.
#[derive(Clone, Copy, Debug, PartialEq, Eq, Structural, Hash)]
pub enum ImpactType {
    Miss,
    NonPenetration,
    Citadel,
    Penetration,
    TorpedoProtection,
    Ricochet,
    OverPenetration,
    TraversalExhausted,
}

/// The walker's state while the shell is between faces.
pub struct ImpactPath<'a> {
    pub mesh: &'a Vec<ArmorFace>,
    pub position: Vec3,
    pub direction: Vec3,
    pub reflected_dir: Vec3,
}

pub open spec fn wf_path(p: ImpactPath) -> bool {
    &&& wf_mesh(p.mesh@)
    &&& bounded(p.position, COORD_MAX as int)
    &&& bounded(p.direction, DIR_MAX as int)
    &&& bounded(p.reflected_dir, DIR_MAX as int)
}

/// What `next_intersection` promises of a hit it returns: the face is
/// in the mesh, the record matches it, the hit is ahead of the origin,
/// and no face of the mesh is hit nearer.
pub open spec fn nearest_hit(mesh: Seq<ArmorFace>, o: Vec3, d: Vec3, f: ArmorFace, it:
    Intersection) -> bool {
    &&& exists|i: int| 0 <= i < mesh.len() && mesh[i] == f
    &&& fwd_hit(f, o, d)
    &&& hit_matches(f, o, d, it)
    &&& it.t >= 1
    &&& forall|j: int| 0 <= j < mesh.len() && fwd_hit(#[trigger] mesh[j], o, d) ==> it.t as int
        <= t_raw_s(mesh[j], o, d)
}

impl<'a> ImpactPath<'a> {
    /// The nearest face ahead of the current position along the current
    /// direction, excluding hits at the position itself.
    fn next_intersection(&self) -> (r: Option<(ArmorFace, Intersection)>)
        requires
            wf_path(*self),
        ensures
            match r {
                Some(p) => nearest_hit(self.mesh@, self.position, self.direction, p.0, p.1)
                    && wf_face(p.0) && bounded(p.1.point, COORD_MAX as int) && 0 <= p.1.angle
                    <= DEG90,
                None => !some_fwd_hit(self.mesh@, self.position, self.direction),
            },
    {
        let mut best: Option<(ArmorFace, Intersection)> = None;
        let mut idx: usize = 0;
        while idx < self.mesh.len()
            invariant
                wf_path(*self),
                0 <= idx <= self.mesh.len(),
                match best {
                    Some(p) => exists|i: int|
                        0 <= i < idx && self.mesh@[i] == p.0 && fwd_hit(
                            p.0,
                            self.position,
                            self.direction,
                        ) && hit_matches(self.mesh@[i], self.position, self.direction, p.1)
                        && p.1.t >= 1 && wf_face(p.0) && bounded(p.1.point, COORD_MAX as int)
                        && 0 <= p.1.angle <= DEG90 && (forall|j: int|
                            0 <= j < idx && fwd_hit(#[trigger] self.mesh@[j], self.position,
                            self.direction) ==> p.1.t as int <= t_raw_s(
                                self.mesh@[j],
                                self.position,
                                self.direction,
                            )),
                    None => forall|j: int|
                        0 <= j < idx ==> !fwd_hit(#[trigger] self.mesh@[j], self.position,
                        self.direction),
                },
            decreases self.mesh.len() - idx,
        {
            let face = &self.mesh[idx];
            match face.intersect(&self.position, &self.direction) {
                Some(it) => {
                    if it.t >= 1 {
                        let take = match &best {
                            None => true,
                            Some(p) => it.t <= p.1.t,
                        };
                        if take {
                            best = Some((*face, it));
                        }
                    }
                },
                None => {},
            }
            idx = idx + 1;
        }
        best
    }

    /// Casts from 1000 m behind the offset toward it; a first forward
    /// hit starts the walk, and no hit at all is a miss.
    pub fn new(mesh: &'a Vec<ArmorFace>, direction: Vec3, offset: Vec3) -> (r: Option<(ImpactPath<
        'a,
    >, ArmorFace, Intersection)>)
        requires
            wf_mesh(mesh@),
            bounded(direction, DIR_MAX as int),
            bounded(offset, OFFSET_MAX as int),
        ensures
            match r {
                Some(p) => nearest_hit(
                    mesh@,
                    cast_origin_s(offset, direction),
                    direction,
                    p.1,
                    p.2,
                ) && wf_path(p.0) && p.0.mesh == mesh && p.0.position == p.2.point && p.0.direction
                    == direction && (p.0.reflected_dir.x as int, p.0.reflected_dir.y as int,
                p.0.reflected_dir.z as int) == reflect_s(p.1, direction) && wf_face(p.1) && 0
                    <= p.2.angle <= DEG90 && bounded(p.2.point, COORD_MAX as int),
                None => !some_fwd_hit(mesh@, cast_origin_s(offset, direction), direction),
            },
    {
        let start = Vec3 {
            x: offset.x - 1000 * direction.x,
            y: offset.y - 1000 * direction.y,
            z: offset.z - 1000 * direction.z,
        };
        let probe = ImpactPath { mesh, position: start, direction, reflected_dir: direction };
        match probe.next_intersection() {
            None => None,
            Some((face, first)) => {
                let refl = face.reflect(&direction);
                Some(
                    (
                        ImpactPath {
                            mesh,
                            position: first.point,
                            direction,
                            reflected_dir: refl,
                        },
                        face,
                        first,
                    ),
                )
            },
        }
    }

    /// The previous impact was a ricochet: the walk continues along the
    /// reflected direction. No further hit means the shell deflected
    /// away.
    pub fn ricochet(&mut self) -> (r: Option<(ArmorFace, Intersection)>)
        requires
            wf_path(*old(self)),
        ensures
            wf_path(*final(self)),
            final(self).mesh == old(self).mesh,
            final(self).direction == old(self).reflected_dir,
            match r {
                Some(p) => nearest_hit(
                    old(self).mesh@,
                    old(self).position,
                    old(self).reflected_dir,
                    p.0,
                    p.1,
                ) && final(self).position == p.1.point && (final(self).reflected_dir.x as int,
                final(self).reflected_dir.y as int, final(self).reflected_dir.z as int)
                    == reflect_s(p.0, old(self).reflected_dir) && wf_face(p.0) && 0 <= p.1.angle
                    <= DEG90 && bounded(p.1.point, COORD_MAX as int),
                None => !some_fwd_hit(old(self).mesh@, old(self).position, old(self).reflected_dir)
                    && final(self).position == old(self).position && final(self).reflected_dir
                    == old(self).reflected_dir,
            },
    {
        self.direction = self.reflected_dir;
        match self.next_intersection() {
            None => None,
            Some((face, it)) => {
                self.position = it.point;
                self.reflected_dir = face.reflect(&self.direction);
                Some((face, it))
            },
        }
    }

    /// The previous impact was penetrated: the walk continues straight
    /// through. No further hit means the shell passed out of the target.
    pub fn penetrate(&mut self) -> (r: Option<(ArmorFace, Intersection)>)
        requires
            wf_path(*old(self)),
        ensures
            wf_path(*final(self)),
            final(self).mesh == old(self).mesh,
            final(self).direction == old(self).direction,
            match r {
                Some(p) => nearest_hit(
                    old(self).mesh@,
                    old(self).position,
                    old(self).direction,
                    p.0,
                    p.1,
                ) && final(self).position == p.1.point && (final(self).reflected_dir.x as int,
                final(self).reflected_dir.y as int, final(self).reflected_dir.z as int)
                    == reflect_s(p.0, old(self).direction) && wf_face(p.0) && 0 <= p.1.angle
                    <= DEG90 && bounded(p.1.point, COORD_MAX as int),
                None => !some_fwd_hit(old(self).mesh@, old(self).position, old(self).direction)
                    && final(self).position == old(self).position && final(self).reflected_dir
                    == old(self).reflected_dir,
            },
    {
        match self.next_intersection() {
            None => None,
            Some((face, it)) => {
                self.position = it.point;
                self.reflected_dir = face.reflect(&self.direction);
                Some((face, it))
            },
        }
    }
}

/// The point 1000 m behind `offset` along `direction`, where a shot's
/// ray is cast from.
pub open spec fn cast_origin_s(offset: Vec3, direction: Vec3) -> Vec3 {
    Vec3 {
        x: (offset.x - 1000 * direction.x) as i64,
        y: (offset.y - 1000 * direction.y) as i64,
        z: (offset.z - 1000 * direction.z) as i64,
    }
}


/// Damage factor of a non-citadel armor-piercing detonation (0.3333, Q32).
pub const D033: i64 = 1431512599;

/// Damage factor of an over-penetration (0.1, Q32).
pub const D01: i64 = 429496729;

/// Six degrees, Q32: the obliquity allowance subtracted before
/// thickness normalization.
pub const DEG6: i64 = 25769803776;

/// Thirty degrees, Q32.
pub const DEG30: i64 = 128849018880;

/// Forty-five degrees, Q32.
pub const DEG45: i64 = 193273528320;

/// Fifteen degrees, Q32: the width of the probabilistic ricochet band.
pub const DEG15: u64 = 64424509440;

/// The explicit cap on AP traversal steps: the guard that makes
/// termination provable on any mesh.
pub const MAX_TRAVERSAL_STEPS: u64 = 1024;

/// The obliquity angle less the six-degree allowance, floored at zero.
pub open spec fn floored_angle_s(angle: int) -> int {
    if angle - (DEG6 as int) < 0 {
        0
    } else {
        angle - DEG6 as int
    }
}

/// The obliquity-normalized effective thickness of a plate: thickness
/// divided by the grid sine of the floored angle, saturated when the
/// sine vanishes.
pub open spec fn norm_thick_s(thickness: int, angle: int) -> int {
    let s = sin_deg_s(floored_angle_s(angle));
    if s <= 0 {
        PEN_INF as int
    } else {
        let n = tdiv(thickness * (ONE as int), s);
        if n > PEN_INF as int {
            PEN_INF as int
        } else {
            n
        }
    }
}

/// The plate certainly does not ricochet the shell: it is thinner than
/// the caliber over 14.3, or the hit is within 45 degrees of
/// perpendicular.
pub open spec fn no_ricochet_s(diameter: int, f: ArmorFace, angle: int) -> bool {
    143 * f.thickness < 10 * diameter || angle >= DEG45 as int
}

/// Every nearest entry face deterministically refuses to ricochet and
/// costs more than the whole penetration budget.
pub open spec fn entry_overwhelmed_s(
    mesh: Seq<ArmorFace>,
    o: Vec3,
    d: Vec3,
    diameter: int,
    penetration: int,
) -> bool {
    forall|f: ArmorFace, it: Intersection|
        #[trigger] nearest_hit(mesh, o, d, f, it) ==> no_ricochet_s(diameter, f, angle_s(f, d))
            && norm_thick_s(f.thickness as int, angle_s(f, d)) > penetration
}

/// A grid point from spec components (the identity whenever each
/// component fits an `i64`).
pub open spec fn vec_of_s(t: (int, int, int)) -> Vec3 {
    Vec3 { x: t.0 as i64, y: t.1 as i64, z: t.2 as i64 }
}

/// The hit point of a face's forward hit, as a grid point.
pub open spec fn hit_point_v(f: ArmorFace, o: Vec3, d: Vec3) -> Vec3 {
    Vec3 {
        x: hit_x_s(f, o, d) as i64,
        y: hit_y_s(f, o, d) as i64,
        z: hit_z_s(f, o, d) as i64,
    }
}

/// The plate certainly ricochets the shell: thick enough for the
/// caliber, hit under thirty degrees.
pub open spec fn always_ricochet_s(diameter: int, f: ArmorFace, angle: int) -> bool {
    !(143 * f.thickness < 10 * diameter) && angle < DEG30 as int
}

/// Every nearest entry face certainly ricochets the shell, and nothing
/// lies on the ray reflected off it from its hit point.
pub open spec fn entry_deflects_away_s(mesh: Seq<ArmorFace>, o: Vec3, d: Vec3, diameter: int) -> bool {
    forall|f: ArmorFace, it: Intersection|
        #[trigger] nearest_hit(mesh, o, d, f, it) ==> always_ricochet_s(diameter, f, angle_s(f, d))
            && !some_fwd_hit(mesh, hit_point_v(f, o, d), vec_of_s(reflect_s(f, d)))
}

/// The full contract of HE resolution, shared with the dispatcher: the
/// miss test, the thickness gate against the nearest face, and the
/// third-of-alpha damage split between citadel and plain penetration.
pub open spec fn he_result_ok(h: HeAmmo, mesh: Seq<ArmorFace>, o: Vec3, d: Vec3, r: (
    i64,
    ImpactType,
)) -> bool {
    &&& ((r.1 == ImpactType::Miss) <==> !some_fwd_hit(mesh, o, d))
    &&& (r.1 == ImpactType::Miss || r.1 == ImpactType::NonPenetration ==> r.0 == 0)
    &&& (r.1 == ImpactType::NonPenetration ==> exists|f: ArmorFace, it: Intersection|
        #[trigger] nearest_hit(mesh, o, d, f, it) && f.thickness > h.piercing)
    &&& (r.1 == ImpactType::Citadel ==> r.0 == h.damage as int / 3 && exists|
        f: ArmorFace,
        it: Intersection,
    |
        #[trigger] nearest_hit(mesh, o, d, f, it) && f.thickness <= h.piercing && f.armor_type
            == ArmorType::Citadel)
    &&& (r.1 == ImpactType::Penetration ==> r.0 == h.damage as int / 3 && exists|
        f: ArmorFace,
        it: Intersection,
    |
        #[trigger] nearest_hit(mesh, o, d, f, it) && f.thickness <= h.piercing && f.armor_type
            != ArmorType::Citadel)
    &&& (some_fwd_hit(mesh, o, d) && (forall|f: ArmorFace, it: Intersection|
        #[trigger] nearest_hit(mesh, o, d, f, it) ==> f.thickness > h.piercing) ==> r.0 == 0
        && r.1 == ImpactType::NonPenetration)
    &&& (r.1 == ImpactType::Miss || r.1 == ImpactType::NonPenetration || r.1
        == ImpactType::Citadel || r.1 == ImpactType::Penetration)
    &&& 0 <= r.0 <= DMG_MAX
}

/// The full contract of AP resolution, shared with the dispatcher: the
/// miss test, the damage owed to each outcome, the deterministic entry
/// cases (overwhelming entry plates, certain entry ricochet with a
/// clear reflected ray), the first-plate origin of NonPenetration, and
/// the armor classes a citadel or belt outcome needs in the mesh.
pub open spec fn ap_result_ok(a: ApAmmo, mesh: Seq<ArmorFace>, o: Vec3, d: Vec3, penetration:
    int, r: (i64, ImpactType)) -> bool {
    &&& ((r.1 == ImpactType::Miss) <==> !some_fwd_hit(mesh, o, d))
    &&& (r.1 == ImpactType::Miss || r.1 == ImpactType::NonPenetration || r.1
        == ImpactType::Ricochet || r.1 == ImpactType::TorpedoProtection || r.1
        == ImpactType::TraversalExhausted ==> r.0 == 0)
    &&& (r.1 == ImpactType::Citadel ==> r.0 == a.damage)
    &&& (r.1 == ImpactType::Penetration ==> r.0 == qmul_s(D033 as int, a.damage as int))
    &&& (r.1 == ImpactType::OverPenetration ==> r.0 == qmul_s(D01 as int, a.damage as int))
    &&& (some_fwd_hit(mesh, o, d) && entry_overwhelmed_s(mesh, o, d, a.diameter as int,
        penetration) ==> r.0 == 0 && r.1 == ImpactType::NonPenetration)
    &&& (some_fwd_hit(mesh, o, d) && entry_deflects_away_s(mesh, o, d, a.diameter as int) ==> r.0
        == 0 && r.1 == ImpactType::Ricochet)
    &&& (r.1 == ImpactType::NonPenetration ==> exists|f: ArmorFace, it: Intersection|
        #[trigger] nearest_hit(mesh, o, d, f, it) && norm_thick_s(f.thickness as int, angle_s(
            f,
            d,
        )) > penetration)
    &&& (r.1 == ImpactType::Citadel ==> exists|i: int|
        0 <= i < mesh.len() && (#[trigger] mesh[i]).armor_type == ArmorType::Citadel)
    &&& (r.1 == ImpactType::TorpedoProtection ==> exists|i: int|
        0 <= i < mesh.len() && (#[trigger] mesh[i]).armor_type
            == ArmorType::TorpedoProtectionBelt)
    &&& 0 <= r.0 <= DMG_MAX
}

/// Distance between two mesh points, on the Q32 grid.
fn distance32(a: &Vec3, b: &Vec3) -> (r: i64)
    requires
        bounded(*a, COORD_MAX as int),
        bounded(*b, COORD_MAX as int),
    ensures
        r as int == sqrt_s(dd_s(
            Vec3 { x: (a.x - b.x) as i64, y: (a.y - b.y) as i64, z: (a.z - b.z) as i64 },
        )) * 65536,
        0 <= r <= 0x400000000000,
{
    let d = vsub(a, b);
    let q = norm_sq(&d);
    proof {
        lemma_dot_bound(d, d, 0x20000000, 0x20000000);
    }
    let root = isqrt(q as u128);
    assert(root <= 0x40000000u128) by (nonlinear_arith)
        requires
            root as int * root as int <= q as int,
            q as int <= 3 * 0x20000000 * 0x20000000int,
            root >= 0,
    ;
    (root as i64) * 65536
}

/// High-explosive ammunition: alpha damage and a fixed piercing value
/// in mm.
#[derive(Clone, Copy, Debug)]
pub struct HeAmmo {
    pub damage: i64,
    pub piercing: i64,
}

pub open spec fn wf_he(a: HeAmmo) -> bool {
    0 <= a.damage <= DMG_MAX && 0 <= a.piercing <= THICK_MAX
}

impl HeAmmo {
    pub fn new(damage: i64, piercing: i64) -> (r: HeAmmo)
        requires
            0 <= damage <= DMG_MAX,
            0 <= piercing <= THICK_MAX,
        ensures
            r == (HeAmmo { damage, piercing }),
            wf_he(r),
    {
        HeAmmo { damage, piercing }
    }

    /// HE resolution: a single intersection. No hit is a miss; a plate
    /// thicker than the piercing value absorbs the shell; otherwise a
    /// third of the alpha damage lands, against the citadel where the
    /// plate is citadel-classed.
    pub fn compute_damage(
        &self,
        mesh: &Vec<ArmorFace>,
        _penetration: i64,
        _speed: i64,
        direction: Vec3,
        offset: Vec3,
    ) -> (r: (i64, ImpactType))
        requires
            wf_he(*self),
            wf_mesh(mesh@),
            bounded(direction, DIR_MAX as int),
            bounded(offset, OFFSET_MAX as int),
        ensures
            he_result_ok(*self, mesh@, cast_origin_s(offset, direction), direction, r),
    {
        let hit = ImpactPath::new(mesh, direction, offset);
        match hit {
            None => (0, ImpactType::Miss),
            Some((_, face, _inter)) => {
                if face.thickness > self.piercing {
                    (0, ImpactType::NonPenetration)
                } else {
                    let third = ((self.damage as u64) / 3) as i64;
                    if face.armor_type == ArmorType::Citadel {
                        (third, ImpactType::Citadel)
                    } else {
                        (third, ImpactType::Penetration)
                    }
                }
            },
        }
    }
}

/// Armor-piercing ammunition: the caliber in mm, alpha damage, the
/// detonator delay in seconds, and the effective thickness that arms it.
#[derive(Clone, Copy, Debug)]
pub struct ApAmmo {
    pub diameter: i64,
    pub damage: i64,
    pub detonator: i64,
    pub detonator_threshold: i64,
}

pub open spec fn wf_ap(a: ApAmmo) -> bool {
    &&& 0 <= a.diameter <= 8589934592000
    &&& 0 <= a.damage <= DMG_MAX
    &&& 0 <= a.detonator <= ONE
    &&& 0 <= a.detonator_threshold <= THICK_MAX
}

impl ApAmmo {
    pub fn new(diameter: i64, damage: i64, detonator: i64, detonator_threshold: i64) -> (r: ApAmmo)
        requires
            0 <= diameter <= 8589934592000,
            0 <= damage <= DMG_MAX,
            0 <= detonator <= ONE,
            0 <= detonator_threshold <= THICK_MAX,
        ensures
            r == (ApAmmo { diameter, damage, detonator, detonator_threshold }),
            wf_ap(r),
    {
        ApAmmo { diameter, damage, detonator, detonator_threshold }
    }

    /// The terminal detonation rule: full alpha damage against the
    /// citadel when the citadel crossing count is odd, nothing against
    /// the torpedo protection belt, a third of alpha otherwise.
    fn compute_dm(&self, face: &ArmorFace, citadel_count: u64) -> (r: (i64, ImpactType))
        requires
            wf_ap(*self),
        ensures
            citadel_count % 2 == 1 ==> r == (self.damage, ImpactType::Citadel),
            citadel_count % 2 == 0 && face.armor_type == ArmorType::TorpedoProtectionBelt ==> r.0
                == 0 && r.1 == ImpactType::TorpedoProtection,
            citadel_count % 2 == 0 && face.armor_type != ArmorType::TorpedoProtectionBelt ==> r.0
                == qmul_s(D033 as int, self.damage as int) && r.1 == ImpactType::Penetration,
            0 <= r.0 <= DMG_MAX,
    {
        if citadel_count % 2 == 1 {
            (self.damage, ImpactType::Citadel)
        } else if face.armor_type == ArmorType::TorpedoProtectionBelt {
            (0, ImpactType::TorpedoProtection)
        } else {
            proof {
                lemma_mul_le(D033 as int, ONE as int, self.damage as int, DMG_MAX as int);
            }
            let dm = qmul(D033, self.damage);
            assert(dm as int * (ONE as int) <= (ONE as int) * (DMG_MAX as int));
            (dm, ImpactType::Penetration)
        }
    }

    /// AP resolution: the iterative traversal over the mesh, with a
    /// penetration budget, a citadel-crossing parity count, an optional
    /// detonator fuse, and the obliquity ricochet rule. The chance
    /// ricochet in the 30-to-45-degree band draws from `rng`; a step cap
    /// guards against cyclic reflection geometry.
    #[verifier::rlimit(100)]
    #[verifier::spinoff_prover]
    pub fn compute_damage(
        &self,
        mesh: &Vec<ArmorFace>,
        penetration: i64,
        speed: i64,
        direction: Vec3,
        offset: Vec3,
        rng: &mut ShotRng,
    ) -> (r: (i64, ImpactType))
        requires
            wf_ap(*self),
            wf_mesh(mesh@),
            0 <= penetration <= PEN_MAX,
            0 <= speed <= VEL_LIM,
            bounded(direction, DIR_MAX as int),
            bounded(offset, OFFSET_MAX as int),
        ensures
            ap_result_ok(
                *self,
                mesh@,
                cast_origin_s(offset, direction),
                direction,
                penetration as int,
                r,
            ),
    {
        let ghost o0 = cast_origin_s(offset, direction);
        let opened = ImpactPath::new(mesh, direction, offset);
        let (mut path, mut face, mut inter) = match opened {
            None => {
                return (0, ImpactType::Miss);
            },
            Some(x) => x,
        };
        let mut citadel_count: u64 = 0;
        let mut have_last: bool = false;
        let mut last_pos: Vec3 = inter.point;
        let mut fuse_armed: bool = false;
        let mut fuse: i64 = 0;
        let mut budget: i64 = penetration;
        let mut steps: u64 = 0;
        while steps < MAX_TRAVERSAL_STEPS
            invariant
                wf_ap(*self),
                wf_path(path),
                path.mesh == mesh,
                wf_mesh(mesh@),
                o0 == cast_origin_s(offset, direction),
                0 <= speed <= VEL_LIM,
                0 <= penetration <= PEN_MAX,
                some_fwd_hit(mesh@, o0, direction),
                wf_face(face),
                0 <= inter.angle <= DEG90,
                bounded(last_pos, COORD_MAX as int),
                bounded(inter.point, COORD_MAX as int),
                0 <= budget <= PEN_MAX,
                fuse_armed ==> 0 <= fuse <= 0x200000000000,
                0 <= citadel_count <= steps + 1,
                steps <= MAX_TRAVERSAL_STEPS,
                steps >= 1 ==> have_last,
                exists|i: int| 0 <= i < mesh@.len() && #[trigger] mesh@[i] == face,
                citadel_count > 0 ==> exists|i: int|
                    0 <= i < mesh@.len() && (#[trigger] mesh@[i]).armor_type
                        == ArmorType::Citadel,
                !have_last ==> nearest_hit(mesh@, o0, direction, face, inter) && budget
                    == penetration && !fuse_armed && citadel_count == 0 && path.direction
                    == direction && path.position == inter.point && (path.reflected_dir.x as int,
                path.reflected_dir.y as int, path.reflected_dir.z as int) == reflect_s(
                    face,
                    direction,
                ),
                have_last ==> !entry_overwhelmed_s(
                    mesh@,
                    o0,
                    direction,
                    self.diameter as int,
                    penetration as int,
                ),
                have_last ==> !entry_deflects_away_s(mesh@, o0, direction, self.diameter as int),
            decreases MAX_TRAVERSAL_STEPS - steps,
        {
            steps = steps + 1;
            if face.armor_type == ArmorType::Citadel {
                citadel_count = citadel_count + 1;
            }
            if have_last && fuse_armed {
                let travelled = distance32(&inter.point, &last_pos);
                fuse = fuse - travelled;
                if fuse < 0 {
                    return self.compute_dm(&face, citadel_count);
                }
            }
            let here = inter.point;
            let thin = 143 * (face.thickness as i128) < 10 * (self.diameter as i128);
            let ric: bool = if thin {
                false
            } else if inter.angle < DEG30 {
                true
            } else if inter.angle < DEG45 {
                let draw = rng.next_u64();
                ((draw % DEG15) as i64) < inter.angle - DEG30
            } else {
                false
            };
            if ric {
                assert(!entry_overwhelmed_s(
                    mesh@,
                    o0,
                    direction,
                    self.diameter as int,
                    penetration as int,
                ) || have_last) by {
                    if !have_last && entry_overwhelmed_s(
                        mesh@,
                        o0,
                        direction,
                        self.diameter as int,
                        penetration as int,
                    ) {
                        assert(nearest_hit(mesh@, o0, direction, face, inter));
                        assert(no_ricochet_s(self.diameter as int, face, angle_s(face, direction)));
                        assert(inter.angle == angle_s(face, direction));
                        assert(false);
                    }
                }
                let ghost prior = path;
                let next = path.ricochet();
                match next {
                    None => {
                        return (0, ImpactType::Ricochet);
                    },
                    Some(x) => {
                        proof {
                            if !have_last && entry_deflects_away_s(
                                mesh@,
                                o0,
                                direction,
                                self.diameter as int,
                            ) {
                                assert(nearest_hit(mesh@, o0, direction, face, inter));
                                assert(hit_point_v(face, o0, direction) == inter.point);
                                assert(vec_of_s(reflect_s(face, direction))
                                    == prior.reflected_dir);
                                assert(some_fwd_hit(mesh@, prior.position, prior.reflected_dir));
                                assert(false);
                            }
                        }
                        face = x.0;
                        inter = x.1;
                    },
                }
            } else {
                assert(!entry_deflects_away_s(mesh@, o0, direction, self.diameter as int)
                    || have_last) by {
                    if !have_last && entry_deflects_away_s(
                        mesh@,
                        o0,
                        direction,
                        self.diameter as int,
                    ) {
                        assert(nearest_hit(mesh@, o0, direction, face, inter));
                        assert(always_ricochet_s(self.diameter as int, face, angle_s(
                            face,
                            direction,
                        )));
                        assert(inter.angle == angle_s(face, direction));
                        assert(false);
                    }
                }
                let floored: i64 = if inter.angle - DEG6 < 0 {
                    0
                } else {
                    inter.angle - DEG6
                };
                let sv = sin_deg(floored);
                let norm: i64 = if sv <= 0 {
                    PEN_INF
                } else {
                    proof {
                        lemma_abs_mul(face.thickness as int, ONE as int, THICK_MAX as int,
                        ONE as int);
                    }
                    let n128 = tdiv_i128((face.thickness as i128) * (ONE as i128), sv as i128);
                    if n128 > PEN_INF as i128 {
                        PEN_INF
                    } else {
                        n128 as i64
                    }
                };
                assert(norm as int == norm_thick_s(face.thickness as int, inter.angle as int));
                assert(0 <= norm <= PEN_INF);
                let new_budget = budget - norm;
                if new_budget < 0 {
                    if !have_last {
                        return (0, ImpactType::NonPenetration);
                    }
                    return self.compute_dm(&face, citadel_count);
                }
                budget = new_budget;
                if norm > self.detonator_threshold {
                    proof {
                        lemma_mul_le(speed as int, VEL_LIM as int, self.detonator as int,
                        ONE as int);
                    }
                    fuse_armed = true;
                    fuse = qmul(speed, self.detonator);
                    assert(fuse as int * (ONE as int) <= VEL_LIM as int * (ONE as int));
                }
                assert(!entry_overwhelmed_s(
                    mesh@,
                    o0,
                    direction,
                    self.diameter as int,
                    penetration as int,
                ) || have_last) by {
                    if !have_last && entry_overwhelmed_s(
                        mesh@,
                        o0,
                        direction,
                        self.diameter as int,
                        penetration as int,
                    ) {
                        assert(nearest_hit(mesh@, o0, direction, face, inter));
                        assert(norm_thick_s(face.thickness as int, angle_s(face, direction))
                            > penetration as int);
                        assert(false);
                    }
                }
                let next = path.penetrate();
                match next {
                    None => {
                        proof {
                            lemma_mul_le(D01 as int, ONE as int, self.damage as int,
                            DMG_MAX as int);
                        }
                        let dm = qmul(D01, self.damage);
                        assert(dm as int * (ONE as int) <= (ONE as int) * (DMG_MAX as int));
                        return (dm, ImpactType::OverPenetration);
                    },
                    Some(x) => {
                        face = x.0;
                        inter = x.1;
                    },
                }
            }
            have_last = true;
            last_pos = here;
        }
        (0, ImpactType::TraversalExhausted)
    }
}

/// The ammunition variants a mount can fire, dispatched by tag.
pub enum AmmoType {
    He(HeAmmo),
    Ap(ApAmmo),
}

pub open spec fn wf_ammo(a: AmmoType) -> bool {
    match a {
        AmmoType::He(h) => wf_he(h),
        AmmoType::Ap(p) => wf_ap(p),
    }
}

/// The dispatched resolver contract: the full HE or AP result clauses
/// of whichever variant the tag names.
pub open spec fn ammo_result_ok(a: AmmoType, mesh: Seq<ArmorFace>, o: Vec3, d: Vec3, penetration:
    int, r: (i64, ImpactType)) -> bool {
    match a {
        AmmoType::He(h) => he_result_ok(h, mesh, o, d, r),
        AmmoType::Ap(p) => ap_result_ok(p, mesh, o, d, penetration, r),
    }
}

impl AmmoType {
    /// Resolves one shot against the mesh with the resolver the tag
    /// names.
    pub fn compute_damage(
        &self,
        mesh: &Vec<ArmorFace>,
        penetration: i64,
        speed: i64,
        direction: Vec3,
        offset: Vec3,
        rng: &mut ShotRng,
    ) -> (r: (i64, ImpactType))
        requires
            wf_ammo(*self),
            wf_mesh(mesh@),
            0 <= penetration <= PEN_MAX,
            0 <= speed <= VEL_LIM,
            bounded(direction, DIR_MAX as int),
            bounded(offset, OFFSET_MAX as int),
        ensures
            ammo_result_ok(
                *self,
                mesh@,
                cast_origin_s(offset, direction),
                direction,
                penetration as int,
                r,
            ),
            (r.1 == ImpactType::Miss) <==> !some_fwd_hit(
                mesh@,
                cast_origin_s(offset, direction),
                direction,
            ),
            0 <= r.0 <= DMG_MAX,
    {
        match self {
            AmmoType::He(he) => he.compute_damage(mesh, penetration, speed, direction, offset),
            AmmoType::Ap(ap) => ap.compute_damage(
                mesh,
                penetration,
                speed,
                direction,
                offset,
                rng,
            ),
        }
    }
}

} // verus!
