//! Ships and their configurations: mounts, ammunition choices, the
//! armor mesh, and the battle-tier matchmaking rule.

use vstd::prelude::*;
use crate::ballistics::{Ballistics, Dispersion, wf_ballistics, wf_dispersion};
use crate::gun::{AmmoType, ArmorFace, wf_ammo, wf_mesh};

verus! {

/// One ammunition choice: the resolver variant and the ballistics of
/// the round.
pub struct Ammo {
    pub bullet: AmmoType,
    pub ballistics: Ballistics,
}

pub open spec fn wf_shell(a: Ammo) -> bool {
    wf_ammo(a.bullet) && wf_ballistics(a.ballistics)
}

impl Ammo {
    pub fn new(bullet: AmmoType, ballistics: Ballistics) -> (r: Ammo)
        ensures
            r.bullet == bullet,
            r.ballistics == ballistics,
    {
        Ammo { bullet, ballistics }
    }
}

/// A gun mount: its dispersion profile and its ammunition choices.
pub struct Gun {
    pub dispersion: Dispersion,
    pub ammo: Vec<Ammo>,
}

impl Gun {
    pub fn new(dispersion: Dispersion, ammo: Vec<Ammo>) -> (r: Gun)
        ensures
            r.dispersion == dispersion,
            r.ammo == ammo,
    {
        Gun { dispersion, ammo }
    }
}

/// One hull configuration: artillery, the armor mesh, speed (m/s),
/// length (m), and a name.
pub struct ShipConfiguration {
    pub artillery: Vec<Gun>,
    pub geometry: Vec<ArmorFace>,
    pub speed: i64,
    pub length: i64,
    pub name: String,
}

pub open spec fn wf_configuration(c: ShipConfiguration) -> bool {
    wf_mesh(c.geometry@)
}

impl ShipConfiguration {
    pub fn new(artillery: Vec<Gun>, geometry: Vec<ArmorFace>, speed: i64, length: i64, name:
        String) -> (r: ShipConfiguration)
        ensures
            r.artillery == artillery,
            r.geometry == geometry,
            r.speed == speed,
            r.length == length,
            r.name == name,
    {
        ShipConfiguration { artillery, geometry, speed, length, name }
    }
}

/// The broad ship classes of the ingested data.
#[derive(Clone, Copy, Debug, PartialEq, Eq, Structural)]
pub enum ShipClass {
    Destroyer,
    Cruiser,
    Battleship,
    AircraftCarrier,
}

/// A ship: its hull configurations, matchmaking tier, name and class.
pub struct Ship {
    pub configurations: Vec<ShipConfiguration>,
    pub tier: usize,
    pub name: String,
    pub class: ShipClass,
}

impl Ship {
    pub fn new(configurations: Vec<ShipConfiguration>, tier: usize, name: String, class:
        ShipClass) -> (r: Ship)
        ensures
            r.configurations == configurations,
            r.tier == tier,
            r.name == name,
            r.class == class,
    {
        Ship { configurations, tier, name, class }
    }

    /// Two ships can meet in battle when their battle-tier ranges
    /// overlap. A ship of tier `t` fights battle tiers `lo(t)` to
    /// `hi(t)`; tiers outside one through ten never battle.
    pub fn can_battle_with(&self, other: &Ship) -> (r: bool)
        ensures
            r == can_battle_s(self.tier as int, other.tier as int),
    {
        if self.tier == 0 || self.tier > 10 || other.tier == 0 || other.tier > 10 {
            return false;
        }
        let alo = battle_lo(self.tier);
        let ahi = battle_hi(self.tier);
        let blo = battle_lo(other.tier);
        let bhi = battle_hi(other.tier);
        alo <= bhi && blo <= ahi
    }
}

/// The least and greatest z coordinate over a mesh's vertices: the
/// hull's extent along its length axis, which the ingested length is
/// scaled from. An empty mesh spans nothing.
pub fn mesh_extent_z(faces: &Vec<ArmorFace>) -> (r: (i64, i64))
    ensures
        faces@.len() == 0 ==> r.0 == 0 && r.1 == 0,
        faces@.len() > 0 ==> (forall|i: int|
            0 <= i < faces@.len() ==> r.0 <= (#[trigger] faces@[i]).v0.z <= r.1 && r.0
                <= faces@[i].v1.z <= r.1 && r.0 <= faces@[i].v2.z <= r.1),
        faces@.len() > 0 ==> (exists|i: int|
            0 <= i < faces@.len() && ((#[trigger] faces@[i]).v0.z == r.0 || faces@[i].v1.z == r.0
                || faces@[i].v2.z == r.0)),
        faces@.len() > 0 ==> (exists|i: int|
            0 <= i < faces@.len() && ((#[trigger] faces@[i]).v0.z == r.1 || faces@[i].v1.z == r.1
                || faces@[i].v2.z == r.1)),
{
    if faces.len() == 0 {
        return (0, 0);
    }
    let mut lo: i64 = faces[0].v0.z;
    let mut hi: i64 = faces[0].v0.z;
    let mut idx: usize = 0;
    while idx < faces.len()
        invariant
            faces@.len() > 0,
            idx <= faces@.len(),
            lo <= hi,
            forall|i: int|
                0 <= i < idx as int ==> lo <= (#[trigger] faces@[i]).v0.z <= hi && lo
                    <= faces@[i].v1.z <= hi && lo <= faces@[i].v2.z <= hi,
            exists|i: int|
                0 <= i < faces@.len() && ((#[trigger] faces@[i]).v0.z == lo || faces@[i].v1.z
                    == lo || faces@[i].v2.z == lo),
            exists|i: int|
                0 <= i < faces@.len() && ((#[trigger] faces@[i]).v0.z == hi || faces@[i].v1.z
                    == hi || faces@[i].v2.z == hi),
        decreases faces@.len() - idx,
    {
        let f = &faces[idx];
        if f.v0.z < lo {
            lo = f.v0.z;
        }
        if f.v1.z < lo {
            lo = f.v1.z;
        }
        if f.v2.z < lo {
            lo = f.v2.z;
        }
        if f.v0.z > hi {
            hi = f.v0.z;
        }
        if f.v1.z > hi {
            hi = f.v1.z;
        }
        if f.v2.z > hi {
            hi = f.v2.z;
        }
        idx = idx + 1;
    }
    (lo, hi)
}

/// The lowest battle tier a ship of tier `t` meets.
pub open spec fn battle_lo_s(t: int) -> int {
    if t == 1 {
        1
    } else if t == 2 {
        2
    } else {
        t
    }
}

/// The highest battle tier a ship of tier `t` meets.
pub open spec fn battle_hi_s(t: int) -> int {
    if t == 1 {
        1
    } else if t <= 4 {
        t + 1
    } else if t <= 8 {
        t + 2
    } else {
        10
    }
}

/// Overlapping battle-tier ranges, for tiers one through ten.
pub open spec fn can_battle_s(a: int, b: int) -> bool {
    &&& 1 <= a <= 10
    &&& 1 <= b <= 10
    &&& battle_lo_s(a) <= battle_hi_s(b)
    &&& battle_lo_s(b) <= battle_hi_s(a)
}

fn battle_lo(t: usize) -> (r: usize)
    requires
        1 <= t <= 10,
    ensures
        r as int == battle_lo_s(t as int),
{
    if t == 1 {
        1
    } else if t == 2 {
        2
    } else {
        t
    }
}

fn battle_hi(t: usize) -> (r: usize)
    requires
        1 <= t <= 10,
    ensures
        r as int == battle_hi_s(t as int),
{
    if t == 1 {
        1
    } else if t <= 4 {
        t + 1
    } else if t <= 8 {
        t + 2
    } else {
        10
    }
}

} // verus!
