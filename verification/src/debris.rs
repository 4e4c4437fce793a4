//! The per-frame debris tick: delayed records count down, live ones walk
//! their sprite table and free at its terminator, and records with a
//! physics countdown run the physics pass, whose robot lane damages and
//! knocks back every live robot near the debris and whose crush lane,
//! where the terrain around the debris is solid, damages, knocks back and
//! may kill the critters near it.

use vstd::prelude::*;

use crate::angle::{angle_of, dist_oct, dist_octagonal, AngleView};
use crate::critter::{critter_died, probed, CritterRecord};
use crate::impact::fits_i32;
use crate::terrain::TerrainView;
use crate::destroy::{debris_fits, debris_staged, lemma_debris_gates_stage, DebrisRecord};
use crate::mission::{
    damage_defined, damage_result, lemma_sim_view, lemma_sim_wf, sim_wf, MissionSim, MissionView,
    Robot,
};
use crate::movement::robot_move_s;
use crate::objects::debris_seq_spec;

verus! {

/// The sine word at a byte index, when the table carries one.
pub open spec fn sine_at(a: AngleView, index: u16) -> Option<u16> {
    match a.sine {
        Some(s) => Some(s[(index & 0xFF) as int]),
        None => None,
    }
}

/// The signed sine word times `knock`, shifted down by 7; `None` when
/// the product leaves `i32`.
pub open spec fn knocked(w: u16, knock: i32) -> Option<i32> {
    let v = ((w as i16) as i32) * knock;
    if v < i32::MIN || v > i32::MAX {
        None
    } else {
        Some((v as i32) >> 7u32)
    }
}

/// The knock-back velocity along `heading` at multiplier `knock`: the
/// signed sine words of the heading and of the heading a quarter turn
/// back, times `knock`, shifted down by 7; `(0, 0)` without a sine
/// table; `None` when a product overflows.
pub open spec fn knock_velocity(a: AngleView, heading: u16, knock: i32) -> Option<(i32, i32)> {
    match (sine_at(a, heading), sine_at(a, ((((heading as i32) - 0x40) as i32) & 0xFF) as u16)) {
        (Some(sa), Some(sb)) => match (knocked(sa, knock), knocked(sb, knock)) {
            (Some(vx), Some(vy)) => Some((vx, vy)),
            _ => None,
        },
        _ => Some((0, 0)),
    }
}

/// The simulation after the kind-5 death debris rows `0..k` of a killed
/// robot are staged (delay the row's phase, param -1); `None` when a
/// staging would overflow.
pub open spec fn death_debris_staged(m: MissionView, rows: Seq<(i32, i32, i32, i32)>, k: nat) -> Option<
    MissionView,
>
    decreases k,
{
    if k == 0 || k > rows.len() {
        Some(m)
    } else {
        match death_debris_staged(m, rows, (k - 1) as nat) {
            None => None,
            Some(m1) => {
                let d = rows[k - 1];
                if !debris_fits(m1, d.0, d.1, 5) {
                    None
                } else {
                    Some(
                        match debris_staged(m1, d.0, d.1, d.2, 5, d.3, -1i32) {
                            Some(m2) => m2,
                            None => m1,
                        },
                    )
                }
            },
        }
    }
}

/// The physics parameters a debris record holds when its pass starts:
/// Q5 position, kind, physics countdown and owner parameter.
pub struct PhysicsRecord {
    pub x: i32,
    pub y: i32,
    pub kind: i32,
    pub phys: i32,
    pub param: i32,
}

/// The physics parameters of a debris record.
pub open spec fn physics_record(d: DebrisRecord) -> PhysicsRecord {
    PhysicsRecord { x: d.x, y: d.y, kind: d.kind, phys: d.phys, param: d.param }
}

/// The hit half of the robot lane for robot `ri`: a live robot not
/// held whose octagonal distance to the debris (in Q13, shifted down by
/// 8) is under 0x40 takes the kind's damage (25 for kind 12, else 2) and
/// its death debris when it dies; the result holds the simulation after
/// the hit and the angle from the debris to the robot. `Some(None)` for
/// a robot the lane passes over, `None` when the arithmetic overflows.
#[verifier::opaque]
pub open spec fn lane_hit(m: MissionView, p: PhysicsRecord, ri: int) -> Option<Option<(MissionView, u16)>> {
    let r = m.robots[ri];
    if !r.alive || r.state == 2 {
        Some(None)
    } else {
        let dxq = p.x << 8u32;
        let dyq = p.y << 8u32;
        let ddx = r.pos_x - dxq;
        let ddy = r.pos_y - dyq;
        if ddx < i32::MIN || ddx > i32::MAX || ddy < i32::MIN || ddy > i32::MAX {
            None
        } else if dist_oct(ddx as i32, ddy as i32) >> 8u32 >= 0x40 {
            Some(None)
        } else {
            let heading = angle_of(m.angles.thresholds, ddx as i32, ddy as i32);
            let mag: i32 = if p.kind == 12 {
                25
            } else {
                2
            };
            if !damage_defined(m, ri as usize, mag) {
                None
            } else {
                let (m1, out) = damage_result(m, ri as usize, mag);
                let staged = if out.died {
                    death_debris_staged(m1, out.debris@, 5)
                } else {
                    Some(m1)
                };
                match staged {
                    None => None,
                    Some(m2) => Some(Some((m2, heading))),
                }
            }
        }
    }
}

/// The knock half of the robot lane: while the countdown is nonzero the
/// robot's facing resets and it moves along `heading` by the knock-back
/// velocity (the countdown, at most 3, as multiplier); `None` when the
/// move overflows.
#[verifier::opaque]
pub open spec fn lane_knock(m: MissionView, p: PhysicsRecord, ri: int, heading: u16) -> Option<MissionView> {
    let knock: i32 = if p.phys < 3 {
        p.phys
    } else {
        3
    };
    if knock == 0 {
        Some(m)
    } else {
        let r3 = Robot { facing: 0xFFFF, ..m.robots[ri] };
        match knock_velocity(m.angles, heading, knock) {
            None => None,
            Some(v) => match robot_move_s(m.terrain, r3, v.0, v.1, heading) {
                None => None,
                Some((t, r4)) => Some(MissionView { terrain: t, robots: m.robots.update(ri, r4), ..m }),
            },
        }
    }
}

/// The robot lane of a debris record for robot `ri`: the hit, then the
/// knock-back of a robot that was hit.
pub open spec fn lane_robot(m: MissionView, p: PhysicsRecord, ri: int) -> Option<MissionView> {
    match lane_hit(m, p, ri) {
        None => None,
        Some(None) => Some(m),
        Some(Some((m2, heading))) => lane_knock(m2, p, ri, heading),
    }
}

/// The robot lane over robots `0..k`, in record order.
pub open spec fn lane_upto(m: MissionView, p: PhysicsRecord, k: nat) -> Option<MissionView>
    decreases k,
{
    if k == 0 {
        Some(m)
    } else {
        match lane_upto(m, p, (k - 1) as nat) {
            None => None,
            Some(m1) => if k - 1 < m1.robots.len() {
                lane_robot(m1, p, k - 1)
            } else {
                Some(m1)
            },
        }
    }
}

/// The crush probe of critter `ci` at Q5 position `(x, y)`: off the map
/// false; otherwise whether the floor probed there from the critter's z
/// lies within 3 of it (the probe's trigger latch kept). `None` when
/// the difference overflows.
pub open spec fn crush_probe(m: MissionView, ci: int, x: i32, y: i32) -> Option<(bool, MissionView)> {
    if x < 0 || y < 0 || (x >> 5u32) >= m.terrain.width || (y >> 5u32) >= m.terrain.height {
        Some((false, m))
    } else {
        let z = m.critters[ci].z;
        let (fz, m1) = probed(m, x, y, z);
        if !(i32::MIN < z - fz <= i32::MAX) {
            None
        } else {
            Some((-3 <= z - fz <= 3, m1))
        }
    }
}

/// The crush knock along `heading` at `falloff`: the signed sine words of
/// the heading and of the heading a quarter turn back, times `falloff`,
/// shifted down by 8; `(0, 0)` without a sine table.
pub open spec fn crush_knock(a: AngleView, heading: u16, falloff: int) -> (int, int) {
    match (sine_at(a, heading), sine_at(a, ((((heading as i32) - 0x40) as i32) & 0xFF) as u16)) {
        (Some(sa), Some(sb)) => (
            ((((sa as i16) as int * falloff) as i32) >> 8u32) as int,
            ((((sb as i16) as int * falloff) as i32) >> 8u32) as int,
        ),
        _ => (0, 0),
    }
}

/// The crush of critter `ci` by debris at Q13 `(dxq, dyq)` with radius
/// `radius` and damage `mag`: a present critter outside modes 6, 7 and
/// 0xB whose position (kinds 1 and 4 scaled up from pixels by 256,
/// wrapping) lies within 0x8000 of the debris in x and y and whose
/// octagonal distance shifted down by 8 is under the radius, with
/// falloff `(radius - 1 - distance) >> 3` above 2 and kind neither 2 nor
/// 7, loses `mag` hp (wrapping), is knocked along the angle from the
/// debris (see [`crush_knock`]) when the crush probe at the knocked
/// position passes (kinds 1 and 4 stored back in pixels), and at 0 hp
/// or below loses its attacker and dies: kind 4 by weapon 0, kinds 5
/// and 6 outside modes 5 and 6 by weapon 0x24 (see [`critter_died`]).
/// `None` when the arithmetic overflows or the death does.
pub open spec fn critter_crushed(m: MissionView, ci: int, dxq: i32, dyq: i32, radius: i32, mag: i32) -> Option<
    MissionView,
> {
    let c = m.critters[ci];
    let small = c.kind == 1 || c.kind == 4;
    let cnx: i32 = if small {
        (c.x * 256) as i32
    } else {
        c.x
    };
    let cny: i32 = if small {
        (c.y * 256) as i32
    } else {
        c.y
    };
    let ddx = cnx - dxq;
    let ddy = cny - dyq;
    if !c.presence || c.mode == 7 || c.mode == 6 || c.mode == 0xB {
        Some(m)
    } else if !fits_i32(ddx) || !fits_i32(ddy) {
        None
    } else if ddx >= 0x8000 || ddx <= -0x8000 || ddy >= 0x8000 || ddy <= -0x8000 {
        Some(m)
    } else {
        let dist_px = dist_oct(ddx as i32, ddy as i32) >> 8u32;
        let falloff = ((radius - 1 - dist_px) as i32) >> 3u32;
        if dist_px >= radius || c.kind == 7 || c.kind == 2 || falloff <= 2 {
            Some(m)
        } else {
            let heading = angle_of(m.angles.thresholds, ddx as i32, ddy as i32);
            let m1 = MissionView { critters: m.critters.update(ci, CritterRecord { hp: (c.hp - mag) as i16, ..c }), ..m };
            let (kx, ky) = crush_knock(m.angles, heading, falloff as int);
            if !fits_i32(cnx + kx) || !fits_i32(cny + ky) {
                None
            } else {
                crush_moved(m1, ci, c.kind, (cnx + kx) as i32, (cny + ky) as i32)
            }
        }
    }
}

/// The rest of a crush (see [`critter_crushed`]) once critter `ci` (of
/// kind `kind`) has taken its damage and its knocked Q13 position is
/// `(nx, ny)`: the probe, the move, and the death.
pub open spec fn crush_moved(m1: MissionView, ci: int, kind: u16, nx: i32, ny: i32) -> Option<MissionView> {
    let small = kind == 1 || kind == 4;
    match crush_probe(m1, ci, nx >> 8u32, ny >> 8u32) {
        None => None,
        Some(pr) => {
            let m2 = pr.1;
            let c2 = m2.critters[ci];
            let c3 = if !pr.0 {
                c2
            } else if small {
                CritterRecord { x: nx >> 8u32, y: ny >> 8u32, ..c2 }
            } else {
                CritterRecord { x: nx, y: ny, ..c2 }
            };
            if c3.hp > 0 {
                Some(MissionView { critters: m2.critters.update(ci, c3), ..m2 })
            } else {
                let c4 = CritterRecord { attacker: -1i16, ..c3 };
                let m4 = MissionView { critters: m2.critters.update(ci, c4), ..m2 };
                if kind == 4 {
                    critter_died(m4, ci, 4, 0, c4.x, c4.y, c4.z)
                } else if (kind == 5 || kind == 6) && !(c4.mode == 5 || c4.mode == 6) {
                    critter_died(m4, ci, kind, 0x24, c4.x, c4.y, c4.z)
                } else {
                    Some(m4)
                }
            }
        },
    }
}

/// The crush lane over critters `0..k`.
pub open spec fn crush_upto(m: MissionView, dxq: i32, dyq: i32, radius: i32, mag: i32, k: nat) -> Option<MissionView>
    decreases k,
{
    if k == 0 {
        Some(m)
    } else {
        match crush_upto(m, dxq, dyq, radius, mag, (k - 1) as nat) {
            None => None,
            Some(m1) => if k - 1 < m1.critters.len() {
                critter_crushed(m1, k - 1, dxq, dyq, radius, mag)
            } else {
                Some(m1)
            },
        }
    }
}

/// The plane-0 byte at a linear offset, 0 past the plane.
pub open spec fn plane0_at(v: TerrainView, off: int) -> u8 {
    if 0 <= off < v.width * v.height {
        v.dat[off]
    } else {
        0
    }
}

/// The first tile coordinate the crush lane's terrain check reads for a
/// Q5 coordinate: one tile back, at least 0.
pub open spec fn gate_origin(v: i32) -> int {
    if (v >> 5u32) - 1 < 0 {
        0
    } else {
        (v >> 5u32) - 1
    }
}

/// The plane-0 byte in row `row`, column `c` from tile `(tx, ty)` is
/// nonzero.
pub open spec fn gate_hit(t: TerrainView, tx: int, ty: int, row: int, c: int) -> bool {
    plane0_at(t, ty * t.width + tx + row * t.width + c) != 0
}

/// The crush lane's terrain gate for debris at Q5 `(x, y)`: some byte is
/// nonzero among the four plane-0 bytes from column `max(x/32 - 1, 0)`
/// in each of the three rows from `max(y/32 - 1, 0)` (read linearly).
pub open spec fn crush_gate(m: MissionView, x: i32, y: i32) -> bool {
    exists|row: int, c: int|
        0 <= row < 3 && 0 <= c < 4 && #[trigger] gate_hit(m.terrain, gate_origin(x), gate_origin(y), row, c)
}

/// The physics pass of debris record `idx`: the robot lane over every
/// robot; then, when the terrain gate passes (see [`crush_gate`]), the
/// crush lane over every critter (see [`critter_crushed`]) with radius
/// `min(phys*16 + 0x20, 0x60)` and damage 25 for kind 12, else 2; then
/// the record in slot `idx` counts its physics countdown down by one.
/// `None` when the arithmetic overflows.
#[verifier::opaque]
pub open spec fn physics_pass(m: MissionView, idx: int) -> Option<MissionView> {
    let p = physics_record(m.debris[idx]);
    let mag: i32 = if p.kind == 12 {
        25
    } else {
        2
    };
    if !fits_i32(p.phys * 16) || !fits_i32(p.phys * 16 + 0x20) {
        None
    } else {
        let radius: i32 = if p.phys * 16 + 0x20 < 0x60 {
            (p.phys * 16 + 0x20) as i32
        } else {
            0x60
        };
        match lane_upto(m, p, m.robots.len()) {
            None => None,
            Some(m1) => physics_rest(m1, idx, p, radius, mag),
        }
    }
}

/// The part of [`physics_pass`] after the robot lane: the gated crush
/// lane, then the countdown.
pub open spec fn physics_rest(m1: MissionView, idx: int, p: PhysicsRecord, radius: i32, mag: i32) -> Option<MissionView> {
    let m2o = if crush_gate(m1, p.x, p.y) {
        crush_upto(m1, (p.x * 256) as i32, (p.y * 256) as i32, radius, mag, m1.critters.len())
    } else {
        Some(m1)
    };
    match m2o {
        None => None,
        Some(m2) => {
            let d = m2.debris[idx];
            if d.phys == i32::MIN {
                None
            } else {
                Some(
                    MissionView {
                        debris: m2.debris.update(idx, DebrisRecord { phys: (d.phys - 1) as i32, ..d }),
                        ..m2
                    },
                )
            }
        },
    }
}

/// The tick of debris record `idx`: a free record does nothing; a
/// delayed one counts its delay down; a live one steps its sprite walk
/// and frees itself on the terminator (or past the walk), else runs the
/// physics pass while its countdown is nonzero. `None` when the
/// arithmetic overflows or the record names no walk.
#[verifier::opaque]
pub open spec fn debris_ticked_one(m: MissionView, idx: int) -> Option<MissionView> {
    let d = m.debris[idx];
    if !d.active {
        Some(m)
    } else if d.delay != 0 {
        if d.delay == i32::MIN {
            None
        } else {
            Some(
                MissionView {
                    debris: m.debris.update(idx, DebrisRecord { delay: (d.delay - 1) as i32, ..d }),
                    ..m
                },
            )
        }
    } else if d.anim == i32::MAX || d.table >= 11 {
        None
    } else {
        let anim = d.anim + 1;
        let m1 = MissionView {
            debris: m.debris.update(idx, DebrisRecord { anim: anim as i32, ..d }),
            ..m
        };
        let walk = debris_seq_spec(d.table as int);
        let i = if anim < 0 {
            0
        } else {
            anim
        };
        if i >= walk.len() || walk[i] == -1 {
            Some(
                MissionView {
                    debris: m1.debris.update(idx, DebrisRecord { active: false, ..m1.debris[idx] }),
                    ..m1
                },
            )
        } else if d.phys != 0 {
            physics_pass(m1, idx)
        } else {
            Some(m1)
        }
    }
}

/// The debris tick over records `0..k`, in slot order.
pub open spec fn debris_ticked_upto(m: MissionView, k: nat) -> Option<MissionView>
    decreases k,
{
    if k == 0 {
        Some(m)
    } else {
        match debris_ticked_upto(m, (k - 1) as nat) {
            None => None,
            Some(m1) => if k - 1 < m1.debris.len() {
                debris_ticked_one(m1, k - 1)
            } else {
                Some(m1)
            },
        }
    }
}

/// The debris tick of a frame.
pub open spec fn debris_ticked(m: MissionView) -> Option<MissionView> {
    debris_ticked_upto(m, m.debris.len())
}

impl MissionSim {
    /// Stage the kind-5 death debris of a killed robot (see
    /// [`death_debris_staged`]).
    fn stage_death_debris(&mut self, rows: [(i32, i32, i32, i32); 5])
        requires
            old(self).wf(),
            death_debris_staged(old(self)@, rows@, 5) is Some,
        ensures
            final(self).wf(),
            final(self)@ == death_debris_staged(old(self)@, rows@, 5).unwrap(),
            final(self)@.robots == old(self)@.robots,
            final(self)@.angles == old(self)@.angles,
            final(self)@.terrain == old(self)@.terrain,
    {
        let ghost m0 = self@;
        let mut k: usize = 0;
        while k < 5
            invariant
                k <= 5,
                rows@.len() == 5,
                self.wf(),
                death_debris_staged(m0, rows@, 5) is Some,
                death_debris_staged(m0, rows@, k as nat) == Some(self@),
                self@.robots == m0.robots,
                self@.angles == m0.angles,
                self@.terrain == m0.terrain,
            decreases 5 - k,
        {
            proof {
                lemma_death_debris_prefix(m0, rows@, (k + 1) as nat, 5);
            }
            let d = rows[k];
            proof {
                lemma_debris_gates_stage(self@, d.0, d.1, d.2, 5, d.3, -1i32);
                crate::destroy::lemma_debris_staged_keeps_robots(self@, d.0, d.1, d.2, 5, d.3, -1i32);
            }
            let _ = self.stage_debris(d.0, d.1, d.2, 5, d.3, -1);
            k = k + 1;
        }
    }

    /// The hit half of the robot lane (see [`lane_hit`]).
    #[verifier::rlimit(60)]
    fn lane_hit_exec(&mut self, p: &PhysicsRecord, ri: usize) -> (hit: Option<u16>)
        requires
            old(self).wf(),
            ri < old(self)@.robots.len(),
            lane_hit(old(self)@, *p, ri as int) is Some,
        ensures
            final(self).wf(),
            match lane_hit(old(self)@, *p, ri as int) {
                Some(None) => hit is None && final(self)@ == old(self)@,
                Some(Some((m2, h))) => hit == Some(h) && final(self)@ == m2,
                None => false,
            },
            final(self)@.robots.len() == old(self)@.robots.len(),
    {
        let ghost m0 = self@;
        proof {
            lemma_sim_view(self);
            lemma_sim_wf(self);
            reveal(lane_hit);
        }
        let r = self.robots[ri];
        if !r.alive || r.state == 2 {
            return None;
        }
        let dxq = p.x << 8;
        let dyq = p.y << 8;
        let ddx = r.pos_x - dxq;
        let ddy = r.pos_y - dyq;
        if crate::angle::dist_octagonal(ddx, ddy) >> 8 >= 0x40 {
            return None;
        }
        let heading = self.angles.angle_byte(ddx, ddy);
        let mag: i32 = if p.kind == 12 {
            25
        } else {
            2
        };
        let out = self.apply_damage(ri, mag, p.param);
        if out.died {
            self.stage_death_debris(out.debris);
        }
        Some(heading)
    }

    /// The knock half of the robot lane (see [`lane_knock`]).
    #[verifier::rlimit(60)]
    fn lane_knock_exec(&mut self, p: &PhysicsRecord, ri: usize, heading: u16)
        requires
            old(self).wf(),
            ri < old(self)@.robots.len(),
            lane_knock(old(self)@, *p, ri as int, heading) is Some,
        ensures
            final(self).wf(),
            final(self)@ == lane_knock(old(self)@, *p, ri as int, heading).unwrap(),
            final(self)@.robots.len() == old(self)@.robots.len(),
    {
        let ghost m0 = self@;
        proof {
            lemma_sim_view(self);
            lemma_sim_wf(self);
            reveal(lane_knock);
        }
        let knock: i32 = if p.phys < 3 {
            p.phys
        } else {
            3
        };
        if knock == 0 {
            return;
        }
        let h = heading as i32;
        let (vx, vy) = match (self.angles.sine_word(heading), self.angles.sine_word(((h - 0x40) & 0xFF) as u16)) {
            (Some(a), Some(b)) => {
                let sa = a as i16 as i32;
                let sb = b as i16 as i32;
                (sa * knock >> 7, sb * knock >> 7)
            },
            _ => (0, 0),
        };
        let mut r3 = self.robots[ri];
        r3.facing = 0xFFFF;
        crate::movement::robot_move(&mut self.terrain, &mut r3, vx, vy, heading);
        self.robots.set(ri, r3);
        proof {
            lemma_sim_view(self);
            lemma_sim_wf(self);
            assert(self@ =~= lane_knock(m0, *p, ri as int, heading).unwrap());
        }
    }

    /// The robot lane for robot `ri` (see [`lane_robot`]).
    fn lane_robot_exec(&mut self, p: &PhysicsRecord, ri: usize)
        requires
            old(self).wf(),
            ri < old(self)@.robots.len(),
            lane_robot(old(self)@, *p, ri as int) is Some,
        ensures
            final(self).wf(),
            final(self)@ == lane_robot(old(self)@, *p, ri as int).unwrap(),
            final(self)@.robots.len() == old(self)@.robots.len(),
    {
        match self.lane_hit_exec(p, ri) {
            None => {},
            Some(heading) => {
                self.lane_knock_exec(p, ri, heading);
            },
        }
    }

    /// The crush probe (see [`crush_probe`]).
    fn crush_probe_exec(&mut self, ci: usize, x: i32, y: i32) -> (r: bool)
        requires
            old(self).wf(),
            ci < old(self)@.critters.len(),
            crush_probe(old(self)@, ci as int, x, y) is Some,
        ensures
            final(self).wf(),
            (r, final(self)@) == crush_probe(old(self)@, ci as int, x, y).unwrap(),
            final(self)@.critters == old(self)@.critters,
    {
        proof {
            lemma_sim_view(self);
            lemma_sim_wf(self);
        }
        let (w, h) = self.terrain.size();
        if x < 0 || y < 0 || x >> 5 >= w || y >> 5 >= h {
            return false;
        }
        let z = self.critters[ci].z;
        let floor = self.probe_floor(x, y, z);
        let d = z - floor;
        (if d < 0 {
            -d
        } else {
            d
        }) <= 3
    }

    /// The crush of critter `ci` (see [`critter_crushed`]).
    #[verifier::rlimit(100)]
    #[verifier::spinoff_prover]
    fn critter_crush(&mut self, ci: usize, dxq: i32, dyq: i32, radius: i32, mag: i32)
        requires
            old(self).wf(),
            ci < old(self)@.critters.len(),
            radius <= 0x60,
            mag == 2 || mag == 25,
            critter_crushed(old(self)@, ci as int, dxq, dyq, radius, mag) is Some,
        ensures
            final(self).wf(),
            final(self)@ == critter_crushed(old(self)@, ci as int, dxq, dyq, radius, mag).unwrap(),
            final(self)@.critters.len() == old(self)@.critters.len(),
    {
        let ghost m0 = self@;
        proof {
            lemma_sim_view(self);
            lemma_sim_wf(self);
        }
        let c = self.critters[ci];
        if !c.presence || c.mode == 7 || c.mode == 6 || c.mode == 0xB {
            return;
        }
        let small = c.kind == 1 || c.kind == 4;
        let (cnx, cny) = if small {
            ((c.x as i64 * 256) as i32, (c.y as i64 * 256) as i32)
        } else {
            (c.x, c.y)
        };
        let ddx = cnx - dxq;
        let ddy = cny - dyq;
        if ddx >= 0x8000 || ddx <= -0x8000 || ddy >= 0x8000 || ddy <= -0x8000 {
            return;
        }
        let dd = dist_octagonal(ddx, ddy);
        proof {
            assert(0 <= crate::angle::oct_norm(ddx, ddy) <= 0x10000);
            lemma_crush_shifts(0, dd, 0);
        }
        let dist_px = dd >> 8;
        if dist_px >= radius {
            return;
        }
        let q = (radius - 1) - dist_px;
        proof {
            lemma_crush_shifts(0, 0, q);
        }
        let falloff = q >> 3;
        if c.kind == 7 || c.kind == 2 || falloff <= 2 {
            return;
        }
        let heading = self.angles.angle_byte(ddx, ddy);
        let mut c1 = c;
        c1.hp = (c.hp as i32 - mag) as i16;
        self.critters.set(ci, c1);
        proof {
            lemma_sim_view(self);
            lemma_sim_wf(self);
        }
        let h = heading as i32;
        let (kx, ky) = match (self.angles.sine_word(heading), self.angles.sine_word(((h - 0x40) & 0xFF) as u16)) {
            (Some(a), Some(b)) => {
                let sa = a as i16 as i32;
                let sb = b as i16 as i32;
                assert(-0x8000 * 11 <= sa * falloff <= 0x8000 * 11 && -0x8000 * 11 <= sb * falloff <= 0x8000 * 11)
                    by (nonlinear_arith)
                    requires
                        -0x8000 <= sa <= 0x7FFF,
                        -0x8000 <= sb <= 0x7FFF,
                        0 <= falloff <= 11,
                ;
                ((sa * falloff) >> 8, (sb * falloff) >> 8)
            },
            _ => (0, 0),
        };
        self.crush_move(ci, c.kind, cnx + kx, cny + ky);
    }

    /// The rest of a crush (see [`crush_moved`]).
    #[verifier::rlimit(60)]
    #[verifier::spinoff_prover]
    fn crush_move(&mut self, ci: usize, kind: u16, nx: i32, ny: i32)
        requires
            old(self).wf(),
            ci < old(self)@.critters.len(),
            crush_moved(old(self)@, ci as int, kind, nx, ny) is Some,
        ensures
            final(self).wf(),
            final(self)@ == crush_moved(old(self)@, ci as int, kind, nx, ny).unwrap(),
            final(self)@.critters.len() == old(self)@.critters.len(),
    {
        let small = kind == 1 || kind == 4;
        let moved = self.crush_probe_exec(ci, nx >> 8, ny >> 8);
        proof {
            lemma_sim_view(self);
            lemma_sim_wf(self);
        }
        let mut c3 = self.critters[ci];
        if moved {
            if small {
                c3.x = nx >> 8;
                c3.y = ny >> 8;
            } else {
                c3.x = nx;
                c3.y = ny;
            }
        }
        if c3.hp > 0 {
            self.critters.set(ci, c3);
            proof {
                lemma_sim_view(self);
                lemma_sim_wf(self);
            }
            return;
        }
        c3.attacker = -1;
        self.critters.set(ci, c3);
        proof {
            lemma_sim_view(self);
            lemma_sim_wf(self);
        }
        if kind == 4 {
            self.critter_death(ci, 4, 0, c3.x, c3.y, c3.z);
        } else if (kind == 5 || kind == 6) && !(c3.mode == 5 || c3.mode == 6) {
            self.critter_death(ci, kind, 0x24, c3.x, c3.y, c3.z);
        }
    }

    /// The crush lane over every critter (see [`crush_upto`]).
    fn crush_lane(&mut self, dxq: i32, dyq: i32, radius: i32, mag: i32)
        requires
            old(self).wf(),
            radius <= 0x60,
            mag == 2 || mag == 25,
            crush_upto(old(self)@, dxq, dyq, radius, mag, old(self)@.critters.len()) is Some,
        ensures
            final(self).wf(),
            final(self)@ == crush_upto(old(self)@, dxq, dyq, radius, mag, old(self)@.critters.len()).unwrap(),
    {
        let ghost m0 = self@;
        proof {
            lemma_sim_view(self);
        }
        let n = self.critters.len();
        let mut ci: usize = 0;
        while ci < n
            invariant
                ci <= n,
                n == m0.critters.len(),
                self.wf(),
                radius <= 0x60,
                mag == 2 || mag == 25,
                crush_upto(m0, dxq, dyq, radius, mag, n as nat) is Some,
                crush_upto(m0, dxq, dyq, radius, mag, ci as nat) == Some(self@),
                self@.critters.len() == n,
            decreases n - ci,
        {
            proof {
                lemma_crush_prefix(m0, dxq, dyq, radius, mag, (ci + 1) as nat, n as nat);
            }
            self.critter_crush(ci, dxq, dyq, radius, mag);
            ci = ci + 1;
        }
    }

    /// The crush lane's terrain gate (see [`crush_gate`]).
    fn crush_gate_exec(&self, x: i32, y: i32) -> (g: bool)
        requires
            self.wf(),
        ensures
            g == crush_gate(self@, x, y),
    {
        proof {
            lemma_sim_view(self);
            lemma_sim_wf(self);
        }
        let (w, h) = self.terrain.size();
        proof {
            lemma_crush_shifts(x, 0, 0);
            lemma_crush_shifts(y, 0, 0);
            assert(w * h <= 0x1000_0000 && w <= 0x1000_0000) by (nonlinear_arith)
                requires
                    8 * w * h <= i32::MAX,
                    w > 0,
                    h > 0,
            ;
        }
        let tx: i32 = if (x >> 5) - 1 < 0 {
            0
        } else {
            (x >> 5) - 1
        };
        let ty: i32 = if (y >> 5) - 1 < 0 {
            0
        } else {
            (y >> 5) - 1
        };
        assert(tx == gate_origin(x) && ty == gate_origin(y));
        let n: u64 = w as u64 * h as u64;
        assert(ty as u64 * w as u64 <= 0x40_0000_0000_0000) by (nonlinear_arith)
            requires
                0 <= ty < 0x400_0000,
                0 < w <= 0x1000_0000,
        ;
        let base: u64 = ty as u64 * w as u64 + tx as u64;
        let ghost v = self@.terrain;
        let mut row: u64 = 0;
        while row < 3
            invariant
                row <= 3,
                v == self@.terrain,
                self.wf(),
                n == v.width * v.height,
                base == ty * v.width + tx,
                w == v.width,
                0 <= tx < 0x400_0000,
                0 <= ty < 0x400_0000,
                0 < w <= 0x1000_0000,
                base <= 0x40_0000_0000_0000 + 0x400_0000,
                n <= 0x1000_0000,
                tx == gate_origin(x) && ty == gate_origin(y),
                forall|r: int, c: int| 0 <= r < row && 0 <= c < 4 ==> !#[trigger] gate_hit(v, tx as int, ty as int, r, c),
            decreases 3 - row,
        {
            let mut c: u64 = 0;
            while c < 4
                invariant
                    c <= 4,
                    row < 3,
                    v == self@.terrain,
                    self.wf(),
                    n == v.width * v.height,
                    base == ty * v.width + tx,
                    w == v.width,
                    0 <= tx < 0x400_0000,
                    0 <= ty < 0x400_0000,
                    0 < w <= 0x1000_0000,
                    base <= 0x40_0000_0000_0000 + 0x400_0000,
                    n <= 0x1000_0000,
                    tx == gate_origin(x) && ty == gate_origin(y),
                    forall|r: int, cc: int| 0 <= r < row && 0 <= cc < 4 ==> !#[trigger] gate_hit(v, tx as int, ty as int, r, cc),
                    forall|cc: int| 0 <= cc < c ==> !#[trigger] gate_hit(v, tx as int, ty as int, row as int, cc),
                decreases 4 - c,
            {
                proof {
                    lemma_sim_view(self);
                    lemma_sim_wf(self);
                }
                let off: u64 = base + row * (w as u64) + c;
                assert(off == ty * w + tx + row * w + c);
                let b: u8 = if off < n {
                    assert(off < 0x1000_0000);
                    let oi = off as usize;
                    assert(oi == off);
                    self.terrain.plane0_linear_byte(oi)
                } else {
                    0
                };
                assert(b == plane0_at(v, ty * w + tx + row * w + c));
                if b != 0 {
                    assert(gate_hit(v, tx as int, ty as int, row as int, c as int));
                    return true;
                }
                assert(!gate_hit(v, tx as int, ty as int, row as int, c as int));
                c = c + 1;
            }
            row = row + 1;
        }
        false
    }

    /// The physics pass of debris record `idx` (see [`physics_pass`]).
    fn debris_physics(&mut self, idx: usize)
        requires
            old(self).wf(),
            idx < old(self)@.debris.len(),
            physics_pass(old(self)@, idx as int) is Some,
        ensures
            final(self).wf(),
            final(self)@ == physics_pass(old(self)@, idx as int).unwrap(),
    {
        let ghost m0 = self@;
        proof {
            lemma_sim_view(self);
            lemma_sim_wf(self);
            reveal(physics_pass);
        }
        let d = self.debris[idx];
        let p = PhysicsRecord { x: d.x, y: d.y, kind: d.kind, phys: d.phys, param: d.param };
        let mag: i32 = if p.kind == 12 {
            25
        } else {
            2
        };
        let r0 = p.phys * 16 + 0x20;
        let radius: i32 = if r0 < 0x60 {
            r0
        } else {
            0x60
        };
        let n = self.robots.len();
        let mut ri: usize = 0;
        while ri < n
            invariant
                ri <= n,
                n == m0.robots.len(),
                p == physics_record(m0.debris[idx as int]),
                self.wf(),
                idx < m0.debris.len(),
                m0.debris.len() == crate::destroy::DEBRIS_SLOTS,
                lane_upto(m0, p, n as nat) is Some,
                lane_upto(m0, p, ri as nat) == Some(self@),
                self@.robots.len() == n,
                self@.debris.len() == m0.debris.len(),
            decreases n - ri,
        {
            proof {
                lemma_lane_prefix(m0, p, (ri + 1) as nat, n as nat);
            }
            self.lane_robot_exec(&p, ri);
            proof {
                lemma_sim_wf(self);
            }
            ri = ri + 1;
        }
        proof {
            lemma_sim_view(self);
            lemma_sim_wf(self);
        }
        self.physics_rest_exec(idx, &p, radius, mag);
    }

    /// The crush lane and the countdown (see [`physics_rest`]).
    fn physics_rest_exec(&mut self, idx: usize, p: &PhysicsRecord, radius: i32, mag: i32)
        requires
            old(self).wf(),
            idx < old(self)@.debris.len(),
            radius <= 0x60,
            mag == 2 || mag == 25,
            physics_rest(old(self)@, idx as int, *p, radius, mag) is Some,
        ensures
            final(self).wf(),
            final(self)@ == physics_rest(old(self)@, idx as int, *p, radius, mag).unwrap(),
    {
        let ghost m1 = self@;
        proof {
            lemma_sim_view(self);
            lemma_sim_wf(self);
        }
        if self.crush_gate_exec(p.x, p.y) {
            self.crush_lane((p.x as i64 * 256) as i32, (p.y as i64 * 256) as i32, radius, mag);
        }
        proof {
            lemma_sim_view(self);
            lemma_sim_wf(self);
        }
        let ghost m2 = self@;
        let mut d2 = self.debris[idx];
        d2.phys = d2.phys - 1;
        self.debris.set(idx, d2);
        proof {
            lemma_sim_view(self);
            lemma_sim_wf(self);
            assert(self@ =~= physics_rest(m1, idx as int, *p, radius, mag).unwrap());
        }
    }

    /// Tick debris record `idx` (see [`debris_ticked_one`]).
    fn tick_debris_one(&mut self, idx: usize)
        requires
            old(self).wf(),
            idx < old(self)@.debris.len(),
            debris_ticked_one(old(self)@, idx as int) is Some,
        ensures
            final(self).wf(),
            final(self)@ == debris_ticked_one(old(self)@, idx as int).unwrap(),
    {
        let ghost m0 = self@;
        proof {
            lemma_sim_view(self);
            lemma_sim_wf(self);
            reveal(debris_ticked_one);
        }
        let mut d = self.debris[idx];
        if !d.active {
            return;
        }
        if d.delay != 0 {
            d.delay = d.delay - 1;
            self.debris.set(idx, d);
            proof {
                lemma_sim_view(self);
                lemma_sim_wf(self);
                assert(self@ =~= debris_ticked_one(m0, idx as int).unwrap());
            }
            return;
        }
        d.anim = d.anim + 1;
        self.debris.set(idx, d);
        proof {
            lemma_sim_view(self);
            lemma_sim_wf(self);
        }
        let walk = crate::objects::debris_seq_tables(d.table as usize);
        let i: usize = if d.anim < 0 {
            0
        } else {
            d.anim as usize
        };
        let done = i >= walk.len() || walk[i] == -1;
        if done {
            d.active = false;
            self.debris.set(idx, d);
            proof {
                lemma_sim_view(self);
                lemma_sim_wf(self);
                assert(self@ =~= debris_ticked_one(m0, idx as int).unwrap());
            }
        } else if d.phys != 0 {
            self.debris_physics(idx);
        }
    }

    /// The debris tick: every record in slot order (see
    /// [`debris_ticked`]).
    pub fn debris_tick(&mut self)
        requires
            old(self).wf(),
            debris_ticked(old(self)@) is Some,
        ensures
            final(self).wf(),
            final(self)@ == debris_ticked(old(self)@).unwrap(),
    {
        let ghost m0 = self@;
        proof {
            lemma_sim_view(self);
            lemma_sim_wf(self);
        }
        let n = self.debris.len();
        let mut idx: usize = 0;
        while idx < n
            invariant
                idx <= n,
                n == m0.debris.len(),
                n == crate::destroy::DEBRIS_SLOTS,
                self.wf(),
                debris_ticked_upto(m0, n as nat) is Some,
                debris_ticked_upto(m0, idx as nat) == Some(self@),
                self@.debris.len() == n,
            decreases n - idx,
        {
            proof {
                lemma_tick_prefix(m0, (idx + 1) as nat, n as nat);
            }
            self.tick_debris_one(idx);
            proof {
                lemma_sim_wf(self);
            }
            idx = idx + 1;
        }
    }
}

/// A staged death-debris prefix is defined when the whole is.
proof fn lemma_death_debris_prefix(m: MissionView, rows: Seq<(i32, i32, i32, i32)>, k: nat, n: nat)
    requires
        k <= n,
        n <= rows.len(),
        death_debris_staged(m, rows, n) is Some,
    ensures
        death_debris_staged(m, rows, k) is Some,
    decreases n - k,
{
    if k < n {
        lemma_death_debris_prefix(m, rows, k + 1, n);
    }
}

/// A robot-lane prefix is defined when the whole is.
proof fn lemma_lane_prefix(m: MissionView, p: PhysicsRecord, k: nat, n: nat)
    requires
        k <= n,
        lane_upto(m, p, n) is Some,
    ensures
        lane_upto(m, p, k) is Some,
    decreases n - k,
{
    if k < n {
        lemma_lane_prefix(m, p, k + 1, n);
    }
}

/// Shift facts of the crush lane.
proof fn lemma_crush_shifts(x: i32, d: i32, q: i32)
    ensures
        -0x400_0000 <= x >> 5u32 <= 0x3FF_FFFF,
        0 <= d <= 0x10000 ==> 0 <= d >> 8u32 <= 0x100,
        0 <= q <= 0x5F ==> 0 <= q >> 3u32 <= 11,
{
    assert(-0x400_0000 <= x >> 5u32 <= 0x3FF_FFFF) by (bit_vector);
    assert(0 <= d <= 0x10000 ==> 0 <= d >> 8u32 <= 0x100) by (bit_vector);
    assert(0 <= q <= 0x5F ==> 0 <= q >> 3u32 <= 11) by (bit_vector);
}

/// A crush-lane prefix is defined when the whole is.
proof fn lemma_crush_prefix(m: MissionView, dxq: i32, dyq: i32, radius: i32, mag: i32, k: nat, n: nat)
    requires
        k <= n,
        crush_upto(m, dxq, dyq, radius, mag, n) is Some,
    ensures
        crush_upto(m, dxq, dyq, radius, mag, k) is Some,
    decreases n - k,
{
    if k < n {
        lemma_crush_prefix(m, dxq, dyq, radius, mag, k + 1, n);
    }
}

/// A tick prefix is defined when the whole is.
proof fn lemma_tick_prefix(m: MissionView, k: nat, n: nat)
    requires
        k <= n,
        debris_ticked_upto(m, n) is Some,
    ensures
        debris_ticked_upto(m, k) is Some,
    decreases n - k,
{
    if k < n {
        lemma_tick_prefix(m, k + 1, n);
    }
}

} // verus!
