//! The critter controller: the per-frame bodies of the critter kinds and
//! the enemy-projectile bank they fire into.
//!
//! Every body works on one record of the critter bank and reads the
//! robots, the angle table and the terrain; a floor probe also records
//! the terrain's trigger latch. The wanderer (kind 1), the sine-walk
//! shooter (kind 2), the chaser (kind 3), the seek stepper (kind 4), the
//! mixed kinds (5 and 6) and the close-combat beamer (kind 7) each have a
//! body here.
use vstd::prelude::*;

use crate::angle::{angle_of, dist_oct, dist_octagonal, AngleTable, AngleView};
use crate::critter::{picked, probed, raw_or0, CritterRecord};
use crate::critter::effect_rows_staged;
use crate::impact::{debris_step, drawn, splash_step};
use crate::mission::{
    damage_defined, damage_result, fits32, lemma_sim_view, lemma_sim_wf, sector_aim, MissionSim, MissionView, Robot,
    FACING_NONE,
};
use crate::movement::move_check;

verus! {

/// Capacity of the enemy-projectile bank.
pub const ENEMY_SLOTS: usize = 50;

/// One enemy projectile: its kind (0 marks a free slot), position and
/// velocity.
#[derive(Debug, Clone, Copy, PartialEq, Eq)]
pub struct EnemyProjectile {
    pub kind: u16,
    pub x: i32,
    pub y: i32,
    pub z: i32,
    pub vx: i32,
    pub vy: i32,
    pub vz: i32,
}

/// A free projectile slot.
pub open spec fn free_projectile() -> EnemyProjectile {
    EnemyProjectile { kind: 0, x: 0, y: 0, z: 0, vx: 0, vy: 0, vz: 0 }
}

/// A bank of free projectile slots.
pub(crate) fn free_projectile_bank() -> (v: Vec<EnemyProjectile>)
    ensures
        v@ == Seq::new(ENEMY_SLOTS as nat, |i: int| free_projectile()),
{
    let mut v: Vec<EnemyProjectile> = Vec::new();
    let mut i: usize = 0;
    while i < ENEMY_SLOTS
        invariant
            i <= ENEMY_SLOTS,
            v@ == Seq::new(i as nat, |k: int| free_projectile()),
        decreases ENEMY_SLOTS - i,
    {
        v.push(EnemyProjectile { kind: 0, x: 0, y: 0, z: 0, vx: 0, vy: 0, vz: 0 });
        i = i + 1;
        assert(v@ =~= Seq::new(i as nat, |k: int| free_projectile()));
    }
    v
}

/// The first free slot of the bank from slot `i` on.
pub open spec fn free_slot_from(b: Seq<EnemyProjectile>, i: nat) -> Option<int>
    decreases b.len() - i,
{
    if i >= b.len() {
        None
    } else if b[i as int].kind == 0 {
        Some(i as int)
    } else {
        free_slot_from(b, i + 1)
    }
}

/// A slot found by [`free_slot_from`] is a free slot of the bank.
pub(crate) proof fn lemma_free_slot_in(b: Seq<EnemyProjectile>, i: nat)
    ensures
        free_slot_from(b, i) matches Some(k) ==> i <= k < b.len() && b[k].kind == 0,
    decreases b.len() - i,
{
    if i < b.len() && b[i as int].kind != 0 {
        lemma_free_slot_in(b, i + 1);
    }
}

/// `|v|`.
pub open spec fn abs_int(v: int) -> int {
    if v < 0 {
        -v
    } else {
        v
    }
}

/// `n / d` rounded toward zero, for a nonzero `d`.
pub open spec fn trunc_div(n: int, d: int) -> int {
    let q = abs_int(n) / abs_int(d);
    if (n < 0) != (d < 0) {
        -q
    } else {
        q
    }
}

/// The signed cosine and sine words of a heading byte, or `None` when
/// the table has no sine words.
pub open spec fn sine_pair(a: AngleView, heading: i32) -> Option<(i32, i32)> {
    match a.sine {
        None => None,
        Some(sn) => {
            let h = heading & 0xFF;
            let c = sn[h as int];
            let s = sn[if h >= 0x40 {
                h - 0x40
            } else {
                h + 0xC0
            }];
            Some((c as i16 as i32, s as i16 as i32))
        },
    }
}

impl MissionSim {
    /// The first free slot of the enemy bank (see [`free_slot_from`]).
    fn enemy_free_slot(&self) -> (r: Option<usize>)
        requires
            self.wf(),
        ensures
            r matches Some(k) ==> free_slot_from(self@.enemy_bank, 0) == Some(k as int),
            r is None ==> free_slot_from(self@.enemy_bank, 0) is None,
            r matches Some(k) ==> k < self@.enemy_bank.len(),
    {
        proof {
            lemma_sim_view(self);
            lemma_free_slot_in(self@.enemy_bank, 0);
        }
        let mut i: usize = 0;
        while i < self.enemy_bank.len()
            invariant
                i <= self@.enemy_bank.len(),
                self.enemy_bank@ == self@.enemy_bank,
                free_slot_from(self@.enemy_bank, i as nat) == free_slot_from(self@.enemy_bank, 0),
            decreases self@.enemy_bank.len() - i,
        {
            if self.enemy_bank[i].kind == 0 {
                return Some(i);
            }
            i = i + 1;
        }
        None
    }

    /// The enemy-projectile bank, in slot order.
    pub fn enemy_bank(&self) -> (r: &[EnemyProjectile])
        ensures
            r@ == self@.enemy_bank,
    {
        proof {
            lemma_sim_view(self);
        }
        self.enemy_bank.as_slice()
    }
}

/// The signed cosine and sine words of a heading (see [`sine_pair`]).
pub(crate) fn sine_pair_exec(a: &AngleTable, heading: i32) -> (r: Option<(i32, i32)>)
    requires
        a.wf(),
    ensures
        r == sine_pair(a@, heading),
{
    let hv = heading & 0xFF;
    assert(0 <= hv <= 0xFF) by (bit_vector)
        requires
            hv == heading & 0xFF,
    ;
    let h = hv as u16;
    let hm = hv - 0x40;
    let h2 = (hm & 0xFF) as u16;
    assert(0 <= hm & 0xFF <= 0xFF) by (bit_vector);
    assert((hm & 0xFF) == if hv >= 0x40 {
        hv - 0x40
    } else {
        hv + 0xC0
    }) by (bit_vector)
        requires
            0 <= hv <= 0xFF,
            hm == hv - 0x40,
    ;
    assert(h & 0xFF == h && h2 & 0xFF == h2) by (bit_vector)
        requires
            h <= 0xFF,
            h2 <= 0xFF,
    ;
    match (a.sine_word(h), a.sine_word(h2)) {
        (Some(c), Some(sn)) => Some((c as i16 as i32, sn as i16 as i32)),
        _ => None,
    }
}

/// `n / d` rounded toward zero (see [`trunc_div`]).
fn trunc_div_exec(n: i32, d: i32) -> (q: i32)
    requires
        d != 0,
        fits32(trunc_div(n as int, d as int)),
    ensures
        q == trunc_div(n as int, d as int),
{
    let an: u64 = if n < 0 {
        (0 - (n as i64)) as u64
    } else {
        n as u64
    };
    let ad: u64 = if d < 0 {
        (0 - (d as i64)) as u64
    } else {
        d as u64
    };
    let qa = an / ad;
    assert(qa <= an) by (nonlinear_arith)
        requires
            qa == an / ad,
            ad > 0,
    ;
    if (n < 0) != (d < 0) {
        (0 - (qa as i64)) as i32
    } else {
        qa as i32
    }
}


/// The nearest alive robot to the pixel position `(px, py)`, from robot
/// `i` on, given the best so far `(index, distance)`: the octagonal
/// distance of the robot's pixel position, the first of equals kept.
pub open spec fn nearest_px_from(s: Seq<Robot>, px: i32, py: i32, i: nat, best: (i32, i32)) -> (i32, i32)
    decreases s.len() - i,
{
    if i >= s.len() {
        best
    } else {
        let r = s[i as int];
        if !r.alive {
            nearest_px_from(s, px, py, i + 1, best)
        } else {
            let d = dist_oct(((r.pos_x >> 8u32) - px) as i32, ((r.pos_y >> 8u32) - py) as i32);
            nearest_px_from(
                s,
                px,
                py,
                i + 1,
                if d < best.1 {
                    (i as i32, d)
                } else {
                    best
                },
            )
        }
    }
}

/// The nearest alive robot to a pixel position: `(index, distance)`,
/// or `(0, 10000000)` when no robot is alive.
pub open spec fn nearest_px(s: Seq<Robot>, px: i32, py: i32) -> (i32, i32) {
    nearest_px_from(s, px, py, 0, (0i32, 0x989680i32))
}

/// The walk gate of a chaser record `c` stepping by Q13 `(dx, dy)`: the
/// target inside the map and its floor, probed at the critter's level,
/// within 3 of it. The probe records the trigger latch. `None` when a
/// coordinate or the height difference leaves `i32`.
pub open spec fn walk_gate_s(m: MissionView, c: CritterRecord, dx: i32, dy: i32) -> Option<(bool, MissionView)> {
    let nx = c.x + dx;
    let ny = c.y + dy;
    if !fits32(nx) || !fits32(ny) {
        None
    } else if nx < 0 || ny < 0 || (nx as i32) >> 13u32 >= m.terrain.width || (ny as i32) >> 13u32
        >= m.terrain.height {
        Some((false, m))
    } else {
        let (f, m1) = probed(m, (nx as i32) >> 8u32, (ny as i32) >> 8u32, c.z);
        let d = c.z - f;
        if !fits32(d) || d == i32::MIN {
            None
        } else {
            Some((-3 <= d <= 3, m1))
        }
    }
}

/// One try of the wall-follow: the step `(dx, dy)` when the walk gate
/// passes it, with the seek sector set to `sector` when one is given.
pub open spec fn try_axis_s(m: MissionView, c: CritterRecord, dx: i32, dy: i32, sector: Option<u16>) -> Option<
    (bool, MissionView, CritterRecord),
> {
    match walk_gate_s(m, c, dx, dy) {
        None => None,
        Some((ok, m1)) => if ok {
            Some(
                (
                    true,
                    m1,
                    CritterRecord {
                        x: (c.x + dx) as i32,
                        y: (c.y + dy) as i32,
                        seek_sector: match sector {
                            Some(s) => s,
                            None => c.seek_sector,
                        },
                        ..c
                    },
                ),
            )
        } else {
            Some((false, m1, c))
        },
    }
}

/// The wall-follow moves of a blocked chaser with seek sector `sector`,
/// heading byte `h` and open-path y step `dy`: the move along the
/// sector's own axis, then the two perpendicular moves (with the sectors
/// they set) in the order the heading (sectors 0x00/0x80) or the y step
/// (sectors 0x40/0xC0) picks. `None` for any other sector.
pub open spec fn follow_moves(sector: u16, h: i32, dy: i32) -> Option<((i32, i32), (i32, i32, u16), (i32, i32, u16))> {
    let west: (i32, i32, u16) = (-0x200i32, 0, 0xC0);
    let east: (i32, i32, u16) = (0x200, 0, 0x40);
    let south: (i32, i32, u16) = (0, 0x200, 0x80);
    let north: (i32, i32, u16) = (0, -0x200i32, 0x00);
    if sector == 0 || sector == 0x80 {
        let keep: (i32, i32) = if sector == 0 {
            (0, -0x200i32)
        } else {
            (0, 0x200)
        };
        if h >= 0x80 {
            Some((keep, west, east))
        } else {
            Some((keep, east, west))
        }
    } else if sector == 0x40 || sector == 0xC0 {
        let keep: (i32, i32) = if sector == 0x40 {
            (0x200, 0)
        } else {
            (-0x200i32, 0)
        };
        if dy > 0x80 {
            Some((keep, south, north))
        } else {
            Some((keep, north, south))
        }
    } else {
        None
    }
}

/// The wall-follow of a blocked chaser (see [`follow_moves`]): the first
/// move, in order, that the walk gate passes.
pub open spec fn follow_s(m: MissionView, c: CritterRecord, h: i32, dy: i32) -> Option<(MissionView, CritterRecord)> {
    match follow_moves(c.seek_sector, h, dy) {
        None => Some((m, c)),
        Some((k, p1, p2)) => match try_axis_s(m, c, k.0, k.1, None) {
            None => None,
            Some((ok, m1, c1)) => if ok {
                Some((m1, c1))
            } else {
                match try_axis_s(m1, c1, p1.0, p1.1, Some(p1.2)) {
                    None => None,
                    Some((ok2, m2, c2)) => if ok2 {
                        Some((m2, c2))
                    } else {
                        match try_axis_s(m2, c2, p2.0, p2.1, Some(p2.2)) {
                            None => None,
                            Some((_, m3, c3)) => Some((m3, c3)),
                        }
                    },
                }
            },
        },
    }
}

/// One chaser step along its heading: the sine words `>> 5` behind the
/// walk gate, setting the seek sector to the heading's quadrant and
/// keeping the heading; when blocked, the wall-follow, after which the
/// heading takes the seek sector. No step when the table has no sine
/// words.
pub open spec fn chaser_step_s(m: MissionView, c: CritterRecord) -> Option<(MissionView, CritterRecord)> {
    let h = c.heading & 0xFF;
    match sine_pair(m.angles, h) {
        None => Some((m, c)),
        Some((cw, sw)) => {
            let dx = cw >> 5u32;
            let dy = sw >> 5u32;
            match walk_gate_s(m, c, dx, dy) {
                None => None,
                Some((ok, m1)) => if ok {
                    Some(
                        (
                            m1,
                            CritterRecord {
                                x: (c.x + dx) as i32,
                                y: (c.y + dy) as i32,
                                seek_sector: ((((h + 0x20) as i32) & 0xFF) & 0xC0) as u16,
                                ..c
                            },
                        ),
                    )
                } else {
                    match follow_s(m1, c, h, dy) {
                        None => None,
                        Some((m2, c2)) => Some((m2, CritterRecord { heading: c2.seek_sector as i32, ..c2 })),
                    }
                },
            }
        },
    }
}


/// Whether the chaser walk pattern steps at countdown `cd` (0 to 9): it
/// steps on 2, 3, 7, 8 and 9.
pub open spec fn walk_pattern(cd: i32) -> bool {
    cd == 2 || cd == 3 || cd >= 7
}

/// `v` clamped to `0..=9`.
pub open spec fn clamp09(v: i32) -> i32 {
    if v < 0 {
        0
    } else if v > 9 {
        9
    } else {
        v
    }
}

/// The 32-sector aim of a chaser at its target robot; the heading is kept
/// when the target is unset or gone. `None` when a delta leaves `i32`.
pub open spec fn aim_robot_s(m: MissionView, c: CritterRecord) -> Option<i32> {
    let t = c.target_robot as int;
    if t < 0 || t >= m.robots.len() {
        Some(c.heading)
    } else {
        let dx = m.robots[t].pos_x - c.x;
        let dy = m.robots[t].pos_y - c.y;
        if !fits32(dx) || !fits32(dy) {
            None
        } else {
            Some(sector_aim(m.angles, dx as i32, dy as i32))
        }
    }
}

/// The 32-sector aim of a chaser at its home. `None` when a delta leaves
/// `i32`.
pub open spec fn aim_home_s(m: MissionView, c: CritterRecord) -> Option<i32> {
    let dx = c.home_x - c.x;
    let dy = c.home_y - c.y;
    if !fits32(dx) || !fits32(dy) {
        None
    } else {
        Some(sector_aim(m.angles, dx as i32, dy as i32))
    }
}

/// A chaser whose set target robot is dead or gone goes awake-idle
/// (mode 8, countdown 0, no target).
pub open spec fn target_checked(m: MissionView, c: CritterRecord) -> CritterRecord {
    let t = c.target_robot as int;
    if t >= 0 && !(t < m.robots.len() && m.robots[t].alive) {
        CritterRecord { mode: 8, countdown: 0, target_robot: -1i16, ..c }
    } else {
        c
    }
}

/// A dormant (mode 0xB) record: below the respawn delay the countdown
/// counts up, and on the count `respawn - 0x14` the record moves home
/// with its spawn heading; at the delay it wakes present and awake-idle
/// with 1500 hit points, countdown 0 and species 0.
pub open spec fn dormant_s(c: CritterRecord, respawn: i32) -> CritterRecord {
    if c.countdown < respawn {
        let cd = (c.countdown + 1) as i32;
        if cd == respawn - 0x14 {
            CritterRecord { countdown: cd, heading: c.spawn_heading, x: c.home_x, y: c.home_y, z: c.home_z, ..c }
        } else {
            CritterRecord { countdown: cd, ..c }
        }
    } else {
        CritterRecord { presence: true, countdown: 0, species: 0, mode: 8, hp: 0x5DC, ..c }
    }
}

/// A dying (mode 7) record: hit points 0 and the death counter up by
/// one; at 0x28 it turns dormant with countdown 0.
pub open spec fn dying_s(c: CritterRecord) -> CritterRecord {
    let d = (c.death_ctr + 1) as i32;
    if d >= 0x28 {
        CritterRecord { hp: 0, death_ctr: d, mode: 0xB, countdown: 0, ..c }
    } else {
        CritterRecord { hp: 0, death_ctr: d, ..c }
    }
}

/// The return-home mode: mode 0xA, countdown 0, a walk budget of 0x20 in
/// the species word, no target.
pub open spec fn homeward(c: CritterRecord) -> CritterRecord {
    CritterRecord { mode: 0xA, countdown: 0, species: 0x20, target_robot: -1i16, ..c }
}

/// The chaser's distance ladder: the species word counts down to 0; then,
/// with the nearest alive robot `(robot, dist)` from the Q5 position and
/// the octagonal leash from home, four rules in order, each reading the
/// mode the previous left: past 200 while attacking, return home; with
/// species 0, within 200 and a leash under 400 while neither approaching
/// nor attacking, approach the robot; within 100 while not attacking,
/// attack it; a leash of 400 or more while not returning, return home.
pub open spec fn ladder_s(m: MissionView, c: CritterRecord) -> Option<CritterRecord> {
    let c1 = CritterRecord {
        species: if c.species > 0 {
            (c.species - 1) as u16
        } else {
            0
        },
        ..c
    };
    let (robot, dist) = nearest_px(m.robots, c.x >> 8u32, c.y >> 8u32);
    {
        {
            let leash = dist_oct(
                ((c.home_x >> 8u32) - (c.x >> 8u32)) as i32,
                ((c.home_y >> 8u32) - (c.y >> 8u32)) as i32,
            );
            let c2 = if dist > 0xC8 && c1.mode == 2 {
                homeward(c1)
            } else {
                c1
            };
            let c3 = if c2.species == 0 && dist < 0xC8 && leash < 0x190 && c2.mode != 3 && c2.mode != 2 {
                CritterRecord { mode: 3, target_robot: robot as i16, countdown: 0, ..c2 }
            } else {
                c2
            };
            let c4 = if dist < 0x64 && c3.mode != 2 {
                CritterRecord { mode: 2, target_robot: robot as i16, countdown: 0, ..c3 }
            } else {
                c3
            };
            let c5 = if leash >= 0x190 && c4.mode != 0xA {
                homeward(c4)
            } else {
                c4
            };
            Some(c5)
        }
    }
}

/// The approach and return-home walk: at countdown 0 the countdown
/// becomes 9 and the heading the given aim; a step when the walk pattern
/// at the countdown (clamped to 0..=9) says so; then the countdown counts
/// down. `None` on overflow.
pub open spec fn chaser_walk_s(m: MissionView, c: CritterRecord, aim: Option<i32>) -> Option<(MissionView, CritterRecord)> {
    let c1o: Option<CritterRecord> = if c.countdown == 0 {
        match aim {
            None => None,
            Some(h) => Some(CritterRecord { countdown: 9, heading: h, ..c }),
        }
    } else {
        Some(c)
    };
    match c1o {
        None => None,
        Some(c1) => {
            let st = if walk_pattern(clamp09(c1.countdown)) {
                chaser_step_s(m, c1)
            } else {
                Some((m, c1))
            };
            match st {
                None => None,
                Some((m2, c2)) => if c2.countdown == i32::MIN {
                    None
                } else {
                    Some((m2, CritterRecord { countdown: (c2.countdown - 1) as i32, ..c2 }))
                },
            }
        },
    }
}

/// An aimed shot of `kind` from critter `c` at the Q13 position `(tx,
/// ty)` and Q5 height `tz`: at the critter with the z word
/// `(z + 0x10) << 8`, the pixel deltas scaled to 0x800 over their
/// octagonal length (at least 1) and the height delta `(tz + 4) - (z +
/// 0x10)` to 0x8000 over the octagonal length of both scaled by 0x10 (at
/// least 1), each quotient rounded toward zero. `None` on overflow.
pub open spec fn shot_at(c: CritterRecord, kind: u16, tx: i32, ty: i32, tz: i32) -> Option<EnemyProjectile> {
    let dx = (tx >> 8u32) - (c.x >> 8u32);
    let dy = (ty >> 8u32) - (c.y >> 8u32);
    let dz = (tz + 4) - (c.z + 0x10);
    if !fits32(tz + 4) || !fits32(c.z + 0x10) || !fits32(dz) {
        None
    } else {
        let d0 = dist_oct(dx as i32, dy as i32);
        let dist: i32 = if d0 == 0 {
            1
        } else {
            d0
        };
        if !fits32(dx * 0x800) || !fits32(dy * 0x800) || !fits32(dist * 0x10) || !fits32(dz * 0x10) || !fits32(
            dz * 0x8000,
        ) {
            None
        } else {
            let e0 = dist_oct((dist * 0x10) as i32, (dz * 0x10) as i32);
            let den: i32 = if e0 == 0 {
                1
            } else {
                e0
            };
            let vx = trunc_div(dx * 0x800, dist as int);
            let vy = trunc_div(dy * 0x800, dist as int);
            let vz = trunc_div(dz * 0x8000, den as int);
            if !fits32(vx) || !fits32(vy) || !fits32(vz) {
                None
            } else {
                Some(
                    EnemyProjectile {
                        kind,
                        x: c.x,
                        y: c.y,
                        z: ((((c.z + 0x10) as i32) as u32) << 8u32) as i32,
                        vx: vx as i32,
                        vy: vy as i32,
                        vz: vz as i32,
                    },
                )
            }
        }
    }
}

/// The chaser's shot at its target robot: a kind-0x67 aimed shot (see
/// [`shot_at`]) at the robot. No shot (`Some(None)`) without a target;
/// `None` on overflow.
pub open spec fn chaser_shot_s(m: MissionView, c: CritterRecord) -> Option<Option<EnemyProjectile>> {
    let t = c.target_robot as int;
    if t < 0 || t >= m.robots.len() {
        Some(None)
    } else {
        match shot_at(c, 0x67, m.robots[t].pos_x, m.robots[t].pos_y, m.robots[t].z) {
            None => None,
            Some(p) => Some(Some(p)),
        }
    }
}

/// The attack mode: at countdown 0 the heading aims at the target; the
/// countdown cycles 1, 2, 3, 0; then a shot (see [`chaser_shot_s`]) goes
/// into the first free slot of the enemy bank, when there is one. `None`
/// on overflow.
pub open spec fn chaser_attack_s(m: MissionView, c: CritterRecord) -> Option<(MissionView, CritterRecord)> {
    let c1o: Option<CritterRecord> = if c.countdown == 0 {
        match aim_robot_s(m, c) {
            None => None,
            Some(h) => Some(CritterRecord { heading: h, ..c }),
        }
    } else {
        Some(c)
    };
    match c1o {
        None => None,
        Some(c1) => if c1.countdown == i32::MAX {
            None
        } else {
            let cd = c1.countdown + 1;
            let c2 = CritterRecord {
                countdown: if cd > 3 {
                    0
                } else {
                    cd as i32
                },
                ..c1
            };
            match free_slot_from(m.enemy_bank, 0) {
                None => Some((m, c2)),
                Some(slot) => match chaser_shot_s(m, c2) {
                    None => None,
                    Some(None) => Some((m, c2)),
                    Some(Some(p)) => Some((MissionView { enemy_bank: m.enemy_bank.update(slot, p), ..m }, c2)),
                },
            }
        },
    }
}

/// One frame of a chaser record `c0`: the target check; a dormant or
/// dying record runs only its countdown; otherwise the distance ladder
/// (see [`ladder_s`]) and the body of the mode it leaves: approach (3),
/// return home (0xA), attack (2); modes 0 and 8 only run the ladder.
/// `None` on overflow.
#[verifier::opaque]
pub open spec fn chaser_body_s(m: MissionView, c0: CritterRecord, respawn: i32) -> Option<(MissionView, CritterRecord)> {
    let c = target_checked(m, c0);
    if c.mode == 0xB {
        Some((m, dormant_s(c, respawn)))
    } else if c.mode == 7 {
        if c.death_ctr == i32::MAX {
            None
        } else {
            Some((m, dying_s(c)))
        }
    } else {
        match ladder_s(m, c) {
            None => None,
            Some(c1) => if c1.mode == 3 {
                chaser_walk_s(m, c1, aim_robot_s(m, c1))
            } else if c1.mode == 0xA {
                chaser_walk_s(m, c1, aim_home_s(m, c1))
            } else if c1.mode == 2 {
                chaser_attack_s(m, c1)
            } else {
                Some((m, c1))
            },
        }
    }
}

/// The simulation after one frame of the chaser at `idx` (see
/// [`chaser_body_s`]).
pub open spec fn chaser_s(m: MissionView, idx: int, respawn: i32) -> Option<MissionView> {
    match chaser_body_s(m, m.critters[idx], respawn) {
        None => None,
        Some((m1, c1)) => Some(MissionView { critters: m.critters.update(idx, c1), ..m1 }),
    }
}

impl MissionSim {
    /// The nearest alive robot to a pixel position (see [`nearest_px`]).
    fn nearest_robot_px(&self, px: i32, py: i32) -> (r: (i32, i32))
        requires
            -0x800000 <= px < 0x800000,
            -0x800000 <= py < 0x800000,
        ensures
            r == nearest_px(self@.robots, px, py),
    {
        proof {
            lemma_sim_view(self);
        }
        let mut best: (i32, i32) = (0, 0x989680);
        let mut i: usize = 0;
        while i < self.robots.len()
            invariant
                i <= self@.robots.len(),
                self.robots@ == self@.robots,
                -0x800000 <= px < 0x800000,
                -0x800000 <= py < 0x800000,
                nearest_px_from(self@.robots, px, py, i as nat, best) == nearest_px(self@.robots, px, py),
            decreases self@.robots.len() - i,
        {
            if self.robots[i].alive {
                let rx = self.robots[i].pos_x;
                let ry = self.robots[i].pos_y;
                proof {
                    lemma_px_range(rx);
                    lemma_px_range(ry);
                }
                let d = dist_octagonal((rx >> 8u32) - px, (ry >> 8u32) - py);
                if d < best.1 {
                    best = (i as i32, d);
                }
            }
            i = i + 1;
        }
        best
    }
}

impl MissionSim {
    /// The walk gate (see [`walk_gate_s`]).
    fn walk_gate(&mut self, c: CritterRecord, dx: i32, dy: i32) -> (ok: bool)
        requires
            old(self).wf(),
            walk_gate_s(old(self)@, c, dx, dy) is Some,
        ensures
            final(self).wf(),
            (ok, final(self)@) == walk_gate_s(old(self)@, c, dx, dy).unwrap(),
            final(self)@.critters == old(self)@.critters,
    {
        proof {
            lemma_sim_view(self);
            lemma_sim_wf(self);
        }
        let nx = c.x + dx;
        let ny = c.y + dy;
        let (w, h) = self.terrain.size();
        if nx < 0 || ny < 0 || nx >> 13u32 >= w || ny >> 13u32 >= h {
            return false;
        }
        let f = self.probe_floor(nx >> 8u32, ny >> 8u32, c.z);
        let d = c.z - f;
        -3 <= d && d <= 3
    }

    /// One wall-follow try (see [`try_axis_s`]).
    fn try_axis(&mut self, c: CritterRecord, dx: i32, dy: i32, sector: Option<u16>) -> (r: (bool, CritterRecord))
        requires
            old(self).wf(),
            try_axis_s(old(self)@, c, dx, dy, sector) is Some,
        ensures
            final(self).wf(),
            (r.0, final(self)@, r.1) == try_axis_s(old(self)@, c, dx, dy, sector).unwrap(),
            final(self)@.critters == old(self)@.critters,
    {
        if self.walk_gate(c, dx, dy) {
            let mut c1 = c;
            c1.x = c.x + dx;
            c1.y = c.y + dy;
            match sector {
                Some(s) => {
                    c1.seek_sector = s;
                },
                None => {},
            }
            (true, c1)
        } else {
            (false, c)
        }
    }

    /// The wall-follow (see [`follow_s`]).
    fn follow(&mut self, c: CritterRecord, h: i32, dy: i32) -> (r: CritterRecord)
        requires
            old(self).wf(),
            follow_s(old(self)@, c, h, dy) is Some,
        ensures
            final(self).wf(),
            (final(self)@, r) == follow_s(old(self)@, c, h, dy).unwrap(),
            final(self)@.critters == old(self)@.critters,
    {
        let west: (i32, i32, u16) = (-0x200, 0, 0xC0);
        let east: (i32, i32, u16) = (0x200, 0, 0x40);
        let south: (i32, i32, u16) = (0, 0x200, 0x80);
        let north: (i32, i32, u16) = (0, -0x200, 0x00);
        let sector = c.seek_sector;
        let moves: Option<((i32, i32), (i32, i32, u16), (i32, i32, u16))> = if sector == 0 || sector == 0x80 {
            let keep: (i32, i32) = if sector == 0 {
                (0, -0x200)
            } else {
                (0, 0x200)
            };
            if h >= 0x80 {
                Some((keep, west, east))
            } else {
                Some((keep, east, west))
            }
        } else if sector == 0x40 || sector == 0xC0 {
            let keep: (i32, i32) = if sector == 0x40 {
                (0x200, 0)
            } else {
                (-0x200, 0)
            };
            if dy > 0x80 {
                Some((keep, south, north))
            } else {
                Some((keep, north, south))
            }
        } else {
            None
        };
        assert(moves == follow_moves(sector, h, dy));
        match moves {
            None => c,
            Some((k, p1, p2)) => {
                let (ok, c1) = self.try_axis(c, k.0, k.1, None);
                if ok {
                    return c1;
                }
                let (ok2, c2) = self.try_axis(c1, p1.0, p1.1, Some(p1.2));
                if ok2 {
                    return c2;
                }
                let (_, c3) = self.try_axis(c2, p2.0, p2.1, Some(p2.2));
                c3
            },
        }
    }

    /// One chaser step (see [`chaser_step_s`]).
    fn chaser_step(&mut self, c: CritterRecord) -> (r: CritterRecord)
        requires
            old(self).wf(),
            chaser_step_s(old(self)@, c) is Some,
        ensures
            final(self).wf(),
            (final(self)@, r) == chaser_step_s(old(self)@, c).unwrap(),
            final(self)@.critters == old(self)@.critters,
    {
        proof {
            lemma_sim_view(self);
            lemma_sim_wf(self);
        }
        let h = c.heading & 0xFF;
        proof {
            lemma_low_byte(c.heading);
        }
        match sine_pair_exec(&self.angles, h) {
            None => c,
            Some((cw, sw)) => {
                let dx = cw >> 5u32;
                let dy = sw >> 5u32;
                if self.walk_gate(c, dx, dy) {
                    let mut c1 = c;
                    c1.x = c.x + dx;
                    c1.y = c.y + dy;
                    let hs = h + 0x20;
                    proof {
                        lemma_low_byte(hs);
                    }
                    c1.seek_sector = ((hs & 0xFF) & 0xC0) as u16;
                    c1
                } else {
                    let mut c2 = self.follow(c, h, dy);
                    c2.heading = c2.seek_sector as i32;
                    c2
                }
            },
        }
    }
}


/// A Q13 coordinate shifted to pixels stays within `±2^23`.
pub(crate) proof fn lemma_px_range(v: i32)
    ensures
        -0x800000 <= v >> 8u32 < 0x800000,
        -0x40000 <= v >> 13u32 < 0x40000,
        -0x4000000 <= v >> 5u32 < 0x4000000,
{
    assert(-0x800000 <= v >> 8u32 < 0x800000 && -0x40000 <= v >> 13u32 < 0x40000 && -0x4000000 <= v >> 5u32
        < 0x4000000) by (bit_vector);
}

/// The low byte of a word, and its quadrant bits, are bytes.
pub(crate) proof fn lemma_low_byte(v: i32)
    ensures
        0 <= v & 0xFF <= 0xFF,
        0 <= (v & 0xFF) & 0xC0 <= 0xFF,
{
    assert(0 <= v & 0xFF <= 0xFF && 0 <= (v & 0xFF) & 0xC0 <= 0xFF) by (bit_vector);
}

impl MissionSim {
    /// The aim at the target robot (see [`aim_robot_s`]).
    fn aim_robot(&self, c: CritterRecord) -> (h: i32)
        requires
            self.wf(),
            aim_robot_s(self@, c) is Some,
        ensures
            h == aim_robot_s(self@, c).unwrap(),
    {
        proof {
            lemma_sim_view(self);
        }
        let t = c.target_robot;
        if t < 0 || t as usize >= self.robots.len() {
            return c.heading;
        }
        let rx = self.robots[t as usize].pos_x;
        let ry = self.robots[t as usize].pos_y;
        self.poi_sector_aim(rx - c.x, ry - c.y)
    }

    /// The aim at home (see [`aim_home_s`]).
    fn aim_home(&self, c: CritterRecord) -> (h: i32)
        requires
            self.wf(),
            aim_home_s(self@, c) is Some,
        ensures
            h == aim_home_s(self@, c).unwrap(),
    {
        self.poi_sector_aim(c.home_x - c.x, c.home_y - c.y)
    }

    /// The distance ladder (see [`ladder_s`]).
    fn chaser_ladder(&self, c: CritterRecord) -> (r: CritterRecord)
        requires
            self.wf(),
            ladder_s(self@, c) is Some,
        ensures
            r == ladder_s(self@, c).unwrap(),
    {
        let mut k = c;
        if c.species > 0 {
            k.species = c.species - 1;
        } else {
            k.species = 0;
        }
        proof {
            lemma_px_range(c.x);
            lemma_px_range(c.y);
            lemma_px_range(c.home_x);
            lemma_px_range(c.home_y);
        }
        let (robot, dist) = self.nearest_robot_px(c.x >> 8u32, c.y >> 8u32);
        let leash = dist_octagonal((c.home_x >> 8u32) - (c.x >> 8u32), (c.home_y >> 8u32) - (c.y >> 8u32));
        if dist > 0xC8 && k.mode == 2 {
            k.mode = 0xA;
            k.countdown = 0;
            k.species = 0x20;
            k.target_robot = -1;
        }
        if k.species == 0 && dist < 0xC8 && leash < 0x190 && k.mode != 3 && k.mode != 2 {
            k.mode = 3;
            k.target_robot = robot as i16;
            k.countdown = 0;
        }
        if dist < 0x64 && k.mode != 2 {
            k.mode = 2;
            k.target_robot = robot as i16;
            k.countdown = 0;
        }
        if leash >= 0x190 && k.mode != 0xA {
            k.mode = 0xA;
            k.countdown = 0;
            k.species = 0x20;
            k.target_robot = -1;
        }
        k
    }

    /// The approach or return-home walk (see [`chaser_walk_s`]).
    fn chaser_walk(&mut self, c: CritterRecord, home: bool) -> (r: CritterRecord)
        requires
            old(self).wf(),
            chaser_walk_s(
                old(self)@,
                c,
                if home {
                    aim_home_s(old(self)@, c)
                } else {
                    aim_robot_s(old(self)@, c)
                },
            ) is Some,
        ensures
            final(self).wf(),
            (final(self)@, r) == chaser_walk_s(
                old(self)@,
                c,
                if home {
                    aim_home_s(old(self)@, c)
                } else {
                    aim_robot_s(old(self)@, c)
                },
            ).unwrap(),
            final(self)@.critters == old(self)@.critters,
    {
        let mut c1 = c;
        if c.countdown == 0 {
            let h = if home {
                self.aim_home(c)
            } else {
                self.aim_robot(c)
            };
            c1.countdown = 9;
            c1.heading = h;
        }
        let cd = if c1.countdown < 0 {
            0
        } else if c1.countdown > 9 {
            9
        } else {
            c1.countdown
        };
        let mut c2 = c1;
        if cd == 2 || cd == 3 || cd >= 7 {
            c2 = self.chaser_step(c1);
        }
        c2.countdown = c2.countdown - 1;
        c2
    }

    /// The chaser's shot (see [`chaser_shot_s`]).
    fn chaser_shot(&self, c: CritterRecord) -> (r: Option<EnemyProjectile>)
        requires
            self.wf(),
            chaser_shot_s(self@, c) is Some,
        ensures
            r == chaser_shot_s(self@, c).unwrap(),
    {
        proof {
            lemma_sim_view(self);
        }
        let t = c.target_robot;
        if t < 0 || t as usize >= self.robots.len() {
            return None;
        }
        let r = self.robots[t as usize];
        Some(shot_at_exec(c, 0x67, r.pos_x, r.pos_y, r.z))
    }

    /// The attack mode (see [`chaser_attack_s`]).
    fn chaser_attack(&mut self, c: CritterRecord) -> (r: CritterRecord)
        requires
            old(self).wf(),
            chaser_attack_s(old(self)@, c) is Some,
        ensures
            final(self).wf(),
            (final(self)@, r) == chaser_attack_s(old(self)@, c).unwrap(),
            final(self)@.critters == old(self)@.critters,
    {
        proof {
            lemma_sim_view(self);
            lemma_sim_wf(self);
        }
        let mut c1 = c;
        if c.countdown == 0 {
            c1.heading = self.aim_robot(c);
        }
        let cd = c1.countdown + 1;
        c1.countdown = if cd > 3 {
            0
        } else {
            cd
        };
        match self.enemy_free_slot() {
            None => {},
            Some(slot) => {
                match self.chaser_shot(c1) {
                    None => {},
                    Some(p) => {
                        proof {
                            lemma_sim_view(self);
                        }
                        self.enemy_bank.set(slot, p);
                        proof {
                            lemma_sim_view(self);
                            lemma_sim_wf(self);
                        }
                    },
                }
            },
        }
        c1
    }

    /// The target check (see [`target_checked`]).
    fn target_check(&self, c: CritterRecord) -> (r: CritterRecord)
        ensures
            r == target_checked(self@, c),
    {
        proof {
            lemma_sim_view(self);
        }
        let mut k = c;
        let t = c.target_robot;
        if t >= 0 {
            if t as usize >= self.robots.len() || !self.robots[t as usize].alive {
                k.mode = 8;
                k.countdown = 0;
                k.target_robot = -1;
            }
        }
        k
    }

    /// The modes after the ladder (see [`chaser_body_s`]).
    fn chaser_modes(&mut self, k: CritterRecord) -> (r: CritterRecord)
        requires
            old(self).wf(),
            k.mode == 3 ==> chaser_walk_s(old(self)@, k, aim_robot_s(old(self)@, k)) is Some,
            k.mode == 0xA ==> chaser_walk_s(old(self)@, k, aim_home_s(old(self)@, k)) is Some,
            k.mode == 2 ==> chaser_attack_s(old(self)@, k) is Some,
        ensures
            final(self).wf(),
            k.mode == 3 ==> (final(self)@, r) == chaser_walk_s(old(self)@, k, aim_robot_s(old(self)@, k)).unwrap(),
            k.mode == 0xA ==> (final(self)@, r) == chaser_walk_s(old(self)@, k, aim_home_s(old(self)@, k)).unwrap(),
            k.mode == 2 ==> (final(self)@, r) == chaser_attack_s(old(self)@, k).unwrap(),
            k.mode != 3 && k.mode != 0xA && k.mode != 2 ==> final(self)@ == old(self)@ && r == k,
            final(self)@.critters == old(self)@.critters,
    {
        if k.mode == 3 {
            self.chaser_walk(k, false)
        } else if k.mode == 0xA {
            self.chaser_walk(k, true)
        } else if k.mode == 2 {
            self.chaser_attack(k)
        } else {
            k
        }
    }

    /// One frame of a chaser record (see [`chaser_body_s`]).
    fn chaser_body(&mut self, c0: CritterRecord, respawn: i32) -> (r: CritterRecord)
        requires
            old(self).wf(),
            chaser_body_s(old(self)@, c0, respawn) is Some,
        ensures
            final(self).wf(),
            (final(self)@, r) == chaser_body_s(old(self)@, c0, respawn).unwrap(),
            final(self)@.critters == old(self)@.critters,
    {
        proof {
            reveal(chaser_body_s);
        }
        let c = self.target_check(c0);
        if c.mode == 0xB {
            dormant(c, respawn)
        } else if c.mode == 7 {
            dying(c)
        } else {
            let k = self.chaser_ladder(c);
            self.chaser_modes(k)
        }
    }

    /// One frame of the chaser at `idx` (see [`chaser_s`]).
    pub fn critter_chaser(&mut self, idx: usize, respawn: i32)
        requires
            old(self).wf(),
            idx < old(self)@.critters.len(),
            chaser_s(old(self)@, idx as int, respawn) is Some,
        ensures
            final(self).wf(),
            final(self)@ == chaser_s(old(self)@, idx as int, respawn).unwrap(),
    {
        proof {
            lemma_sim_view(self);
        }
        let c1 = self.chaser_body(self.critters[idx], respawn);
        proof {
            lemma_sim_view(self);
            lemma_sim_wf(self);
        }
        self.critters.set(idx, c1);
        proof {
            lemma_sim_view(self);
            lemma_sim_wf(self);
        }
    }
}

/// An aimed shot (see [`shot_at`]).
fn shot_at_exec(c: CritterRecord, kind: u16, tx: i32, ty: i32, tz: i32) -> (r: EnemyProjectile)
    requires
        shot_at(c, kind, tx, ty, tz) is Some,
    ensures
        r == shot_at(c, kind, tx, ty, tz).unwrap(),
{
    proof {
        lemma_px_range(tx);
        lemma_px_range(ty);
        lemma_px_range(c.x);
        lemma_px_range(c.y);
    }
    let dx = (tx >> 8u32) - (c.x >> 8u32);
    let dy = (ty >> 8u32) - (c.y >> 8u32);
    let dz = (tz + 4) - (c.z + 0x10);
    let d0 = dist_octagonal(dx, dy);
    let dist: i32 = if d0 == 0 {
        1
    } else {
        d0
    };
    let e0 = dist_octagonal(dist * 0x10, dz * 0x10);
    let den: i32 = if e0 == 0 {
        1
    } else {
        e0
    };
    let vx = trunc_div_exec(dx * 0x800, dist);
    let vy = trunc_div_exec(dy * 0x800, dist);
    let vz = trunc_div_exec(dz * 0x8000, den);
    let zw = (((c.z + 0x10) as u32) << 8u32) as i32;
    EnemyProjectile { kind, x: c.x, y: c.y, z: zw, vx, vy, vz }
}

/// A dormant record's frame (see [`dormant_s`]).
fn dormant(c: CritterRecord, respawn: i32) -> (r: CritterRecord)
    ensures
        r == dormant_s(c, respawn),
{
    let mut d = c;
    if c.countdown < respawn {
        d.countdown = c.countdown + 1;
        if (d.countdown as i64) == (respawn as i64) - 0x14 {
            d.heading = c.spawn_heading;
            d.x = c.home_x;
            d.y = c.home_y;
            d.z = c.home_z;
        }
    } else {
        d.presence = true;
        d.countdown = 0;
        d.species = 0;
        d.mode = 8;
        d.hp = 0x5DC;
    }
    d
}

/// A dying record's frame (see [`dying_s`]).
fn dying(c: CritterRecord) -> (r: CritterRecord)
    requires
        c.death_ctr < i32::MAX,
    ensures
        r == dying_s(c),
{
    let mut d = c;
    d.hp = 0;
    d.death_ctr = c.death_ctr + 1;
    if d.death_ctr >= 0x28 {
        d.mode = 0xB;
        d.countdown = 0;
    }
    d
}
/// A Q13 coordinate of a close-combat move clamped into a map side of
/// `n` tiles: at least 1, and below the edge (`(n << 13) - 1` past it).
/// `None` when the edge word overflows.
pub open spec fn edge_clamp(v: i32, n: int) -> Option<i32> {
    let v1: i32 = if v < 1 {
        1
    } else {
        v
    };
    if (v1 >> 13u32) >= n {
        let e = (((n as i32) as u32) << 13u32) as i32;
        if e == i32::MIN {
            None
        } else {
            Some((e - 1) as i32)
        }
    } else {
        Some(v1)
    }
}

/// The one-unit turn of a close-combat beamer from heading byte `h`
/// toward aim byte `aim`: 0 when equal, -1 when the clockwise difference
/// is 0x80 or more, else +1.
pub open spec fn steer(aim: i32, h: i32) -> i32 {
    if aim == h {
        0
    } else {
        let d0 = aim - h;
        let d1 = if d0 < 0 {
            d0 + 0x100
        } else {
            d0
        };
        let d2 = if d1 > 0xFF {
            d1 - 0x100
        } else {
            d1
        };
        if d2 >= 0x80 {
            -1i32
        } else {
            1i32
        }
    }
}

/// The landing shards from shard `i` of 1..=8: three draws give a height
/// jitter of `0..=15` and pixel jitters of `-31..=32` in y and then x
/// around the Q13 position; kind-6 debris there, delayed `i`.
pub open spec fn cc_shards(m: MissionView, x: i32, y: i32, z: i32, i: nat) -> Option<MissionView>
    decreases 9 - i,
{
    if i >= 9 {
        Some(m)
    } else {
        let (a, m1) = drawn(m);
        let (b, m2) = drawn(m1);
        let (d, m3) = drawn(m2);
        let jz = z + (a & 0xFu32) as int;
        let jy = (y >> 8u32) + (b & 0x3Fu32) as int - 0x1F;
        let jx = (x >> 8u32) + (d & 0x3Fu32) as int - 0x1F;
        match debris_step(m3, jx, jy, jz, 6, i as int, -1i32) {
            None => None,
            Some(m4) => cc_shards(m4, x, y, z, i + 1),
        }
    }
}

/// The landing splashes from splash `i` of 1..=5: two draws give tile
/// jitters of `-2..=1` in y and then x around the Q13 position; a splash
/// there at level `sz`, delayed `i`.
pub open spec fn cc_splashes(m: MissionView, x: i32, y: i32, sz: int, i: nat) -> Option<MissionView>
    decreases 6 - i,
{
    if i >= 6 {
        Some(m)
    } else {
        let (a, m1) = drawn(m);
        let (b, m2) = drawn(m1);
        let sy = (y >> 13u32) + (a & 3u32) as int - 2;
        let sx = (x >> 13u32) + (b & 3u32) as int - 2;
        match splash_step(m2, sx, sy, sz, i as u16) {
            None => None,
            Some(m3) => cc_splashes(m3, x, y, sz, i + 1),
        }
    }
}

/// The landing effects at Q13 `(x, y)` and height `z`: the eight shards,
/// the five splashes at level `min(z / 32 + 2, 7)`, and 24 effect rows
/// at height `(z + 0x15) * 0x100`.
pub open spec fn cc_landing(m: MissionView, x: i32, y: i32, z: i32) -> Option<MissionView> {
    let sz0 = z / 32 + 2;
    let sz = if sz0 > 7 {
        7
    } else {
        sz0
    };
    match cc_shards(m, x, y, z, 1) {
        None => None,
        Some(m1) => match cc_splashes(m1, x, y, sz, 1) {
            None => None,
            Some(m2) => if !fits32((z + 0x15) * 0x100) {
                None
            } else {
                Some(effect_rows_staged(m2, x, y, ((z + 0x15) * 0x100) as i32, 0, 24))
            },
        },
    }
}

/// The ballistic fall (mode 6): the knock vector twice over x and y and
/// the fall rate off z, the rate ramping by 2 up to 0x18, the position
/// clamped into the map and z to at least 1; above the floor probed there
/// (and z not 1) the record takes the position; otherwise it lands: z the
/// floor (at least 1), mode 7, countdown 0, and the landing effects at
/// its old x and y. `None` on overflow.
pub open spec fn cc_fall(m: MissionView, c: CritterRecord) -> Option<(MissionView, CritterRecord)> {
    let nx0 = c.x + c.knock_vx * 2;
    let ny0 = c.y + c.knock_vy * 2;
    let nz0 = c.z - c.fall_rate;
    if !fits32(c.knock_vx * 2) || !fits32(c.knock_vy * 2) || !fits32(nx0) || !fits32(ny0) || !fits32(nz0) || !fits32(
        c.fall_rate + 2,
    ) {
        None
    } else {
        let rate: i32 = if c.fall_rate < 0x18 {
            (c.fall_rate + 2) as i32
        } else {
            c.fall_rate
        };
        let nz: i32 = if nz0 < 1 {
            1
        } else {
            nz0 as i32
        };
        match (edge_clamp(nx0 as i32, m.terrain.width), edge_clamp(ny0 as i32, m.terrain.height)) {
            (Some(nx), Some(ny)) => {
                let c1 = CritterRecord { fall_rate: rate, ..c };
                let (f, m1) = probed(m, nx >> 8u32, ny >> 8u32, nz);
                if f < nz && nz != 1 {
                    Some((m1, CritterRecord { x: nx, y: ny, z: nz, ..c1 }))
                } else {
                    let z: i32 = if f < 1 {
                        1
                    } else {
                        f
                    };
                    match cc_landing(m1, c1.x, c1.y, z) {
                        None => None,
                        Some(m2) => Some((m2, CritterRecord { z, mode: 7, countdown: 0, ..c1 })),
                    }
                }
            },
            _ => None,
        }
    }
}

/// The knock drift (mode 5): the countdown counts up; past 10 the record
/// turns to mode 3 with countdown 0, else the knock vector twice over x
/// and y, clamped into the map. `None` on overflow.
pub open spec fn cc_drift(m: MissionView, c: CritterRecord) -> Option<CritterRecord> {
    if c.countdown == i32::MAX {
        None
    } else {
        let cd = (c.countdown + 1) as i32;
        if cd > 10 {
            Some(CritterRecord { mode: 3, countdown: 0, ..c })
        } else {
            let nx0 = c.x + c.knock_vx * 2;
            let ny0 = c.y + c.knock_vy * 2;
            if !fits32(c.knock_vx * 2) || !fits32(c.knock_vy * 2) || !fits32(nx0) || !fits32(ny0) {
                None
            } else {
                match (edge_clamp(nx0 as i32, m.terrain.width), edge_clamp(ny0 as i32, m.terrain.height)) {
                    (Some(nx), Some(ny)) => Some(CritterRecord { countdown: cd, x: nx, y: ny, ..c }),
                    _ => None,
                }
            }
        }
    }
}

/// The mode part of a close-combat substep: dying (7) counts up and at
/// the fifth count drops the hit points and the presence; the fall (6,
/// see [`cc_fall`]); the drift (5, see [`cc_drift`]); any other mode
/// scans for the nearest alive robot from its pixel position and keeps
/// its index (0 when none) and distance. `None` on overflow.
pub open spec fn cc_mode_s(m: MissionView, c: CritterRecord) -> Option<(MissionView, CritterRecord)> {
    if c.mode == 7 {
        if c.countdown == i32::MAX {
            None
        } else {
            let cd = (c.countdown + 1) as i32;
            if cd > 4 {
                Some((m, CritterRecord { countdown: cd, hp: 0, presence: false, ..c }))
            } else {
                Some((m, CritterRecord { countdown: cd, ..c }))
            }
        }
    } else if c.mode == 6 {
        cc_fall(m, c)
    } else if c.mode == 5 {
        match cc_drift(m, c) {
            None => None,
            Some(c1) => Some((m, c1)),
        }
    } else {
        let (robot, dist) = nearest_px(m.robots, c.x >> 8u32, c.y >> 8u32);
        Some((m, CritterRecord { scan_robot: robot, scan_dist: dist, ..c }))
    }
}

/// Whether a close-combat beamer fires on phase `p` at a difficulty:
/// every 32nd phase at 0, 16th at 1, 8th at 2, never above.
pub open spec fn fire_phase(difficulty: u32, p: i32) -> bool {
    if difficulty == 0 {
        p & 0x1F == 0
    } else if difficulty == 1 {
        p & 0xF == 0
    } else if difficulty == 2 {
        p & 7 == 0
    } else {
        false
    }
}

/// The engage of a close-combat beamer in mode 3 whose kept scan
/// distance is under 0x320: a nonzero countdown only counts down;
/// otherwise, with the kept scan robot present, the heading turns one
/// unit toward the aim at the robot from the critter's position with its
/// low byte cleared, the record moves by the heading's sine words `>> 6`
/// (none without sine words) clamped into the map, and within 0x50, on a
/// fire phase of `frame + idx`, a stationary kind-0x69 beam at height 6
/// goes into the first free enemy slot and the countdown becomes 6.
/// `None` on overflow.
pub open spec fn cc_engage_s(m: MissionView, c: CritterRecord, idx: int) -> Option<(MissionView, CritterRecord)> {
    if !(c.mode == 3 && c.scan_dist < 0x320) {
        Some((m, c))
    } else if c.countdown != 0 {
        if c.countdown == i32::MIN {
            None
        } else {
            Some((m, CritterRecord { countdown: (c.countdown - 1) as i32, ..c }))
        }
    } else {
        let t = c.scan_robot as int;
        if t < 0 || t >= m.robots.len() {
            Some((m, c))
        } else {
            let dx = m.robots[t].pos_x - (c.x & !0xFFi32);
            let dy = m.robots[t].pos_y - (c.y & !0xFFi32);
            let hb = c.heading & 0xFF;
            if !fits32(dx) || !fits32(dy) {
                None
            } else {
                let aim = angle_of(m.angles.thresholds, dx as i32, dy as i32) as i32;
                let h0 = c.heading + steer(aim, hb);
                if !fits32(h0) {
                    None
                } else {
                    let heading = (h0 as i32) & 0xFF;
                    let (mx, my) = match sine_pair(m.angles, heading) {
                        Some((cw, sw)) => (cw >> 6u32, sw >> 6u32),
                        None => (0i32, 0i32),
                    };
                    if !fits32(c.x + mx) || !fits32(c.y + my) {
                        None
                    } else {
                        match (
                            edge_clamp((c.x + mx) as i32, m.terrain.width),
                            edge_clamp((c.y + my) as i32, m.terrain.height),
                        ) {
                            (Some(nx), Some(ny)) => {
                                let c1 = CritterRecord { heading, x: nx, y: ny, ..c };
                                if c1.scan_dist >= 0x50 {
                                    Some((m, c1))
                                } else {
                                    let p = (m.frame as i32) + (idx as i32);
                                    if !fits32(p) {
                                        None
                                    } else if !fire_phase(m.difficulty, p as i32) {
                                        Some((m, c1))
                                    } else {
                                        match free_slot_from(m.enemy_bank, 0) {
                                            None => Some((m, c1)),
                                            Some(slot) => Some(
                                                (
                                                    MissionView {
                                                        enemy_bank: m.enemy_bank.update(
                                                            slot,
                                                            EnemyProjectile {
                                                                kind: 0x69,
                                                                x: nx,
                                                                y: ny,
                                                                z: 6,
                                                                vx: 0,
                                                                vy: 0,
                                                                vz: 0,
                                                            },
                                                        ),
                                                        ..m
                                                    },
                                                    CritterRecord { countdown: 6, ..c1 },
                                                ),
                                            ),
                                        }
                                    }
                                }
                            },
                            _ => None,
                        }
                    }
                }
            }
        }
    }
}

/// One close-combat substep: the mode part, then the engage on the mode
/// it leaves.
pub open spec fn cc_substep_s(m: MissionView, c: CritterRecord, idx: int) -> Option<(MissionView, CritterRecord)> {
    match cc_mode_s(m, c) {
        None => None,
        Some((m1, c1)) => cc_engage_s(m1, c1, idx),
    }
}

/// Close-combat substeps `k..n`.
pub open spec fn cc_substeps(m: MissionView, c: CritterRecord, idx: int, k: nat, n: nat) -> Option<
    (MissionView, CritterRecord),
>
    decreases n - k,
{
    if k >= n {
        Some((m, c))
    } else {
        match cc_substep_s(m, c, idx) {
            None => None,
            Some((m1, c1)) => cc_substeps(m1, c1, idx, k + 1, n),
        }
    }
}

/// One frame of the close-combat beamer at `idx`: as many substeps as
/// its species word (see [`cc_substep_s`]). `None` on overflow.
pub open spec fn closecombat_s(m: MissionView, idx: int) -> Option<MissionView> {
    let c = m.critters[idx];
    match cc_substeps(m, c, idx, 0, c.species as nat) {
        None => None,
        Some((m1, c1)) => Some(MissionView { critters: m.critters.update(idx, c1), ..m1 }),
    }
}

/// A coordinate clamped into the map (see [`edge_clamp`]).
fn edge_clamp_exec(v: i32, n: i32) -> (r: i32)
    requires
        edge_clamp(v, n as int) is Some,
    ensures
        r == edge_clamp(v, n as int).unwrap(),
{
    let v1: i32 = if v < 1 {
        1
    } else {
        v
    };
    if (v1 >> 13u32) >= n {
        let e = ((n as u32) << 13u32) as i32;
        e - 1
    } else {
        v1
    }
}

/// The one-unit turn of a close-combat beamer from heading byte `h`
/// toward aim byte `aim` (see [`steer`]).
pub fn closecombat_steer(aim: i32, h: i32) -> (r: i32)
    requires
        0 <= aim <= 0xFFFF,
        0 <= h <= 0xFF,
    ensures
        r == steer(aim, h),
{
    if aim == h {
        return 0;
    }
    let mut d = aim - h;
    if d < 0 {
        d = d + 0x100;
    }
    if d > 0xFF {
        d = d - 0x100;
    }
    if d >= 0x80 {
        -1
    } else {
        1
    }
}

impl MissionSim {
    /// The landing shards (see [`cc_shards`]).
    fn cc_shards_exec(&mut self, x: i32, y: i32, z: i32)
        requires
            old(self).wf(),
            cc_shards(old(self)@, x, y, z, 1) is Some,
        ensures
            final(self).wf(),
            final(self)@ == cc_shards(old(self)@, x, y, z, 1).unwrap(),
            final(self)@.critters == old(self)@.critters,
    {
        let ghost m0 = self@;
        let mut i: i32 = 1;
        while i < 9
            invariant
                self.wf(),
                1 <= i <= 9,
                self@.critters == m0.critters,
                cc_shards(self@, x, y, z, i as nat) == cc_shards(m0, x, y, z, 1),
                cc_shards(m0, x, y, z, 1) is Some,
            decreases 9 - i,
        {
            let a = self.draw();
            let b = self.draw();
            let d = self.draw();
            proof {
                crate::impact::lemma_draw_masks(a);
                crate::impact::lemma_draw_masks(b);
                crate::impact::lemma_draw_masks(d);
                lemma_px_range(x);
                lemma_px_range(y);
                crate::impact::lemma_debris_step_fits(
                    self@,
                    (x >> 8u32) + (d & 0x3Fu32) as int - 0x1F,
                    (y >> 8u32) + (b & 0x3Fu32) as int - 0x1F,
                    z + (a & 0xFu32) as int,
                    6,
                    i as int,
                    -1i32,
                );
            }
            let jz = z + (a & 0xF) as i32;
            let jy = (y >> 8u32) + (b & 0x3F) as i32 - 0x1F;
            let jx = (x >> 8u32) + (d & 0x3F) as i32 - 0x1F;
            self.debris_step_exec(jx, jy, jz, 6, i, -1);
            i = i + 1;
        }
    }

    /// The landing splashes (see [`cc_splashes`]).
    fn cc_splashes_exec(&mut self, x: i32, y: i32, sz: i32)
        requires
            old(self).wf(),
            cc_splashes(old(self)@, x, y, sz as int, 1) is Some,
        ensures
            final(self).wf(),
            final(self)@ == cc_splashes(old(self)@, x, y, sz as int, 1).unwrap(),
            final(self)@.critters == old(self)@.critters,
    {
        let ghost m0 = self@;
        let mut i: u16 = 1;
        while i < 6
            invariant
                self.wf(),
                1 <= i <= 6,
                self@.critters == m0.critters,
                cc_splashes(self@, x, y, sz as int, i as nat) == cc_splashes(m0, x, y, sz as int, 1),
                cc_splashes(m0, x, y, sz as int, 1) is Some,
            decreases 6 - i,
        {
            let a = self.draw();
            let b = self.draw();
            proof {
                crate::impact::lemma_draw_masks(a);
                crate::impact::lemma_draw_masks(b);
                lemma_px_range(x);
                lemma_px_range(y);
            }
            let sy = (y >> 13u32) + (a & 3) as i32 - 2;
            let sx = (x >> 13u32) + (b & 3) as i32 - 2;
            self.splash_step_exec(sx, sy, sz, i);
            i = i + 1;
        }
    }

    /// The landing effects (see [`cc_landing`]).
    fn cc_landing_exec(&mut self, x: i32, y: i32, z: i32)
        requires
            old(self).wf(),
            0 <= z <= 0x200,
            cc_landing(old(self)@, x, y, z) is Some,
        ensures
            final(self).wf(),
            final(self)@ == cc_landing(old(self)@, x, y, z).unwrap(),
            final(self)@.critters == old(self)@.critters,
    {
        let sz0 = z / 32 + 2;
        let sz = if sz0 > 7 {
            7
        } else {
            sz0
        };
        self.cc_shards_exec(x, y, z);
        self.cc_splashes_exec(x, y, sz);
        self.stage_effect_rows(x, y, (z + 0x15) * 0x100, 0x18);
    }

    /// The ballistic fall (see [`cc_fall`]).
    fn cc_fall_exec(&mut self, c: CritterRecord) -> (r: CritterRecord)
        requires
            old(self).wf(),
            cc_fall(old(self)@, c) is Some,
        ensures
            final(self).wf(),
            (final(self)@, r) == cc_fall(old(self)@, c).unwrap(),
            final(self)@.critters == old(self)@.critters,
    {
        proof {
            lemma_sim_view(self);
        }
        let nx0 = c.x + c.knock_vx * 2;
        let ny0 = c.y + c.knock_vy * 2;
        let nz0 = c.z - c.fall_rate;
        let rate: i32 = if c.fall_rate < 0x18 {
            c.fall_rate + 2
        } else {
            c.fall_rate
        };
        let nz: i32 = if nz0 < 1 {
            1
        } else {
            nz0
        };
        let (w, h) = self.terrain.size();
        let nx = edge_clamp_exec(nx0, w);
        let ny = edge_clamp_exec(ny0, h);
        let mut c1 = c;
        c1.fall_rate = rate;
        let f = self.probe_floor(nx >> 8u32, ny >> 8u32, nz);
        if f < nz && nz != 1 {
            c1.x = nx;
            c1.y = ny;
            c1.z = nz;
            c1
        } else {
            let z: i32 = if f < 1 {
                1
            } else {
                f
            };
            proof {
                crate::terrain::lemma_floor_probe_range(old(self)@.terrain, nx >> 8u32, ny >> 8u32, nz);
            }
            self.cc_landing_exec(c1.x, c1.y, z);
            c1.z = z;
            c1.mode = 7;
            c1.countdown = 0;
            c1
        }
    }

    /// The knock drift (see [`cc_drift`]).
    fn cc_drift_exec(&self, c: CritterRecord) -> (r: CritterRecord)
        requires
            cc_drift(self@, c) is Some,
        ensures
            r == cc_drift(self@, c).unwrap(),
    {
        proof {
            lemma_sim_view(self);
        }
        let cd = c.countdown + 1;
        let mut c1 = c;
        if cd > 10 {
            c1.mode = 3;
            c1.countdown = 0;
            return c1;
        }
        let nx0 = c.x + c.knock_vx * 2;
        let ny0 = c.y + c.knock_vy * 2;
        let (w, h) = self.terrain.size();
        c1.countdown = cd;
        c1.x = edge_clamp_exec(nx0, w);
        c1.y = edge_clamp_exec(ny0, h);
        c1
    }

    /// The mode part of a close-combat substep (see [`cc_mode_s`]).
    fn cc_mode(&mut self, c: CritterRecord) -> (r: CritterRecord)
        requires
            old(self).wf(),
            cc_mode_s(old(self)@, c) is Some,
        ensures
            final(self).wf(),
            (final(self)@, r) == cc_mode_s(old(self)@, c).unwrap(),
            final(self)@.critters == old(self)@.critters,
    {
        let mut c1 = c;
        if c.mode == 7 {
            c1.countdown = c.countdown + 1;
            if c1.countdown > 4 {
                c1.hp = 0;
                c1.presence = false;
            }
            c1
        } else if c.mode == 6 {
            self.cc_fall_exec(c)
        } else if c.mode == 5 {
            self.cc_drift_exec(c)
        } else {
            proof {
                lemma_px_range(c.x);
                lemma_px_range(c.y);
            }
            let (robot, dist) = self.nearest_robot_px(c.x >> 8u32, c.y >> 8u32);
            c1.scan_robot = robot;
            c1.scan_dist = dist;
            c1
        }
    }
}

impl MissionSim {
    /// The engage of a close-combat beamer (see [`cc_engage_s`]).
    #[verifier::rlimit(30)]
    fn cc_engage(&mut self, c: CritterRecord, idx: usize) -> (r: CritterRecord)
        requires
            old(self).wf(),
            cc_engage_s(old(self)@, c, idx as int) is Some,
        ensures
            final(self).wf(),
            (final(self)@, r) == cc_engage_s(old(self)@, c, idx as int).unwrap(),
            final(self)@.critters == old(self)@.critters,
    {
        proof {
            lemma_sim_view(self);
            lemma_sim_wf(self);
        }
        if !(c.mode == 3 && c.scan_dist < 0x320) {
            return c;
        }
        let mut c1 = c;
        if c.countdown != 0 {
            c1.countdown = c.countdown - 1;
            return c1;
        }
        let t = c.scan_robot;
        if t < 0 || t as usize >= self.robots.len() {
            return c;
        }
        let rx = self.robots[t as usize].pos_x;
        let ry = self.robots[t as usize].pos_y;
        let dx = rx - (c.x & !0xFF);
        let dy = ry - (c.y & !0xFF);
        let hb = c.heading & 0xFF;
        proof {
            lemma_low_byte(c.heading);
        }
        let aim = self.angles.angle_byte(dx, dy) as i32;
        let h0 = c.heading + closecombat_steer(aim, hb);
        let heading = h0 & 0xFF;
        let (mx, my) = match sine_pair_exec(&self.angles, heading) {
            Some((cw, sw)) => (cw >> 6u32, sw >> 6u32),
            None => (0i32, 0i32),
        };
        let (w, h) = self.terrain.size();
        let nx = edge_clamp_exec(c.x + mx, w);
        let ny = edge_clamp_exec(c.y + my, h);
        c1.heading = heading;
        c1.x = nx;
        c1.y = ny;
        if c1.scan_dist >= 0x50 {
            return c1;
        }
        let p = (self.frame as i32) + (idx as i32);
        let fire = if self.difficulty == 0 {
            p & 0x1F == 0
        } else if self.difficulty == 1 {
            p & 0xF == 0
        } else if self.difficulty == 2 {
            p & 7 == 0
        } else {
            false
        };
        if !fire {
            return c1;
        }
        match self.enemy_free_slot() {
            None => c1,
            Some(slot) => {
                self.enemy_bank.set(slot, EnemyProjectile { kind: 0x69, x: nx, y: ny, z: 6, vx: 0, vy: 0, vz: 0 });
                proof {
                    lemma_sim_view(self);
                    lemma_sim_wf(self);
                }
                c1.countdown = 6;
                c1
            },
        }
    }

    /// One close-combat substep (see [`cc_substep_s`]).
    fn cc_substep(&mut self, c: CritterRecord, idx: usize) -> (r: CritterRecord)
        requires
            old(self).wf(),
            cc_substep_s(old(self)@, c, idx as int) is Some,
        ensures
            final(self).wf(),
            (final(self)@, r) == cc_substep_s(old(self)@, c, idx as int).unwrap(),
            final(self)@.critters == old(self)@.critters,
    {
        let c1 = self.cc_mode(c);
        self.cc_engage(c1, idx)
    }

    /// One frame of the close-combat beamer at `idx` (see
    /// [`closecombat_s`]).
    pub fn critter_closecombat(&mut self, idx: usize)
        requires
            old(self).wf(),
            idx < old(self)@.critters.len(),
            closecombat_s(old(self)@, idx as int) is Some,
        ensures
            final(self).wf(),
            final(self)@ == closecombat_s(old(self)@, idx as int).unwrap(),
    {
        proof {
            lemma_sim_view(self);
        }
        let ghost m0 = self@;
        let mut c = self.critters[idx];
        let n = c.species;
        let mut k: u16 = 0;
        while k < n
            invariant
                self.wf(),
                k <= n,
                idx < m0.critters.len(),
                n == m0.critters[idx as int].species,
                self@.critters == m0.critters,
                cc_substeps(self@, c, idx as int, k as nat, n as nat) == cc_substeps(
                    m0,
                    m0.critters[idx as int],
                    idx as int,
                    0,
                    n as nat,
                ),
                cc_substeps(m0, m0.critters[idx as int], idx as int, 0, n as nat) is Some,
            decreases n - k,
        {
            c = self.cc_substep(c, idx);
            k = k + 1;
        }
        proof {
            lemma_sim_view(self);
            lemma_sim_wf(self);
        }
        self.critters.set(idx, c);
        proof {
            lemma_sim_view(self);
            lemma_sim_wf(self);
        }
    }
}

/// A step of a mixed-kind critter along heading `h`: the heading's sine
/// words `>> 6` behind the walk gate; no step without sine words or when
/// the walk gate refuses it.
pub open spec fn step_along(m: MissionView, c: CritterRecord, h: i32) -> Option<(MissionView, CritterRecord)> {
    match sine_pair(m.angles, h) {
        None => Some((m, c)),
        Some((cw, sw)) => {
            let dx = cw >> 6u32;
            let dy = sw >> 6u32;
            match walk_gate_s(m, c, dx, dy) {
                None => None,
                Some((ok, m1)) => if ok {
                    Some((m1, CritterRecord { x: (c.x + dx) as i32, y: (c.y + dy) as i32, ..c }))
                } else {
                    Some((m1, c))
                },
            }
        },
    }
}

/// The angle byte from a critter to robot `robot`; 0 when there is no
/// such robot. `None` when a delta leaves `i32`.
pub open spec fn aim_at_robot(m: MissionView, c: CritterRecord, robot: i32) -> Option<i32> {
    if robot < 0 || robot >= m.robots.len() {
        Some(0)
    } else {
        let dx = m.robots[robot as int].pos_x - c.x;
        let dy = m.robots[robot as int].pos_y - c.y;
        if !fits32(dx) || !fits32(dy) {
            None
        } else {
            Some(angle_of(m.angles.thresholds, dx as i32, dy as i32) as i32)
        }
    }
}

/// The angle byte from a critter at its impact point. `None` when a
/// delta leaves `i32`.
pub open spec fn aim_at_impact(m: MissionView, c: CritterRecord) -> Option<i32> {
    let dx = c.impact_x - c.x;
    let dy = c.impact_y - c.y;
    if !fits32(dx) || !fits32(dy) {
        None
    } else {
        Some(angle_of(m.angles.thresholds, dx as i32, dy as i32) as i32)
    }
}

/// On the first substep the animation counts on, modulo 6. `None` when
/// the counter overflows.
pub open spec fn anim6(c: CritterRecord, first: bool) -> Option<CritterRecord> {
    if !first {
        Some(c)
    } else if c.anim == u16::MAX {
        None
    } else {
        Some(CritterRecord { anim: ((c.anim + 1) % 6) as u16, ..c })
    }
}

/// The engage mode (8): with the nearest alive robot `(robot, dist)` from
/// the pixel position, within 0x60 the critter backs off (heading the aim
/// plus 0x80 plus its facing, a step, the animation); up to 0x80 it draws
/// a countdown of `10..=41` and turns to fire (mode 2) at the robot,
/// keeping its position as the target; under the leash it draws once and
/// approaches (heading the aim plus its facing, a step, the animation);
/// beyond it, nothing. `None` on overflow.
pub open spec fn mixed_engage_s(m: MissionView, c: CritterRecord, first: bool, leash: i32) -> Option<
    (MissionView, CritterRecord),
> {
    let (robot, dist) = nearest_px(m.robots, c.x >> 8u32, c.y >> 8u32);
    if dist < 0x60 {
        match aim_at_robot(m, c, robot) {
            None => None,
            Some(aim) => {
                let h = ((aim + 0x80 + c.facing as i32) as i32) & 0xFF;
                match step_along(m, CritterRecord { heading: h, ..c }, h) {
                    None => None,
                    Some((m1, c1)) => match anim6(c1, first) {
                        None => None,
                        Some(c2) => Some((m1, c2)),
                    },
                }
            },
        }
    } else if dist <= 0x80 {
        let (r, m1) = drawn(m);
        let cd = (r & 0x1Fu32) as i32 + 0xA;
        match aim_at_robot(m1, c, robot) {
            None => None,
            Some(aim) => {
                let t: (i32, i32, i32) = if 0 <= robot < m.robots.len() {
                    (m.robots[robot as int].pos_x, m.robots[robot as int].pos_y, m.robots[robot as int].z)
                } else {
                    (0, 0, 0)
                };
                Some(
                    (
                        m1,
                        CritterRecord {
                            mode: 2,
                            anim: 0,
                            countdown: cd as i32,
                            heading: aim,
                            target_robot: robot as i16,
                            target_x: t.0,
                            target_y: t.1,
                            target_z: t.2,
                            ..c
                        },
                    ),
                )
            },
        }
    } else if dist < leash {
        let (_, m1) = drawn(m);
        match aim_at_robot(m1, c, robot) {
            None => None,
            Some(aim) => {
                let h = ((aim + c.facing as i32) as i32) & 0xFF;
                match step_along(m1, CritterRecord { heading: h, ..c }, h) {
                    None => None,
                    Some((m2, c1)) => match anim6(c1, first) {
                        None => None,
                        Some(c2) => Some((m2, c2)),
                    },
                }
            },
        }
    } else {
        Some((m, c))
    }
}

/// The fire mode (2): on the first substep the animation counts on; past
/// 1 it resets and a kind-0x68 aimed shot at the kept target position
/// (see [`shot_at`]) goes into the first free enemy slot; the countdown
/// counts down. At 0, or when no slot was free for an attempted shot, the
/// fire breaks off; otherwise one draw breaks it off 1 in 8 at difficulty
/// 0 and 1 in 16 at 1, never above. Breaking off draws once more and
/// turns to chase (mode 3, animation 2, countdown 6) with the heading
/// swung by the facing plus 0x40, back on an even draw. `None` on
/// overflow.
pub open spec fn mixed_fire_s(m: MissionView, c: CritterRecord, first: bool) -> Option<(MissionView, CritterRecord)> {
    if first && c.anim == u16::MAX {
        None
    } else {
        let c1 = if first {
            CritterRecord { anim: (c.anim + 1) as u16, ..c }
        } else {
            c
        };
        let fired: Option<(MissionView, CritterRecord, bool, bool)> = if c1.anim > 1 {
            let c2 = CritterRecord { anim: 0, ..c1 };
            match free_slot_from(m.enemy_bank, 0) {
                None => Some((m, c2, true, false)),
                Some(slot) => match shot_at(c2, 0x68, c2.target_x, c2.target_y, c2.target_z) {
                    None => None,
                    Some(p) => Some((MissionView { enemy_bank: m.enemy_bank.update(slot, p), ..m }, c2, true, true)),
                },
            }
        } else {
            Some((m, c1, false, false))
        };
        match fired {
            None => None,
            Some((m1, c2, attempted, ok)) => if c2.countdown == i32::MIN {
                None
            } else {
                let c3 = CritterRecord { countdown: (c2.countdown - 1) as i32, ..c2 };
                let (brk, m2) = if c3.countdown == 0 || (attempted && !ok) {
                    (true, m1)
                } else if m1.difficulty == 0 {
                    (drawn(m1).0 & 7u32 == 0, drawn(m1).1)
                } else if m1.difficulty == 1 {
                    (drawn(m1).0 & 0xFu32 == 0, drawn(m1).1)
                } else {
                    (false, m1)
                };
                if !brk {
                    Some((m2, c3))
                } else {
                    let (r, m3) = drawn(m2);
                    let delta = c3.facing as int + 0x40;
                    let h = if r & 1u32 == 0 {
                        c3.heading - delta
                    } else {
                        c3.heading + delta
                    };
                    if !fits32(h) {
                        None
                    } else {
                        Some((m3, CritterRecord { mode: 3, anim: 2, countdown: 6, heading: h as i32, ..c3 }))
                    }
                }
            },
        }
    }
}

/// The chase mode (3): one draw, a step along the heading, the
/// animation, the countdown down; at 0 back to engage (mode 8, animation
/// 2). `None` on overflow.
pub open spec fn mixed_chase_s(m: MissionView, c: CritterRecord, first: bool) -> Option<(MissionView, CritterRecord)> {
    let (_, m1) = drawn(m);
    match step_along(m1, c, c.heading) {
        None => None,
        Some((m2, c1)) => match anim6(c1, first) {
            None => None,
            Some(c2) => if c2.countdown == i32::MIN {
                None
            } else {
                let cd = (c2.countdown - 1) as i32;
                if cd == 0 {
                    Some((m2, CritterRecord { countdown: cd, mode: 8, anim: 2, ..c2 }))
                } else {
                    Some((m2, CritterRecord { countdown: cd, ..c2 }))
                }
            },
        },
    }
}

/// The mode part of a mixed-kind substep, with whether the substep is
/// spent: dormant (0xB) counts to the respawn delay on the first substep
/// and then wakes (a drawn heading, engage, species 3, 150 hit points)
/// without spending the substep; the pause (0xA) counts down with the
/// heading the count and a step, or at 0 turns to engage; dying (7); the
/// dive (6) aims at the impact point and steps away from it, the
/// animation counting on the first substep, dying from 8; the rise (5)
/// turns to engage past animation 1 without spending the substep, else
/// aims at the impact point; engage (8), fire (2), chase (3). `None` on
/// overflow.
pub open spec fn mixed_mode_s(m: MissionView, c: CritterRecord, first: bool, respawn: i32, leash: i32) -> Option<
    (MissionView, CritterRecord, bool),
> {
    if c.mode == 0xB {
        if c.countdown < respawn {
            if first {
                Some((m, CritterRecord { countdown: (c.countdown + 1) as i32, ..c }, true))
            } else {
                Some((m, c, true))
            }
        } else {
            let (v, m1) = picked(m, 0xFF);
            Some(
                (
                    m1,
                    CritterRecord {
                        anim: 0,
                        countdown: 0,
                        presence: true,
                        heading: v as i32,
                        species: 3,
                        mode: 8,
                        hp: 0x96,
                        ..c
                    },
                    false,
                ),
            )
        }
    } else if c.mode == 0xA {
        if c.countdown == 0 {
            Some((m, CritterRecord { mode: 8, anim: 2, ..c }, true))
        } else if c.countdown == i32::MIN {
            None
        } else {
            let cd = (c.countdown - 1) as i32;
            match step_along(m, CritterRecord { countdown: cd, heading: cd, ..c }, cd) {
                None => None,
                Some((m1, c1)) => match anim6(c1, first) {
                    None => None,
                    Some(c2) => Some((m1, c2, true)),
                },
            }
        }
    } else if c.mode == 7 {
        if c.death_ctr == i32::MAX {
            None
        } else {
            Some((m, CritterRecord { anim: 0, ..dying_s(c) }, true))
        }
    } else if c.mode == 6 {
        match aim_at_impact(m, c) {
            None => None,
            Some(h) => match step_along(m, CritterRecord { heading: h, ..c }, (h + 0x80) as i32 & 0xFF) {
                None => None,
                Some((m1, c1)) => if first && c1.anim == u16::MAX {
                    None
                } else {
                    let c2 = if first {
                        CritterRecord { anim: (c1.anim + 1) as u16, ..c1 }
                    } else {
                        c1
                    };
                    if c2.anim >= 8 {
                        Some((m1, CritterRecord { mode: 7, death_ctr: 0, ..c2 }, true))
                    } else {
                        Some((m1, c2, true))
                    }
                },
            },
        }
    } else if c.mode == 5 {
        if c.anim > 1 {
            Some((m, CritterRecord { mode: 8, anim: 2, ..c }, false))
        } else {
            match aim_at_impact(m, c) {
                None => None,
                Some(h) => Some(
                    (
                        m,
                        CritterRecord {
                            heading: h,
                            anim: if first {
                                (c.anim + 1) as u16
                            } else {
                                c.anim
                            },
                            ..c
                        },
                        true,
                    ),
                ),
            }
        }
    } else if c.mode == 8 {
        match mixed_engage_s(m, c, first, leash) {
            None => None,
            Some((m1, c1)) => Some((m1, c1, true)),
        }
    } else if c.mode == 2 {
        match mixed_fire_s(m, c, first) {
            None => None,
            Some((m1, c1)) => Some((m1, c1, true)),
        }
    } else if c.mode == 3 {
        match mixed_chase_s(m, c, first) {
            None => None,
            Some((m1, c1)) => Some((m1, c1, true)),
        }
    } else {
        Some((m, c, true))
    }
}

/// One mixed-kind substep: the mode part, run once more on the mode it
/// leaves when it did not spend the substep.
pub open spec fn mixed_substep_s(m: MissionView, c: CritterRecord, first: bool, respawn: i32, leash: i32) -> Option<
    (MissionView, CritterRecord),
> {
    match mixed_mode_s(m, c, first, respawn, leash) {
        None => None,
        Some((m1, c1, spent)) => if spent {
            Some((m1, c1))
        } else {
            match mixed_mode_s(m1, c1, first, respawn, leash) {
                None => None,
                Some((m2, c2, _)) => Some((m2, c2)),
            }
        },
    }
}

/// Mixed-kind substeps `k..n`.
pub open spec fn mixed_substeps(m: MissionView, c: CritterRecord, k: nat, n: nat, respawn: i32, leash: i32) -> Option<
    (MissionView, CritterRecord),
>
    decreases n - k,
{
    if k >= n {
        Some((m, c))
    } else {
        match mixed_substep_s(m, c, k == 0, respawn, leash) {
            None => None,
            Some((m1, c1)) => mixed_substeps(m1, c1, k + 1, n, respawn, leash),
        }
    }
}

/// One frame of the mixed-kind critter (kinds 5 and 6) at `idx`: a draw
/// that 1 in 32 sets the facing from a second draw (`-15..=16`), then as
/// many substeps as its species word (see [`mixed_substep_s`]). `None` on
/// overflow.
pub open spec fn mixed_s(m: MissionView, idx: int, respawn: i32, leash: i32) -> Option<MissionView> {
    let (m2, c1) = mixed_s_start(m, idx);
    match mixed_substeps(m2, c1, 0, c1.species as nat, respawn, leash) {
        None => None,
        Some((m3, c2)) => Some(MissionView { critters: m.critters.update(idx, c2), ..m3 }),
    }
}

/// The facing gate that opens a mixed-kind frame: a draw that 1 in 32
/// sets the facing from a second draw (`-15..=16`).
pub open spec fn mixed_s_start(m: MissionView, idx: int) -> (MissionView, CritterRecord) {
    let c = m.critters[idx];
    let (r, m1) = drawn(m);
    if r & 0x1Fu32 == 0 {
        let (r2, mm) = drawn(m1);
        (mm, CritterRecord { facing: ((r2 & 0x1Fu32) as int - 0xF) as u16, ..c })
    } else {
        (m1, c)
    }
}

/// The engage leash of the mixed kinds at a difficulty: `(d + 1) * 0x40 +
/// 0x258`. `None` when it leaves `i32`.
pub open spec fn leash_of(difficulty: u32) -> Option<i32> {
    let d = difficulty as i32;
    if !fits32(d + 1) || !fits32((d + 1) * 0x40) || !fits32((d + 1) * 0x40 + 0x258) {
        None
    } else {
        Some(((d + 1) * 0x40 + 0x258) as i32)
    }
}

/// The animation count of a substep (see [`anim6`]).
fn anim6_exec(c: CritterRecord, first: bool) -> (r: CritterRecord)
    requires
        anim6(c, first) is Some,
    ensures
        r == anim6(c, first).unwrap(),
{
    let mut c1 = c;
    if first {
        c1.anim = (c.anim + 1) % 6;
    }
    c1
}

impl MissionSim {
    /// A step along a heading (see [`step_along`]).
    fn step_along_exec(&mut self, c: CritterRecord, h: i32) -> (r: CritterRecord)
        requires
            old(self).wf(),
            step_along(old(self)@, c, h) is Some,
        ensures
            final(self).wf(),
            (final(self)@, r) == step_along(old(self)@, c, h).unwrap(),
            final(self)@.critters == old(self)@.critters,
    {
        proof {
            lemma_sim_view(self);
            lemma_sim_wf(self);
        }
        match sine_pair_exec(&self.angles, h) {
            None => c,
            Some((cw, sw)) => {
                let dx = cw >> 6u32;
                let dy = sw >> 6u32;
                if self.walk_gate(c, dx, dy) {
                    let mut c1 = c;
                    c1.x = c.x + dx;
                    c1.y = c.y + dy;
                    c1
                } else {
                    c
                }
            },
        }
    }

    /// The angle byte at a robot (see [`aim_at_robot`]).
    fn aim_at_robot_exec(&self, c: CritterRecord, robot: i32) -> (a: i32)
        requires
            self.wf(),
            aim_at_robot(self@, c, robot) is Some,
        ensures
            a == aim_at_robot(self@, c, robot).unwrap(),
    {
        proof {
            lemma_sim_view(self);
            lemma_sim_wf(self);
        }
        if robot < 0 || robot as usize >= self.robots.len() {
            return 0;
        }
        let r = self.robots[robot as usize];
        self.angles.angle_byte(r.pos_x - c.x, r.pos_y - c.y) as i32
    }

    /// The angle byte at the impact point (see [`aim_at_impact`]).
    fn aim_at_impact_exec(&self, c: CritterRecord) -> (a: i32)
        requires
            self.wf(),
            aim_at_impact(self@, c) is Some,
        ensures
            a == aim_at_impact(self@, c).unwrap(),
    {
        proof {
            lemma_sim_view(self);
            lemma_sim_wf(self);
        }
        self.angles.angle_byte(c.impact_x - c.x, c.impact_y - c.y) as i32
    }

    /// The engage mode (see [`mixed_engage_s`]).
    #[verifier::rlimit(30)]
    fn mixed_engage(&mut self, c: CritterRecord, first: bool, leash: i32) -> (r: CritterRecord)
        requires
            old(self).wf(),
            mixed_engage_s(old(self)@, c, first, leash) is Some,
        ensures
            final(self).wf(),
            (final(self)@, r) == mixed_engage_s(old(self)@, c, first, leash).unwrap(),
            final(self)@.critters == old(self)@.critters,
    {
        proof {
            lemma_sim_view(self);
            lemma_px_range(c.x);
            lemma_px_range(c.y);
        }
        let (robot, dist) = self.nearest_robot_px(c.x >> 8u32, c.y >> 8u32);
        if dist < 0x60 {
            let aim = self.aim_at_robot_exec(c, robot);
            let mut c1 = c;
            c1.heading = (aim + 0x80 + c.facing as i32) & 0xFF;
            let c2 = self.step_along_exec(c1, c1.heading);
            anim6_exec(c2, first)
        } else if dist <= 0x80 {
            let ghost m0 = self@;
            let r = self.draw();
            proof {
                crate::impact::lemma_draw_masks(r);
                lemma_sim_view(self);
            }
            let cd = (r & 0x1F) as i32 + 0xA;
            let aim = self.aim_at_robot_exec(c, robot);
            let t: (i32, i32, i32) = if 0 <= robot && (robot as usize) < self.robots.len() {
                let rb = self.robots[robot as usize];
                (rb.pos_x, rb.pos_y, rb.z)
            } else {
                (0, 0, 0)
            };
            let mut c1 = c;
            c1.mode = 2;
            c1.anim = 0;
            c1.countdown = cd;
            c1.heading = aim;
            c1.target_robot = robot as i16;
            c1.target_x = t.0;
            c1.target_y = t.1;
            c1.target_z = t.2;
            c1
        } else if dist < leash {
            let _juice = self.draw();
            let aim = self.aim_at_robot_exec(c, robot);
            let mut c1 = c;
            c1.heading = (aim + c.facing as i32) & 0xFF;
            let c2 = self.step_along_exec(c1, c1.heading);
            anim6_exec(c2, first)
        } else {
            c
        }
    }

    /// The fire mode (see [`mixed_fire_s`]).
    #[verifier::rlimit(30)]
    fn mixed_fire(&mut self, c: CritterRecord, first: bool) -> (r: CritterRecord)
        requires
            old(self).wf(),
            mixed_fire_s(old(self)@, c, first) is Some,
        ensures
            final(self).wf(),
            (final(self)@, r) == mixed_fire_s(old(self)@, c, first).unwrap(),
            final(self)@.critters == old(self)@.critters,
    {
        proof {
            lemma_sim_view(self);
            lemma_sim_wf(self);
        }
        let mut c1 = c;
        if first {
            c1.anim = c.anim + 1;
        }
        let mut attempted = false;
        let mut ok = false;
        if c1.anim > 1 {
            c1.anim = 0;
            attempted = true;
            match self.enemy_free_slot() {
                None => {},
                Some(slot) => {
                    let p = shot_at_exec(c1, 0x68, c1.target_x, c1.target_y, c1.target_z);
                    self.enemy_bank.set(slot, p);
                    proof {
                        lemma_sim_view(self);
                        lemma_sim_wf(self);
                    }
                    ok = true;
                },
            }
        }
        c1.countdown = c1.countdown - 1;
        let brk = if c1.countdown == 0 || (attempted && !ok) {
            true
        } else if self.difficulty == 0 {
            self.draw() & 7 == 0
        } else if self.difficulty == 1 {
            self.draw() & 0xF == 0
        } else {
            false
        };
        if brk {
            let r = self.draw();
            let delta = c1.facing as i32 + 0x40;
            c1.heading = if r & 1 == 0 {
                c1.heading - delta
            } else {
                c1.heading + delta
            };
            c1.mode = 3;
            c1.anim = 2;
            c1.countdown = 6;
        }
        c1
    }

    /// The chase mode (see [`mixed_chase_s`]).
    fn mixed_chase(&mut self, c: CritterRecord, first: bool) -> (r: CritterRecord)
        requires
            old(self).wf(),
            mixed_chase_s(old(self)@, c, first) is Some,
        ensures
            final(self).wf(),
            (final(self)@, r) == mixed_chase_s(old(self)@, c, first).unwrap(),
            final(self)@.critters == old(self)@.critters,
    {
        let _juice = self.draw();
        let c1 = self.step_along_exec(c, c.heading);
        let mut c2 = anim6_exec(c1, first);
        c2.countdown = c2.countdown - 1;
        if c2.countdown == 0 {
            c2.mode = 8;
            c2.anim = 2;
        }
        c2
    }

    /// The mode part of a mixed-kind substep (see [`mixed_mode_s`]).
    #[verifier::rlimit(30)]
    fn mixed_mode(&mut self, c: CritterRecord, first: bool, respawn: i32, leash: i32) -> (r: (CritterRecord, bool))
        requires
            old(self).wf(),
            mixed_mode_s(old(self)@, c, first, respawn, leash) is Some,
        ensures
            final(self).wf(),
            (final(self)@, r.0, r.1) == mixed_mode_s(old(self)@, c, first, respawn, leash).unwrap(),
            final(self)@.critters == old(self)@.critters,
    {
        let mut c1 = c;
        if c.mode == 0xB {
            if c.countdown < respawn {
                if first {
                    c1.countdown = c.countdown + 1;
                }
                (c1, true)
            } else {
                let v = self.bounded_pick(0xFF);
                c1.anim = 0;
                c1.countdown = 0;
                c1.presence = true;
                c1.heading = v;
                c1.species = 3;
                c1.mode = 8;
                c1.hp = 0x96;
                (c1, false)
            }
        } else if c.mode == 0xA {
            if c.countdown == 0 {
                c1.mode = 8;
                c1.anim = 2;
                (c1, true)
            } else {
                let cd = c.countdown - 1;
                c1.countdown = cd;
                c1.heading = cd;
                let c2 = self.step_along_exec(c1, cd);
                (anim6_exec(c2, first), true)
            }
        } else if c.mode == 7 {
            let mut d = dying(c);
            d.anim = 0;
            (d, true)
        } else if c.mode == 6 {
            let h = self.aim_at_impact_exec(c);
            c1.heading = h;
            let mut c2 = self.step_along_exec(c1, (h + 0x80) & 0xFF);
            if first {
                c2.anim = c2.anim + 1;
            }
            if c2.anim >= 8 {
                c2.mode = 7;
                c2.death_ctr = 0;
            }
            (c2, true)
        } else if c.mode == 5 {
            if c.anim > 1 {
                c1.mode = 8;
                c1.anim = 2;
                (c1, false)
            } else {
                let h = self.aim_at_impact_exec(c);
                c1.heading = h;
                if first {
                    c1.anim = c.anim + 1;
                }
                (c1, true)
            }
        } else if c.mode == 8 {
            (self.mixed_engage(c, first, leash), true)
        } else if c.mode == 2 {
            (self.mixed_fire(c, first), true)
        } else if c.mode == 3 {
            (self.mixed_chase(c, first), true)
        } else {
            (c, true)
        }
    }

    /// One mixed-kind substep (see [`mixed_substep_s`]).
    fn mixed_substep(&mut self, c: CritterRecord, first: bool, respawn: i32, leash: i32) -> (r: CritterRecord)
        requires
            old(self).wf(),
            mixed_substep_s(old(self)@, c, first, respawn, leash) is Some,
        ensures
            final(self).wf(),
            (final(self)@, r) == mixed_substep_s(old(self)@, c, first, respawn, leash).unwrap(),
            final(self)@.critters == old(self)@.critters,
    {
        let (c1, spent) = self.mixed_mode(c, first, respawn, leash);
        if spent {
            c1
        } else {
            let (c2, _) = self.mixed_mode(c1, first, respawn, leash);
            c2
        }
    }

    /// One frame of the mixed-kind critter at `idx` (see [`mixed_s`]).
    pub fn critter_mixed(&mut self, idx: usize, respawn: i32, leash: i32)
        requires
            old(self).wf(),
            idx < old(self)@.critters.len(),
            mixed_s(old(self)@, idx as int, respawn, leash) is Some,
        ensures
            final(self).wf(),
            final(self)@ == mixed_s(old(self)@, idx as int, respawn, leash).unwrap(),
    {
        proof {
            lemma_sim_view(self);
        }
        let ghost m0 = self@;
        let mut c = self.critters[idx];
        let r = self.draw();
        if r & 0x1F == 0 {
            let r2 = self.draw();
            proof {
                crate::impact::lemma_draw_masks(r2);
            }
            c.facing = ((r2 & 0x1F) as i32 - 0xF) as u16;
        }
        proof {
            lemma_sim_view(self);
        }
        let n = c.species;
        let ghost c0 = c;
        let mut k: u16 = 0;
        while k < n
            invariant
                self.wf(),
                k <= n,
                n == c0.species,
                idx < m0.critters.len(),
                self@.critters == m0.critters,
                mixed_substeps(self@, c, k as nat, n as nat, respawn, leash) == mixed_substeps(
                    mixed_s_start(m0, idx as int).0,
                    c0,
                    0,
                    n as nat,
                    respawn,
                    leash,
                ),
                c0 == mixed_s_start(m0, idx as int).1,
                mixed_substeps(mixed_s_start(m0, idx as int).0, c0, 0, n as nat, respawn, leash) is Some,
            decreases n - k,
        {
            c = self.mixed_substep(c, k == 0, respawn, leash);
            k = k + 1;
        }
        proof {
            lemma_sim_view(self);
            lemma_sim_wf(self);
        }
        self.critters.set(idx, c);
        proof {
            lemma_sim_view(self);
            lemma_sim_wf(self);
        }
    }
}

/// One substep of the sine-walk shooter (kind 2): the animation counts
/// on modulo 16, the heading precesses by the variant, the critter walks
/// by the heading's sine words times 0x14 `>> 8` (no walk without sine
/// words); then a draw that is spent on nothing, and a draw that 3 in 4
/// ends the substep. Otherwise a bounded pick over the robot count
/// chooses a robot; an alive one with a free enemy slot is aimed at with
/// two draws of jitter `-0x1F00..=0x2000` on x then y, and within range
/// `0x12C - (2 - difficulty) * 0x40` (the octagonal length of the aim
/// `>> 8`) a kind-0x65 shot at the critter goes into the slot with the
/// aim `>> 5` as its velocity, the height aim from the robot's Q5 height
/// `<< 8`. `None` on overflow.
pub open spec fn shooter_sub_s(m: MissionView, c: CritterRecord) -> Option<(MissionView, CritterRecord)> {
    if c.anim == u16::MAX || !fits32(c.heading + c.variant) {
        None
    } else {
        let h = ((c.heading + c.variant) as i32) & 0xFF;
        let c1 = CritterRecord { anim: ((c.anim + 1) as u16) & 0xF, heading: h, ..c };
        let mv: Option<CritterRecord> = match sine_pair(m.angles, h) {
            None => Some(c1),
            Some((cw, sw)) => {
                let nx = c1.x + (((cw * 0x14) as i32) >> 8u32);
                let ny = c1.y + (((sw * 0x14) as i32) >> 8u32);
                if !fits32(nx) || !fits32(ny) {
                    None
                } else {
                    Some(CritterRecord { x: nx as i32, y: ny as i32, ..c1 })
                }
            },
        };
        match mv {
            None => None,
            Some(c2) => {
                let m1 = drawn(m).1;
                let (g, m2) = drawn(m1);
                if g & 3u32 != 0 {
                    Some((m2, c2))
                } else if (m2.robots.len() as i32) > 0x8000 {
                    None
                } else {
                    let (pick, m3) = picked(m2, (m2.robots.len() as i32) as int);
                    if pick >= m3.robots.len() || !m3.robots[pick].alive {
                        Some((m3, c2))
                    } else {
                        match free_slot_from(m3.enemy_bank, 0) {
                            None => Some((m3, c2)),
                            Some(slot) => {
                                let r = m3.robots[pick];
                                let (a, m4) = drawn(m3);
                                let jx = (a & 0x3Fu32) as int * 0x100 - 0x1F00;
                                let (b, m5) = drawn(m4);
                                let jy = (b & 0x3Fu32) as int * 0x100 - 0x1F00;
                                let dirx = r.pos_x - c2.x + jx;
                                let diry = r.pos_y - c2.y + jy;
                                let dirz = (((r.z as u32) << 8u32) as i32) - c2.z;
                                let dd = 2 - (m.difficulty as i32);
                                if !fits32(r.pos_x - c2.x) || !fits32(dirx) || !fits32(r.pos_y - c2.y) || !fits32(
                                    diry,
                                ) || !fits32(dirz) || !fits32(dd) || !fits32(dd * 0x40) || !fits32(
                                    0x12C - dd * 0x40,
                                ) {
                                    None
                                } else {
                                    let d0 = dist_oct(dirx as i32, diry as i32);
                                    let dist: i32 = if d0 == 0 {
                                        1
                                    } else {
                                        d0
                                    };
                                    if (dist >> 8u32) >= 0x12C - dd * 0x40 {
                                        Some((m5, c2))
                                    } else {
                                        Some(
                                            (
                                                MissionView {
                                                    enemy_bank: m5.enemy_bank.update(
                                                        slot,
                                                        EnemyProjectile {
                                                            kind: 0x65,
                                                            x: c2.x,
                                                            y: c2.y,
                                                            z: c2.z,
                                                            vx: (dirx as i32) >> 5u32,
                                                            vy: (diry as i32) >> 5u32,
                                                            vz: (dirz as i32) >> 5u32,
                                                        },
                                                    ),
                                                    ..m5
                                                },
                                                c2,
                                            ),
                                        )
                                    }
                                }
                            },
                        }
                    }
                }
            },
        }
    }
}

/// Shooter substeps `k..n`.
pub open spec fn shooter_substeps(m: MissionView, c: CritterRecord, k: nat, n: nat) -> Option<(MissionView, CritterRecord)>
    decreases n - k,
{
    if k >= n {
        Some((m, c))
    } else {
        match shooter_sub_s(m, c) {
            None => None,
            Some((m1, c1)) => shooter_substeps(m1, c1, k + 1, n),
        }
    }
}

/// One frame of the shooter at `idx`: as many substeps as its species
/// word (see [`shooter_sub_s`]). `None` on overflow.
pub open spec fn shooter_s(m: MissionView, idx: int) -> Option<MissionView> {
    let c = m.critters[idx];
    match shooter_substeps(m, c, 0, c.species as nat) {
        None => None,
        Some((m1, c1)) => Some(MissionView { critters: m.critters.update(idx, c1), ..m1 }),
    }
}

impl MissionSim {
    /// One shooter substep (see [`shooter_sub_s`]).
    #[verifier::rlimit(40)]
    fn shooter_substep(&mut self, c: CritterRecord) -> (r: CritterRecord)
        requires
            old(self).wf(),
            shooter_sub_s(old(self)@, c) is Some,
        ensures
            final(self).wf(),
            (final(self)@, r) == shooter_sub_s(old(self)@, c).unwrap(),
            final(self)@.critters == old(self)@.critters,
    {
        proof {
            lemma_sim_view(self);
            lemma_sim_wf(self);
        }
        let ghost m0 = self@;
        let mut c1 = c;
        c1.anim = (c.anim + 1) & 0xF;
        let h = (c.heading + c.variant) & 0xFF;
        c1.heading = h;
        match sine_pair_exec(&self.angles, h) {
            Some((cw, sw)) => {
                c1.x = c1.x + ((cw * 0x14) >> 8u32);
                c1.y = c1.y + ((sw * 0x14) >> 8u32);
            },
            None => {},
        }
        let _squawk = self.draw();
        let g = self.draw();
        if g & 3 != 0 {
            return c1;
        }
        proof {
            lemma_sim_view(self);
        }
        let cnt = self.robots.len() as i32;
        let pick = self.bounded_pick(cnt);
        proof {
            lemma_sim_view(self);
            lemma_sim_wf(self);
        }
        if pick as usize >= self.robots.len() || !self.robots[pick as usize].alive {
            return c1;
        }
        let slot = match self.enemy_free_slot() {
            None => {
                return c1;
            },
            Some(s) => s,
        };
        let r = self.robots[pick as usize];
        let a = self.draw();
        proof {
            crate::impact::lemma_draw_masks(a);
        }
        let jx = (a & 0x3F) as i32 * 0x100 - 0x1F00;
        let b = self.draw();
        proof {
            crate::impact::lemma_draw_masks(b);
            lemma_sim_view(self);
            lemma_sim_wf(self);
        }
        let jy = (b & 0x3F) as i32 * 0x100 - 0x1F00;
        let dirx = r.pos_x - c1.x + jx;
        let diry = r.pos_y - c1.y + jy;
        let dirz = ((r.z as u32) << 8u32) as i32 - c1.z;
        let d0 = dist_octagonal(dirx, diry);
        let dist: i32 = if d0 == 0 {
            1
        } else {
            d0
        };
        let dd = 2 - (self.difficulty as i32);
        if dist >> 8u32 >= 0x12C - dd * 0x40 {
            return c1;
        }
        self.enemy_bank.set(
            slot,
            EnemyProjectile { kind: 0x65, x: c1.x, y: c1.y, z: c1.z, vx: dirx >> 5u32, vy: diry >> 5u32, vz: dirz >> 5u32 },
        );
        proof {
            lemma_sim_view(self);
            lemma_sim_wf(self);
        }
        c1
    }

    /// One frame of the shooter at `idx` (see [`shooter_s`]).
    pub fn critter_shooter(&mut self, idx: usize)
        requires
            old(self).wf(),
            idx < old(self)@.critters.len(),
            shooter_s(old(self)@, idx as int) is Some,
        ensures
            final(self).wf(),
            final(self)@ == shooter_s(old(self)@, idx as int).unwrap(),
    {
        proof {
            lemma_sim_view(self);
        }
        let ghost m0 = self@;
        let mut c = self.critters[idx];
        let n = c.species;
        let mut k: u16 = 0;
        while k < n
            invariant
                self.wf(),
                k <= n,
                idx < m0.critters.len(),
                n == m0.critters[idx as int].species,
                self@.critters == m0.critters,
                shooter_substeps(self@, c, k as nat, n as nat) == shooter_substeps(
                    m0,
                    m0.critters[idx as int],
                    0,
                    n as nat,
                ),
                shooter_substeps(m0, m0.critters[idx as int], 0, n as nat) is Some,
            decreases n - k,
        {
            c = self.shooter_substep(c);
            k = k + 1;
        }
        proof {
            lemma_sim_view(self);
            lemma_sim_wf(self);
        }
        self.critters.set(idx, c);
        proof {
            lemma_sim_view(self);
            lemma_sim_wf(self);
        }
    }
}

/// The seek-stepper walk probe at raw pixel `(x, y)` and height `z`:
/// inside the map and the floor probed there within 0xF of `z`. `None`
/// when the height difference overflows.
pub open spec fn step_probe_s(m: MissionView, x: i32, y: i32, z: i32) -> Option<(bool, MissionView)> {
    if x < 0 || y < 0 || x >> 5u32 >= m.terrain.width || y >> 5u32 >= m.terrain.height {
        Some((false, m))
    } else {
        let (f, m1) = probed(m, x, y, z);
        let d = z - f;
        if !fits32(d) || d == i32::MIN {
            None
        } else {
            Some((-0xF < d < 0xF, m1))
        }
    }
}

/// The forward acquisition of a seek stepper walking in direction `dir`,
/// from robot `i` on: the first alive robot whose pixel position lies in
/// the walk-axis window (`-4` exclusive to `0xF`) and within 0x18 across
/// it, and whose height is within 0x18, becomes the target, with fire
/// (mode 2) and countdown 0. `None` when a difference overflows.
pub open spec fn acquire_from(s: Seq<Robot>, c: CritterRecord, dir: i32, i: nat) -> Option<CritterRecord>
    decreases s.len() - i,
{
    if i >= s.len() {
        Some(c)
    } else {
        let r = s[i as int];
        if !r.alive {
            acquire_from(s, c, dir, i + 1)
        } else {
            let rx = r.pos_x >> 8u32;
            let ry = r.pos_y >> 8u32;
            let a = if dir == 1 {
                rx - c.x
            } else if dir == 2 {
                ry - c.y
            } else {
                c.x - rx
            };
            let b = if dir == 0 {
                c.y - ry
            } else if dir == 2 {
                rx - c.x
            } else {
                ry - c.y
            };
            if !fits32(a) {
                None
            } else if !(a > -4 && a <= 0xF) {
                acquire_from(s, c, dir, i + 1)
            } else if !fits32(b) || b == i32::MIN {
                None
            } else if !(-0x18 < b < 0x18) {
                acquire_from(s, c, dir, i + 1)
            } else {
                let dz = c.z - r.z;
                if !fits32(dz) || dz == i32::MIN {
                    None
                } else if -0x18 < dz < 0x18 {
                    Some(CritterRecord { target_robot: i as i16, mode: 2, countdown: 0, ..c })
                } else {
                    acquire_from(s, c, dir, i + 1)
                }
            }
        }
    }
}

/// The dominant-axis direction from a seek stepper to robot `robot` (0
/// up, 1 right, 2 down, 3 left; the y axis on ties); 0 without such a
/// robot. `None` when a difference overflows.
pub open spec fn dominant_axis_s(m: MissionView, c: CritterRecord, robot: i32) -> Option<i32> {
    if robot < 0 || robot >= m.robots.len() {
        Some(0)
    } else {
        let dx = (m.robots[robot as int].pos_x >> 8u32) - c.x;
        let dy = (m.robots[robot as int].pos_y >> 8u32) - c.y;
        if !fits32(dx) || !fits32(dy) || dx == i32::MIN || dy == i32::MIN {
            None
        } else if abs_int(dx) > abs_int(dy) {
            Some(if dx >= 0 {
                1i32
            } else {
                3i32
            })
        } else {
            Some(if dy >= 0 {
                2i32
            } else {
                0i32
            })
        }
    }
}

/// The dive step of a seek stepper: the heading's sine words times
/// `mult`, `>> 16`, as a raw pixel move, taken when the target is inside
/// the map and its floor, probed at the critter's height, is within 3 of
/// it. No move without sine words. `None` on overflow.
pub open spec fn dive_step_s(m: MissionView, c: CritterRecord, mult: i32) -> Option<(MissionView, CritterRecord)> {
    match sine_pair(m.angles, c.heading & 0xFF) {
        None => Some((m, c)),
        Some((cw, sw)) => if !fits32(cw * mult) || !fits32(sw * mult) {
            None
        } else {
            let nx = c.x + (((cw * mult) as i32) >> 16u32);
            let ny = c.y + (((sw * mult) as i32) >> 16u32);
            if !fits32(nx) || !fits32(ny) {
                None
            } else if nx < 0 || ny < 0 || (nx as i32) >> 5u32 >= m.terrain.width || (ny as i32) >> 5u32
                >= m.terrain.height {
                Some((m, c))
            } else {
                let (f, m1) = probed(m, nx as i32, ny as i32, c.z);
                let d = c.z - f;
                if !fits32(d) || d == i32::MIN {
                    None
                } else if d > 3 || d < -3 {
                    Some((m1, c))
                } else {
                    Some((m1, CritterRecord { x: nx as i32, y: ny as i32, ..c }))
                }
            }
        },
    }
}

/// The seek walk of a seek stepper in mode 9 within range: at countdown 0
/// a draw picks 1 in 4 a random direction (a second draw) and otherwise
/// the dominant axis toward the nearest robot, and a third draw a pause
/// of `0x20..=0x5F`; else the countdown counts down and a direction
/// 0..=3 tries a one-pixel step behind the walk probe, acquiring a
/// target ahead on success (see [`acquire_from`]) and zeroing the
/// countdown when blocked. `None` on overflow.
pub open spec fn seek_walk_s(m: MissionView, c: CritterRecord, nearest: i32) -> Option<(MissionView, CritterRecord)> {
    if c.countdown == 0 {
        let (g, m1) = drawn(m);
        let (dir, m2): (Option<i32>, MissionView) = if g & 3u32 == 0 {
            let (r, mm) = drawn(m1);
            (Some((r & 3u32) as i32), mm)
        } else {
            (dominant_axis_s(m1, c, nearest), m1)
        };
        match dir {
            None => None,
            Some(d) => {
                let (p, m3) = drawn(m2);
                Some((m3, CritterRecord { heading: d, countdown: ((p & 0x3Fu32) as i32 + 0x20) as i32, ..c }))
            },
        }
    } else if c.countdown == i32::MIN {
        None
    } else {
        let dir = c.heading & 0xFFFF;
        let c1 = CritterRecord { countdown: (c.countdown - 1) as i32, ..c };
        if dir > 3 {
            Some((m, c1))
        } else {
            let dx: int = if dir == 1 {
                1
            } else if dir == 3 {
                -1
            } else {
                0
            };
            let dy: int = if dir == 2 {
                1
            } else if dir == 0 {
                -1
            } else {
                0
            };
            if !fits32(c.x + dx) || !fits32(c.y + dy) {
                None
            } else {
                match step_probe_s(m, (c.x + dx) as i32, (c.y + dy) as i32, c.z) {
                    None => None,
                    Some((ok, m1)) => if ok {
                        match acquire_from(
                            m1.robots,
                            CritterRecord { x: (c.x + dx) as i32, y: (c.y + dy) as i32, ..c1 },
                            dir,
                            0,
                        ) {
                            None => None,
                            Some(c2) => Some((m1, c2)),
                        }
                    } else {
                        Some((m1, CritterRecord { countdown: 0, ..c1 }))
                    },
                }
            }
        }
    }
}

/// The strike of a seek stepper in mode 2 within range: at countdown 4 it
/// goes back to seeking (mode 9); otherwise its target robot, when there
/// is one, takes one point of damage (see [`damage_result`]), then faces
/// nowhere, and unless it is ordered or extracted (states 3 and 5) its
/// direction byte becomes the strike seed `(heading & 0xFF) * 64` and it
/// is knocked by the seed's sine words times 2 `>> 7` when the move test
/// passes. On the first substep the countdown counts on. `None` on
/// overflow or an undefined damage.
pub open spec fn strike_s(m: MissionView, c: CritterRecord, first: bool) -> Option<(MissionView, CritterRecord)> {
    let cd = c.countdown;
    if cd == 4 {
        Some((m, CritterRecord { mode: 9, ..c }))
    } else {
        let v = c.target_robot as int;
        let seed = ((c.heading & 0xFF) * 64) as i32;
        let mo: Option<MissionView> = if 0 <= v < m.robots.len() {
            if !damage_defined(m, v as usize, 1) {
                None
            } else {
                let m1 = damage_result(m, v as usize, 1).0;
                let st = m1.robots[v].state;
                let r1 = Robot { facing: 0xFFFF, ..m1.robots[v] };
                if st == 3 || st == 5 {
                    Some(MissionView { robots: m1.robots.update(v, r1), ..m1 })
                } else {
                    let kv: (i32, i32) = match sine_pair(m1.angles, seed & 0xFF) {
                        None => (0, 0),
                        Some((cw, sw)) => (((cw * 2) as i32) >> 7u32, ((sw * 2) as i32) >> 7u32),
                    };
                    let r2 = Robot { dir_byte: (seed & 0xFFFF) as u16, ..r1 };
                    let px = r2.pos_x + kv.0;
                    let py = r2.pos_y + kv.1;
                    if !fits32(px) || !fits32(py) {
                        None
                    } else {
                        let (ok, t2, r3) = move_check(m1.terrain, r2, px as i32, py as i32);
                        let r4 = if ok {
                            Robot { pos_x: px as i32, pos_y: py as i32, facing: FACING_NONE, ..r3 }
                        } else {
                            r3
                        };
                        Some(MissionView { terrain: t2, robots: m1.robots.update(v, r4), ..m1 })
                    }
                }
            }
        } else {
            Some(m)
        };
        match mo {
            None => None,
            Some(m2) => if first {
                if cd == i32::MAX {
                    None
                } else {
                    Some((m2, CritterRecord { countdown: (cd + 1) as i32, ..c }))
                }
            } else {
                Some((m2, c))
            },
        }
    }
}

/// The shared tail of a seek-stepper substep: in mode 9 or 2, with the
/// nearest alive robot `(nearest, dist)` from its raw pixel position,
/// within 0x1F4 the seek walk (mode 9, see [`seek_walk_s`]) or the strike
/// (mode 2, see [`strike_s`]). `None` for a position beyond `±2^23`
/// pixels.
pub open spec fn state4_tail_s(m: MissionView, c: CritterRecord, first: bool) -> Option<(MissionView, CritterRecord)> {
    if c.mode != 9 && c.mode != 2 {
        Some((m, c))
    } else if !(-0x800000 <= c.x < 0x800000 && -0x800000 <= c.y < 0x800000) {
        None
    } else {
        let (nearest, dist) = nearest_px(m.robots, c.x, c.y);
        if dist >= 0x1F4 {
            Some((m, c))
        } else if c.mode == 9 {
            seek_walk_s(m, c, nearest)
        } else {
            strike_s(m, c, first)
        }
    }
}

/// One seek-stepper substep (kind 4): dormant (0xB) counts to the respawn
/// delay on the first substep, then wakes (a drawn direction, seek mode
/// 9, species 6, 200 hit points) and runs the tail; dying (7) as the
/// other kinds, clearing the animation; the dive (6) steps away from the
/// impact point while within 0x8000 of it (Q13, the record's pixels
/// scaled by 0x100) by the countdown (at least 2), and counts the
/// countdown down on the first substep, dying from 0; the stun rise (5)
/// returns to seeking from countdown 2, else counts on the first
/// substep, then runs the tail; other modes run the tail (see
/// [`state4_tail_s`]). `None` on overflow.
pub open spec fn state4_sub_s(m: MissionView, c: CritterRecord, first: bool, respawn: i32) -> Option<
    (MissionView, CritterRecord),
> {
    if c.mode == 0xB {
        if c.countdown < respawn {
            if first {
                Some((m, CritterRecord { countdown: (c.countdown + 1) as i32, ..c }))
            } else {
                Some((m, c))
            }
        } else {
            let (r, m1) = drawn(m);
            state4_tail_s(
                m1,
                CritterRecord { anim: 0, countdown: 0, heading: (r & 3u32) as i32, mode: 9, species: 6, hp: 0xC8, ..c },
                first,
            )
        }
    } else if c.mode == 7 {
        if c.death_ctr == i32::MAX {
            None
        } else {
            Some((m, CritterRecord { anim: 0, ..dying_s(c) }))
        }
    } else if c.mode == 6 {
        let dx = ((((c.x as u32) << 8u32) as i32) - c.impact_x);
        let dy = ((((c.y as u32) << 8u32) as i32) - c.impact_y);
        if !fits32(dx) || !fits32(dy) || dx == i32::MIN || (abs_int(dx) < 0x8000 && dy == i32::MIN) {
            None
        } else {
            let md: Option<(MissionView, CritterRecord)> = if abs_int(dx) < 0x8000 && abs_int(dy) < 0x8000 {
                let h = angle_of(m.angles.thresholds, dx as i32, dy as i32) as i32;
                let c1 = CritterRecord { heading: h, ..c };
                dive_step_s(m, c1, if c1.countdown < 2 {
                    2
                } else {
                    c1.countdown
                })
            } else {
                Some((m, c))
            };
            match md {
                None => None,
                Some((m1, c2)) => if !first {
                    Some((m1, c2))
                } else if c2.countdown == i32::MIN {
                    None
                } else {
                    let cd = (c2.countdown - 1) as i32;
                    if cd <= 0 {
                        Some((m1, CritterRecord { countdown: cd, mode: 7, death_ctr: 0, ..c2 }))
                    } else {
                        Some((m1, CritterRecord { countdown: cd, ..c2 }))
                    }
                },
            }
        }
    } else if c.mode == 5 {
        let c1 = if c.countdown >= 2 {
            Some(CritterRecord { mode: 9, countdown: 0, ..c })
        } else if first {
            Some(CritterRecord { countdown: (c.countdown + 1) as i32, ..c })
        } else {
            Some(c)
        };
        match c1 {
            None => None,
            Some(k) => state4_tail_s(m, k, first),
        }
    } else {
        state4_tail_s(m, c, first)
    }
}

/// Seek-stepper substeps `k..n`.
pub open spec fn state4_substeps(m: MissionView, c: CritterRecord, k: nat, n: nat, respawn: i32) -> Option<
    (MissionView, CritterRecord),
>
    decreases n - k,
{
    if k >= n {
        Some((m, c))
    } else {
        match state4_sub_s(m, c, k == 0, respawn) {
            None => None,
            Some((m1, c1)) => state4_substeps(m1, c1, k + 1, n, respawn),
        }
    }
}

/// One frame of the seek stepper at `idx`: as many substeps as its
/// species word (see [`state4_sub_s`]). `None` on overflow.
pub open spec fn state4_s(m: MissionView, idx: int, respawn: i32) -> Option<MissionView> {
    let c = m.critters[idx];
    match state4_substeps(m, c, 0, c.species as nat, respawn) {
        None => None,
        Some((m1, c1)) => Some(MissionView { critters: m.critters.update(idx, c1), ..m1 }),
    }
}

impl MissionSim {
    /// The seek-stepper walk probe (see [`step_probe_s`]).
    fn step_probe(&mut self, x: i32, y: i32, z: i32) -> (ok: bool)
        requires
            old(self).wf(),
            step_probe_s(old(self)@, x, y, z) is Some,
        ensures
            final(self).wf(),
            (ok, final(self)@) == step_probe_s(old(self)@, x, y, z).unwrap(),
    {
        proof {
            lemma_sim_view(self);
        }
        let (w, h) = self.terrain.size();
        if x < 0 || y < 0 || x >> 5u32 >= w || y >> 5u32 >= h {
            return false;
        }
        let f = self.probe_floor(x, y, z);
        let d = z - f;
        -0xF < d && d < 0xF
    }

    /// The forward acquisition (see [`acquire_from`]).
    fn acquire(&self, c: CritterRecord, dir: i32) -> (r: CritterRecord)
        requires
            acquire_from(self@.robots, c, dir, 0) is Some,
        ensures
            r == acquire_from(self@.robots, c, dir, 0).unwrap(),
    {
        proof {
            lemma_sim_view(self);
        }
        let mut i: usize = 0;
        while i < self.robots.len()
            invariant
                i <= self@.robots.len(),
                self.robots@ == self@.robots,
                acquire_from(self@.robots, c, dir, i as nat) == acquire_from(self@.robots, c, dir, 0),
                acquire_from(self@.robots, c, dir, 0) is Some,
            decreases self@.robots.len() - i,
        {
            let r = self.robots[i];
            if r.alive {
                proof {
                    lemma_px_range(r.pos_x);
                    lemma_px_range(r.pos_y);
                }
                let rx = r.pos_x >> 8u32;
                let ry = r.pos_y >> 8u32;
                let a = if dir == 1 {
                    rx - c.x
                } else if dir == 2 {
                    ry - c.y
                } else {
                    c.x - rx
                };
                if a > -4 && a <= 0xF {
                    let b = if dir == 0 {
                        c.y - ry
                    } else if dir == 2 {
                        rx - c.x
                    } else {
                        ry - c.y
                    };
                    if -0x18 < b && b < 0x18 {
                        let dz = c.z - r.z;
                        if -0x18 < dz && dz < 0x18 {
                            let mut c1 = c;
                            c1.target_robot = i as i16;
                            c1.mode = 2;
                            c1.countdown = 0;
                            return c1;
                        }
                    }
                }
            }
            i = i + 1;
        }
        c
    }

    /// The dominant-axis direction (see [`dominant_axis_s`]).
    fn dominant_axis(&self, c: CritterRecord, robot: i32) -> (d: i32)
        requires
            dominant_axis_s(self@, c, robot) is Some,
        ensures
            d == dominant_axis_s(self@, c, robot).unwrap(),
    {
        proof {
            lemma_sim_view(self);
        }
        if robot < 0 || robot as usize >= self.robots.len() {
            return 0;
        }
        let r = self.robots[robot as usize];
        proof {
            lemma_px_range(r.pos_x);
            lemma_px_range(r.pos_y);
        }
        let dx = (r.pos_x >> 8u32) - c.x;
        let dy = (r.pos_y >> 8u32) - c.y;
        let ax = if dx < 0 {
            -dx
        } else {
            dx
        };
        let ay = if dy < 0 {
            -dy
        } else {
            dy
        };
        if ax > ay {
            if dx >= 0 {
                1
            } else {
                3
            }
        } else if dy >= 0 {
            2
        } else {
            0
        }
    }

    /// The dive step (see [`dive_step_s`]).
    fn dive_step(&mut self, c: CritterRecord, mult: i32) -> (r: CritterRecord)
        requires
            old(self).wf(),
            dive_step_s(old(self)@, c, mult) is Some,
        ensures
            final(self).wf(),
            (final(self)@, r) == dive_step_s(old(self)@, c, mult).unwrap(),
            final(self)@.critters == old(self)@.critters,
    {
        proof {
            lemma_sim_view(self);
            lemma_sim_wf(self);
        }
        match sine_pair_exec(&self.angles, c.heading & 0xFF) {
            None => c,
            Some((cw, sw)) => {
                let nx = c.x + ((cw * mult) >> 16u32);
                let ny = c.y + ((sw * mult) >> 16u32);
                let (w, h) = self.terrain.size();
                if nx < 0 || ny < 0 || nx >> 5u32 >= w || ny >> 5u32 >= h {
                    return c;
                }
                let f = self.probe_floor(nx, ny, c.z);
                let d = c.z - f;
                if d > 3 || d < -3 {
                    c
                } else {
                    let mut c1 = c;
                    c1.x = nx;
                    c1.y = ny;
                    c1
                }
            },
        }
    }

    /// The seek walk (see [`seek_walk_s`]).
    #[verifier::rlimit(30)]
    fn seek_walk(&mut self, c: CritterRecord, nearest: i32) -> (r: CritterRecord)
        requires
            old(self).wf(),
            seek_walk_s(old(self)@, c, nearest) is Some,
        ensures
            final(self).wf(),
            (final(self)@, r) == seek_walk_s(old(self)@, c, nearest).unwrap(),
            final(self)@.critters == old(self)@.critters,
    {
        let mut c1 = c;
        if c.countdown == 0 {
            let g = self.draw();
            let dir = if g & 3 == 0 {
                let r = self.draw();
                proof {
                    crate::impact::lemma_draw_masks(r);
                }
                (r & 3) as i32
            } else {
                self.dominant_axis(c, nearest)
            };
            let p = self.draw();
            proof {
                crate::impact::lemma_draw_masks(p);
            }
            c1.heading = dir;
            c1.countdown = (p & 0x3F) as i32 + 0x20;
            return c1;
        }
        let dir = c.heading & 0xFFFF;
        c1.countdown = c.countdown - 1;
        if dir > 3 {
            return c1;
        }
        let dx: i32 = if dir == 1 {
            1
        } else if dir == 3 {
            -1
        } else {
            0
        };
        let dy: i32 = if dir == 2 {
            1
        } else if dir == 0 {
            -1
        } else {
            0
        };
        if self.step_probe(c.x + dx, c.y + dy, c.z) {
            c1.x = c.x + dx;
            c1.y = c.y + dy;
            proof {
                lemma_sim_view(self);
            }
            self.acquire(c1, dir)
        } else {
            c1.countdown = 0;
            c1
        }
    }
}

impl MissionSim {
    /// The strike (see [`strike_s`]).
    #[verifier::rlimit(50)]
    fn strike(&mut self, c: CritterRecord, first: bool) -> (r: CritterRecord)
        requires
            old(self).wf(),
            strike_s(old(self)@, c, first) is Some,
        ensures
            final(self).wf(),
            (final(self)@, r) == strike_s(old(self)@, c, first).unwrap(),
            final(self)@.critters == old(self)@.critters,
    {
        proof {
            lemma_sim_view(self);
            lemma_sim_wf(self);
            lemma_low_byte(c.heading);
        }
        let cd = c.countdown;
        let mut c1 = c;
        if cd == 4 {
            c1.mode = 9;
            return c1;
        }
        let v = c.target_robot;
        let seed = (c.heading & 0xFF) * 64;
        if v >= 0 && (v as usize) < self.robots.len() {
            let vi = v as usize;
            let _ = self.apply_damage(vi, 1, 0);
            proof {
                lemma_sim_view(self);
                lemma_sim_wf(self);
            }
            let mut r = self.robots[vi];
            let st = r.state;
            r.facing = 0xFFFF;
            if st == 3 || st == 5 {
                self.robots.set(vi, r);
            } else {
                let (kx, ky) = match sine_pair_exec(&self.angles, seed & 0xFF) {
                    None => (0i32, 0i32),
                    Some((cw, sw)) => ((cw * 2) >> 7u32, (sw * 2) >> 7u32),
                };
                r.dir_byte = (seed & 0xFFFF) as u16;
                let px = r.pos_x + kx;
                let py = r.pos_y + ky;
                let ok = crate::movement::move_possible(&mut self.terrain, &mut r, px, py);
                if ok {
                    r.pos_x = px;
                    r.pos_y = py;
                    r.facing = FACING_NONE;
                }
                self.robots.set(vi, r);
            }
            proof {
                lemma_sim_view(self);
                lemma_sim_wf(self);
            }
        }
        if first {
            c1.countdown = cd + 1;
        }
        c1
    }

    /// The shared tail (see [`state4_tail_s`]).
    fn state4_tail(&mut self, c: CritterRecord, first: bool) -> (r: CritterRecord)
        requires
            old(self).wf(),
            state4_tail_s(old(self)@, c, first) is Some,
        ensures
            final(self).wf(),
            (final(self)@, r) == state4_tail_s(old(self)@, c, first).unwrap(),
            final(self)@.critters == old(self)@.critters,
    {
        if c.mode != 9 && c.mode != 2 {
            return c;
        }
        let (nearest, dist) = self.nearest_robot_px(c.x, c.y);
        if dist >= 0x1F4 {
            c
        } else if c.mode == 9 {
            self.seek_walk(c, nearest)
        } else {
            self.strike(c, first)
        }
    }

    /// One seek-stepper substep (see [`state4_sub_s`]).
    #[verifier::rlimit(30)]
    fn state4_substep(&mut self, c: CritterRecord, first: bool, respawn: i32) -> (r: CritterRecord)
        requires
            old(self).wf(),
            state4_sub_s(old(self)@, c, first, respawn) is Some,
        ensures
            final(self).wf(),
            (final(self)@, r) == state4_sub_s(old(self)@, c, first, respawn).unwrap(),
            final(self)@.critters == old(self)@.critters,
    {
        proof {
            lemma_sim_view(self);
            lemma_sim_wf(self);
        }
        let mut c1 = c;
        if c.mode == 0xB {
            if c.countdown < respawn {
                if first {
                    c1.countdown = c.countdown + 1;
                }
                c1
            } else {
                let r = self.draw();
                proof {
                    crate::impact::lemma_draw_masks(r);
                }
                c1.anim = 0;
                c1.countdown = 0;
                c1.heading = (r & 3) as i32;
                c1.mode = 9;
                c1.species = 6;
                c1.hp = 0xC8;
                self.state4_tail(c1, first)
            }
        } else if c.mode == 7 {
            let mut d = dying(c);
            d.anim = 0;
            d
        } else if c.mode == 6 {
            let dx = ((c.x as u32) << 8u32) as i32 - c.impact_x;
            let dy = ((c.y as u32) << 8u32) as i32 - c.impact_y;
            let ax = if dx < 0 {
                -dx
            } else {
                dx
            };
            let mut c2 = c;
            if ax < 0x8000 {
                let ay = if dy < 0 {
                    -dy
                } else {
                    dy
                };
                if ay < 0x8000 {
                    let h = self.angles.angle_byte(dx, dy) as i32;
                    c1.heading = h;
                    let mult = if c1.countdown < 2 {
                        2
                    } else {
                        c1.countdown
                    };
                    c2 = self.dive_step(c1, mult);
                }
            }
            if first {
                c2.countdown = c2.countdown - 1;
                if c2.countdown <= 0 {
                    c2.mode = 7;
                    c2.death_ctr = 0;
                }
            }
            c2
        } else if c.mode == 5 {
            if c.countdown >= 2 {
                c1.mode = 9;
                c1.countdown = 0;
            } else if first {
                c1.countdown = c.countdown + 1;
            }
            self.state4_tail(c1, first)
        } else {
            self.state4_tail(c, first)
        }
    }

    /// One frame of the seek stepper at `idx` (see [`state4_s`]).
    pub fn critter_state4(&mut self, idx: usize, respawn: i32)
        requires
            old(self).wf(),
            idx < old(self)@.critters.len(),
            state4_s(old(self)@, idx as int, respawn) is Some,
        ensures
            final(self).wf(),
            final(self)@ == state4_s(old(self)@, idx as int, respawn).unwrap(),
    {
        proof {
            lemma_sim_view(self);
        }
        let ghost m0 = self@;
        let mut c = self.critters[idx];
        let n = c.species;
        let mut k: u16 = 0;
        while k < n
            invariant
                self.wf(),
                k <= n,
                idx < m0.critters.len(),
                n == m0.critters[idx as int].species,
                self@.critters == m0.critters,
                state4_substeps(self@, c, k as nat, n as nat, respawn) == state4_substeps(
                    m0,
                    m0.critters[idx as int],
                    0,
                    n as nat,
                    respawn,
                ),
                state4_substeps(m0, m0.critters[idx as int], 0, n as nat, respawn) is Some,
            decreases n - k,
        {
            c = self.state4_substep(c, k == 0, respawn);
            k = k + 1;
        }
        proof {
            lemma_sim_view(self);
            lemma_sim_wf(self);
        }
        self.critters.set(idx, c);
        proof {
            lemma_sim_view(self);
            lemma_sim_wf(self);
        }
    }
}

/// The blast of a wanderer at raw pixel `(x, y)` and height `z`, from
/// blast `i` of 8: three draws give a height jitter of `0..=15` and pixel
/// jitters of `-31..=32` in y then x, with kind-1 debris there delayed
/// `i / 2`; two bounded picks of 3 give a tile jitter of `-1..=1` in y
/// then x around the critter's tile, with a splash there one level above
/// its own, delayed `i / 2`.
pub open spec fn wander_blast(m: MissionView, x: i32, y: i32, z: i32, i: nat) -> Option<MissionView>
    decreases 8 - i,
{
    if i >= 8 {
        Some(m)
    } else {
        let (a, m1) = drawn(m);
        let (b, m2) = drawn(m1);
        let (d, m3) = drawn(m2);
        let jz = z + (a & 0xFu32) as int;
        let jy = y + (b & 0x3Fu32) as int - 0x1F;
        let jx = x + (d & 0x3Fu32) as int - 0x1F;
        match debris_step(m3, jx, jy, jz, 1, (i / 2) as int, -1i32) {
            None => None,
            Some(m4) => {
                let (p1, m5) = picked(m4, 3);
                let (p2, m6) = picked(m5, 3);
                let sy = p1 + (y >> 5u32) - 1;
                let sx = p2 + (x >> 5u32) - 1;
                let sz = (z >> 5u32) + 1;
                match splash_step(m6, sx, sy, sz, (i / 2) as u16) {
                    None => None,
                    Some(m7) => wander_blast(m7, x, y, z, i + 1),
                }
            },
        }
    }
}

/// The `k`-th sample offset of the wanderer's wall probe: the corners of
/// the 3x3 box around the cell (offsets -11 and 12), then its edge
/// middles.
pub open spec fn wander_sample(k: int) -> (i32, i32) {
    if k == 0 {
        (-11i32, -11i32)
    } else if k == 1 {
        (-11i32, 12i32)
    } else if k == 2 {
        (12i32, -11i32)
    } else if k == 3 {
        (12i32, 12i32)
    } else if k == 4 {
        (0i32, -11i32)
    } else if k == 5 {
        (0i32, 12i32)
    } else if k == 6 {
        (-11i32, 0i32)
    } else {
        (12i32, 0i32)
    }
}

/// The wanderer's wall probe at raw pixel `(x, y)` and height `z` from
/// sample `k` on: every sample inside the map, its floor (probed at `z`)
/// exactly `z`, and its raw DAT byte at level `z >> 5` at most 3 (air or
/// standable); the first failing sample ends the probe. `None` when a
/// sample leaves `i32`.
pub open spec fn wander_probe_s(m: MissionView, x: i32, y: i32, z: i32, k: nat) -> Option<(bool, MissionView)>
    decreases 8 - k,
{
    if k >= 8 {
        Some((true, m))
    } else {
        let o = wander_sample(k as int);
        let sx = x + o.0;
        let sy = y + o.1;
        if !fits32(sx) || !fits32(sy) {
            None
        } else if sx < 0 || sy < 0 || (sx as i32) >> 5u32 >= m.terrain.width || (sy as i32) >> 5u32
            >= m.terrain.height {
            Some((false, m))
        } else {
            let (f, m1) = probed(m, sx as i32, sy as i32, z);
            if f != z || raw_or0(m1.terrain, (sx as i32) >> 5u32, (sy as i32) >> 5u32, (z >> 5u32) as int) > 3 {
                Some((false, m1))
            } else {
                wander_probe_s(m1, x, y, z, k + 1)
            }
        }
    }
}

/// The wanderer's death: mode 7 and absent; kind-1 debris at height 0xFF
/// only when its raw pixel position lies within the map's tile counts
/// and its height within 0..8.
pub open spec fn wander_die_s(m: MissionView, c: CritterRecord) -> Option<(MissionView, CritterRecord)> {
    let c1 = CritterRecord { mode: 7, presence: false, ..c };
    if 0 <= c.x < m.terrain.width && 0 <= c.y < m.terrain.height && 0 <= c.z < 8 {
        match debris_step(m, c.x as int, c.y as int, 0xFF, 1, 0, -1i32) {
            None => None,
            Some(m1) => Some((m1, c1)),
        }
    } else {
        Some((m, c1))
    }
}

/// The re-pick after a refused step: a draw gives a pause of
/// `0xC..=0x1B` with the wander direction cleared.
pub open spec fn wander_repick(m: MissionView, c: CritterRecord) -> (MissionView, CritterRecord) {
    let (r, m1) = drawn(m);
    (m1, CritterRecord { dir: -1i16, countdown: ((r & 0xFu32) as i32 + 0xC) as i32, ..c })
}

/// One wander step in direction `dir` (0 up, 1 right, 2 down, 3 left,
/// six pixels): a height outside `0..0x100` kills the wanderer (see
/// [`wander_die_s`]) and the step goes on; the stepped axis must stay
/// inside the map, else a re-pick restores the kept height; the wall
/// probe at the kept height (see [`wander_probe_s`]) commits the stepped
/// coordinate, else a re-pick. `None` on overflow.
pub open spec fn wander_step_s(m: MissionView, c: CritterRecord, dir: i32) -> Option<(MissionView, CritterRecord)> {
    let d = if !(0 <= c.z < 0x100) {
        wander_die_s(m, c)
    } else {
        Some((m, c))
    };
    match d {
        None => None,
        Some((m1, c1)) => {
            let dx: int = if dir == 1 {
                6
            } else if dir == 3 {
                -6
            } else {
                0
            };
            let dy: int = if dir == 0 {
                -6
            } else if dir == 2 {
                6
            } else {
                0
            };
            let nx = c.x + dx;
            let ny = c.y + dy;
            let horiz = dir == 1 || dir == 3;
            if !fits32(nx) || !fits32(ny) || !fits32(m.terrain.width * 0x20) || !fits32(m.terrain.height * 0x20) {
                None
            } else if !(if horiz {
                0 <= nx < m.terrain.width * 0x20
            } else {
                0 <= ny < m.terrain.height * 0x20
            }) {
                let (m2, c2) = wander_repick(m1, c1);
                Some((m2, CritterRecord { z: c.z_restore, ..c2 }))
            } else {
                match wander_probe_s(m1, nx as i32, ny as i32, c.z_restore, 0) {
                    None => None,
                    Some((ok, m2)) => if ok {
                        if horiz {
                            Some((m2, CritterRecord { x: nx as i32, ..c1 }))
                        } else {
                            Some((m2, CritterRecord { y: ny as i32, ..c1 }))
                        }
                    } else {
                        Some(wander_repick(m2, c1))
                    },
                }
            }
        },
    }
}

/// The nearest alive robot's pixel position to a pixel position, from
/// robot `i` on, given the best so far `(x, y, distance)`.
pub open spec fn toward_from(s: Seq<Robot>, px: i32, py: i32, i: nat, best: (i32, i32, i32)) -> (i32, i32, i32)
    decreases s.len() - i,
{
    if i >= s.len() {
        best
    } else {
        let r = s[i as int];
        if !r.alive {
            toward_from(s, px, py, i + 1, best)
        } else {
            let rx = r.pos_x >> 8u32;
            let ry = r.pos_y >> 8u32;
            let d = dist_oct((rx - px) as i32, (ry - py) as i32);
            toward_from(s, px, py, i + 1, if d < best.2 {
                (rx, ry, d)
            } else {
                best
            })
        }
    }
}

/// The wanderer's direction toward the nearest alive robot (at pixel
/// `(0, 0)` when none): up when the robot is not below and the x gap is
/// at most the y gap, down when not above with the same gap test, else
/// left or right by the x side.
pub open spec fn wander_toward_s(m: MissionView, c: CritterRecord) -> i32 {
    let t = toward_from(m.robots, c.x, c.y, 0, (0i32, 0i32, 0x989680i32));
    let dx = abs_int(c.x - t.0);
    let dy = abs_int(c.y - t.1);
    if c.y >= t.1 && dx <= dy {
        0
    } else if c.y <= t.1 && dx <= dy {
        2
    } else if c.x > t.0 {
        3
    } else {
        1
    }
}

/// A raw pixel position within `±2^23`.
pub open spec fn px_ok(c: CritterRecord) -> bool {
    -0x800000 <= c.x < 0x800000 && -0x800000 <= c.y < 0x800000
}

/// One wanderer substep: the countdown counts down first; above 0 an
/// idle wanderer (direction -1) holds one more substep at its kept
/// height, a walking one steps (see [`wander_step_s`]); at 0 a walking
/// one stops with a drawn pause of `8..=15`, an idle one picks: a drawn
/// pause of `0xA..=0x19`, then a draw that 1 in 4 picks a random
/// direction (a third draw) and otherwise heads toward the nearest robot
/// (see [`wander_toward_s`]), mirrored into the frame word. `None` on
/// overflow or a position beyond `±2^23` pixels.
pub open spec fn wander_sub_s(m: MissionView, c: CritterRecord) -> Option<(MissionView, CritterRecord)> {
    if c.countdown == i32::MIN || !px_ok(c) {
        None
    } else {
        let c0 = CritterRecord { countdown: (c.countdown - 1) as i32, ..c };
        if c0.countdown > 0 {
            if c0.dir < 0 {
                Some((m, CritterRecord { countdown: 1, z: c0.z_restore, ..c0 }))
            } else {
                wander_step_s(m, c0, c0.dir as i32)
            }
        } else if c0.dir >= 0 {
            let (r, m1) = drawn(m);
            Some((m1, CritterRecord { dir: -1i16, countdown: ((r & 7u32) as i32 + 8) as i32, ..c0 }))
        } else {
            let (a, m1) = drawn(m);
            let (g, m2) = drawn(m1);
            let (dir, m3) = if g & 3u32 == 0 {
                let (r, mm) = drawn(m2);
                ((r & 3u32) as i32, mm)
            } else {
                (wander_toward_s(m2, c0), m2)
            };
            Some(
                (
                    m3,
                    CritterRecord {
                        countdown: ((a & 0xFu32) as i32 + 0xA) as i32,
                        dir: dir as i16,
                        frame: dir as u16,
                        ..c0
                    },
                ),
            )
        }
    }
}

/// Wanderer substeps `k..n`.
pub open spec fn wander_substeps(m: MissionView, c: CritterRecord, k: nat, n: nat) -> Option<(MissionView, CritterRecord)>
    decreases n - k,
{
    if k >= n {
        Some((m, c))
    } else {
        match wander_sub_s(m, c) {
            None => None,
            Some((m1, c1)) => wander_substeps(m1, c1, k + 1, n),
        }
    }
}

/// One frame of the wanderer at `idx`: with an alive robot within 0x30
/// pixels it blows up (absent, see [`wander_blast`]) and does nothing
/// else; otherwise as many substeps as its species word (see
/// [`wander_sub_s`]). `None` on overflow or a position beyond `±2^23`
/// pixels.
pub open spec fn wander_s(m: MissionView, idx: int) -> Option<MissionView> {
    let c = m.critters[idx];
    if !px_ok(c) {
        None
    } else if nearest_px(m.robots, c.x, c.y).1 < 0x30 {
        match wander_blast(m, c.x, c.y, c.z, 0) {
            None => None,
            Some(m1) => Some(
                MissionView { critters: m.critters.update(idx, CritterRecord { presence: false, ..c }), ..m1 },
            ),
        }
    } else {
        match wander_substeps(m, c, 0, c.species as nat) {
            None => None,
            Some((m1, c1)) => Some(MissionView { critters: m.critters.update(idx, c1), ..m1 }),
        }
    }
}

impl MissionSim {
    /// The wanderer's blast (see [`wander_blast`]).
    fn wander_blast_exec(&mut self, x: i32, y: i32, z: i32)
        requires
            old(self).wf(),
            wander_blast(old(self)@, x, y, z, 0) is Some,
        ensures
            final(self).wf(),
            final(self)@ == wander_blast(old(self)@, x, y, z, 0).unwrap(),
            final(self)@.critters == old(self)@.critters,
    {
        let ghost m0 = self@;
        let mut i: i32 = 0;
        while i < 8
            invariant
                self.wf(),
                0 <= i <= 8,
                self@.critters == m0.critters,
                wander_blast(self@, x, y, z, i as nat) == wander_blast(m0, x, y, z, 0),
                wander_blast(m0, x, y, z, 0) is Some,
            decreases 8 - i,
        {
            let a = self.draw();
            let b = self.draw();
            let d = self.draw();
            proof {
                crate::impact::lemma_draw_masks(a);
                crate::impact::lemma_draw_masks(b);
                crate::impact::lemma_draw_masks(d);
                crate::impact::lemma_debris_step_fits(
                    self@,
                    x + (d & 0x3Fu32) as int - 0x1F,
                    y + (b & 0x3Fu32) as int - 0x1F,
                    z + (a & 0xFu32) as int,
                    1,
                    (i / 2) as int,
                    -1i32,
                );
            }
            let jz = z + (a & 0xF) as i32;
            let jy = y + ((b & 0x3F) as i32 - 0x1F);
            let jx = x + ((d & 0x3F) as i32 - 0x1F);
            self.debris_step_exec(jx, jy, jz, 1, i / 2, -1);
            proof {
                lemma_sim_view(self);
            }
            let p1 = self.bounded_pick(3);
            let p2 = self.bounded_pick(3);
            proof {
                lemma_px_range(x);
                lemma_px_range(y);
                lemma_px_range(z);
            }
            let sy = p1 + (y >> 5u32) - 1;
            let sx = p2 + (x >> 5u32) - 1;
            let sz = (z >> 5u32) + 1;
            self.splash_step_exec(sx, sy, sz, (i / 2) as u16);
            i = i + 1;
        }
    }

    /// The wanderer's wall probe (see [`wander_probe_s`]).
    fn wander_probe(&mut self, x: i32, y: i32, z: i32) -> (ok: bool)
        requires
            old(self).wf(),
            wander_probe_s(old(self)@, x, y, z, 0) is Some,
        ensures
            final(self).wf(),
            (ok, final(self)@) == wander_probe_s(old(self)@, x, y, z, 0).unwrap(),
            final(self)@.critters == old(self)@.critters,
    {
        let ghost m0 = self@;
        let xs: [i32; 8] = [-11, -11, 12, 12, 0, 0, -11, 12];
        let ys: [i32; 8] = [-11, 12, -11, 12, -11, 12, 0, 0];
        let mut k: usize = 0;
        while k < 8
            invariant
                self.wf(),
                k <= 8,
                forall|j: int| 0 <= j < 8 ==> (#[trigger] xs@[j], ys@[j]) == wander_sample(j),
                self@.critters == m0.critters,
                m0 == old(self)@,
                wander_probe_s(self@, x, y, z, k as nat) == wander_probe_s(m0, x, y, z, 0),
                wander_probe_s(m0, x, y, z, 0) is Some,
            decreases 8 - k,
        {
            proof {
                lemma_sim_view(self);
                lemma_sim_wf(self);
            }
            assert((xs@[k as int], ys@[k as int]) == wander_sample(k as int));
            let sx = x + xs[k];
            let sy = y + ys[k];
            let (w, h) = self.terrain.size();
            if sx < 0 || sy < 0 || sx >> 5u32 >= w || sy >> 5u32 >= h {
                assert(wander_probe_s(self@, x, y, z, k as nat) == Some((false, self@)));
                return false;
            }
            let ghost mk = self@;
            let f = self.probe_floor(sx, sy, z);
            proof {
                lemma_sim_view(self);
                lemma_sim_wf(self);
            }
            if f != z {
                return false;
            }
            let t = match self.terrain.raw_dat_byte(sx >> 5u32, sy >> 5u32, z >> 5u32) {
                Some(b) => b,
                None => 0,
            };
            if t > 3 {
                assert(wander_probe_s(mk, x, y, z, k as nat) == Some((false, self@)));
                return false;
            }
            k = k + 1;
        }
        true
    }

    /// The wanderer's death (see [`wander_die_s`]).
    fn wander_die(&mut self, c: CritterRecord) -> (r: CritterRecord)
        requires
            old(self).wf(),
            wander_die_s(old(self)@, c) is Some,
        ensures
            final(self).wf(),
            (final(self)@, r) == wander_die_s(old(self)@, c).unwrap(),
            final(self)@.critters == old(self)@.critters,
    {
        proof {
            lemma_sim_view(self);
        }
        let mut c1 = c;
        c1.mode = 7;
        c1.presence = false;
        let (w, h) = self.terrain.size();
        if 0 <= c.x && c.x < w && 0 <= c.y && c.y < h && 0 <= c.z && c.z < 8 {
            self.debris_step_exec(c.x, c.y, 0xFF, 1, 0, -1);
        }
        c1
    }

    /// The re-pick (see [`wander_repick`]).
    fn wander_repick_exec(&mut self, c: CritterRecord) -> (r: CritterRecord)
        requires
            old(self).wf(),
        ensures
            final(self).wf(),
            (final(self)@, r) == wander_repick(old(self)@, c),
            final(self)@.critters == old(self)@.critters,
    {
        let r = self.draw();
        proof {
            crate::impact::lemma_draw_masks(r);
        }
        let mut c1 = c;
        c1.dir = -1;
        c1.countdown = (r & 0xF) as i32 + 0xC;
        c1
    }

    /// One wander step (see [`wander_step_s`]).
    #[verifier::rlimit(30)]
    fn wander_step(&mut self, c: CritterRecord, dir: i32) -> (r: CritterRecord)
        requires
            old(self).wf(),
            wander_step_s(old(self)@, c, dir) is Some,
        ensures
            final(self).wf(),
            (final(self)@, r) == wander_step_s(old(self)@, c, dir).unwrap(),
            final(self)@.critters == old(self)@.critters,
    {
        proof {
            lemma_sim_view(self);
        }
        let (w, h) = self.terrain.size();
        let c1 = if !(0 <= c.z && c.z < 0x100) {
            self.wander_die(c)
        } else {
            c
        };
        let dx: i32 = if dir == 1 {
            6
        } else if dir == 3 {
            -6
        } else {
            0
        };
        let dy: i32 = if dir == 0 {
            -6
        } else if dir == 2 {
            6
        } else {
            0
        };
        let nx = c.x + dx;
        let ny = c.y + dy;
        let horiz = dir == 1 || dir == 3;
        let inb = if horiz {
            0 <= nx && nx < w * 0x20
        } else {
            0 <= ny && ny < h * 0x20
        };
        if !inb {
            let mut c2 = self.wander_repick_exec(c1);
            c2.z = c.z_restore;
            return c2;
        }
        if self.wander_probe(nx, ny, c.z_restore) {
            let mut c2 = c1;
            if horiz {
                c2.x = nx;
            } else {
                c2.y = ny;
            }
            c2
        } else {
            self.wander_repick_exec(c1)
        }
    }

    /// The direction toward the nearest robot (see [`wander_toward_s`]).
    fn toward_dir(&self, c: CritterRecord) -> (d: i32)
        requires
            px_ok(c),
        ensures
            d == wander_toward_s(self@, c),
    {
        proof {
            lemma_sim_view(self);
        }
        let mut best: (i32, i32, i32) = (0, 0, 0x989680);
        let mut i: usize = 0;
        while i < self.robots.len()
            invariant
                i <= self@.robots.len(),
                self.robots@ == self@.robots,
                px_ok(c),
                -0x800000 <= best.0 < 0x800000,
                -0x800000 <= best.1 < 0x800000,
                toward_from(self@.robots, c.x, c.y, i as nat, best) == toward_from(
                    self@.robots,
                    c.x,
                    c.y,
                    0,
                    (0i32, 0i32, 0x989680i32),
                ),
            decreases self@.robots.len() - i,
        {
            let r = self.robots[i];
            if r.alive {
                proof {
                    lemma_px_range(r.pos_x);
                    lemma_px_range(r.pos_y);
                }
                let rx = r.pos_x >> 8u32;
                let ry = r.pos_y >> 8u32;
                let d = dist_octagonal(rx - c.x, ry - c.y);
                if d < best.2 {
                    best = (rx, ry, d);
                }
            }
            i = i + 1;
        }
        let dx = if c.x - best.0 < 0 {
            best.0 - c.x
        } else {
            c.x - best.0
        };
        let dy = if c.y - best.1 < 0 {
            best.1 - c.y
        } else {
            c.y - best.1
        };
        if c.y >= best.1 && dx <= dy {
            0
        } else if c.y <= best.1 && dx <= dy {
            2
        } else if c.x > best.0 {
            3
        } else {
            1
        }
    }

    /// The direction from the wanderer at `idx` toward the nearest alive
    /// robot (see [`wander_toward_s`]).
    pub fn wander_toward(&self, idx: usize) -> (d: i32)
        requires
            idx < self@.critters.len(),
            px_ok(self@.critters[idx as int]),
        ensures
            d == wander_toward_s(self@, self@.critters[idx as int]),
    {
        proof {
            lemma_sim_view(self);
        }
        self.toward_dir(self.critters[idx])
    }

    /// One wanderer substep (see [`wander_sub_s`]).
    #[verifier::rlimit(30)]
    fn wander_substep(&mut self, c: CritterRecord) -> (r: CritterRecord)
        requires
            old(self).wf(),
            wander_sub_s(old(self)@, c) is Some,
        ensures
            final(self).wf(),
            (final(self)@, r) == wander_sub_s(old(self)@, c).unwrap(),
            final(self)@.critters == old(self)@.critters,
    {
        let mut c0 = c;
        c0.countdown = c.countdown - 1;
        if c0.countdown > 0 {
            if c0.dir < 0 {
                c0.countdown = 1;
                c0.z = c0.z_restore;
                c0
            } else {
                self.wander_step(c0, c0.dir as i32)
            }
        } else if c0.dir >= 0 {
            let r = self.draw();
            proof {
                crate::impact::lemma_draw_masks(r);
            }
            c0.dir = -1;
            c0.countdown = (r & 7) as i32 + 8;
            c0
        } else {
            let a = self.draw();
            let g = self.draw();
            proof {
                crate::impact::lemma_draw_masks(a);
            }
            let dir: i32 = if g & 3 == 0 {
                let r = self.draw();
                proof {
                    crate::impact::lemma_draw_masks(r);
                }
                (r & 3) as i32
            } else {
                self.toward_dir(c0)
            };
            c0.countdown = (a & 0xF) as i32 + 0xA;
            c0.dir = dir as i16;
            c0.frame = dir as u16;
            c0
        }
    }

    /// One frame of the wanderer at `idx` (see [`wander_s`]).
    pub fn critter_wander(&mut self, idx: usize)
        requires
            old(self).wf(),
            idx < old(self)@.critters.len(),
            wander_s(old(self)@, idx as int) is Some,
        ensures
            final(self).wf(),
            final(self)@ == wander_s(old(self)@, idx as int).unwrap(),
    {
        proof {
            lemma_sim_view(self);
        }
        let ghost m0 = self@;
        let mut c = self.critters[idx];
        let (_, dist) = self.nearest_robot_px(c.x, c.y);
        if dist < 0x30 {
            self.wander_blast_exec(c.x, c.y, c.z);
            c.presence = false;
        } else {
            let n = c.species;
            let mut k: u16 = 0;
            while k < n
                invariant
                    self.wf(),
                    k <= n,
                    idx < m0.critters.len(),
                    n == m0.critters[idx as int].species,
                    self@.critters == m0.critters,
                    wander_substeps(self@, c, k as nat, n as nat) == wander_substeps(
                        m0,
                        m0.critters[idx as int],
                        0,
                        n as nat,
                    ),
                    wander_substeps(m0, m0.critters[idx as int], 0, n as nat) is Some,
                decreases n - k,
            {
                c = self.wander_substep(c);
                k = k + 1;
            }
        }
        proof {
            lemma_sim_view(self);
            lemma_sim_wf(self);
        }
        self.critters.set(idx, c);
        proof {
            lemma_sim_view(self);
            lemma_sim_wf(self);
        }
    }
}

/// The respawn delay of the dormant kinds at a difficulty: 1500, 900,
/// then 600 frames from difficulty 2 on.
pub open spec fn respawn_delay(difficulty: u32) -> i32 {
    if difficulty == 0 {
        1500
    } else if difficulty == 1 {
        900
    } else {
        600
    }
}

/// One critter's turn of the controller: an absent critter is skipped; a
/// present one has its hit flash counted down, then runs the body of its
/// kind (see [`wander_s`], [`shooter_s`], [`chaser_s`], [`state4_s`],
/// [`mixed_s`] and [`closecombat_s`]). `None` on overflow.
pub open spec fn critter_turn(m: MissionView, idx: int, respawn: i32, leash: i32) -> Option<MissionView> {
    let c = m.critters[idx];
    if !c.presence {
        Some(m)
    } else {
        let c1 = CritterRecord {
            fuse: if c.fuse != 0 {
                (c.fuse - 1) as u16
            } else {
                0
            },
            ..c
        };
        let m1 = MissionView { critters: m.critters.update(idx, c1), ..m };
        if c1.kind == 1 {
            wander_s(m1, idx)
        } else if c1.kind == 2 {
            shooter_s(m1, idx)
        } else if c1.kind == 3 {
            chaser_s(m1, idx, respawn)
        } else if c1.kind == 4 {
            state4_s(m1, idx, respawn)
        } else if c1.kind == 5 || c1.kind == 6 {
            mixed_s(m1, idx, respawn, leash)
        } else if c1.kind == 7 {
            closecombat_s(m1, idx)
        } else {
            Some(m1)
        }
    }
}

/// The controller over critters `i..n`, in bank order.
pub open spec fn critters_from(m: MissionView, i: nat, n: nat, respawn: i32, leash: i32) -> Option<MissionView>
    decreases n - i,
{
    if i >= n {
        Some(m)
    } else {
        match critter_turn(m, i as int, respawn, leash) {
            None => None,
            Some(m1) => critters_from(m1, i + 1, n, respawn, leash),
        }
    }
}

/// The critter controller over the whole bank, with the respawn delay and
/// the engage leash of the difficulty. `None` on overflow.
pub open spec fn critters_ticked(m: MissionView) -> Option<MissionView> {
    match leash_of(m.difficulty) {
        None => None,
        Some(leash) => critters_from(m, 0, m.critters.len(), respawn_delay(m.difficulty), leash),
    }
}

/// A controller turn keeps the bank's length.
proof fn lemma_turn_len(m: MissionView, idx: int, respawn: i32, leash: i32)
    requires
        0 <= idx < m.critters.len(),
        critter_turn(m, idx, respawn, leash) is Some,
    ensures
        critter_turn(m, idx, respawn, leash).unwrap().critters.len() == m.critters.len(),
{
}

impl MissionSim {
    /// One critter's turn (see [`critter_turn`]).
    fn critter_turn_exec(&mut self, idx: usize, respawn: i32, leash: i32)
        requires
            old(self).wf(),
            idx < old(self)@.critters.len(),
            critter_turn(old(self)@, idx as int, respawn, leash) is Some,
        ensures
            final(self).wf(),
            final(self)@ == critter_turn(old(self)@, idx as int, respawn, leash).unwrap(),
    {
        proof {
            lemma_sim_view(self);
            lemma_sim_wf(self);
        }
        if !self.critters[idx].presence {
            return;
        }
        let mut c = self.critters[idx];
        if c.fuse != 0 {
            c.fuse = c.fuse - 1;
        }
        self.critters.set(idx, c);
        proof {
            lemma_sim_view(self);
            lemma_sim_wf(self);
        }
        if c.kind == 1 {
            self.critter_wander(idx);
        } else if c.kind == 2 {
            self.critter_shooter(idx);
        } else if c.kind == 3 {
            self.critter_chaser(idx, respawn);
        } else if c.kind == 4 {
            self.critter_state4(idx, respawn);
        } else if c.kind == 5 || c.kind == 6 {
            self.critter_mixed(idx, respawn, leash);
        } else if c.kind == 7 {
            self.critter_closecombat(idx);
        }
    }

    /// The critter controller (see [`critters_ticked`]): every present
    /// critter, in bank order, counts down its hit flash and runs the body
    /// of its kind.
    pub fn critter_tick(&mut self)
        requires
            old(self).wf(),
            critters_ticked(old(self)@) is Some,
        ensures
            final(self).wf(),
            final(self)@ == critters_ticked(old(self)@).unwrap(),
    {
        proof {
            lemma_sim_view(self);
        }
        let respawn: i32 = if self.difficulty == 0 {
            1500
        } else if self.difficulty == 1 {
            900
        } else {
            600
        };
        let ghost m0 = self@;
        let d = self.difficulty as i32;
        let leash = (d + 1) * 0x40 + 0x258;
        let n = self.critters.len();
        let mut idx: usize = 0;
        while idx < n
            invariant
                self.wf(),
                idx <= n,
                n == self@.critters.len(),
                respawn == respawn_delay(m0.difficulty),
                leash_of(m0.difficulty) == Some(leash),
                critters_from(self@, idx as nat, n as nat, respawn, leash) == critters_ticked(m0),
                critters_ticked(m0) is Some,
            decreases n - idx,
        {
            proof {
                lemma_turn_len(self@, idx as int, respawn, leash);
            }
            self.critter_turn_exec(idx, respawn, leash);
            idx = idx + 1;
        }
    }
}

/// The critter controller never adds or removes critters: the bank keeps
/// its length.
pub proof fn lemma_controller_keeps_bank(m: MissionView)
    requires
        critters_ticked(m) is Some,
    ensures
        critters_ticked(m).unwrap().critters.len() == m.critters.len(),
{
    let leash = leash_of(m.difficulty).unwrap();
    lemma_critters_from_len(m, 0, m.critters.len(), respawn_delay(m.difficulty), leash);
}

/// Induction for [`lemma_controller_keeps_bank`].
proof fn lemma_critters_from_len(m: MissionView, i: nat, n: nat, respawn: i32, leash: i32)
    requires
        n == m.critters.len(),
        critters_from(m, i, n, respawn, leash) is Some,
    ensures
        critters_from(m, i, n, respawn, leash).unwrap().critters.len() == n,
    decreases n - i,
{
    if i < n {
        lemma_turn_len(m, i as int, respawn, leash);
        let m1 = critter_turn(m, i as int, respawn, leash).unwrap();
        lemma_critters_from_len(m1, i + 1, n, respawn, leash);
    }
}

/// An absent critter takes no turn: the controller leaves the whole
/// simulation as it is for it.
pub proof fn lemma_absent_critter_untouched(m: MissionView, idx: int, respawn: i32, leash: i32)
    requires
        0 <= idx < m.critters.len(),
        !m.critters[idx].presence,
    ensures
        critter_turn(m, idx, respawn, leash) == Some(m),
{
}

/// The walk gate draws nothing and leaves the critter bank.
proof fn lemma_gate_draw_free(m: MissionView, c: CritterRecord, dx: i32, dy: i32)
    requires
        walk_gate_s(m, c, dx, dy) is Some,
    ensures
        walk_gate_s(m, c, dx, dy).unwrap().1.rng == m.rng,
{
}

/// A wall-follow try draws nothing.
proof fn lemma_try_draw_free(m: MissionView, c: CritterRecord, dx: i32, dy: i32, sector: Option<u16>)
    requires
        try_axis_s(m, c, dx, dy, sector) is Some,
    ensures
        try_axis_s(m, c, dx, dy, sector).unwrap().1.rng == m.rng,
{
    lemma_gate_draw_free(m, c, dx, dy);
}

/// The wall-follow draws nothing.
proof fn lemma_follow_draw_free(m: MissionView, c: CritterRecord, h: i32, dy: i32)
    requires
        follow_s(m, c, h, dy) is Some,
    ensures
        follow_s(m, c, h, dy).unwrap().0.rng == m.rng,
{
    match follow_moves(c.seek_sector, h, dy) {
        None => {},
        Some((k, p1, p2)) => {
            lemma_try_draw_free(m, c, k.0, k.1, None);
            let (ok, m1, c1) = try_axis_s(m, c, k.0, k.1, None).unwrap();
            if !ok {
                lemma_try_draw_free(m1, c1, p1.0, p1.1, Some(p1.2));
                let (ok2, m2, c2) = try_axis_s(m1, c1, p1.0, p1.1, Some(p1.2)).unwrap();
                if !ok2 {
                    lemma_try_draw_free(m2, c2, p2.0, p2.1, Some(p2.2));
                }
            }
        },
    }
}

/// A chaser's walk step draws nothing from the mission stream.
proof fn lemma_chaser_step_draw_free(m: MissionView, c: CritterRecord)
    requires
        chaser_step_s(m, c) is Some,
    ensures
        chaser_step_s(m, c).unwrap().0.rng == m.rng,
{
    let h = c.heading & 0xFF;
    match sine_pair(m.angles, h) {
        None => {},
        Some((cw, sw)) => {
            let dx = cw >> 5u32;
            let dy = sw >> 5u32;
            lemma_gate_draw_free(m, c, dx, dy);
            let (ok, m1) = walk_gate_s(m, c, dx, dy).unwrap();
            if !ok {
                lemma_follow_draw_free(m1, c, h, dy);
            }
        },
    }
}

/// A chaser's frame draws nothing from the mission stream, whatever its
/// mode: the target check, the dormant and dying counts, the ladder, the
/// walks and the attack are all free of draws.
pub proof fn lemma_chaser_draw_free(m: MissionView, idx: int, respawn: i32)
    requires
        0 <= idx < m.critters.len(),
        chaser_s(m, idx, respawn) is Some,
    ensures
        chaser_s(m, idx, respawn).unwrap().rng == m.rng,
{
    reveal(chaser_body_s);
    let c = target_checked(m, m.critters[idx]);
    if c.mode != 0xB && c.mode != 7 {
        let c1 = ladder_s(m, c).unwrap();
        if c1.mode == 3 || c1.mode == 0xA {
            let aim = if c1.mode == 3 {
                aim_robot_s(m, c1)
            } else {
                aim_home_s(m, c1)
            };
            let c2 = if c1.countdown == 0 {
                CritterRecord { countdown: 9, heading: aim.unwrap(), ..c1 }
            } else {
                c1
            };
            if walk_pattern(clamp09(c2.countdown)) {
                lemma_chaser_step_draw_free(m, c2);
            }
        }
    }
}

/// A close-combat substep of a beamer that is not falling draws nothing
/// and leaves it not falling.
proof fn lemma_cc_substep_draw_free(m: MissionView, c: CritterRecord, idx: int)
    requires
        c.mode != 6,
        cc_substep_s(m, c, idx) is Some,
    ensures
        cc_substep_s(m, c, idx).unwrap().0.rng == m.rng,
        cc_substep_s(m, c, idx).unwrap().1.mode != 6,
{
}

/// Induction over the substeps for [`lemma_closecombat_draw_free`].
proof fn lemma_cc_substeps_draw_free(m: MissionView, c: CritterRecord, idx: int, k: nat, n: nat)
    requires
        c.mode != 6,
        cc_substeps(m, c, idx, k, n) is Some,
    ensures
        cc_substeps(m, c, idx, k, n).unwrap().0.rng == m.rng,
    decreases n - k,
{
    if k < n {
        lemma_cc_substep_draw_free(m, c, idx);
        let (m1, c1) = cc_substep_s(m, c, idx).unwrap();
        lemma_cc_substeps_draw_free(m1, c1, idx, k + 1, n);
    }
}

/// A close-combat beamer that is not falling (mode 6) draws nothing from
/// the mission stream in a frame: its scan, drift, dying count, steering,
/// move and beam are free of draws. Only the landing of a fall draws.
pub proof fn lemma_closecombat_draw_free(m: MissionView, idx: int)
    requires
        0 <= idx < m.critters.len(),
        m.critters[idx].mode != 6,
        closecombat_s(m, idx) is Some,
    ensures
        closecombat_s(m, idx).unwrap().rng == m.rng,
{
    let c = m.critters[idx];
    lemma_cc_substeps_draw_free(m, c, idx, 0, c.species as nat);
}

} // verus!
