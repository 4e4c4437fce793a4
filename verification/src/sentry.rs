//! The pop-up sentry guns of the terrain-structure bank: the loader's
//! stamp, the per-frame animation that opens a gun when a robot comes
//! near, turns it toward the robot and fires bolts down its lane, and
//! the mirror word each frame of the animation shows.
use vstd::prelude::*;

use crate::brain::{abs_int, free_slot_from, EnemyProjectile};
use crate::destroy::TerrainStructure;
use crate::mission::{fits32, journaled, lemma_sim_view, lemma_sim_wf, MissionSim, MissionView, Robot};
use crate::terrain::{cell_of, in_volume, TerrainView};

verus! {

/// A projectile staged into the first free slot of the enemy bank; a
/// full bank drops it.
pub open spec fn projectile_staged(m: MissionView, p: EnemyProjectile) -> MissionView {
    match free_slot_from(m.enemy_bank, 0) {
        None => m,
        Some(k) => MissionView { enemy_bank: m.enemy_bank.update(k, p), ..m },
    }
}

/// The mirror cell of gun `i` shows frame `frame`: its word becomes
/// `frame + 1` (its seen byte kept), when the gun's tile and level lie
/// inside the map and the cell inside the mirror bank. `None` when
/// `frame + 1` overflows.
pub open spec fn sentry_word_s(m: MissionView, i: int, frame: i32) -> Option<MissionView> {
    let s = m.structures[i];
    let w = m.terrain.width;
    let h = m.terrain.height;
    if !(0 <= s.x < w && 0 <= s.y < h && 0 <= s.z < 8) {
        Some(m)
    } else {
        let cell = (s.y * w + s.x) * 8 + s.z;
        if cell >= m.mirror_words.len() {
            Some(m)
        } else if !fits32(frame + 1) {
            None
        } else {
            let word = ((frame + 1) as i32) as u16;
            let seen = m.mirror_seen[cell];
            Some(
                MissionView {
                    mirror_words: m.mirror_words.update(cell, word),
                    mirror_seen: m.mirror_seen.update(cell, seen),
                    terrain_writes: journaled(m.terrain_writes, (cell as usize, word, seen)),
                    ..m
                },
            )
        }
    }
}

/// A raw plane byte written at a cell inside the volume; outside it the
/// terrain stays.
pub open spec fn dat_written(t: TerrainView, x: i32, y: i32, z: i32, b: u8) -> TerrainView {
    if in_volume(t, x as int, y as int, z as int) {
        TerrainView { dat: t.dat.update(cell_of(t, x as int, y as int, z as int), b), ..t }
    } else {
        t
    }
}

/// The stamp of guns `i..n`: each active gun writes byte 0x66 at its cell
/// and shows its frame (see [`sentry_word_s`]).
pub open spec fn stamped_from(m: MissionView, i: nat, n: nat) -> Option<MissionView>
    decreases n - i,
{
    if i >= n {
        Some(m)
    } else {
        let s = m.structures[i as int];
        if !s.active {
            stamped_from(m, i + 1, n)
        } else {
            let m1 = MissionView { terrain: dat_written(m.terrain, s.x, s.y, s.z, 0x66), ..m };
            match sentry_word_s(m1, i as int, s.frame) {
                None => None,
                Some(m2) => stamped_from(m2, i + 1, n),
            }
        }
    }
}

/// The nearest alive robot to a gun's pixel position `(x, y)`, from robot
/// `i` on, given the best so far: `(distance, dx, dy)` with the deltas
/// from the robot's pixel position to the gun and the octagonal distance
/// `max(|dx|, |dy|) + min(|dx|, |dy|) / 2`; the first of equals kept.
/// `None` when a delta or a distance overflows.
pub open spec fn gun_near_from(rs: Seq<Robot>, x: i32, y: i32, i: nat, best: Option<(i32, i32, i32)>) -> Option<
    Option<(i32, i32, i32)>,
>
    decreases rs.len() - i,
{
    if i >= rs.len() {
        Some(best)
    } else {
        let r = rs[i as int];
        if !r.alive {
            gun_near_from(rs, x, y, i + 1, best)
        } else {
            let dx = x - (r.pos_x >> 8u32);
            let dy = y - (r.pos_y >> 8u32);
            if !fits32(dx) || !fits32(dy) || dx == i32::MIN || dy == i32::MIN {
                None
            } else {
                let ax = abs_int(dx);
                let ay = abs_int(dy);
                let k = if ax >= ay {
                    ax + ay / 2
                } else {
                    ay + ax / 2
                };
                if !fits32(k) {
                    None
                } else {
                    let cand = (k as i32, dx as i32, dy as i32);
                    gun_near_from(
                        rs,
                        x,
                        y,
                        i + 1,
                        match best {
                            None => Some(cand),
                            Some(b) => if k < b.0 {
                                Some(cand)
                            } else {
                                best
                            },
                        },
                    )
                }
            }
        }
    }
}

/// The gun's state after its look around: with a robot within 129, a
/// closed gun (1) starts opening (2) and an aiming gun (5 to 8) turns to
/// the robot's dominant axis (down 5, up 6, right 8, left 7 as seen from
/// the robot); with none, a gun neither closed nor closing from the top
/// (4) closes: from the fully open frame 7 straight down (4), else by the
/// turning path (3).
pub open spec fn gun_aimed(s: TerrainStructure, near: Option<(i32, i32, i32)>) -> TerrainStructure {
    if near is Some && near.unwrap().0 < 129 {
        let dx = near.unwrap().1;
        let dy = near.unwrap().2;
        if s.state == 1 {
            TerrainStructure { state: 2, ..s }
        } else if 5 <= s.state < 9 {
            TerrainStructure {
                state: if abs_int(dx as int) >= abs_int(dy as int) {
                    if dx >= 0 {
                        8
                    } else {
                        7
                    }
                } else if dy >= 0 {
                    5
                } else {
                    6
                },
                ..s
            }
        } else {
            s
        }
    } else if s.state != 1 && s.state != 4 {
        TerrainStructure {
            state: if s.frame == 7 {
                4
            } else {
                3
            },
            ..s
        }
    } else {
        s
    }
}

/// Whether robot `r` stands in the lane of gun `s` (aiming state 5 to 8)
/// at pixel `(x, y)`: its level `(z >> 8) + 31` within one 32-step band
/// of the gun's, and within 40 across the lane on the side the gun faces.
/// `None` when a difference overflows.
pub open spec fn in_lane(r: Robot, s: TerrainStructure, x: i32, y: i32) -> Option<bool> {
    let a = s.z - ((r.z >> 8u32) + 31);
    let rx = r.pos_x >> 8u32;
    let ry = r.pos_y >> 8u32;
    if !fits32(a) {
        None
    } else if !(-2 < ((a as i32) >> 5u32) < 2) {
        Some(false)
    } else if s.state == 5 || s.state == 6 {
        let d = x - rx;
        if !fits32(d) || d == i32::MIN {
            None
        } else {
            Some(abs_int(d) < 40 && (if s.state == 5 {
                ry < y
            } else {
                ry > y
            }))
        }
    } else if s.state == 7 || s.state == 8 {
        let d = y - ry;
        if !fits32(d) || d == i32::MIN {
            None
        } else {
            Some(abs_int(d) < 40 && (if s.state == 7 {
                rx > x
            } else {
                rx < x
            }))
        }
    } else {
        Some(false)
    }
}

/// Whether some robot from `i` on stands in the lane (see [`in_lane`]),
/// the first one in the lane ending the search.
pub open spec fn lane_from(rs: Seq<Robot>, s: TerrainStructure, x: i32, y: i32, i: nat) -> Option<bool>
    decreases rs.len() - i,
{
    if i >= rs.len() {
        Some(false)
    } else {
        match in_lane(rs[i as int], s, x, y) {
            None => None,
            Some(true) => Some(true),
            Some(false) => lane_from(rs, s, x, y, i + 1),
        }
    }
}

/// The gun's pixel position: the center of its tile.
pub open spec fn gun_px(s: TerrainStructure) -> Option<(i32, i32)> {
    if !fits32(s.x * 32 + 16) || !fits32(s.y * 32 + 16) || !fits32(s.x * 32) || !fits32(s.y * 32) {
        None
    } else {
        Some(((s.x * 32 + 16) as i32, (s.y * 32 + 16) as i32))
    }
}

/// The bolt of gun `s`: kind 0x66 at the tile's Q13 corner plus 0xF00, at
/// the Q13 height of its level, flying 255 per step along its lane and
/// climbing 20.
pub open spec fn gun_bolt(s: TerrainStructure) -> EnemyProjectile {
    let (vx, vy): (i32, i32) = if s.state == 5 {
        (0, -255i32)
    } else if s.state == 6 {
        (0, 255)
    } else if s.state == 7 {
        (255, 0)
    } else {
        (-255i32, 0)
    };
    EnemyProjectile {
        kind: 0x66,
        x: (s.x * 8192 + 0xF00) as i32,
        y: (s.y * 8192 + 0xF00) as i32,
        z: ((s.z as u32) << 13u32) as i32,
        vx,
        vy,
        vz: 20,
    }
}

/// The shot of gun `i` on its aim frame: with no robot in the lane the
/// fire counter clears and the gun shows its frame; with one, an odd
/// counter sends a bolt (see [`gun_bolt`]) into the enemy bank, and a
/// zero counter starts counting at 1. `None` on overflow.
pub open spec fn gun_fire_s(m: MissionView, i: int) -> Option<MissionView> {
    let s = m.structures[i];
    match gun_px(s) {
        None => None,
        Some((x, y)) => match lane_from(m.robots, s, x, y, 0) {
            None => None,
            Some(lane) => {
                let m1: Option<MissionView> = if !lane {
                    sentry_word_s(
                        MissionView { structures: m.structures.update(i, TerrainStructure { fire_counter: 0, ..s }), ..m },
                        i,
                        s.frame,
                    )
                } else if s.fire_counter & 1i32 != 0 {
                    if !fits32(s.x * 8192) || !fits32(s.y * 8192) || !fits32(s.x * 8192 + 0xF00) || !fits32(
                        s.y * 8192 + 0xF00,
                    ) {
                        None
                    } else {
                        Some(projectile_staged(m, gun_bolt(s)))
                    }
                } else {
                    Some(m)
                };
                match m1 {
                    None => None,
                    Some(m2) => if lane && s.fire_counter == 0 {
                        Some(
                            MissionView {
                                structures: m2.structures.update(
                                    i,
                                    TerrainStructure { fire_counter: 1, ..m2.structures[i] },
                                ),
                                ..m2
                            },
                        )
                    } else {
                        Some(m2)
                    },
                }
            },
        },
    }
}

/// Gun `i` moves to frame `f` (with the turning wrap, 15 to 7 and 6 to
/// 14, when `wrap`) and shows it. `None` on overflow.
pub open spec fn gun_frame_s(m: MissionView, i: int, f: int, wrap: bool) -> Option<MissionView> {
    if !fits32(f) {
        None
    } else {
        let f2: i32 = if wrap && f == 15 {
            7
        } else if wrap && f == 6 {
            14
        } else {
            f as i32
        };
        sentry_word_s(
            MissionView { structures: m.structures.update(i, TerrainStructure { frame: f2, ..m.structures[i] }), ..m },
            i,
            f2,
        )
    }
}

/// Gun `i` takes state `st`.
pub open spec fn gun_state_set(m: MissionView, i: int, st: i32) -> MissionView {
    MissionView { structures: m.structures.update(i, TerrainStructure { state: st, ..m.structures[i] }), ..m }
}

/// The aim frame of aiming state `st` (5 to 8): 11, 7, 9, 13.
pub open spec fn aim_frame(st: i32) -> i32 {
    if st == 5 {
        11
    } else if st == 6 {
        7
    } else if st == 7 {
        9
    } else {
        13
    }
}

/// The firing frame base of aiming state `st` (5 to 8): 0x16, 0xE, 0x12,
/// 0x1A.
pub open spec fn fire_base(st: i32) -> i32 {
    if st == 5 {
        0x16
    } else if st == 6 {
        0xE
    } else if st == 7 {
        0x12
    } else {
        0x1A
    }
}

/// The turning step of an aiming gun toward its aim frame on the
/// 7..=14 ring: +1, -1 or 0.
pub open spec fn gun_delta(st: i32, f: i32) -> i32 {
    if st == 5 && f < 11 {
        1
    } else if st == 5 && f >= 12 {
        -1i32
    } else if st == 6 && f > 7 && f < 12 {
        -1i32
    } else if st == 6 && f > 11 {
        1
    } else if st == 7 && f > 9 && f < 14 {
        -1i32
    } else if st == 7 && (f > 13 || f < 9) {
        1
    } else if st == 8 && f > 8 && f < 13 {
        1
    } else if st == 8 && (f > 13 || f < 9) {
        -1i32
    } else {
        0
    }
}

/// The animation of gun `i` whose looked-around record is `s`: opening
/// (2) counts the frame up to 7, then aims up (6); closing by the turn
/// (3) goes to straight closing (4) below frame 8, turns down from 8..=11
/// and up (wrapping) from 12; closing (4) counts the frame down to 0,
/// closed (1) when it leaves frame 1; aiming (5 to 8) on its aim frame
/// fires (see [`gun_fire_s`]), and with a running fire counter shows the
/// firing frame `counter + base` and counts on (4 back to 1), else turns
/// toward its aim frame (see [`gun_delta`]). `None` on overflow.
pub open spec fn gun_anim_s(m1: MissionView, i: int, s: TerrainStructure) -> Option<MissionView> {
    if s.state == 2 {
        if s.frame < 7 {
            gun_frame_s(m1, i, s.frame + 1, false)
        } else {
            Some(gun_state_set(m1, i, 6))
        }
    } else if s.state == 3 {
        if s.frame < 8 {
            Some(gun_state_set(m1, i, 4))
        } else if s.frame < 12 {
            gun_frame_s(m1, i, s.frame - 1, false)
        } else {
            gun_frame_s(m1, i, s.frame + 1, true)
        }
    } else if s.state == 4 {
        if s.frame > 0 {
            let m2 = if s.frame == 1 {
                gun_state_set(m1, i, 1)
            } else {
                m1
            };
            gun_frame_s(m2, i, s.frame - 1, false)
        } else {
            Some(m1)
        }
    } else if 5 <= s.state <= 8 {
        let desired = aim_frame(s.state);
        let mf = if s.frame == desired {
            gun_fire_s(m1, i)
        } else {
            Some(m1)
        };
        match mf {
            None => None,
            Some(m2) => {
                let counter = m2.structures[i].fire_counter;
                if s.frame == desired && counter != 0 {
                    if !fits32(counter + fire_base(s.state)) || !fits32(counter + 1) {
                        None
                    } else {
                        match sentry_word_s(m2, i, (counter + fire_base(s.state)) as i32) {
                            None => None,
                            Some(m3) => Some(
                                MissionView {
                                    structures: m3.structures.update(
                                        i,
                                        TerrainStructure {
                                            fire_counter: if counter == 4 {
                                                1
                                            } else {
                                                (counter + 1) as i32
                                            },
                                            ..m3.structures[i]
                                        },
                                    ),
                                    ..m3
                                },
                            ),
                        }
                    }
                } else {
                    let d = gun_delta(s.state, s.frame);
                    if d != 0 {
                        gun_frame_s(m2, i, s.frame + d, true)
                    } else {
                        Some(m2)
                    }
                }
            },
        }
    } else {
        Some(m1)
    }
}

/// One gun's frame: an inactive gun is skipped; an active one looks for
/// the nearest alive robot (see [`gun_near_from`]), updates its state
/// (see [`gun_aimed`]) and animates (see [`gun_anim_s`]). `None` on
/// overflow.
pub open spec fn sentry_turn(m: MissionView, i: int) -> Option<MissionView> {
    let s = m.structures[i];
    if !s.active {
        Some(m)
    } else {
        match gun_px(s) {
            None => None,
            Some((x, y)) => match gun_near_from(m.robots, x, y, 0, None) {
                None => None,
                Some(near) => {
                    let s1 = gun_aimed(s, near);
                    gun_anim_s(MissionView { structures: m.structures.update(i, s1), ..m }, i, s1)
                },
            },
        }
    }
}

/// The frames of guns `i..n`, in bank order.
pub open spec fn sentries_from(m: MissionView, i: nat, n: nat) -> Option<MissionView>
    decreases n - i,
{
    if i >= n {
        Some(m)
    } else {
        match sentry_turn(m, i as int) {
            None => None,
            Some(m1) => sentries_from(m1, i + 1, n),
        }
    }
}

/// One frame of every gun (see [`sentry_turn`]). `None` on overflow.
pub open spec fn sentries_ticked(m: MissionView) -> Option<MissionView> {
    sentries_from(m, 0, m.structures.len())
}

impl MissionSim {
    /// Stage a projectile (see [`projectile_staged`]).
    fn stage_projectile(&mut self, p: EnemyProjectile)
        requires
            old(self).wf(),
        ensures
            final(self).wf(),
            final(self)@ == projectile_staged(old(self)@, p),
            final(self)@.structures.len() == old(self)@.structures.len(),
    {
        proof {
            lemma_sim_view(self);
            lemma_sim_wf(self);
        }
        let ghost m0 = self@;
        let mut k: usize = 0;
        while k < self.enemy_bank.len()
            invariant
                k <= self.enemy_bank@.len(),
                self.enemy_bank@ == m0.enemy_bank,
                self@ == m0,
                m0 == old(self)@,
                self.wf(),
                free_slot_from(m0.enemy_bank, k as nat) == free_slot_from(m0.enemy_bank, 0),
            decreases self.enemy_bank@.len() - k,
        {
            proof {
                lemma_sim_view(self);
                lemma_sim_wf(self);
            }
            if self.enemy_bank[k].kind == 0 {
                self.enemy_bank.set(k, p);
                proof {
                    lemma_sim_view(self);
                    lemma_sim_wf(self);
                    assert(self@ =~= MissionView { enemy_bank: m0.enemy_bank.update(k as int, p), ..m0 });
                }
                return;
            }
            k = k + 1;
        }
    }

    /// Show a frame of gun `i` (see [`sentry_word_s`]).
    fn sentry_word(&mut self, i: usize, frame: i32)
        requires
            old(self).wf(),
            i < old(self)@.structures.len(),
            sentry_word_s(old(self)@, i as int, frame) is Some,
        ensures
            final(self).wf(),
            final(self)@ == sentry_word_s(old(self)@, i as int, frame).unwrap(),
            final(self)@.structures.len() == old(self)@.structures.len(),
    {
        proof {
            lemma_sim_view(self);
            lemma_sim_wf(self);
        }
        let s = self.structures[i];
        let (w, h) = self.terrain.size();
        if !(0 <= s.x && s.x < w && 0 <= s.y && s.y < h && 0 <= s.z && s.z < 8) {
            return;
        }
        proof {
            assert(s.y * w + s.x < w * h) by (nonlinear_arith)
                requires
                    0 <= s.x < w,
                    0 <= s.y < h,
            ;
            assert(8 * (w * h) == 8 * w * h) by (nonlinear_arith);
        }
        let cell = ((s.y * w + s.x) * 8 + s.z) as usize;
        if cell < self.mirror_words.len() {
            let seen = self.mirror_seen[cell];
            self.write_mirror_cell(cell, (frame + 1) as u16, seen);
        }
    }

    /// The loader's stamp of the guns (see [`stamped_from`]): each active
    /// gun writes byte 0x66 at its cell and shows its frame.
    pub fn stamp_sentries(&mut self)
        requires
            old(self).wf(),
            stamped_from(old(self)@, 0, old(self)@.structures.len()) is Some,
        ensures
            final(self).wf(),
            final(self)@ == stamped_from(old(self)@, 0, old(self)@.structures.len()).unwrap(),
    {
        proof {
            lemma_sim_view(self);
        }
        let ghost m0 = self@;
        let n = self.structures.len();
        let mut i: usize = 0;
        while i < n
            invariant
                self.wf(),
                i <= n,
                n == self@.structures.len(),
                stamped_from(self@, i as nat, n as nat) == stamped_from(m0, 0, n as nat),
                stamped_from(m0, 0, n as nat) is Some,
            decreases n - i,
        {
            proof {
                lemma_sim_view(self);
                lemma_sim_wf(self);
            }
            let s = self.structures[i];
            if s.active {
                self.terrain.dat_write(s.x, s.y, s.z, 0x66);
                proof {
                    lemma_sim_view(self);
                    lemma_sim_wf(self);
                }
                self.sentry_word(i, s.frame);
            }
            i = i + 1;
        }
    }

    /// The nearest alive robot to a gun (see [`gun_near_from`]).
    fn gun_near(&self, x: i32, y: i32) -> (r: Option<(i32, i32, i32)>)
        requires
            gun_near_from(self@.robots, x, y, 0, None) is Some,
        ensures
            r == gun_near_from(self@.robots, x, y, 0, None).unwrap(),
    {
        proof {
            lemma_sim_view(self);
        }
        let mut best: Option<(i32, i32, i32)> = None;
        let mut i: usize = 0;
        while i < self.robots.len()
            invariant
                i <= self@.robots.len(),
                self.robots@ == self@.robots,
                gun_near_from(self@.robots, x, y, i as nat, best) == gun_near_from(self@.robots, x, y, 0, None),
                gun_near_from(self@.robots, x, y, 0, None) is Some,
            decreases self@.robots.len() - i,
        {
            let r = self.robots[i];
            if r.alive {
                let dx = x - (r.pos_x >> 8u32);
                let dy = y - (r.pos_y >> 8u32);
                let ax = if dx < 0 {
                    -dx
                } else {
                    dx
                };
                let ay = if dy < 0 {
                    -dy
                } else {
                    dy
                };
                let k = if ax >= ay {
                    ax + ay / 2
                } else {
                    ay + ax / 2
                };
                best = match best {
                    None => Some((k, dx, dy)),
                    Some(b) => if k < b.0 {
                        Some((k, dx, dy))
                    } else {
                        best
                    },
                };
            }
            i = i + 1;
        }
        best
    }

    /// Whether a robot stands in the gun's lane (see [`lane_from`]).
    fn gun_lane(&self, s: TerrainStructure, x: i32, y: i32) -> (r: bool)
        requires
            lane_from(self@.robots, s, x, y, 0) is Some,
        ensures
            r == lane_from(self@.robots, s, x, y, 0).unwrap(),
    {
        proof {
            lemma_sim_view(self);
        }
        let mut i: usize = 0;
        while i < self.robots.len()
            invariant
                i <= self@.robots.len(),
                self.robots@ == self@.robots,
                lane_from(self@.robots, s, x, y, i as nat) == lane_from(self@.robots, s, x, y, 0),
                lane_from(self@.robots, s, x, y, 0) is Some,
            decreases self@.robots.len() - i,
        {
            let r = self.robots[i];
            proof {
                crate::brain::lemma_px_range(r.z);
            }
            let a = s.z - ((r.z >> 8u32) + 31);
            let q = a >> 5u32;
            let rx = r.pos_x >> 8u32;
            let ry = r.pos_y >> 8u32;
            if -2 < q && q < 2 {
                if s.state == 5 || s.state == 6 {
                    let d = x - rx;
                    let ad = if d < 0 {
                        -d
                    } else {
                        d
                    };
                    if ad < 40 && (if s.state == 5 {
                        ry < y
                    } else {
                        ry > y
                    }) {
                        return true;
                    }
                } else if s.state == 7 || s.state == 8 {
                    let d = y - ry;
                    let ad = if d < 0 {
                        -d
                    } else {
                        d
                    };
                    if ad < 40 && (if s.state == 7 {
                        rx > x
                    } else {
                        rx < x
                    }) {
                        return true;
                    }
                }
            }
            i = i + 1;
        }
        false
    }

    /// The shot of gun `i` (see [`gun_fire_s`]).
    #[verifier::rlimit(30)]
    fn gun_fire(&mut self, i: usize)
        requires
            old(self).wf(),
            i < old(self)@.structures.len(),
            gun_fire_s(old(self)@, i as int) is Some,
        ensures
            final(self).wf(),
            final(self)@ == gun_fire_s(old(self)@, i as int).unwrap(),
            final(self)@.structures.len() == old(self)@.structures.len(),
    {
        proof {
            lemma_sim_view(self);
            lemma_sim_wf(self);
        }
        let s = self.structures[i];
        let x = s.x * 32 + 16;
        let y = s.y * 32 + 16;
        let lane = self.gun_lane(s, x, y);
        if !lane {
            let mut s0 = s;
            s0.fire_counter = 0;
            self.structures.set(i, s0);
            proof {
                lemma_sim_view(self);
                lemma_sim_wf(self);
            }
            self.sentry_word(i, s.frame);
        } else if s.fire_counter & 1 != 0 {
            let (vx, vy): (i32, i32) = if s.state == 5 {
                (0, -255)
            } else if s.state == 6 {
                (0, 255)
            } else if s.state == 7 {
                (255, 0)
            } else {
                (-255, 0)
            };
            let p = EnemyProjectile {
                kind: 0x66,
                x: s.x * 8192 + 0xF00,
                y: s.y * 8192 + 0xF00,
                z: ((s.z as u32) << 13u32) as i32,
                vx,
                vy,
                vz: 20,
            };
            self.stage_projectile(p);
        }
        proof {
            lemma_sim_view(self);
            lemma_sim_wf(self);
        }
        if lane && s.fire_counter == 0 {
            let mut s1 = self.structures[i];
            s1.fire_counter = 1;
            self.structures.set(i, s1);
            proof {
                lemma_sim_view(self);
                lemma_sim_wf(self);
            }
        }
    }

    /// Gun `i` moves to a frame (see [`gun_frame_s`]).
    fn gun_frame(&mut self, i: usize, f: i32, wrap: bool)
        requires
            old(self).wf(),
            i < old(self)@.structures.len(),
            gun_frame_s(old(self)@, i as int, f as int, wrap) is Some,
        ensures
            final(self).wf(),
            final(self)@ == gun_frame_s(old(self)@, i as int, f as int, wrap).unwrap(),
            final(self)@.structures.len() == old(self)@.structures.len(),
    {
        proof {
            lemma_sim_view(self);
            lemma_sim_wf(self);
        }
        let f2: i32 = if wrap && f == 15 {
            7
        } else if wrap && f == 6 {
            14
        } else {
            f
        };
        let mut s = self.structures[i];
        s.frame = f2;
        self.structures.set(i, s);
        proof {
            lemma_sim_view(self);
            lemma_sim_wf(self);
        }
        self.sentry_word(i, f2);
    }

    /// Gun `i` takes a state (see [`gun_state_set`]).
    fn gun_state(&mut self, i: usize, st: i32)
        requires
            old(self).wf(),
            i < old(self)@.structures.len(),
        ensures
            final(self).wf(),
            final(self)@ == gun_state_set(old(self)@, i as int, st),
            final(self)@.structures.len() == old(self)@.structures.len(),
    {
        proof {
            lemma_sim_view(self);
            lemma_sim_wf(self);
        }
        let mut s = self.structures[i];
        s.state = st;
        self.structures.set(i, s);
        proof {
            lemma_sim_view(self);
            lemma_sim_wf(self);
        }
    }

    /// The animation of gun `i` (see [`gun_anim_s`]).
    #[verifier::rlimit(40)]
    fn gun_anim(&mut self, i: usize, s: TerrainStructure)
        requires
            old(self).wf(),
            i < old(self)@.structures.len(),
            gun_anim_s(old(self)@, i as int, s) is Some,
        ensures
            final(self).wf(),
            final(self)@ == gun_anim_s(old(self)@, i as int, s).unwrap(),
            final(self)@.structures.len() == old(self)@.structures.len(),
    {
        if s.state == 2 {
            if s.frame < 7 {
                self.gun_frame(i, s.frame + 1, false);
            } else {
                self.gun_state(i, 6);
            }
        } else if s.state == 3 {
            if s.frame < 8 {
                self.gun_state(i, 4);
            } else if s.frame < 12 {
                self.gun_frame(i, s.frame - 1, false);
            } else {
                self.gun_frame(i, s.frame + 1, true);
            }
        } else if s.state == 4 {
            if s.frame > 0 {
                if s.frame == 1 {
                    self.gun_state(i, 1);
                }
                self.gun_frame(i, s.frame - 1, false);
            }
        } else if 5 <= s.state && s.state <= 8 {
            let desired: i32 = if s.state == 5 {
                11
            } else if s.state == 6 {
                7
            } else if s.state == 7 {
                9
            } else {
                13
            };
            if s.frame == desired {
                self.gun_fire(i);
            }
            proof {
                lemma_sim_view(self);
            }
            let counter = self.structures[i].fire_counter;
            if s.frame == desired && counter != 0 {
                let base: i32 = if s.state == 5 {
                    0x16
                } else if s.state == 6 {
                    0xE
                } else if s.state == 7 {
                    0x12
                } else {
                    0x1A
                };
                self.sentry_word(i, counter + base);
                proof {
                    lemma_sim_view(self);
                    lemma_sim_wf(self);
                }
                let mut s3 = self.structures[i];
                s3.fire_counter = if counter == 4 {
                    1
                } else {
                    counter + 1
                };
                self.structures.set(i, s3);
                proof {
                    lemma_sim_view(self);
                    lemma_sim_wf(self);
                }
            } else {
                let d: i32 = if s.state == 5 && s.frame < 11 {
                    1
                } else if s.state == 5 && s.frame >= 12 {
                    -1
                } else if s.state == 6 && s.frame > 7 && s.frame < 12 {
                    -1
                } else if s.state == 6 && s.frame > 11 {
                    1
                } else if s.state == 7 && s.frame > 9 && s.frame < 14 {
                    -1
                } else if s.state == 7 && (s.frame > 13 || s.frame < 9) {
                    1
                } else if s.state == 8 && s.frame > 8 && s.frame < 13 {
                    1
                } else if s.state == 8 && (s.frame > 13 || s.frame < 9) {
                    -1
                } else {
                    0
                };
                if d != 0 {
                    self.gun_frame(i, s.frame + d, true);
                }
            }
        }
    }

    /// One gun's frame (see [`sentry_turn`]).
    fn sentry_turn_exec(&mut self, i: usize)
        requires
            old(self).wf(),
            i < old(self)@.structures.len(),
            sentry_turn(old(self)@, i as int) is Some,
        ensures
            final(self).wf(),
            final(self)@ == sentry_turn(old(self)@, i as int).unwrap(),
            final(self)@.structures.len() == old(self)@.structures.len(),
    {
        proof {
            lemma_sim_view(self);
            lemma_sim_wf(self);
        }
        let s = self.structures[i];
        if !s.active {
            return;
        }
        let x = s.x * 32 + 16;
        let y = s.y * 32 + 16;
        let near = self.gun_near(x, y);
        let mut s1 = s;
        match near {
            Some((d, dx, dy)) if d < 129 => {
                if s.state == 1 {
                    s1.state = 2;
                } else if 5 <= s.state && s.state < 9 {
                    let ax: i64 = if dx < 0 {
                        -(dx as i64)
                    } else {
                        dx as i64
                    };
                    let ay: i64 = if dy < 0 {
                        -(dy as i64)
                    } else {
                        dy as i64
                    };
                    s1.state = if ax >= ay {
                        if dx >= 0 {
                            8
                        } else {
                            7
                        }
                    } else if dy >= 0 {
                        5
                    } else {
                        6
                    };
                }
            },
            _ => {
                if s.state != 1 && s.state != 4 {
                    s1.state = if s.frame == 7 {
                        4
                    } else {
                        3
                    };
                }
            },
        }
        assert(s1 == gun_aimed(s, near));
        self.structures.set(i, s1);
        proof {
            lemma_sim_view(self);
            lemma_sim_wf(self);
        }
        self.gun_anim(i, s1);
    }

    /// One frame of every gun (see [`sentries_ticked`]): an active gun
    /// opens when an alive robot comes within 129 pixels of its tile
    /// center, turns toward it, fires down its lane, and closes when none
    /// is near.
    pub fn sentry_tick(&mut self)
        requires
            old(self).wf(),
            sentries_ticked(old(self)@) is Some,
        ensures
            final(self).wf(),
            final(self)@ == sentries_ticked(old(self)@).unwrap(),
    {
        proof {
            lemma_sim_view(self);
        }
        let ghost m0 = self@;
        let n = self.structures.len();
        let mut i: usize = 0;
        while i < n
            invariant
                self.wf(),
                i <= n,
                n == self@.structures.len(),
                sentries_from(self@, i as nat, n as nat) == sentries_ticked(m0),
                sentries_ticked(m0) is Some,
            decreases n - i,
        {
            self.sentry_turn_exec(i);
            i = i + 1;
        }
    }
}


/// The pixel offset across x from robot `r` to a gun at pixel column `x`.
pub open spec fn robot_dx(r: Robot, x: i32) -> int {
    x - (r.pos_x >> 8u32)
}

/// The pixel offset across y from robot `r` to a gun at pixel row `y`.
pub open spec fn robot_dy(r: Robot, y: i32) -> int {
    y - (r.pos_y >> 8u32)
}

/// The octagonal distance of an offset: the larger leg plus half the
/// smaller.
pub open spec fn oct_dist(dx: int, dy: int) -> int {
    let ax = abs_int(dx);
    let ay = abs_int(dy);
    if ax >= ay {
        ax + ay / 2
    } else {
        ay + ax / 2
    }
}

/// The larger leg of an offset.
pub open spec fn major_leg(dx: int, dy: int) -> int {
    if abs_int(dx) >= abs_int(dy) {
        abs_int(dx)
    } else {
        abs_int(dy)
    }
}

/// The smaller leg of an offset.
pub open spec fn minor_leg(dx: int, dy: int) -> int {
    if abs_int(dx) >= abs_int(dy) {
        abs_int(dy)
    } else {
        abs_int(dx)
    }
}

/// What the nearest-robot search found, from robot `i` on, given the best
/// so far: a find is the offset of an alive robot at its octagonal
/// distance, no farther than any alive robot searched; finding nothing
/// means no robot searched is alive.
proof fn lemma_near_from(rs: Seq<Robot>, x: i32, y: i32, i: nat, best: Option<(i32, i32, i32)>)
    requires
        i <= rs.len(),
        best matches Some(b) ==> {
            &&& exists|j: int|
                0 <= j < i && #[trigger] rs[j].alive && b.1 == robot_dx(rs[j], x) && b.2 == robot_dy(rs[j], y)
                    && b.0 == oct_dist(b.1 as int, b.2 as int)
            &&& forall|j: int|
                0 <= j < i && #[trigger] rs[j].alive ==> b.0 <= oct_dist(robot_dx(rs[j], x), robot_dy(rs[j], y))
        },
        best is None ==> forall|j: int| 0 <= j < i ==> !(#[trigger] rs[j].alive),
    ensures
        gun_near_from(rs, x, y, i, best) matches Some(Some(b)) ==> {
            &&& exists|j: int|
                0 <= j < rs.len() && #[trigger] rs[j].alive && b.1 == robot_dx(rs[j], x) && b.2 == robot_dy(rs[j], y)
                    && b.0 == oct_dist(b.1 as int, b.2 as int)
            &&& forall|j: int|
                0 <= j < rs.len() && #[trigger] rs[j].alive ==> b.0 <= oct_dist(robot_dx(rs[j], x), robot_dy(rs[j], y))
        },
        gun_near_from(rs, x, y, i, best) matches Some(None) ==> forall|j: int|
            0 <= j < rs.len() ==> !(#[trigger] rs[j].alive),
    decreases rs.len() - i,
{
    if i < rs.len() {
        let r = rs[i as int];
        if !r.alive {
            lemma_near_from(rs, x, y, i + 1, best);
        } else {
            let dx = x - (r.pos_x >> 8u32);
            let dy = y - (r.pos_y >> 8u32);
            if !fits32(dx) || !fits32(dy) || dx == i32::MIN || dy == i32::MIN {
            } else {
                let ax = abs_int(dx);
                let ay = abs_int(dy);
                let k = if ax >= ay {
                    ax + ay / 2
                } else {
                    ay + ax / 2
                };
                if fits32(k) {
                    let cand = (k as i32, dx as i32, dy as i32);
                    let nb = match best {
                        None => Some(cand),
                        Some(b) => if k < b.0 {
                            Some(cand)
                        } else {
                            best
                        },
                    };
                    assert(k == oct_dist(robot_dx(r, x), robot_dy(r, y)));
                    match nb {
                        Some(b2) => {
                            assert(exists|j: int|
                                0 <= j < i + 1 && #[trigger] rs[j].alive && b2.1 == robot_dx(rs[j], x) && b2.2
                                    == robot_dy(rs[j], y) && b2.0 == oct_dist(b2.1 as int, b2.2 as int)) by {
                                if b2 == cand {
                                    assert(rs[i as int].alive);
                                } else {
                                    let b = best.unwrap();
                                    let j0 = choose|j: int|
                                        0 <= j < i && #[trigger] rs[j].alive && b.1 == robot_dx(rs[j], x) && b.2
                                            == robot_dy(rs[j], y) && b.0 == oct_dist(b.1 as int, b.2 as int);
                                    assert(rs[j0].alive);
                                }
                            }
                            assert forall|j: int|
                                0 <= j < i + 1 && #[trigger] rs[j].alive implies b2.0 <= oct_dist(
                                robot_dx(rs[j], x),
                                robot_dy(rs[j], y),
                            ) by {
                                if j < i {
                                    if best is Some {
                                        assert(best.unwrap().0 <= oct_dist(robot_dx(rs[j], x), robot_dy(rs[j], y)));
                                    }
                                }
                            }
                        },
                        None => {},
                    }
                    lemma_near_from(rs, x, y, i + 1, nb);
                }
            }
        }
    }
}

/// An aiming gun's animation keeps its state.
proof fn lemma_anim_keeps_state(m1: MissionView, i: int, s: TerrainStructure)
    requires
        0 <= i < m1.structures.len(),
        5 <= s.state <= 8,
        m1.structures[i] == s,
    ensures
        gun_anim_s(m1, i, s) matches Some(m2) ==> {
            &&& m2.structures.len() == m1.structures.len()
            &&& m2.structures[i].state == s.state
            &&& m2.structures[i].z == s.z
        },
{
}

/// An aiming gun faces the nearest robot: after the gun's frame, with one
/// alive robot strictly nearer than every other and within range (an
/// octagonal distance below 129) but not on the gun itself, the bolts the
/// gun fires fly toward that robot along the larger leg of the offset
/// (their velocity's component toward the robot is 255 times that leg),
/// and the robot stands in the gun's lane whenever it is within 40 pixels
/// across that leg and within one 32-step band of the gun's level.
pub proof fn lemma_sentry_faces_nearest(m: MissionView, i: int, j: int)
    requires
        0 <= i < m.structures.len(),
        m.structures[i].active,
        5 <= m.structures[i].state <= 8,
        0 <= j < m.robots.len(),
        m.robots[j].alive,
        sentry_turn(m, i) is Some,
        gun_px(m.structures[i]) is Some,
        ({
            let (x, y) = gun_px(m.structures[i]).unwrap();
            let dx = robot_dx(m.robots[j], x);
            let dy = robot_dy(m.robots[j], y);
            &&& oct_dist(dx, dy) < 129
            &&& (dx != 0 || dy != 0)
            &&& forall|k: int|
                0 <= k < m.robots.len() && k != j && #[trigger] m.robots[k].alive ==> oct_dist(dx, dy) < oct_dist(
                    robot_dx(m.robots[k], x),
                    robot_dy(m.robots[k], y),
                )
        }),
    ensures
        ({
            let (x, y) = gun_px(m.structures[i]).unwrap();
            let r = m.robots[j];
            let dx = robot_dx(r, x);
            let dy = robot_dy(r, y);
            let s2 = sentry_turn(m, i).unwrap().structures[i];
            let b = gun_bolt(s2);
            let a = m.structures[i].z - ((r.z >> 8u32) + 31);
            &&& 5 <= s2.state <= 8
            &&& b.vx * ((r.pos_x >> 8u32) - x) + b.vy * ((r.pos_y >> 8u32) - y) == 255 * major_leg(dx, dy)
            &&& (minor_leg(dx, dy) < 40 && fits32(a) && -2 < ((a as i32) >> 5u32) < 2) ==> in_lane(r, s2, x, y)
                == Some(true)
        }),
{
    let s = m.structures[i];
    let (x, y) = gun_px(s).unwrap();
    let rs = m.robots;
    lemma_near_from(rs, x, y, 0, None);
    let near = gun_near_from(rs, x, y, 0, None).unwrap();
    assert(near is Some);
    let b = near.unwrap();
    let jj = choose|jj: int|
        0 <= jj < rs.len() && #[trigger] rs[jj].alive && b.1 == robot_dx(rs[jj], x) && b.2 == robot_dy(rs[jj], y)
            && b.0 == oct_dist(b.1 as int, b.2 as int);
    assert(rs[j].alive);
    if jj != j {
        assert(rs[jj].alive);
        assert(b.0 <= oct_dist(robot_dx(rs[j], x), robot_dy(rs[j], y)));
        assert(false);
    }
    let r = rs[j];
    let dx = robot_dx(r, x);
    let dy = robot_dy(r, y);
    assert(b.1 as int == dx && b.2 as int == dy);
    assert(b.0 < 129);
    let s1 = gun_aimed(s, near);
    assert(s1.z == s.z);
    assert(s1.state == (if abs_int(dx) >= abs_int(dy) {
        if dx >= 0 {
            8i32
        } else {
            7i32
        }
    } else if dy >= 0 {
        5i32
    } else {
        6i32
    }));
    let m1 = MissionView { structures: m.structures.update(i, s1), ..m };
    assert(sentry_turn(m, i) == gun_anim_s(m1, i, s1));
    lemma_anim_keeps_state(m1, i, s1);
    let s2 = sentry_turn(m, i).unwrap().structures[i];
    assert(s2.state == s1.state && s2.z == s.z);
    let rx = r.pos_x >> 8u32;
    let ry = r.pos_y >> 8u32;
    assert(dx == x - rx && dy == y - ry);
    let bb = gun_bolt(s2);
    if s2.state == 5 {
        assert(bb.vx == 0 && bb.vy == -255);
    } else if s2.state == 6 {
        assert(bb.vx == 0 && bb.vy == 255);
    } else if s2.state == 7 {
        assert(bb.vx == 255 && bb.vy == 0);
    } else {
        assert(bb.vx == -255 && bb.vy == 0);
    }
    assert(bb.vx * (rx - x) + bb.vy * (ry - y) == 255 * major_leg(dx, dy));
}


/// A robot stands in gun `s`'s firing band: within one 32-step band of
/// the gun's level, within 40 pixels across the line of its bolts, and on
/// the side the bolts fly to.
pub open spec fn in_firing_band(r: Robot, s: TerrainStructure, x: i32, y: i32) -> bool {
    let a = s.z - ((r.z >> 8u32) + 31);
    let rx = r.pos_x >> 8u32;
    let ry = r.pos_y >> 8u32;
    let b = gun_bolt(s);
    &&& fits32(a)
    &&& -2 < ((a as i32) >> 5u32) < 2
    &&& b.vx * (rx - x) + b.vy * (ry - y) > 0
    &&& (b.vx != 0 ==> abs_int(y - ry) < 40)
    &&& (b.vy != 0 ==> abs_int(x - rx) < 40)
}

/// A robot the lane test accepts stands in the gun's firing band.
proof fn lemma_lane_is_band(rs: Seq<Robot>, s: TerrainStructure, x: i32, y: i32, i: nat)
    requires
        5 <= s.state <= 8,
    ensures
        lane_from(rs, s, x, y, i) == Some(true) ==> exists|k: int|
            0 <= k < rs.len() && in_firing_band(#[trigger] rs[k], s, x, y),
    decreases rs.len() - i,
{
    if i < rs.len() {
        let r = rs[i as int];
        if in_lane(r, s, x, y) == Some(true) {
            let b = gun_bolt(s);
            let rx = r.pos_x >> 8u32;
            let ry = r.pos_y >> 8u32;
            if s.state == 5 {
                assert(b.vx == 0 && b.vy == -255);
            } else if s.state == 6 {
                assert(b.vx == 0 && b.vy == 255);
            } else if s.state == 7 {
                assert(b.vx == 255 && b.vy == 0);
            } else {
                assert(b.vx == -255 && b.vy == 0);
            }
            assert(in_firing_band(rs[i as int], s, x, y));
        } else {
            lemma_lane_is_band(rs, s, x, y, i + 1);
        }
    }
}

/// No robot within range: whatever the search found is at distance 129
/// or more.
proof fn lemma_none_near(rs: Seq<Robot>, x: i32, y: i32)
    requires
        forall|k: int|
            0 <= k < rs.len() && #[trigger] rs[k].alive ==> oct_dist(robot_dx(rs[k], x), robot_dy(rs[k], y)) >= 129,
    ensures
        gun_near_from(rs, x, y, 0, None) matches Some(near) ==> !(near is Some && near.unwrap().0 < 129),
{
    lemma_near_from(rs, x, y, 0, None);
    if let Some(Some(b)) = gun_near_from(rs, x, y, 0, None) {
        let jj = choose|jj: int|
            0 <= jj < rs.len() && #[trigger] rs[jj].alive && b.1 == robot_dx(rs[jj], x) && b.2 == robot_dy(
                rs[jj],
                y,
            ) && b.0 == oct_dist(b.1 as int, b.2 as int);
        assert(rs[jj].alive);
    }
}

/// Some robot within range: the search finds one at a distance below 129.
proof fn lemma_some_near(rs: Seq<Robot>, x: i32, y: i32, j: int)
    requires
        0 <= j < rs.len(),
        rs[j].alive,
        oct_dist(robot_dx(rs[j], x), robot_dy(rs[j], y)) < 129,
    ensures
        gun_near_from(rs, x, y, 0, None) matches Some(near) ==> near is Some && near.unwrap().0 < 129,
{
    lemma_near_from(rs, x, y, 0, None);
    assert(rs[j].alive);
}

/// A closed gun wakes when a robot comes near: with an alive robot within
/// range (octagonal distance below 129), a closed gun (state 1) below its
/// open frame starts opening (state 2) and moves one frame up; with none,
/// a closed gun leaves the simulation exactly as it was.
pub proof fn lemma_closed_gun_wakes(m: MissionView, i: int)
    requires
        0 <= i < m.structures.len(),
        m.structures[i].active,
        m.structures[i].state == 1,
        0 <= m.structures[i].frame < 7,
        sentry_turn(m, i) is Some,
        gun_px(m.structures[i]) is Some,
    ensures
        ({
            let (x, y) = gun_px(m.structures[i]).unwrap();
            let s2 = sentry_turn(m, i).unwrap().structures[i];
            &&& (exists|j: int|
                0 <= j < m.robots.len() && #[trigger] m.robots[j].alive && oct_dist(
                    robot_dx(m.robots[j], x),
                    robot_dy(m.robots[j], y),
                ) < 129) ==> s2.state == 2 && s2.frame == m.structures[i].frame + 1
            &&& (forall|j: int|
                0 <= j < m.robots.len() && #[trigger] m.robots[j].alive ==> oct_dist(
                    robot_dx(m.robots[j], x),
                    robot_dy(m.robots[j], y),
                ) >= 129) ==> sentry_turn(m, i).unwrap() == m
        }),
{
    let s = m.structures[i];
    let (x, y) = gun_px(s).unwrap();
    let rs = m.robots;
    let near = gun_near_from(rs, x, y, 0, None).unwrap();
    if exists|j: int|
        0 <= j < rs.len() && #[trigger] rs[j].alive && oct_dist(robot_dx(rs[j], x), robot_dy(rs[j], y)) < 129 {
        let j = choose|j: int|
            0 <= j < rs.len() && #[trigger] rs[j].alive && oct_dist(robot_dx(rs[j], x), robot_dy(rs[j], y)) < 129;
        lemma_some_near(rs, x, y, j);
        let s1 = gun_aimed(s, near);
        assert(s1.state == 2);
        let m1 = MissionView { structures: m.structures.update(i, s1), ..m };
        assert(sentry_turn(m, i) == gun_anim_s(m1, i, s1));
    } else {
        lemma_none_near(rs, x, y);
        let s1 = gun_aimed(s, near);
        assert(s1 == s);
        assert(m.structures.update(i, s) =~= m.structures);
    }
}

/// An aiming gun with no robot near stops: with no alive robot within
/// range (octagonal distance 129 or more from every one), an aiming gun
/// (state 5 to 8) turning on the 7..=14 ring starts closing (ends its
/// frame in state 3 or 4) and fires nothing: the enemy bank is unchanged.
pub proof fn lemma_idle_gun_closes(m: MissionView, i: int)
    requires
        0 <= i < m.structures.len(),
        m.structures[i].active,
        5 <= m.structures[i].state <= 8,
        7 <= m.structures[i].frame <= 14,
        sentry_turn(m, i) is Some,
        gun_px(m.structures[i]) is Some,
        ({
            let (x, y) = gun_px(m.structures[i]).unwrap();
            forall|j: int|
                0 <= j < m.robots.len() && #[trigger] m.robots[j].alive ==> oct_dist(
                    robot_dx(m.robots[j], x),
                    robot_dy(m.robots[j], y),
                ) >= 129
        }),
    ensures
        sentry_turn(m, i).unwrap().structures[i].state == 3 || sentry_turn(m, i).unwrap().structures[i].state == 4,
        sentry_turn(m, i).unwrap().enemy_bank == m.enemy_bank,
{
    let s = m.structures[i];
    let (x, y) = gun_px(s).unwrap();
    let rs = m.robots;
    lemma_none_near(rs, x, y);
    let near = gun_near_from(rs, x, y, 0, None).unwrap();
    let s1 = gun_aimed(s, near);
    assert(s1.state == 3 || s1.state == 4);
    let m1 = MissionView { structures: m.structures.update(i, s1), ..m };
    assert(sentry_turn(m, i) == gun_anim_s(m1, i, s1));
}

/// A gun fires only at a robot in its firing band: when a gun's frame
/// changes the enemy bank, some robot stands within one level band of
/// the gun, within 40 pixels across the line of the gun's bolts and on
/// the side they fly to (see [`in_firing_band`]), and the bank changed by
/// staging exactly that gun's bolt.
pub proof fn lemma_gun_fires_only_in_band(m: MissionView, i: int)
    requires
        0 <= i < m.structures.len(),
        sentry_turn(m, i) is Some,
        sentry_turn(m, i).unwrap().enemy_bank != m.enemy_bank,
    ensures
        gun_px(m.structures[i]) is Some,
        ({
            let (x, y) = gun_px(m.structures[i]).unwrap();
            let s2 = sentry_turn(m, i).unwrap().structures[i];
            &&& 5 <= s2.state <= 8
            &&& exists|k: int| 0 <= k < m.robots.len() && in_firing_band(#[trigger] m.robots[k], s2, x, y)
            &&& sentry_turn(m, i).unwrap().enemy_bank == projectile_staged(m, gun_bolt(s2)).enemy_bank
        }),
{
    let s = m.structures[i];
    let (x, y) = gun_px(s).unwrap();
    let rs = m.robots;
    let near = gun_near_from(rs, x, y, 0, None).unwrap();
    let s1 = gun_aimed(s, near);
    let m1 = MissionView { structures: m.structures.update(i, s1), ..m };
    assert(sentry_turn(m, i) == gun_anim_s(m1, i, s1));
    assert(m1.structures[i] == s1);
    assert(5 <= s1.state <= 8);
    lemma_anim_keeps_state(m1, i, s1);
    assert(s1.frame == aim_frame(s1.state));
    assert(gun_px(s1) == gun_px(s));
    lemma_lane_is_band(rs, s1, x, y, 0);
    assert(lane_from(rs, s1, x, y, 0) == Some(true));
    let s2 = sentry_turn(m, i).unwrap().structures[i];
    assert(gun_bolt(s2) == gun_bolt(s1));
    assert(forall|k: int| 0 <= k < rs.len() ==> in_firing_band(#[trigger] rs[k], s1, x, y) == in_firing_band(rs[k], s2, x, y));
}

} // verus!
