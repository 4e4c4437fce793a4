//! The robot mover: the 8-probe footprint test over the floor field, and
//! the per-sub-tick move that tries the direct step, then slides along a
//! cardinal axis picked from the angle's compass band.

use vstd::prelude::*;

use crate::mission::{
    Robot, CLIMB_LIMIT, FACING_E, FACING_N, FACING_NONE, FACING_S, FACING_W, MOVE_STRIDE, PROBE_X,
    PROBE_Y,
};
use crate::terrain::{floor_probe, Terrain, TerrainView};

verus! {

/// `v` fits in `i32`.
pub open spec fn fits(v: int) -> bool {
    i32::MIN <= v <= i32::MAX
}

/// The footprint walk from probe `i` on, with the floors found so far in
/// `acc`: probe `i` sits at the Q5 position plus its offset; a probe off
/// the map, or one whose floor differs by more than 4 from its cached
/// reference (the cache word read sign-extended), fails the walk. The
/// result is the verdict, the terrain (its trigger latch moved by every
/// floor query made) and the probe floors.
pub open spec fn footprint(
    t: TerrainView,
    pz: [u16; 8],
    q5x: i32,
    q5y: i32,
    i: nat,
    acc: Seq<u16>,
) -> (bool, TerrainView, Seq<u16>)
    decreases 8 - i,
{
    if i >= 8 {
        (true, t, acc)
    } else {
        let px = (q5x + PROBE_X@[i as int]) as i32;
        let py = (q5y + PROBE_Y@[i as int]) as i32;
        if px < 0 || (px >> 5u32) >= t.width || py < 0 || (py >> 5u32) >= t.height {
            (false, t, acc)
        } else {
            let zref = pz@[i as int] as i16 as i32;
            let fl = floor_probe(t, px, py, zref).0;
            let t1 = TerrainView { last_trigger: floor_probe(t, px, py, zref).1, ..t };
            if fl - zref > CLIMB_LIMIT || zref - fl > CLIMB_LIMIT {
                (false, t1, acc)
            } else {
                footprint(t1, pz, q5x, q5y, i + 1, acc.push(fl as u16))
            }
        }
    }
}

/// The move test at world Q13 `(wx, wy)`: the footprint walk at
/// `(wx >> 8, wy >> 8)`; on a pass the probe floors become the cache and
/// the robot's z is re-read at the center. A failed test leaves the
/// robot as it was.
pub open spec fn move_check(t: TerrainView, r: Robot, wx: i32, wy: i32) -> (bool, TerrainView, Robot) {
    let q5x = wx >> 8u32;
    let q5y = wy >> 8u32;
    let f = footprint(t, r.probe_z, q5x, q5y, 0, Seq::empty());
    if !f.0 {
        (false, f.1, r)
    } else {
        let c = floor_probe(f.1, q5x, q5y, r.z);
        let fl = f.2;
        (
            true,
            TerrainView { last_trigger: c.1, ..f.1 },
            Robot { z: c.0, probe_z: [fl[0], fl[1], fl[2], fl[3], fl[4], fl[5], fl[6], fl[7]], ..r },
        )
    }
}

/// The probing move test: the move test at the robot's position plus
/// `(dx, dy)`, the robot's z restored afterwards (the cache update of a
/// pass is kept). `None` when the position sum overflows.
pub open spec fn probe_check(t: TerrainView, r: Robot, dx: i32, dy: i32) -> Option<
    (bool, TerrainView, Robot),
> {
    if !fits(r.pos_x + dx) || !fits(r.pos_y + dy) {
        None
    } else {
        let c = move_check(t, r, (r.pos_x + dx) as i32, (r.pos_y + dy) as i32);
        Some((c.0, c.1, Robot { z: r.z, ..c.2 }))
    }
}

/// Two probes in order: the first facing whose probe passes, else none.
pub open spec fn pick_two(
    t: TerrainView,
    r: Robot,
    d1: (i32, i32),
    f1: u16,
    d2: (i32, i32),
    f2: u16,
) -> Option<(u16, TerrainView, Robot)> {
    match probe_check(t, r, d1.0, d1.1) {
        None => None,
        Some(a) => if a.0 {
            Some((f1, a.1, a.2))
        } else {
            match probe_check(a.1, a.2, d2.0, d2.1) {
                None => None,
                Some(b) => if b.0 {
                    Some((f2, b.1, b.2))
                } else {
                    Some((FACING_NONE, b.1, b.2))
                },
            }
        },
    }
}

/// The x-axis facing pick (the y stride is blocked): try the side of
/// the requested `dx` first.
pub open spec fn pick_x(t: TerrainView, r: Robot, dx: i32) -> Option<(u16, TerrainView, Robot)> {
    if dx < 0 {
        pick_two(t, r, ((-MOVE_STRIDE) as i32, 0), FACING_W, (MOVE_STRIDE, 0), FACING_E)
    } else {
        pick_two(t, r, (MOVE_STRIDE, 0), FACING_E, ((-MOVE_STRIDE) as i32, 0), FACING_W)
    }
}

/// The y-axis facing pick (the x stride is blocked): try the side of
/// the requested `dy` first.
pub open spec fn pick_y(t: TerrainView, r: Robot, dy: i32) -> Option<(u16, TerrainView, Robot)> {
    if dy < 0 {
        pick_two(t, r, (0, (-MOVE_STRIDE) as i32), FACING_N, (0, MOVE_STRIDE), FACING_S)
    } else {
        pick_two(t, r, (0, MOVE_STRIDE), FACING_S, (0, (-MOVE_STRIDE) as i32), FACING_N)
    }
}

/// The facing pick of a blocked robot by the angle's compass band
/// `(angle + 0x20) & 0xC0`: the band's own axis first, else the other
/// axis by the requested delta's sign.
pub open spec fn pick_facing(t: TerrainView, r: Robot, dx: i32, dy: i32, angle: u16) -> Option<
    (u16, TerrainView, Robot),
> {
    let band = angle.wrapping_add(0x20) & 0xC0;
    let (d, f) = if band == 0 {
        ((0i32, (-MOVE_STRIDE) as i32), FACING_N)
    } else if band == 0x40 {
        ((MOVE_STRIDE, 0i32), FACING_E)
    } else if band == 0x80 {
        ((0i32, MOVE_STRIDE), FACING_S)
    } else {
        (((-MOVE_STRIDE) as i32, 0i32), FACING_W)
    };
    match probe_check(t, r, d.0, d.1) {
        None => None,
        Some(a) => if a.0 {
            Some((f, a.1, a.2))
        } else if band == 0 || band == 0x80 {
            pick_x(a.1, a.2, dx)
        } else {
            pick_y(a.1, a.2, dy)
        },
    }
}

/// One stride along an axis by the sign of `d`, taking `f_neg`/`f_pos`
/// as the facing on success (`x_axis` picks the axis).
pub open spec fn who_step(t: TerrainView, r: Robot, d: i32, x_axis: bool) -> Option<
    (TerrainView, Robot),
> {
    let s: i32 = if d < 0 {
        (-MOVE_STRIDE) as i32
    } else {
        MOVE_STRIDE
    };
    let nx = if x_axis {
        r.pos_x + s
    } else {
        r.pos_x as int
    };
    let ny = if x_axis {
        r.pos_y as int
    } else {
        r.pos_y + s
    };
    if !fits(nx) || !fits(ny) {
        None
    } else {
        let c = move_check(t, r, nx as i32, ny as i32);
        if c.0 {
            let f = if x_axis {
                if d < 0 {
                    FACING_W
                } else {
                    FACING_E
                }
            } else if d < 0 {
                FACING_N
            } else {
                FACING_S
            };
            Some((c.1, Robot { pos_x: nx as i32, pos_y: ny as i32, facing: f, ..c.2 }))
        } else {
            Some((c.1, c.2))
        }
    }
}

/// The slide along the robot's facing: one stride that way if the move
/// test passes, else the perpendicular axis step by the requested delta.
pub open spec fn slide(t: TerrainView, r: Robot, dx: i32, dy: i32) -> Option<(TerrainView, Robot)> {
    let f = r.facing;
    if f != FACING_N && f != FACING_E && f != FACING_S && f != FACING_W {
        Some((t, r))
    } else {
        let (sx, sy): (i32, i32) = if f == FACING_N {
            (0, (-MOVE_STRIDE) as i32)
        } else if f == FACING_E {
            (MOVE_STRIDE, 0)
        } else if f == FACING_S {
            (0, MOVE_STRIDE)
        } else {
            ((-MOVE_STRIDE) as i32, 0)
        };
        if !fits(r.pos_x + sx) || !fits(r.pos_y + sy) {
            None
        } else {
            let c = move_check(t, r, (r.pos_x + sx) as i32, (r.pos_y + sy) as i32);
            if c.0 {
                Some((c.1, Robot { pos_x: (r.pos_x + sx) as i32, pos_y: (r.pos_y + sy) as i32, ..c.2 }))
            } else if f == FACING_N || f == FACING_S {
                who_step(c.1, c.2, dx, true)
            } else {
                who_step(c.1, c.2, dy, false)
            }
        }
    }
}

/// The walk animation phase of an angle.
pub open spec fn anim_of(angle: u16) -> u16 {
    (angle.wrapping_add(4) & 0xFF) >> 3u16
}

/// The mover tick by `(dx, dy)` along `angle`: ordered (3) and extracted
/// (5) robots stay. Otherwise the direct step is tested (at the
/// position sum shifted right by 8, as the mover passes it); on a pass
/// the robot moves, facing cleared. Blocked with no facing, the robot
/// picks one (none: it stays, its dir byte set); then it slides along
/// its facing, and takes the angle's animation, the facing as its dir
/// byte, and no facing. `None` when a position sum overflows.
pub open spec fn robot_move_s(t: TerrainView, r: Robot, dx: i32, dy: i32, angle: u16) -> Option<
    (TerrainView, Robot),
> {
    if r.state == 3 || r.state == 5 {
        Some((t, r))
    } else if !fits(r.pos_x + dx) || !fits(r.pos_y + dy) {
        None
    } else {
        let r0 = Robot { dir_byte: angle, ..r };
        let cx = ((r.pos_x + dx) as i32) >> 8u32;
        let cy = ((r.pos_y + dy) as i32) >> 8u32;
        let c = move_check(t, r0, cx, cy);
        if c.0 {
            Some(
                (
                    c.1,
                    Robot {
                        pos_x: (r.pos_x + dx) as i32,
                        pos_y: (r.pos_y + dy) as i32,
                        facing: FACING_NONE,
                        anim: anim_of(angle),
                        ..c.2
                    },
                ),
            )
        } else {
            let picked: Option<(TerrainView, Robot, bool)> = if c.2.facing == FACING_NONE {
                match pick_facing(c.1, c.2, dx, dy, angle) {
                    None => None,
                    Some(p) => if p.0 == FACING_NONE {
                        Some((p.1, p.2, false))
                    } else {
                        Some((p.1, Robot { facing: p.0, ..p.2 }, true))
                    },
                }
            } else {
                Some((c.1, c.2, true))
            };
            match picked {
                None => None,
                Some(p) => if !p.2 {
                    Some((p.0, p.1))
                } else {
                    match slide(p.0, p.1, dx, dy) {
                        None => None,
                        Some(s) => Some(
                            (
                                s.0,
                                Robot {
                                    anim: anim_of(angle),
                                    dir_byte: s.1.facing,
                                    facing: FACING_NONE,
                                    ..s.1
                                },
                            ),
                        ),
                    }
                },
            }
        }
    }
}

/// Entry `i` of the probe offset tables.
fn probe_offset(i: usize) -> (r: (i32, i32))
    requires
        i < 8,
    ensures
        r == (PROBE_X@[i as int], PROBE_Y@[i as int]),
        -11 <= r.0 <= 12,
        -11 <= r.1 <= 12,
{
    (PROBE_X[i], PROBE_Y[i])
}

/// The move test (see [`move_check`]).
pub(crate) fn move_possible(terrain: &mut Terrain, r: &mut Robot, wx: i32, wy: i32) -> (ok: bool)
    requires
        old(terrain).wf(),
    ensures
        final(terrain).wf(),
        (ok, final(terrain)@, *final(r)) == move_check(old(terrain)@, *old(r), wx, wy),
{
    let ghost t0 = terrain@;
    let q5x = wx >> 8u32;
    let q5y = wy >> 8u32;
    assert(-0x80_0000 <= q5x <= 0x80_0000 && -0x80_0000 <= q5y <= 0x80_0000) by (bit_vector)
        requires
            q5x == wx >> 8u32,
            q5y == wy >> 8u32,
    ;
    let (w, h) = terrain.size();
    let mut floors: [u16; 8] = [0; 8];
    assert(floors@.subrange(0, 0) =~= Seq::<u16>::empty());
    let mut i: usize = 0;
    while i < 8
        invariant
            i <= 8,
            terrain.wf(),
            *r == *old(r),
            t0 == old(terrain)@,
            q5x == wx >> 8u32,
            q5y == wy >> 8u32,
            w == terrain@.width,
            h == terrain@.height,
            -0x80_0000 <= q5x <= 0x80_0000,
            -0x80_0000 <= q5y <= 0x80_0000,
            footprint(t0, r.probe_z, q5x, q5y, 0, Seq::empty()) == footprint(
                terrain@,
                r.probe_z,
                q5x,
                q5y,
                i as nat,
                floors@.subrange(0, i as int),
            ),
        decreases 8 - i,
    {
        let (ox, oy) = probe_offset(i);
        let px = q5x + ox;
        let py = q5y + oy;
        if px < 0 || px >> 5u32 >= w || py < 0 || py >> 5u32 >= h {
            return false;
        }
        let zref = r.probe_z[i] as i16 as i32;
        let fl = terrain.floor_z(px, py, zref);
        if fl - zref > CLIMB_LIMIT || zref - fl > CLIMB_LIMIT {
            return false;
        }
        let ghost before = floors@.subrange(0, i as int);
        floors[i] = fl as u16;
        assert(floors@.subrange(0, i + 1) =~= before.push(fl as u16));
        i = i + 1;
    }
    let ghost fl = floors@.subrange(0, 8);
    assert(fl =~= floors@);
    let z = terrain.floor_z(q5x, q5y, r.z);
    r.z = z;
    r.probe_z = floors;
    assert(floors =~= [fl[0], fl[1], fl[2], fl[3], fl[4], fl[5], fl[6], fl[7]]);
    true
}


/// The probing move test (see [`probe_check`]).
fn probe(terrain: &mut Terrain, r: &mut Robot, dx: i32, dy: i32) -> (ok: bool)
    requires
        old(terrain).wf(),
        probe_check(old(terrain)@, *old(r), dx, dy) is Some,
    ensures
        final(terrain).wf(),
        Some((ok, final(terrain)@, *final(r))) == probe_check(old(terrain)@, *old(r), dx, dy),
{
    let saved = r.z;
    let px = r.pos_x + dx;
    let py = r.pos_y + dy;
    let ok = move_possible(terrain, r, px, py);
    r.z = saved;
    ok
}

/// Two probes in order (see [`pick_two`]).
fn pick_two_exec(
    terrain: &mut Terrain,
    r: &mut Robot,
    d1: (i32, i32),
    f1: u16,
    d2: (i32, i32),
    f2: u16,
) -> (f: u16)
    requires
        old(terrain).wf(),
        pick_two(old(terrain)@, *old(r), d1, f1, d2, f2) is Some,
    ensures
        final(terrain).wf(),
        Some((f, final(terrain)@, *final(r))) == pick_two(old(terrain)@, *old(r), d1, f1, d2, f2),
{
    if probe(terrain, r, d1.0, d1.1) {
        f1
    } else if probe(terrain, r, d2.0, d2.1) {
        f2
    } else {
        FACING_NONE
    }
}

/// The x-axis facing pick (see [`pick_x`]).
fn pick_slide_x(terrain: &mut Terrain, r: &mut Robot, dx: i32) -> (f: u16)
    requires
        old(terrain).wf(),
        pick_x(old(terrain)@, *old(r), dx) is Some,
    ensures
        final(terrain).wf(),
        Some((f, final(terrain)@, *final(r))) == pick_x(old(terrain)@, *old(r), dx),
{
    if dx < 0 {
        pick_two_exec(terrain, r, (-MOVE_STRIDE, 0), FACING_W, (MOVE_STRIDE, 0), FACING_E)
    } else {
        pick_two_exec(terrain, r, (MOVE_STRIDE, 0), FACING_E, (-MOVE_STRIDE, 0), FACING_W)
    }
}

/// The y-axis facing pick (see [`pick_y`]).
fn pick_slide_y(terrain: &mut Terrain, r: &mut Robot, dy: i32) -> (f: u16)
    requires
        old(terrain).wf(),
        pick_y(old(terrain)@, *old(r), dy) is Some,
    ensures
        final(terrain).wf(),
        Some((f, final(terrain)@, *final(r))) == pick_y(old(terrain)@, *old(r), dy),
{
    if dy < 0 {
        pick_two_exec(terrain, r, (0, -MOVE_STRIDE), FACING_N, (0, MOVE_STRIDE), FACING_S)
    } else {
        pick_two_exec(terrain, r, (0, MOVE_STRIDE), FACING_S, (0, -MOVE_STRIDE), FACING_N)
    }
}

/// The facing pick by compass band (see [`pick_facing`]).
fn pick_facing_exec(terrain: &mut Terrain, r: &mut Robot, dx: i32, dy: i32, angle: u16) -> (f: u16)
    requires
        old(terrain).wf(),
        pick_facing(old(terrain)@, *old(r), dx, dy, angle) is Some,
    ensures
        final(terrain).wf(),
        Some((f, final(terrain)@, *final(r))) == pick_facing(old(terrain)@, *old(r), dx, dy, angle),
{
    let band = angle.wrapping_add(0x20) & 0xC0;
    if band == 0 {
        if probe(terrain, r, 0, -MOVE_STRIDE) {
            FACING_N
        } else {
            pick_slide_x(terrain, r, dx)
        }
    } else if band == 0x40 {
        if probe(terrain, r, MOVE_STRIDE, 0) {
            FACING_E
        } else {
            pick_slide_y(terrain, r, dy)
        }
    } else if band == 0x80 {
        if probe(terrain, r, 0, MOVE_STRIDE) {
            FACING_S
        } else {
            pick_slide_x(terrain, r, dx)
        }
    } else {
        if probe(terrain, r, -MOVE_STRIDE, 0) {
            FACING_W
        } else {
            pick_slide_y(terrain, r, dy)
        }
    }
}

/// One axis stride by the sign of the requested delta (see
/// [`who_step`]).
fn who_step_exec(terrain: &mut Terrain, r: &mut Robot, d: i32, x_axis: bool)
    requires
        old(terrain).wf(),
        who_step(old(terrain)@, *old(r), d, x_axis) is Some,
    ensures
        final(terrain).wf(),
        Some((final(terrain)@, *final(r))) == who_step(old(terrain)@, *old(r), d, x_axis),
{
    let s = if d < 0 {
        -MOVE_STRIDE
    } else {
        MOVE_STRIDE
    };
    let nx = if x_axis {
        r.pos_x + s
    } else {
        r.pos_x
    };
    let ny = if x_axis {
        r.pos_y
    } else {
        r.pos_y + s
    };
    if move_possible(terrain, r, nx, ny) {
        r.pos_x = nx;
        r.pos_y = ny;
        r.facing = if x_axis {
            if d < 0 {
                FACING_W
            } else {
                FACING_E
            }
        } else if d < 0 {
            FACING_N
        } else {
            FACING_S
        };
    }
}

/// The slide along the facing (see [`slide`]).
fn slide_exec(terrain: &mut Terrain, r: &mut Robot, dx: i32, dy: i32)
    requires
        old(terrain).wf(),
        slide(old(terrain)@, *old(r), dx, dy) is Some,
    ensures
        final(terrain).wf(),
        Some((final(terrain)@, *final(r))) == slide(old(terrain)@, *old(r), dx, dy),
{
    let f = r.facing;
    if f != FACING_N && f != FACING_E && f != FACING_S && f != FACING_W {
        return;
    }
    let (sx, sy): (i32, i32) = if f == FACING_N {
        (0, -MOVE_STRIDE)
    } else if f == FACING_E {
        (MOVE_STRIDE, 0)
    } else if f == FACING_S {
        (0, MOVE_STRIDE)
    } else {
        (-MOVE_STRIDE, 0)
    };
    let nx = r.pos_x + sx;
    let ny = r.pos_y + sy;
    if move_possible(terrain, r, nx, ny) {
        r.pos_x = nx;
        r.pos_y = ny;
    } else if f == FACING_N || f == FACING_S {
        who_step_exec(terrain, r, dx, true);
    } else {
        who_step_exec(terrain, r, dy, false);
    }
}

/// The mover tick (see [`robot_move_s`]).
pub(crate) fn robot_move(terrain: &mut Terrain, r: &mut Robot, dx: i32, dy: i32, angle: u16)
    requires
        old(terrain).wf(),
        robot_move_s(old(terrain)@, *old(r), dx, dy, angle) is Some,
    ensures
        final(terrain).wf(),
        Some((final(terrain)@, *final(r))) == robot_move_s(old(terrain)@, *old(r), dx, dy, angle),
{
    if r.state == 3 || r.state == 5 {
        return;
    }
    r.dir_byte = angle;
    let sx = r.pos_x + dx;
    let sy = r.pos_y + dy;
    let cx = sx >> 8u32;
    let cy = sy >> 8u32;
    if move_possible(terrain, r, cx, cy) {
        r.pos_x = sx;
        r.pos_y = sy;
        r.facing = FACING_NONE;
        r.anim = (angle.wrapping_add(4) & 0xFF) >> 3u16;
        return;
    }
    if r.facing == FACING_NONE {
        let facing = pick_facing_exec(terrain, r, dx, dy, angle);
        if facing == FACING_NONE {
            return;
        }
        r.facing = facing;
    }
    slide_exec(terrain, r, dx, dy);
    r.anim = (angle.wrapping_add(4) & 0xFF) >> 3u16;
    r.dir_byte = r.facing;
    r.facing = FACING_NONE;
}

} // verus!
