//! The weapon-impact object resolver and the destroy tail: an impact on
//! an object's tile takes its hit points; a destroyed object notifies
//! the objective, schedules its fence shutdown, may raise a bridge ring,
//! restores the terrain under its footprint, plays its five destroy
//! effects, awards its score and detonates the chainable neighbours
//! around its footprint. A robot standing on a trap tile fires the
//! resolver at its own tile. Impacts never touch the robots, and the
//! depth a chain of detonations is given never runs out.

use vstd::prelude::*;

use crate::destroy::{
    lemma_debris_staged_keeps_robots, platform_debris, platform_debris_step,
    copy_type, covers, dat_written, debris_fits, debris_staged, grid_word_at, lemma_tile_coords, lemma_tile_of,
    platform_damage_fits, platform_damaged, ring_build_fits, ring_built, splash_index_fits, splash_staged,
    splash_z, trigger_code_of, type_of, zone_trigger_code, ObjectInstance,
};
use crate::fence::shutdown_scheduled;
use crate::mission::{journaled, lemma_sim_view, lemma_sim_wf, sim_wf, MissionSim, MissionView};
use crate::objects::{ObjectEffectEntry, ObjectType, ObjectTypeView};
use crate::rng::{draw_at, state_after};
use crate::terrain::dat_type_of;

verus! {

/// The footprint coordinates of an instance stay inside `i32`.
pub open spec fn footprint_fits(o: ObjectInstance, t: ObjectTypeView) -> bool {
    t.w == 0 || t.h == 0 || (o.x + t.w - 1 <= i32::MAX && o.y + t.h - 1 <= i32::MAX)
}

/// Tile `tile` is on the `w x h` map and under instance `o`'s footprint.
pub open spec fn under(o: ObjectInstance, t: ObjectTypeView, w: int, h: int, tile: int) -> bool {
    tile < w * h && covers(o, t, w, tile)
}

/// The simulation after the objective notify of destroyed instance
/// `idx`: outside head-to-head play, in zone 7, for an instance whose id
/// (its low 14 bits) is an objective id 0x44..=0x47, the objective
/// counter counts down; at exactly 0 the objective state turns to phase
/// 3 with its blink and light cells; when the id names a type row, the
/// height pairs of the staged cells under the footprint clear. Other
/// zones notify objectives this library does not hold. `None` when the
/// counter or a footprint coordinate overflows.
pub open spec fn notified(m: MissionView, idx: int) -> Option<MissionView> {
    if m.network_mode == 2 || m.zone != 7 {
        Some(m)
    } else {
        let o = m.objects[idx];
        let key = o.id & 0x3fffi32;
        if !(0x44 <= key <= 0x47) {
            Some(m)
        } else if m.objective_count == i32::MIN {
            None
        } else {
            let cnt = (m.objective_count - 1) as i32;
            let w = m.terrain.width;
            let h = m.terrain.height;
            let hs: Option<Seq<(u8, u8)>> = match type_of(m.object_types, key) {
                None => Some(m.mirror_heights),
                Some(ty) => if !footprint_fits(o, ty) {
                    None
                } else {
                    Some(
                        Seq::new(
                            m.mirror_heights.len(),
                            |t: int|
                                if under(o, ty, w, h, t) {
                                    (0u8, 0u8)
                                } else {
                                    m.mirror_heights[t]
                                },
                        ),
                    )
                },
            };
            match hs {
                None => None,
                Some(heights) => Some(
                    MissionView {
                        objective_count: cnt,
                        objective: if cnt == 0 {
                            (3u32, 0x20u32, 0x32u32)
                        } else {
                            m.objective
                        },
                        mirror_heights: heights,
                        ..m
                    },
                ),
            }
        }
    }
}

/// Tile `tile` lies in rows `[o.y, o.y + i)` of the footprint, or in row
/// `o.y + i` before column `o.x + j`.
pub open spec fn under_upto(
    o: ObjectInstance,
    t: ObjectTypeView,
    w: int,
    h: int,
    i: int,
    j: int,
    tile: int,
) -> bool {
    let tx = tile % w;
    let ty = tile / w;
    &&& tile < w * h
    &&& {
        ||| (o.x <= tx < o.x + t.w && o.y <= ty < o.y + i)
        ||| (ty == o.y + i && o.x <= tx < o.x + j)
    }
}

/// Write `val` over the on-map tiles of instance `o`'s footprint of
/// type `t`.
fn fill_footprint<T: Copy>(v: &mut Vec<T>, o: ObjectInstance, t: &ObjectType, val: T, w: i32, h: i32)
    requires
        w > 0,
        h > 0,
        8 * w * h <= i32::MAX,
    ensures
        final(v)@ == Seq::new(
            old(v)@.len(),
            |tile: int|
                if under(o, t@, w as int, h as int, tile) {
                    val
                } else {
                    old(v)@[tile]
                },
        ),
{
    let ghost g0 = v@;
    let ghost tv = t@;
    assert(w * h <= i32::MAX) by (nonlinear_arith)
        requires
            8 * w * h <= i32::MAX,
            w > 0,
            h > 0,
    ;
    let tw = t.w as i64;
    let th = t.h as i64;
    let mut i: i64 = 0;
    assert(v@ =~= Seq::new(
        g0.len(),
        |tile: int|
            if under_upto(o, tv, w as int, h as int, 0, 0, tile) {
                val
            } else {
                g0[tile]
            },
    ));
    while i < th
        invariant
            0 <= i <= th,
            th == tv.h,
            tw == tv.w,
            tv == t@,
            w > 0,
            h > 0,
            8 * w * h <= i32::MAX,
            w * h <= i32::MAX,
            v@ == Seq::new(
                g0.len(),
                |tile: int|
                    if under_upto(o, tv, w as int, h as int, i as int, 0, tile) {
                        val
                    } else {
                        g0[tile]
                    },
            ),
        decreases th - i,
    {
        let mut j: i64 = 0;
        while j < tw
            invariant
                0 <= i < th,
                0 <= j <= tw,
                th == tv.h,
                tw == tv.w,
                tv == t@,
                w > 0,
                h > 0,
                8 * w * h <= i32::MAX,
                w * h <= i32::MAX,
                v@ == Seq::new(
                    g0.len(),
                    |tile: int|
                        if under_upto(o, tv, w as int, h as int, i as int, j as int, tile) {
                            val
                        } else {
                            g0[tile]
                        },
                ),
            decreases tw - j,
        {
            let x = o.x as i64 + j;
            let y = o.y as i64 + i;
            let in_map = !(x < 0 || y < 0 || x >= w as i64 || y >= h as i64);
            if in_map {
                proof {
                    lemma_tile_of(x as int, y as int, w as int, h as int);
                }
            }
            let tile_i: i64 = if in_map {
                y * w as i64 + x
            } else {
                0
            };
            if !in_map || tile_i as usize >= v.len() {
                assert forall|tile: int| 0 <= tile < g0.len() implies under_upto(
                    o,
                    tv,
                    w as int,
                    h as int,
                    i as int,
                    j + 1,
                    tile,
                ) == under_upto(o, tv, w as int, h as int, i as int, j as int, tile) by {
                    if tile < w * h {
                        lemma_tile_coords(tile, w as int, h as int);
                        if in_map {
                            assert(tile != y * w + x);
                        }
                    }
                }
                assert(v@ =~= Seq::new(
                    g0.len(),
                    |tile: int|
                        if under_upto(o, tv, w as int, h as int, i as int, j + 1, tile) {
                            val
                        } else {
                            g0[tile]
                        },
                ));
            } else {
                proof {
                    assert(under(o, tv, w as int, h as int, y * w + x));
                }
                let tile = tile_i as usize;
                v.set(tile, val);
                assert forall|t2: int| 0 <= t2 < g0.len() implies #[trigger] v@[t2] == (
                if under_upto(o, tv, w as int, h as int, i as int, j + 1, t2) {
                    val
                } else {
                    g0[t2]
                }) by {
                    if t2 < w * h {
                        lemma_tile_coords(t2, w as int, h as int);
                        if t2 != tile as int {
                            assert(!(t2 / (w as int) == y && t2 % (w as int) == x));
                        }
                    }
                }
                assert(v@ =~= Seq::new(
                    g0.len(),
                    |tile: int|
                        if under_upto(o, tv, w as int, h as int, i as int, j + 1, tile) {
                            val
                        } else {
                            g0[tile]
                        },
                ));
            }
            j = j + 1;
        }
        assert forall|tile: int| 0 <= tile < g0.len() implies under_upto(
            o,
            tv,
            w as int,
            h as int,
            i as int,
            tw as int,
            tile,
        ) == under_upto(o, tv, w as int, h as int, i + 1, 0, tile) by {}
        assert(v@ =~= Seq::new(
            g0.len(),
            |tile: int|
                if under_upto(o, tv, w as int, h as int, i + 1, 0, tile) {
                    val
                } else {
                    g0[tile]
                },
        ));
        i = i + 1;
    }
    assert forall|tile: int| 0 <= tile < g0.len() implies under_upto(
        o,
        tv,
        w as int,
        h as int,
        th as int,
        0,
        tile,
    ) == under(o, tv, w as int, h as int, tile) by {}
    assert(v@ =~= Seq::new(
        g0.len(),
        |tile: int|
            if under(o, t@, w as int, h as int, tile) {
                val
            } else {
                g0[tile]
            },
    ));
}


/// A template bank word, 0 past the bank.
pub open spec fn bank_word(b: Seq<u16>, lin: int) -> u16 {
    if 0 <= lin < b.len() {
        b[lin]
    } else {
        0
    }
}

/// The restore of one footprint cell (level `zz`, row `i`, column `j` of
/// a footprint at origin `(ox, oy)`): an on-map cell whose template index
/// `(zz*h + i)*w + j` lies inside the `w*h*d` template takes the under
/// TOT word in its mirror cell (seen 1 exactly where the under DAT word
/// is 0, journaled) and the under DAT word's low byte as its DAT byte.
/// `None` when the mirror cell is not staged.
pub open spec fn restore_cell(m: MissionView, ox: int, oy: int, ty: ObjectTypeView, zz: int, i: int, j: int) -> Option<
    MissionView,
> {
    let w = m.terrain.width;
    let h = m.terrain.height;
    let x = ox + j;
    let y = oy + i;
    let lin = (zz * ty.h + i) * ty.w + j;
    if x < 0 || y < 0 || x >= w || y >= h || lin >= ty.w * ty.h * ty.d {
        Some(m)
    } else {
        let c = (y * w + x) * 8 + zz;
        let ut = bank_word(ty.bank_under_tot, lin);
        let ud = bank_word(ty.bank_under_dat, lin);
        let seen: u8 = if ud == 0 {
            1
        } else {
            0
        };
        if c >= m.mirror_words.len() {
            None
        } else {
            Some(
                MissionView {
                    mirror_words: m.mirror_words.update(c, ut),
                    mirror_seen: m.mirror_seen.update(c, seen),
                    terrain_writes: journaled(m.terrain_writes, (c as usize, ut, seen)),
                    terrain: dat_written(m.terrain, x, y, zz, (ud & 0xFF) as u8),
                    ..m
                },
            )
        }
    }
}

/// The restore of columns `0..k` of footprint row `i` at level `zz`.
pub open spec fn restore_row(m: MissionView, ox: int, oy: int, ty: ObjectTypeView, zz: int, i: int, k: nat) -> Option<
    MissionView,
>
    decreases k,
{
    if k == 0 {
        Some(m)
    } else {
        match restore_row(m, ox, oy, ty, zz, i, (k - 1) as nat) {
            None => None,
            Some(m1) => restore_cell(m1, ox, oy, ty, zz, i, k - 1),
        }
    }
}

/// The restore of rows `0..k` of the footprint at level `zz`.
pub open spec fn restore_rows(m: MissionView, ox: int, oy: int, ty: ObjectTypeView, zz: int, k: nat) -> Option<
    MissionView,
>
    decreases k,
{
    if k == 0 {
        Some(m)
    } else {
        match restore_rows(m, ox, oy, ty, zz, (k - 1) as nat) {
            None => None,
            Some(m1) => restore_row(m1, ox, oy, ty, zz, k - 1, ty.w as nat),
        }
    }
}

/// The restore of levels `zs..zs + k`.
pub open spec fn restore_levels(m: MissionView, ox: int, oy: int, ty: ObjectTypeView, zs: int, k: nat) -> Option<
    MissionView,
>
    decreases k,
{
    if k == 0 {
        Some(m)
    } else {
        match restore_levels(m, ox, oy, ty, zs, (k - 1) as nat) {
            None => None,
            Some(m1) => restore_rows(m1, ox, oy, ty, zs + k - 1, ty.h as nat),
        }
    }
}

/// The terrain restore under destroyed instance `o` of type `ty`: the
/// levels from `max(o.z, 0)` up to `min(o.z + d, 8)`, each row by row
/// and column by column (see [`restore_cell`]). `None` when a level or
/// footprint coordinate overflows or a mirror cell is not staged.
pub open spec fn restored(m: MissionView, o: ObjectInstance, ty: ObjectTypeView) -> Option<MissionView> {
    if o.z + ty.d > i32::MAX {
        None
    } else {
        let z_end = if o.z + ty.d < 8 {
            o.z + ty.d
        } else {
            8
        };
        let zs = if o.z < 0 {
            0
        } else {
            o.z as int
        };
        if zs >= z_end {
            Some(m)
        } else if !footprint_fits(o, ty) {
            None
        } else {
            restore_levels(m, o.x as int, o.y as int, ty, zs, (z_end - zs) as nat)
        }
    }
}

impl MissionSim {

    /// One restore cell (see [`restore_cell`]).
    fn restore_cell_exec(&mut self, ox: i32, oy: i32, ty: &ObjectType, zz: i32, i: i32, j: i32)
        requires
            old(self).wf(),
            0 <= zz < 8,
            0 <= i < ty.h,
            0 <= j < ty.w,
            ox + j <= i32::MAX,
            oy + i <= i32::MAX,
            restore_cell(old(self)@, ox as int, oy as int, ty@, zz as int, i as int, j as int) is Some,
        ensures
            final(self).wf(),
            final(self)@ == restore_cell(old(self)@, ox as int, oy as int, ty@, zz as int, i as int, j as int).unwrap(),
    {
        let ghost m0 = self@;
        proof {
            lemma_sim_view(self);
            lemma_sim_wf(self);
        }
        let (w, h) = self.terrain.size();
        let x = ox + j;
        let y = oy + i;
        if x < 0 || y < 0 || x >= w || y >= h {
            return;
        }
        let hh = ty.h as u64;
        let ww = ty.w as u64;
        let dd = ty.d as u64;
        let z64 = zz as u64;
        let i64v = i as u64;
        let j64 = j as u64;
        assert(z64 * hh <= 7 * hh) by (nonlinear_arith)
            requires
                z64 <= 7,
        ;
        let a = z64 * hh + i64v;
        assert(a <= 8 * 0xFFFF);
        assert(a * ww <= (8 * 0xFFFF) * ww) by (nonlinear_arith)
            requires
                a <= 8 * 0xFFFF,
        ;
        assert(ww * hh <= 0xFFFF * 0xFFFF && ww * hh * dd <= 0xFFFF * 0xFFFF * 0xFFFF) by (
        nonlinear_arith)
            requires
                ww <= 0xFFFF,
                hh <= 0xFFFF,
                dd <= 0xFFFF,
        ;
        let lin: u64 = a * ww + j64;
        let cells: u64 = ww * hh * dd;
        if lin >= cells {
            return;
        }
        proof {
            lemma_tile_of(x as int, y as int, w as int, h as int);
            assert(8 * (w * h) <= i32::MAX) by (nonlinear_arith)
                requires
                    8 * w * h <= i32::MAX,
                    w > 0,
                    h > 0,
            ;
        }
        let c = ((y * w + x) * 8 + zz) as usize;
        let ut: u16 = if lin < ty.bank_under_tot.len() as u64 {
            ty.bank_under_tot[lin as usize]
        } else {
            0
        };
        let ud: u16 = if lin < ty.bank_under_dat.len() as u64 {
            ty.bank_under_dat[lin as usize]
        } else {
            0
        };
        let seen: u8 = if ud == 0 {
            1
        } else {
            0
        };
        self.write_mirror_cell(c, ut, seen);
        proof {
            lemma_sim_view(self);
        }
        self.terrain.dat_write(x, y, zz, (ud & 0xFF) as u8);
        proof {
            lemma_sim_view(self);
            lemma_sim_wf(self);
            assert(self@ =~= restore_cell(m0, ox as int, oy as int, ty@, zz as int, i as int, j as int).unwrap());
        }
    }

    /// The terrain restore under destroyed instance `o` (see
    /// [`restored`]).
    fn restore_footprint(&mut self, o: ObjectInstance, ty: &ObjectType)
        requires
            old(self).wf(),
            restored(old(self)@, o, ty@) is Some,
        ensures
            final(self).wf(),
            final(self)@ == restored(old(self)@, o, ty@).unwrap(),
    {
        let ghost m0 = self@;
        let ghost tv = ty@;
        let z_end: i32 = if o.z as i64 + (ty.d as i64) < 8 {
            o.z + ty.d as i32
        } else {
            8
        };
        let zs: i32 = if o.z < 0 {
            0
        } else {
            o.z
        };
        if zs >= z_end {
            return;
        }
        let mut zz = zs;
        while zz < z_end
            invariant
                0 <= zs <= zz <= z_end <= 8,
                self.wf(),
                footprint_fits(o, tv),
                tv == ty@,
                restore_levels(m0, o.x as int, o.y as int, tv, zs as int, (z_end - zs) as nat) is Some,
                restore_levels(m0, o.x as int, o.y as int, tv, zs as int, (zz - zs) as nat) == Some(self@),
            decreases z_end - zz,
        {
            proof {
                lemma_levels_prefix(m0, o.x as int, o.y as int, tv, zs as int, (zz - zs + 1) as nat, (z_end - zs) as nat);
            }
            let ghost mz = self@;
            let mut i: i32 = 0;
            while i < ty.h as i32
                invariant
                    0 <= i <= tv.h,
                    0 <= zz < 8,
                    self.wf(),
                    footprint_fits(o, tv),
                    tv == ty@,
                    restore_rows(mz, o.x as int, o.y as int, tv, zz as int, tv.h as nat) is Some,
                    restore_rows(mz, o.x as int, o.y as int, tv, zz as int, i as nat) == Some(self@),
                decreases tv.h - i,
            {
                proof {
                    lemma_rows_prefix(mz, o.x as int, o.y as int, tv, zz as int, (i + 1) as nat, tv.h as nat);
                }
                let ghost mi = self@;
                let mut j: i32 = 0;
                while j < ty.w as i32
                    invariant
                        0 <= j <= tv.w,
                        0 <= i < tv.h,
                        0 <= zz < 8,
                        self.wf(),
                        footprint_fits(o, tv),
                        tv == ty@,
                        restore_row(mi, o.x as int, o.y as int, tv, zz as int, i as int, tv.w as nat) is Some,
                        restore_row(mi, o.x as int, o.y as int, tv, zz as int, i as int, j as nat) == Some(self@),
                    decreases tv.w - j,
                {
                    proof {
                        lemma_row_prefix(mi, o.x as int, o.y as int, tv, zz as int, i as int, (j + 1) as nat, tv.w as nat);
                    }
                    self.restore_cell_exec(o.x, o.y, ty, zz, i, j);
                    j = j + 1;
                }
                i = i + 1;
            }
            zz = zz + 1;
        }
    }
    /// The objective notify of destroyed instance `idx` (see
    /// [`notified`]).
    fn objective_notify(&mut self, idx: usize)
        requires
            old(self).wf(),
            idx < old(self)@.objects.len(),
            notified(old(self)@, idx as int) is Some,
        ensures
            final(self).wf(),
            final(self)@ == notified(old(self)@, idx as int).unwrap(),
    {
        let ghost m0 = self@;
        proof {
            lemma_sim_view(self);
            lemma_sim_wf(self);
        }
        if self.network_mode == 2 || self.zone != 7 {
            return;
        }
        let o = self.objects[idx];
        let key = o.id & 0x3fff;
        if !(0x44 <= key && key <= 0x47) {
            return;
        }
        self.objective_count = self.objective_count - 1;
        if self.objective_count == 0 {
            self.objective_phase = 3;
            self.objective_blink = 0x20;
            self.objective_light = 0x32;
        }
        if (key as usize) < self.object_types.len() {
            let ty = crate::destroy::copy_type(&self.object_types[key as usize]);
            let (w, h) = self.terrain.size();
            proof {
                lemma_sim_view(self);
            }
            fill_footprint(&mut self.mirror_heights, o, &ty, (0u8, 0u8), w, h);
        }
        proof {
            lemma_sim_view(self);
            lemma_sim_wf(self);
            assert(self@ =~= notified(m0, idx as int).unwrap());
        }
    }
}

proof fn lemma_row_prefix(m: MissionView, ox: int, oy: int, ty: ObjectTypeView, zz: int, i: int, k: nat, n: nat)
    requires
        k <= n,
        restore_row(m, ox, oy, ty, zz, i, n) is Some,
    ensures
        restore_row(m, ox, oy, ty, zz, i, k) is Some,
    decreases n - k,
{
    if k < n {
        lemma_row_prefix(m, ox, oy, ty, zz, i, k + 1, n);
    }
}

proof fn lemma_rows_prefix(m: MissionView, ox: int, oy: int, ty: ObjectTypeView, zz: int, k: nat, n: nat)
    requires
        k <= n,
        restore_rows(m, ox, oy, ty, zz, n) is Some,
    ensures
        restore_rows(m, ox, oy, ty, zz, k) is Some,
    decreases n - k,
{
    if k < n {
        lemma_rows_prefix(m, ox, oy, ty, zz, k + 1, n);
    }
}

proof fn lemma_levels_prefix(m: MissionView, ox: int, oy: int, ty: ObjectTypeView, zs: int, k: nat, n: nat)
    requires
        k <= n,
        restore_levels(m, ox, oy, ty, zs, n) is Some,
    ensures
        restore_levels(m, ox, oy, ty, zs, k) is Some,
    decreases n - k,
{
    if k < n {
        lemma_levels_prefix(m, ox, oy, ty, zs, k + 1, n);
    }
}


/// `v` is a value of `i32`.
pub open spec fn fits_i32(v: int) -> bool {
    i32::MIN <= v <= i32::MAX
}

/// A draw masked to its low bits stays within the mask.
pub(crate) proof fn lemma_draw_masks(r: u32)
    ensures
        r & 1u32 <= 1u32,
        r & 3u32 <= 3u32,
        r & 7u32 <= 7u32,
        r & 0xFu32 <= 0xFu32,
        r & 0x1Fu32 <= 0x1Fu32,
        r & 0x3Fu32 <= 0x3Fu32,
        r & 0xFFu32 <= 0xFFu32,
        r & 0x7FFFu32 <= 0x7FFFu32,
{
    assert(r & 1u32 <= 1u32 && r & 3u32 <= 3u32 && r & 7u32 <= 7u32 && r & 0xFu32 <= 0xFu32 && r & 0x1Fu32
        <= 0x1Fu32 && r & 0x3Fu32 <= 0x3Fu32 && r & 0xFFu32 <= 0xFFu32 && r & 0x7FFFu32 <= 0x7FFFu32) by (bit_vector);
}

/// One draw from the shared mission stream: the value drawn and the
/// simulation after it.
#[verifier::opaque]
pub open spec fn drawn(m: MissionView) -> (u32, MissionView) {
    (draw_at(m.rng.0, m.rng.1, 0), MissionView { rng: (state_after(m.rng.0, m.rng.1, 1), m.rng.1), ..m })
}

/// Debris of `kind` staged at world Q5 position `(x, y)` and height `z`
/// (see [`debris_staged`]); a refused request changes nothing. `None`
/// when a coordinate or the delay leaves `i32` or the staging would
/// overflow.
#[verifier::opaque]
pub open spec fn debris_step(m: MissionView, x: int, y: int, z: int, kind: i32, delay: int, param: i32) -> Option<
    MissionView,
> {
    if !(fits_i32(x) && fits_i32(y) && fits_i32(z) && fits_i32(delay)) || !debris_fits(m, x as i32, y as i32, kind) {
        None
    } else {
        Some(
            match debris_staged(m, x as i32, y as i32, z as i32, kind, delay as i32, param) {
                Some(m1) => m1,
                None => m,
            },
        )
    }
}

/// A debris staging that [`debris_step`] allows has its arguments in
/// `i32`.
pub(crate) proof fn lemma_debris_step_fits(m: MissionView, x: int, y: int, z: int, kind: i32, delay: int, param: i32)
    requires
        debris_step(m, x, y, z, kind, delay, param) is Some,
    ensures
        fits_i32(x),
        fits_i32(y),
        fits_i32(z),
        fits_i32(delay),
{
    reveal(debris_step);
}

/// A splash staged at tile `(x, y)` and level `z` (see
/// [`splash_staged`]); a refused request changes nothing. `None` when a
/// coordinate leaves `i32` or the cell index would overflow.
#[verifier::opaque]
pub open spec fn splash_step(m: MissionView, x: int, y: int, z: int, delay: u16) -> Option<MissionView> {
    if !(fits_i32(x) && fits_i32(y) && fits_i32(z)) || !splash_index_fits(m, x as i32, y as i32, z as i32) {
        None
    } else {
        Some(
            match splash_staged(m, x as i32, y as i32, z as i32, delay) {
                Some(m1) => m1,
                None => m,
            },
        )
    }
}

/// `k` steps of the splash scatter from tile `(sx, sy)`: each step draws
/// twice, moves one tile left on the first draw's low bit and one tile up
/// on the second's, and stages a splash there at the water level probed
/// from level `ez`.
pub open spec fn scatter(m: MissionView, sx: int, sy: int, ez: int, k: nat) -> Option<MissionView>
    decreases k,
{
    if k == 0 {
        Some(m)
    } else {
        let (a, m1) = drawn(m);
        let (b, m2) = drawn(m1);
        let nx = sx - (a & 1u32) as int;
        let ny = sy - (b & 1u32) as int;
        if !(fits_i32(nx) && fits_i32(ny) && fits_i32(ez)) {
            None
        } else {
            match splash_step(m2, nx, ny, splash_z(m2, nx as i32, ny as i32, ez as i32), 0) {
                None => None,
                Some(m3) => scatter(m3, nx, ny, ez, (k - 1) as nat),
            }
        }
    }
}

/// The demolition shower from step `i` of 24: each step draws a tile
/// jitter of `-3..=4` in x and y and a level lift of `0..=3`, probes the
/// water level there, stages kind-14 debris at that tile (delay
/// `base + i/8`) and a splash on it.
pub open spec fn shower(m: MissionView, ex: int, ey: int, ez: int, base: int, p: i32, i: nat) -> Option<
    MissionView,
>
    decreases 24 - i,
{
    if i >= 24 {
        Some(m)
    } else {
        let (a, m1) = drawn(m);
        let (b, m2) = drawn(m1);
        let (c, m3) = drawn(m2);
        let jx = ex + (a & 7u32) as int - 3;
        let jy = ey + (b & 7u32) as int - 3;
        let jz = ez + (c & 3u32) as int;
        if !(fits_i32(ex + (a & 7u32) as int) && fits_i32(jx) && fits_i32(ey + (b & 7u32) as int) && fits_i32(jy)
            && fits_i32(jz)) {
            None
        } else {
            let pz = splash_z(m3, jx as i32, jy as i32, jz as i32);
            match debris_step(m3, jx * 0x20, jy * 0x20, pz * 0x20, 14, base + i / 8, p) {
                None => None,
                Some(m4) => match splash_step(m4, jx, jy, pz, 0) {
                    None => None,
                    Some(m5) => shower(m5, ex, ey, ez, base, p, i + 1),
                },
            }
        }
    }
}

/// The 3x3 splash ring from cell `k` of 9 (columns `ex-2..ex+1` outer,
/// rows `ey-2..ey+1` inner): each cell draws once and stages a splash at
/// level `pz` delayed by `base` plus the draw's two low bits.
pub open spec fn ring_splash(m: MissionView, ex: int, ey: int, pz: int, base: int, k: nat) -> Option<MissionView>
    decreases 9 - k,
{
    if k >= 9 {
        Some(m)
    } else {
        let (a, m1) = drawn(m);
        let d = base + (a & 3u32) as int;
        if !fits_i32(d) {
            None
        } else {
            match splash_step(m1, ex - 2 + k / 3, ey - 2 + k % 3, pz, d as u16) {
                None => None,
                Some(m2) => ring_splash(m2, ex, ey, pz, base, k + 1),
            }
        }
    }
}

/// The gib kind and Q5 offsets of effect selectors 2 to 5.
pub open spec fn gib(sel: u16) -> (i32, int, int) {
    if sel == 2 {
        (18, 0x10, 0x30)
    } else if sel == 3 {
        (17, 0x30, 0x10)
    } else if sel == 4 {
        (16, 0x20, -0x10)
    } else {
        (19, -0x20, 0)
    }
}

/// Destroy effect `e` (entry `mi`) of destroyed instance `o`, at the
/// tile `o + (dx, dy, dz)`. Selector 1: kind-14 debris at the tile
/// center, a splash at the probed water level, the scatter. 2 to 5: one
/// gib (see [`gib`]) and the scatter. 6, 7: a quiet kind-10 collapse.
/// 8: kind-14 debris and the demolition shower. 9: kind-20 debris and
/// the 3x3 splash ring at the level probed one tile up-left (at most 7).
/// Other selectors do nothing. The debris of selectors 1, 8 and 9 is
/// delayed by `counter + mi`; the score flag rides as the debris
/// parameter (the collapses take -1). `None` when a coordinate or delay
/// leaves `i32` or a staging would overflow.
pub open spec fn effect(m: MissionView, o: ObjectInstance, e: ObjectEffectEntry, mi: int, counter: i32, flag: bool) -> Option<
    MissionView,
> {
    let sel = e.selector;
    let ex = o.x + e.dx;
    let ey = o.y + e.dy;
    let ez = o.z + e.dz;
    let p: i32 = if flag {
        1
    } else {
        0
    };
    if !(1 <= sel <= 9) {
        Some(m)
    } else if !(fits_i32(ex) && fits_i32(ey) && fits_i32(ez) && fits_i32(ex * 0x20) && fits_i32(ey * 0x20)
        && fits_i32(ez * 0x20)) {
        None
    } else if sel == 1 {
        match debris_step(m, ex * 0x20 + 0xF, ey * 0x20 + 0xF, ez * 0x20, 14, counter + mi, p) {
            None => None,
            Some(m1) => match splash_step(m1, ex, ey, splash_z(m1, ex as i32, ey as i32, ez as i32), 0) {
                None => None,
                Some(m2) => scatter(m2, ex, ey, ez, 4),
            },
        }
    } else if sel <= 5 {
        let (kind, dx, dy) = gib(sel);
        match debris_step(m, ex * 0x20 + dx, ey * 0x20 + dy, ez * 0x20, kind, 0, p) {
            None => None,
            Some(m1) => scatter(m1, ex, ey, ez, 4),
        }
    } else if sel <= 7 {
        let dx: int = if sel == 6 {
            0x10
        } else {
            0x20
        };
        let dy: int = if sel == 6 {
            0x20
        } else {
            0x10
        };
        debris_step(m, ex * 0x20 + dx, ey * 0x20 + dy, ez * 0x20, 10, 0, -1i32)
    } else if sel == 8 {
        match debris_step(m, ex * 0x20 + 0xF, ey * 0x20 + 0xF, ez * 0x20, 14, counter + mi, p) {
            None => None,
            Some(m1) => shower(m1, ex, ey, ez, counter + mi, p, 0),
        }
    } else {
        if !(fits_i32(ex - 2) && fits_i32(ey - 2) && fits_i32(ex + 1) && fits_i32(ey + 1) && fits_i32(counter + 2)) {
            None
        } else {
            match debris_step(m, ex * 0x20 + 0xF, ey * 0x20 + 0xF, ez * 0x20 + 0xF, 20, counter + mi, p) {
                None => None,
                Some(m1) => {
                    let pz0 = splash_z(m1, (ex - 1) as i32, (ey - 1) as i32, ez as i32);
                    let pz = if pz0 >= 7 {
                        7
                    } else {
                        pz0
                    };
                    ring_splash(m1, ex, ey, pz, counter + 2, 0)
                },
            }
        }
    }
}

/// The destroy effects of instance `o` from entry `k` on, in entry order.
pub open spec fn effects_from(
    m: MissionView,
    o: ObjectInstance,
    effs: Seq<ObjectEffectEntry>,
    counter: i32,
    flag: bool,
    k: nat,
) -> Option<MissionView>
    decreases effs.len() - k,
{
    if k >= effs.len() {
        Some(m)
    } else {
        match effect(m, o, effs[k as int], k as int, counter, flag) {
            None => None,
            Some(m1) => effects_from(m1, o, effs, counter, flag, k + 1),
        }
    }
}


impl MissionSim {

    /// One draw from the shared mission stream (see [`drawn`]).
    pub(crate) fn draw(&mut self) -> (r: u32)
        requires
            old(self).wf(),
        ensures
            final(self).wf(),
            (r, final(self)@) == drawn(old(self)@),
            final(self)@ == (MissionView { rng: final(self)@.rng, ..old(self)@ }),
    {
        proof {
            lemma_sim_wf(self);
            reveal(drawn);
        }
        let r = self.rand_a();
        proof {
            lemma_sim_wf(self);
        }
        r
    }

    /// Debris staged as [`debris_step`] says.
    pub(crate) fn debris_step_exec(&mut self, x: i32, y: i32, z: i32, kind: i32, delay: i32, param: i32)
        requires
            old(self).wf(),
            debris_step(old(self)@, x as int, y as int, z as int, kind, delay as int, param) is Some,
        ensures
            final(self).wf(),
            final(self)@ == debris_step(old(self)@, x as int, y as int, z as int, kind, delay as int, param).unwrap(),
            final(self)@.critters == old(self)@.critters,
            final(self)@.robots == old(self)@.robots,
            final(self)@.player_type == old(self)@.player_type,
            final(self)@.score_pending == old(self)@.score_pending,
    {
        proof {
            reveal(debris_step);
            reveal(debris_staged);
        }
        self.stage_debris(x, y, z, kind, delay, param);
    }

    /// A splash staged as [`splash_step`] says.
    pub(crate) fn splash_step_exec(&mut self, x: i32, y: i32, z: i32, delay: u16)
        requires
            old(self).wf(),
            splash_step(old(self)@, x as int, y as int, z as int, delay) is Some,
        ensures
            final(self).wf(),
            final(self)@ == splash_step(old(self)@, x as int, y as int, z as int, delay).unwrap(),
            final(self)@.critters == old(self)@.critters,
    {
        proof {
            reveal(splash_step);
        }
        self.stage_splash(x, y, z, delay);
    }

    /// The splash scatter from tile `(ex, ey)` (see [`scatter`]).
    fn scatter_exec(&mut self, ex: i32, ey: i32, ez: i32)
        requires
            old(self).wf(),
            scatter(old(self)@, ex as int, ey as int, ez as int, 4) is Some,
        ensures
            final(self).wf(),
            final(self)@ == scatter(old(self)@, ex as int, ey as int, ez as int, 4).unwrap(),
    {
        let ghost total = scatter(self@, ex as int, ey as int, ez as int, 4);
        let mut sx = ex;
        let mut sy = ey;
        let mut i: u32 = 0;
        while i < 4
            invariant
                i <= 4,
                self.wf(),
                total is Some,
                scatter(self@, sx as int, sy as int, ez as int, (4 - i) as nat) == total,
            decreases 4 - i,
        {
            let a = self.draw();
            let b = self.draw();
            proof {
                lemma_draw_masks(a);
            }
            proof {
                lemma_draw_masks(b);
            }
            sx = sx - (a & 1) as i32;
            sy = sy - (b & 1) as i32;
            let pz = self.splash_probe_z(sx, sy, ez);
            self.splash_step_exec(sx, sy, pz, 0);
            i = i + 1;
        }
    }

    /// The demolition shower around tile `(ex, ey)` (see [`shower`]).
    #[verifier::rlimit(60)]
    #[verifier::spinoff_prover]
    fn shower_exec(&mut self, ex: i32, ey: i32, ez: i32, base: i32, p: i32)
        requires
            old(self).wf(),
            shower(old(self)@, ex as int, ey as int, ez as int, base as int, p, 0) is Some,
        ensures
            final(self).wf(),
            final(self)@ == shower(old(self)@, ex as int, ey as int, ez as int, base as int, p, 0).unwrap(),
    {
        let ghost total = shower(self@, ex as int, ey as int, ez as int, base as int, p, 0);
        let mut i: i32 = 0;
        while i < 24
            invariant
                0 <= i <= 24,
                self.wf(),
                total is Some,
                shower(self@, ex as int, ey as int, ez as int, base as int, p, i as nat) == total,
            decreases 24 - i,
        {
            let a = self.draw();
            proof {
                lemma_draw_masks(a);
            }
            let jx = ex + (a & 7) as i32 - 3;
            let b = self.draw();
            proof {
                lemma_draw_masks(b);
            }
            let jy = ey + (b & 7) as i32 - 3;
            let c = self.draw();
            proof {
                lemma_draw_masks(c);
            }
            let jz = ez + (c & 3) as i32;
            let pz = self.splash_probe_z(jx, jy, jz);
            proof {
                lemma_debris_step_fits(self@, jx * 0x20, jy * 0x20, pz * 0x20, 14, base + i / 8, p);
            }
            self.debris_step_exec(jx * 0x20, jy * 0x20, pz * 0x20, 14, base + i / 8, p);
            self.splash_step_exec(jx, jy, pz, 0);
            i = i + 1;
        }
    }

    /// The 3x3 splash ring up-left of tile `(ex, ey)` (see
    /// [`ring_splash`]).
    fn ring_splash_exec(&mut self, ex: i32, ey: i32, pz: i32, base: i32)
        requires
            old(self).wf(),
            fits_i32(ex - 2),
            fits_i32(ey - 2),
            fits_i32(ex + 1),
            fits_i32(ey + 1),
            ring_splash(old(self)@, ex as int, ey as int, pz as int, base as int, 0) is Some,
        ensures
            final(self).wf(),
            final(self)@ == ring_splash(old(self)@, ex as int, ey as int, pz as int, base as int, 0).unwrap(),
    {
        let ghost total = ring_splash(self@, ex as int, ey as int, pz as int, base as int, 0);
        let mut k: i32 = 0;
        while k < 9
            invariant
                0 <= k <= 9,
                self.wf(),
                fits_i32(ex - 2),
                fits_i32(ey - 2),
                fits_i32(ex + 1),
                fits_i32(ey + 1),
                total is Some,
                ring_splash(self@, ex as int, ey as int, pz as int, base as int, k as nat) == total,
            decreases 9 - k,
        {
            let a = self.draw();
            proof {
                lemma_draw_masks(a);
            }
            let d = base + (a & 3) as i32;
            let c = ex - 2 + k / 3;
            let r = ey - 2 + k % 3;
            self.splash_step_exec(c, r, pz, d as u16);
            k = k + 1;
        }
    }

    /// Destroy effect `e` (entry `mi`) of instance `o` (see [`effect`]).
    #[verifier::rlimit(60)]
    #[verifier::spinoff_prover]
    fn effect_exec(&mut self, o: ObjectInstance, e: ObjectEffectEntry, mi: i32, counter: i32, flag: bool)
        requires
            old(self).wf(),
            0 <= mi < 5,
            effect(old(self)@, o, e, mi as int, counter, flag) is Some,
        ensures
            final(self).wf(),
            final(self)@ == effect(old(self)@, o, e, mi as int, counter, flag).unwrap(),
    {
        let sel = e.selector;
        if sel < 1 || sel > 9 {
            return;
        }
        let ex = o.x + e.dx as i32;
        let ey = o.y + e.dy as i32;
        let ez = o.z + e.dz as i32;
        let p: i32 = if flag {
            1
        } else {
            0
        };
        if sel == 1 {
            proof {
                lemma_debris_step_fits(self@, ex * 0x20 + 0xF, ey * 0x20 + 0xF, ez * 0x20, 14, counter + mi, p);
            }
            self.debris_step_exec(ex * 0x20 + 0xF, ey * 0x20 + 0xF, ez * 0x20, 14, counter + mi, p);
            let pz = self.splash_probe_z(ex, ey, ez);
            self.splash_step_exec(ex, ey, pz, 0);
            self.scatter_exec(ex, ey, ez);
        } else if sel <= 5 {
            let (kind, dx, dy): (i32, i32, i32) = if sel == 2 {
                (18, 0x10, 0x30)
            } else if sel == 3 {
                (17, 0x30, 0x10)
            } else if sel == 4 {
                (16, 0x20, -0x10)
            } else {
                (19, -0x20, 0)
            };
            assert(kind == gib(sel).0 && dx == gib(sel).1 && dy == gib(sel).2);
            proof {
                lemma_debris_step_fits(self@, ex * 0x20 + dx, ey * 0x20 + dy, ez * 0x20, kind, 0, p);
            }
            self.debris_step_exec(ex * 0x20 + dx, ey * 0x20 + dy, ez * 0x20, kind, 0, p);
            self.scatter_exec(ex, ey, ez);
        } else if sel <= 7 {
            let (dx, dy): (i32, i32) = if sel == 6 {
                (0x10, 0x20)
            } else {
                (0x20, 0x10)
            };
            proof {
                lemma_debris_step_fits(self@, ex * 0x20 + dx, ey * 0x20 + dy, ez * 0x20, 10, 0, -1i32);
            }
            self.debris_step_exec(ex * 0x20 + dx, ey * 0x20 + dy, ez * 0x20, 10, 0, -1);
        } else if sel == 8 {
            proof {
                lemma_debris_step_fits(self@, ex * 0x20 + 0xF, ey * 0x20 + 0xF, ez * 0x20, 14, counter + mi, p);
            }
            self.debris_step_exec(ex * 0x20 + 0xF, ey * 0x20 + 0xF, ez * 0x20, 14, counter + mi, p);
            self.shower_exec(ex, ey, ez, counter + mi, p);
        } else {
            proof {
                lemma_debris_step_fits(self@, ex * 0x20 + 0xF, ey * 0x20 + 0xF, ez * 0x20 + 0xF, 20, counter + mi, p);
            }
            self.debris_step_exec(ex * 0x20 + 0xF, ey * 0x20 + 0xF, ez * 0x20 + 0xF, 20, counter + mi, p);
            let pz = self.splash_probe_z(ex - 1, ey - 1, ez);
            let pz = if pz >= 7 {
                7
            } else {
                pz
            };
            self.ring_splash_exec(ex, ey, pz, counter + 2);
        }
    }

    /// The destroy effects of instance `o` of type `ty` (see
    /// [`effects_from`]).
    fn effects_exec(&mut self, o: ObjectInstance, ty: &ObjectType, counter: i32, flag: bool)
        requires
            old(self).wf(),
            effects_from(old(self)@, o, ty@.effects, counter, flag, 0) is Some,
        ensures
            final(self).wf(),
            final(self)@ == effects_from(old(self)@, o, ty@.effects, counter, flag, 0).unwrap(),
    {
        let ghost total = effects_from(self@, o, ty@.effects, counter, flag, 0);
        assert(ty@.effects.len() == 5);
        let mut k: usize = 0;
        while k < 5
            invariant
                k <= 5,
                self.wf(),
                ty@.effects.len() == 5,
                total is Some,
                effects_from(self@, o, ty@.effects, counter, flag, k as nat) == total,
            decreases 5 - k,
        {
            self.effect_exec(o, ty.effects[k], k as i32, counter, flag);
            k = k + 1;
        }
    }
}


/// The number of chain-walk candidates around a `tw x th` footprint: the
/// north and south rows (`tw + 2` each, corners included) and the west
/// and east edges (`th` each).
pub open spec fn chain_len(tw: int, th: int) -> int {
    2 * (tw + 2) + 2 * th
}

/// Chain-walk candidate `k` around instance `o`'s `tw x th` footprint:
/// the tile `(x, y)` examined and the row `qy` that the detonation
/// targets. In the north row `(o.x + j, o.y - 1)`, `j` from -1 to `tw`;
/// in the south row `(o.x + j, o.y + th)`, which detonates in row
/// `o.y + tw`; in the west edge `(o.x - 1, o.y + j)`, `j` below `th`; in
/// the east edge `(o.x + tw, o.y + j)`.
pub open spec fn chain_site(o: ObjectInstance, tw: int, th: int, k: int) -> (int, int, int) {
    if k < tw + 2 {
        (o.x + k - 1, o.y - 1, o.y - 1)
    } else if k < 2 * (tw + 2) {
        (o.x + (k - tw - 2) - 1, o.y + th, o.y + tw)
    } else if k < 2 * (tw + 2) + th {
        (o.x - 1, o.y + (k - 2 * (tw + 2)), o.y + (k - 2 * (tw + 2)))
    } else {
        (o.x + tw, o.y + (k - 2 * (tw + 2) - th), o.y + (k - 2 * (tw + 2) - th))
    }
}

/// The walk rows and edges around instance `o`'s footprint stay inside
/// `i32`.
pub open spec fn walks_fit(o: ObjectInstance, tw: int, th: int) -> bool {
    fits_i32(o.y - 1) && fits_i32(o.y + th) && fits_i32(o.x - 1) && fits_i32(o.x + tw)
}

/// One chain-walk candidate at tile `(x, y)` with the counter at `ctr`:
/// off the inner map (`x` and `y` must be positive), on a word that is
/// 0, 1 or negative as `i16`, or on a missing, destroyed or non-chaining
/// instance, nothing happens. Otherwise one draw; when its two low bits
/// are 0 the counter counts up; then a damage-1000 impact (see
/// [`impact`]) at tile `(x, qy)` with that counter and the score flag.
/// The result is the simulation and the counter. `None` when the impact
/// is `None`, the counter or a Q13 coordinate leaves `i32`, or no fuel
/// is left.
pub open spec fn chain_at(m: MissionView, x: int, y: int, qy: int, ctr: i32, flag: bool, fuel: nat) -> Option<
    (MissionView, i32),
>
    decreases fuel, 0int, 0int,
{
    let w = m.terrain.width;
    let h = m.terrain.height;
    if !(0 < x < w && 0 < y < h) {
        Some((m, ctr))
    } else {
        let word = grid_word_at(m, x as i32, y as i32);
        let n = word - 1;
        if word <= 1 || word >= 0x8000 || n >= m.objects.len() || m.objects[n].destroyed {
            Some((m, ctr))
        } else {
            match type_of(m.object_types, m.objects[n].id) {
                None => Some((m, ctr)),
                Some(t) => if t.chain == 0 {
                    Some((m, ctr))
                } else {
                    let (roll, m1) = drawn(m);
                    let c1 = if roll & 3u32 == 0u32 {
                        ctr + 1
                    } else {
                        ctr as int
                    };
                    if !fits_i32(c1) || !fits_i32(x * 0x2000) || !fits_i32(qy * 0x2000) || fuel == 0 {
                        None
                    } else {
                        match impact(
                            m1,
                            (x * 0x2000) as i32,
                            (qy * 0x2000) as i32,
                            c1 as i32,
                            1000,
                            flag,
                            (fuel - 1) as nat,
                        ) {
                            None => None,
                            Some(r) => Some((r.0, c1 as i32)),
                        }
                    }
                },
            }
        }
    }
}

/// The chain walks around instance `o`'s `tw x th` footprint from
/// candidate `k` on (see [`chain_site`], [`chain_at`]), the counter
/// carried from candidate to candidate.
pub open spec fn walks(m: MissionView, o: ObjectInstance, tw: int, th: int, ctr: i32, flag: bool, fuel: nat, k: nat) -> Option<
    (MissionView, i32),
>
    decreases fuel, 0int, chain_len(tw, th) - k + 1,
{
    if k >= chain_len(tw, th) {
        Some((m, ctr))
    } else {
        let (x, y, qy) = chain_site(o, tw, th, k as int);
        match chain_at(m, x, y, qy, ctr, flag, fuel) {
            None => None,
            Some(r) => walks(r.0, o, tw, th, r.1, flag, fuel, k + 1),
        }
    }
}

/// The destroy tail of instance `idx` (just marked destroyed): outside
/// zone 1 the objective notify (see [`notified`]); the fence shutdown of
/// its id (see [`shutdown_scheduled`]); when its id is the zone's
/// trigger code, the strength-0x12C platform ring at its tile (see
/// [`ring_built`]). Then, unless its type is missing or is kind 0xb
/// under language 1: the terrain restore (see [`restored`]), the destroy
/// effects (see [`effects_from`]), with the score flag the award (10 for
/// kind 0xb, else the kind) and the strip arm, and the chain walks (see
/// [`walks`]). `None` when a step is `None` or overflows.
pub open spec fn tail(m: MissionView, idx: int, counter: i32, flag: bool, fuel: nat) -> Option<MissionView>
    decreases fuel, 2int, 0int,
{
    let o = m.objects[idx];
    let m1o = if m.zone != 1 {
        notified(m, idx)
    } else {
        Some(m)
    };
    match m1o {
        None => None,
        Some(m1) => {
            let m2 = shutdown_scheduled(m1, o.id);
            let m3o = if trigger_code_of(m2.zone, m2.mission_no) == Some(o.id) {
                if ring_build_fits(m2, o.x, o.y, o.z, 0x12C) {
                    Some(ring_built(m2, o.x, o.y, o.z, 0x12C, 8))
                } else {
                    None
                }
            } else {
                Some(m2)
            };
            match m3o {
                None => None,
                Some(m3) => match type_of(m3.object_types, o.id) {
                    None => Some(m3),
                    Some(ty) => if ty.kind == 0xb && m3.language == 1 {
                        Some(m3)
                    } else {
                        tail_effects(m3, o, ty, counter, flag, fuel)
                    },
                },
            }
        },
    }
}

/// The part of [`tail`] from the terrain restore on.
pub open spec fn tail_effects(m: MissionView, o: ObjectInstance, ty: ObjectTypeView, counter: i32, flag: bool, fuel: nat) -> Option<
    MissionView,
>
    decreases fuel, 1int, 0int,
{
    match restored(m, o, ty) {
        None => None,
        Some(m4) => match effects_from(m4, o, ty.effects, counter, flag, 0) {
            None => None,
            Some(m5) => {
                let award: int = if ty.kind == 0xb {
                    10
                } else {
                    ty.kind as int
                };
                if (flag && !fits_i32(m5.score_pending + award)) || !walks_fit(o, ty.w as int, ty.h as int) {
                    None
                } else {
                    let m6 = if flag {
                        MissionView { score_pending: (m5.score_pending + award) as i32, strip_arm: true, ..m5 }
                    } else {
                        m5
                    };
                    match walks(m6, o, ty.w as int, ty.h as int, counter, flag, fuel, 0) {
                        None => None,
                        Some(r) => Some(r.0),
                    }
                }
            },
        },
    }
}

/// A weapon impact of `damage` at Q13 world position `(x, y)` with chain
/// counter `counter` and score flag `flag`: the simulation after it and
/// whether an object was destroyed. Off the map, on an unstaged tile, or
/// on an object-grid word of 0, 0x7D2 or 0x7D3 nothing happens; on 0x7D4
/// the platform takes the damage (see [`platform_damaged`]); otherwise
/// the word names instance `word - 1`. A missing, destroyed or immune
/// (hp -1) instance is untouched; otherwise its hp drops by `damage`,
/// and at 0 or below it is marked destroyed with hp 0 and the destroy
/// tail runs (see [`tail`]). `None` when the hp or a later step
/// overflows or the chain nests deeper than `fuel`.
pub open spec fn impact(m: MissionView, x: i32, y: i32, counter: i32, damage: i32, flag: bool, fuel: nat) -> Option<
    (MissionView, bool),
>
    decreases fuel, 3int, 0int,
{
    let w = m.terrain.width;
    let h = m.terrain.height;
    let tx = x >> 13u32;
    let ty = y >> 13u32;
    if x < 0 || y < 0 || tx >= w || ty >= h {
        Some((m, false))
    } else {
        let t = ty * w + tx;
        if t >= m.object_grid.len() {
            Some((m, false))
        } else {
            let word = m.object_grid[t];
            if word == 0 || word == 0x7d2 || word == 0x7d3 {
                Some((m, false))
            } else if word == 0x7d4 {
                if platform_damage_fits(m, tx, ty, damage) {
                    Some((platform_damaged(m, tx, ty, damage), false))
                } else {
                    None
                }
            } else {
                let idx = word - 1;
                if idx >= m.objects.len() {
                    Some((m, false))
                } else {
                    let o = m.objects[idx];
                    if o.destroyed || o.hp == -1 {
                        Some((m, false))
                    } else if !fits_i32(o.hp - damage) {
                        None
                    } else if o.hp - damage > 0 {
                        Some(
                            (
                                MissionView {
                                    objects: m.objects.update(idx, ObjectInstance { hp: (o.hp - damage) as i32, ..o }),
                                    ..m
                                },
                                false,
                            ),
                        )
                    } else {
                        let m1 = MissionView {
                            objects: m.objects.update(idx, ObjectInstance { hp: 0, destroyed: true, ..o }),
                            ..m
                        };
                        match tail(m1, idx, counter, flag, fuel) {
                            None => None,
                            Some(m2) => Some((m2, true)),
                        }
                    }
                }
            }
        }
    }
}

/// The chain depth an impact is given: one more than the number of
/// objects. Any depth above the number of live objects gives the same
/// outcome (see [`lemma_impact_depth_irrelevant`]).
pub open spec fn chain_fuel(m: MissionView) -> nat {
    m.objects.len() + 1
}


impl MissionSim {

    /// One chain-walk candidate (see [`chain_at`]); returns the counter.
    fn chain_candidate(&mut self, x: i32, y: i32, qy: i64, ctr: i32, flag: bool, Ghost(fuel): Ghost<nat>) -> (c: i32)
        requires
            old(self).wf(),
            chain_at(old(self)@, x as int, y as int, qy as int, ctr, flag, fuel) is Some,
        ensures
            final(self).wf(),
            (final(self)@, c) == chain_at(old(self)@, x as int, y as int, qy as int, ctr, flag, fuel).unwrap(),
        decreases fuel, 0int, 0int,
    {
        proof {
            lemma_sim_view(self);
            lemma_sim_wf(self);
        }
        let (w, h) = self.terrain.size();
        if !(x > 0 && x < w && y > 0 && y < h) {
            return ctr;
        }
        let word = self.object_grid_word(x, y);
        if word <= 1 || word >= 0x8000 {
            return ctr;
        }
        let n = (word - 1) as usize;
        if n >= self.objects.len() {
            return ctr;
        }
        let inst = self.objects[n];
        if inst.destroyed {
            return ctr;
        }
        if inst.id < 0 || inst.id as usize >= self.object_types.len() {
            return ctr;
        }
        assert(self@.object_types[inst.id as int] == self.object_types@[inst.id as int]@);
        if self.object_types[inst.id as usize].chain == 0 {
            return ctr;
        }
        let roll = self.draw();
        let c1 = if roll & 3 == 0 {
            ctr + 1
        } else {
            ctr
        };
        let qq = (qy * 0x2000) as i32;
        let _ = self.resolve_impact_fueled(x * 0x2000, qq, c1, 1000, flag, Ghost((fuel - 1) as nat));
        c1
    }

    /// The four chain walks around instance `o`'s `tw x th` footprint
    /// (see [`walks`]): the north row, the south row, the west edge, the
    /// east edge.
    fn chain_walks(&mut self, o: ObjectInstance, tw: u16, th: u16, counter: i32, flag: bool, Ghost(fuel): Ghost<nat>)
        requires
            old(self).wf(),
            walks_fit(o, tw as int, th as int),
            walks(old(self)@, o, tw as int, th as int, counter, flag, fuel, 0) is Some,
        ensures
            final(self).wf(),
            final(self)@ == walks(old(self)@, o, tw as int, th as int, counter, flag, fuel, 0).unwrap().0,
        decreases fuel, 0int, chain_len(tw as int, th as int) + 2,
    {
        let ghost total = walks(self@, o, tw as int, th as int, counter, flag, fuel, 0);
        let mut ctr = counter;
        let ny = o.y - 1;
        let mut j: i32 = -1;
        while j <= tw as i32
            invariant
                -1 <= j <= tw + 1,
                self.wf(),
                walks_fit(o, tw as int, th as int),
                ny == o.y - 1,
                total is Some,
                walks(self@, o, tw as int, th as int, ctr, flag, fuel, (j + 1) as nat) == total,
            decreases tw + 1 - j,
        {
            let x = o.x + j;
            ctr = self.chain_candidate(x, ny, ny as i64, ctr, flag, Ghost(fuel));
            j = j + 1;
        }
        let sy = o.y + th as i32;
        let qy = o.y as i64 + tw as i64;
        j = -1;
        while j <= tw as i32
            invariant
                -1 <= j <= tw + 1,
                self.wf(),
                walks_fit(o, tw as int, th as int),
                sy == o.y + th,
                qy == o.y + tw,
                total is Some,
                walks(self@, o, tw as int, th as int, ctr, flag, fuel, (tw + 2 + j + 1) as nat) == total,
            decreases tw + 1 - j,
        {
            let x = o.x + j;
            ctr = self.chain_candidate(x, sy, qy, ctr, flag, Ghost(fuel));
            j = j + 1;
        }
        let wx = o.x - 1;
        j = 0;
        while j < th as i32
            invariant
                0 <= j <= th,
                self.wf(),
                walks_fit(o, tw as int, th as int),
                wx == o.x - 1,
                total is Some,
                walks(self@, o, tw as int, th as int, ctr, flag, fuel, (2 * (tw + 2) + j) as nat) == total,
            decreases th - j,
        {
            let y = o.y + j;
            ctr = self.chain_candidate(wx, y, y as i64, ctr, flag, Ghost(fuel));
            j = j + 1;
        }
        let ex = o.x + tw as i32;
        j = 0;
        while j < th as i32
            invariant
                0 <= j <= th,
                self.wf(),
                walks_fit(o, tw as int, th as int),
                ex == o.x + tw,
                total is Some,
                walks(self@, o, tw as int, th as int, ctr, flag, fuel, (2 * (tw + 2) + th + j) as nat) == total,
            decreases th - j,
        {
            let y = o.y + j;
            ctr = self.chain_candidate(ex, y, y as i64, ctr, flag, Ghost(fuel));
            j = j + 1;
        }
    }

    /// The destroy tail of instance `idx` (see [`tail`]).
    #[verifier::rlimit(60)]
    #[verifier::spinoff_prover]
    fn destroy_tail(&mut self, idx: usize, counter: i32, flag: bool, Ghost(fuel): Ghost<nat>)
        requires
            old(self).wf(),
            idx < old(self)@.objects.len(),
            tail(old(self)@, idx as int, counter, flag, fuel) is Some,
        ensures
            final(self).wf(),
            final(self)@ == tail(old(self)@, idx as int, counter, flag, fuel).unwrap(),
        decreases fuel, 2int, 0int,
    {
        let ghost m0 = self@;
        proof {
            lemma_sim_view(self);
            lemma_sim_wf(self);
        }
        let o = self.objects[idx];
        if self.zone != 1 {
            self.objective_notify(idx);
        }
        self.schedule_fence_shutdown(o.id);
        proof {
            lemma_sim_view(self);
        }
        let code = zone_trigger_code(self.zone, self.mission_no);
        match code {
            Some(c) => {
                if c == o.id {
                    self.platform_ring_build(o.x, o.y, o.z, 0x12C);
                }
            },
            None => {},
        }
        proof {
            lemma_sim_view(self);
            lemma_sim_wf(self);
        }
        if o.id < 0 || o.id as usize >= self.object_types.len() {
            return;
        }
        let ty = copy_type(&self.object_types[o.id as usize]);
        if ty.kind == 0xb && self.language == 1 {
            return;
        }
        self.tail_effects_exec(o, &ty, counter, flag, Ghost(fuel));
    }

    /// The destroy tail from the terrain restore on (see
    /// [`tail_effects`]).
    #[verifier::rlimit(40)]
    fn tail_effects_exec(&mut self, o: ObjectInstance, ty: &ObjectType, counter: i32, flag: bool, Ghost(fuel): Ghost<nat>)
        requires
            old(self).wf(),
            tail_effects(old(self)@, o, ty@, counter, flag, fuel) is Some,
        ensures
            final(self).wf(),
            final(self)@ == tail_effects(old(self)@, o, ty@, counter, flag, fuel).unwrap(),
        decreases fuel, 1int, 0int,
    {
        self.restore_footprint(o, ty);
        self.effects_exec(o, ty, counter, flag);
        proof {
            lemma_sim_view(self);
            lemma_sim_wf(self);
        }
        if flag {
            let award: i32 = if ty.kind == 0xb {
                10
            } else {
                ty.kind
            };
            self.score_pending = self.score_pending + award;
            self.strip_arm = true;
            proof {
                lemma_sim_view(self);
                lemma_sim_wf(self);
            }
        }
        self.chain_walks(o, ty.w, ty.h, counter, flag, Ghost(fuel));
    }

    /// [`impact`] with chain depth `fuel`.
    fn resolve_impact_fueled(
        &mut self,
        x_q13: i32,
        y_q13: i32,
        counter: i32,
        damage: i32,
        flag: bool,
        Ghost(fuel): Ghost<nat>,
    ) -> (r: bool)
        requires
            old(self).wf(),
            impact(old(self)@, x_q13, y_q13, counter, damage, flag, fuel) is Some,
        ensures
            final(self).wf(),
            (final(self)@, r) == impact(old(self)@, x_q13, y_q13, counter, damage, flag, fuel).unwrap(),
        decreases fuel, 3int, 0int,
    {
        let ghost m0 = self@;
        proof {
            lemma_sim_view(self);
            lemma_sim_wf(self);
        }
        let (w, h) = self.terrain.size();
        if x_q13 < 0 || y_q13 < 0 || x_q13 >> 13 >= w || y_q13 >> 13 >= h {
            return false;
        }
        let tx = x_q13 >> 13;
        let ty = y_q13 >> 13;
        assert(0 <= tx && 0 <= ty) by (bit_vector)
            requires
                x_q13 >= 0,
                y_q13 >= 0,
                tx == x_q13 >> 13,
                ty == y_q13 >> 13,
        ;
        proof {
            lemma_tile_of(tx as int, ty as int, w as int, h as int);
            assert(w * h <= i32::MAX) by (nonlinear_arith)
                requires
                    8 * w * h <= i32::MAX,
                    w > 0,
                    h > 0,
            ;
        }
        let t = (ty * w + tx) as usize;
        if t >= self.object_grid.len() {
            return false;
        }
        let word = self.object_grid[t];
        if word == 0 || word == 0x7d2 || word == 0x7d3 {
            return false;
        }
        if word == 0x7d4 {
            self.platform_damage(tx, ty, damage);
            return false;
        }
        let idx = (word - 1) as usize;
        if idx >= self.objects.len() {
            return false;
        }
        let mut inst = self.objects[idx];
        if inst.destroyed || inst.hp == -1 {
            return false;
        }
        inst.hp = inst.hp - damage;
        if inst.hp > 0 {
            self.objects.set(idx, inst);
            proof {
                lemma_sim_view(self);
                lemma_sim_wf(self);
                assert(self@ =~= impact(m0, x_q13, y_q13, counter, damage, flag, fuel).unwrap().0);
            }
            return false;
        }
        inst.hp = 0;
        inst.destroyed = true;
        self.objects.set(idx, inst);
        proof {
            lemma_sim_view(self);
            lemma_sim_wf(self);
        }
        self.destroy_tail(idx, counter, flag, Ghost(fuel));
        true
    }

    /// A weapon impact against the objects (see [`impact`]; the depth
    /// [`chain_fuel`] never runs out). Returns whether an object was
    /// destroyed.
    pub fn resolve_object_impact(&mut self, x_q13: i32, y_q13: i32, counter: i32, damage: i32, score_flag: bool) -> (destroyed: bool)
        requires
            old(self).wf(),
            impact(old(self)@, x_q13, y_q13, counter, damage, score_flag, chain_fuel(old(self)@)) is Some,
        ensures
            final(self).wf(),
            (final(self)@, destroyed) == impact(
                old(self)@,
                x_q13,
                y_q13,
                counter,
                damage,
                score_flag,
                chain_fuel(old(self)@),
            ).unwrap(),
    {
        self.resolve_impact_fueled(x_q13, y_q13, counter, damage, score_flag, Ghost(chain_fuel(self@)))
    }
}


/// The trap debris from piece `k` of 5 after a trap destroy at tile
/// `(tx, ty)` and level `zl`: each piece draws an x jitter of `0..32`, a
/// y jitter of `0..16` and a z jitter of `0..32` (above level base
/// `+0x10`) and stages kind-12 debris there, delayed `2k`, parameter -1.
pub open spec fn trap_debris(m: MissionView, tx: int, ty: int, zl: int, k: nat) -> Option<MissionView>
    decreases 5 - k,
{
    if k >= 5 {
        Some(m)
    } else {
        let (a, m1) = drawn(m);
        let (b, m2) = drawn(m1);
        let (c, m3) = drawn(m2);
        let jx = tx * 0x20 + (a & 0x1Fu32) as int;
        let jy = ty * 0x20 + (b & 0xFu32) as int;
        let jz = zl * 0x20 + 0x10 + (c & 0x1Fu32) as int;
        if !(fits_i32(jx) && fits_i32(jy) && fits_i32(zl * 0x20 + 0x10) && fits_i32(jz)) {
            None
        } else {
            match debris_step(m3, jx, jy, jz, 12, 2 * k as int, -1i32) {
                None => None,
                Some(m4) => trap_debris(m4, tx, ty, zl, k + 1),
            }
        }
    }
}

/// The trap lane of robot `idx`: a live robot whose current tile holds
/// DAT type 0x62 at its level (`z >> 5`) and a nonzero object-grid word
/// fires a damage-100 impact at its tile without the score flag (see
/// [`impact`], chains nested up to [`chain_fuel`] deep); when that
/// destroys an object, five trap debris follow (see [`trap_debris`]).
/// The result is the simulation and whether an object was destroyed;
/// `None` when a step overflows.
pub open spec fn trapped(m: MissionView, idx: int) -> Option<(MissionView, bool)> {
    if !(0 <= idx < m.robots.len()) || !m.robots[idx].alive {
        Some((m, false))
    } else {
        let r = m.robots[idx];
        let tx = r.pos_x >> 13u32;
        let ty = r.pos_y >> 13u32;
        let zl = r.z >> 5u32;
        if dat_type_of(m.terrain, tx, ty, zl) != 0x62 || grid_word_at(m, tx, ty) == 0 {
            Some((m, false))
        } else if !(fits_i32(tx * 0x2000) && fits_i32(ty * 0x2000) && fits_i32(tx * 0x20) && fits_i32(ty * 0x20)
            && fits_i32(zl * 0x20)) {
            None
        } else {
            match impact(m, (tx * 0x2000) as i32, (ty * 0x2000) as i32, 0, 100, false, chain_fuel(m)) {
                None => None,
                Some(r1) => if !r1.1 {
                    Some((r1.0, false))
                } else {
                    match trap_debris(r1.0, tx as int, ty as int, zl as int, 0) {
                        None => None,
                        Some(m2) => Some((m2, true)),
                    }
                },
            }
        }
    }
}

impl MissionSim {

    /// The five trap debris (see [`trap_debris`]).
    #[verifier::rlimit(40)]
    fn trap_debris_exec(&mut self, tx: i32, ty: i32, zl: i32)
        requires
            old(self).wf(),
            trap_debris(old(self)@, tx as int, ty as int, zl as int, 0) is Some,
        ensures
            final(self).wf(),
            final(self)@ == trap_debris(old(self)@, tx as int, ty as int, zl as int, 0).unwrap(),
    {
        let ghost total = trap_debris(self@, tx as int, ty as int, zl as int, 0);
        let mut k: i32 = 0;
        while k < 5
            invariant
                0 <= k <= 5,
                self.wf(),
                total is Some,
                trap_debris(self@, tx as int, ty as int, zl as int, k as nat) == total,
            decreases 5 - k,
        {
            let a = self.draw();
            proof {
                lemma_draw_masks(a);
            }
            let jx = tx * 0x20 + (a & 0x1F) as i32;
            let b = self.draw();
            proof {
                lemma_draw_masks(b);
            }
            let jy = ty * 0x20 + (b & 0xF) as i32;
            let c = self.draw();
            proof {
                lemma_draw_masks(c);
            }
            let jz = zl * 0x20 + 0x10 + (c & 0x1F) as i32;
            self.debris_step_exec(jx, jy, jz, 12, k * 2, -1);
            k = k + 1;
        }
    }

    /// The trap lane of robot `idx` (see [`trapped`]); returns whether
    /// an object was destroyed.
    #[verifier::rlimit(40)]
    pub fn robot_trap_lane(&mut self, idx: usize) -> (destroyed: bool)
        requires
            old(self).wf(),
            trapped(old(self)@, idx as int) is Some,
        ensures
            final(self).wf(),
            (final(self)@, destroyed) == trapped(old(self)@, idx as int).unwrap(),
    {
        proof {
            lemma_sim_view(self);
            lemma_sim_wf(self);
        }
        if idx >= self.robots.len() {
            return false;
        }
        let r = self.robots[idx];
        if !r.alive {
            return false;
        }
        let (tx, ty) = r.tile();
        let zl = r.z >> 5;
        if self.terrain.dat_type(tx, ty, zl) != 0x62 {
            return false;
        }
        if self.object_grid_word(tx, ty) == 0 {
            return false;
        }
        let destroyed = self.resolve_object_impact(tx * 0x2000, ty * 0x2000, 0, 100, false);
        if destroyed {
            self.trap_debris_exec(tx, ty, zl);
        }
        destroyed
    }
}


// The robots are untouched by an impact and everything it sets off; the
// objects by everything but the impacts themselves.

proof fn lemma_drawn_keeps_robots(m: MissionView)
    ensures
        drawn(m).1.robots == m.robots && drawn(m).1.objects == m.objects,
{
    reveal(drawn);
}

proof fn lemma_debris_step_keeps_robots(m: MissionView, x: int, y: int, z: int, kind: i32, delay: int, param: i32)
    ensures
        debris_step(m, x, y, z, kind, delay, param) matches Some(m1) ==> m1.robots == m.robots && m1.objects == m.objects,
{
    reveal(debris_step);
    reveal(debris_staged);
    lemma_debris_staged_keeps_robots(m, x as i32, y as i32, z as i32, kind, delay as i32, param);
}

proof fn lemma_splash_step_keeps_robots(m: MissionView, x: int, y: int, z: int, delay: u16)
    ensures
        splash_step(m, x, y, z, delay) matches Some(m1) ==> m1.robots == m.robots && m1.objects == m.objects,
{
    reveal(splash_step);
}

proof fn lemma_scatter_keeps_robots(m: MissionView, sx: int, sy: int, ez: int, k: nat)
    ensures
        scatter(m, sx, sy, ez, k) matches Some(m1) ==> m1.robots == m.robots && m1.objects == m.objects,
    decreases k,
{
    if k > 0 {
        let (a, m1) = drawn(m);
        let (b, m2) = drawn(m1);
        lemma_drawn_keeps_robots(m);
        lemma_drawn_keeps_robots(m1);
        let nx = sx - (a & 1u32) as int;
        let ny = sy - (b & 1u32) as int;
        let pz = splash_z(m2, nx as i32, ny as i32, ez as i32);
        lemma_splash_step_keeps_robots(m2, nx, ny, pz, 0);
        if let Some(m3) = splash_step(m2, nx, ny, pz, 0) {
            lemma_scatter_keeps_robots(m3, nx, ny, ez, (k - 1) as nat);
        }
    }
}

proof fn lemma_shower_keeps_robots(m: MissionView, ex: int, ey: int, ez: int, base: int, p: i32, i: nat)
    ensures
        shower(m, ex, ey, ez, base, p, i) matches Some(m1) ==> m1.robots == m.robots && m1.objects == m.objects,
    decreases 24 - i,
{
    if i < 24 {
        let (a, m1) = drawn(m);
        let (b, m2) = drawn(m1);
        let (c, m3) = drawn(m2);
        lemma_drawn_keeps_robots(m);
        lemma_drawn_keeps_robots(m1);
        lemma_drawn_keeps_robots(m2);
        let jx = ex + (a & 7u32) as int - 3;
        let jy = ey + (b & 7u32) as int - 3;
        let jz = ez + (c & 3u32) as int;
        let pz = splash_z(m3, jx as i32, jy as i32, jz as i32);
        lemma_debris_step_keeps_robots(m3, jx * 0x20, jy * 0x20, pz * 0x20, 14, base + i / 8, p);
        if let Some(m4) = debris_step(m3, jx * 0x20, jy * 0x20, pz * 0x20, 14, base + i / 8, p) {
            lemma_splash_step_keeps_robots(m4, jx, jy, pz, 0);
            if let Some(m5) = splash_step(m4, jx, jy, pz, 0) {
                lemma_shower_keeps_robots(m5, ex, ey, ez, base, p, i + 1);
            }
        }
    }
}

proof fn lemma_ring_splash_keeps_robots(m: MissionView, ex: int, ey: int, pz: int, base: int, k: nat)
    ensures
        ring_splash(m, ex, ey, pz, base, k) matches Some(m1) ==> m1.robots == m.robots && m1.objects == m.objects,
    decreases 9 - k,
{
    if k < 9 {
        let (a, m1) = drawn(m);
        lemma_drawn_keeps_robots(m);
        let d = base + (a & 3u32) as int;
        lemma_splash_step_keeps_robots(m1, ex - 2 + k / 3, ey - 2 + k % 3, pz, d as u16);
        if let Some(m2) = splash_step(m1, ex - 2 + k / 3, ey - 2 + k % 3, pz, d as u16) {
            lemma_ring_splash_keeps_robots(m2, ex, ey, pz, base, k + 1);
        }
    }
}

proof fn lemma_effect_keeps_robots(m: MissionView, o: ObjectInstance, e: ObjectEffectEntry, mi: int, counter: i32, flag: bool)
    ensures
        effect(m, o, e, mi, counter, flag) matches Some(m1) ==> m1.robots == m.robots && m1.objects == m.objects,
{
    let sel = e.selector;
    let ex = o.x + e.dx;
    let ey = o.y + e.dy;
    let ez = o.z + e.dz;
    let p: i32 = if flag {
        1
    } else {
        0
    };
    if sel == 1 {
        lemma_debris_step_keeps_robots(m, ex * 0x20 + 0xF, ey * 0x20 + 0xF, ez * 0x20, 14, counter + mi, p);
        if let Some(m1) = debris_step(m, ex * 0x20 + 0xF, ey * 0x20 + 0xF, ez * 0x20, 14, counter + mi, p) {
            let pz = splash_z(m1, ex as i32, ey as i32, ez as i32);
            lemma_splash_step_keeps_robots(m1, ex, ey, pz, 0);
            if let Some(m2) = splash_step(m1, ex, ey, pz, 0) {
                lemma_scatter_keeps_robots(m2, ex, ey, ez, 4);
            }
        }
    } else if 2 <= sel <= 5 {
        let (kind, dx, dy) = gib(sel);
        lemma_debris_step_keeps_robots(m, ex * 0x20 + dx, ey * 0x20 + dy, ez * 0x20, kind, 0, p);
        if let Some(m1) = debris_step(m, ex * 0x20 + dx, ey * 0x20 + dy, ez * 0x20, kind, 0, p) {
            lemma_scatter_keeps_robots(m1, ex, ey, ez, 4);
        }
    } else if 6 <= sel <= 7 {
        let dx: int = if sel == 6 {
            0x10
        } else {
            0x20
        };
        let dy: int = if sel == 6 {
            0x20
        } else {
            0x10
        };
        lemma_debris_step_keeps_robots(m, ex * 0x20 + dx, ey * 0x20 + dy, ez * 0x20, 10, 0, -1i32);
    } else if sel == 8 {
        lemma_debris_step_keeps_robots(m, ex * 0x20 + 0xF, ey * 0x20 + 0xF, ez * 0x20, 14, counter + mi, p);
        if let Some(m1) = debris_step(m, ex * 0x20 + 0xF, ey * 0x20 + 0xF, ez * 0x20, 14, counter + mi, p) {
            lemma_shower_keeps_robots(m1, ex, ey, ez, counter + mi, p, 0);
        }
    } else if sel == 9 {
        lemma_debris_step_keeps_robots(m, ex * 0x20 + 0xF, ey * 0x20 + 0xF, ez * 0x20 + 0xF, 20, counter + mi, p);
        if let Some(m1) = debris_step(m, ex * 0x20 + 0xF, ey * 0x20 + 0xF, ez * 0x20 + 0xF, 20, counter + mi, p) {
            let pz0 = splash_z(m1, (ex - 1) as i32, (ey - 1) as i32, ez as i32);
            let pz = if pz0 >= 7 {
                7
            } else {
                pz0
            };
            lemma_ring_splash_keeps_robots(m1, ex, ey, pz, counter + 2, 0);
        }
    }
}

proof fn lemma_effects_keep_robots(
    m: MissionView,
    o: ObjectInstance,
    effs: Seq<ObjectEffectEntry>,
    counter: i32,
    flag: bool,
    k: nat,
)
    ensures
        effects_from(m, o, effs, counter, flag, k) matches Some(m1) ==> m1.robots == m.robots && m1.objects == m.objects,
    decreases effs.len() - k,
{
    if k < effs.len() {
        lemma_effect_keeps_robots(m, o, effs[k as int], k as int, counter, flag);
        if let Some(m1) = effect(m, o, effs[k as int], k as int, counter, flag) {
            lemma_effects_keep_robots(m1, o, effs, counter, flag, k + 1);
        }
    }
}

proof fn lemma_restore_row_keeps_robots(m: MissionView, ox: int, oy: int, ty: ObjectTypeView, zz: int, i: int, k: nat)
    ensures
        restore_row(m, ox, oy, ty, zz, i, k) matches Some(m1) ==> m1.robots == m.robots && m1.objects == m.objects,
    decreases k,
{
    if k > 0 {
        lemma_restore_row_keeps_robots(m, ox, oy, ty, zz, i, (k - 1) as nat);
    }
}

proof fn lemma_restore_rows_keep_robots(m: MissionView, ox: int, oy: int, ty: ObjectTypeView, zz: int, k: nat)
    ensures
        restore_rows(m, ox, oy, ty, zz, k) matches Some(m1) ==> m1.robots == m.robots && m1.objects == m.objects,
    decreases k,
{
    if k > 0 {
        lemma_restore_rows_keep_robots(m, ox, oy, ty, zz, (k - 1) as nat);
        if let Some(m1) = restore_rows(m, ox, oy, ty, zz, (k - 1) as nat) {
            lemma_restore_row_keeps_robots(m1, ox, oy, ty, zz, k - 1, ty.w as nat);
        }
    }
}

proof fn lemma_restored_keeps_robots(m: MissionView, o: ObjectInstance, ty: ObjectTypeView)
    ensures
        restored(m, o, ty) matches Some(m1) ==> m1.robots == m.robots && m1.objects == m.objects,
{
    let z_end = if o.z + ty.d < 8 {
        o.z + ty.d
    } else {
        8
    };
    let zs = if o.z < 0 {
        0
    } else {
        o.z as int
    };
    if zs < z_end {
        lemma_restore_levels_keep_robots(m, o.x as int, o.y as int, ty, zs, (z_end - zs) as nat);
    }
}

proof fn lemma_restore_levels_keep_robots(m: MissionView, ox: int, oy: int, ty: ObjectTypeView, zs: int, k: nat)
    ensures
        restore_levels(m, ox, oy, ty, zs, k) matches Some(m1) ==> m1.robots == m.robots && m1.objects == m.objects,
    decreases k,
{
    if k > 0 {
        lemma_restore_levels_keep_robots(m, ox, oy, ty, zs, (k - 1) as nat);
        if let Some(m1) = restore_levels(m, ox, oy, ty, zs, (k - 1) as nat) {
            lemma_restore_rows_keep_robots(m1, ox, oy, ty, zs + k - 1, ty.h as nat);
        }
    }
}

proof fn lemma_ring_built_keeps_robots(m: MissionView, x: i32, y: i32, z: i32, strength: u16, j: nat)
    ensures
        ring_built(m, x, y, z, strength, j).robots == m.robots && ring_built(m, x, y, z, strength, j).objects
            == m.objects,
    decreases j,
{
    if j > 0 && j <= 8 {
        lemma_ring_built_keeps_robots(m, x, y, z, strength, (j - 1) as nat);
    }
}

proof fn lemma_platform_debris_keeps_robots(m: MissionView, x: i32, y: i32, z: int, k: nat)
    ensures
        platform_debris(m, x, y, z, k).robots == m.robots && platform_debris(m, x, y, z, k).objects == m.objects,
    decreases k,
{
    if k > 0 {
        let prev = platform_debris(m, x, y, z, (k - 1) as nat);
        lemma_platform_debris_keeps_robots(m, x, y, z, (k - 1) as nat);
        reveal(platform_debris_step);
        reveal(debris_staged);
        let inc = prev.rng.1;
        let r1 = draw_at(prev.rng.0, inc, 0);
        let s1 = state_after(prev.rng.0, inc, 1);
        let r2 = draw_at(s1, inc, 0);
        let m1 = MissionView { rng: (state_after(s1, inc, 1), inc), ..prev };
        lemma_debris_staged_keeps_robots(
            m1,
            (x * 0x20 + (r1 & 0xF) + 8) as i32,
            (y * 0x20 + (r2 & 0xF) + 8) as i32,
            (z * 0x20) as i32,
            7,
            (2 * (k - 1)) as i32,
            -1i32,
        );
    }
}

proof fn lemma_platform_damaged_keeps_robots(m: MissionView, x: i32, y: i32, damage: i32)
    ensures
        platform_damaged(m, x, y, damage).robots == m.robots && platform_damaged(m, x, y, damage).objects
            == m.objects,
{
    let w = m.terrain.width;
    let h = m.terrain.height;
    let t = y * w + x;
    if !(x < 0 || y < 0 || x >= w || y >= h || m.zone >= 8) {
        if let Some(z) = crate::destroy::water_level_from(m, t, crate::destroy::WATER_RANGE@[m.zone as int], 0) {
            if t < m.platform_strength.len() {
                let old = (m.platform_strength[t] as i16) as int;
                let diff = old - damage;
                if diff <= 0 {
                    let m1 = crate::destroy::z_written(m, x, y, z as i32, 0, 0);
                    let m2 = MissionView {
                        platform_strength: m1.platform_strength.update(t, 0),
                        object_grid: if t < m1.object_grid.len() && m1.object_grid[t] == 0x7d4 {
                            m1.object_grid.update(t, 0)
                        } else {
                            m1.object_grid
                        },
                        ..m1
                    };
                    lemma_platform_debris_keeps_robots(m2, x, y, z, 5);
                } else {
                    let m2 = MissionView {
                        platform_strength: m.platform_strength.update(t, diff as u16),
                        armor_pads: crate::mission::scorch_add_pads(
                            m.armor_pads,
                            w,
                            h,
                            (x * 0x20) as i32,
                            (y * 0x20) as i32,
                            4,
                        ),
                        ..m
                    };
                    lemma_ring_built_keeps_robots(m2, x, y, z as i32, diff as u16, 8);
                }
            }
        }
    }
}

/// An impact, with everything it sets off (notify, fence shutdown,
/// ring, restore, effects, score and chained detonations), leaves the
/// robots as they were.
pub proof fn lemma_impact_keeps_robots(m: MissionView, x: i32, y: i32, counter: i32, damage: i32, flag: bool, fuel: nat)
    ensures
        impact(m, x, y, counter, damage, flag, fuel) matches Some(r) ==> r.0.robots == m.robots,
    decreases fuel, 3int, 0int,
{
    let w = m.terrain.width;
    let h = m.terrain.height;
    let tx = x >> 13u32;
    let ty = y >> 13u32;
    if !(x < 0 || y < 0 || tx >= w || ty >= h) {
        let t = ty * w + tx;
        if t < m.object_grid.len() {
            let word = m.object_grid[t];
            if word == 0x7d4 {
                lemma_platform_damaged_keeps_robots(m, tx, ty, damage);
            } else if word != 0 && word != 0x7d2 && word != 0x7d3 {
                let idx = word - 1;
                if idx < m.objects.len() {
                    let o = m.objects[idx];
                    let m1 = MissionView {
                        objects: m.objects.update(idx, ObjectInstance { hp: 0, destroyed: true, ..o }),
                        ..m
                    };
                    lemma_tail_keeps_robots(m1, idx, counter, flag, fuel);
                }
            }
        }
    }
}

proof fn lemma_tail_keeps_robots(m: MissionView, idx: int, counter: i32, flag: bool, fuel: nat)
    ensures
        tail(m, idx, counter, flag, fuel) matches Some(m1) ==> m1.robots == m.robots,
    decreases fuel, 2int, 0int,
{
    let o = m.objects[idx];
    let m1o = if m.zone != 1 {
        notified(m, idx)
    } else {
        Some(m)
    };
    if let Some(m1) = m1o {
        let m2 = shutdown_scheduled(m1, o.id);
        lemma_ring_built_keeps_robots(m2, o.x, o.y, o.z, 0x12C, 8);
        let m3o = if trigger_code_of(m2.zone, m2.mission_no) == Some(o.id) {
            if ring_build_fits(m2, o.x, o.y, o.z, 0x12C) {
                Some(ring_built(m2, o.x, o.y, o.z, 0x12C, 8))
            } else {
                None
            }
        } else {
            Some(m2)
        };
        if let Some(m3) = m3o {
            if let Some(ty) = type_of(m3.object_types, o.id) {
                lemma_tail_effects_keep_robots(m3, o, ty, counter, flag, fuel);
            }
        }
    }
}

proof fn lemma_tail_effects_keep_robots(
    m: MissionView,
    o: ObjectInstance,
    ty: ObjectTypeView,
    counter: i32,
    flag: bool,
    fuel: nat,
)
    ensures
        tail_effects(m, o, ty, counter, flag, fuel) matches Some(m1) ==> m1.robots == m.robots,
    decreases fuel, 1int, 0int,
{
    lemma_restored_keeps_robots(m, o, ty);
    if let Some(m4) = restored(m, o, ty) {
        lemma_effects_keep_robots(m4, o, ty.effects, counter, flag, 0);
        if let Some(m5) = effects_from(m4, o, ty.effects, counter, flag, 0) {
            let award: int = if ty.kind == 0xb {
                10
            } else {
                ty.kind as int
            };
            let m6 = if flag {
                MissionView { score_pending: (m5.score_pending + award) as i32, strip_arm: true, ..m5 }
            } else {
                m5
            };
            lemma_walks_keep_robots(m6, o, ty.w as int, ty.h as int, counter, flag, fuel, 0);
        }
    }
}

proof fn lemma_walks_keep_robots(
    m: MissionView,
    o: ObjectInstance,
    tw: int,
    th: int,
    ctr: i32,
    flag: bool,
    fuel: nat,
    k: nat,
)
    ensures
        walks(m, o, tw, th, ctr, flag, fuel, k) matches Some(r) ==> r.0.robots == m.robots,
    decreases fuel, 0int, chain_len(tw, th) - k + 1,
{
    if k < chain_len(tw, th) {
        let (x, y, qy) = chain_site(o, tw, th, k as int);
        lemma_chain_at_keeps_robots(m, x, y, qy, ctr, flag, fuel);
        if let Some(r) = chain_at(m, x, y, qy, ctr, flag, fuel) {
            lemma_walks_keep_robots(r.0, o, tw, th, r.1, flag, fuel, k + 1);
        }
    }
}

proof fn lemma_chain_at_keeps_robots(m: MissionView, x: int, y: int, qy: int, ctr: i32, flag: bool, fuel: nat)
    ensures
        chain_at(m, x, y, qy, ctr, flag, fuel) matches Some(r) ==> r.0.robots == m.robots,
    decreases fuel, 0int, 0int,
{
    let (roll, m1) = drawn(m);
    lemma_drawn_keeps_robots(m);
    let c1 = if roll & 3u32 == 0u32 {
        ctr + 1
    } else {
        ctr as int
    };
    if fuel > 0 {
        lemma_impact_keeps_robots(
            m1,
            (x * 0x2000) as i32,
            (qy * 0x2000) as i32,
            c1 as i32,
            1000,
            flag,
            (fuel - 1) as nat,
        );
    }
}

/// The trap lane leaves the robots as they were.
pub proof fn lemma_trapped_keeps_robots(m: MissionView, idx: int)
    ensures
        trapped(m, idx) matches Some(r) ==> r.0.robots == m.robots,
{
    if 0 <= idx < m.robots.len() && m.robots[idx].alive {
        let r = m.robots[idx];
        let tx = r.pos_x >> 13u32;
        let ty = r.pos_y >> 13u32;
        let zl = r.z >> 5u32;
        lemma_impact_keeps_robots(m, (tx * 0x2000) as i32, (ty * 0x2000) as i32, 0, 100, false, chain_fuel(m));
        if let Some(r1) = impact(m, (tx * 0x2000) as i32, (ty * 0x2000) as i32, 0, 100, false, chain_fuel(m)) {
            lemma_trap_debris_keeps_robots(r1.0, tx as int, ty as int, zl as int, 0);
        }
    }
}

proof fn lemma_trap_debris_keeps_robots(m: MissionView, tx: int, ty: int, zl: int, k: nat)
    ensures
        trap_debris(m, tx, ty, zl, k) matches Some(m1) ==> m1.robots == m.robots,
    decreases 5 - k,
{
    if k < 5 {
        let (a, m1) = drawn(m);
        let (b, m2) = drawn(m1);
        let (c, m3) = drawn(m2);
        lemma_drawn_keeps_robots(m);
        lemma_drawn_keeps_robots(m1);
        lemma_drawn_keeps_robots(m2);
        let jx = tx * 0x20 + (a & 0x1Fu32) as int;
        let jy = ty * 0x20 + (b & 0xFu32) as int;
        let jz = zl * 0x20 + 0x10 + (c & 0x1Fu32) as int;
        lemma_debris_step_keeps_robots(m3, jx, jy, jz, 12, 2 * k as int, -1i32);
        if let Some(m4) = debris_step(m3, jx, jy, jz, 12, 2 * k as int, -1i32) {
            lemma_trap_debris_keeps_robots(m4, tx, ty, zl, k + 1);
        }
    }
}


/// The number of instances not yet destroyed.
pub open spec fn alive_count(objs: Seq<ObjectInstance>) -> nat
    decreases objs.len(),
{
    if objs.len() == 0 {
        0
    } else {
        alive_count(objs.drop_last()) + if objs.last().destroyed {
            0nat
        } else {
            1nat
        }
    }
}

/// Replacing instance `i` changes the live count by the change in its
/// own liveness; the count never exceeds the number of instances.
proof fn lemma_alive_update(objs: Seq<ObjectInstance>, i: int, o: ObjectInstance)
    requires
        0 <= i < objs.len(),
    ensures
        alive_count(objs.update(i, o)) + (if objs[i].destroyed {
            0int
        } else {
            1int
        }) == alive_count(objs) + (if o.destroyed {
            0int
        } else {
            1int
        }),
    decreases objs.len(),
{
    let u = objs.update(i, o);
    if i == objs.len() - 1 {
        assert(u.drop_last() =~= objs.drop_last());
    } else {
        lemma_alive_update(objs.drop_last(), i, o);
        assert(u.drop_last() =~= objs.drop_last().update(i, o));
    }
}

/// The live count is at most the number of instances.
pub proof fn lemma_alive_bound(objs: Seq<ObjectInstance>)
    ensures
        alive_count(objs) <= objs.len(),
    decreases objs.len(),
{
    if objs.len() > 0 {
        lemma_alive_bound(objs.drop_last());
    }
}

proof fn lemma_impact_alive(m: MissionView, x: i32, y: i32, counter: i32, damage: i32, flag: bool, fuel: nat)
    ensures
        impact(m, x, y, counter, damage, flag, fuel) matches Some(r) ==> alive_count(r.0.objects) <= alive_count(
            m.objects,
        ),
    decreases fuel, 3int, 0int,
{
    let w = m.terrain.width;
    let h = m.terrain.height;
    let tx = x >> 13u32;
    let ty = y >> 13u32;
    if !(x < 0 || y < 0 || tx >= w || ty >= h) {
        let t = ty * w + tx;
        if t < m.object_grid.len() {
            let word = m.object_grid[t];
            if word == 0x7d4 {
                lemma_platform_damaged_keeps_robots(m, tx, ty, damage);
            } else if word != 0 && word != 0x7d2 && word != 0x7d3 {
                let idx = word - 1;
                if idx < m.objects.len() {
                    let o = m.objects[idx];
                    if !o.destroyed && o.hp != -1 {
                        lemma_alive_update(m.objects, idx, ObjectInstance { hp: (o.hp - damage) as i32, ..o });
                        let o1 = ObjectInstance { hp: 0, destroyed: true, ..o };
                        lemma_alive_update(m.objects, idx, o1);
                        let m1 = MissionView { objects: m.objects.update(idx, o1), ..m };
                        lemma_tail_alive(m1, idx, counter, flag, fuel);
                    }
                }
            }
        }
    }
}

proof fn lemma_tail_alive(m: MissionView, idx: int, counter: i32, flag: bool, fuel: nat)
    ensures
        tail(m, idx, counter, flag, fuel) matches Some(m1) ==> alive_count(m1.objects) <= alive_count(m.objects),
    decreases fuel, 2int, 0int,
{
    let o = m.objects[idx];
    let m1o = if m.zone != 1 {
        notified(m, idx)
    } else {
        Some(m)
    };
    if let Some(m1) = m1o {
        let m2 = shutdown_scheduled(m1, o.id);
        lemma_ring_built_keeps_robots(m2, o.x, o.y, o.z, 0x12C, 8);
        let m3o = if trigger_code_of(m2.zone, m2.mission_no) == Some(o.id) {
            if ring_build_fits(m2, o.x, o.y, o.z, 0x12C) {
                Some(ring_built(m2, o.x, o.y, o.z, 0x12C, 8))
            } else {
                None
            }
        } else {
            Some(m2)
        };
        if let Some(m3) = m3o {
            if let Some(ty) = type_of(m3.object_types, o.id) {
                lemma_tail_effects_alive(m3, o, ty, counter, flag, fuel);
            }
        }
    }
}

proof fn lemma_tail_effects_alive(m: MissionView, o: ObjectInstance, ty: ObjectTypeView, counter: i32, flag: bool, fuel: nat)
    ensures
        tail_effects(m, o, ty, counter, flag, fuel) matches Some(m1) ==> alive_count(m1.objects) <= alive_count(
            m.objects,
        ),
    decreases fuel, 1int, 0int,
{
    lemma_restored_keeps_robots(m, o, ty);
    if let Some(m4) = restored(m, o, ty) {
        lemma_effects_keep_robots(m4, o, ty.effects, counter, flag, 0);
        if let Some(m5) = effects_from(m4, o, ty.effects, counter, flag, 0) {
            let award: int = if ty.kind == 0xb {
                10
            } else {
                ty.kind as int
            };
            let m6 = if flag {
                MissionView { score_pending: (m5.score_pending + award) as i32, strip_arm: true, ..m5 }
            } else {
                m5
            };
            lemma_walks_alive(m6, o, ty.w as int, ty.h as int, counter, flag, fuel, 0);
        }
    }
}

proof fn lemma_walks_alive(m: MissionView, o: ObjectInstance, tw: int, th: int, ctr: i32, flag: bool, fuel: nat, k: nat)
    ensures
        walks(m, o, tw, th, ctr, flag, fuel, k) matches Some(r) ==> alive_count(r.0.objects) <= alive_count(
            m.objects,
        ),
    decreases fuel, 0int, chain_len(tw, th) - k + 1,
{
    if k < chain_len(tw, th) {
        let (x, y, qy) = chain_site(o, tw, th, k as int);
        lemma_chain_at_alive(m, x, y, qy, ctr, flag, fuel);
        if let Some(r) = chain_at(m, x, y, qy, ctr, flag, fuel) {
            lemma_walks_alive(r.0, o, tw, th, r.1, flag, fuel, k + 1);
        }
    }
}

proof fn lemma_chain_at_alive(m: MissionView, x: int, y: int, qy: int, ctr: i32, flag: bool, fuel: nat)
    ensures
        chain_at(m, x, y, qy, ctr, flag, fuel) matches Some(r) ==> alive_count(r.0.objects) <= alive_count(
            m.objects,
        ),
    decreases fuel, 0int, 0int,
{
    let (roll, m1) = drawn(m);
    lemma_drawn_keeps_robots(m);
    let c1 = if roll & 3u32 == 0u32 {
        ctr + 1
    } else {
        ctr as int
    };
    if fuel > 0 {
        lemma_impact_alive(m1, (x * 0x2000) as i32, (qy * 0x2000) as i32, c1 as i32, 1000, flag, (fuel - 1) as nat);
    }
}


/// An impact's outcome does not depend on the chain depth it is given
/// once that depth exceeds the number of live objects: every nested
/// impact destroys one of them first, so the depth never runs out (and
/// [`chain_fuel`] is such a depth, see [`lemma_alive_bound`]).
pub proof fn lemma_impact_depth_irrelevant(
    m: MissionView,
    x: i32,
    y: i32,
    counter: i32,
    damage: i32,
    flag: bool,
    f1: nat,
    f2: nat,
)
    requires
        f1 > alive_count(m.objects),
        f2 > alive_count(m.objects),
    ensures
        impact(m, x, y, counter, damage, flag, f1) == impact(m, x, y, counter, damage, flag, f2),
    decreases f1, 3int, 0int,
{
    let w = m.terrain.width;
    let h = m.terrain.height;
    let tx = x >> 13u32;
    let ty = y >> 13u32;
    if !(x < 0 || y < 0 || tx >= w || ty >= h) {
        let t = ty * w + tx;
        if t < m.object_grid.len() {
            let word = m.object_grid[t];
            if word != 0 && word != 0x7d2 && word != 0x7d3 && word != 0x7d4 {
                let idx = word - 1;
                if idx < m.objects.len() {
                    let o = m.objects[idx];
                    if !o.destroyed && o.hp != -1 {
                        let o1 = ObjectInstance { hp: 0, destroyed: true, ..o };
                        lemma_alive_update(m.objects, idx, o1);
                        let m1 = MissionView { objects: m.objects.update(idx, o1), ..m };
                        lemma_tail_depth(m1, idx, counter, flag, f1, f2);
                    }
                }
            }
        }
    }
}

proof fn lemma_tail_depth(m: MissionView, idx: int, counter: i32, flag: bool, f1: nat, f2: nat)
    requires
        f1 > alive_count(m.objects) + 1,
        f2 > alive_count(m.objects) + 1,
    ensures
        tail(m, idx, counter, flag, f1) == tail(m, idx, counter, flag, f2),
    decreases f1, 2int, 0int,
{
    let o = m.objects[idx];
    let m1o = if m.zone != 1 {
        notified(m, idx)
    } else {
        Some(m)
    };
    if let Some(m1) = m1o {
        let m2 = shutdown_scheduled(m1, o.id);
        lemma_ring_built_keeps_robots(m2, o.x, o.y, o.z, 0x12C, 8);
        let m3o = if trigger_code_of(m2.zone, m2.mission_no) == Some(o.id) {
            if ring_build_fits(m2, o.x, o.y, o.z, 0x12C) {
                Some(ring_built(m2, o.x, o.y, o.z, 0x12C, 8))
            } else {
                None
            }
        } else {
            Some(m2)
        };
        if let Some(m3) = m3o {
            if let Some(ty) = type_of(m3.object_types, o.id) {
                lemma_tail_effects_depth(m3, o, ty, counter, flag, f1, f2);
            }
        }
    }
}

proof fn lemma_tail_effects_depth(
    m: MissionView,
    o: ObjectInstance,
    ty: ObjectTypeView,
    counter: i32,
    flag: bool,
    f1: nat,
    f2: nat,
)
    requires
        f1 > alive_count(m.objects) + 1,
        f2 > alive_count(m.objects) + 1,
    ensures
        tail_effects(m, o, ty, counter, flag, f1) == tail_effects(m, o, ty, counter, flag, f2),
    decreases f1, 1int, 0int,
{
    lemma_restored_keeps_robots(m, o, ty);
    if let Some(m4) = restored(m, o, ty) {
        lemma_effects_keep_robots(m4, o, ty.effects, counter, flag, 0);
        if let Some(m5) = effects_from(m4, o, ty.effects, counter, flag, 0) {
            let award: int = if ty.kind == 0xb {
                10
            } else {
                ty.kind as int
            };
            let m6 = if flag {
                MissionView { score_pending: (m5.score_pending + award) as i32, strip_arm: true, ..m5 }
            } else {
                m5
            };
            lemma_walks_depth(m6, o, ty.w as int, ty.h as int, counter, flag, f1, f2, 0);
        }
    }
}

proof fn lemma_walks_depth(
    m: MissionView,
    o: ObjectInstance,
    tw: int,
    th: int,
    ctr: i32,
    flag: bool,
    f1: nat,
    f2: nat,
    k: nat,
)
    requires
        f1 > alive_count(m.objects) + 1,
        f2 > alive_count(m.objects) + 1,
    ensures
        walks(m, o, tw, th, ctr, flag, f1, k) == walks(m, o, tw, th, ctr, flag, f2, k),
    decreases f1, 0int, chain_len(tw, th) - k + 1,
{
    if k < chain_len(tw, th) {
        let (x, y, qy) = chain_site(o, tw, th, k as int);
        lemma_chain_at_depth(m, x, y, qy, ctr, flag, f1, f2);
        lemma_chain_at_alive(m, x, y, qy, ctr, flag, f1);
        if let Some(r) = chain_at(m, x, y, qy, ctr, flag, f1) {
            lemma_walks_depth(r.0, o, tw, th, r.1, flag, f1, f2, k + 1);
        }
    }
}

proof fn lemma_chain_at_depth(m: MissionView, x: int, y: int, qy: int, ctr: i32, flag: bool, f1: nat, f2: nat)
    requires
        f1 > alive_count(m.objects) + 1,
        f2 > alive_count(m.objects) + 1,
    ensures
        chain_at(m, x, y, qy, ctr, flag, f1) == chain_at(m, x, y, qy, ctr, flag, f2),
    decreases f1, 0int, 0int,
{
    let (roll, m1) = drawn(m);
    lemma_drawn_keeps_robots(m);
    let c1 = if roll & 3u32 == 0u32 {
        ctr + 1
    } else {
        ctr as int
    };
    lemma_impact_depth_irrelevant(
        m1,
        (x * 0x2000) as i32,
        (qy * 0x2000) as i32,
        c1 as i32,
        1000,
        flag,
        (f1 - 1) as nat,
        (f2 - 1) as nat,
    );
}

} // verus!
