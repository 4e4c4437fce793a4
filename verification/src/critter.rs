//! The critter bank and its staging from a mission's .NME file: seven
//! sections of spawn records, each section a critter kind with its own
//! spawn count, position scale, seeds and draws from the mission stream;
//! and the effect-row bank with its spawner.

use vstd::prelude::*;

use crate::angle::AngleView;
use crate::impact::{debris_step, drawn, fits_i32, lemma_draw_masks};
use crate::le::{read_u16, u16_at};
use crate::mission::{lemma_sim_view, lemma_sim_wf, MissionSim, MissionView};
use crate::poi::{PoiRecord, POI_SLOTS};
use crate::terrain::{floor_probe, raw_byte_of, TerrainView};

verus! {

/// The critter bank's capacity.
pub const CRITTER_SLOTS: usize = 0x2AC;

/// The respawn delay of the mixed kinds by difficulty.
pub const RESPAWN_DELAYS: [i32; 3] = [1500, 900, 600];

/// The effect-row bank's size.
pub const EFFECT_ROWS: usize = 80;

/// One effect row.
#[derive(Debug, Clone, Copy, PartialEq, Eq)]
pub struct EffectRow {
    /// Frames since the row was taken; every spawn ages every row.
    pub age: u16,
    pub x: i32,
    pub y: i32,
    pub z: i32,
    pub cos: i32,
    pub sin: i32,
    /// The lifetime word.
    pub ttl: i32,
    /// The sprite variant.
    pub id: u16,
}

/// The all-zero effect row.
pub open spec fn blank_row() -> EffectRow {
    EffectRow { age: 0, x: 0, y: 0, z: 0, cos: 0, sin: 0, ttl: 0, id: 0 }
}

/// A bank of [`EFFECT_ROWS`] zero rows.
pub(crate) fn blank_row_bank() -> (v: Vec<EffectRow>)
    ensures
        v@ == Seq::new(EFFECT_ROWS as nat, |i: int| blank_row()),
{
    let z = EffectRow { age: 0, x: 0, y: 0, z: 0, cos: 0, sin: 0, ttl: 0, id: 0 };
    let mut v: Vec<EffectRow> = Vec::new();
    let mut i: usize = 0;
    while i < EFFECT_ROWS
        invariant
            i <= EFFECT_ROWS,
            z == blank_row(),
            v@ == Seq::new(i as nat, |k: int| blank_row()),
        decreases EFFECT_ROWS - i,
    {
        v.push(z);
        i = i + 1;
        assert(v@ =~= Seq::new(i as nat, |k: int| blank_row()));
    }
    v
}

/// One critter record.
#[derive(Debug, Clone, Copy, PartialEq, Eq)]
pub struct CritterRecord {
    /// The .NME section's kind, 1 to 7.
    pub kind: u16,
    /// Substeps per frame for the mixed kinds.
    pub species: u16,
    /// The owner of the last robot hit (-1: none).
    pub attacker: i16,
    pub hp: i16,
    /// The AI mode.
    pub mode: u16,
    pub anim: u16,
    /// The heading byte, or the 2-bit seek direction.
    pub heading: i32,
    /// The heading restored on waking.
    pub spawn_heading: i32,
    /// False skips the critter.
    pub presence: bool,
    pub target_x: i32,
    pub target_y: i32,
    pub target_z: i32,
    pub impact_x: i32,
    pub impact_y: i32,
    pub x: i32,
    pub y: i32,
    pub z: i32,
    pub home_x: i32,
    pub home_y: i32,
    pub home_z: i32,
    /// The per-mode countdown.
    pub countdown: i32,
    /// The wander direction (-1: idle).
    pub dir: i16,
    pub frame: u16,
    pub seek_sector: u16,
    pub z_restore: i32,
    pub death_ctr: i32,
    /// The heading precession rate.
    pub variant: i32,
    /// The robot fired at (-1: none).
    pub target_robot: i16,
    /// The hit flash.
    pub fuse: u16,
    pub facing: u16,
    pub knock_vx: i32,
    pub knock_vy: i32,
    pub fall_rate: i32,
    pub scan_robot: i32,
    pub scan_dist: i32,
}

/// The default critter record: all zero but the attacker, wander
/// direction and target robot (-1) and the scan distance (10000000).
pub open spec fn blank_critter() -> CritterRecord {
    CritterRecord {
        kind: 0,
        species: 0,
        attacker: -1i16,
        hp: 0,
        mode: 0,
        anim: 0,
        heading: 0,
        spawn_heading: 0,
        presence: false,
        target_x: 0,
        target_y: 0,
        target_z: 0,
        impact_x: 0,
        impact_y: 0,
        x: 0,
        y: 0,
        z: 0,
        home_x: 0,
        home_y: 0,
        home_z: 0,
        countdown: 0,
        dir: -1i16,
        frame: 0,
        seek_sector: 0,
        z_restore: 0,
        death_ctr: 0,
        variant: 0,
        target_robot: -1i16,
        fuse: 0,
        facing: 0,
        knock_vx: 0,
        knock_vy: 0,
        fall_rate: 0,
        scan_robot: 0,
        scan_dist: 10_000_000,
    }
}

impl Default for CritterRecord {
    fn default() -> (r: Self)
        ensures
            r == blank_critter(),
    {
        CritterRecord {
            kind: 0,
            species: 0,
            attacker: -1,
            hp: 0,
            mode: 0,
            anim: 0,
            heading: 0,
            spawn_heading: 0,
            presence: false,
            target_x: 0,
            target_y: 0,
            target_z: 0,
            impact_x: 0,
            impact_y: 0,
            x: 0,
            y: 0,
            z: 0,
            home_x: 0,
            home_y: 0,
            home_z: 0,
            countdown: 0,
            dir: -1,
            frame: 0,
            seek_sector: 0,
            z_restore: 0,
            death_ctr: 0,
            variant: 0,
            target_robot: -1,
            fuse: 0,
            facing: 0,
            knock_vx: 0,
            knock_vy: 0,
            fall_rate: 0,
            scan_robot: 0,
            scan_dist: 10_000_000,
        }
    }
}


/// The little-endian word of the .NME bytes at `off`, 0 past the end.
pub open spec fn nme_word(nme: Seq<u8>, off: int) -> u16 {
    if 0 <= off && off + 2 <= nme.len() {
        u16_at(nme, off)
    } else {
        0
    }
}

/// The record width in bytes of section `si` (0-based).
pub open spec fn width(si: int) -> int {
    if si == 0 || si == 1 || si == 4 {
        10
    } else if si == 6 {
        6
    } else {
        8
    }
}

/// Where section `si` starts: each section is a count word followed by
/// that many records of its width.
pub open spec fn section_start(nme: Seq<u8>, si: nat) -> int
    decreases si,
{
    if si == 0 {
        0
    } else {
        let s = section_start(nme, (si - 1) as nat);
        s + 2 + nme_word(nme, s) * width(si - 1)
    }
}

/// The record count of section `si` (0 when the file ends first).
pub open spec fn section_count(nme: Seq<u8>, si: nat) -> int {
    nme_word(nme, section_start(nme, si)) as int
}

/// Record `i` of section `si` as words (0 where the file ends).
pub open spec fn record(nme: Seq<u8>, si: nat, i: int) -> Seq<u16> {
    Seq::new(
        (width(si as int) / 2) as nat,
        |k: int| nme_word(nme, section_start(nme, si) + 2 + i * width(si as int) + 2 * k),
    )
}

/// The bounded pick of a draw `r` among `n` values: the low 15 bits
/// bucketed by `0x8000 / n`, at most `n - 1` (`n` taken as at least 1).
pub open spec fn pick_of(r: u32, n: int) -> int {
    let n1: int = if n < 1 {
        1
    } else {
        n
    };
    let v = (r & 0x7FFFu32) as int / (0x8000int / n1);
    if v < n1 - 1 {
        v
    } else {
        n1 - 1
    }
}

/// One bounded pick among `n` values and the simulation after its draw.
pub open spec fn picked(m: MissionView, n: int) -> (int, MissionView) {
    (pick_of(drawn(m).0, n), drawn(m).1)
}

/// `p / 27` rounded toward zero.
pub open spec fn trunc27(p: int) -> int {
    if p >= 0 {
        p / 27
    } else {
        -((-p) / 27)
    }
}

/// The hit points `base + base*m/27` (the quotient rounded toward zero)
/// as an `i16`; `None` when `base*m` leaves `i32`.
pub open spec fn scaled_hp(base: int, m: i32) -> Option<i16> {
    if !fits_i32(base * m) {
        None
    } else {
        Some((base + trunc27(base * m)) as i16)
    }
}

/// The simulation with critter `c` appended.
pub open spec fn with_critter(m: MissionView, c: CritterRecord) -> MissionView {
    MissionView { critters: m.critters.push(c), ..m }
}

/// The floor probe at a Q5 position (see [`floor_probe`]) and the
/// simulation with the probe's trigger latch.
pub open spec fn probed(m: MissionView, x: i32, y: i32, z: i32) -> (i32, MissionView) {
    (
        floor_probe(m.terrain, x, y, z).0,
        MissionView { terrain: TerrainView { last_trigger: floor_probe(m.terrain, x, y, z).1, ..m.terrain }, ..m },
    )
}

/// The raw DAT byte at a cell, 0 outside the volume.
pub open spec fn raw_or0(v: TerrainView, tx: i32, ty: i32, z: int) -> u8 {
    match raw_byte_of(v, tx, ty, z as i32) {
        Some(b) => b,
        None => 0,
    }
}

/// The highest level from `level` down whose raw byte is 1, 2 or 3; -1
/// when there is none.
pub open spec fn stand_scan(v: TerrainView, tx: i32, ty: i32, level: int) -> int
    decreases level + 1,
{
    if level < 0 {
        -1
    } else if 1 <= raw_or0(v, tx, ty, level) <= 3 {
        level
    } else {
        stand_scan(v, tx, ty, level - 1)
    }
}

/// The standing level of a wanderer at tile `(tx, ty)`: the highest
/// level from 6 down with raw byte 1, 2 or 3, provided the level above
/// it is air.
pub open spec fn stand_level(v: TerrainView, tx: i32, ty: i32) -> Option<int> {
    let l = stand_scan(v, tx, ty, 6);
    if l < 0 || raw_or0(v, tx, ty, l + 1) != 0 {
        None
    } else {
        Some(l)
    }
}

/// The bank is full.
pub open spec fn bank_full(m: MissionView) -> bool {
    m.critters.len() >= CRITTER_SLOTS
}

/// One section-1 spawn (kind 2, Q13): two picks of 5 jitter the record's
/// tile by -2..=2 in x and y; a jittered tile not strictly inside the
/// map in x and y drops the spawn, draws spent. Otherwise an anim draw
/// (`& 7`), a precession pick of 4 (+3, negated when the record's flag
/// word is set) and a timer draw (`(r & 0x1F) - 0xF` as the facing
/// word); z is 0xC000, hp base 0xAF.
pub open spec fn s1_spawn(m: MissionView, rec: Seq<u16>) -> Option<MissionView> {
    if bank_full(m) {
        Some(m)
    } else {
        let (a, m1) = picked(m, 5);
        let x = (rec[3] + a - 2) * 0x2000;
        let (b, m2) = picked(m1, 5);
        let y = (rec[4] + b - 2) * 0x2000;
        if x <= 0 || y <= 0 || (x as i32 >> 13u32) >= m.terrain.width || (y as i32 >> 13u32) >= m.terrain.height {
            Some(m2)
        } else {
            let (r1, m3) = drawn(m2);
            let (v, m4) = picked(m3, 4);
            let (r2, m5) = drawn(m4);
            let variant = if rec[2] != 0 {
                -(v + 3)
            } else {
                v + 3
            };
            match scaled_hp(0xAF, m.linear as i32) {
                None => None,
                Some(hp) => Some(
                    with_critter(
                        m5,
                        CritterRecord {
                            kind: 2,
                            species: 1,
                            hp: hp,
                            anim: (r1 & 7u32) as u16,
                            heading: 0,
                            presence: true,
                            x: x as i32,
                            y: y as i32,
                            z: 0xC000,
                            variant: variant as i32,
                            facing: ((r2 & 0x1Fu32) as int - 0xF) as u16,
                            ..blank_critter()
                        },
                    ),
                ),
            }
        }
    }
}

/// One section-2 spawn (kind 1, raw pixels): at the record's tile's
/// standing level (see [`stand_level`]; none drops the spawn without a
/// draw) the wanderer stands at the tile center, z and z-restore at the
/// level's top, direction -1, countdown a pick of 10 plus 10; hp base
/// 0xC8.
pub open spec fn s2_spawn(m: MissionView, rec: Seq<u16>) -> Option<MissionView> {
    if bank_full(m) {
        Some(m)
    } else {
        match stand_level(m.terrain, rec[3] as i32, rec[4] as i32) {
            None => Some(m),
            Some(l) => {
                let (c, m1) = picked(m, 10);
                let z = (l * 0x20 + 0x1F) as i32;
                match scaled_hp(0xC8, m.linear as i32) {
                    None => None,
                    Some(hp) => Some(
                        with_critter(
                            m1,
                            CritterRecord {
                                kind: 1,
                                species: 1,
                                hp: hp,
                                dir: -1i16,
                                frame: 0,
                                z_restore: z,
                                x: (rec[3] * 0x20 + 0x10) as i32,
                                y: (rec[4] * 0x20 + 0x10) as i32,
                                z: z,
                                countdown: (c + 10) as i32,
                                presence: true,
                                ..blank_critter()
                            },
                        ),
                    ),
                }
            },
        }
    }
}

/// One section-3 spawn (kind 5, Q13): at the record's tile plus 0xF00,
/// z the floor probe at the record's level, mode 8, species 3, anim 5,
/// heading 0x72, home at the spawn; hp base 0x96.
pub open spec fn s3_spawn(m: MissionView, rec: Seq<u16>) -> Option<MissionView> {
    if bank_full(m) {
        Some(m)
    } else {
        let x = (rec[2] * 0x2000 + 0xF00) as i32;
        let y = (rec[3] * 0x2000 + 0xF00) as i32;
        let (z, m1) = probed(m, x >> 8u32, y >> 8u32, (rec[1] * 32) as i32);
        match scaled_hp(0x96, m.linear as i32) {
            None => None,
            Some(hp) => Some(
                with_critter(
                    m1,
                    CritterRecord {
                        kind: 5,
                        species: 3,
                        hp: hp,
                        mode: 8,
                        anim: 5,
                        heading: 0x72,
                        presence: true,
                        x: x,
                        y: y,
                        z: z,
                        home_x: x,
                        home_y: y,
                        ..blank_critter()
                    },
                ),
            ),
        }
    }
}

/// One section-4 spawn (kind 4, raw pixels): at the record's tile plus
/// 0xF, z the floor probe there at the record's level, a heading draw
/// (`& 3`), mode 9, species 6, home at the spawn; hp base 0xC8.
pub open spec fn s4_spawn(m: MissionView, rec: Seq<u16>) -> Option<MissionView> {
    if bank_full(m) {
        Some(m)
    } else {
        let x = (rec[2] * 0x20 + 0xF) as i32;
        let y = (rec[3] * 0x20 + 0xF) as i32;
        let (z, m1) = probed(m, x, y, (rec[1] * 32) as i32);
        let (r, m2) = drawn(m1);
        match scaled_hp(0xC8, m.linear as i32) {
            None => None,
            Some(hp) => Some(
                with_critter(
                    m2,
                    CritterRecord {
                        kind: 4,
                        species: 6,
                        hp: hp,
                        mode: 9,
                        heading: (r & 3u32) as i32,
                        presence: true,
                        x: x,
                        y: y,
                        z: z,
                        home_x: x,
                        home_y: y,
                        ..blank_critter()
                    },
                ),
            ),
        }
    }
}

/// One section-5 spawn (kind 3, Q13): at the record's tile plus 0xF00,
/// heading (and wake heading) the record's heading word times 64, z the
/// floor probe at the record's level, home (x, y and z) at the spawn,
/// species 8, mode 0, target -1; hp base 0x5DC. No draws.
pub open spec fn s5_spawn(m: MissionView, rec: Seq<u16>) -> Option<MissionView> {
    if bank_full(m) {
        Some(m)
    } else {
        let x = (rec[3] * 0x2000 + 0xF00) as i32;
        let y = (rec[4] * 0x2000 + 0xF00) as i32;
        let heading = (rec[1] * 64) as i32;
        let (z, m1) = probed(m, x >> 8u32, y >> 8u32, (rec[2] * 32) as i32);
        match scaled_hp(0x5DC, m.linear as i32) {
            None => None,
            Some(hp) => Some(
                with_critter(
                    m1,
                    CritterRecord {
                        kind: 3,
                        species: 8,
                        hp: hp,
                        mode: 0,
                        heading: heading,
                        spawn_heading: heading,
                        presence: true,
                        x: x,
                        y: y,
                        z: z,
                        home_x: x,
                        home_y: y,
                        home_z: z,
                        target_robot: -1i16,
                        ..blank_critter()
                    },
                ),
            ),
        }
    }
}

/// One section-6 spawn (kind 6): the section-3 stamps with kind 6.
pub open spec fn s6_spawn(m: MissionView, rec: Seq<u16>) -> Option<MissionView> {
    if bank_full(m) {
        Some(m)
    } else {
        let x = (rec[2] * 0x2000 + 0xF00) as i32;
        let y = (rec[3] * 0x2000 + 0xF00) as i32;
        let (z, m1) = probed(m, x >> 8u32, y >> 8u32, (rec[1] * 32) as i32);
        match scaled_hp(0x96, m.linear as i32) {
            None => None,
            Some(hp) => Some(
                with_critter(
                    m1,
                    CritterRecord {
                        kind: 6,
                        species: 3,
                        hp: hp,
                        mode: 8,
                        anim: 5,
                        heading: 0x72,
                        presence: true,
                        x: x,
                        y: y,
                        z: z,
                        home_x: x,
                        home_y: y,
                        ..blank_critter()
                    },
                ),
            ),
        }
    }
}

/// One section-7 spawn (kind 7, Q13): at the record's tile plus 0xF00,
/// z fixed at 0xDF, heading a pick of 0xFF, mode 3, species 1; hp base
/// 0x9C4.
pub open spec fn s7_spawn(m: MissionView, rec: Seq<u16>) -> Option<MissionView> {
    if bank_full(m) {
        Some(m)
    } else {
        let x = (rec[1] * 0x2000 + 0xF00) as i32;
        let y = (rec[2] * 0x2000 + 0xF00) as i32;
        let (hd, m1) = picked(m, 0xFF);
        match scaled_hp(0x9C4, m.linear as i32) {
            None => None,
            Some(hp) => Some(
                with_critter(
                    m1,
                    CritterRecord {
                        kind: 7,
                        species: 1,
                        hp: hp,
                        mode: 3,
                        anim: 0,
                        countdown: 0,
                        heading: hd as i32,
                        presence: true,
                        x: x,
                        y: y,
                        z: 0xDF,
                        ..blank_critter()
                    },
                ),
            ),
        }
    }
}

/// One spawn of section `si`.
pub open spec fn spawn(m: MissionView, si: int, rec: Seq<u16>) -> Option<MissionView> {
    if si == 0 {
        s1_spawn(m, rec)
    } else if si == 1 {
        s2_spawn(m, rec)
    } else if si == 2 {
        s3_spawn(m, rec)
    } else if si == 3 {
        s4_spawn(m, rec)
    } else if si == 4 {
        s5_spawn(m, rec)
    } else if si == 5 {
        s6_spawn(m, rec)
    } else {
        s7_spawn(m, rec)
    }
}

/// How many spawns a record of section `si` makes at difficulty `d`, and
/// the simulation after any draw that decides it: section 1 the record's
/// base word plus `d` (at least 1); section 2 `d + 3`; section 3 at `d`
/// 1 a draw's low bit plus 1, else `d` (at least 1); section 4
/// `(d >> 1) + 2`; sections 5 and 6 one; section 7 at `d` 1 a draw's low
/// bit plus 1, at 2 two, else one. `None` when a sum leaves `i32`.
pub open spec fn spawn_count(m: MissionView, si: int, rec: Seq<u16>, d: i32) -> Option<(int, MissionView)> {
    if si == 0 {
        let s = d + rec[1];
        if !fits_i32(s) {
            None
        } else {
            Some(
                (
                    if s < 1 {
                        1
                    } else {
                        s
                    },
                    m,
                ),
            )
        }
    } else if si == 1 {
        if !fits_i32(d + 3) {
            None
        } else {
            Some((d + 3, m))
        }
    } else if si == 2 {
        if d == 1 {
            Some(((drawn(m).0 & 1u32) + 1, drawn(m).1))
        } else {
            Some(
                (
                    if d < 1 {
                        1
                    } else {
                        d as int
                    },
                    m,
                ),
            )
        }
    } else if si == 3 {
        Some(((d >> 1u32) + 2, m))
    } else if si == 4 || si == 5 {
        Some((1, m))
    } else {
        if d == 1 {
            Some(((drawn(m).0 & 1u32) + 1, drawn(m).1))
        } else if d == 2 {
            Some((2, m))
        } else {
            Some((1, m))
        }
    }
}

/// Spawns `j..n` of a record of section `si`.
pub open spec fn spawns_from(m: MissionView, si: int, rec: Seq<u16>, j: int, n: int) -> Option<MissionView>
    decreases n - j,
{
    if j >= n {
        Some(m)
    } else {
        match spawn(m, si, rec) {
            None => None,
            Some(m1) => spawns_from(m1, si, rec, j + 1, n),
        }
    }
}

/// Records `i..` of section `si`, in file order.
pub open spec fn records_from(m: MissionView, nme: Seq<u8>, d: i32, si: nat, i: nat) -> Option<MissionView>
    decreases section_count(nme, si) - i,
{
    if i >= section_count(nme, si) {
        Some(m)
    } else {
        let rec = record(nme, si, i as int);
        match spawn_count(m, si as int, rec, d) {
            None => None,
            Some(c) => match spawns_from(c.1, si as int, rec, 0, c.0) {
                None => None,
                Some(m2) => records_from(m2, nme, d, si, i + 1),
            },
        }
    }
}

/// Sections `si..7` in file order.
pub open spec fn sections_from(m: MissionView, nme: Seq<u8>, d: i32, si: nat) -> Option<MissionView>
    decreases 7 - si,
{
    if si >= 7 {
        Some(m)
    } else {
        match records_from(m, nme, d, si, 0) {
            None => None,
            Some(m1) => sections_from(m1, nme, d, si + 1),
        }
    }
}

/// One personnel spawn from a section-8 record: two draws place it at a
/// random offset (`& 0x1F`, in Q5 units) inside the record's tile, its z
/// is the floor probed there at the record's level, a third draw gives
/// its heading (`& 7`); it starts active and idle with 50 hp. A full bank
/// takes nothing and draws nothing.
pub open spec fn poi_spawn(m: MissionView, rec: Seq<u16>) -> MissionView {
    if m.pois.len() >= POI_SLOTS {
        m
    } else {
        let (a, m1) = drawn(m);
        let (b, m2) = drawn(m1);
        let x = (((a & 0x1Fu32) as int + rec[2] * 32) * 0x100) as i32;
        let y = (((b & 0x1Fu32) as int + rec[3] * 32) * 0x100) as i32;
        let (z, m3) = probed(m2, x >> 8u32, y >> 8u32, (rec[1] * 32) as i32);
        let (c, m4) = drawn(m3);
        MissionView {
            pois: m4.pois.push(
                PoiRecord {
                    active: true,
                    hp: 0x32,
                    state: 1,
                    heading: (c & 7u32) as i32,
                    timer: 0,
                    exit_slot: 0,
                    x: x,
                    y: y,
                    z: z,
                    draw_word: 0,
                },
            ),
            ..m4
        }
    }
}

/// Spawns `j..4` of a section-8 record.
pub open spec fn poi_spawns(m: MissionView, rec: Seq<u16>, j: nat) -> MissionView
    decreases 4 - j,
{
    if j >= 4 {
        m
    } else {
        poi_spawns(poi_spawn(m, rec), rec, j + 1)
    }
}

/// Section-8 records `i..`, four personnel each, in file order.
pub open spec fn poi_records_from(m: MissionView, nme: Seq<u8>, i: nat) -> MissionView
    decreases section_count(nme, 7) - i,
{
    if i >= section_count(nme, 7) {
        m
    } else {
        poi_records_from(poi_spawns(m, record(nme, 7, i as int), 0), nme, i + 1)
    }
}

/// The rest of a staging from record `i` of section `si` on.
pub open spec fn staging_rest(m: MissionView, nme: Seq<u8>, d: i32, si: nat, i: nat) -> Option<MissionView> {
    match records_from(m, nme, d, si, i) {
        None => None,
        Some(m1) => sections_from(m1, nme, d, si + 1),
    }
}


/// Every effect row a frame older (the age word wraps).
pub open spec fn aged(rows: Seq<EffectRow>) -> Seq<EffectRow> {
    Seq::new(
        rows.len(),
        |k: int|
            EffectRow {
                age: if rows[k].age == 0xFFFF {
                    0u16
                } else {
                    (rows[k].age + 1) as u16
                },
                ..rows[k]
            },
    )
}

/// The greatest age among rows `0..n` and the first row that has it;
/// `(-1, 0)` for no rows.
pub open spec fn oldest_row(rows: Seq<EffectRow>, n: nat) -> (int, int)
    decreases n,
{
    if n == 0 {
        (-1, 0)
    } else {
        let p = oldest_row(rows, (n - 1) as nat);
        if rows[n - 1].age > p.0 {
            (rows[n - 1].age as int, n - 1)
        } else {
            p
        }
    }
}

/// The sine word at byte angle `index`, read signed and shifted down by
/// 8; 0 without a sine table.
pub open spec fn sine_high(a: AngleView, index: u16) -> i32 {
    match a.sine {
        Some(s) => ((s[(index & 0xFFu16) as int] as i16) as i32) >> 8u32,
        None => 0,
    }
}

/// The effect row spawned as row `i` of a spawn at `(x, y, z)`: every row
/// ages, the oldest (first on a tie) is taken; two draws pick the
/// direction (the cosine at the first's low byte, the sine a quarter
/// turn back from the second's), a third the lifetime
/// `(r & 7) * 0x10 + 0x80`; the variant is `i` for the first eight
/// rows, else a pick of 5 plus 3.
pub open spec fn effect_row_step(m: MissionView, x: i32, y: i32, z: i32, i: int) -> MissionView {
    let rows = aged(m.effect_rows);
    let slot = oldest_row(rows, rows.len()).1;
    let m0 = MissionView { effect_rows: rows, ..m };
    let (ra, m1) = drawn(m0);
    let (rb, m2) = drawn(m1);
    let (rc, m3) = drawn(m2);
    let ca = (ra & 0xFFu32) as u16;
    let sa = (rb & 0xFFu32) as u16;
    let cos = sine_high(m.angles, ca);
    let sin = sine_high(m.angles, (((sa as int - 0x40) as i32) & 0xFFi32) as u16);
    let ttl = ((rc & 7u32) as int * 0x10 + 0x80) as i32;
    let (id, m4) = if i < 8 {
        (i, m3)
    } else {
        let (p, m4) = picked(m3, 5);
        (p + 3, m4)
    };
    MissionView {
        effect_rows: m4.effect_rows.update(
            slot,
            EffectRow { age: 0, x: x, y: y, z: z, cos: cos, sin: sin, ttl: ttl, id: id as u16 },
        ),
        ..m4
    }
}

/// Effect rows `i..count` of a spawn at `(x, y, z)`.
pub open spec fn effect_rows_staged(m: MissionView, x: i32, y: i32, z: i32, i: nat, count: nat) -> MissionView
    decreases count - i,
{
    if i >= count {
        m
    } else {
        effect_rows_staged(effect_row_step(m, x, y, z, i as int), x, y, z, i + 1, count)
    }
}

/// The shards of a weapon-gated critter death from shard `k` of 3: each
/// draws an x and a y jitter of `-15..=16` and a z jitter of `-7..=8` and
/// stages kind-7 debris there, delayed `k + 1`.
pub open spec fn death_shards(m: MissionView, dx: int, dy: int, wz: int, k: nat) -> Option<MissionView>
    decreases 3 - k,
{
    if k >= 3 {
        Some(m)
    } else {
        let (a, m1) = drawn(m);
        let (b, m2) = drawn(m1);
        let (c, m3) = drawn(m2);
        let jx = dx + ((a & 0x1Fu32) as int - 0xF);
        let jy = dy + ((b & 0x1Fu32) as int - 0xF);
        let jz = wz + ((c & 0xFu32) as int - 7);
        match debris_step(m3, jx, jy, jz, 7, (k + 1) as int, 0) {
            None => None,
            Some(m4) => death_shards(m4, dx, dy, wz, k + 1),
        }
    }
}

/// The extras of a critter death by weapon `weapon` (see
/// [`critter_died`]): for weapons 0x24, 0x29 and 0xC the shards and the
/// effect rows; nothing otherwise.
pub open spec fn death_extras(m: MissionView, kind: u16, weapon: u16, wx: i32, wy: i32, wz: i32, dx: int, dy: int) -> Option<
    MissionView,
> {
    if weapon == 0x24 || weapon == 0x29 || weapon == 0xC {
        match death_shards(m, dx, dy, wz as int, 0) {
            None => None,
            Some(m3) => if !fits_i32((wz + 0x15) * 0x100) {
                None
            } else {
                let rx: i32 = if kind == 4 {
                    (wx * 256) as i32
                } else {
                    wx
                };
                let ry: i32 = if kind == 4 {
                    (wy * 256) as i32
                } else {
                    wy
                };
                let rows: nat = if kind == 4 {
                    8
                } else {
                    12
                };
                Some(effect_rows_staged(m3, rx, ry, ((wz + 0x15) * 0x100) as i32, 0, rows))
            },
        }
    } else {
        Some(m)
    }
}

/// The bounty of a critter death (see [`critter_died`]).
pub open spec fn death_bounty(m: MissionView, idx: int, kind: u16) -> Option<MissionView> {
    let att = m.critters[idx].attacker;
    if att >= 0 && att < m.robots.len() && m.robots[att as int].kind == m.player_type {
        let bounty: int = if kind == 4 {
            75
        } else {
            150
        };
        if !fits_i32(m.score_pending + bounty) {
            None
        } else {
            Some(MissionView { score_pending: (m.score_pending + bounty) as i32, strip_arm: true, ..m })
        }
    } else {
        Some(m)
    }
}

/// The death of critter `idx` as kind `kind` by weapon `weapon` at
/// `(wx, wy, wz)`: one substep, hp 0, mode 6, death counter 0, countdown
/// 6 for kind 4 (0 else, with anim 0); kind-7 debris at its position
/// (kind 4 in pixels, the others Q13 shifted down by 8) delayed 1; for
/// weapons 0x24, 0x29 and 0xC the three shards (see [`death_shards`])
/// and 8 (kind 4) or 12 effect rows at `(z + 0x15) * 0x100` (kind 4's
/// position scaled up by 256, wrapping); and when its attacker is a
/// robot of the player's type, a bounty of 75 (kind 4) or 150 and the
/// strip arm. `None` when a staging or the score overflows.
pub open spec fn critter_died(m: MissionView, idx: int, kind: u16, weapon: u16, wx: i32, wy: i32, wz: i32) -> Option<
    MissionView,
> {
    let c = m.critters[idx];
    let c1 = CritterRecord {
        species: 1,
        hp: 0,
        mode: 6,
        death_ctr: 0,
        countdown: if kind == 4 {
            6
        } else {
            0
        },
        anim: if kind == 4 {
            c.anim
        } else {
            0
        },
        ..c
    };
    let m1 = MissionView { critters: m.critters.update(idx, c1), ..m };
    let dx: int = if kind == 4 {
        wx as int
    } else {
        (wx >> 8u32) as int
    };
    let dy: int = if kind == 4 {
        wy as int
    } else {
        (wy >> 8u32) as int
    };
    match debris_step(m1, dx, dy, wz as int, 7, 1, 0) {
        None => None,
        Some(m2) => match death_extras(m2, kind, weapon, wx, wy, wz, dx, dy) {
            None => None,
            Some(m3) => death_bounty(m3, idx, kind),
        },
    }
}

/// Draws leave the critter bank alone.
proof fn lemma_drawn_keeps_critters(m: MissionView)
    ensures
        drawn(m).1.critters == m.critters,
{
    reveal(drawn);
}

/// One spawn keeps a bank within capacity within it.
proof fn lemma_spawn_capacity(m: MissionView, si: int, rec: Seq<u16>)
    requires
        m.critters.len() <= CRITTER_SLOTS,
    ensures
        spawn(m, si, rec) matches Some(m1) ==> m1.critters.len() <= CRITTER_SLOTS,
{
    lemma_drawn_keeps_critters(m);
    let m1 = drawn(m).1;
    lemma_drawn_keeps_critters(m1);
    let m2 = drawn(m1).1;
    lemma_drawn_keeps_critters(m2);
    let m3 = drawn(m2).1;
    lemma_drawn_keeps_critters(m3);
    let m4 = drawn(m3).1;
    lemma_drawn_keeps_critters(m4);
    if si == 3 {
        let x = (rec[2] * 0x20 + 0xF) as i32;
        let y = (rec[3] * 0x20 + 0xF) as i32;
        let pm = probed(m, x, y, (rec[1] * 32) as i32).1;
        lemma_drawn_keeps_critters(pm);
    }
}

/// Spawns `j..n` keep a bank within capacity within it.
proof fn lemma_spawns_capacity(m: MissionView, si: int, rec: Seq<u16>, j: int, n: int)
    requires
        m.critters.len() <= CRITTER_SLOTS,
    ensures
        spawns_from(m, si, rec, j, n) matches Some(m1) ==> m1.critters.len() <= CRITTER_SLOTS,
    decreases n - j,
{
    if j < n {
        lemma_spawn_capacity(m, si, rec);
        if let Some(m1) = spawn(m, si, rec) {
            lemma_spawns_capacity(m1, si, rec, j + 1, n);
        }
    }
}

/// Records `i..` of section `si` keep a bank within capacity within it.
proof fn lemma_records_capacity(m: MissionView, nme: Seq<u8>, d: i32, si: nat, i: nat)
    requires
        m.critters.len() <= CRITTER_SLOTS,
    ensures
        records_from(m, nme, d, si, i) matches Some(m1) ==> m1.critters.len() <= CRITTER_SLOTS,
    decreases section_count(nme, si) - i,
{
    if i < section_count(nme, si) {
        let rec = record(nme, si, i as int);
        lemma_drawn_keeps_critters(m);
        if let Some(c) = spawn_count(m, si as int, rec, d) {
            lemma_spawns_capacity(c.1, si as int, rec, 0, c.0);
            if let Some(m2) = spawns_from(c.1, si as int, rec, 0, c.0) {
                lemma_records_capacity(m2, nme, d, si, i + 1);
            }
        }
    }
}

/// Sections `si..7` keep a bank within capacity within it.
proof fn lemma_sections_capacity(m: MissionView, nme: Seq<u8>, d: i32, si: nat)
    requires
        m.critters.len() <= CRITTER_SLOTS,
    ensures
        sections_from(m, nme, d, si) matches Some(m1) ==> m1.critters.len() <= CRITTER_SLOTS,
    decreases 7 - si,
{
    if si < 7 {
        lemma_records_capacity(m, nme, d, si, 0);
        if let Some(m1) = records_from(m, nme, d, si, 0) {
            lemma_sections_capacity(m1, nme, d, si + 1);
        }
    }
}

/// Sections 5 and 6 stage without drawing and whatever the difficulty:
/// each record adds exactly one critter while the bank has room, and the
/// mission stream is left as it was.
pub proof fn lemma_s5_s6_records_draw_free(m: MissionView, nme: Seq<u8>, d: i32, d2: i32, si: nat, i: nat)
    requires
        si == 4 || si == 5,
        i <= section_count(nme, si),
        m.critters.len() + (section_count(nme, si) - i) <= CRITTER_SLOTS,
    ensures
        records_from(m, nme, d, si, i) == records_from(m, nme, d2, si, i),
        records_from(m, nme, d, si, i) matches Some(m2) ==> {
            &&& m2.rng == m.rng
            &&& m2.critters.len() == m.critters.len() + section_count(nme, si) - i
        },
    decreases section_count(nme, si) - i,
{
    if i < section_count(nme, si) {
        let rec = record(nme, si, i as int);
        assert(spawn_count(m, si as int, rec, d) == Some((1int, m)));
        assert(spawn_count(m, si as int, rec, d2) == Some((1int, m)));
        assert(!bank_full(m));
        match spawn(m, si as int, rec) {
            None => {
                assert(spawns_from(m, si as int, rec, 0, 1) is None);
            },
            Some(m1) => {
                assert(spawns_from(m1, si as int, rec, 1, 1) == Some(m1));
                assert(spawns_from(m, si as int, rec, 0, 1) == Some(m1));
                assert(m1.rng == m.rng);
                assert(m1.critters.len() == m.critters.len() + 1);
                lemma_s5_s6_records_draw_free(m1, nme, d, d2, si, i + 1);
            },
        }
    }
}

/// Staging never grows the critter bank past its capacity: a bank within
/// [`CRITTER_SLOTS`] stays within it whatever the file and difficulty.
pub proof fn lemma_staging_respects_capacity(m: MissionView, nme: Seq<u8>, difficulty: u32)
    requires
        m.critters.len() <= CRITTER_SLOTS,
    ensures
        sections_from(m, nme, difficulty as i32, 0) matches Some(m1) ==> poi_records_from(m1, nme, 0).critters.len()
            <= CRITTER_SLOTS,
{
    lemma_sections_capacity(m, nme, difficulty as i32, 0);
    if let Some(m1) = sections_from(m, nme, difficulty as i32, 0) {
        lemma_poi_records_keep_critters(m1, nme, 0);
    }
}

/// The personnel staging leaves the critter bank alone.
proof fn lemma_poi_records_keep_critters(m: MissionView, nme: Seq<u8>, i: nat)
    ensures
        poi_records_from(m, nme, i).critters == m.critters,
    decreases section_count(nme, 7) - i,
{
    if i < section_count(nme, 7) {
        let rec = record(nme, 7, i as int);
        lemma_poi_spawns_keep_critters(m, rec, 0);
        lemma_poi_records_keep_critters(poi_spawns(m, rec, 0), nme, i + 1);
    }
}

proof fn lemma_poi_spawns_keep_critters(m: MissionView, rec: Seq<u16>, j: nat)
    ensures
        poi_spawns(m, rec, j).critters == m.critters,
    decreases 4 - j,
{
    if j < 4 {
        lemma_drawn_keeps_critters(m);
        let m1 = drawn(m).1;
        lemma_drawn_keeps_critters(m1);
        let m2 = drawn(m1).1;
        let x = (((drawn(m).0 & 0x1Fu32) as int + rec[2] * 32) * 0x100) as i32;
        let y = (((drawn(m1).0 & 0x1Fu32) as int + rec[3] * 32) * 0x100) as i32;
        let m3 = probed(m2, x >> 8u32, y >> 8u32, (rec[1] * 32) as i32).1;
        lemma_drawn_keeps_critters(m3);
        lemma_poi_spawns_keep_critters(poi_spawn(m, rec), rec, j + 1);
    }
}

/// The .NME word at `off` (see [`nme_word`]).
fn nme_word_at(nme: &[u8], off: usize) -> (v: u16)
    ensures
        v == nme_word(nme@, off as int),
{
    if off <= nme.len() && nme.len() - off >= 2 {
        read_u16(nme, off)
    } else {
        0
    }
}

/// The record width of section `si` (see [`width`]).
fn width_of(si: usize) -> (w: usize)
    requires
        si < 8,
    ensures
        w == width(si as int),
{
    if si == 0 || si == 1 || si == 4 {
        10
    } else if si == 6 {
        6
    } else {
        8
    }
}

/// Every section starts within `si` times the largest section.
proof fn lemma_section_start_bound(nme: Seq<u8>, si: nat)
    ensures
        0 <= section_start(nme, si) <= si * 655352,
    decreases si,
{
    if si > 0 {
        lemma_section_start_bound(nme, (si - 1) as nat);
        let s = section_start(nme, (si - 1) as nat);
        let c = nme_word(nme, s) as int;
        assert(0 <= c * width(si - 1) <= 655350) by (nonlinear_arith)
            requires
                0 <= c <= 65535,
                6 <= width(si - 1) <= 10,
        ;
    }
}

/// Record `i` of section `si`, which starts at `start` (see [`record`]).
fn nme_record(nme: &[u8], start: usize, i: usize, w: usize, Ghost(si): Ghost<nat>) -> (r: Vec<u16>)
    requires
        si < 8,
        start == section_start(nme@, si),
        start <= 8 * 655352,
        w == width(si as int),
        i < 65536,
    ensures
        r@ == record(nme@, si, i as int),
{
    let mut r: Vec<u16> = Vec::new();
    let mut k: usize = 0;
    assert(i * w <= 655350) by (nonlinear_arith)
        requires
            i < 65536,
            w <= 10,
    ;
    while k < w / 2
        invariant
            k <= w / 2,
            w == width(si as int),
            start == section_start(nme@, si),
            start <= 8 * 655352,
            i * w <= 655350,
            r@.len() == k,
            forall|j: int|
                0 <= j < k ==> r@[j] == nme_word(nme@, section_start(nme@, si) + 2 + i * width(si as int) + 2 * j),
        decreases w / 2 - k,
    {
        let v = nme_word_at(nme, start + 2 + i * w + 2 * k);
        r.push(v);
        k = k + 1;
    }
    assert(r@ =~= record(nme@, si, i as int));
    r
}

/// The hit points of [`scaled_hp`].
fn scaled_hp_exec(base: i32, m: i32) -> (hp: i16)
    requires
        0 < base <= 0x9C4,
        scaled_hp(base as int, m) is Some,
    ensures
        Some(hp) == scaled_hp(base as int, m),
{
    assert(-0x9C4 * 0x8000_0000 <= base * m <= 0x9C4 * 0x8000_0000) by (nonlinear_arith)
        requires
            0 < base <= 0x9C4,
            -0x8000_0000 <= m < 0x8000_0000,
    ;
    let p: i64 = base as i64 * m as i64;
    let q: i64 = if p >= 0 {
        p / 27
    } else {
        -((-p) / 27)
    };
    (base as i64 + q) as i16
}

impl MissionSim {

    /// One bounded pick among `n` values (see [`pick_of`]).
    pub fn bounded_pick(&mut self, n: i32) -> (v: i32)
        requires
            old(self).wf(),
            n <= 0x8000,
        ensures
            final(self).wf(),
            (v as int, final(self)@) == picked(old(self)@, n as int),
            final(self)@ == (MissionView { rng: final(self)@.rng, ..old(self)@ }),
            0 <= v < (if n < 1 {
                1
            } else {
                n
            }),
    {
        let r = self.draw();
        proof {
            lemma_draw_masks(r);
        }
        let r15 = (r & 0x7FFF) as i32;
        let n1: i32 = if n < 1 {
            1
        } else {
            n
        };
        assert(1 <= 0x8000int / (n1 as int) <= 0x8000) by (nonlinear_arith)
            requires
                1 <= n1 <= 0x8000,
        ;
        let v = r15 / (0x8000 / n1);
        assert(r15 == (r & 0x7FFFu32) as int);
        assert(v >= 0) by (nonlinear_arith)
            requires
                v as int == (r15 as int) / (0x8000int / (n1 as int)),
                r15 >= 0,
                0x8000int / (n1 as int) >= 1,
        ;
        if v < n1 - 1 {
            v
        } else {
            n1 - 1
        }
    }

    /// The floor probe (see [`probed`]).
    pub(crate) fn probe_floor(&mut self, x: i32, y: i32, z: i32) -> (r: i32)
        requires
            old(self).wf(),
        ensures
            final(self).wf(),
            (r, final(self)@) == probed(old(self)@, x, y, z),
    {
        proof {
            lemma_sim_view(self);
            lemma_sim_wf(self);
        }
        let r = self.terrain.floor_z(x, y, z);
        proof {
            lemma_sim_view(self);
            lemma_sim_wf(self);
        }
        r
    }

    /// Append critter `c`.
    fn push_critter(&mut self, c: CritterRecord)
        requires
            old(self).wf(),
        ensures
            final(self).wf(),
            final(self)@ == with_critter(old(self)@, c),
    {
        proof {
            lemma_sim_view(self);
            lemma_sim_wf(self);
        }
        self.critters.push(c);
        proof {
            lemma_sim_view(self);
            lemma_sim_wf(self);
        }
    }

    /// The raw DAT byte at a cell, 0 outside the volume.
    fn raw_at(&self, tx: i32, ty: i32, z: i32) -> (b: u8)
        requires
            self.wf(),
        ensures
            b == raw_or0(self@.terrain, tx, ty, z as int),
    {
        proof {
            lemma_sim_view(self);
            lemma_sim_wf(self);
        }
        match self.terrain.raw_dat_byte(tx, ty, z) {
            Some(b) => b,
            None => 0,
        }
    }

    /// The standing level of a wanderer (see [`stand_level`]): the scan
    /// down from level 6 to the first byte 1, 2 or 3, then the air test
    /// above it.
    fn wander_stand_level(&self, tx: i32, ty: i32) -> (r: Option<i32>)
        requires
            self.wf(),
        ensures
            r matches Some(l) ==> stand_level(self@.terrain, tx, ty) == Some(l as int) && 0 <= l <= 6,
            r is None ==> stand_level(self@.terrain, tx, ty) is None,
    {
        let ghost v = self@.terrain;
        let mut level: i32 = 6;
        let mut done = false;
        while !done
            invariant
                -1 <= level <= 6,
                self.wf(),
                v == self@.terrain,
                stand_scan(v, tx, ty, 6) == stand_scan(v, tx, ty, level as int),
                done ==> stand_scan(v, tx, ty, 6) == level,
            decreases level + 1 + (if done {
                0int
            } else {
                1int
            }),
        {
            if level < 0 {
                done = true;
            } else {
                let t = self.raw_at(tx, ty, level);
                if 1 <= t && t <= 3 {
                    done = true;
                } else {
                    level = level - 1;
                }
            }
        }
        if level < 0 {
            return None;
        }
        if self.raw_at(tx, ty, level + 1) != 0 {
            return None;
        }
        Some(level)
    }

    /// One section-1 spawn (see [`s1_spawn`]).
    fn s1_spawn_exec(&mut self, rec: &Vec<u16>)
        requires
            old(self).wf(),
            rec@.len() == 5,
            s1_spawn(old(self)@, rec@) is Some,
        ensures
            final(self).wf(),
            final(self)@ == s1_spawn(old(self)@, rec@).unwrap(),
            final(self)@.critters.len() >= old(self)@.critters.len(),
    {
        let ghost m0 = self@;
        proof {
            lemma_sim_view(self);
        }
        if self.critters.len() >= CRITTER_SLOTS {
            return;
        }
        let a = self.bounded_pick(5);
        let x = (rec[3] as i32 + a - 2) * 0x2000;
        let b = self.bounded_pick(5);
        let y = (rec[4] as i32 + b - 2) * 0x2000;
        let (w, h) = self.terrain.size();
        proof {
            lemma_sim_view(self);
        }
        if x <= 0 || y <= 0 || x >> 13 >= w || y >> 13 >= h {
            return;
        }
        let r1 = self.draw();
        let anim = (r1 & 7) as u16;
        proof {
            lemma_sim_view(self);
        }
        let hp = scaled_hp_exec(0xAF, self.linear as i32);
        let v = self.bounded_pick(4);
        let variant = v + 3;
        let r2 = self.draw();
        proof {
            lemma_draw_masks(r2);
        }
        let timer = ((r2 & 0x1F) as i32 - 0xF) as u16;
        let variant = if rec[2] != 0 {
            -variant
        } else {
            variant
        };
        let blank = CritterRecord::default();
        self.push_critter(
            CritterRecord {
                kind: 2,
                species: 1,
                hp,
                anim,
                heading: 0,
                presence: true,
                x,
                y,
                z: 0xC000,
                variant,
                facing: timer,
                ..blank
            },
        );
    }

    /// One section-2 spawn (see [`s2_spawn`]).
    fn s2_spawn_exec(&mut self, rec: &Vec<u16>)
        requires
            old(self).wf(),
            rec@.len() == 5,
            s2_spawn(old(self)@, rec@) is Some,
        ensures
            final(self).wf(),
            final(self)@ == s2_spawn(old(self)@, rec@).unwrap(),
            final(self)@.critters.len() >= old(self)@.critters.len(),
    {
        proof {
            lemma_sim_view(self);
        }
        if self.critters.len() >= CRITTER_SLOTS {
            return;
        }
        let tx = rec[3] as i32;
        let ty = rec[4] as i32;
        let level = match self.wander_stand_level(tx, ty) {
            Some(l) => l,
            None => {
                return;
            },
        };
        let x = tx * 0x20 + 0x10;
        let y = ty * 0x20 + 0x10;
        let z = level * 0x20 + 0x1F;
        let countdown = self.bounded_pick(10) + 10;
        proof {
            lemma_sim_view(self);
        }
        let hp = scaled_hp_exec(0xC8, self.linear as i32);
        let blank = CritterRecord::default();
        self.push_critter(
            CritterRecord {
                kind: 1,
                species: 1,
                hp,
                dir: -1,
                frame: 0,
                z_restore: z,
                x,
                y,
                z,
                countdown,
                presence: true,
                ..blank
            },
        );
    }

    /// One section-3 spawn (see [`s3_spawn`]).
    fn s3_spawn_exec(&mut self, rec: &Vec<u16>)
        requires
            old(self).wf(),
            rec@.len() == 4,
            s3_spawn(old(self)@, rec@) is Some,
        ensures
            final(self).wf(),
            final(self)@ == s3_spawn(old(self)@, rec@).unwrap(),
            final(self)@.critters.len() >= old(self)@.critters.len(),
    {
        proof {
            lemma_sim_view(self);
        }
        if self.critters.len() >= CRITTER_SLOTS {
            return;
        }
        let x = rec[2] as i32 * 0x2000 + 0xF00;
        let y = rec[3] as i32 * 0x2000 + 0xF00;
        let hp = scaled_hp_exec(0x96, self.linear as i32);
        let z = self.probe_floor(x >> 8, y >> 8, rec[1] as i32 * 32);
        let blank = CritterRecord::default();
        self.push_critter(
            CritterRecord {
                kind: 5,
                species: 3,
                hp,
                mode: 8,
                anim: 5,
                heading: 0x72,
                presence: true,
                x,
                y,
                z,
                home_x: x,
                home_y: y,
                ..blank
            },
        );
    }

    /// One section-4 spawn (see [`s4_spawn`]).
    fn s4_spawn_exec(&mut self, rec: &Vec<u16>)
        requires
            old(self).wf(),
            rec@.len() == 4,
            s4_spawn(old(self)@, rec@) is Some,
        ensures
            final(self).wf(),
            final(self)@ == s4_spawn(old(self)@, rec@).unwrap(),
            final(self)@.critters.len() >= old(self)@.critters.len(),
    {
        proof {
            lemma_sim_view(self);
        }
        if self.critters.len() >= CRITTER_SLOTS {
            return;
        }
        let x = rec[2] as i32 * 0x20 + 0xF;
        let y = rec[3] as i32 * 0x20 + 0xF;
        let hp = scaled_hp_exec(0xC8, self.linear as i32);
        let z = self.probe_floor(x, y, rec[1] as i32 * 32);
        let heading = (self.draw() & 3) as i32;
        let blank = CritterRecord::default();
        self.push_critter(
            CritterRecord {
                kind: 4,
                species: 6,
                hp,
                mode: 9,
                heading,
                presence: true,
                x,
                y,
                z,
                home_x: x,
                home_y: y,
                ..blank
            },
        );
    }

    /// One section-5 spawn (see [`s5_spawn`]).
    fn s5_spawn_exec(&mut self, rec: &Vec<u16>)
        requires
            old(self).wf(),
            rec@.len() == 5,
            s5_spawn(old(self)@, rec@) is Some,
        ensures
            final(self).wf(),
            final(self)@ == s5_spawn(old(self)@, rec@).unwrap(),
            final(self)@.critters.len() >= old(self)@.critters.len(),
    {
        proof {
            lemma_sim_view(self);
        }
        if self.critters.len() >= CRITTER_SLOTS {
            return;
        }
        let x = rec[3] as i32 * 0x2000 + 0xF00;
        let y = rec[4] as i32 * 0x2000 + 0xF00;
        let hp = scaled_hp_exec(0x5DC, self.linear as i32);
        let heading = (rec[1] as i32) * 64;
        let z = self.probe_floor(x >> 8, y >> 8, rec[2] as i32 * 32);
        let blank = CritterRecord::default();
        self.push_critter(
            CritterRecord {
                kind: 3,
                species: 8,
                hp,
                mode: 0,
                heading,
                spawn_heading: heading,
                presence: true,
                x,
                y,
                z,
                home_x: x,
                home_y: y,
                home_z: z,
                target_robot: -1,
                ..blank
            },
        );
    }

    /// One section-6 spawn (see [`s6_spawn`]).
    fn s6_spawn_exec(&mut self, rec: &Vec<u16>)
        requires
            old(self).wf(),
            rec@.len() == 4,
            s6_spawn(old(self)@, rec@) is Some,
        ensures
            final(self).wf(),
            final(self)@ == s6_spawn(old(self)@, rec@).unwrap(),
            final(self)@.critters.len() >= old(self)@.critters.len(),
    {
        proof {
            lemma_sim_view(self);
        }
        if self.critters.len() >= CRITTER_SLOTS {
            return;
        }
        let x = rec[2] as i32 * 0x2000 + 0xF00;
        let y = rec[3] as i32 * 0x2000 + 0xF00;
        let hp = scaled_hp_exec(0x96, self.linear as i32);
        let z = self.probe_floor(x >> 8, y >> 8, rec[1] as i32 * 32);
        let blank = CritterRecord::default();
        self.push_critter(
            CritterRecord {
                kind: 6,
                species: 3,
                hp,
                mode: 8,
                anim: 5,
                heading: 0x72,
                presence: true,
                x,
                y,
                z,
                home_x: x,
                home_y: y,
                ..blank
            },
        );
    }

    /// One section-7 spawn (see [`s7_spawn`]).
    fn s7_spawn_exec(&mut self, rec: &Vec<u16>)
        requires
            old(self).wf(),
            rec@.len() == 3,
            s7_spawn(old(self)@, rec@) is Some,
        ensures
            final(self).wf(),
            final(self)@ == s7_spawn(old(self)@, rec@).unwrap(),
            final(self)@.critters.len() >= old(self)@.critters.len(),
    {
        proof {
            lemma_sim_view(self);
        }
        if self.critters.len() >= CRITTER_SLOTS {
            return;
        }
        let x = rec[1] as i32 * 0x2000 + 0xF00;
        let y = rec[2] as i32 * 0x2000 + 0xF00;
        let hp = scaled_hp_exec(0x9C4, self.linear as i32);
        let heading = self.bounded_pick(0xFF);
        let blank = CritterRecord::default();
        self.push_critter(
            CritterRecord {
                kind: 7,
                species: 1,
                hp,
                mode: 3,
                anim: 0,
                countdown: 0,
                heading,
                presence: true,
                x,
                y,
                z: 0xDF,
                ..blank
            },
        );
    }

    /// One personnel spawn (see [`poi_spawn`]).
    fn poi_spawn_exec(&mut self, rec: &Vec<u16>)
        requires
            old(self).wf(),
            rec@.len() == 4,
        ensures
            final(self).wf(),
            final(self)@ == poi_spawn(old(self)@, rec@),
            final(self)@.critters == old(self)@.critters,
    {
        proof {
            lemma_sim_view(self);
            lemma_sim_wf(self);
        }
        if self.pois.len() >= POI_SLOTS {
            return;
        }
        let a = self.draw();
        let b = self.draw();
        proof {
            lemma_draw_masks(a);
            lemma_draw_masks(b);
        }
        let x = (((a & 0x1F) as i32) + (rec[2] as i32) * 32) * 0x100;
        let y = (((b & 0x1F) as i32) + (rec[3] as i32) * 32) * 0x100;
        let z = self.probe_floor(x >> 8, y >> 8, rec[1] as i32 * 32);
        let c = self.draw();
        proof {
            lemma_draw_masks(c);
            lemma_sim_view(self);
            lemma_sim_wf(self);
        }
        let heading = (c & 7) as i32;
        self.pois.push(
            PoiRecord { active: true, hp: 0x32, state: 1, heading, timer: 0, exit_slot: 0, x, y, z, draw_word: 0 },
        );
        proof {
            lemma_sim_view(self);
            lemma_sim_wf(self);
        }
    }

    /// One spawn of section `si` (see [`spawn`]).
    fn spawn_one(&mut self, si: usize, rec: &Vec<u16>)
        requires
            old(self).wf(),
            si < 7,
            rec@.len() == width(si as int) / 2,
            spawn(old(self)@, si as int, rec@) is Some,
        ensures
            final(self).wf(),
            final(self)@ == spawn(old(self)@, si as int, rec@).unwrap(),
            final(self)@.critters.len() >= old(self)@.critters.len(),
    {
        if si == 0 {
            self.s1_spawn_exec(rec);
        } else if si == 1 {
            self.s2_spawn_exec(rec);
        } else if si == 2 {
            self.s3_spawn_exec(rec);
        } else if si == 3 {
            self.s4_spawn_exec(rec);
        } else if si == 4 {
            self.s5_spawn_exec(rec);
        } else if si == 5 {
            self.s6_spawn_exec(rec);
        } else {
            self.s7_spawn_exec(rec);
        }
    }

    /// The spawn count of a record of section `si` (see
    /// [`spawn_count`]).
    fn spawn_count_exec(&mut self, si: usize, rec: &Vec<u16>, d: i32) -> (n: i32)
        requires
            old(self).wf(),
            si < 7,
            rec@.len() == width(si as int) / 2,
            spawn_count(old(self)@, si as int, rec@, d) is Some,
        ensures
            final(self).wf(),
            (n as int, final(self)@) == spawn_count(old(self)@, si as int, rec@, d).unwrap(),
            final(self)@.critters == old(self)@.critters,
    {
        if si == 0 {
            let s = d + rec[1] as i32;
            if s < 1 {
                1
            } else {
                s
            }
        } else if si == 1 {
            d + 3
        } else if si == 2 {
            if d == 1 {
                let r = self.draw();
                proof {
                    lemma_draw_masks(r);
                }
                (r & 1) as i32 + 1
            } else if d < 1 {
                1
            } else {
                d
            }
        } else if si == 3 {
            assert(d >> 1u32 <= 0x3FFF_FFFFi32) by (bit_vector);
            (d >> 1) + 2
        } else if si == 4 || si == 5 {
            1
        } else {
            if d == 1 {
                let r = self.draw();
                proof {
                    lemma_draw_masks(r);
                }
                (r & 1) as i32 + 1
            } else if d == 2 {
                2
            } else {
                1
            }
        }
    }

    /// Stage the critter bank from a mission's .NME bytes at difficulty
    /// `difficulty`: sections 1 to 7 in file order, each record through
    /// its spawn count and spawns (see [`sections_from`]), then the
    /// personnel of section 8 (see [`poi_records_from`]). The result is
    /// the number of critters staged (personnel not counted); every file
    /// is accepted.
    pub fn stage_critters(&mut self, nme: &[u8], difficulty: u32) -> (r: Option<usize>)
        requires
            old(self).wf(),
            sections_from(old(self)@, nme@, difficulty as i32, 0) is Some,
        ensures
            final(self).wf(),
            final(self)@ == poi_records_from(
                sections_from(old(self)@, nme@, difficulty as i32, 0).unwrap(),
                nme@,
                0,
            ),
            r == Some((final(self)@.critters.len() - old(self)@.critters.len()) as usize),
    {
        let ghost m0 = self@;
        let mut starts: Vec<usize> = Vec::new();
        let mut counts: Vec<usize> = Vec::new();
        let mut p: usize = 0;
        let mut si: usize = 0;
        while si < 8
            invariant
                si <= 8,
                starts@.len() == si,
                counts@.len() == si,
                p == section_start(nme@, si as nat),
                forall|k: int|
                    0 <= k < si ==> starts@[k] == section_start(nme@, k as nat) && counts@[k] == section_count(
                        nme@,
                        k as nat,
                    ),
            decreases 8 - si,
        {
            proof {
                lemma_section_start_bound(nme@, si as nat);
                lemma_section_start_bound(nme@, (si + 1) as nat);
            }
            let w = width_of(si);
            let count = nme_word_at(nme, p) as usize;
            starts.push(p);
            counts.push(count);
            p = p + 2 + count * w;
            si = si + 1;
        }
        let d = difficulty as i32;
        proof {
            lemma_sim_view(self);
        }
        let start_len = self.critters.len();
        let ghost total = sections_from(m0, nme@, d, 0);
        si = 0;
        while si < 7
            invariant
                si <= 7,
                self.wf(),
                starts@.len() == 8,
                counts@.len() == 8,
                forall|k: int|
                    0 <= k < 8 ==> starts@[k] == section_start(nme@, k as nat) && counts@[k] == section_count(
                        nme@,
                        k as nat,
                    ),
                total is Some,
                sections_from(self@, nme@, d, si as nat) == total,
                start_len == m0.critters.len(),
                start_len <= self@.critters.len(),
            decreases 7 - si,
        {
            let w = width_of(si);
            let st = starts[si];
            let cnt = counts[si];
            proof {
                lemma_section_start_bound(nme@, si as nat);
            }
            let mut i: usize = 0;
            while i < cnt
                invariant
                    si < 7,
                    i <= cnt,
                    cnt == section_count(nme@, si as nat),
                    st == section_start(nme@, si as nat),
                    st <= 8 * 655352,
                    w == width(si as int),
                    self.wf(),
                    total is Some,
                    staging_rest(self@, nme@, d, si as nat, i as nat) == total,
                    start_len <= self@.critters.len(),
                decreases cnt - i,
            {
                let rec = nme_record(nme, st, i, w, Ghost(si as nat));
                let n = self.spawn_count_exec(si, &rec, d);
                let mut j: i32 = 0;
                while j < n
                    invariant
                        si < 7,
                        i < cnt,
                        cnt == section_count(nme@, si as nat),
                        rec@ == record(nme@, si as nat, i as int),
                        rec@.len() == width(si as int) / 2,
                        0 <= j,
                        j <= n || j == 0,
                        self.wf(),
                        total is Some,
                        match spawns_from(self@, si as int, rec@, j as int, n as int) {
                            None => None,
                            Some(m2) => staging_rest(m2, nme@, d, si as nat, (i + 1) as nat),
                        } == total,
                        start_len <= self@.critters.len(),
                    decreases n - j,
                {
                    self.spawn_one(si, &rec);
                    j = j + 1;
                }
                i = i + 1;
            }
            si = si + 1;
        }
        proof {
            lemma_sim_view(self);
            lemma_section_start_bound(nme@, 7);
        }
        let staged = self.critters.len() - start_len;
        let ghost staged_view = self@;
        let ghost pois_total = poi_records_from(self@, nme@, 0);
        let st = starts[7];
        let cnt = counts[7];
        let mut i: usize = 0;
        while i < cnt
            invariant
                i <= cnt,
                cnt == section_count(nme@, 7),
                st == section_start(nme@, 7),
                st <= 8 * 655352,
                self.wf(),
                poi_records_from(self@, nme@, i as nat) == pois_total,
                self@.critters == staged_view.critters,
            decreases cnt - i,
        {
            let rec = nme_record(nme, st, i, 8, Ghost(7));
            let mut j: usize = 0;
            while j < 4
                invariant
                    j <= 4,
                    i < cnt,
                    cnt == section_count(nme@, 7),
                    rec@ == record(nme@, 7, i as int),
                    rec@.len() == 4,
                    self.wf(),
                    poi_records_from(poi_spawns(self@, rec@, j as nat), nme@, (i + 1) as nat) == pois_total,
                    self@.critters == staged_view.critters,
                decreases 4 - j,
            {
                self.poi_spawn_exec(&rec);
                j = j + 1;
            }
            i = i + 1;
        }
        Some(staged)
    }

    /// The critter bank.
    pub fn critters(&self) -> (r: &[CritterRecord])
        ensures
            r@ == self@.critters,
    {
        proof {
            lemma_sim_view(self);
        }
        self.critters.as_slice()
    }

    /// The effect-row bank.
    pub fn effect_rows(&self) -> (r: &[EffectRow])
        ensures
            r@ == self@.effect_rows,
    {
        proof {
            lemma_sim_view(self);
        }
        self.effect_rows.as_slice()
    }

    /// One spawned effect row (see [`effect_row_step`]).
    #[verifier::rlimit(40)]
    fn spawn_effect_row(&mut self, x: i32, y: i32, z: i32, i: usize)
        requires
            old(self).wf(),
        ensures
            final(self).wf(),
            final(self)@ == effect_row_step(old(self)@, x, y, z, i as int),
            final(self)@.critters == old(self)@.critters,
            final(self)@.robots == old(self)@.robots,
            final(self)@.player_type == old(self)@.player_type,
            final(self)@.score_pending == old(self)@.score_pending,
    {
        let ghost m0 = self@;
        proof {
            lemma_sim_view(self);
            lemma_sim_wf(self);
        }
        let n = self.effect_rows.len();
        let mut k: usize = 0;
        while k < n
            invariant
                n == m0.effect_rows.len(),
                k <= n,
                self@ == (MissionView { effect_rows: self@.effect_rows, ..m0 }),
                self@.effect_rows.len() == n,
                forall|j: int| 0 <= j < k ==> self@.effect_rows[j] == aged(m0.effect_rows)[j],
                forall|j: int| k <= j < n ==> self@.effect_rows[j] == m0.effect_rows[j],
            decreases n - k,
        {
            proof {
                lemma_sim_view(self);
            }
            let mut r = self.effect_rows[k];
            r.age = r.age.wrapping_add(1);
            self.effect_rows.set(k, r);
            proof {
                lemma_sim_view(self);
            }
            k = k + 1;
        }
        proof {
            lemma_sim_view(self);
            lemma_sim_wf(self);
            assert(self@.effect_rows =~= aged(m0.effect_rows));
        }
        let ghost rows = self@.effect_rows;
        let mut slot: usize = 0;
        let mut max_age: i32 = -1;
        let mut si: usize = 0;
        while si < n
            invariant
                n == rows.len(),
                si <= n,
                rows == self@.effect_rows,
                self.effect_rows@ == rows,
                (max_age as int, slot as int) == oldest_row(rows, si as nat),
                slot < n || (si == 0 && slot == 0),
            decreases n - si,
        {
            let r = self.effect_rows[si];
            if r.age as i32 > max_age {
                max_age = r.age as i32;
                slot = si;
            }
            si = si + 1;
        }
        let ca = (self.draw() & 0xFF) as u16;
        let sa = (self.draw() & 0xFF) as u16;
        proof {
            lemma_sim_view(self);
            lemma_sim_wf(self);
        }
        let cos = match self.angles.sine_word(ca) {
            Some(c) => (c as i16 as i32) >> 8,
            None => 0,
        };
        let sin = match self.angles.sine_word(((sa as i32 - 0x40) & 0xFF) as u16) {
            Some(s) => (s as i16 as i32) >> 8,
            None => 0,
        };
        let rc = self.draw();
        proof {
            lemma_draw_masks(rc);
        }
        let ttl = ((rc & 7) as i32) * 0x10 + 0x80;
        let id = if i < 8 {
            i as u16
        } else {
            (self.bounded_pick(5) + 3) as u16
        };
        proof {
            lemma_sim_view(self);
        }
        if n == 0 {
            proof {
                lemma_sim_wf(self);
            }
            return;
        }
        self.effect_rows.set(slot, EffectRow { age: 0, x, y, z, cos, sin, ttl, id });
        proof {
            lemma_sim_view(self);
            lemma_sim_wf(self);
        }
    }

    /// Spawn `count` effect rows at `(x, y, z)` (see
    /// [`effect_rows_staged`]).
    pub fn stage_effect_rows(&mut self, x: i32, y: i32, z: i32, count: usize)
        requires
            old(self).wf(),
        ensures
            final(self).wf(),
            final(self)@ == effect_rows_staged(old(self)@, x, y, z, 0, count as nat),
            final(self)@.critters == old(self)@.critters,
            final(self)@.robots == old(self)@.robots,
            final(self)@.player_type == old(self)@.player_type,
            final(self)@.score_pending == old(self)@.score_pending,
    {
        let ghost total = effect_rows_staged(self@, x, y, z, 0, count as nat);
        let ghost m0 = self@;
        let mut i: usize = 0;
        while i < count
            invariant
                i <= count,
                self.wf(),
                self@.critters == m0.critters,
                self@.robots == m0.robots,
                self@.player_type == m0.player_type,
                self@.score_pending == m0.score_pending,
                effect_rows_staged(self@, x, y, z, i as nat, count as nat) == total,
            decreases count - i,
        {
            self.spawn_effect_row(x, y, z, i);
            i = i + 1;
        }
    }

    /// The death shards (see [`death_shards`]).
    fn death_shards_exec(&mut self, dx: i32, dy: i32, wz: i32)
        requires
            old(self).wf(),
            death_shards(old(self)@, dx as int, dy as int, wz as int, 0) is Some,
        ensures
            final(self).wf(),
            final(self)@ == death_shards(old(self)@, dx as int, dy as int, wz as int, 0).unwrap(),
            final(self)@.critters == old(self)@.critters,
            final(self)@.robots == old(self)@.robots,
            final(self)@.player_type == old(self)@.player_type,
            final(self)@.score_pending == old(self)@.score_pending,
    {
        let ghost total = death_shards(self@, dx as int, dy as int, wz as int, 0);
        let ghost m0 = self@;
        let mut k: i32 = 0;
        while k < 3
            invariant
                0 <= k <= 3,
                self.wf(),
                self@.critters == m0.critters,
                self@.robots == m0.robots,
                self@.player_type == m0.player_type,
                self@.score_pending == m0.score_pending,
                total is Some,
                death_shards(self@, dx as int, dy as int, wz as int, k as nat) == total,
            decreases 3 - k,
        {
            let a = self.draw();
            let b = self.draw();
            let c = self.draw();
            proof {
                lemma_draw_masks(a);
                lemma_draw_masks(b);
                lemma_draw_masks(c);
                crate::impact::lemma_debris_step_fits(
                    self@,
                    dx + ((a & 0x1Fu32) as int - 0xF),
                    dy + ((b & 0x1Fu32) as int - 0xF),
                    wz + ((c & 0xFu32) as int - 7),
                    7,
                    k + 1,
                    0,
                );
            }
            let jx = dx + ((a & 0x1F) as i32 - 0xF);
            let jy = dy + ((b & 0x1F) as i32 - 0xF);
            let jz = wz + ((c & 0xF) as i32 - 7);
            self.debris_step_exec(jx, jy, jz, 7, k + 1, 0);
            k = k + 1;
        }
    }

    /// The extras of a critter death (see [`death_extras`]).
    fn death_extras_exec(&mut self, kind: u16, weapon: u16, wx: i32, wy: i32, wz: i32, dx: i32, dy: i32)
        requires
            old(self).wf(),
            death_extras(old(self)@, kind, weapon, wx, wy, wz, dx as int, dy as int) is Some,
        ensures
            final(self).wf(),
            final(self)@ == death_extras(old(self)@, kind, weapon, wx, wy, wz, dx as int, dy as int).unwrap(),
            final(self)@.critters == old(self)@.critters,
            final(self)@.robots == old(self)@.robots,
            final(self)@.player_type == old(self)@.player_type,
            final(self)@.score_pending == old(self)@.score_pending,
    {
        if weapon == 0x24 || weapon == 0x29 || weapon == 0xC {
            self.death_shards_exec(dx, dy, wz);
            let (rx, ry) = if kind == 4 {
                ((wx as i64 * 256) as i32, (wy as i64 * 256) as i32)
            } else {
                (wx, wy)
            };
            let rows: usize = if kind == 4 {
                8
            } else {
                12
            };
            self.stage_effect_rows(rx, ry, (wz + 0x15) * 0x100, rows);
        }
    }

    /// The bounty of a critter death (see [`death_bounty`]).
    fn death_bounty_exec(&mut self, idx: usize, kind: u16)
        requires
            old(self).wf(),
            idx < old(self)@.critters.len(),
            death_bounty(old(self)@, idx as int, kind) is Some,
        ensures
            final(self).wf(),
            final(self)@ == death_bounty(old(self)@, idx as int, kind).unwrap(),
    {
        proof {
            lemma_sim_view(self);
            lemma_sim_wf(self);
        }
        let attacker = self.critters[idx].attacker;
        if attacker >= 0 && (attacker as usize) < self.robots.len() && self.robots[attacker as usize].kind
            == self.player_type {
            let bounty: i32 = if kind == 4 {
                75
            } else {
                150
            };
            self.score_pending = self.score_pending + bounty;
            self.strip_arm = true;
            proof {
                lemma_sim_view(self);
                lemma_sim_wf(self);
            }
        }
    }

    /// The death of critter `idx` (see [`critter_died`]).
    pub(crate) fn critter_death(&mut self, idx: usize, kind: u16, weapon: u16, wx: i32, wy: i32, wz: i32)
        requires
            old(self).wf(),
            idx < old(self)@.critters.len(),
            critter_died(old(self)@, idx as int, kind, weapon, wx, wy, wz) is Some,
        ensures
            final(self).wf(),
            final(self)@ == critter_died(old(self)@, idx as int, kind, weapon, wx, wy, wz).unwrap(),
            final(self)@.critters.len() == old(self)@.critters.len(),
    {
        proof {
            lemma_sim_view(self);
            lemma_sim_wf(self);
        }
        let mut c = self.critters[idx];
        c.species = 1;
        c.hp = 0;
        c.mode = 6;
        c.death_ctr = 0;
        c.countdown = 0;
        if kind == 4 {
            c.countdown = 6;
        } else {
            c.anim = 0;
        }
        self.critters.set(idx, c);
        proof {
            lemma_sim_view(self);
            lemma_sim_wf(self);
        }
        let (dx, dy) = if kind == 4 {
            (wx, wy)
        } else {
            (wx >> 8, wy >> 8)
        };
        self.debris_step_exec(dx, dy, wz, 7, 1, 0);
        self.death_extras_exec(kind, weapon, wx, wy, wz, dx, dy);
        self.death_bounty_exec(idx, kind);
    }
}

} // verus!
