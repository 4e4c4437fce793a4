//! The destructible-object and terrain-structure family: the per-zone
//! tables, the sentry-turret records of a mission's TRT file, the object
//! instances of its POS file, the debris ring and splash bank records,
//! and the staging of all of it into a [`MissionSim`].

use vstd::prelude::*;

use crate::le::{read_u16, read_u32, u16_at, u32_at};
use crate::mission::{
    journaled, lemma_sim_view, lemma_sim_wf, ring_pads, scorch_add_pads, scorch_pads, sim_wf,
    MissionSim, MissionView, Robot,
};
use crate::rng::{draw_at, state_after};
use crate::terrain::{cell_of, dat_type_of, in_volume, TerrainView};
use vstd::arithmetic::div_mod::{
    lemma_fundamental_div_mod, lemma_fundamental_div_mod_converse, lemma_mod_pos_bound,
};
use crate::objects::{
    debris_kind_config, kind_config_spec, rows_view, seq_table_index, DebrisScorch, ObjectType,
    ObjectTypeTable, ObjectTypeView, OBJECT_INSTANCE_SLOTS,
};

verus! {

/// Capacity of the terrain-structure bank.
pub const STRUCTURE_SLOTS: usize = 250;

/// The debris-ring slot count.
pub const DEBRIS_SLOTS: usize = 128;

/// The splash-bank slot count.
pub const SPLASH_SLOTS: usize = 250;

/// The per-zone rubble word a destroyed terrain structure leaves (slot 0
/// is an unused head).
pub const RUBBLE_WORD: [i32; 8] = [-1, 0x20, 0x20, 0x348, 0x20, 0x20, 0x20, 0x20];

/// The per-zone water-range base: a mirror word is water when it lies in
/// `[base, base + 0xE)`.
pub const WATER_RANGE: [i32; 8] = [0x25D, 0x25D, 0xBD, 0x3BD, 0x5E8, 0xBD, 0xEC, 0xC3];

/// The per-zone hazard bases: a mirror word in `[base, base + 4]` stamps
/// object-grid word 0x7d2 at mission load.
pub const HAZARD_7D2: [i32; 8] = [0x20, 0x49, 0x49, 0x34E, 0x49, 0x77, 0x77, 0x49];

/// The per-zone phase-clamp bases: a mirror word in `[base, base + 4]`
/// stamps object-grid word 0x7d3.
pub const HAZARD_7D3: [i32; 8] = [0x49, 0x4E, 0x4E, 0x349, 0x4E, 0x7C, 0x7C, 0x4E];

/// The zone-3 bridge trigger codes by mission number 1..=5.
pub const ZONE3_TRIGGER_CODES: [i32; 5] = [0x6f, 0x7e, 0x80, 0x79, 0x88];

/// The bridge trigger code of a zone (and, in zone 3, of its mission).
pub open spec fn trigger_code_of(zone: u32, mission_no: u32) -> Option<i32> {
    if zone == 1 || zone == 4 {
        Some(5)
    } else if zone == 2 || zone == 7 {
        Some(0x84)
    } else if zone == 3 {
        if 1 <= mission_no <= 5 {
            Some(ZONE3_TRIGGER_CODES@[mission_no - 1])
        } else {
            None
        }
    } else if zone == 5 {
        Some(0x2f)
    } else if zone == 6 {
        Some(0x2710)
    } else {
        None
    }
}

/// The per-zone bridge-build trigger code: destroying an object whose
/// type index equals it builds a bridge ring. Zones 1 and 4 use 5, 2
/// and 7 use 0x84, 5 uses 0x2f, 6 the never-matching 0x2710; zone 3
/// picks by mission number (1..=5, else none); other zones have none.
pub fn zone_trigger_code(zone: u32, mission_no: u32) -> (r: Option<i32>)
    ensures
        r == trigger_code_of(zone, mission_no),
{
    if zone == 1 || zone == 4 {
        Some(5)
    } else if zone == 2 || zone == 7 {
        Some(0x84)
    } else if zone == 3 {
        if 1 <= mission_no && mission_no <= 5 {
            Some(ZONE3_TRIGGER_CODES[(mission_no - 1) as usize])
        } else {
            None
        }
    } else if zone == 5 {
        Some(0x2f)
    } else if zone == 6 {
        Some(0x2710)
    } else {
        None
    }
}

/// One sentry-turret record: active flag, hit points, tile position,
/// and the gun's animation: its state (1 closed, 2 opening, 3 and 4
/// closing, 5 to 8 aiming down, up, right and left), frame and fire
/// counter.
#[derive(Debug, Clone, Copy, PartialEq, Eq)]
pub struct TerrainStructure {
    pub active: bool,
    pub hp: i32,
    pub x: i32,
    pub y: i32,
    pub z: i32,
    pub state: i32,
    pub frame: i32,
    pub fire_counter: i32,
}

/// One destructible-object instance placed by the POS file: footprint
/// origin (tiles), base level, type-row index, destroyed flag, hit
/// points (-1 = immune) and its slot in the POS record array.
#[derive(Debug, Clone, Copy, PartialEq, Eq)]
pub struct ObjectInstance {
    pub x: i32,
    pub y: i32,
    pub z: i32,
    pub id: i32,
    pub destroyed: bool,
    pub hp: i32,
    pub slot: u16,
}

/// One debris-ring record; the all-zero record is a free slot.
#[derive(Debug, Clone, Copy, PartialEq, Eq, Default)]
pub struct DebrisRecord {
    pub active: bool,
    pub x: i32,
    pub y: i32,
    pub z: i32,
    pub init_a: i32,
    pub init_b: i32,
    /// The global staging counter at staging (the eviction key).
    pub seq: i32,
    /// The tick index into the sprite walk.
    pub anim: i32,
    pub kind: i32,
    /// The physics countdown.
    pub phys: i32,
    /// The start delay in frames.
    pub delay: i32,
    pub param: i32,
    /// The sprite-walk table index.
    pub table: u8,
}

/// One splash-bank record `{x tile, y tile, z level, delay, age}`; age 0
/// is a free slot.
#[derive(Debug, Clone, Copy, PartialEq, Eq, Default)]
pub struct SplashRecord {
    pub x: i16,
    pub y: i16,
    pub z: i16,
    pub delay: u16,
    pub age: u16,
}

/// The free debris record.
pub open spec fn free_debris() -> DebrisRecord {
    DebrisRecord {
        active: false,
        x: 0,
        y: 0,
        z: 0,
        init_a: 0,
        init_b: 0,
        seq: 0,
        anim: 0,
        kind: 0,
        phys: 0,
        delay: 0,
        param: 0,
        table: 0,
    }
}

/// The free splash record.
pub open spec fn free_splash() -> SplashRecord {
    SplashRecord { x: 0, y: 0, z: 0, delay: 0, age: 0 }
}

/// The turret hit points of linear mission `m`: `250 + (250*m)/27`
/// (truncating, with `m` read as `i32`).
pub open spec fn turret_hp(linear: u32) -> i32 {
    (250 + crate::fx::trunc_div(250 * (linear as i32), 27)) as i32
}

/// The records of a TRT file: `u16 count` then `count` records of three
/// `u32` words `(x, y, z)`; at most the first 250 are kept, each active
/// with the turret hit points.
pub open spec fn trt_records(bytes: Seq<u8>, linear: u32) -> Option<Seq<TerrainStructure>> {
    if bytes.len() < 2 || bytes.len() != 2 + 12 * u16_at(bytes, 0) {
        None
    } else {
        let n = if u16_at(bytes, 0) > 250 {
            250
        } else {
            u16_at(bytes, 0) as int
        };
        Some(
            Seq::new(
                n as nat,
                |i: int|
                    TerrainStructure {
                        active: true,
                        hp: turret_hp(linear),
                        x: u32_at(bytes, 2 + 12 * i) as i32,
                        y: u32_at(bytes, 2 + 12 * i + 4) as i32,
                        z: u32_at(bytes, 2 + 12 * i + 8) as i32,
                        state: 1,
                        frame: 0,
                        fire_counter: 0,
                    },
            ),
        )
    }
}

/// Parse a TRT file (see [`trt_records`]); `None` on a short file or a
/// length that does not match the count.
pub fn parse_trt(bytes: &[u8], linear: u32) -> (r: Option<Vec<TerrainStructure>>)
    requires
        i32::MIN <= 250 * (linear as i32) <= i32::MAX,
    ensures
        r matches Some(v) ==> trt_records(bytes@, linear) == Some(v@),
        r is None ==> trt_records(bytes@, linear) is None,
{
    if bytes.len() < 2 {
        return None;
    }
    let count = read_u16(bytes, 0) as usize;
    if bytes.len() != 2 + 12 * count {
        return None;
    }
    let lin = linear as i32;
    let num = 250 * lin;
    let q: i32 = if num < 0 {
        let a = (0 - (num as i64)) / 27;
        assert(a <= 0x8000_0000int / 27) by (nonlinear_arith)
            requires
                a == (0 - (num as i64)) / 27,
                num >= i32::MIN,
        ;
        0 - a as i32
    } else {
        assert(num / 27 <= i32::MAX / 27) by (nonlinear_arith)
            requires
                0 <= num <= i32::MAX,
        ;
        num / 27
    };
    let hp = 250 + q;
    assert(hp == turret_hp(linear));
    let n = if count < STRUCTURE_SLOTS {
        count
    } else {
        STRUCTURE_SLOTS
    };
    let mut out: Vec<TerrainStructure> = Vec::new();
    let mut i: usize = 0;
    while i < n
        invariant
            n <= count,
            n <= 250,
            bytes@.len() == 2 + 12 * count,
            hp == turret_hp(linear),
            i <= n,
            out@.len() == i,
            forall|k: int|
                0 <= k < i ==> out@[k] == (TerrainStructure {
                    active: true,
                    hp: turret_hp(linear),
                    x: u32_at(bytes@, 2 + 12 * k) as i32,
                    y: u32_at(bytes@, 2 + 12 * k + 4) as i32,
                    z: u32_at(bytes@, 2 + 12 * k + 8) as i32,
                    state: 1,
                    frame: 0,
                    fire_counter: 0,
                }),
        decreases n - i,
    {
        let o = 2 + 12 * i;
        let x = read_u32(bytes, o) as i32;
        let y = read_u32(bytes, o + 4) as i32;
        let z = read_u32(bytes, o + 8) as i32;
        out.push(TerrainStructure { active: true, hp, x, y, z, state: 1, frame: 0, fire_counter: 0 });
        i = i + 1;
    }
    assert(out@ =~= trt_records(bytes@, linear).unwrap());
    Some(out)
}

/// The `(x, y, z, id)` words of POS record `slot`.
pub open spec fn pos_record(pos: Seq<u8>, slot: int) -> (i32, i32, i32, i32) {
    (
        u32_at(pos, 16 * slot) as i32,
        u32_at(pos, 16 * slot + 4) as i32,
        u32_at(pos, 16 * slot + 8) as i32,
        u32_at(pos, 16 * slot + 12) as i32,
    )
}

/// The type row an instance id names, if any.
pub open spec fn type_of(types: Seq<ObjectTypeView>, id: i32) -> Option<ObjectTypeView> {
    if 0 <= id < types.len() {
        Some(types[id as int])
    } else {
        None
    }
}

/// The instances of the first `k` POS records: every record whose id is
/// not -1, in slot order, undestroyed, with the hit points of the type
/// row its id names (0 when it names none).
pub open spec fn pos_instances(pos: Seq<u8>, types: Seq<ObjectTypeView>, k: nat) -> Seq<
    ObjectInstance,
>
    decreases k,
{
    if k == 0 {
        Seq::empty()
    } else {
        let prev = pos_instances(pos, types, (k - 1) as nat);
        let r = pos_record(pos, k - 1);
        if r.3 == -1 {
            prev
        } else {
            prev.push(
                ObjectInstance {
                    x: r.0,
                    y: r.1,
                    z: r.2,
                    id: r.3,
                    destroyed: false,
                    hp: match type_of(types, r.3) {
                        Some(t) => t.hp,
                        None => 0,
                    },
                    slot: (k - 1) as u16,
                },
            )
        }
    }
}

/// Instance `o` of type `t` covers linear tile `tile` of a `w`-wide map.
pub open spec fn covers(o: ObjectInstance, t: ObjectTypeView, w: int, tile: int) -> bool {
    let tx = tile % w;
    let ty = tile / w;
    &&& o.x <= tx < o.x + t.w
    &&& o.y <= ty < o.y + t.h
}

/// The object grid after the footprints of instances `0..k` are stamped
/// (instance `i` writes `i + 1` over the in-map tiles of its type's
/// footprint; later instances win; instances naming no type stamp
/// nothing).
pub open spec fn stamp_grid(
    grid: Seq<u16>,
    objs: Seq<ObjectInstance>,
    types: Seq<ObjectTypeView>,
    w: int,
    k: nat,
) -> Seq<u16>
    decreases k,
{
    if k == 0 {
        grid
    } else {
        let g = stamp_grid(grid, objs, types, w, (k - 1) as nat);
        match type_of(types, objs[k - 1].id) {
            None => g,
            Some(t) => Seq::new(
                g.len(),
                |tile: int|
                    if covers(objs[k - 1], t, w, tile) {
                        k as u16
                    } else {
                        g[tile]
                    },
            ),
        }
    }
}

/// The simulation after the destroy family is staged from a BDG table,
/// a POS file and a TRT file: the zone, the fence timers (cleared),
/// linear number, type rows and
/// turret bank (empty when the TRT file does not parse) always take
/// their new values and the instances are cleared; a POS file of exactly
/// 2000 records of 16 bytes then places its instances, stamps their
/// footprints into a fresh object grid, and resets the platform bank,
/// the mirror banks, the height pairs and the platform site.
pub open spec fn destroy_staged(
    m: MissionView,
    types: Seq<ObjectTypeView>,
    pos: Seq<u8>,
    trt: Seq<u8>,
    zone: u32,
    linear: u32,
) -> MissionView {
    let n = (m.terrain.width * m.terrain.height) as nat;
    let base = MissionView {
        zone: zone,
        fence_timers: Seq::new(32, |i: int| (0u32, 0u16)),
        linear: linear,
        object_types: types,
        structures: match trt_records(trt, linear) {
            Some(v) => v,
            None => Seq::empty(),
        },
        objects: Seq::empty(),
        ..m
    };
    if pos.len() != 16 * OBJECT_INSTANCE_SLOTS {
        base
    } else {
        let objs = pos_instances(pos, types, OBJECT_INSTANCE_SLOTS as nat);
        MissionView {
            objects: objs,
            object_grid: stamp_grid(Seq::new(n, |i: int| 0u16), objs, types, m.terrain.width, objs.len()),
            platform_strength: Seq::new(n, |i: int| 0u16),
            mirror_words: Seq::new(8 * n, |i: int| 0u16),
            mirror_seen: Seq::new(8 * n, |i: int| 0u8),
            mirror_heights: Seq::new(n, |i: int| (0u8, 0u8)),
            platform_site: (0, 0),
            ..base
        }
    }
}

/// A copy of a type row.
pub(crate) fn copy_type(t: &ObjectType) -> (r: ObjectType)
    ensures
        r@ == t@,
{
    let r = ObjectType {
        w: t.w,
        h: t.h,
        d: t.d,
        hp: t.hp,
        chain: t.chain,
        kind: t.kind,
        count: t.count,
        effects: t.effects,
        bank_current_tot: copy_words(&t.bank_current_tot),
        bank_under_tot: copy_words(&t.bank_under_tot),
        bank_current_dat: copy_words(&t.bank_current_dat),
        bank_under_dat: copy_words(&t.bank_under_dat),
    };
    r
}

/// A copy of a word bank.
fn copy_words(v: &Vec<u16>) -> (r: Vec<u16>)
    ensures
        r@ == v@,
{
    let mut r: Vec<u16> = Vec::new();
    let mut i: usize = 0;
    while i < v.len()
        invariant
            i <= v.len(),
            r@ == v@.take(i as int),
        decreases v.len() - i,
    {
        r.push(v[i]);
        i = i + 1;
        assert(r@ =~= v@.take(i as int));
    }
    assert(v@.take(v.len() as int) =~= v@);
    r
}

/// A kept journal with no entry.
spec fn journal_len_zero(j: Option<Vec<(usize, u16, u8)>>) -> bool {
    match j {
        Some(v) => v@ =~= Seq::<(usize, u16, u8)>::empty(),
        None => false,
    }
}

/// A copy of a word slice.
fn copy_slice_words(v: &[u16]) -> (r: Vec<u16>)
    ensures
        r@ == v@,
{
    let mut r: Vec<u16> = Vec::new();
    let mut i: usize = 0;
    while i < v.len()
        invariant
            i <= v.len(),
            r@ == v@.take(i as int),
        decreases v.len() - i,
    {
        r.push(v[i]);
        i = i + 1;
        assert(r@ =~= v@.take(i as int));
    }
    assert(v@.take(v@.len() as int) =~= v@);
    r
}

/// A copy of the rows of a type table.
fn copy_rows(rows: &Vec<ObjectType>) -> (r: Vec<ObjectType>)
    ensures
        rows_view(r@) == rows_view(rows@),
{
    let mut r: Vec<ObjectType> = Vec::new();
    let mut i: usize = 0;
    while i < rows.len()
        invariant
            i <= rows.len(),
            rows_view(r@) == rows_view(rows@).take(i as int),
        decreases rows.len() - i,
    {
        let t = copy_type(&rows[i]);
        proof {
            assert(rows_view(r@.push(t)) =~= rows_view(r@).push(t@));
        }
        r.push(t);
        i = i + 1;
        assert(rows_view(r@) =~= rows_view(rows@).take(i as int));
    }
    assert(rows_view(rows@).take(rows.len() as int) =~= rows_view(rows@));
    r
}

/// `n` zero words.
fn zero_words(n: usize) -> (v: Vec<u16>)
    ensures
        v@ == Seq::new(n as nat, |i: int| 0u16),
{
    let mut v: Vec<u16> = Vec::new();
    let mut i: usize = 0;
    while i < n
        invariant
            i <= n,
            v@ == Seq::new(i as nat, |k: int| 0u16),
        decreases n - i,
    {
        v.push(0);
        i = i + 1;
        assert(v@ =~= Seq::new(i as nat, |k: int| 0u16));
    }
    v
}

/// `n` zero bytes.
fn zero_bytes(n: usize) -> (v: Vec<u8>)
    ensures
        v@ == Seq::new(n as nat, |i: int| 0u8),
{
    let mut v: Vec<u8> = Vec::new();
    let mut i: usize = 0;
    while i < n
        invariant
            i <= n,
            v@ == Seq::new(i as nat, |k: int| 0u8),
        decreases n - i,
    {
        v.push(0);
        i = i + 1;
        assert(v@ =~= Seq::new(i as nat, |k: int| 0u8));
    }
    v
}

/// `n` zero height pairs.
fn zero_pairs(n: usize) -> (v: Vec<(u8, u8)>)
    ensures
        v@ == Seq::new(n as nat, |i: int| (0u8, 0u8)),
{
    let mut v: Vec<(u8, u8)> = Vec::new();
    let mut i: usize = 0;
    while i < n
        invariant
            i <= n,
            v@ == Seq::new(i as nat, |k: int| (0u8, 0u8)),
        decreases n - i,
    {
        v.push((0, 0));
        i = i + 1;
        assert(v@ =~= Seq::new(i as nat, |k: int| (0u8, 0u8)));
    }
    v
}

/// The instances a POS file places (see [`pos_instances`]).
fn read_instances(pos: &[u8], rows: &Vec<ObjectType>) -> (v: Vec<ObjectInstance>)
    requires
        pos@.len() == 16 * OBJECT_INSTANCE_SLOTS,
    ensures
        v@ == pos_instances(pos@, rows_view(rows@), OBJECT_INSTANCE_SLOTS as nat),
        v@.len() <= OBJECT_INSTANCE_SLOTS,
{
    let ghost types = rows_view(rows@);
    let mut v: Vec<ObjectInstance> = Vec::new();
    let mut slot: usize = 0;
    while slot < OBJECT_INSTANCE_SLOTS
        invariant
            slot <= OBJECT_INSTANCE_SLOTS,
            pos@.len() == 16 * OBJECT_INSTANCE_SLOTS,
            types == rows_view(rows@),
            v@ == pos_instances(pos@, types, slot as nat),
            v@.len() <= slot,
        decreases OBJECT_INSTANCE_SLOTS - slot,
    {
        let o = 16 * slot;
        let x = read_u32(pos, o) as i32;
        let y = read_u32(pos, o + 4) as i32;
        let z = read_u32(pos, o + 8) as i32;
        let id = read_u32(pos, o + 12) as i32;
        if id != -1 {
            let hp = if 0 <= id && (id as usize) < rows.len() {
                rows[id as usize].hp
            } else {
                0
            };
            v.push(ObjectInstance { x, y, z, id, destroyed: false, hp, slot: slot as u16 });
        }
        slot = slot + 1;
    }
    v
}

/// The map coordinates of an in-map linear tile.
pub(crate) proof fn lemma_tile_coords(t: int, w: int, h: int)
    requires
        w > 0,
        h > 0,
        0 <= t < w * h,
    ensures
        0 <= t % w < w,
        0 <= t / w < h,
        t == (t / w) * w + t % w,
{
    lemma_fundamental_div_mod(t, w);
    lemma_mod_pos_bound(t, w);
    let q = t / w;
    let r = t % w;
    assert(0 <= q < h) by (nonlinear_arith)
        requires
            t == w * q + r,
            0 <= r < w,
            0 <= t < w * h,
            w > 0,
    ;
    assert(t == q * w + r) by (nonlinear_arith)
        requires
            t == w * q + r,
    ;
}

/// The linear tile of in-map coordinates.
pub(crate) proof fn lemma_tile_of(x: int, y: int, w: int, h: int)
    requires
        0 <= x < w,
        0 <= y < h,
    ensures
        0 <= y * w + x < w * h,
        0 <= y * w <= w * h,
        (y * w + x) % w == x,
        (y * w + x) / w == y,
{
    lemma_fundamental_div_mod_converse(y * w + x, w, y, x);
    assert(0 <= y * w + x < w * h && 0 <= y * w <= w * h) by (nonlinear_arith)
        requires
            0 <= x < w,
            0 <= y < h,
    ;
}

/// Tile `tile` lies in rows `[o.y, o.y + i)` of the footprint, or in row
/// `o.y + i` before column `o.x + j`.
pub open spec fn covers_upto(o: ObjectInstance, t: ObjectTypeView, w: int, i: int, j: int, tile: int) -> bool {
    let tx = tile % w;
    let ty = tile / w;
    ||| (o.x <= tx < o.x + t.w && o.y <= ty < o.y + i)
    ||| (ty == o.y + i && o.x <= tx < o.x + j)
}

/// Write `k` over the in-map tiles of instance `o`'s footprint of type
/// `t` on a `w x h` grid.
fn stamp_footprint(grid: &mut Vec<u16>, o: ObjectInstance, t: &ObjectType, k: u16, w: i32, h: i32)
    requires
        w > 0,
        h > 0,
        8 * w * h <= i32::MAX,
        old(grid)@.len() == w * h,
    ensures
        final(grid)@ == Seq::new(
            old(grid)@.len(),
            |tile: int|
                if covers(o, t@, w as int, tile) {
                    k
                } else {
                    old(grid)@[tile]
                },
        ),
{
    let ghost g0 = grid@;
    let ghost tv = t@;
    assert(w * h <= i32::MAX) by (nonlinear_arith)
        requires
            8 * w * h <= i32::MAX,
            w > 0,
            h > 0,
    ;
    let tw = t.w as i64;
    let th = t.h as i64;
    let mut i: i64 = 0;
    while i < th
        invariant
            0 <= i <= th,
            th == tv.h,
            tw == tv.w,
            tv == t@,
            w > 0,
            h > 0,
            8 * w * h <= i32::MAX,
            w * h <= i32::MAX,
            g0.len() == w * h,
            grid@ == Seq::new(
                g0.len(),
                |tile: int|
                    if covers_upto(o, tv, w as int, i as int, 0, tile) {
                        k
                    } else {
                        g0[tile]
                    },
            ),
        decreases th - i,
    {
        let mut j: i64 = 0;
        while j < tw
            invariant
                0 <= i < th,
                0 <= j <= tw,
                th == tv.h,
                tw == tv.w,
                w > 0,
                h > 0,
                8 * w * h <= i32::MAX,
                w * h <= i32::MAX,
                tv == t@,
                g0.len() == w * h,
                grid@ == Seq::new(
                    g0.len(),
                    |tile: int|
                        if covers_upto(o, tv, w as int, i as int, j as int, tile) {
                            k
                        } else {
                            g0[tile]
                        },
                ),
            decreases tw - j,
        {
            let x = o.x as i64 + j;
            let y = o.y as i64 + i;
            let ghost before = grid@;
            if x < 0 || y < 0 || x >= w as i64 || y >= h as i64 {
                assert forall|tile: int| 0 <= tile < g0.len() implies covers_upto(
                    o,
                    tv,
                    w as int,
                    i as int,
                    j + 1,
                    tile,
                ) == covers_upto(o, tv, w as int, i as int, j as int, tile) by {
                    lemma_tile_coords(tile, w as int, h as int);
                }
                assert(grid@ =~= Seq::new(
                    g0.len(),
                    |tile: int|
                        if covers_upto(o, tv, w as int, i as int, j + 1, tile) {
                            k
                        } else {
                            g0[tile]
                        },
                ));
            } else {
                proof {
                    lemma_tile_of(x as int, y as int, w as int, h as int);
                }
                let tile = (y * w as i64 + x) as usize;
                grid.set(tile, k);
                assert forall|t2: int| 0 <= t2 < g0.len() implies #[trigger] grid@[t2] == (
                if covers_upto(o, tv, w as int, i as int, j + 1, t2) {
                    k
                } else {
                    g0[t2]
                }) by {
                    lemma_tile_coords(t2, w as int, h as int);
                    if t2 != tile as int {
                        assert(!(t2 / (w as int) == y && t2 % (w as int) == x));
                    }
                }
                assert(grid@ =~= Seq::new(
                    g0.len(),
                    |tile: int|
                        if covers_upto(o, tv, w as int, i as int, j + 1, tile) {
                            k
                        } else {
                            g0[tile]
                        },
                ));
            }
            j = j + 1;
        }
        assert forall|tile: int| 0 <= tile < g0.len() implies covers_upto(
            o,
            tv,
            w as int,
            i as int,
            tw as int,
            tile,
        ) == covers_upto(o, tv, w as int, i + 1, 0, tile) by {}
        assert(grid@ =~= Seq::new(
            g0.len(),
            |tile: int|
                if covers_upto(o, tv, w as int, i + 1, 0, tile) {
                    k
                } else {
                    g0[tile]
                },
        ));
        i = i + 1;
    }
    assert forall|tile: int| 0 <= tile < g0.len() implies covers_upto(
        o,
        tv,
        w as int,
        th as int,
        0,
        tile,
    ) == covers(o, tv, w as int, tile) by {}
    assert(grid@ =~= Seq::new(
        g0.len(),
        |tile: int|
            if covers(o, t@, w as int, tile) {
                k
            } else {
                g0[tile]
            },
    ));
}


/// The object-grid word at a tile: 0 off the map or past the staged
/// words.
pub open spec fn grid_word_at(m: MissionView, x: i32, y: i32) -> u16 {
    if x < 0 || y < 0 || x >= m.terrain.width || y >= m.terrain.height {
        0
    } else {
        let t = y * m.terrain.width + x;
        if t < m.object_grid.len() {
            m.object_grid[t]
        } else {
            0
        }
    }
}

/// The platform strength word at a tile: 0 off the map or past the
/// staged words.
pub open spec fn strength_word_at(m: MissionView, x: i32, y: i32) -> u16 {
    if x < 0 || y < 0 || x >= m.terrain.width || y >= m.terrain.height {
        0
    } else {
        let t = y * m.terrain.width + x;
        if t < m.platform_strength.len() {
            m.platform_strength[t]
        } else {
            0
        }
    }
}

/// The simulation after the host stages the mirror words (8 per tile):
/// the words replace the mirror; a mirror of the wrong size first gets
/// fresh zero seen bytes and height pairs.
pub open spec fn mirror_staged(m: MissionView, words: Seq<u16>) -> MissionView {
    let n = (m.terrain.width * m.terrain.height) as nat;
    if m.mirror_words.len() != 8 * n {
        MissionView {
            mirror_words: words,
            mirror_seen: Seq::new(8 * n, |i: int| 0u8),
            mirror_heights: Seq::new(n, |i: int| (0u8, 0u8)),
            ..m
        }
    } else {
        MissionView { mirror_words: words, ..m }
    }
}


/// The hazard word the mirror words of `tile` stamp, over levels
/// `0..z`: a word in `[b73, b73 + 4]` gives 0x7d3, one in
/// `[b72, b72 + 4]` gives 0x7d2 (which wins on the same level), and a
/// later level overrides an earlier one; 0 when none matches.
pub open spec fn hazard_word(words: Seq<u16>, tile: int, b72: i32, b73: i32, z: nat) -> u16
    decreases z,
{
    if z == 0 {
        0
    } else {
        let prev = hazard_word(words, tile, b72, b73, (z - 1) as nat);
        let zw = words[tile * 8 + z - 1] as int;
        if b72 <= zw <= b72 + 4 {
            0x7d2
        } else if b73 <= zw <= b73 + 4 {
            0x7d3
        } else {
            prev
        }
    }
}

/// The zone's hazard bases, when the zone indexes the tables.
pub open spec fn hazard_bases(zone: u32) -> Option<(i32, i32)> {
    if zone < 8 {
        Some((HAZARD_7D2@[zone as int], HAZARD_7D3@[zone as int]))
    } else {
        None
    }
}

/// Every tile whose mirror words stamp a hazard word has an object-grid
/// word to take it.
pub open spec fn hazard_grid_fits(m: MissionView) -> bool {
    let n = m.terrain.width * m.terrain.height;
    forall|t: int|
        0 <= t < n && m.mirror_words.len() == 8 * n && m.zone < 8 && #[trigger] hazard_word(
            m.mirror_words,
            t,
            HAZARD_7D2@[m.zone as int],
            HAZARD_7D3@[m.zone as int],
            8,
        ) != 0 ==> t < m.object_grid.len()
}

/// The simulation after the hazard stamp: with a full mirror (8 words
/// per tile) and a zone inside the tables, every tile whose words stamp
/// a hazard word takes it in the object grid; otherwise nothing changes.
pub open spec fn hazards_stamped(m: MissionView) -> MissionView {
    let n = m.terrain.width * m.terrain.height;
    if m.mirror_words.len() != 8 * n {
        m
    } else {
        match hazard_bases(m.zone) {
            None => m,
            Some((b72, b73)) => MissionView {
                object_grid: Seq::new(
                    m.object_grid.len(),
                    |t: int|
                        if t < n && hazard_word(m.mirror_words, t, b72, b73, 8) != 0 {
                            hazard_word(m.mirror_words, t, b72, b73, 8)
                        } else {
                            m.object_grid[t]
                        },
                ),
                ..m
            },
        }
    }
}

/// The mirror cell of a tile and level, when both are on the map.
pub open spec fn zcell(m: MissionView, x: i32, y: i32, z: i32) -> Option<int> {
    if x < 0 || y < 0 || x >= m.terrain.width || y >= m.terrain.height || z < 0 || z >= 8 {
        None
    } else {
        Some((y * m.terrain.width + x) * 8 + z)
    }
}

/// The simulation after the z-structure write of `word` and `volume` at
/// a tile and level: inside the map and the staged mirror, the mirror
/// cell takes `word` and a seen byte of 1 exactly when `word` is
/// nonzero and `volume` zero (journaled), and the DAT byte takes
/// `volume`; otherwise nothing changes.
pub open spec fn z_written(m: MissionView, x: i32, y: i32, z: i32, word: u16, volume: u8) -> MissionView {
    match zcell(m, x, y, z) {
        None => m,
        Some(c) => if c >= m.mirror_words.len() {
            m
        } else {
            let seen: u8 = if word != 0 && volume == 0 {
                1
            } else {
                0
            };
            MissionView {
                mirror_words: m.mirror_words.update(c, word),
                mirror_seen: m.mirror_seen.update(c, seen),
                terrain_writes: journaled(m.terrain_writes, (c as usize, word, seen)),
                terrain: TerrainView {
                    dat: m.terrain.dat.update(cell_of(m.terrain, x as int, y as int, z as int), volume),
                    ..m.terrain
                },
                ..m
            }
        },
    }
}

/// The result of staging a platform tile: on the map, with a staged
/// object grid and a zone inside the tables, the water z-structure (the
/// zone's water base, volume 2) at the level, grid word 0x7d4 and the
/// strength word; `None` (nothing changes) otherwise.
pub open spec fn platform_staged(m: MissionView, x: i32, y: i32, z: i32, strength: u16) -> Option<MissionView> {
    let w = m.terrain.width;
    let h = m.terrain.height;
    if x < 0 || y < 0 || x >= w || y >= h || m.object_grid.len() != w * h || m.zone >= 8 {
        None
    } else {
        let t = y * w + x;
        let m1 = z_written(m, x, y, z, WATER_RANGE@[m.zone as int] as u16, 2);
        Some(
            MissionView {
                object_grid: m1.object_grid.update(t, 0x7d4),
                platform_strength: m1.platform_strength.update(t, strength),
                ..m1
            },
        )
    }
}

/// The seen byte of a mirror cell, 0 past the staged bytes.
pub open spec fn seen_at(m: MissionView, c: int) -> u8 {
    if 0 <= c < m.mirror_seen.len() {
        m.mirror_seen[c]
    } else {
        0
    }
}

/// The first level from `z` up to 7 whose DAT volume and seen byte are
/// both 0 at an on-map tile; 7 when none is.
pub open spec fn probe_up(m: MissionView, x: i32, y: i32, z: int) -> int
    decreases 7 - z,
{
    if z >= 7 {
        z
    } else {
        let c = (y * m.terrain.width + x) * 8 + z;
        if dat_type_of(m.terrain, x, y, z as i32) == 0 && seen_at(m, c) == 0 {
            z
        } else {
            probe_up(m, x, y, z + 1)
        }
    }
}

/// The probe climbs from `z` and stops at 7 at the latest.
proof fn lemma_probe_up_range(m: MissionView, x: i32, y: i32, z: int)
    requires
        0 <= z <= 7,
    ensures
        z <= probe_up(m, x, y, z) <= 7,
    decreases 7 - z,
{
    if z < 7 {
        lemma_probe_up_range(m, x, y, z + 1);
    }
}

/// The water-level probe: 7 off the map, else the first free level from
/// `z` clamped into `0..=7` (see [`probe_up`]).
pub open spec fn splash_z(m: MissionView, x: i32, y: i32, z: i32) -> int {
    if x < 0 || y < 0 || x >= m.terrain.width || y >= m.terrain.height {
        7
    } else {
        probe_up(m, x, y, if z < 0 { 0 } else if z > 7 { 7 } else { z as int })
    }
}


/// The first free splash slot (age 0) from slot `i` on.
pub open spec fn free_splash_from(b: Seq<SplashRecord>, i: int) -> Option<int>
    decreases b.len() - i,
{
    if i < 0 || i >= b.len() {
        None
    } else if b[i].age == 0 {
        Some(i)
    } else {
        free_splash_from(b, i + 1)
    }
}

/// The greatest age among the first `k` splash slots (-1 for none) and
/// the first slot that has it (0 for none).
pub open spec fn oldest_splash(b: Seq<SplashRecord>, k: nat) -> (int, int)
    decreases k,
{
    if k == 0 {
        (-1, 0)
    } else {
        let (a, s) = oldest_splash(b, (k - 1) as nat);
        if b[k - 1].age > a {
            (b[k - 1].age as int, k - 1)
        } else {
            (a, s)
        }
    }
}

/// The mirror word a splash gate reads at a tile and level: 0 below
/// level 0 or past the staged words.
pub open spec fn gate_word(m: MissionView, tile: int, z: int) -> u16 {
    if z < 0 || tile * 8 + z >= m.mirror_words.len() {
        0
    } else {
        m.mirror_words[tile * 8 + z]
    }
}

/// The splash gate's cell index stays inside `usize`: a negative level
/// is read as a huge unsigned offset, which overflows past tile 0.
pub open spec fn splash_index_fits(m: MissionView, x: i32, y: i32, z: i32) -> bool {
    (0 <= x < m.terrain.width && 0 <= y < m.terrain.height && z < 0) ==> 8 * (y * m.terrain.width
        + x) < -z
}

/// The result of staging a splash at a tile and level (clamped to at
/// most 7): `None` (nothing changes) off the map, on a DAT volume, or on
/// a nonzero mirror word; otherwise the first free slot, or else the
/// oldest one after its z-structure is cleared, takes the record with
/// age 1.
pub open spec fn splash_staged(m: MissionView, x: i32, y: i32, z: i32, delay: u16) -> Option<MissionView> {
    let w = m.terrain.width;
    let h = m.terrain.height;
    if x < 0 || y < 0 || x >= w || y >= h {
        None
    } else {
        let zz: i32 = if z > 7 {
            7
        } else {
            z
        };
        let tile = y * w + x;
        if dat_type_of(m.terrain, x, y, zz) != 0 || gate_word(m, tile, zz as int) != 0 {
            None
        } else {
            let rec = SplashRecord { x: x as i16, y: y as i16, z: zz as i16, delay: delay, age: 1 };
            match free_splash_from(m.splashes, 0) {
                Some(i) => Some(MissionView { splashes: m.splashes.update(i, rec), ..m }),
                None => {
                    let s = oldest_splash(m.splashes, m.splashes.len()).1;
                    let old = m.splashes[s];
                    let m1 = z_written(m, old.x as i32, old.y as i32, old.z as i32, 0, 0);
                    Some(MissionView { splashes: m1.splashes.update(s, rec), ..m1 })
                },
            }
        }
    }
}


/// The first free debris slot from slot `i` on.
pub open spec fn free_debris_from(b: Seq<DebrisRecord>, i: int) -> Option<int>
    decreases b.len() - i,
{
    if i < 0 || i >= b.len() {
        None
    } else if !b[i].active {
        Some(i)
    } else {
        free_debris_from(b, i + 1)
    }
}

/// The least staging counter among the first `k` debris slots
/// (`i32::MAX` for none) and the first slot that has it (0 for none).
pub open spec fn stalest_debris(b: Seq<DebrisRecord>, k: nat) -> (int, int)
    decreases k,
{
    if k == 0 {
        (i32::MAX as int, 0)
    } else {
        let (mn, s) = stalest_debris(b, (k - 1) as nat);
        if b[k - 1].seq < mn {
            (b[k - 1].seq as int, k - 1)
        } else {
            (mn, s)
        }
    }
}

/// The debris gates pass: a non-negative on-map Q5 position and a kind
/// in `1..=20`.
pub open spec fn debris_gates(m: MissionView, x: i32, y: i32, kind: i32) -> bool {
    &&& x >= 0
    &&& y >= 0
    &&& (x >> 5u32) < m.terrain.width
    &&& (y >> 5u32) < m.terrain.height
    &&& 1 <= kind <= 20
}

/// Staging debris stays inside `i32`: the staging counter has room for
/// one more and a ring scorch's offsets fit.
pub open spec fn debris_fits(m: MissionView, x: i32, y: i32, kind: i32) -> bool {
    debris_gates(m, x, y, kind) ==> {
        &&& m.debris_seq < i32::MAX
        &&& kind_config_spec(kind).3 == DebrisScorch::Ring ==> x + 0x20 <= i32::MAX && y + 0x20
            <= i32::MAX
    }
}

/// The result of staging debris of `kind` at a world Q5 position: `None`
/// (nothing changes) when a gate refuses it; otherwise the first free
/// slot, or else the stalest one, takes the record (z clamped into
/// `0x20..=0xFF`, the kind's walk, physics class and init word, the next
/// staging counter), the kind's scorch is written (the 3x3 ring, one
/// center write, or none), and kind 11 draws once from the stream.
#[verifier::opaque]
pub open spec fn debris_staged(
    m: MissionView,
    x: i32,
    y: i32,
    z: i32,
    kind: i32,
    delay: i32,
    param: i32,
) -> Option<MissionView> {
    if !debris_gates(m, x, y, kind) {
        None
    } else {
        let cfg = kind_config_spec(kind);
        let slot = match free_debris_from(m.debris, 0) {
            Some(i) => i,
            None => stalest_debris(m.debris, m.debris.len()).1,
        };
        let seq = (m.debris_seq + 1) as i32;
        let rec = DebrisRecord {
            active: true,
            x: x,
            y: y,
            z: if z < 0x20 {
                0x20
            } else if z > 0xFF {
                0xFF
            } else {
                z
            },
            init_a: cfg.2,
            init_b: 0,
            seq: seq,
            anim: 0,
            kind: kind,
            phys: cfg.1,
            delay: delay,
            param: param,
            table: cfg.0.unwrap() as u8,
        };
        let w = m.terrain.width;
        let h = m.terrain.height;
        let pads = match cfg.3 {
            DebrisScorch::Ring => ring_pads(m.armor_pads, w, h, (x, y, 0, 0), 9),
            DebrisScorch::Center(v) => scorch_pads(m.armor_pads, w, h, x, y, v),
            DebrisScorch::Nothing => m.armor_pads,
        };
        Some(
            MissionView {
                debris: m.debris.update(slot, rec),
                debris_seq: seq,
                armor_pads: pads,
                rng: if kind == 11 {
                    (state_after(m.rng.0, m.rng.1, 1), m.rng.1)
                } else {
                    m.rng
                },
                ..m
            },
        )
    }
}

/// Debris whose gates pass is staged.
pub proof fn lemma_debris_gates_stage(
    m: MissionView,
    x: i32,
    y: i32,
    z: i32,
    kind: i32,
    delay: i32,
    param: i32,
)
    ensures
        debris_staged(m, x, y, z, kind, delay, param) is Some <==> debris_gates(m, x, y, kind),
{
    reveal(debris_staged);
}

/// Staging debris advances the staging counter by one and keeps the map.
pub proof fn lemma_debris_staged_keeps(
    m: MissionView,
    x: i32,
    y: i32,
    z: i32,
    kind: i32,
    delay: i32,
    param: i32,
)
    requires
        debris_staged(m, x, y, z, kind, delay, param) is Some,
        m.debris_seq < i32::MAX,
    ensures
        debris_staged(m, x, y, z, kind, delay, param).unwrap().debris_seq == m.debris_seq + 1,
        debris_staged(m, x, y, z, kind, delay, param).unwrap().terrain == m.terrain,
{
    reveal(debris_staged);
}

/// Staging debris keeps the robots, the angle table and the terrain.
pub proof fn lemma_debris_staged_keeps_robots(
    m: MissionView,
    x: i32,
    y: i32,
    z: i32,
    kind: i32,
    delay: i32,
    param: i32,
)
    ensures
        debris_staged(m, x, y, z, kind, delay, param) matches Some(m1) ==> {
            &&& m1.robots == m.robots
            &&& m1.angles == m.angles
            &&& m1.terrain == m.terrain
        },
{
    reveal(debris_staged);
}

/// The sprite-walk table index of a debris kind in `1..=20`.
fn debris_table_index(kind: i32) -> (r: u8)
    requires
        1 <= kind <= 20,
    ensures
        r == kind_config_spec(kind).0.unwrap(),
{
    if kind == 1 || kind == 5 || kind == 6 || kind == 9 || kind == 11 || kind == 12 || (13 <= kind
        && kind <= 15) {
        0
    } else if kind == 2 || kind == 8 {
        6
    } else if kind == 3 {
        8
    } else if kind == 4 {
        7
    } else if kind == 7 {
        9
    } else if kind == 10 {
        10
    } else if kind == 16 {
        3
    } else if kind == 17 {
        4
    } else if kind == 18 {
        2
    } else if kind == 19 {
        1
    } else {
        5
    }
}


/// The first active structure at tile `(tx, ty)` from slot `i` on.
pub open spec fn structure_at(b: Seq<TerrainStructure>, tx: int, ty: int, i: int) -> Option<int>
    decreases b.len() - i,
{
    if i < 0 || i >= b.len() {
        None
    } else if b[i].active && b[i].x == tx && b[i].y == ty {
        Some(i)
    } else {
        structure_at(b, tx, ty, i + 1)
    }
}

/// The rubble word of a zone (0x20 outside the table).
pub open spec fn rubble_of(zone: u32) -> i32 {
    if zone < 8 {
        RUBBLE_WORD@[zone as int]
    } else {
        0x20
    }
}

/// The terrain after the DAT byte of a cell takes `b` (nothing changes
/// outside the volume).
pub open spec fn dat_written(t: TerrainView, x: int, y: int, z: int, b: u8) -> TerrainView {
    if in_volume(t, x, y, z) {
        TerrainView { dat: t.dat.update(cell_of(t, x, y, z), b), ..t }
    } else {
        t
    }
}

/// A structure impact stays inside `i32`: the struck structure's hit
/// points, and for a killing blow the debris coordinates, the ring
/// scorch around them and the staging counter.
pub open spec fn structure_impact_fits(m: MissionView, x: i32, y: i32, damage: i32) -> bool {
    let tx = x >> 13u32;
    let ty = y >> 13u32;
    (x >= 0 && y >= 0 && tx < m.terrain.width && ty < m.terrain.height) ==> match structure_at(
        m.structures,
        tx as int,
        ty as int,
        0,
    ) {
        None => true,
        Some(i) => {
            let s = m.structures[i];
            &&& i32::MIN <= s.hp - damage <= i32::MAX
            &&& s.hp - damage <= 0 ==> {
                &&& i32::MIN <= s.z * 0x20 <= i32::MAX
                &&& tx * 0x20 + 0x20 <= i32::MAX
                &&& ty * 0x20 + 0x20 <= i32::MAX
                &&& m.debris_seq < i32::MAX
            }
        },
    }
}

/// The simulation after a weapon impact at world Q13 `(x, y)` with
/// `damage` against the terrain structures: off the map, or with no
/// active structure on the tile, nothing changes; the first one there
/// loses `damage` hit points; at 0 or below it goes inactive, its
/// mirror cell takes the zone's rubble word (seen 1) when the level is
/// in 0..8 and the mirror is staged there, its DAT byte clears, kind-15
/// debris is staged at the tile and a splash at the probed water level.
pub open spec fn structure_impacted(m: MissionView, x: i32, y: i32, damage: i32) -> MissionView {
    let w = m.terrain.width;
    let h = m.terrain.height;
    let tx = x >> 13u32;
    let ty = y >> 13u32;
    if x < 0 || y < 0 || tx >= w || ty >= h {
        m
    } else {
        match structure_at(m.structures, tx as int, ty as int, 0) {
            None => m,
            Some(i) => {
                let s = m.structures[i];
                let hp = (s.hp - damage) as i32;
                if hp > 0 {
                    MissionView { structures: m.structures.update(i, TerrainStructure { hp: hp, ..s }), ..m }
                } else {
                    let m1 = MissionView {
                        structures: m.structures.update(
                            i,
                            TerrainStructure { hp: hp, active: false, ..s },
                        ),
                        ..m
                    };
                    let c = (ty * w + tx) * 8 + s.z;
                    let rubble = rubble_of(m.zone) as u16;
                    let m2 = if 0 <= s.z < 8 && c < m1.mirror_words.len() {
                        MissionView {
                            mirror_words: m1.mirror_words.update(c, rubble),
                            mirror_seen: m1.mirror_seen.update(c, 1),
                            terrain_writes: journaled(m1.terrain_writes, (c as usize, rubble, 1u8)),
                            ..m1
                        }
                    } else {
                        m1
                    };
                    let m3 = MissionView {
                        terrain: dat_written(m2.terrain, tx as int, ty as int, s.z as int, 0),
                        ..m2
                    };
                    let m4 = debris_staged(
                        m3,
                        (tx * 0x20) as i32,
                        (ty * 0x20) as i32,
                        (s.z * 0x20) as i32,
                        15,
                        0,
                        -1i32,
                    ).unwrap();
                    let pz = splash_z(m4, tx as i32, ty as i32, s.z);
                    match splash_staged(m4, tx as i32, ty as i32, pz as i32, 0) {
                        Some(m5) => m5,
                        None => m4,
                    }
                }
            },
        }
    }
}


/// The eight neighbours a platform ring builds, in build order (rows
/// north to south, each west to east; the center is skipped).
pub const PLATFORM_RING: [(i32, i32); 8] = [
    (-1, -1),
    (0, -1),
    (1, -1),
    (-1, 0),
    (1, 0),
    (-1, 1),
    (0, 1),
    (1, 1),
];

/// A bank word of a linear tile, `dflt` past the staged words.
pub open spec fn word_or(b: Seq<u16>, t: int, dflt: u16) -> u16 {
    if 0 <= t < b.len() {
        b[t]
    } else {
        dflt
    }
}

/// Live robot `r` stands in the 2x2 tile block whose north-west corner is
/// its quadrant tile, and that block holds `(x, y)`.
pub open spec fn robot_on_block(r: Robot, x: i32, y: i32) -> bool {
    let tx = (((r.pos_x >> 8u32) - 0xC) as i32) >> 5u32;
    let ty = (((r.pos_y >> 8u32) - 0xC) as i32) >> 5u32;
    &&& r.alive
    &&& (x == tx || x == tx + 1)
    &&& (y == ty || y == ty + 1)
}

/// Some live robot blocks a platform build at `(x, y)`.
pub open spec fn robots_block(robots: Seq<Robot>, x: i32, y: i32) -> bool {
    exists|k: int| 0 <= k < robots.len() && #[trigger] robot_on_block(robots[k], x, y)
}

/// The gates of a platform tile build, in order: on the map, no strength
/// and no grid word at the tile (both staged), no live robot on the tile's
/// block, a level in `1..=7` whose mirror word and DAT volume are 0 over
/// a DAT volume of type 1 one level down, and a zone inside the tables.
/// (The door-claim gate reads an unstaged claim bank and always passes.)
pub open spec fn tile_build_gates(m: MissionView, x: i32, y: i32, z: i32) -> bool {
    let w = m.terrain.width;
    let h = m.terrain.height;
    let t = y * w + x;
    &&& 0 <= x < w
    &&& 0 <= y < h
    &&& word_or(m.platform_strength, t, 1) == 0
    &&& word_or(m.object_grid, t, 1) == 0
    &&& !robots_block(m.robots, x, y)
    &&& 1 <= z <= 7
    &&& gate_word(m, t, z as int) == 0
    &&& dat_type_of(m.terrain, x, y, z) == 0
    &&& dat_type_of(m.terrain, x, y, (z - 1) as i32) == 1
    &&& m.zone < 8
}

/// The simulation after one platform tile build: when the gates pass,
/// the water z-structure (the zone's water base, volume 2), grid word
/// 0x7d4, the strength word and a +4 scorch at the tile; otherwise
/// nothing changes.
pub open spec fn tile_built(m: MissionView, x: i32, y: i32, z: i32, strength: u16) -> MissionView {
    if !tile_build_gates(m, x, y, z) {
        m
    } else {
        let w = m.terrain.width;
        let t = y * w + x;
        let m1 = z_written(m, x, y, z, WATER_RANGE@[m.zone as int] as u16, 2);
        MissionView {
            object_grid: m1.object_grid.update(t, 0x7d4),
            platform_strength: m1.platform_strength.update(t, strength),
            armor_pads: scorch_add_pads(
                m1.armor_pads,
                w,
                m.terrain.height,
                (x * 0x20) as i32,
                (y * 0x20) as i32,
                4,
            ),
            ..m1
        }
    }
}

/// A tile build stays inside `i32`: when its gates pass, the scorch
/// position fits.
pub open spec fn tile_build_fits(m: MissionView, x: i32, y: i32, z: i32) -> bool {
    tile_build_gates(m, x, y, z) ==> x * 0x20 <= i32::MAX && y * 0x20 <= i32::MAX
}

/// The simulation after the first `j` builds of a platform ring around
/// `(x, y)`.
pub open spec fn ring_built(m: MissionView, x: i32, y: i32, z: i32, strength: u16, j: nat) -> MissionView
    decreases j,
{
    if j == 0 || j > 8 {
        m
    } else {
        let prev = ring_built(m, x, y, z, strength, (j - 1) as nat);
        let d = PLATFORM_RING@[j - 1];
        tile_built(prev, (x + d.0) as i32, (y + d.1) as i32, z, strength)
    }
}

/// A platform ring stays inside `i32`: the neighbours' coordinates and
/// every build along the way fit.
pub open spec fn ring_build_fits(m: MissionView, x: i32, y: i32, z: i32, strength: u16) -> bool {
    &&& i32::MIN < x < i32::MAX
    &&& i32::MIN < y < i32::MAX
    &&& forall|j: nat|
        j < 8 ==> tile_build_fits(
            #[trigger] ring_built(m, x, y, z, strength, j),
            (x + PLATFORM_RING@[j as int].0) as i32,
            (y + PLATFORM_RING@[j as int].1) as i32,
            z,
        )
}


/// The first level from `z` on (below 8) whose mirror word at tile `t`
/// lies in the water range `[base, base + 0xE)`.
pub open spec fn water_level_from(m: MissionView, t: int, base: i32, z: int) -> Option<int>
    decreases 8 - z,
{
    if z < 0 || z >= 8 {
        None
    } else if base <= gate_word(m, t, z) < base + 0xE {
        Some(z)
    } else {
        water_level_from(m, t, base, z + 1)
    }
}

/// A water level found from `z` lies in `z..8`.
proof fn lemma_water_level_range(m: MissionView, t: int, base: i32, z: int)
    ensures
        water_level_from(m, t, base, z) matches Some(l) ==> z <= l < 8,
    decreases 8 - z,
{
    if 0 <= z < 8 {
        lemma_water_level_range(m, t, base, z + 1);
    }
}

/// The simulation after kind-7 debris number `k` of a destroyed
/// platform: two draws for its x and y jitter (`& 0xF`, +8), staged at
/// delay `2k`.
#[verifier::opaque]
pub open spec fn platform_debris_step(m: MissionView, x: i32, y: i32, z: int, k: int) -> MissionView {
    let inc = m.rng.1;
    let r1 = draw_at(m.rng.0, inc, 0);
    let s1 = state_after(m.rng.0, inc, 1);
    let r2 = draw_at(s1, inc, 0);
    let m1 = MissionView { rng: (state_after(s1, inc, 1), inc), ..m };
    match debris_staged(
        m1,
        (x * 0x20 + (r1 & 0xF) + 8) as i32,
        (y * 0x20 + (r2 & 0xF) + 8) as i32,
        (z * 0x20) as i32,
        7,
        (2 * k) as i32,
        -1i32,
    ) {
        Some(m2) => m2,
        None => m1,
    }
}

/// One platform debris step is the two draws, then the staging.
proof fn lemma_platform_debris_step(
    before: MissionView,
    m1: MissionView,
    x: i32,
    y: i32,
    z: int,
    k: int,
    px: i32,
    py: i32,
    pz: i32,
    delay: i32,
)
    requires
        m1 == (MissionView {
            rng: (state_after(state_after(before.rng.0, before.rng.1, 1), before.rng.1, 1), before.rng.1),
            ..before
        }),
        px == (x * 0x20 + (draw_at(before.rng.0, before.rng.1, 0) & 0xF) + 8) as i32,
        py == (y * 0x20 + (draw_at(state_after(before.rng.0, before.rng.1, 1), before.rng.1, 0)
            & 0xF) + 8) as i32,
        pz == (z * 0x20) as i32,
        delay == (2 * k) as i32,
    ensures
        platform_debris_step(before, x, y, z, k) == match debris_staged(m1, px, py, pz, 7, delay, -1i32) {
            Some(m2) => m2,
            None => m1,
        },
{
    reveal(platform_debris_step);
}

/// The simulation after the first `k` kind-7 debris of a destroyed
/// platform.
pub open spec fn platform_debris(m: MissionView, x: i32, y: i32, z: int, k: nat) -> MissionView
    decreases k,
{
    if k == 0 {
        m
    } else {
        platform_debris_step(platform_debris(m, x, y, z, (k - 1) as nat), x, y, z, k - 1)
    }
}

/// The simulation after `damage` hits the platform at tile `(x, y)`:
/// off the map, outside the zone tables, without a water level in the
/// tile's mirror or without a staged strength word, nothing changes.
/// Otherwise the strength word (read signed) less `damage` is the new
/// strength: at 0 or below the platform is destroyed (its water
/// z-structure cleared, strength 0, a 0x7d4 grid word cleared, five
/// kind-7 debris); above 0 it weakens (the new strength, a +4 scorch, and
/// on crossing below 200 or below 100 the ring at the new strength with
/// the creep site moved to the tile).
pub open spec fn platform_damaged(m: MissionView, x: i32, y: i32, damage: i32) -> MissionView {
    let w = m.terrain.width;
    let h = m.terrain.height;
    let t = y * w + x;
    if x < 0 || y < 0 || x >= w || y >= h || m.zone >= 8 {
        m
    } else {
        match water_level_from(m, t, WATER_RANGE@[m.zone as int], 0) {
            None => m,
            Some(z) => if t >= m.platform_strength.len() {
                m
            } else {
                let old = (m.platform_strength[t] as i16) as int;
                let diff = old - damage;
                if diff <= 0 {
                    let m1 = z_written(m, x, y, z as i32, 0, 0);
                    let m2 = MissionView {
                        platform_strength: m1.platform_strength.update(t, 0),
                        object_grid: if t < m1.object_grid.len() && m1.object_grid[t] == 0x7d4 {
                            m1.object_grid.update(t, 0)
                        } else {
                            m1.object_grid
                        },
                        ..m1
                    };
                    platform_debris(m2, x, y, z, 5)
                } else {
                    let m2 = MissionView {
                        platform_strength: m.platform_strength.update(t, diff as u16),
                        armor_pads: scorch_add_pads(
                            m.armor_pads,
                            w,
                            h,
                            (x * 0x20) as i32,
                            (y * 0x20) as i32,
                            4,
                        ),
                        ..m
                    };
                    if (old >= 200 && diff < 200) || (old >= 100 && diff < 100) {
                        MissionView {
                            platform_site: (x, y),
                            ..ring_built(m2, x, y, z as i32, diff as u16, 8)
                        }
                    } else {
                        m2
                    }
                }
            },
        }
    }
}

/// Platform damage stays inside `i32`: the new strength, the debris
/// and scorch positions and the staging counter of a destroy, and the
/// scorch and ring of a weakening.
pub open spec fn platform_damage_fits(m: MissionView, x: i32, y: i32, damage: i32) -> bool {
    let w = m.terrain.width;
    let h = m.terrain.height;
    let t = y * w + x;
    (0 <= x < w && 0 <= y < h && m.zone < 8) ==> match water_level_from(
        m,
        t,
        WATER_RANGE@[m.zone as int],
        0,
    ) {
        None => true,
        Some(z) => t < m.platform_strength.len() ==> {
            let old = (m.platform_strength[t] as i16) as int;
            let diff = old - damage;
            &&& i32::MIN <= diff <= i32::MAX
            &&& x * 0x20 + 0x17 <= i32::MAX
            &&& y * 0x20 + 0x17 <= i32::MAX
            &&& diff <= 0 ==> m.debris_seq + 5 <= i32::MAX
            &&& (diff > 0 && ((old >= 200 && diff < 200) || (old >= 100 && diff < 100)))
                ==> ring_build_fits(
                MissionView {
                    platform_strength: m.platform_strength.update(t, diff as u16),
                    armor_pads: scorch_add_pads(
                        m.armor_pads,
                        w,
                        h,
                        (x * 0x20) as i32,
                        (y * 0x20) as i32,
                        4,
                    ),
                    ..m
                },
                x,
                y,
                z as i32,
                diff as u16,
            )
        },
    }
}


/// The water test of the creep walk: the mirror word of tile `t` at
/// level `z` lies in `[base, base + 0xE)`.
pub open spec fn is_water(m: MissionView, t: int, z: int, base: i32) -> bool {
    base <= gate_word(m, t, z) < base + 0xE
}

/// The creep walk from on-map tile `(cx, cy)` in direction `(dx, dy)`
/// at level `z`: it steps while the next tile is water and returns the
/// last water tile (the start when the first step is dry); `None` when
/// a step leaves the map. `fuel` bounds the steps.
pub open spec fn creep_walk(
    m: MissionView,
    cx: int,
    cy: int,
    dx: int,
    dy: int,
    z: int,
    base: i32,
    fuel: nat,
) -> Option<(int, int)>
    decreases fuel,
{
    let nx = cx + dx;
    let ny = cy + dy;
    if nx < 0 || ny < 0 || nx >= m.terrain.width || ny >= m.terrain.height {
        None
    } else if !is_water(m, ny * m.terrain.width + nx, z, base) {
        Some((cx, cy))
    } else if fuel == 0 {
        None
    } else {
        creep_walk(m, nx, ny, dx, dy, z, base, (fuel - 1) as nat)
    }
}

/// The step of a creep direction draw: up, right, down or left.
pub open spec fn creep_dir(d: u32) -> (int, int) {
    if d & 3 == 0 {
        (0, -1)
    } else if d & 3 == 1 {
        (1, 0)
    } else if d & 3 == 2 {
        (0, 1)
    } else {
        (-1, 0)
    }
}

/// Where a creep tick builds, and the simulation whose stream it builds
/// with: the 1-in-32 gate draw; on a lucky frame two jitter draws
/// (`& 7`, -3) around the creep site, which must be on the map under a
/// platform strength word, with a zone inside the tables and a water
/// level in the tile's mirror; then the direction draw and the walk.
/// `Err` holds the simulation after the draws of a tick that builds
/// nothing.
pub open spec fn creep_plan(m: MissionView) -> Result<(MissionView, int, int, int), MissionView> {
    let inc = m.rng.1;
    let s1 = state_after(m.rng.0, inc, 1);
    let m1 = MissionView { rng: (s1, inc), ..m };
    if draw_at(m.rng.0, inc, 0) & 0x1F != 0 {
        Err(m1)
    } else {
        let s2 = state_after(s1, inc, 1);
        let s3 = state_after(s2, inc, 1);
        let m2 = MissionView { rng: (s3, inc), ..m };
        let w = m.terrain.width;
        let h = m.terrain.height;
        let x = m.platform_site.0 + (draw_at(s1, inc, 0) & 7) - 3;
        let y = m.platform_site.1 + (draw_at(s2, inc, 0) & 7) - 3;
        let t = y * w + x;
        if x < 0 || y < 0 || x >= w || y >= h || word_or(m.platform_strength, t, 0) == 0
            || m.zone >= 8 {
            Err(m2)
        } else {
            let base = WATER_RANGE@[m.zone as int];
            match water_level_from(m2, t, base, 0) {
                None => Err(m2),
                Some(z) => {
                    let m3 = MissionView { rng: (state_after(s3, inc, 1), inc), ..m };
                    let d = creep_dir(draw_at(s3, inc, 0));
                    match creep_walk(m3, x, y, d.0, d.1, z, base, (w + h) as nat) {
                        None => Err(m3),
                        Some((wx, wy)) => Ok((m3, wx, wy, z)),
                    }
                },
            }
        }
    }
}

/// The simulation after one platform creep tick (see [`creep_plan`]): a
/// planned build raises the ring at strength 199 around the walk's end
/// and moves the creep site there.
pub open spec fn creep_ticked(m: MissionView) -> MissionView {
    match creep_plan(m) {
        Err(m1) => m1,
        Ok((m3, wx, wy, z)) => MissionView {
            platform_site: (wx as i32, wy as i32),
            ..ring_built(m3, wx as i32, wy as i32, z as i32, 199, 8)
        },
    }
}

/// A creep tick stays inside `i32`: a planned ring fits.
pub open spec fn creep_fits(m: MissionView) -> bool {
    match creep_plan(m) {
        Err(_) => true,
        Ok((m3, wx, wy, z)) => ring_build_fits(m3, wx as i32, wy as i32, z as i32, 199),
    }
}

impl MissionSim {
    /// The placed object instances, in POS slot order.
    pub fn objects(&self) -> (r: &[ObjectInstance])
        ensures
            r@ == self@.objects,
    {
        proof {
            lemma_sim_view(self);
        }
        self.objects.as_slice()
    }

    /// The object-presence words, tile-major.
    pub fn object_grid(&self) -> (r: &[u16])
        ensures
            r@ == self@.object_grid,
    {
        proof {
            lemma_sim_view(self);
        }
        self.object_grid.as_slice()
    }

    /// The platform strength words, tile-major.
    pub fn platform_bank(&self) -> (r: &[u16])
        ensures
            r@ == self@.platform_strength,
    {
        proof {
            lemma_sim_view(self);
        }
        self.platform_strength.as_slice()
    }

    /// The terrain-structure (turret) bank.
    pub fn structures(&self) -> (r: &[TerrainStructure])
        ensures
            r@ == self@.structures,
    {
        proof {
            lemma_sim_view(self);
        }
        self.structures.as_slice()
    }

    /// The debris ring.
    pub fn debris_bank(&self) -> (r: &[DebrisRecord])
        ensures
            r@ == self@.debris,
    {
        proof {
            lemma_sim_view(self);
        }
        self.debris.as_slice()
    }

    /// The splash bank.
    pub fn splash_bank(&self) -> (r: &[SplashRecord])
        ensures
            r@ == self@.splashes,
    {
        proof {
            lemma_sim_view(self);
        }
        self.splashes.as_slice()
    }

    /// The object-grid word at a tile (see [`grid_word_at`]).
    pub fn object_grid_word(&self, x: i32, y: i32) -> (r: u16)
        requires
            self.wf(),
        ensures
            r == grid_word_at(self@, x, y),
    {
        proof {
            lemma_sim_view(self);
            lemma_sim_wf(self);
        }
        let (w, h) = self.terrain.size();
        if x < 0 || y < 0 || x >= w || y >= h {
            return 0;
        }
        proof {
            lemma_tile_of(x as int, y as int, w as int, h as int);
            assert(w * h <= i32::MAX) by (nonlinear_arith)
                requires
                    8 * w * h <= i32::MAX,
                    w > 0,
                    h > 0,
            ;
        }
        let t = (y * w + x) as usize;
        if t < self.object_grid.len() {
            self.object_grid[t]
        } else {
            0
        }
    }

    /// The platform strength word at a tile (see [`strength_word_at`]).
    pub fn platform_strength_word(&self, x: i32, y: i32) -> (r: u16)
        requires
            self.wf(),
        ensures
            r == strength_word_at(self@, x, y),
    {
        proof {
            lemma_sim_view(self);
            lemma_sim_wf(self);
        }
        let (w, h) = self.terrain.size();
        if x < 0 || y < 0 || x >= w || y >= h {
            return 0;
        }
        proof {
            lemma_tile_of(x as int, y as int, w as int, h as int);
            assert(w * h <= i32::MAX) by (nonlinear_arith)
                requires
                    8 * w * h <= i32::MAX,
                    w > 0,
                    h > 0,
            ;
        }
        let t = (y * w + x) as usize;
        if t < self.platform_strength.len() {
            self.platform_strength[t]
        } else {
            0
        }
    }

    /// The creep site: the tile the last ring was raised around.
    pub fn platform_site(&self) -> (r: (i32, i32))
        ensures
            r == self@.platform_site,
    {
        proof {
            lemma_sim_view(self);
        }
        self.platform_site
    }

    /// Arm the platform family (its creep tick then runs every frame).
    pub fn arm_platform_family(&mut self)
        ensures
            final(self)@ == (MissionView { platform_family_armed: true, ..old(self)@ }),
    {
        proof {
            lemma_sim_view(self);
        }
        self.platform_family_armed = true;
        proof {
            lemma_sim_view(self);
        }
    }

    /// Whether the platform family is armed.
    pub fn platform_family_armed(&self) -> (r: bool)
        ensures
            r == self@.platform_family_armed,
    {
        proof {
            lemma_sim_view(self);
        }
        self.platform_family_armed
    }

    /// Stage the mirror words, 8 per tile, tile-major (see
    /// [`mirror_staged`]); false, changing nothing, when there are not
    /// exactly 8 per tile.
    pub fn stage_terrain_mirror(&mut self, words: &[u16]) -> (ok: bool)
        requires
            old(self).wf(),
        ensures
            final(self).wf(),
            ok == (words@.len() == 8 * old(self)@.terrain.width * old(self)@.terrain.height),
            final(self)@ == (if ok {
                mirror_staged(old(self)@, words@)
            } else {
                old(self)@
            }),
    {
        let ghost m0 = self@;
        proof {
            lemma_sim_view(self);
            lemma_sim_wf(self);
        }
        let (w, h) = self.terrain.size();
        proof {
            assert(8 * (w * h) == 8 * w * h && 8 * (w * h) <= i32::MAX) by (nonlinear_arith)
                requires
                    8 * w * h <= i32::MAX,
                    w > 0,
                    h > 0,
            ;
        }
        let n = (w * h) as usize;
        if words.len() != 8 * n {
            return false;
        }
        if self.mirror_words.len() != 8 * n {
            self.mirror_seen = zero_bytes(8 * n);
            self.mirror_heights = zero_pairs(n);
        }
        self.mirror_words = copy_slice_words(words);
        proof {
            lemma_sim_view(self);
            lemma_sim_wf(self);
            assert(self@ =~= mirror_staged(m0, words@));
        }
        true
    }

    /// Start journaling the mirror-cell writes for a renderer.
    pub fn observe_terrain_writes(&mut self)
        ensures
            final(self)@ == (MissionView { terrain_writes: Some(Seq::empty()), ..old(self)@ }),
    {
        proof {
            lemma_sim_view(self);
        }
        self.terrain_writes = Some(Vec::new());
        proof {
            lemma_sim_view(self);
        }
    }

    /// Drain the journaled mirror-cell writes `(cell, word, seen)` in
    /// write order; empty when nothing is journaled, and journaling
    /// stays on exactly when it was on.
    pub fn take_terrain_writes(&mut self) -> (r: Vec<(usize, u16, u8)>)
        ensures
            r@ == match old(self)@.terrain_writes {
                Some(j) => j,
                None => Seq::empty(),
            },
            final(self)@ == (MissionView {
                terrain_writes: match old(self)@.terrain_writes {
                    Some(j) => Some(Seq::empty()),
                    None => None,
                },
                ..old(self)@
            }),
    {
        proof {
            lemma_sim_view(self);
        }
        let r = match self.terrain_writes.take() {
            Some(j) => {
                self.terrain_writes = Some(Vec::new());
                j
            },
            None => Vec::new(),
        };
        proof {
            lemma_sim_view(self);
        }
        r
    }

    /// Take the mirror words a renderer advanced: accepted (true) only
    /// while journaling, with the journal drained and the word count
    /// unchanged; otherwise nothing changes.
    pub fn accept_rendered_words(&mut self, words: &[u16]) -> (ok: bool)
        requires
            old(self).wf(),
        ensures
            final(self).wf(),
            ok == (old(self)@.terrain_writes == Some(Seq::<(usize, u16, u8)>::empty())
                && old(self)@.mirror_words.len() == words@.len()),
            final(self)@ == (if ok {
                MissionView { mirror_words: words@, ..old(self)@ }
            } else {
                old(self)@
            }),
    {
        let ghost m0 = self@;
        proof {
            lemma_sim_view(self);
            lemma_sim_wf(self);
        }
        let pending = match &self.terrain_writes {
            None => true,
            Some(j) => j.len() != 0,
        };
        if pending || self.mirror_words.len() != words.len() {
            proof {
                if m0.terrain_writes == Some(Seq::<(usize, u16, u8)>::empty()) {
                    assert(!pending);
                }
            }
            return false;
        }
        proof {
            assert(journal_len_zero(self.terrain_writes));
        }
        self.mirror_words = copy_slice_words(words);
        proof {
            lemma_sim_view(self);
            lemma_sim_wf(self);
            assert(self@ =~= (MissionView { mirror_words: words@, ..m0 }));
        }
        true
    }

    /// Stamp the hazard words into the object grid (see
    /// [`hazards_stamped`]); run after the destroy family and the mirror
    /// are staged.
    pub fn stamp_hazard_words(&mut self)
        requires
            old(self).wf(),
            hazard_grid_fits(old(self)@),
        ensures
            final(self).wf(),
            final(self)@ == hazards_stamped(old(self)@),
    {
        let ghost m0 = self@;
        proof {
            lemma_sim_view(self);
            lemma_sim_wf(self);
        }
        let (w, h) = self.terrain.size();
        proof {
            assert(8 * (w * h) == 8 * w * h && 8 * (w * h) <= i32::MAX) by (nonlinear_arith)
                requires
                    8 * w * h <= i32::MAX,
                    w > 0,
                    h > 0,
            ;
        }
        let n = (w * h) as usize;
        if self.mirror_words.len() != 8 * n {
            return;
        }
        if self.zone >= 8 {
            return;
        }
        let b72 = HAZARD_7D2[self.zone as usize];
        let b73 = HAZARD_7D3[self.zone as usize];
        let ghost words = m0.mirror_words;
        let mut grid: Vec<u16> = Vec::new();
        std::mem::swap(&mut grid, &mut self.object_grid);
        let ghost g0 = grid@;
        let mut tile: usize = 0;
        assert(grid@ =~= Seq::new(
            g0.len(),
            |t: int|
                if t < 0 && hazard_word(words, t, b72, b73, 8) != 0 {
                    hazard_word(words, t, b72, b73, 8)
                } else {
                    g0[t]
                },
        ));
        assert(hazard_bases(m0.zone) == Some((b72, b73)));
        while tile < n
            invariant
                tile <= n,
                n == w * h,
                8 * n <= i32::MAX,
                hazard_bases(m0.zone) == Some((b72, b73)),
                words == self.mirror_words@,
                words.len() == 8 * n,
                g0 == m0.object_grid,
                m0.zone < 8,
                b72 == HAZARD_7D2@[m0.zone as int],
                b73 == HAZARD_7D3@[m0.zone as int],
                hazard_grid_fits(m0),
                m0.mirror_words == words,
                m0.terrain.width == w,
                m0.terrain.height == h,
                grid@ == Seq::new(
                    g0.len(),
                    |t: int|
                        if t < tile && hazard_word(words, t, b72, b73, 8) != 0 {
                            hazard_word(words, t, b72, b73, 8)
                        } else {
                            g0[t]
                        },
                ),
            decreases n - tile,
        {
            let mut word: u16 = 0;
            let mut z: usize = 0;
            while z < 8
                invariant
                    z <= 8,
                    tile < n,
                    8 * n <= i32::MAX,
                    words == self.mirror_words@,
                    words.len() == 8 * n,
                    word == hazard_word(words, tile as int, b72, b73, z as nat),
                decreases 8 - z,
            {
                let zw = self.mirror_words[tile * 8 + z] as i32;
                if b73 <= zw && zw <= b73 + 4 {
                    word = 0x7d3;
                }
                if b72 <= zw && zw <= b72 + 4 {
                    word = 0x7d2;
                }
                z = z + 1;
            }
            if word != 0 {
                proof {
                    let nn = m0.terrain.width * m0.terrain.height;
                    assert(m0.mirror_words.len() == 8 * nn);
                    assert(0 <= tile < nn);
                    assert(hazard_word(m0.mirror_words, tile as int, b72, b73, 8) != 0);
                    assert(tile < m0.object_grid.len());
                    assert(grid@.len() == g0.len());
                }
                grid.set(tile, word);
            }
            tile = tile + 1;
            assert(grid@ =~= Seq::new(
                g0.len(),
                |t: int|
                    if t < tile && hazard_word(words, t, b72, b73, 8) != 0 {
                        hazard_word(words, t, b72, b73, 8)
                    } else {
                        g0[t]
                    },
            ));
        }
        self.object_grid = grid;
        proof {
            lemma_sim_view(self);
            lemma_sim_wf(self);
            assert(self@ =~= hazards_stamped(m0));
        }
    }

    /// The z-structure write at a tile and level (see [`z_written`]).
    pub fn z_structure_write(&mut self, x: i32, y: i32, z: i32, word: u16, volume: u8)
        requires
            old(self).wf(),
        ensures
            final(self).wf(),
            final(self)@ == z_written(old(self)@, x, y, z, word, volume),
    {
        let ghost m0 = self@;
        proof {
            lemma_sim_view(self);
            lemma_sim_wf(self);
        }
        let (w, h) = self.terrain.size();
        if x < 0 || y < 0 || x >= w || y >= h || z < 0 || z >= 8 {
            return;
        }
        proof {
            lemma_tile_of(x as int, y as int, w as int, h as int);
            assert(8 * (w * h) <= i32::MAX) by (nonlinear_arith)
                requires
                    8 * w * h <= i32::MAX,
                    w > 0,
                    h > 0,
            ;
        }
        let c = ((y * w + x) as usize) * 8 + z as usize;
        if self.mirror_words.len() <= c {
            return;
        }
        let seen: u8 = if word != 0 && volume == 0 {
            1
        } else {
            0
        };
        self.write_mirror_cell(c, word, seen);
        proof {
            lemma_sim_view(self);
        }
        self.terrain.dat_write(x, y, z, volume);
        proof {
            lemma_sim_view(self);
            lemma_sim_wf(self);
            assert(self@ =~= z_written(m0, x, y, z, word, volume));
        }
    }

    /// Stage one platform tile (see [`platform_staged`]); false, changing
    /// nothing, off the map, without a staged object grid or outside the
    /// zone tables.
    pub fn stage_platform(&mut self, x: i32, y: i32, z: i32, strength: u16) -> (ok: bool)
        requires
            old(self).wf(),
        ensures
            final(self).wf(),
            ok == platform_staged(old(self)@, x, y, z, strength) is Some,
            final(self)@ == match platform_staged(old(self)@, x, y, z, strength) {
                Some(m1) => m1,
                None => old(self)@,
            },
    {
        let ghost m0 = self@;
        proof {
            lemma_sim_view(self);
            lemma_sim_wf(self);
        }
        let (w, h) = self.terrain.size();
        if x < 0 || y < 0 || x >= w || y >= h {
            return false;
        }
        proof {
            lemma_tile_of(x as int, y as int, w as int, h as int);
            assert(w * h <= i32::MAX) by (nonlinear_arith)
                requires
                    8 * w * h <= i32::MAX,
                    w > 0,
                    h > 0,
            ;
        }
        if self.object_grid.len() != (w * h) as usize {
            return false;
        }
        if self.zone >= 8 {
            return false;
        }
        let base = WATER_RANGE[self.zone as usize];
        let t = (y * w + x) as usize;
        self.z_structure_write(x, y, z, base as u16, 2);
        proof {
            lemma_sim_view(self);
            lemma_sim_wf(self);
        }
        self.object_grid.set(t, 0x7d4);
        self.platform_strength.set(t, strength);
        proof {
            lemma_sim_view(self);
            lemma_sim_wf(self);
            assert(self@ =~= platform_staged(m0, x, y, z, strength).unwrap());
        }
        true
    }

    /// Whether level `z` of an on-map tile has neither a DAT volume nor a
    /// seen byte.
    fn level_free(&self, x: i32, y: i32, z: i32) -> (r: bool)
        requires
            self.wf(),
            0 <= x < self@.terrain.width,
            0 <= y < self@.terrain.height,
            0 <= z < 8,
        ensures
            r == (dat_type_of(self@.terrain, x, y, z) == 0 && seen_at(
                self@,
                (y * self@.terrain.width + x) * 8 + z,
            ) == 0),
    {
        proof {
            lemma_sim_view(self);
            lemma_sim_wf(self);
        }
        let (w, h) = self.terrain.size();
        proof {
            lemma_tile_of(x as int, y as int, w as int, h as int);
            assert(8 * (w * h) <= i32::MAX) by (nonlinear_arith)
                requires
                    8 * w * h <= i32::MAX,
                    w > 0,
                    h > 0,
            ;
        }
        let c = ((y * w + x) as usize) * 8 + z as usize;
        let seen = if c < self.mirror_seen.len() {
            self.mirror_seen[c]
        } else {
            0
        };
        self.terrain.dat_type(x, y, z) == 0 && seen == 0
    }

    /// The water-level probe (see [`splash_z`]).
    pub fn splash_probe_z(&self, x: i32, y: i32, z: i32) -> (r: i32)
        requires
            self.wf(),
        ensures
            r == splash_z(self@, x, y, z),
    {
        proof {
            lemma_sim_view(self);
            lemma_sim_wf(self);
        }
        let (w, h) = self.terrain.size();
        if x < 0 || y < 0 || x >= w || y >= h {
            return 7;
        }
        let mut lz: i32 = if z < 0 {
            0
        } else if z > 7 {
            7
        } else {
            z
        };
        let ghost target = splash_z(self@, x, y, z);
        while lz < 7 && !self.level_free(x, y, lz)
            invariant
                0 <= lz <= 7,
                self.wf(),
                0 <= x < self@.terrain.width,
                0 <= y < self@.terrain.height,
                probe_up(self@, x, y, lz as int) == target,
            decreases 7 - lz,
        {
            lz = lz + 1;
        }
        lz
    }

    /// Stage a splash (see [`splash_staged`]); false, changing nothing,
    /// when a gate refuses it. No door-claim bank is staged, so the claim
    /// test lets every splash through.
    pub fn stage_splash(&mut self, x: i32, y: i32, z: i32, delay: u16) -> (ok: bool)
        requires
            old(self).wf(),
            splash_index_fits(old(self)@, x, y, z),
        ensures
            final(self).wf(),
            ok == splash_staged(old(self)@, x, y, z, delay) is Some,
            final(self)@ == match splash_staged(old(self)@, x, y, z, delay) {
                Some(m1) => m1,
                None => old(self)@,
            },
    {
        let ghost m0 = self@;
        proof {
            lemma_sim_view(self);
            lemma_sim_wf(self);
        }
        let (w, h) = self.terrain.size();
        if x < 0 || y < 0 || x >= w || y >= h {
            return false;
        }
        proof {
            lemma_tile_of(x as int, y as int, w as int, h as int);
            assert(8 * (w * h) <= i32::MAX) by (nonlinear_arith)
                requires
                    8 * w * h <= i32::MAX,
                    w > 0,
                    h > 0,
            ;
        }
        let zz = if z > 7 {
            7
        } else {
            z
        };
        let tile = (y * w + x) as usize;
        if self.terrain.dat_type(x, y, zz) != 0 {
            return false;
        }
        let word = if zz < 0 {
            0
        } else {
            self.mirror_word(tile, zz as usize)
        };
        if word != 0 {
            return false;
        }
        let ghost b = self.splashes@;
        let mut slot: usize = 0;
        let mut found = false;
        let mut max_age: i32 = -1;
        let mut max_slot: usize = 0;
        let mut i: usize = 0;
        while i < self.splashes.len() && !found
            invariant
                b == self.splashes@,
                i <= b.len(),
                found ==> free_splash_from(b, 0) == Some(slot as int) && slot < b.len(),
                !found ==> free_splash_from(b, 0) == free_splash_from(b, i as int),
                !found ==> (max_age as int, max_slot as int) == oldest_splash(b, i as nat),
                !found ==> max_slot < b.len() || (i == 0 && max_slot == 0),
            decreases b.len() - i + (if found {
                0int
            } else {
                1int
            }),
        {
            let r = self.splashes[i];
            if r.age == 0 {
                slot = i;
                found = true;
            } else {
                if r.age as i32 > max_age {
                    max_age = r.age as i32;
                    max_slot = i;
                }
                i = i + 1;
            }
        }
        if !found {
            let old = self.splashes[max_slot];
            self.z_structure_write(old.x as i32, old.y as i32, old.z as i32, 0, 0);
            slot = max_slot;
            proof {
                lemma_sim_view(self);
                lemma_sim_wf(self);
            }
        }
        self.splashes.set(
            slot,
            SplashRecord { x: x as i16, y: y as i16, z: zz as i16, delay, age: 1 },
        );
        proof {
            lemma_sim_view(self);
            lemma_sim_wf(self);
            assert(self@ =~= splash_staged(m0, x, y, z, delay).unwrap());
        }
        true
    }

    /// Stage debris (see [`debris_staged`]); false, changing nothing,
    /// when a gate refuses it.
    pub fn stage_debris(
        &mut self,
        x_q5: i32,
        y_q5: i32,
        z: i32,
        kind: i32,
        delay: i32,
        param: i32,
    ) -> (ok: bool)
        requires
            old(self).wf(),
            debris_fits(old(self)@, x_q5, y_q5, kind),
        ensures
            final(self).wf(),
            ok == debris_staged(old(self)@, x_q5, y_q5, z, kind, delay, param) is Some,
            final(self)@ == match debris_staged(old(self)@, x_q5, y_q5, z, kind, delay, param) {
                Some(m1) => m1,
                None => old(self)@,
            },
    {
        let ghost m0 = self@;
        proof {
            lemma_sim_view(self);
            lemma_sim_wf(self);
            reveal(debris_staged);
        }
        let (w, h) = self.terrain.size();
        if x_q5 < 0 || y_q5 < 0 || x_q5 >> 5 >= w || y_q5 >> 5 >= h {
            return false;
        }
        let zc = if z < 0x20 {
            0x20
        } else if z > 0xFF {
            0xFF
        } else {
            z
        };
        if kind < 1 || kind > 20 {
            return false;
        }
        let ghost b = self.debris@;
        let mut slot: usize = 0;
        let mut found = false;
        let mut min_seq: i32 = i32::MAX;
        let mut min_slot: usize = 0;
        let mut i: usize = 0;
        while i < self.debris.len() && !found
            invariant
                b == self.debris@,
                i <= b.len(),
                found ==> free_debris_from(b, 0) == Some(slot as int) && slot < b.len(),
                !found ==> free_debris_from(b, 0) == free_debris_from(b, i as int),
                !found ==> (min_seq as int, min_slot as int) == stalest_debris(b, i as nat),
                !found ==> min_slot < b.len() || (i == 0 && min_slot == 0),
            decreases b.len() - i + (if found {
                0int
            } else {
                1int
            }),
        {
            let r = self.debris[i];
            if !r.active {
                slot = i;
                found = true;
            } else {
                if r.seq < min_seq {
                    min_seq = r.seq;
                    min_slot = i;
                }
                i = i + 1;
            }
        }
        if !found {
            slot = min_slot;
        }
        self.debris_seq = self.debris_seq + 1;
        let (_walk, phys, init, scorch) = debris_kind_config(kind);
        let table = debris_table_index(kind);
        self.debris.set(
            slot,
            DebrisRecord {
                active: true,
                x: x_q5,
                y: y_q5,
                z: zc,
                init_a: init,
                init_b: 0,
                seq: self.debris_seq,
                anim: 0,
                kind,
                phys,
                delay,
                param,
                table,
            },
        );
        let ghost m1 = self@;
        proof {
            lemma_sim_view(self);
            lemma_sim_wf(self);
        }
        match scorch {
            DebrisScorch::Ring => {
                self.scorch_ring((x_q5, y_q5, 0, 0));
            },
            DebrisScorch::Center(v) => {
                self.scorch_write(x_q5, y_q5, v);
            },
            DebrisScorch::Nothing => {},
        }
        proof {
            lemma_sim_view(self);
            lemma_sim_wf(self);
        }
        if kind == 11 {
            let _gate = self.rand_a() & 1;
        }
        proof {
            lemma_sim_view(self);
            lemma_sim_wf(self);
            assert(self@ =~= debris_staged(m0, x_q5, y_q5, z, kind, delay, param).unwrap());
        }
        true
    }

    /// A weapon impact against the terrain structures (see
    /// [`structure_impacted`]).
    #[verifier::rlimit(80)]
    #[verifier::spinoff_prover]
    pub fn resolve_structure_impact(&mut self, x_q13: i32, y_q13: i32, damage: i32)
        requires
            old(self).wf(),
            structure_impact_fits(old(self)@, x_q13, y_q13, damage),
        ensures
            final(self).wf(),
            final(self)@ == structure_impacted(old(self)@, x_q13, y_q13, damage),
    {
        let ghost m0 = self@;
        proof {
            lemma_sim_view(self);
            lemma_sim_wf(self);
        }
        let (w, h) = self.terrain.size();
        if x_q13 < 0 || y_q13 < 0 || x_q13 >> 13 >= w || y_q13 >> 13 >= h {
            return;
        }
        let tx = x_q13 >> 13;
        let ty = y_q13 >> 13;
        assert(0 <= tx && 0 <= ty) by (bit_vector)
            requires
                x_q13 >= 0,
                y_q13 >= 0,
                tx == x_q13 >> 13,
                ty == y_q13 >> 13,
        ;
        let ghost b = self.structures@;
        let mut i: usize = 0;
        let mut found = false;
        while i < self.structures.len() && !found
            invariant
                b == self.structures@,
                i <= b.len(),
                found ==> i < b.len() && structure_at(b, tx as int, ty as int, 0) == Some(i as int),
                !found ==> structure_at(b, tx as int, ty as int, 0) == structure_at(
                    b,
                    tx as int,
                    ty as int,
                    i as int,
                ),
            decreases b.len() - i + (if found {
                0int
            } else {
                1int
            }),
        {
            let s = self.structures[i];
            if s.active && s.x == tx && s.y == ty {
                found = true;
            } else {
                i = i + 1;
            }
        }
        if !found {
            return;
        }
        let mut s = self.structures[i];
        s.hp = s.hp - damage;
        if s.hp > 0 {
            self.structures.set(i, s);
            proof {
                lemma_sim_view(self);
                lemma_sim_wf(self);
                assert(self@ =~= structure_impacted(m0, x_q13, y_q13, damage));
            }
            return;
        }
        s.active = false;
        self.structures.set(i, s);
        proof {
            lemma_sim_view(self);
            lemma_sim_wf(self);
            lemma_tile_of(tx as int, ty as int, w as int, h as int);
            assert(8 * (w * h) <= i32::MAX) by (nonlinear_arith)
                requires
                    8 * w * h <= i32::MAX,
                    w > 0,
                    h > 0,
            ;
        }
        let ghost m1 = self@;
        let z = s.z;
        let rubble: i32 = if self.zone < 8 {
            RUBBLE_WORD[self.zone as usize]
        } else {
            0x20
        };
        assert(rubble == rubble_of(m0.zone));
        let tile = (ty * w + tx) as usize;
        if 0 <= z && z < 8 && tile * 8 + (z as usize) < self.mirror_words.len() {
            self.write_mirror_cell(tile * 8 + (z as usize), rubble as u16, 1);
        }
        proof {
            lemma_sim_view(self);
            lemma_sim_wf(self);
        }
        let ghost m2 = self@;
        assert(m2 == (if 0 <= z < 8 && (ty * w + tx) * 8 + z < m1.mirror_words.len() {
            MissionView {
                mirror_words: m1.mirror_words.update((ty * w + tx) * 8 + z, rubble as u16),
                mirror_seen: m1.mirror_seen.update((ty * w + tx) * 8 + z, 1),
                terrain_writes: journaled(
                    m1.terrain_writes,
                    (((ty * w + tx) * 8 + z) as usize, rubble as u16, 1u8),
                ),
                ..m1
            }
        } else {
            m1
        }));
        self.terrain.dat_write(tx, ty, z, 0);
        proof {
            lemma_sim_view(self);
            lemma_sim_wf(self);
        }
        let ghost m3 = self@;
        assert(m3 =~= MissionView {
            terrain: dat_written(m2.terrain, tx as int, ty as int, z as int, 0),
            ..m2
        });
        let dx = tx * 0x20;
        let dy = ty * 0x20;
        assert(dx >> 5 == tx && dy >> 5 == ty) by (bit_vector)
            requires
                dx == tx * 0x20,
                dy == ty * 0x20,
                0 <= tx,
                0 <= ty,
                tx * 0x20 + 0x20 <= 0x7FFF_FFFF,
                ty * 0x20 + 0x20 <= 0x7FFF_FFFF,
        ;
        let dz = z * 0x20;
        proof {
            lemma_debris_gates_stage(self@, dx, dy, dz, 15, 0, -1i32);
        }
        let staged = self.stage_debris(dx, dy, dz, 15, 0, -1);
        assert(staged);
        let ghost m4 = self@;
        let pz = self.splash_probe_z(tx, ty, z);
        proof {
            let zc: int = if z < 0 { 0 } else if z > 7 { 7 } else { z as int };
            lemma_probe_up_range(self@, tx, ty, zc);
        }
        let _ = self.stage_splash(tx, ty, pz, 0);
        proof {
            assert(self@ =~= structure_impacted(m0, x_q13, y_q13, damage));
        }
    }

    /// Whether a live robot blocks a platform build at `(x, y)`.
    fn robot_blocks_build(&self, x: i32, y: i32) -> (r: bool)
        ensures
            r == robots_block(self@.robots, x, y),
    {
        proof {
            lemma_sim_view(self);
        }
        let mut k: usize = 0;
        while k < self.robots.len()
            invariant
                k <= self.robots@.len(),
                self.robots@ == self@.robots,
                forall|i: int| 0 <= i < k ==> !robot_on_block(#[trigger] self@.robots[i], x, y),
            decreases self.robots@.len() - k,
        {
            let r = self.robots[k];
            if r.alive {
                let (qx, qy) = r.q5();
                let px = r.pos_x;
                let py = r.pos_y;
                assert(-0x80_0000 <= qx < 0x80_0000 && -0x80_0000 <= qy < 0x80_0000) by (bit_vector)
                    requires
                        qx == px >> 8u32,
                        qy == py >> 8u32,
                ;
                let tx = (qx - 0xC) >> 5;
                let ty = (qy - 0xC) >> 5;
                assert(-0x80_0000 <= tx < 0x80_0000 && -0x80_0000 <= ty < 0x80_0000) by (bit_vector)
                    requires
                        -0x80_0000 <= qx < 0x80_0000,
                        -0x80_0000 <= qy < 0x80_0000,
                        tx == ((qx - 0xC) as i32) >> 5u32,
                        ty == ((qy - 0xC) as i32) >> 5u32,
                ;
                if (x == tx || x == tx + 1) && (y == ty || y == ty + 1) {
                    assert(robot_on_block(self@.robots[k as int], x, y));
                    return true;
                }
            }
            k = k + 1;
        }
        false
    }

    /// Build one platform tile (see [`tile_built`]); false when a gate
    /// refuses it.
    fn platform_tile_build(&mut self, x: i32, y: i32, z: i32, strength: u16) -> (ok: bool)
        requires
            old(self).wf(),
            tile_build_fits(old(self)@, x, y, z),
        ensures
            final(self).wf(),
            ok == tile_build_gates(old(self)@, x, y, z),
            final(self)@ == tile_built(old(self)@, x, y, z, strength),
    {
        let ghost m0 = self@;
        proof {
            lemma_sim_view(self);
            lemma_sim_wf(self);
        }
        let (w, h) = self.terrain.size();
        if x < 0 || y < 0 || x >= w || y >= h {
            return false;
        }
        proof {
            lemma_tile_of(x as int, y as int, w as int, h as int);
            assert(8 * (w * h) <= i32::MAX) by (nonlinear_arith)
                requires
                    8 * w * h <= i32::MAX,
                    w > 0,
                    h > 0,
            ;
        }
        let t = (y * w + x) as usize;
        if t >= self.platform_strength.len() || self.platform_strength[t] != 0 {
            return false;
        }
        if t >= self.object_grid.len() || self.object_grid[t] != 0 {
            return false;
        }
        if self.robot_blocks_build(x, y) {
            return false;
        }
        if z <= 0 || z > 7 {
            return false;
        }
        if self.mirror_word(t, z as usize) != 0 {
            return false;
        }
        if self.terrain.dat_type(x, y, z) != 0 {
            return false;
        }
        if self.terrain.dat_type(x, y, z - 1) != 1 {
            return false;
        }
        if self.zone >= 8 {
            return false;
        }
        let base = WATER_RANGE[self.zone as usize];
        self.z_structure_write(x, y, z, base as u16, 2);
        proof {
            lemma_sim_view(self);
            lemma_sim_wf(self);
        }
        self.object_grid.set(t, 0x7d4);
        self.platform_strength.set(t, strength);
        proof {
            lemma_sim_view(self);
            lemma_sim_wf(self);
        }
        self.scorch_increment(x * 0x20, y * 0x20, 4);
        proof {
            lemma_sim_view(self);
            lemma_sim_wf(self);
            assert(self@ =~= tile_built(m0, x, y, z, strength));
        }
        true
    }

    /// Build the platform ring around `(x, y)`: the eight neighbours in
    /// [`PLATFORM_RING`] order, each through the tile-build gates (the
    /// center is never built).
    pub fn platform_ring_build(&mut self, x: i32, y: i32, z: i32, strength: u16)
        requires
            old(self).wf(),
            ring_build_fits(old(self)@, x, y, z, strength),
        ensures
            final(self).wf(),
            final(self)@ == ring_built(old(self)@, x, y, z, strength, 8),
    {
        let ghost m0 = self@;
        let mut j: usize = 0;
        while j < 8
            invariant
                j <= 8,
                self.wf(),
                ring_build_fits(m0, x, y, z, strength),
                self@ == ring_built(m0, x, y, z, strength, j as nat),
            decreases 8 - j,
        {
            let (dx, dy) = PLATFORM_RING[j];
            assert(-1 <= dx <= 1 && -1 <= dy <= 1);
            assert(tile_build_fits(
                ring_built(m0, x, y, z, strength, j as nat),
                (x + PLATFORM_RING@[j as int].0) as i32,
                (y + PLATFORM_RING@[j as int].1) as i32,
                z,
            ));
            let _ = self.platform_tile_build(x + dx, y + dy, z, strength);
            j = j + 1;
        }
    }

    /// The first water level of a tile's mirror words, from level 0.
    fn water_level(&self, t: usize, base: i32) -> (r: Option<i32>)
        requires
            t * 8 + 8 <= usize::MAX,
        ensures
            match r {
                Some(z) => water_level_from(self@, t as int, base, 0) == Some(z as int),
                None => water_level_from(self@, t as int, base, 0) is None,
            },
    {
        let mut z: usize = 0;
        while z < 8
            invariant
                z <= 8,
                t * 8 + 8 <= usize::MAX,
                water_level_from(self@, t as int, base, 0) == water_level_from(
                    self@,
                    t as int,
                    base,
                    z as int,
                ),
            decreases 8 - z,
        {
            let word = self.mirror_word(t, z) as i32;
            if word >= base && word - 0xE < base {
                return Some(z as i32);
            }
            z = z + 1;
        }
        None
    }

    /// One kind-7 debris of a destroyed platform (see
    /// [`platform_debris_step`]).
    #[verifier::rlimit(100)]
    #[verifier::spinoff_prover]
    fn stage_platform_debris_one(&mut self, x: i32, y: i32, z: i32, k: i32)
        requires
            old(self).wf(),
            0 <= x < old(self)@.terrain.width,
            0 <= y < old(self)@.terrain.height,
            0 <= z < 8,
            0 <= k < 5,
            x * 0x20 + 0x17 <= i32::MAX,
            y * 0x20 + 0x17 <= i32::MAX,
            old(self)@.debris_seq < i32::MAX,
        ensures
            final(self).wf(),
            final(self)@ == platform_debris_step(old(self)@, x, y, z as int, k as int),
            final(self)@.debris_seq == old(self)@.debris_seq + 1,
            final(self)@.terrain == old(self)@.terrain,
    {
        proof {
            lemma_sim_wf(self);
        }
        let ghost before = self@;
        let ghost inc = before.rng.1;
        let ghost s1 = state_after(before.rng.0, inc, 1);
        let r1 = self.rand_a();
        let r2 = self.rand_a();
        let ghost m1 = self@;
        proof {
            lemma_sim_wf(self);
            assert(m1 == MissionView { rng: (state_after(s1, inc, 1), inc), ..before });
            assert(sim_wf(m1));
        }
        let a = r1 & 0xF;
        let b = r2 & 0xF;
        assert(a <= 0xF && b <= 0xF) by (bit_vector)
            requires
                a == r1 & 0xF,
                b == r2 & 0xF,
        ;
        let dx = a as i32 + 8;
        let dy = b as i32 + 8;
        let px = x * 0x20 + dx;
        let py = y * 0x20 + dy;
        assert(px >> 5 == x && py >> 5 == y) by (bit_vector)
            requires
                px == x * 0x20 + dx,
                py == y * 0x20 + dy,
                8 <= dx <= 0x17,
                8 <= dy <= 0x17,
                0 <= x,
                0 <= y,
                x * 0x20 + 0x17 <= 0x7FFF_FFFF,
                y * 0x20 + 0x17 <= 0x7FFF_FFFF,
        ;
        let pz = z * 0x20;
        let delay = k * 2;
        proof {
            lemma_debris_gates_stage(m1, px, py, pz, 7, delay, -1i32);
            lemma_debris_staged_keeps(m1, px, py, pz, 7, delay, -1i32);
            assert(px == (x * 0x20 + (draw_at(before.rng.0, inc, 0) & 0xF) + 8) as i32);
            assert(py == (y * 0x20 + (draw_at(s1, inc, 0) & 0xF) + 8) as i32);
            lemma_platform_debris_step(before, m1, x, y, z as int, k as int, px, py, pz, delay);
        }
        let _ = self.stage_debris(px, py, pz, 7, delay, -1);
    }

    /// The five kind-7 debris of a destroyed platform (see
    /// [`platform_debris`]).
    fn stage_platform_debris(&mut self, x: i32, y: i32, z: i32)
        requires
            old(self).wf(),
            0 <= x < old(self)@.terrain.width,
            0 <= y < old(self)@.terrain.height,
            0 <= z < 8,
            x * 0x20 + 0x17 <= i32::MAX,
            y * 0x20 + 0x17 <= i32::MAX,
            old(self)@.debris_seq + 5 <= i32::MAX,
        ensures
            final(self).wf(),
            final(self)@ == platform_debris(old(self)@, x, y, z as int, 5),
    {
        let ghost m2 = self@;
        let mut k: i32 = 0;
        while k < 5
            invariant
                0 <= k <= 5,
                self.wf(),
                0 <= x < m2.terrain.width,
                0 <= y < m2.terrain.height,
                0 <= z < 8,
                x * 0x20 + 0x17 <= i32::MAX,
                y * 0x20 + 0x17 <= i32::MAX,
                m2.debris_seq + 5 <= i32::MAX,
                self@ == platform_debris(m2, x, y, z as int, k as nat),
                self@.terrain == m2.terrain,
                self@.debris_seq == m2.debris_seq + k,
            decreases 5 - k,
        {
            self.stage_platform_debris_one(x, y, z, k);
            k = k + 1;
        }
    }

    /// `damage` against the platform at tile `(x, y)` (see
    /// [`platform_damaged`]).
    #[verifier::rlimit(100)]
    #[verifier::spinoff_prover]
    pub fn platform_damage(&mut self, x: i32, y: i32, damage: i32)
        requires
            old(self).wf(),
            platform_damage_fits(old(self)@, x, y, damage),
        ensures
            final(self).wf(),
            final(self)@ == platform_damaged(old(self)@, x, y, damage),
    {
        let ghost m0 = self@;
        proof {
            lemma_sim_view(self);
            lemma_sim_wf(self);
        }
        let (w, h) = self.terrain.size();
        if x < 0 || y < 0 || x >= w || y >= h {
            return;
        }
        if self.zone >= 8 {
            return;
        }
        proof {
            lemma_tile_of(x as int, y as int, w as int, h as int);
            assert(8 * (w * h) <= i32::MAX) by (nonlinear_arith)
                requires
                    8 * w * h <= i32::MAX,
                    w > 0,
                    h > 0,
            ;
        }
        let base = WATER_RANGE[self.zone as usize];
        let t = (y * w + x) as usize;
        let z = match self.water_level(t, base) {
            Some(z) => z,
            None => {
                return;
            },
        };
        proof {
            lemma_water_level_range(self@, t as int, base, 0);
        }
        if t >= self.platform_strength.len() {
            return;
        }
        let old = self.platform_strength[t] as i16 as i32;
        let diff = old - damage;
        if diff <= 0 {
            self.z_structure_write(x, y, z, 0, 0);
            proof {
                lemma_sim_view(self);
                lemma_sim_wf(self);
            }
            self.platform_strength.set(t, 0);
            if t < self.object_grid.len() && self.object_grid[t] == 0x7d4 {
                self.object_grid.set(t, 0);
            }
            proof {
                lemma_sim_view(self);
                lemma_sim_wf(self);
            }
            self.stage_platform_debris(x, y, z);
            proof {
                lemma_sim_view(self);
                lemma_sim_wf(self);
                assert(self@ =~= platform_damaged(m0, x, y, damage));
                assert(sim_wf(self@));
            }
        } else {
            self.platform_strength.set(t, diff as u16);
            proof {
                lemma_sim_view(self);
                lemma_sim_wf(self);
            }
            self.scorch_increment(x * 0x20, y * 0x20, 4);
            proof {
                lemma_sim_view(self);
                lemma_sim_wf(self);
            }
            if (old >= 200 && diff < 200) || (old >= 100 && diff < 100) {
                self.platform_ring_build(x, y, z, diff as u16);
                proof {
                    lemma_sim_view(self);
                    lemma_sim_wf(self);
                }
                self.platform_site = (x, y);
                proof {
                    lemma_sim_view(self);
                    lemma_sim_wf(self);
                }
            }
            proof {
                lemma_sim_view(self);
                lemma_sim_wf(self);
                assert(self@ =~= platform_damaged(m0, x, y, damage));
                assert(sim_wf(self@));
            }
        }
    }

    /// The creep walk from `(cx, cy)` with `fuel` steps left (see
    /// [`creep_walk`]).
    fn creep_walk_from(
        &self,
        cx: i32,
        cy: i32,
        dx: i32,
        dy: i32,
        z: i32,
        base: i32,
        Ghost(fuel): Ghost<nat>,
    ) -> (r: Option<(i32, i32)>)
        requires
            self.wf(),
            0 <= cx < self@.terrain.width,
            0 <= cy < self@.terrain.height,
            -1 <= dx <= 1,
            -1 <= dy <= 1,
            dx == 0 || dy == 0,
            dx != 0 || dy != 0,
            0 <= z < 8,
            fuel + (if dx == 1 {
                cx as int
            } else if dx == -1 {
                self@.terrain.width - 1 - cx
            } else if dy == 1 {
                cy as int
            } else {
                self@.terrain.height - 1 - cy
            }) >= self@.terrain.width + self@.terrain.height - 1,
        ensures
            match r {
                Some(p) => creep_walk(self@, cx as int, cy as int, dx as int, dy as int, z as int, base, fuel)
                    == Some((p.0 as int, p.1 as int)),
                None => creep_walk(self@, cx as int, cy as int, dx as int, dy as int, z as int, base, fuel)
                    is None,
            },
        decreases (if dx == 1 {
            self@.terrain.width - cx
        } else if dx == -1 {
            cx + 1
        } else if dy == 1 {
            self@.terrain.height - cy
        } else {
            cy + 1
        }),
    {
        proof {
            lemma_sim_view(self);
            lemma_sim_wf(self);
        }
        let (w, h) = self.terrain.size();
        let nx = cx + dx;
        let ny = cy + dy;
        if nx < 0 || ny < 0 || nx >= w || ny >= h {
            return None;
        }
        proof {
            lemma_tile_of(nx as int, ny as int, w as int, h as int);
            assert(8 * (w * h) <= i32::MAX) by (nonlinear_arith)
                requires
                    8 * w * h <= i32::MAX,
                    w > 0,
                    h > 0,
            ;
        }
        let t = (ny * w + nx) as usize;
        let word = self.mirror_word(t, z as usize) as i32;
        if !(word >= base && word - 0xE < base) {
            return Some((cx, cy));
        }
        assert(fuel > 0);
        self.creep_walk_from(nx, ny, dx, dy, z, base, Ghost((fuel - 1) as nat))
    }

    /// The draws and the walk of a creep tick (see [`creep_plan`]): the
    /// planned ring center and level, the stream advanced by the draws.
    #[verifier::rlimit(60)]
    fn creep_plan_exec(&mut self) -> (r: Option<(i32, i32, i32)>)
        requires
            old(self).wf(),
        ensures
            final(self).wf(),
            match creep_plan(old(self)@) {
                Err(m1) => r is None && final(self)@ == m1,
                Ok((m3, wx, wy, z)) => r == Some((wx as i32, wy as i32, z as i32))
                    && final(self)@ == m3 && 0 <= z < 8,
            },
    {
        let ghost m0 = self@;
        proof {
            lemma_sim_view(self);
            lemma_sim_wf(self);
        }
        let g = self.rand_a();
        proof {
            lemma_sim_view(self);
            lemma_sim_wf(self);
        }
        if g & 0x1F != 0 {
            return None;
        }
        let (sx, sy) = self.platform_site;
        let j1 = self.rand_a();
        let j2 = self.rand_a();
        proof {
            lemma_sim_view(self);
            lemma_sim_wf(self);
        }
        let a = j1 & 7;
        let b = j2 & 7;
        assert(a <= 7 && b <= 7) by (bit_vector)
            requires
                a == j1 & 7,
                b == j2 & 7,
        ;
        let x = sx as i64 + a as i64 - 3;
        let y = sy as i64 + b as i64 - 3;
        let (w, h) = self.terrain.size();
        if x < 0 || y < 0 || x >= w as i64 || y >= h as i64 {
            return None;
        }
        let x = x as i32;
        let y = y as i32;
        proof {
            lemma_tile_of(x as int, y as int, w as int, h as int);
            assert(8 * (w * h) <= i32::MAX) by (nonlinear_arith)
                requires
                    8 * w * h <= i32::MAX,
                    w > 0,
                    h > 0,
            ;
        }
        let t = (y * w + x) as usize;
        if t >= self.platform_strength.len() || self.platform_strength[t] == 0 {
            return None;
        }
        if self.zone >= 8 {
            return None;
        }
        let base = WATER_RANGE[self.zone as usize];
        let z = match self.water_level(t, base) {
            Some(z) => z,
            None => {
                return None;
            },
        };
        proof {
            lemma_water_level_range(self@, t as int, base, 0);
        }
        let d = self.rand_a();
        proof {
            lemma_sim_view(self);
            lemma_sim_wf(self);
        }
        let e = d & 3;
        assert(e <= 3) by (bit_vector)
            requires
                e == d & 3,
        ;
        let (dx, dy): (i32, i32) = if e == 0 {
            (0, -1)
        } else if e == 1 {
            (1, 0)
        } else if e == 2 {
            (0, 1)
        } else {
            (-1, 0)
        };
        let ghost fuel = (w + h) as nat;
        match self.creep_walk_from(x, y, dx, dy, z, base, Ghost(fuel)) {
            Some((wx, wy)) => Some((wx, wy, z)),
            None => None,
        }
    }

    /// One platform creep tick (see [`creep_ticked`]).
    pub fn platform_creep_tick(&mut self)
        requires
            old(self).wf(),
            creep_fits(old(self)@),
        ensures
            final(self).wf(),
            final(self)@ == creep_ticked(old(self)@),
    {
        let ghost m0 = self@;
        let (wx, wy, z) = match self.creep_plan_exec() {
            Some(p) => p,
            None => {
                return;
            },
        };
        self.platform_ring_build(wx, wy, z, 199);
        proof {
            lemma_sim_view(self);
            lemma_sim_wf(self);
        }
        self.platform_site = (wx, wy);
        proof {
            lemma_sim_view(self);
            lemma_sim_wf(self);
            assert(self@ =~= creep_ticked(m0));
        }
    }

    /// Stage the destroy family from the mission files: the BDG type
    /// table, the POS instance list (2000 records of `(x, y, z, id)`
    /// `i32` words; id -1 marks an empty record) and the TRT turret bank;
    /// `zone` is the terrain set and `linear` feeds the turret hit
    /// points. Each placed instance takes its type row's hit points and
    /// stamps its index + 1 over its footprint in a fresh object grid;
    /// the platform, mirror and height banks are reset empty. Returns
    /// false when the POS file is not exactly 2000 records long, after
    /// the zone, linear number, type rows and turret bank were taken and
    /// the instances cleared (see [`destroy_staged`]).
    pub fn stage_destroy_family(
        &mut self,
        bdg: &ObjectTypeTable,
        pos: &[u8],
        trt: &[u8],
        zone: u32,
        linear: u32,
    ) -> (ok: bool)
        requires
            old(self).wf(),
            i32::MIN <= 250 * (linear as i32) <= i32::MAX,
        ensures
            final(self).wf(),
            ok == (pos@.len() == 16 * OBJECT_INSTANCE_SLOTS),
            final(self)@ == destroy_staged(old(self)@, bdg@, pos@, trt@, zone, linear),
    {
        let ghost m0 = self@;
        proof {
            lemma_sim_view(self);
            lemma_sim_wf(self);
        }
        assert(Seq::new(32, |i: int| (0u32, 0u16)).len() == 32);
        let (w, h) = self.terrain.size();
        self.zone = zone;
        self.fence_timers = [(0, 0); 32];
        self.linear = linear;
        self.object_types = copy_rows(&bdg.rows);
        self.structures = match parse_trt(trt, linear) {
            Some(v) => v,
            None => Vec::new(),
        };
        self.objects = Vec::new();
        if pos.len() != 16 * OBJECT_INSTANCE_SLOTS {
            proof {
                lemma_sim_view(self);
                lemma_sim_wf(self);
                assert(self@.fence_timers =~= Seq::new(32, |i: int| (0u32, 0u16)));
                assert(self@ =~= destroy_staged(m0, bdg@, pos@, trt@, zone, linear));
            }
            return false;
        }
        proof {
            assert(w * h <= i32::MAX && 8 * (w * h) <= i32::MAX) by (nonlinear_arith)
                requires
                    8 * w * h <= i32::MAX,
                    w > 0,
                    h > 0,
            ;
        }
        let n = (w * h) as usize;
        let ghost types = rows_view(bdg.rows@);
        let objs = read_instances(pos, &bdg.rows);
        let mut grid = zero_words(n);
        let ghost g0 = grid@;
        let mut k: usize = 0;
        while k < objs.len()
            invariant
                k <= objs@.len(),
                objs@.len() <= OBJECT_INSTANCE_SLOTS,
                w > 0,
                h > 0,
                8 * w * h <= i32::MAX,
                n == w * h,
                types == rows_view(bdg.rows@),
                grid@ == stamp_grid(g0, objs@, types, w as int, k as nat),
                grid@.len() == n,
            decreases objs@.len() - k,
        {
            let o = objs[k];
            if 0 <= o.id && (o.id as usize) < bdg.rows.len() {
                stamp_footprint(&mut grid, o, &bdg.rows[o.id as usize], (k + 1) as u16, w, h);
                assert(grid@ =~= stamp_grid(g0, objs@, types, w as int, (k + 1) as nat));
            }
            k = k + 1;
        }
        self.objects = objs;
        self.object_grid = grid;
        self.platform_strength = zero_words(n);
        self.mirror_words = zero_words(8 * n);
        self.mirror_seen = zero_bytes(8 * n);
        self.mirror_heights = zero_pairs(n);
        self.platform_site = (0, 0);
        proof {
            lemma_sim_view(self);
            lemma_sim_wf(self);
            assert(self@.fence_timers =~= Seq::new(32, |i: int| (0u32, 0u16)));
            assert(self@ =~= destroy_staged(m0, bdg@, pos@, trt@, zone, linear));
        }
        true
    }
}

} // verus!
