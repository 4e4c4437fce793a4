//! Mission walkability data: the DAT type planes (eight plane-major `u8`
//! z-planes of `w*h` bytes), the per-type 32x32 sub-tile height maps, the
//! parsed pad records, and the type-3 trigger latch the floor probe sets.

use vstd::prelude::*;

use crate::le::{read_u16, read_u32, u16_at, u32_at};

verus! {

/// Everything a [`Terrain`] holds.
pub struct TerrainView {
    pub width: int,
    pub height: int,
    /// `8 * width * height` plane-major bytes: `dat[z*w*h + y*w + x]`.
    pub dat: Seq<u8>,
    /// Height map of tile type `t` at slot `t - 1` (`map[sy*32 + sx]`).
    pub heights: Seq<[u8; 1024]>,
    /// The pad records `(x, y, level)` in file order.
    pub pad_slots: Seq<(i32, i32, i32)>,
    /// `(level, tile_x, tile_y)` of the last type-3 cell the floor probe
    /// met.
    pub last_trigger: Option<(i32, i32, i32)>,
}

/// Dimensions positive, the volume's byte count representable in `i32`,
/// and the plane bytes exactly `8 * w * h`.
pub open spec fn terrain_wf(v: TerrainView) -> bool {
    &&& v.width > 0
    &&& v.height > 0
    &&& 8 * v.width * v.height <= i32::MAX
    &&& v.dat.len() == 8 * v.width * v.height
}

/// A tile coordinate with a level inside the volume.
pub open spec fn in_volume(v: TerrainView, x: int, y: int, z: int) -> bool {
    0 <= z < 8 && 0 <= x < v.width && 0 <= y < v.height
}

/// The plane-major byte index of a cell.
pub open spec fn cell_of(v: TerrainView, x: int, y: int, z: int) -> int {
    z * (v.width * v.height) + y * v.width + x
}

/// The DAT type at a cell: the plane byte with 0xFF read back as type 1;
/// 0 outside the volume.
pub open spec fn dat_type_of(v: TerrainView, x: i32, y: i32, z: i32) -> u8 {
    if !in_volume(v, x as int, y as int, z as int) {
        0
    } else {
        let t = v.dat[cell_of(v, x as int, y as int, z as int)];
        if t == 0xFF {
            1
        } else {
            t
        }
    }
}

/// The raw plane byte at a cell, `None` outside the volume.
pub open spec fn raw_byte_of(v: TerrainView, x: i32, y: i32, z: i32) -> Option<u8> {
    if !in_volume(v, x as int, y as int, z as int) {
        None
    } else {
        Some(v.dat[cell_of(v, x as int, y as int, z as int)])
    }
}

/// The height byte of tile type `ty` at sub-tile `(sx, sy)`: slot
/// `ty - 1`'s map, 0 for type 0 or a missing slot.
pub open spec fn height_of(v: TerrainView, ty: u8, sx: i32, sy: i32) -> u8 {
    if ty == 0 || ty - 1 >= v.heights.len() {
        0
    } else {
        v.heights[ty - 1]@[sy * 32 + sx]
    }
}

/// An empty cell type (nothing to stand on).
pub open spec fn empty_type(t: u8) -> bool {
    t == 0 || t == 0x2A
}

/// The latch after probing a cell of type `t`: a type-3 cell records its
/// `(level, x, y)`.
pub open spec fn latch_after(
    lt: Option<(i32, i32, i32)>,
    t: u8,
    lvl: i32,
    tx: i32,
    ty: i32,
) -> Option<(i32, i32, i32)> {
    if t == 3 {
        Some((lvl, tx, ty))
    } else {
        lt
    }
}

/// `z` clamped into `0..=0xFF`.
pub open spec fn clamp_z(z: i32) -> i32 {
    if z < 0 {
        0
    } else if z > 0xFF {
        0xFF
    } else {
        z
    }
}

/// The floor probe at a Q5 position: the floor z and the trigger latch
/// after it. The probe clamps z into 0..=0xFF, takes level `z >> 5`, and
/// while the type there is empty tries level+1 (below 7), then level-2
/// (above 1); empty everywhere gives 0. Otherwise the floor is
/// `level*0x20 + height`, where a full-height byte (0x1F) below level 7
/// bridges into a nonzero height of a non-empty cell one level up.
/// Every type-3 cell probed records the latch.
pub open spec fn floor_probe(v: TerrainView, q5x: i32, q5y: i32, z: i32) -> (
    i32,
    Option<(i32, i32, i32)>,
) {
    let zb = clamp_z(z);
    let tx = q5x >> 5u32;
    let ty = q5y >> 5u32;
    let sx = q5x & 0x1F;
    let sy = q5y & 0x1F;
    let l0 = zb >> 5u32;
    let t0 = dat_type_of(v, tx, ty, l0);
    let a0 = latch_after(v.last_trigger, t0, l0, tx, ty);
    let (l1, t1, a1) = if empty_type(t0) && l0 < 7 {
        let t = dat_type_of(v, tx, ty, (l0 + 1) as i32);
        ((l0 + 1) as i32, t, latch_after(a0, t, (l0 + 1) as i32, tx, ty))
    } else {
        (l0, t0, a0)
    };
    let (l2, t2, a2) = if empty_type(t1) && l1 > 1 {
        let t = dat_type_of(v, tx, ty, (l1 - 2) as i32);
        ((l1 - 2) as i32, t, latch_after(a1, t, (l1 - 2) as i32, tx, ty))
    } else {
        (l1, t1, a1)
    };
    if empty_type(t2) {
        (0, a2)
    } else {
        let h = height_of(v, t2, sx, sy) as i32;
        let base = l2 * 0x20;
        if h != 0x1F || l2 > 6 {
            ((base + h) as i32, a2)
        } else {
            let above = dat_type_of(v, tx, ty, (l2 + 1) as i32);
            let a3 = latch_after(a2, above, (l2 + 1) as i32, tx, ty);
            if !empty_type(above) && height_of(v, above, sx, sy) != 0 {
                (((l2 + 1) * 0x20 + height_of(v, above, sx, sy)) as i32, a3)
            } else {
                ((base + h) as i32, a3)
            }
        }
    }
}

/// A floor probe lands in `0..=0x200`.
pub proof fn lemma_floor_probe_range(v: TerrainView, q5x: i32, q5y: i32, z: i32)
    ensures
        0 <= floor_probe(v, q5x, q5y, z).0 <= 0x200,
{
    let zb = clamp_z(z);
    assert(0 <= zb >> 5u32 <= 7) by (bit_vector)
        requires
            0 <= zb <= 0xFF,
    ;
}

/// The swept plane bytes of a DAT file (`u16 w + u16 h + 8*w*h` bytes):
/// bytes `>= 0x80` in planes 0..6 become 0, plane 7 is kept. `None` on a
/// short file, a zero dimension, a volume `8*w*h` past `i32::MAX` or a
/// wrong length.
pub open spec fn plane_bytes(dat: Seq<u8>) -> Option<Seq<u8>> {
    if dat.len() < 4 {
        None
    } else {
        let n = u16_at(dat, 0) * u16_at(dat, 2);
        if u16_at(dat, 0) == 0 || u16_at(dat, 2) == 0 || 8 * n > i32::MAX || dat.len() != 4 + 8
            * n {
            None
        } else {
            Some(Seq::new((8 * n) as nat, |i: int| if i < 7 * n && dat[4 + i] >= 0x80 {
                0u8
            } else {
                dat[4 + i]
            }))
        }
    }
}

/// The `k`-th 6-byte pad record `(x, y, level)`.
pub open spec fn pad_rec(pad: Seq<u8>, k: int) -> (u16, u16, u16) {
    (u16_at(pad, 6 * k), u16_at(pad, 6 * k + 2), u16_at(pad, 6 * k + 4))
}

/// The number of pad records from `k` on before the terminator (an x of
/// 0xFFFF) or the end of the whole records.
pub open spec fn pad_count(pad: Seq<u8>, k: nat) -> nat
    decreases pad.len() / 6 - k,
{
    if k >= pad.len() / 6 || u16_at(pad, (6 * k) as int) == 0xFFFF {
        k
    } else {
        pad_count(pad, k + 1)
    }
}

/// The pad records of a PAD file, in order, as `(x, y, level)`.
pub open spec fn pad_slots_of(pad: Seq<u8>) -> Seq<(i32, i32, i32)> {
    Seq::new(
        pad_count(pad, 0),
        |k: int| (pad_rec(pad, k).0 as i32, pad_rec(pad, k).1 as i32, pad_rec(pad, k).2 as i32),
    )
}

/// The planes after the first `k` pad records mark their in-volume cell
/// 0xFF (a record outside the volume is skipped).
pub open spec fn pad_marks(planes: Seq<u8>, pad: Seq<u8>, w: int, h: int, k: nat) -> Seq<u8>
    decreases k,
{
    if k == 0 {
        planes
    } else {
        let prev = pad_marks(planes, pad, w, h, (k - 1) as nat);
        let r = pad_rec(pad, k - 1);
        if r.2 < 8 && r.0 < w && r.1 < h {
            prev.update(r.2 * (w * h) + r.1 * w + r.0, 0xFF)
        } else {
            prev
        }
    }
}

/// The height-map count a CGR bank declares.
pub open spec fn cgr_count(cgr: Seq<u8>) -> int {
    u16_at(cgr, 0) as int
}

/// The offset of slot `s`'s 1024-byte height map in a CGR bank.
pub open spec fn cgr_body(cgr: Seq<u8>, s: int) -> int {
    u32_at(cgr, 2 + 4 * s) + 4 * s + 8
}

/// A CGR bank holds its count, its directory and every map it names.
pub open spec fn cgr_ok(cgr: Seq<u8>) -> bool {
    &&& cgr.len() >= 2
    &&& cgr.len() >= 2 + 4 * cgr_count(cgr)
    &&& forall|s: int| 0 <= s < cgr_count(cgr) ==> cgr_body(cgr, s) + 1024 <= cgr.len()
}

/// The pad-record count from `k` on lies between `k` and the number of
/// whole records.
proof fn lemma_pad_count_bounds(pad: Seq<u8>, k: nat)
    requires
        k <= pad.len() / 6,
    ensures
        k <= pad_count(pad, k) <= pad.len() / 6,
    decreases pad.len() / 6 - k,
{
    if k < pad.len() / 6 && u16_at(pad, (6 * k) as int) != 0xFFFF {
        lemma_pad_count_bounds(pad, k + 1);
    }
}

/// `a * b` bounds used for cell indexing.
proof fn lemma_cell_bounds(w: int, h: int, x: int, y: int, z: int)
    requires
        w > 0,
        h > 0,
        0 <= x < w,
        0 <= y < h,
        0 <= z < 8,
    ensures
        0 <= y * w + x < w * h,
        0 <= z * (w * h) + y * w + x < 8 * (w * h),
        8 * (w * h) == 8 * w * h,
        w * h <= 8 * w * h,
{
    assert(0 <= y * w + x < w * h) by (nonlinear_arith)
        requires
            w > 0,
            h > 0,
            0 <= x < w,
            0 <= y < h,
    ;
    assert(0 <= z * (w * h) + y * w + x < 8 * (w * h)) by (nonlinear_arith)
        requires
            w > 0,
            h > 0,
            0 <= y * w + x < w * h,
            0 <= z < 8,
    ;
    assert(8 * (w * h) == 8 * w * h) by (nonlinear_arith);
    assert(w * h <= 8 * w * h) by (nonlinear_arith)
        requires
            w > 0,
            h > 0,
    ;
}

/// Mission walkability data (see the module documentation).
#[derive(Debug, Clone, PartialEq, Eq)]
pub struct Terrain {
    width: i32,
    height: i32,
    dat: Vec<u8>,
    heights: Vec<[u8; 1024]>,
    /// The parsed pad records `(x, y, level)` in file order.
    pub pad_slots: Vec<(i32, i32, i32)>,
    /// `(level, tile_x, tile_y)` of the last type-3 cell the floor probe
    /// met.
    pub last_trigger: Option<(i32, i32, i32)>,
}

impl View for Terrain {
    type V = TerrainView;

    closed spec fn view(&self) -> TerrainView {
        TerrainView {
            width: self.width as int,
            height: self.height as int,
            dat: self.dat@,
            heights: self.heights@,
            pad_slots: self.pad_slots@,
            last_trigger: self.last_trigger,
        }
    }
}

/// Read the swept plane bytes of a DAT file (see [`plane_bytes`]); the
/// walkability [`Terrain`] marks its pad cells on a private copy of
/// these.
pub fn dat_plane_bytes(dat: &[u8]) -> (r: Option<Vec<u8>>)
    ensures
        r matches Some(p) ==> plane_bytes(dat@) == Some(p@),
        r is None ==> plane_bytes(dat@) is None,
{
    if dat.len() < 4 {
        return None;
    }
    let width = read_u16(dat, 0) as u64;
    let height = read_u16(dat, 2) as u64;
    proof {
        assert(width * height <= 0xFFFF * 0xFFFF) by (nonlinear_arith)
            requires
                width <= 0xFFFF,
                height <= 0xFFFF,
        ;
    }
    let n64 = width * height;
    if width == 0 || height == 0 || 8 * n64 > 0x7FFF_FFFF || dat.len() as u64 != 4 + 8 * n64 {
        return None;
    }
    let n = n64 as usize;
    let total = dat.len() - 4;
    let swept = total - n;
    let mut planes: Vec<u8> = Vec::new();
    let mut i: usize = 0;
    while i < total
        invariant
            dat@.len() == 4 + 8 * n,
            total == 8 * n,
            swept == 7 * n,
            i <= 8 * n,
            planes@.len() == i,
            forall|k: int|
                0 <= k < i ==> planes@[k] == (if k < 7 * n && dat@[4 + k] >= 0x80 {
                    0u8
                } else {
                    dat@[4 + k]
                }),
        decreases 8 * n - i,
    {
        let b = dat[4 + i];
        if i < swept && b >= 0x80 {
            planes.push(0);
        } else {
            planes.push(b);
        }
        i = i + 1;
    }
    proof {
        let p = plane_bytes(dat@);
        assert(planes@ =~= p.unwrap());
    }
    Some(planes)
}

impl Terrain {
    /// The terrain is well formed.
    pub open spec fn wf(&self) -> bool {
        terrain_wf(self@)
    }

    /// Byte index of an in-volume cell.
    fn cell_index(&self, x: i32, y: i32, z: i32) -> (i: usize)
        requires
            self.wf(),
            in_volume(self@, x as int, y as int, z as int),
        ensures
            i == cell_of(self@, x as int, y as int, z as int),
            i < self@.dat.len(),
    {
        proof {
            lemma_cell_bounds(self.width as int, self.height as int, x as int, y as int, z as int);
        }
        let n = (self.width * self.height) as usize;
        z as usize * n + y as usize * self.width as usize + x as usize
    }

    /// Build from the raw pieces: `dat` must hold `8 * w * h` plane-major
    /// bytes and `heights` the 1024-byte height maps. `None` on a
    /// non-positive dimension or a wrong `dat` size.
    pub fn from_parts(
        width: i32,
        height: i32,
        dat: Vec<u8>,
        heights: Vec<[u8; 1024]>,
    ) -> (r: Option<Self>)
        requires
            width > 0 && height > 0 ==> 8 * width * height <= i32::MAX,
        ensures
            (r is Some) <==> (width > 0 && height > 0 && dat@.len() == 8 * width * height),
            r matches Some(t) ==> t.wf() && t@ == (TerrainView {
                width: width as int,
                height: height as int,
                dat: dat@,
                heights: heights@,
                pad_slots: Seq::empty(),
                last_trigger: None,
            }),
    {
        if width <= 0 || height <= 0 {
            return None;
        }
        assert(8 * width <= 8 * width * height) by (nonlinear_arith)
            requires
                width > 0,
                height > 0,
        ;
        let total = 8 * width * height;
        if dat.len() != total as usize {
            return None;
        }
        let t = Terrain {
            width,
            height,
            dat,
            heights,
            pad_slots: Vec::new(),
            last_trigger: None,
        };
        assert(t@.pad_slots =~= Seq::empty());
        Some(t)
    }

    /// Build from the raw mission files: `dat` is the whole DAT file (see
    /// [`plane_bytes`]), `pad` the PAD file (6-byte `(x, y, level)`
    /// records, an x of 0xFFFF ends them), `cgr` the height bank (`u16`
    /// count, `count` `u32` directory words, map `s` at
    /// `dir[s] + 4*s + 8`). Every pad record is kept in order; the ones
    /// inside the volume also mark their cell 0xFF (read back as type 1).
    /// `None` on a malformed DAT or CGR.
    pub fn from_mission_bytes(dat: &[u8], pad: &[u8], cgr: &[u8]) -> (r: Option<Self>)
        ensures
            (r is Some) <==> (plane_bytes(dat@) is Some && cgr_ok(cgr@)),
            r matches Some(t) ==> {
                &&& t.wf()
                &&& t@.width == u16_at(dat@, 0)
                &&& t@.height == u16_at(dat@, 2)
                &&& t@.dat == pad_marks(
                    plane_bytes(dat@).unwrap(),
                    pad@,
                    t@.width,
                    t@.height,
                    pad_count(pad@, 0),
                )
                &&& t@.pad_slots == pad_slots_of(pad@)
                &&& t@.heights.len() == cgr_count(cgr@)
                &&& forall|s: int, i: int|
                    0 <= s < cgr_count(cgr@) && 0 <= i < 1024 ==> t@.heights[s]@[i] == cgr@[cgr_body(
                        cgr@,
                        s,
                    ) + i]
                &&& t@.last_trigger is None
            },
    {
        if dat.len() < 4 {
            return None;
        }
        let mut planes = match dat_plane_bytes(dat) {
            Some(p) => p,
            None => return None,
        };
        let width = read_u16(dat, 0) as i32;
        let height = read_u16(dat, 2) as i32;
        proof {
            assert(width * height <= 8 * width * height) by (nonlinear_arith)
                requires
                    width > 0,
                    height > 0,
            ;
        }
        let n = (width * height) as usize;
        let ghost planes0 = planes@;
        proof {
            lemma_pad_count_bounds(pad@, 0);
            lemma_cell_bounds(width as int, height as int, 0, 0, 0);
        }
        // Pad records in file order; in-volume ones mark their cell.
        let mut pad_slots: Vec<(i32, i32, i32)> = Vec::new();
        let plen = pad.len();
        let dlen = dat.len();
        let nrec = plen / 6;
        let mut k: usize = 0;
        let mut done = false;
        while k < nrec && !done
            invariant
                width > 0,
                height > 0,
                n == width * height,
                planes@.len() == 8 * n,
                plen == pad@.len(),
                nrec == plen / 6,
                dlen == 4 + 8 * n,
                k <= nrec,
                !done ==> pad_count(pad@, k as nat) == pad_count(pad@, 0),
                done ==> pad_count(pad@, 0) == k,
                pad_slots@ == pad_slots_of(pad@).subrange(0, k as int),
                planes@ == pad_marks(planes0, pad@, width as int, height as int, k as nat),
                pad_count(pad@, 0) <= nrec,
            decreases nrec - k + (if done { 0int } else { 1int }),
        {
            assert(6 * k + 6 <= plen) by (nonlinear_arith)
                requires
                    k < nrec,
                    nrec == plen / 6,
            ;
            let x = read_u16(pad, 6 * k);
            let y = read_u16(pad, 6 * k + 2) as i32;
            let level = read_u16(pad, 6 * k + 4) as i32;
            if x == 0xFFFF {
                done = true;
            } else {
                proof {
                    lemma_pad_count_bounds(pad@, (k + 1) as nat);
                }
                pad_slots.push((x as i32, y, level));
                assert(pad_slots@ =~= pad_slots_of(pad@).subrange(0, k + 1));
                if level < 8 && (x as i32) < width && y < height {
                    proof {
                        lemma_cell_bounds(
                            width as int,
                            height as int,
                            x as int,
                            y as int,
                            level as int,
                        );
                    }
                    let idx = level as usize * n + y as usize * width as usize + x as usize;
                    planes.set(idx, 0xFF);
                }
                k = k + 1;
            }
        }
        assert(pad_count(pad@, 0) == k);
        assert(pad_slots@ =~= pad_slots_of(pad@));
        // Height maps: count, directory, then each map's 1024 bytes.
        if cgr.len() < 2 {
            return None;
        }
        let count = read_u16(cgr, 0) as usize;
        if cgr.len() < 2 + 4 * count {
            return None;
        }
        let clen = cgr.len();
        let mut heights: Vec<[u8; 1024]> = Vec::new();
        let mut s: usize = 0;
        while s < count
            invariant
                clen == cgr@.len(),
                count == cgr_count(cgr@),
                cgr@.len() >= 2 + 4 * count,
                s <= count,
                heights@.len() == s,
                forall|j: int| 0 <= j < s ==> cgr_body(cgr@, j) + 1024 <= cgr@.len(),
                forall|j: int, i: int|
                    0 <= j < s && 0 <= i < 1024 ==> heights@[j]@[i] == cgr@[cgr_body(cgr@, j) + i],
            decreases count - s,
        {
            let o = 2 + 4 * s;
            let dir = read_u32(cgr, o) as usize;
            assert(dir == u32_at(cgr@, 2 + 4 * s));
            let body = match dir.checked_add(4 * s + 8) {
                Some(b) => b,
                None => {
                    assert(!(cgr_body(cgr@, s as int) + 1024 <= cgr@.len()));
                    return None;
                },
            };
            let end = match body.checked_add(1024) {
                Some(e) => e,
                None => {
                    assert(!(cgr_body(cgr@, s as int) + 1024 <= cgr@.len()));
                    return None;
                },
            };
            if end > cgr.len() {
                assert(!(cgr_body(cgr@, s as int) + 1024 <= cgr@.len()));
                return None;
            }
            let mut map = [0u8; 1024];
            let mut i: usize = 0;
            while i < 1024
                invariant
                    end == body + 1024,
                    end <= cgr@.len(),
                    i <= 1024,
                    forall|q: int| 0 <= q < i ==> map@[q] == cgr@[body + q],
                decreases 1024 - i,
            {
                map[i] = cgr[body + i];
                i = i + 1;
            }
            heights.push(map);
            s = s + 1;
        }
        proof {
            lemma_cell_bounds(width as int, height as int, 0, 0, 0);
        }
        assert(8 * width * height == 8 * n);
        let mut terrain = match Terrain::from_parts(width, height, planes, heights) {
            Some(t) => t,
            None => return None,
        };
        terrain.pad_slots = pad_slots;
        Some(terrain)
    }

    /// Map size in tiles `(w, h)`.
    pub fn size(&self) -> (r: (i32, i32))
        ensures
            r.0 == self@.width && r.1 == self@.height,
    {
        (self.width, self.height)
    }

    /// The DAT type at a tile and level: the plane byte with 0xFF read
    /// back as type 1; 0 outside the volume.
    pub fn dat_type(&self, x: i32, y: i32, z: i32) -> (t: u8)
        requires
            self.wf(),
        ensures
            t == dat_type_of(self@, x, y, z),
    {
        if z < 0 || z >= 8 || x < 0 || y < 0 || x >= self.width || y >= self.height {
            return 0;
        }
        let idx = self.cell_index(x, y, z);
        let t = self.dat[idx];
        if t == 0xFF {
            1
        } else {
            t
        }
    }

    /// The raw plane byte at a tile and level (no 0xFF remap); `None`
    /// outside the volume.
    pub fn raw_dat_byte(&self, x: i32, y: i32, z: i32) -> (r: Option<u8>)
        requires
            self.wf(),
        ensures
            r == raw_byte_of(self@, x, y, z),
    {
        if z < 0 || z >= 8 || x < 0 || y < 0 || x >= self.width || y >= self.height {
            return None;
        }
        let idx = self.cell_index(x, y, z);
        Some(self.dat[idx])
    }

    /// The plane-0 byte at a linear offset; 0 past the plane.
    pub fn plane0_linear_byte(&self, off: usize) -> (b: u8)
        requires
            self.wf(),
        ensures
            b == (if off < self@.width * self@.height {
                self@.dat[off as int]
            } else {
                0
            }),
    {
        proof {
            lemma_cell_bounds(self.width as int, self.height as int, 0, 0, 0);
        }
        let n = (self.width * self.height) as usize;
        if off >= n {
            return 0;
        }
        self.dat[off]
    }

    /// The first pad record (in file order) at tile `(x, y)` and `level`.
    pub fn pad_slot_at(&self, x: i32, y: i32, level: i32) -> (r: Option<usize>)
        ensures
            r matches Some(i) ==> i < self@.pad_slots.len() && self@.pad_slots[i as int] == (
            x,
            y,
            level,
            ) && forall|j: int| 0 <= j < i ==> self@.pad_slots[j] != (x, y, level),
            r is None ==> forall|j: int|
                0 <= j < self@.pad_slots.len() ==> self@.pad_slots[j] != (x, y, level),
    {
        let mut i: usize = 0;
        while i < self.pad_slots.len()
            invariant
                i <= self@.pad_slots.len(),
                forall|j: int| 0 <= j < i ==> self@.pad_slots[j] != (x, y, level),
            decreases self@.pad_slots.len() - i,
        {
            let (px, py, pl) = self.pad_slots[i];
            if px == x && py == y && pl == level {
                return Some(i);
            }
            i = i + 1;
        }
        None
    }

    /// The pad record at `slot`, `None` past the last one.
    pub fn pad_slot(&self, slot: usize) -> (r: Option<(i32, i32, i32)>)
        ensures
            r == (if slot < self@.pad_slots.len() {
                Some(self@.pad_slots[slot as int])
            } else {
                None
            }),
    {
        if slot < self.pad_slots.len() {
            Some(self.pad_slots[slot])
        } else {
            None
        }
    }

    /// The number of pad records.
    pub fn pad_slot_count(&self) -> (n: usize)
        ensures
            n == self@.pad_slots.len(),
    {
        self.pad_slots.len()
    }

    /// Write one raw plane byte (a 0xFF write reads back as type 1);
    /// writes outside the volume are skipped.
    pub fn dat_write(&mut self, x: i32, y: i32, z: i32, byte: u8)
        requires
            old(self).wf(),
        ensures
            final(self).wf(),
            final(self)@ == (if in_volume(old(self)@, x as int, y as int, z as int) {
                (TerrainView {
                    dat: old(self)@.dat.update(
                        cell_of(old(self)@, x as int, y as int, z as int),
                        byte,
                    ),
                    ..old(self)@
                })
            } else {
                old(self)@
            }),
    {
        if z < 0 || z >= 8 || x < 0 || y < 0 || x >= self.width || y >= self.height {
            return;
        }
        let idx = self.cell_index(x, y, z);
        self.dat.set(idx, byte);
    }

    /// The trigger latch.
    pub(crate) fn trigger(&self) -> (lt: Option<(i32, i32, i32)>)
        ensures
            lt == self@.last_trigger,
    {
        self.last_trigger
    }

    /// Set the trigger latch.
    pub(crate) fn set_trigger(&mut self, lt: Option<(i32, i32, i32)>)
        requires
            old(self).wf(),
        ensures
            final(self).wf(),
            final(self)@ == (TerrainView { last_trigger: lt, ..old(self)@ }),
    {
        self.last_trigger = lt;
    }

    /// The plane byte at a raw volume index.
    pub(crate) fn volume_byte(&self, idx: usize) -> (b: u8)
        requires
            idx < self@.dat.len(),
        ensures
            b == self@.dat[idx as int],
    {
        self.dat[idx]
    }

    /// Height byte of tile type `ty` at sub-tile `(sx, sy)`.
    fn height_at(&self, ty: u8, sx: i32, sy: i32) -> (h: u8)
        requires
            0 <= sx < 32,
            0 <= sy < 32,
        ensures
            h == height_of(self@, ty, sx, sy),
    {
        if ty == 0 {
            return 0;
        }
        let k = ty as usize - 1;
        if k < self.heights.len() {
            self.heights[k][(sy * 32 + sx) as usize]
        } else {
            0
        }
    }

    /// The floor z at a Q5 position (see [`floor_probe`]); the probe
    /// records the trigger latch of every type-3 cell it meets.
    pub fn floor_z(&mut self, q5x: i32, q5y: i32, z: i32) -> (r: i32)
        requires
            old(self).wf(),
        ensures
            final(self).wf(),
            r == floor_probe(old(self)@, q5x, q5y, z).0,
            0 <= r <= 0x200,
            final(self)@ == (TerrainView {
                last_trigger: floor_probe(old(self)@, q5x, q5y, z).1,
                ..old(self)@
            }),
    {
        let ghost v0 = self@;
        let zb = if z < 0 {
            0
        } else if z > 0xFF {
            0xFF
        } else {
            z
        };
        let tx = q5x >> 5;
        let ty = q5y >> 5;
        let sx = q5x & 0x1F;
        let sy = q5y & 0x1F;
        assert(0 <= sx < 32 && 0 <= sy < 32) by (bit_vector)
            requires
                sx == q5x & 0x1F,
                sy == q5y & 0x1F,
        ;
        let mut lvl = zb >> 5;
        assert(0 <= lvl <= 7) by (bit_vector)
            requires
                lvl == zb >> 5,
                0 <= zb <= 0xFF,
        ;
        let mut tyb = self.dat_type(tx, ty, lvl);
        if tyb == 3 {
            self.last_trigger = Some((lvl, tx, ty));
        }
        if (tyb == 0 || tyb == 0x2A) && lvl < 7 {
            lvl = lvl + 1;
            tyb = self.dat_type(tx, ty, lvl);
            if tyb == 3 {
                self.last_trigger = Some((lvl, tx, ty));
            }
        }
        if (tyb == 0 || tyb == 0x2A) && lvl > 1 {
            lvl = lvl - 2;
            tyb = self.dat_type(tx, ty, lvl);
            if tyb == 3 {
                self.last_trigger = Some((lvl, tx, ty));
            }
        }
        if tyb == 0 || tyb == 0x2A {
            assert(self@ == TerrainView { last_trigger: floor_probe(v0, q5x, q5y, z).1, ..v0 });
            return 0;
        }
        let h = self.height_at(tyb, sx, sy) as i32;
        let base = lvl * 0x20;
        if h != 0x1F || lvl > 6 {
            assert(self@ == TerrainView { last_trigger: floor_probe(v0, q5x, q5y, z).1, ..v0 });
            return base + h;
        }
        let above = self.dat_type(tx, ty, lvl + 1);
        if above == 3 {
            self.last_trigger = Some((lvl + 1, tx, ty));
        }
        assert(self@ == TerrainView { last_trigger: floor_probe(v0, q5x, q5y, z).1, ..v0 });
        if above != 0 && above != 0x2A {
            let h2 = self.height_at(above, sx, sy) as i32;
            if h2 != 0 {
                return (lvl + 1) * 0x20 + h2;
            }
        }
        base + h
    }
}

} // verus!
