//! The destructible-object library of a mission: the BDG type table
//! (footprint, hit points, chain flag, objective code, five destroy
//! effects and four terrain template banks per row), the object
//! instances placed on the map, and the debris kind tables the destroy
//! effects stage from.

use vstd::prelude::*;

use crate::le::{read_u16, read_u32, u16_at, u32_at};

verus! {

/// The type-table row cap: a BDG file holds at most 282 records.
pub const OBJECT_TYPE_SLOTS: usize = 282;

/// The instance-slot count of a mission's object list.
pub const OBJECT_INSTANCE_SLOTS: usize = 2000;

/// The bytes of a BDG record before its template banks.
pub const BDG_HEAD: usize = 0x3A;

/// One destroy effect of a type row: a selector (1..=9 dispatch an
/// effect, 0 or above 9 are skipped) and a tile offset from the
/// destroyed instance's origin.
#[derive(Debug, Clone, Copy, PartialEq, Eq, Default)]
pub struct ObjectEffectEntry {
    pub selector: u16,
    pub dx: u16,
    pub dy: u16,
    pub dz: u16,
}

/// One row of the type table. Empty records become all-zero rows. The
/// four template banks hold `w*h*d` words each, in file order: current
/// TOT, under TOT, current DAT, under DAT.
#[derive(Debug, Clone, PartialEq, Eq, Default)]
pub struct ObjectType {
    pub w: u16,
    pub h: u16,
    pub d: u16,
    pub hp: i32,
    pub chain: u16,
    /// Objective/score code (0xb is the score-10 type).
    pub kind: i32,
    /// Load-computed count; the parser leaves it 0.
    pub count: u16,
    pub effects: [ObjectEffectEntry; 5],
    pub bank_current_tot: Vec<u16>,
    pub bank_under_tot: Vec<u16>,
    pub bank_current_dat: Vec<u16>,
    pub bank_under_dat: Vec<u16>,
}

/// An [`ObjectType`] with its banks as sequences.
pub struct ObjectTypeView {
    pub w: u16,
    pub h: u16,
    pub d: u16,
    pub hp: i32,
    pub chain: u16,
    pub kind: i32,
    pub count: u16,
    pub effects: Seq<ObjectEffectEntry>,
    pub bank_current_tot: Seq<u16>,
    pub bank_under_tot: Seq<u16>,
    pub bank_current_dat: Seq<u16>,
    pub bank_under_dat: Seq<u16>,
}

impl View for ObjectType {
    type V = ObjectTypeView;

    open spec fn view(&self) -> ObjectTypeView {
        ObjectTypeView {
            w: self.w,
            h: self.h,
            d: self.d,
            hp: self.hp,
            chain: self.chain,
            kind: self.kind,
            count: self.count,
            effects: self.effects@,
            bank_current_tot: self.bank_current_tot@,
            bank_under_tot: self.bank_under_tot@,
            bank_current_dat: self.bank_current_dat@,
            bank_under_dat: self.bank_under_dat@,
        }
    }
}

/// The parsed BDG library (at most 282 rows).
#[derive(Debug, Clone, PartialEq, Eq, Default)]
pub struct ObjectTypeTable {
    pub rows: Vec<ObjectType>,
}

/// The views of a row sequence.
pub open spec fn rows_view(rows: Seq<ObjectType>) -> Seq<ObjectTypeView> {
    rows.map_values(|t: ObjectType| t@)
}

impl View for ObjectTypeTable {
    type V = Seq<ObjectTypeView>;

    open spec fn view(&self) -> Seq<ObjectTypeView> {
        rows_view(self.rows@)
    }
}

/// The all-zero row an empty record reads as.
pub open spec fn empty_type_view() -> ObjectTypeView {
    ObjectTypeView {
        w: 0,
        h: 0,
        d: 0,
        hp: 0,
        chain: 0,
        kind: 0,
        count: 0,
        effects: Seq::new(5, |m: int| ObjectEffectEntry { selector: 0, dx: 0, dy: 0, dz: 0 }),
        bank_current_tot: Seq::empty(),
        bank_under_tot: Seq::empty(),
        bank_current_dat: Seq::empty(),
        bank_under_dat: Seq::empty(),
    }
}

/// The template cell count `w*h*d` of the active record at `pos`.
pub open spec fn bdg_cells(b: Seq<u8>, pos: int) -> nat {
    (u16_at(b, pos + 2) as nat) * (u16_at(b, pos + 4) as nat) * (u16_at(b, pos + 6) as nat)
}

/// The byte size of the record at `pos`: 2 for an empty record (control
/// word other than 1), else the head and four banks of 2-byte words.
pub open spec fn bdg_record_size(b: Seq<u8>, pos: int) -> int {
    if u16_at(b, pos) != 1 {
        2
    } else {
        BDG_HEAD + 8 * bdg_cells(b, pos)
    }
}

/// The record at `pos` lies whole inside the bytes.
pub open spec fn bdg_fits(b: Seq<u8>, pos: int) -> bool {
    &&& pos + 2 <= b.len()
    &&& pos + bdg_record_size(b, pos) <= b.len()
}

/// The `n` little-endian words starting at `start`.
pub open spec fn bdg_bank(b: Seq<u8>, start: int, n: nat) -> Seq<u16> {
    Seq::new(n, |i: int| u16_at(b, start + 2 * i))
}

/// The effect entry whose four words start at `o`.
pub open spec fn bdg_effect(b: Seq<u8>, o: int) -> ObjectEffectEntry {
    ObjectEffectEntry {
        selector: u16_at(b, o),
        dx: u16_at(b, o + 2),
        dy: u16_at(b, o + 4),
        dz: u16_at(b, o + 6),
    }
}

/// The row the record at `pos` reads as.
pub open spec fn bdg_row(b: Seq<u8>, pos: int) -> ObjectTypeView {
    if u16_at(b, pos) != 1 {
        empty_type_view()
    } else {
        let cells = bdg_cells(b, pos);
        let banks = pos + BDG_HEAD;
        ObjectTypeView {
            w: u16_at(b, pos + 2),
            h: u16_at(b, pos + 4),
            d: u16_at(b, pos + 6),
            hp: u32_at(b, pos + 8) as i32,
            chain: u16_at(b, pos + 0xC),
            kind: u32_at(b, pos + 0xE) as i32,
            count: 0,
            effects: Seq::new(5, |m: int| bdg_effect(b, pos + 0x12 + 8 * m)),
            bank_current_tot: bdg_bank(b, banks, cells),
            bank_under_tot: bdg_bank(b, banks + 2 * cells, cells),
            bank_current_dat: bdg_bank(b, banks + 4 * cells, cells),
            bank_under_dat: bdg_bank(b, banks + 6 * cells, cells),
        }
    }
}

/// `pre` in front of the rows of a parse result.
pub open spec fn prepend_rows(
    pre: Seq<ObjectTypeView>,
    r: Option<(Seq<ObjectTypeView>, int)>,
) -> Option<(Seq<ObjectTypeView>, int)> {
    match r {
        None => None,
        Some((rest, end)) => Some((pre + rest, end)),
    }
}

/// The rows read from `pos` on, at most `budget` of them, and the
/// position after the last: reading stops at the budget or at the end
/// of the bytes, and fails on a record cut short.
pub open spec fn bdg_rows(b: Seq<u8>, pos: int, budget: nat) -> Option<(Seq<ObjectTypeView>, int)>
    decreases budget,
{
    if budget == 0 || pos == b.len() {
        Some((Seq::empty(), pos))
    } else if !bdg_fits(b, pos) {
        None
    } else {
        prepend_rows(seq![bdg_row(b, pos)], bdg_rows(b, pos + bdg_record_size(b, pos), (budget - 1) as nat))
    }
}

/// The library a BDG file holds: its records from offset 0, at most 282,
/// which must consume the file exactly.
pub open spec fn bdg_table(b: Seq<u8>) -> Option<Seq<ObjectTypeView>> {
    match bdg_rows(b, 0, OBJECT_TYPE_SLOTS as nat) {
        Some((rows, end)) => if end == b.len() {
            Some(rows)
        } else {
            None
        },
        None => None,
    }
}

/// The words of one template bank.
fn read_bank(bytes: &[u8], start: usize, cells: usize) -> (v: Vec<u16>)
    requires
        start + 2 * cells <= bytes@.len(),
    ensures
        v@ == bdg_bank(bytes@, start as int, cells as nat),
{
    let n = bytes.len();
    let mut v: Vec<u16> = Vec::new();
    let mut i: usize = 0;
    while i < cells
        invariant
            i <= cells,
            n == bytes@.len(),
            start + 2 * cells <= bytes@.len(),
            v@ == bdg_bank(bytes@, start as int, i as nat),
        decreases cells - i,
    {
        let w = read_u16(bytes, start + 2 * i);
        v.push(w);
        i = i + 1;
        assert(v@ =~= bdg_bank(bytes@, start as int, i as nat));
    }
    v
}

/// The effect entry at `o`.
fn read_effect(bytes: &[u8], o: usize) -> (e: ObjectEffectEntry)
    requires
        o + 8 <= bytes@.len(),
    ensures
        e == bdg_effect(bytes@, o as int),
{
    let n = bytes.len();
    ObjectEffectEntry {
        selector: read_u16(bytes, o),
        dx: read_u16(bytes, o + 2),
        dy: read_u16(bytes, o + 4),
        dz: read_u16(bytes, o + 6),
    }
}

/// The empty row.
fn empty_type() -> (t: ObjectType)
    ensures
        t@ == empty_type_view(),
{
    let z = ObjectEffectEntry { selector: 0, dx: 0, dy: 0, dz: 0 };
    let t = ObjectType {
        w: 0,
        h: 0,
        d: 0,
        hp: 0,
        chain: 0,
        kind: 0,
        count: 0,
        effects: [z, z, z, z, z],
        bank_current_tot: Vec::new(),
        bank_under_tot: Vec::new(),
        bank_current_dat: Vec::new(),
        bank_under_dat: Vec::new(),
    };
    assert(t@.effects =~= empty_type_view().effects);
    t
}

/// The byte size of the record at `pos` if it lies whole inside the
/// bytes, `None` when it is cut short.
fn record_size(bytes: &[u8], pos: usize) -> (r: Option<usize>)
    requires
        pos < bytes@.len(),
    ensures
        match r {
            Some(s) => bdg_fits(bytes@, pos as int) && s == bdg_record_size(bytes@, pos as int),
            None => !bdg_fits(bytes@, pos as int),
        },
{
    let n = bytes.len();
    if n - pos < 2 {
        return None;
    }
    if read_u16(bytes, pos) != 1 {
        return Some(2);
    }
    if n - pos < BDG_HEAD {
        proof {
            let c = bdg_cells(bytes@, pos as int);
            assert(8 * c >= 0) by (nonlinear_arith)
                requires
                    c >= 0,
            ;
        }
        return None;
    }
    let w = read_u16(bytes, pos + 2) as u64;
    let h = read_u16(bytes, pos + 4) as u64;
    let d = read_u16(bytes, pos + 6) as u64;
    assert(w * h <= 0xFFFF * 0xFFFF) by (nonlinear_arith)
        requires
            w <= 0xFFFF,
            h <= 0xFFFF,
    ;
    assert(w * h * d <= 0xFFFF * 0xFFFF * 0xFFFF) by (nonlinear_arith)
        requires
            w * h <= 0xFFFF * 0xFFFF,
            d <= 0xFFFF,
    ;
    let cells = w * h * d;
    let total = 0x3Au64 + 8 * cells;
    if total > (n - pos) as u64 {
        return None;
    }
    Some(total as usize)
}

/// The active record at `pos`.
fn read_row(bytes: &[u8], pos: usize, size: usize) -> (t: ObjectType)
    requires
        bdg_fits(bytes@, pos as int),
        u16_at(bytes@, pos as int) == 1,
        size == bdg_record_size(bytes@, pos as int),
    ensures
        t@ == bdg_row(bytes@, pos as int),
{
    let ghost b = bytes@;
    let n = bytes.len();
    let w = read_u16(bytes, pos + 2);
    let h = read_u16(bytes, pos + 4);
    let d = read_u16(bytes, pos + 6);
    let hp = read_u32(bytes, pos + 8) as i32;
    let chain = read_u16(bytes, pos + 0xC);
    let kind = read_u32(bytes, pos + 0xE) as i32;
    let e0 = read_effect(bytes, pos + 0x12);
    let e1 = read_effect(bytes, pos + 0x1A);
    let e2 = read_effect(bytes, pos + 0x22);
    let e3 = read_effect(bytes, pos + 0x2A);
    let e4 = read_effect(bytes, pos + 0x32);
    let cells = (size - BDG_HEAD) / 8;
    let banks = pos + BDG_HEAD;
    proof {
        assert(cells == bdg_cells(b, pos as int));
    }
    let t = ObjectType {
        w,
        h,
        d,
        hp,
        chain,
        kind,
        count: 0,
        effects: [e0, e1, e2, e3, e4],
        bank_current_tot: read_bank(bytes, banks, cells),
        bank_under_tot: read_bank(bytes, banks + 2 * cells, cells),
        bank_current_dat: read_bank(bytes, banks + 4 * cells, cells),
        bank_under_dat: read_bank(bytes, banks + 6 * cells, cells),
    };
    assert(t@.effects =~= bdg_row(b, pos as int).effects);
    t
}

impl ObjectTypeTable {
    /// Parse a whole BDG file: records from offset 0 with no header, at
    /// most 282. A record is a `u16` control word; other than 1 it is a
    /// 2-byte empty row; 1 opens an active record: `w`, `h`, `d` (`u16`),
    /// `hp` (`i32`), `chain` (`u16`), `kind` (`i32`), five 8-byte effect
    /// entries, then the four template banks of `2*w*h*d` bytes each.
    /// `None` when a record is cut short or bytes are left over.
    pub fn from_bdg_bytes(bytes: &[u8]) -> (r: Option<ObjectTypeTable>)
        ensures
            match r {
                Some(t) => bdg_table(bytes@) == Some(t@),
                None => bdg_table(bytes@) is None,
            },
    {
        let ghost b = bytes@;
        let mut rows: Vec<ObjectType> = Vec::new();
        let mut pos: usize = 0;
        while rows.len() < OBJECT_TYPE_SLOTS && pos < bytes.len()
            invariant
                pos <= b.len(),
                b == bytes@,
                rows.len() <= OBJECT_TYPE_SLOTS,
                bdg_rows(b, 0, OBJECT_TYPE_SLOTS as nat) == prepend_rows(
                    rows_view(rows@),
                    bdg_rows(b, pos as int, (OBJECT_TYPE_SLOTS - rows.len()) as nat),
                ),
            decreases OBJECT_TYPE_SLOTS - rows.len(),
        {
            let ghost budget = (OBJECT_TYPE_SLOTS - rows.len()) as nat;
            let size = match record_size(bytes, pos) {
                Some(s) => s,
                None => {
                    return None;
                },
            };
            let t = if read_u16(bytes, pos) != 1 {
                empty_type()
            } else {
                read_row(bytes, pos, size)
            };
            proof {
                assert(t@ == bdg_row(b, pos as int));
                let rest = bdg_rows(b, pos + size, (budget - 1) as nat);
                assert(bdg_rows(b, pos as int, budget) == prepend_rows(seq![t@], rest));
                assert(rows_view(rows@.push(t)) =~= rows_view(rows@).push(t@));
                match rest {
                    None => {},
                    Some((r2, e)) => {
                        assert(rows_view(rows@) + (seq![t@] + r2) =~= rows_view(rows@).push(t@)
                            + r2);
                    },
                }
            }
            rows.push(t);
            pos = pos + size;
        }
        proof {
            assert(rows_view(rows@) + Seq::<ObjectTypeView>::empty() =~= rows_view(rows@));
        }
        if pos != bytes.len() {
            return None;
        }
        Some(ObjectTypeTable { rows })
    }
}


/// The eleven sprite walks of the debris kinds, in table order, each
/// ending in -1.
pub const DEBRIS_SEQ_0: [i16; 13] = [5, 6, 7, 8, 9, 10, 11, 12, 13, 14, 15, 16, -1];

/// Sprite walk 1 of the debris kinds.
pub const DEBRIS_SEQ_1: [i16; 13] = [44, 45, 46, 47, 48, 49, 50, 51, 52, 53, 54, 55, -1];

/// Sprite walk 2 of the debris kinds.
pub const DEBRIS_SEQ_2: [i16; 13] = [56, 57, 58, 59, 60, 61, 62, 63, 64, 65, 66, 67, -1];

/// Sprite walk 3 of the debris kinds.
pub const DEBRIS_SEQ_3: [i16; 13] = [68, 69, 70, 71, 72, 73, 74, 75, 76, 77, 78, 79, -1];

/// Sprite walk 4 of the debris kinds.
pub const DEBRIS_SEQ_4: [i16; 13] = [80, 81, 82, 83, 84, 85, 86, 87, 88, 89, 90, 91, -1];

/// Sprite walk 5 of the debris kinds.
pub const DEBRIS_SEQ_5: [i16; 14] = [92, 93, 94, 95, 96, 97, 98, 99, 100, 101, 102, 103, 104, -1];

/// Sprite walk 6 of the debris kinds.
pub const DEBRIS_SEQ_6: [i16; 6] = [0, 1, 2, 3, 4, -1];

/// Sprite walk 7 of the debris kinds.
pub const DEBRIS_SEQ_7: [i16; 9] = [29, 30, 31, 32, 33, 34, 35, 36, -1];

/// Sprite walk 8 of the debris kinds.
pub const DEBRIS_SEQ_8: [i16; 8] = [37, 38, 39, 40, 41, 42, 43, -1];

/// Sprite walk 9 of the debris kinds.
pub const DEBRIS_SEQ_9: [i16; 8] = [17, 18, 19, 20, 21, 22, 23, -1];

/// Sprite walk 10 of the debris kinds.
pub const DEBRIS_SEQ_10: [i16; 6] = [24, 25, 26, 27, 28, -1];

/// The sprite walk at table index `i` (0..=10).
pub open spec fn debris_seq_spec(i: int) -> Seq<i16> {
    if i == 0 {
        DEBRIS_SEQ_0@
    } else if i == 1 {
        DEBRIS_SEQ_1@
    } else if i == 2 {
        DEBRIS_SEQ_2@
    } else if i == 3 {
        DEBRIS_SEQ_3@
    } else if i == 4 {
        DEBRIS_SEQ_4@
    } else if i == 5 {
        DEBRIS_SEQ_5@
    } else if i == 6 {
        DEBRIS_SEQ_6@
    } else if i == 7 {
        DEBRIS_SEQ_7@
    } else if i == 8 {
        DEBRIS_SEQ_8@
    } else if i == 9 {
        DEBRIS_SEQ_9@
    } else {
        DEBRIS_SEQ_10@
    }
}

/// The sprite walk at table index `i`.
pub fn debris_seq_tables(i: usize) -> (t: &'static [i16])
    requires
        i < 11,
    ensures
        t@ == debris_seq_spec(i as int),
{
    match i {
        0 => &DEBRIS_SEQ_0,
        1 => &DEBRIS_SEQ_1,
        2 => &DEBRIS_SEQ_2,
        3 => &DEBRIS_SEQ_3,
        4 => &DEBRIS_SEQ_4,
        5 => &DEBRIS_SEQ_5,
        6 => &DEBRIS_SEQ_6,
        7 => &DEBRIS_SEQ_7,
        8 => &DEBRIS_SEQ_8,
        9 => &DEBRIS_SEQ_9,
        _ => &DEBRIS_SEQ_10,
    }
}

/// The table index of a debris kind's walk, `None`
/// for kinds without one.
pub open spec fn seq_table_index(kind: i32) -> Option<int> {
    if kind == 1 || kind == 5 || kind == 6 || kind == 9 || kind == 11 || kind == 12 || kind == 13
        || kind == 14 || kind == 15 {
        Some(0)
    } else if kind == 2 || kind == 8 {
        Some(6)
    } else if kind == 3 {
        Some(8)
    } else if kind == 4 {
        Some(7)
    } else if kind == 7 {
        Some(9)
    } else if kind == 10 {
        Some(10)
    } else if kind == 16 {
        Some(3)
    } else if kind == 17 {
        Some(4)
    } else if kind == 18 {
        Some(2)
    } else if kind == 19 {
        Some(1)
    } else if kind == 20 {
        Some(5)
    } else {
        None
    }
}

/// The sprite walk of a debris kind: kinds 13..=15 share the kind-1
/// walk; kinds without one get the lone terminator `[-1]`.
pub fn debris_seq_table(kind: i32) -> (t: &'static [i16])
    ensures
        t@ == match seq_table_index(kind) {
            Some(i) => debris_seq_spec(i),
            None => seq![-1i16],
        },
{
    match kind {
        1 | 5 | 6 | 9 | 11 | 12 | 13 | 14 | 15 => debris_seq_tables(0),
        2 | 8 => debris_seq_tables(6),
        3 => debris_seq_tables(8),
        4 => debris_seq_tables(7),
        7 => debris_seq_tables(9),
        10 => debris_seq_tables(10),
        16 => debris_seq_tables(3),
        17 => debris_seq_tables(4),
        18 => debris_seq_tables(2),
        19 => debris_seq_tables(1),
        20 => debris_seq_tables(5),
        _ => {
            let t: &'static [i16] = &[-1];
            assert(t@ =~= seq![-1i16]);
            t
        },
    }
}

/// The scorch a debris kind writes when staged: the nine-write 3x3
/// ring (corners 1, edges 2, center 4), one center write of the given
/// value, or none.
#[derive(Debug, Clone, Copy, PartialEq, Eq)]
pub enum DebrisScorch {
    Ring,
    Center(u8),
    Nothing,
}

/// The configuration of a debris kind: the table index of its sprite
/// walk (`None` for the lone terminator), its physics class, its init
/// word and its stage-time scorch.
pub open spec fn kind_config_spec(kind: i32) -> (Option<int>, i32, i32, DebrisScorch) {
    if kind == 1 {
        (seq_table_index(1), 6, 0x40, DebrisScorch::Ring)
    } else if kind == 2 {
        (seq_table_index(2), 0, 0x20, DebrisScorch::Center(3))
    } else if kind == 3 {
        (seq_table_index(3), 1, 0x20, DebrisScorch::Ring)
    } else if kind == 4 {
        (seq_table_index(4), 2, 0x20, DebrisScorch::Ring)
    } else if kind == 5 {
        (seq_table_index(5), 0, 0x40, DebrisScorch::Ring)
    } else if kind == 6 || kind == 12 {
        (seq_table_index(6), 6, 0x40, DebrisScorch::Ring)
    } else if kind == 7 {
        (seq_table_index(7), 0, 0x40, DebrisScorch::Nothing)
    } else if kind == 8 {
        (seq_table_index(8), 2, 0x20, DebrisScorch::Center(4))
    } else if kind == 9 {
        (seq_table_index(9), 3, 0x40, DebrisScorch::Ring)
    } else if kind == 10 {
        (seq_table_index(10), 0, 0x40, DebrisScorch::Nothing)
    } else if kind == 11 {
        (seq_table_index(11), 0, 0x40, DebrisScorch::Ring)
    } else if 13 <= kind <= 15 {
        (seq_table_index(13), 6, 0x40, DebrisScorch::Ring)
    } else if 16 <= kind <= 19 {
        (seq_table_index(kind), 6, 0x40, DebrisScorch::Nothing)
    } else if kind == 20 {
        (seq_table_index(20), 6, 0x40, DebrisScorch::Ring)
    } else {
        (None, 0, 0x40, DebrisScorch::Nothing)
    }
}

/// The walk a table index names, the lone terminator for `None`.
pub open spec fn walk_of(i: Option<int>) -> Seq<i16> {
    match i {
        Some(i) => debris_seq_spec(i),
        None => seq![-1i16],
    }
}

/// The configuration of a debris kind: its sprite walk, physics class,
/// init word and stage-time scorch (see [`kind_config_spec`]). Unknown
/// kinds get the lone terminator, class 0, init 0x40 and no scorch.
pub fn debris_kind_config(kind: i32) -> (r: (&'static [i16], i32, i32, DebrisScorch))
    ensures
        r.0@ == walk_of(kind_config_spec(kind).0),
        r.1 == kind_config_spec(kind).1,
        r.2 == kind_config_spec(kind).2,
        r.3 == kind_config_spec(kind).3,
{
    match kind {
        1 => (debris_seq_table(1), 6, 0x40, DebrisScorch::Ring),
        2 => (debris_seq_table(2), 0, 0x20, DebrisScorch::Center(3)),
        3 => (debris_seq_table(3), 1, 0x20, DebrisScorch::Ring),
        4 => (debris_seq_table(4), 2, 0x20, DebrisScorch::Ring),
        5 => (debris_seq_table(5), 0, 0x40, DebrisScorch::Ring),
        6 | 12 => (debris_seq_table(6), 6, 0x40, DebrisScorch::Ring),
        7 => (debris_seq_table(7), 0, 0x40, DebrisScorch::Nothing),
        8 => (debris_seq_table(8), 2, 0x20, DebrisScorch::Center(4)),
        9 => (debris_seq_table(9), 3, 0x40, DebrisScorch::Ring),
        10 => (debris_seq_table(10), 0, 0x40, DebrisScorch::Nothing),
        11 => (debris_seq_table(11), 0, 0x40, DebrisScorch::Ring),
        13..=15 => (debris_seq_table(13), 6, 0x40, DebrisScorch::Ring),
        16 => (debris_seq_table(16), 6, 0x40, DebrisScorch::Nothing),
        17 => (debris_seq_table(17), 6, 0x40, DebrisScorch::Nothing),
        18 => (debris_seq_table(18), 6, 0x40, DebrisScorch::Nothing),
        19 => (debris_seq_table(19), 6, 0x40, DebrisScorch::Nothing),
        20 => (debris_seq_table(20), 6, 0x40, DebrisScorch::Ring),
        _ => {
            let t: &'static [i16] = &[-1];
            assert(t@ =~= seq![-1i16]);
            (t, 0, 0x40, DebrisScorch::Nothing)
        },
    }
}

} // verus!
