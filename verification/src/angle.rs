//! Octagonal distance and the 256-direction angle table.
//!
//! Every range and velocity decision of the mission simulation measures
//! distance with the octagonal norm `max(|dx|,|dy|) + min(|dx|,|dy|)/2`,
//! and turns a delta into a direction byte (N=0x00, E=0x40, S=0x80,
//! W=0xC0) through a 64-entry ascending threshold table.

use vstd::prelude::*;

verus! {

/// `|v|` as a mathematical integer.
pub open spec fn abs_i32(v: i32) -> int {
    if v < 0 {
        -(v as int)
    } else {
        v as int
    }
}

/// The octagonal norm `max(|dx|,|dy|) + min(|dx|,|dy|)/2` of a delta.
pub open spec fn oct_norm(dx: i32, dy: i32) -> int {
    let ax = abs_i32(dx);
    let ay = abs_i32(dy);
    if ax > ay {
        ax + ay / 2
    } else {
        ay + ax / 2
    }
}

/// The octagonal distance as the engine computes it: the norm in 32
/// unsigned bits, read back as `i32` (exact whenever it fits).
pub open spec fn dist_oct(dx: i32, dy: i32) -> i32 {
    oct_norm(dx, dy) as i32
}

/// `|v|` as an unsigned 32-bit value (never overflows, `i32::MIN` gives
/// `2^31`).
fn abs_u32(v: i32) -> (r: u32)
    ensures
        r == abs_i32(v),
{
    if v < 0 {
        (0 - (v as i64)) as u32
    } else {
        v as u32
    }
}

/// Octagonal distance `max(|dx|,|dy|) + min(|dx|,|dy|)/2` (the min term
/// rounds down). Non-negative for every delta whose components are
/// above `i32::MIN`.
pub fn dist_octagonal(dx: i32, dy: i32) -> (d: i32)
    ensures
        d == dist_oct(dx, dy),
        oct_norm(dx, dy) <= i32::MAX ==> d == oct_norm(dx, dy),
{
    let ax = abs_u32(dx);
    let ay = abs_u32(dy);
    let (mx, mn) = if ax > ay {
        (ax, ay)
    } else {
        (ay, ax)
    };
    (mx + mn / 2) as i32
}

/// The index of the first threshold at or after `i` that exceeds
/// `ratio`, or `0x3F` when none does.
pub open spec fn first_sector(th: Seq<u16>, ratio: u32, i: nat) -> u32
    decreases 64 - i,
{
    if i >= 64 || i >= th.len() {
        0x3F
    } else if ratio < th[i as int] {
        i as u32
    } else {
        first_sector(th, ratio, i + 1)
    }
}

/// A sector index never exceeds `0x3F`.
proof fn lemma_first_sector_bound(th: Seq<u16>, ratio: u32, i: nat)
    ensures
        first_sector(th, ratio, i) <= 0x3F,
    decreases 64 - i,
{
    if i < 64 && i < th.len() && ratio >= th[i as int] {
        lemma_first_sector_bound(th, ratio, i + 1);
    }
}

/// `|dx| * 0x80 / max(dist >> 8, 1)`, clamped to `0x7FFF`.
pub open spec fn angle_ratio(dx: i32, dy: i32) -> u32 {
    let d = dist_oct(dx, dy);
    let dh: int = if (d >> 8u32) < 1 {
        1
    } else {
        (d >> 8u32) as int
    };
    let r = (abs_i32(dx) * 128) / dh;
    if r > 0x7FFF {
        0x7FFF
    } else {
        r as u32
    }
}

/// The quadrant fold of a sector into the 256-direction byte.
pub open spec fn fold_quadrant(dx: i32, dy: i32, sector: u32) -> u16 {
    if dx >= 0 && dy > 0 {
        (0x7F - sector) as u16
    } else if dx < 0 && dy >= 0 {
        (sector + 0x80) as u16
    } else if dx < 0 && dy <= 0 {
        (0x100 - sector) as u16
    } else {
        sector as u16
    }
}

/// The direction byte of a delta under the threshold table `th`.
pub open spec fn angle_of(th: Seq<u16>, dx: i32, dy: i32) -> u16 {
    fold_quadrant(dx, dy, first_sector(th, angle_ratio(dx, dy), 0))
}

/// The 64-entry sector threshold table, plus (when built from the full
/// 256-word sine file) the byte-angle sine table.
#[derive(Debug, Clone, PartialEq, Eq)]
pub struct AngleTable {
    thresholds: [u16; 64],
    sine: Option<Box<[u16; 256]>>,
}

/// The contents of an [`AngleTable`].
pub struct AngleView {
    pub thresholds: Seq<u16>,
    pub sine: Option<Seq<u16>>,
}

impl View for AngleTable {
    type V = AngleView;

    closed spec fn view(&self) -> AngleView {
        AngleView {
            thresholds: self.thresholds@,
            sine: match self.sine {
                Some(b) => Some((*b)@),
                None => None,
            },
        }
    }
}

/// The sine table read from a file word array: word `i` for the first
/// `min(len, 256)` words, zero past the end.
pub open spec fn sine_words(words: Seq<i16>) -> Seq<u16> {
    Seq::new(256, |i: int| if i < words.len() { words[i] as u16 } else { 0u16 })
}

/// A table is well formed: 64 thresholds, and a sine table of 256 words
/// when there is one.
pub open spec fn angle_wf(a: AngleView) -> bool {
    &&& a.thresholds.len() == 64
    &&& (a.sine matches Some(s) ==> s.len() == 256)
}

impl AngleTable {
    /// The table is well formed (every constructor guarantees it).
    pub open spec fn wf(&self) -> bool {
        angle_wf(self@)
    }

    /// Build from the 256-word sine file, taking words `2..66` as the
    /// thresholds and keeping the whole array (zero past its end) as the
    /// sine table. `None` when fewer than 66 words are given.
    pub fn from_sintable_words(words: &[i16]) -> (r: Option<Self>)
        ensures
            (r is None) <==> words@.len() < 66,
            r matches Some(t) ==> t.wf() && t@.thresholds == Seq::new(
                64,
                |i: int| words@[i + 2] as u16,
            ) && t@.sine == Some(sine_words(words@)),
    {
        if words.len() < 66 {
            return None;
        }
        let mut t = [0u16; 64];
        let mut i: usize = 0;
        while i < 64
            invariant
                i <= 64,
                words@.len() >= 66,
                forall|k: int| 0 <= k < i ==> t@[k] == words@[k + 2] as u16,
            decreases 64 - i,
        {
            t[i] = words[i + 2] as u16;
            i = i + 1;
        }
        let mut sine = [0u16; 256];
        let mut j: usize = 0;
        while j < 256
            invariant
                j <= 256,
                forall|k: int| 0 <= k < j ==> sine@[k] == sine_words(words@)[k],
                forall|k: int| j <= k < 256 ==> sine@[k] == 0,
            decreases 256 - j,
        {
            if j < words.len() {
                sine[j] = words[j] as u16;
            }
            j = j + 1;
        }
        let r = AngleTable { thresholds: t, sine: Some(Box::new(sine)) };
        assert(r@.thresholds =~= Seq::new(64, |i: int| words@[i + 2] as u16));
        assert(sine@ =~= sine_words(words@));
        Some(r)
    }

    /// Build from 64 raw thresholds, without a sine table. `None` when
    /// fewer than 64 words are given.
    pub fn from_thresholds(words: &[u16]) -> (r: Option<Self>)
        ensures
            (r is None) <==> words@.len() < 64,
            r matches Some(t) ==> t.wf() && t@.thresholds == words@.subrange(0, 64) && t@.sine
                is None,
    {
        if words.len() < 64 {
            return None;
        }
        let mut t = [0u16; 64];
        let mut i: usize = 0;
        while i < 64
            invariant
                i <= 64,
                words@.len() >= 64,
                forall|k: int| 0 <= k < i ==> t@[k] == words@[k],
            decreases 64 - i,
        {
            t[i] = words[i];
            i = i + 1;
        }
        let r = AngleTable { thresholds: t, sine: None };
        assert(r@.thresholds =~= words@.subrange(0, 64));
        Some(r)
    }

    /// The byte-angle sine lookup: sine word `index & 0xFF`, or `None`
    /// when the table was built from thresholds only.
    pub fn sine_word(&self, index: u16) -> (r: Option<u16>)
        requires
            self.wf(),
        ensures
            r == (match self@.sine {
                Some(s) => Some(s[(index & 0xFF) as int]),
                None => None,
            }),
    {
        match &self.sine {
            Some(s) => {
                let i = (index & 0xFF) as usize;
                assert((index & 0xFF) < 256) by (bit_vector);
                Some(s[i])
            },
            None => None,
        }
    }

    /// The 256-direction angle byte of a delta: the first sector whose
    /// threshold exceeds `|dx| * 0x80 / max(dist >> 8, 1)` (clamped to
    /// 0x7FFF; 0x3F when none does), folded into the delta's quadrant.
    pub fn angle_byte(&self, dx: i32, dy: i32) -> (a: u16)
        requires
            self.wf(),
        ensures
            a == angle_of(self@.thresholds, dx, dy),
    {
        let dist = dist_octagonal(dx, dy);
        let dist_hi: i32 = if (dist >> 8) < 1 {
            1
        } else {
            dist >> 8
        };
        let ax = abs_u32(dx) as u64;
        assert(ax * 128 == (ax << 7u64)) by (bit_vector)
            requires
                ax < 0x1_0000_0000,
        ;
        let ratio_wide = (ax << 7) / (dist_hi as u64);
        let ratio: u32 = if ratio_wide > 0x7FFF {
            0x7FFF
        } else {
            ratio_wide as u32
        };
        assert(ratio == angle_ratio(dx, dy));
        let mut sector: u32 = 0x3F;
        let mut found = false;
        let mut i: usize = 0;
        while i < 64
            invariant
                i <= 64,
                self.wf(),
                !found ==> first_sector(self@.thresholds, ratio, i as nat) == first_sector(
                    self@.thresholds,
                    ratio,
                    0,
                ),
                found ==> sector == first_sector(self@.thresholds, ratio, 0),
                !found ==> sector == 0x3F,
            decreases 64 - i,
        {
            assert(self@.thresholds.len() == 64);
            if !found && ratio < self.thresholds[i] as u32 {
                sector = i as u32;
                found = true;
            }
            i = i + 1;
        }
        assert(sector == first_sector(self@.thresholds, ratio, 0));
        proof {
            lemma_first_sector_bound(self@.thresholds, ratio, 0);
        }
        if dx >= 0 && dy > 0 {
            0x7F - sector as u16
        } else if dx < 0 && dy >= 0 {
            sector as u16 + 0x80
        } else if dx < 0 && dy <= 0 {
            0x100 - sector as u16
        } else {
            sector as u16
        }
    }
}

} // verus!
