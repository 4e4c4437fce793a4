//! Scripted moving stacks: rectangles of tiles whose column of planes
//! slides one level up or down, frame by frame, when a pad asks for it.
//! Each tile keeps a target word (the levels to run, times 16) and a bias
//! word (bit 7 raising, the low seven bits the frames run so far); every
//! 16th frame the tile's mirror stack shifts by one plane.
use vstd::prelude::*;

use crate::mission::{fits32, journaled, lemma_sim_view, lemma_sim_wf, MissionSim, MissionView};
use crate::destroy::lemma_tile_of;
use crate::sentry::dat_written;

verus! {

/// One elevator rectangle: its state (1 raised, 2 lowered), tile origin
/// and size, and the levels it runs.
#[derive(Debug, Clone, Copy, PartialEq, Eq)]
pub struct Elevator {
    pub state: u16,
    pub x: i32,
    pub y: i32,
    pub w: i32,
    pub h: i32,
    pub levels: u8,
}

/// One row of the claim table: the zone and mission it belongs to, the
/// elevator's index within the mission (which picks its levels), its
/// starting state, and its tile rectangle.
#[derive(Debug, Clone, Copy, PartialEq, Eq)]
pub struct ClaimRect {
    pub zone: u8,
    pub mission: u8,
    pub index: u8,
    pub state: u16,
    pub x: i16,
    pub y: i16,
    pub w: i16,
    pub h: i16,
}

/// The levels an elevator of mission 1 of zone 1 runs, by its index.
pub open spec fn claim_levels(index: u8) -> u8 {
    if index == 4 {
        5
    } else if index == 6 {
        2
    } else {
        1
    }
}

/// Every claim of mission 1 of zone 1 names one of its seven elevators.
pub open spec fn claims_indexed(claims: Seq<ClaimRect>) -> bool {
    forall|k: int|
        0 <= k < claims.len() && (#[trigger] claims[k]).zone == 1 && claims[k].mission == 1
            ==> claims[k].index < 7
}

/// The elevator a claim stages.
pub open spec fn claim_elevator(c: ClaimRect) -> Elevator {
    Elevator {
        state: c.state,
        x: c.x as i32,
        y: c.y as i32,
        w: c.w as i32,
        h: c.h as i32,
        levels: claim_levels(c.index),
    }
}

/// The elevators of mission 1 of zone 1 among `claims`, in table order.
pub open spec fn claimed_elevators(claims: Seq<ClaimRect>) -> Seq<Elevator>
    decreases claims.len(),
{
    if claims.len() == 0 {
        Seq::empty()
    } else {
        let c = claims[0];
        let rest = claimed_elevators(claims.skip(1));
        if c.zone == 1 && c.mission == 1 {
            seq![claim_elevator(c)] + rest
        } else {
            rest
        }
    }
}

/// One step of the claim walk.
proof fn lemma_claimed_step(claims: Seq<ClaimRect>, k: int)
    requires
        0 <= k < claims.len(),
    ensures
        claimed_elevators(claims.skip(k)) == if claims[k].zone == 1 && claims[k].mission == 1 {
            seq![claim_elevator(claims[k])] + claimed_elevators(claims.skip(k + 1))
        } else {
            claimed_elevators(claims.skip(k + 1))
        },
{
    assert(claims.skip(k).skip(1) =~= claims.skip(k + 1));
    assert(claims.skip(k)[0] == claims[k]);
}

/// The levels of an elevator by its index within the mission.
fn level_of_claim(index: u8) -> (r: u8)
    requires
        index < 7,
    ensures
        r == claim_levels(index),
{
    let table: [u8; 7] = [1, 1, 1, 1, 5, 1, 2];
    table[index as usize]
}

/// A byte's low nibble and low seven bits stay in range.
proof fn lemma_byte_masks(b: u8)
    ensures
        b & 15u8 <= 15u8,
        b & 0x7fu8 <= 0x7fu8,
{
    assert(b & 15u8 <= 15u8 && b & 0x7fu8 <= 0x7fu8) by (bit_vector);
}

/// One mirror cell written with a word and a seen byte, journaled.
pub open spec fn cell_written(m: MissionView, c: int, word: u16, seen: u8) -> MissionView {
    MissionView {
        mirror_words: m.mirror_words.update(c, word),
        mirror_seen: m.mirror_seen.update(c, seen),
        terrain_writes: journaled(m.terrain_writes, (c as usize, word, seen)),
        ..m
    }
}

/// The highest plane at or below `z` of the stack at `base` whose mirror
/// word is nonzero; -1 when none.
pub open spec fn top_nonzero(words: Seq<u16>, base: int, z: int) -> int
    decreases z + 1,
{
    if z < 0 {
        -1
    } else if words[base + z] != 0 {
        z
    } else {
        top_nonzero(words, base, z - 1)
    }
}

/// The stack at `base` shifted up from plane `z` down to plane 1: each
/// plane takes the word and seen byte of the one below.
pub open spec fn shift_up(m: MissionView, base: int, z: int) -> MissionView
    decreases z,
{
    if z <= 0 {
        m
    } else {
        shift_up(
            cell_written(m, base + z, m.mirror_words[base + z - 1], m.mirror_seen[base + z - 1]),
            base,
            z - 1,
        )
    }
}

/// The stack at `base` shifted down from plane `z` up to plane 6: each
/// plane takes the word and seen byte of the one above.
pub open spec fn shift_down(m: MissionView, base: int, z: int) -> MissionView
    decreases 7 - z,
{
    if z >= 7 {
        m
    } else {
        shift_down(
            cell_written(m, base + z, m.mirror_words[base + z + 1], m.mirror_seen[base + z + 1]),
            base,
            z + 1,
        )
    }
}

/// Shifting a stack up keeps the lengths of both mirror banks.
proof fn lemma_shift_up_lens(m: MissionView, base: int, z: int)
    requires
        0 <= base,
        z <= 7,
        base + 7 < m.mirror_words.len(),
        m.mirror_seen.len() == m.mirror_words.len(),
    ensures
        shift_up(m, base, z).mirror_words.len() == m.mirror_words.len(),
        shift_up(m, base, z).mirror_seen.len() == m.mirror_seen.len(),
        shift_up(m, base, z).elevators == m.elevators,
    decreases z,
{
    if z > 0 {
        lemma_shift_up_lens(
            cell_written(m, base + z, m.mirror_words[base + z - 1], m.mirror_seen[base + z - 1]),
            base,
            z - 1,
        );
    }
}

/// Shifting a stack down keeps the lengths of both mirror banks.
proof fn lemma_shift_down_lens(m: MissionView, base: int, z: int)
    requires
        0 <= base,
        0 <= z,
        base + 7 < m.mirror_words.len(),
        m.mirror_seen.len() == m.mirror_words.len(),
    ensures
        shift_down(m, base, z).mirror_words.len() == m.mirror_words.len(),
        shift_down(m, base, z).mirror_seen.len() == m.mirror_seen.len(),
        shift_down(m, base, z).elevators == m.elevators,
    decreases 7 - z,
{
    if z < 7 {
        lemma_shift_down_lens(
            cell_written(m, base + z, m.mirror_words[base + z + 1], m.mirror_seen[base + z + 1]),
            base,
            z + 1,
        );
    }
}

/// The column of a raising tile moved up one plane: ground stamped above
/// the highest filled plane, the plane above that cleared (below plane 7),
/// the stack shifted up, and the bottom word cleared when both neighbours
/// east and south move too. `None` when a target index is past its end.
pub open spec fn elev_raise(m: MissionView, x: i32, y: i32, tile: int) -> Option<MissionView> {
    let w = m.terrain.width;
    let h = m.terrain.height;
    let base = tile * 8;
    let hi = top_nonzero(m.mirror_words, base, 7);
    let t2 = dat_written(m.terrain, x, y, (hi + 1) as i32, 1);
    let t3 = if hi < 6 {
        dat_written(t2, x, y, (hi + 2) as i32, 0)
    } else {
        t2
    };
    let m2 = shift_up(MissionView { terrain: t3, ..m }, base, 7);
    let tg = m2.elevator_targets;
    if !(x + 1 < w && y + 1 < h) {
        Some(m2)
    } else if tile + 1 >= tg.len() {
        None
    } else if tg[tile + 1] == 0 {
        Some(m2)
    } else if tile + w >= tg.len() {
        None
    } else if tg[tile + w] == 0 {
        Some(m2)
    } else {
        Some(cell_written(m2, base, 0, m2.mirror_seen[base]))
    }
}

/// The column of a lowering tile moved down one plane: the highest filled
/// plane (above 0) and plane 7 cleared, the stack shifted down and the top
/// cell emptied.
pub open spec fn elev_lower(m: MissionView, x: i32, y: i32, tile: int) -> MissionView {
    let base = tile * 8;
    let hi = top_nonzero(m.mirror_words, base, 7);
    let t2 = if hi > 0 {
        dat_written(m.terrain, x, y, hi as i32, 0)
    } else {
        m.terrain
    };
    let t3 = dat_written(t2, x, y, 7, 0);
    let m2 = shift_down(MissionView { terrain: t3, ..m }, base, 0);
    cell_written(m2, base + 7, 0, 0)
}

/// The frame shown by a moving tile whose bias is `old`: the moving
/// plane's DAT byte (above the highest filled plane when raising, 0x40 up
/// by 2 per frame; at it when lowering, 0x5F down by 2) and the bias
/// counted on.
pub open spec fn elev_frame(m: MissionView, x: i32, y: i32, tile: int, old: u8) -> MissionView {
    let raising = old & 0x80u8 != 0;
    let base = tile * 8;
    let h0 = top_nonzero(
        m.mirror_words,
        base,
        if raising {
            6
        } else {
            7
        },
    );
    let level = if h0 < 0 {
        0
    } else {
        h0
    };
    let frame = old & 15u8;
    let byte: u8 = if raising {
        (0x40 + 2 * frame) as u8
    } else {
        (0x5f - 2 * frame) as u8
    };
    let t1 = dat_written(
        m.terrain,
        x,
        y,
        (level + if raising {
            1int
        } else {
            0int
        }) as i32,
        byte,
    );
    let next: u8 = (old & 0x80u8) | (((old & 0x7fu8) + 1) as u8);
    MissionView { terrain: t1, elevator_bias: m.elevator_bias.update(tile, next), ..m }
}

/// One frame of the elevator tile at `(x, y)` (inside the map): a tile
/// whose bias has reached its target, or whose stack lies past the mirror
/// bank, rests; otherwise it shows its frame (see [`elev_frame`]), and on
/// every 16th frame its column moves (see [`elev_raise`] and
/// [`elev_lower`]). `None` when a bank index is past its end.
pub open spec fn elev_tile(m: MissionView, x: i32, y: i32) -> Option<MissionView> {
    let tile = y * m.terrain.width + x;
    if tile >= m.elevator_bias.len() || tile >= m.elevator_targets.len() {
        None
    } else {
        let old = m.elevator_bias[tile];
        if old & 0x7fu8 == m.elevator_targets[tile] || tile * 8 + 7 >= m.mirror_words.len() {
            Some(m)
        } else {
            let m1 = elev_frame(m, x, y, tile, old);
            if m1.elevator_bias[tile] & 15u8 != 0 {
                Some(m1)
            } else if old & 0x80u8 != 0 {
                elev_raise(m1, x, y, tile)
            } else {
                Some(elev_lower(m1, x, y, tile))
            }
        }
    }
}

/// The tiles of row `y` of rectangle `r` from column `x` on, off-map
/// tiles skipped.
pub open spec fn elev_cols(m: MissionView, r: Elevator, y: int, x: int) -> Option<MissionView>
    decreases r.x + r.w - x,
{
    if x >= r.x + r.w {
        Some(m)
    } else {
        let m1 = if 0 <= x < m.terrain.width && 0 <= y < m.terrain.height {
            elev_tile(m, x as i32, y as i32)
        } else {
            Some(m)
        };
        match m1 {
            None => None,
            Some(mm) => elev_cols(mm, r, y, x + 1),
        }
    }
}

/// The rows of rectangle `r` from row `y` on. `None` when the row end
/// overflows.
pub open spec fn elev_rows(m: MissionView, r: Elevator, y: int) -> Option<MissionView>
    decreases r.y + r.h - y,
{
    if y >= r.y + r.h {
        Some(m)
    } else if !fits32(r.x + r.w) {
        None
    } else {
        match elev_cols(m, r, y, r.x as int) {
            None => None,
            Some(mm) => elev_rows(mm, r, y + 1),
        }
    }
}

/// The elevators from rectangle `k` on, in bank order. `None` on
/// overflow or a bank index past its end.
pub open spec fn elevators_from(m: MissionView, k: nat, n: nat) -> Option<MissionView>
    decreases n - k,
{
    if k >= n {
        Some(m)
    } else {
        let r = m.elevators[k as int];
        if !fits32(r.y + r.h) {
            None
        } else {
            match elev_rows(m, r, r.y as int) {
                None => None,
                Some(mm) => elevators_from(mm, k + 1, n),
            }
        }
    }
}

/// One frame of every elevator tile (see [`elev_tile`]).
pub open spec fn elevators_ticked(m: MissionView) -> Option<MissionView> {
    elevators_from(m, 0, m.elevators.len())
}

/// The request of one tile of a rectangle that wants state `wanted`: a
/// resting tile takes the rectangle's levels times 16 as its target and
/// a fresh bias, raising for state 1. `None` when a bank index is past
/// its end.
pub open spec fn request_tile(m: MissionView, r: Elevator, wanted: u16, x: i32, y: i32) -> Option<MissionView> {
    let tile = y * m.terrain.width + x;
    if tile >= m.elevator_bias.len() || tile >= m.elevator_targets.len() {
        None
    } else if m.elevator_bias[tile] & 0x7fu8 == m.elevator_targets[tile] {
        Some(
            MissionView {
                elevator_targets: m.elevator_targets.update(tile, (((r.levels as u32) << 4u32) as u8)),
                elevator_bias: m.elevator_bias.update(
                    tile,
                    if wanted == 1 {
                        0x80u8
                    } else {
                        0u8
                    },
                ),
                ..m
            },
        )
    } else {
        Some(m)
    }
}

/// The requests of row `y` from column `x` on.
pub open spec fn request_cols(m: MissionView, r: Elevator, wanted: u16, y: int, x: int) -> Option<MissionView>
    decreases r.x + r.w - x,
{
    if x >= r.x + r.w {
        Some(m)
    } else {
        let m1 = if 0 <= x < m.terrain.width && 0 <= y < m.terrain.height {
            request_tile(m, r, wanted, x as i32, y as i32)
        } else {
            Some(m)
        };
        match m1 {
            None => None,
            Some(mm) => request_cols(mm, r, wanted, y, x + 1),
        }
    }
}

/// The requests of the rows from row `y` on.
pub open spec fn request_rows(m: MissionView, r: Elevator, wanted: u16, y: int) -> Option<MissionView>
    decreases r.y + r.h - y,
{
    if y >= r.y + r.h {
        Some(m)
    } else if !fits32(r.x + r.w) {
        None
    } else {
        match request_cols(m, r, wanted, y, r.x as int) {
            None => None,
            Some(mm) => request_rows(mm, r, wanted, y + 1),
        }
    }
}

/// Rectangle `index` asked for state `wanted`: nothing for a missing
/// rectangle, one already in that state, or one past state 2; otherwise
/// its resting tiles start moving (see [`request_tile`]) and it takes the
/// state. `None` on overflow or a bank index past its end.
pub open spec fn elevator_set(m: MissionView, index: int, wanted: u16) -> Option<MissionView> {
    if index < 0 || index >= m.elevators.len() {
        Some(m)
    } else {
        let r = m.elevators[index];
        if r.state == wanted || r.state >= 3 {
            Some(m)
        } else if !fits32(r.y + r.h) {
            None
        } else {
            match request_rows(m, r, wanted, r.y as int) {
                None => None,
                Some(m1) => Some(
                    MissionView { elevators: m1.elevators.update(index, Elevator { state: wanted, ..r }), ..m1 },
                ),
            }
        }
    }
}

impl MissionSim {
    /// The highest filled plane (see [`top_nonzero`]).
    fn top_nonzero_exec(&self, base: usize, z0: i32) -> (r: i32)
        requires
            0 <= z0 <= 7,
            base + 7 < self@.mirror_words.len(),
        ensures
            r == top_nonzero(self@.mirror_words, base as int, z0 as int),
            -1 <= r <= z0,
    {
        proof {
            lemma_sim_view(self);
        }
        let mut z: i32 = z0;
        while z >= 0
            invariant
                -1 <= z <= z0 <= 7,
                base + 7 < self.mirror_words.len(),
                self.mirror_words@ == self@.mirror_words,
                top_nonzero(self@.mirror_words, base as int, z as int) == top_nonzero(
                    self@.mirror_words,
                    base as int,
                    z0 as int,
                ),
            decreases z + 1,
        {
            if self.mirror_words[base + z as usize] != 0 {
                return z;
            }
            z = z - 1;
        }
        -1
    }

    /// The stack shifted up (see [`shift_up`]).
    fn shift_up_exec(&mut self, base: usize)
        requires
            old(self).wf(),
            base + 7 < old(self)@.mirror_words.len(),
        ensures
            final(self).wf(),
            final(self)@ == shift_up(old(self)@, base as int, 7),
            final(self)@.mirror_words.len() == old(self)@.mirror_words.len(),
            final(self)@.mirror_seen.len() == old(self)@.mirror_seen.len(),
            final(self)@.elevators == old(self)@.elevators,
    {
        proof {
            lemma_sim_wf(self);
            lemma_shift_up_lens(self@, base as int, 7);
            lemma_sim_view(self);
        }
        let ghost m0 = self@;
        let mut z: usize = 7;
        while z > 0
            invariant
                self.wf(),
                z <= 7,
                base + 7 < self@.mirror_words.len(),
                base + 7 < self.mirror_words.len(),
                shift_up(self@, base as int, z as int) == shift_up(m0, base as int, 7),
            decreases z,
        {
            proof {
                lemma_sim_view(self);
                lemma_sim_wf(self);
            }
            let word = self.mirror_words[base + z - 1];
            let seen = self.mirror_seen[base + z - 1];
            self.write_mirror_cell(base + z, word, seen);
            z = z - 1;
            proof {
                lemma_sim_view(self);
            }
        }
    }

    /// The stack shifted down (see [`shift_down`]).
    fn shift_down_exec(&mut self, base: usize)
        requires
            old(self).wf(),
            base + 7 < old(self)@.mirror_words.len(),
        ensures
            final(self).wf(),
            final(self)@ == shift_down(old(self)@, base as int, 0),
            final(self)@.mirror_words.len() == old(self)@.mirror_words.len(),
            final(self)@.mirror_seen.len() == old(self)@.mirror_seen.len(),
            final(self)@.elevators == old(self)@.elevators,
    {
        proof {
            lemma_sim_wf(self);
            lemma_shift_down_lens(self@, base as int, 0);
            lemma_sim_view(self);
        }
        let ghost m0 = self@;
        let mut z: usize = 0;
        while z < 7
            invariant
                self.wf(),
                z <= 7,
                base + 7 < self@.mirror_words.len(),
                base + 7 < self.mirror_words.len(),
                shift_down(self@, base as int, z as int) == shift_down(m0, base as int, 0),
            decreases 7 - z,
        {
            proof {
                lemma_sim_view(self);
                lemma_sim_wf(self);
            }
            let word = self.mirror_words[base + z + 1];
            let seen = self.mirror_seen[base + z + 1];
            self.write_mirror_cell(base + z, word, seen);
            z = z + 1;
            proof {
                lemma_sim_view(self);
            }
        }
    }

    /// A raising column moved up (see [`elev_raise`]).
    #[verifier::rlimit(40)]
    fn elev_raise_exec(&mut self, x: i32, y: i32, tile: usize)
        requires
            old(self).wf(),
            0 <= x < old(self)@.terrain.width,
            0 <= y < old(self)@.terrain.height,
            tile == y * old(self)@.terrain.width + x,
            tile * 8 + 7 < old(self)@.mirror_words.len(),
            elev_raise(old(self)@, x, y, tile as int) is Some,
        ensures
            final(self).wf(),
            final(self)@ == elev_raise(old(self)@, x, y, tile as int).unwrap(),
            final(self)@.elevators == old(self)@.elevators,
    {
        proof {
            lemma_sim_view(self);
            lemma_sim_wf(self);
        }
        let (w, h) = self.terrain.size();
        assert(tile * 8 + 7 < self.mirror_words.len());
        let base = tile * 8;
        let hi = self.top_nonzero_exec(base, 7);
        self.terrain.dat_write(x, y, hi + 1, 1);
        if hi < 6 {
            self.terrain.dat_write(x, y, hi + 2, 0);
        }
        proof {
            lemma_sim_view(self);
            lemma_sim_wf(self);
        }
        self.shift_up_exec(base);
        proof {
            lemma_sim_view(self);
            lemma_sim_wf(self);
        }
        if x + 1 < w && y + 1 < h && self.elevator_targets[tile + 1] != 0
            && self.elevator_targets[tile + w as usize] != 0 {
            let seen = self.mirror_seen[base];
            self.write_mirror_cell(base, 0, seen);
        }
    }

    /// A lowering column moved down (see [`elev_lower`]).
    #[verifier::rlimit(40)]
    fn elev_lower_exec(&mut self, x: i32, y: i32, tile: usize)
        requires
            old(self).wf(),
            tile * 8 + 7 < old(self)@.mirror_words.len(),
        ensures
            final(self).wf(),
            final(self)@ == elev_lower(old(self)@, x, y, tile as int),
            final(self)@.elevators == old(self)@.elevators,
    {
        proof {
            lemma_sim_view(self);
            lemma_sim_wf(self);
        }
        assert(tile * 8 + 7 < self.mirror_words.len());
        let base = tile * 8;
        let hi = self.top_nonzero_exec(base, 7);
        if hi > 0 {
            self.terrain.dat_write(x, y, hi, 0);
        }
        self.terrain.dat_write(x, y, 7, 0);
        proof {
            lemma_sim_view(self);
            lemma_sim_wf(self);
        }
        self.shift_down_exec(base);
        proof {
            lemma_sim_view(self);
            lemma_sim_wf(self);
        }
        self.write_mirror_cell(base + 7, 0, 0);
    }

    /// The frame shown by a moving tile (see [`elev_frame`]).
    #[verifier::rlimit(40)]
    fn elev_frame_exec(&mut self, x: i32, y: i32, tile: usize, bias: u8)
        requires
            old(self).wf(),
            tile < old(self)@.elevator_bias.len(),
            tile * 8 + 7 < old(self)@.mirror_words.len(),
        ensures
            final(self).wf(),
            final(self)@ == elev_frame(old(self)@, x, y, tile as int, bias),
            final(self)@.elevators == old(self)@.elevators,
    {
        proof {
            lemma_sim_view(self);
            lemma_sim_wf(self);
            lemma_byte_masks(bias);
        }
        let raising = bias & 0x80 != 0;
        assert(tile * 8 + 7 < self.mirror_words.len());
        let base = tile * 8;
        let h0 = self.top_nonzero_exec(
            base,
            if raising {
                6
            } else {
                7
            },
        );
        let level = if h0 < 0 {
            0
        } else {
            h0
        };
        let frame = bias & 15;
        let byte: u8 = if raising {
            0x40 + 2 * frame
        } else {
            0x5f - 2 * frame
        };
        self.terrain.dat_write(
            x,
            y,
            level + if raising {
                1
            } else {
                0
            },
            byte,
        );
        let next: u8 = (bias & 0x80) | ((bias & 0x7f) + 1);
        self.elevator_bias.set(tile, next);
        proof {
            lemma_sim_view(self);
            lemma_sim_wf(self);
        }
    }

    /// One frame of an elevator tile (see [`elev_tile`]).
    #[verifier::rlimit(40)]
    fn elev_tile_exec(&mut self, x: i32, y: i32)
        requires
            old(self).wf(),
            0 <= x < old(self)@.terrain.width,
            0 <= y < old(self)@.terrain.height,
            elev_tile(old(self)@, x, y) is Some,
        ensures
            final(self).wf(),
            final(self)@ == elev_tile(old(self)@, x, y).unwrap(),
            final(self)@.elevators == old(self)@.elevators,
    {
        proof {
            lemma_sim_view(self);
            lemma_sim_wf(self);
        }
        let (w, h) = self.terrain.size();
        proof {
            lemma_tile_of(x as int, y as int, w as int, h as int);
            assert(w * h <= 8 * w * h) by (nonlinear_arith)
                requires
                    0 < w,
                    0 < h,
            ;
        }
        let tile = (y * w + x) as usize;
        let old = self.elevator_bias[tile];
        if old & 0x7f == self.elevator_targets[tile] || (tile as u64) * 8 + 7 >= self.mirror_words.len() as u64 {
            return;
        }
        self.elev_frame_exec(x, y, tile, old);
        proof {
            lemma_sim_view(self);
            lemma_sim_wf(self);
        }
        if self.elevator_bias[tile] & 15 != 0 {
            return;
        }
        if old & 0x80 != 0 {
            self.elev_raise_exec(x, y, tile);
        } else {
            self.elev_lower_exec(x, y, tile);
        }
    }

    /// Row `y` of rectangle `r` (see [`elev_cols`]).
    fn elev_cols_exec(&mut self, r: Elevator, y: i32)
        requires
            old(self).wf(),
            fits32(r.x + r.w),
            elev_cols(old(self)@, r, y as int, r.x as int) is Some,
        ensures
            final(self).wf(),
            final(self)@ == elev_cols(old(self)@, r, y as int, r.x as int).unwrap(),
            final(self)@.elevators == old(self)@.elevators,
    {
        proof {
            lemma_sim_view(self);
        }
        let ghost m0 = self@;
        let end = r.x + r.w;
        let mut x = r.x;
        while x < end
            invariant
                self.wf(),
                end == r.x + r.w,
                self@.elevators == m0.elevators,
                elev_cols(self@, r, y as int, x as int) == elev_cols(m0, r, y as int, r.x as int),
                elev_cols(m0, r, y as int, r.x as int) is Some,
            decreases end - x,
        {
            proof {
                lemma_sim_view(self);
            }
            let (w, h) = self.terrain.size();
            if 0 <= x && x < w && 0 <= y && y < h {
                self.elev_tile_exec(x, y);
            }
            x = x + 1;
        }
    }

    /// The rows of rectangle `r` (see [`elev_rows`]).
    fn elev_rows_exec(&mut self, r: Elevator)
        requires
            old(self).wf(),
            fits32(r.y + r.h),
            elev_rows(old(self)@, r, r.y as int) is Some,
        ensures
            final(self).wf(),
            final(self)@ == elev_rows(old(self)@, r, r.y as int).unwrap(),
            final(self)@.elevators == old(self)@.elevators,
    {
        let ghost m0 = self@;
        let end = r.y + r.h;
        let mut y = r.y;
        while y < end
            invariant
                self.wf(),
                end == r.y + r.h,
                self@.elevators == m0.elevators,
                elev_rows(self@, r, y as int) == elev_rows(m0, r, r.y as int),
                elev_rows(m0, r, r.y as int) is Some,
            decreases end - y,
        {
            self.elev_cols_exec(r, y);
            y = y + 1;
        }
    }

    /// One frame of every elevator (see [`elevators_ticked`]): each tile
    /// of each rectangle that has not reached its target runs one frame
    /// of its move, and every 16th frame its column of planes shifts.
    pub fn elevator_tick(&mut self)
        requires
            old(self).wf(),
            elevators_ticked(old(self)@) is Some,
        ensures
            final(self).wf(),
            final(self)@ == elevators_ticked(old(self)@).unwrap(),
    {
        proof {
            lemma_sim_view(self);
        }
        let ghost m0 = self@;
        let n = self.elevators.len();
        let mut k: usize = 0;
        while k < n
            invariant
                self.wf(),
                k <= n,
                n == m0.elevators.len(),
                self@.elevators == m0.elevators,
                elevators_from(self@, k as nat, n as nat) == elevators_ticked(m0),
                elevators_ticked(m0) is Some,
            decreases n - k,
        {
            proof {
                lemma_sim_view(self);
            }
            let r = self.elevators[k];
            self.elev_rows_exec(r);
            k = k + 1;
        }
    }

    /// The request of one tile (see [`request_tile`]).
    fn request_tile_exec(&mut self, r: Elevator, wanted: u16, x: i32, y: i32)
        requires
            old(self).wf(),
            0 <= x < old(self)@.terrain.width,
            0 <= y < old(self)@.terrain.height,
            request_tile(old(self)@, r, wanted, x, y) is Some,
        ensures
            final(self).wf(),
            final(self)@ == request_tile(old(self)@, r, wanted, x, y).unwrap(),
            final(self)@.elevators == old(self)@.elevators,
    {
        proof {
            lemma_sim_view(self);
            lemma_sim_wf(self);
        }
        let (w, h) = self.terrain.size();
        proof {
            assert(y * w + x < w * h) by (nonlinear_arith)
                requires
                    0 <= x < w,
                    0 <= y < h,
            ;
            assert(8 * (w * h) == 8 * w * h) by (nonlinear_arith);
        }
        let tile = (y * w + x) as usize;
        if self.elevator_bias[tile] & 0x7f == self.elevator_targets[tile] {
            self.elevator_targets.set(tile, ((r.levels as u32) << 4u32) as u8);
            self.elevator_bias.set(
                tile,
                if wanted == 1 {
                    0x80
                } else {
                    0
                },
            );
            proof {
                lemma_sim_view(self);
                lemma_sim_wf(self);
            }
        }
    }

    /// The requests of row `y` (see [`request_cols`]).
    fn request_cols_exec(&mut self, r: Elevator, wanted: u16, y: i32)
        requires
            old(self).wf(),
            fits32(r.x + r.w),
            request_cols(old(self)@, r, wanted, y as int, r.x as int) is Some,
        ensures
            final(self).wf(),
            final(self)@ == request_cols(old(self)@, r, wanted, y as int, r.x as int).unwrap(),
            final(self)@.elevators == old(self)@.elevators,
    {
        let ghost m0 = self@;
        let end = r.x + r.w;
        let mut x = r.x;
        while x < end
            invariant
                self.wf(),
                end == r.x + r.w,
                self@.elevators == m0.elevators,
                request_cols(self@, r, wanted, y as int, x as int) == request_cols(m0, r, wanted, y as int, r.x as int),
                request_cols(m0, r, wanted, y as int, r.x as int) is Some,
            decreases end - x,
        {
            proof {
                lemma_sim_view(self);
            }
            let (w, h) = self.terrain.size();
            if 0 <= x && x < w && 0 <= y && y < h {
                self.request_tile_exec(r, wanted, x, y);
            }
            x = x + 1;
        }
    }

    /// Ask rectangle `index` for state `wanted` (1 raised, 2 lowered; see
    /// [`elevator_set`]).
    pub fn set_elevator(&mut self, index: usize, wanted: u16)
        requires
            old(self).wf(),
            elevator_set(old(self)@, index as int, wanted) is Some,
        ensures
            final(self).wf(),
            final(self)@ == elevator_set(old(self)@, index as int, wanted).unwrap(),
    {
        proof {
            lemma_sim_view(self);
        }
        if index >= self.elevators.len() {
            return;
        }
        let r = self.elevators[index];
        if r.state == wanted || r.state >= 3 {
            return;
        }
        let ghost m0 = self@;
        let end = r.y + r.h;
        let mut y = r.y;
        while y < end
            invariant
                self.wf(),
                end == r.y + r.h,
                self@.elevators == m0.elevators,
                request_rows(self@, r, wanted, y as int) == request_rows(m0, r, wanted, r.y as int),
                request_rows(m0, r, wanted, r.y as int) is Some,
            decreases end - y,
        {
            self.request_cols_exec(r, wanted, y);
            y = y + 1;
        }
        proof {
            lemma_sim_view(self);
            lemma_sim_wf(self);
        }
        let mut r2 = r;
        r2.state = wanted;
        self.elevators.set(index, r2);
        proof {
            lemma_sim_view(self);
            lemma_sim_wf(self);
        }
    }

    /// Stage the elevators: the per-tile target and bias banks start at
    /// zero over the map, and on mission 1 of zone 1 outside network mode 2
    /// the rectangles are those of `claims` tagged for that mission (see
    /// [`claimed_elevators`]); elsewhere there are none.
    pub fn stage_elevators(&mut self, claims: Vec<ClaimRect>)
        requires
            old(self).wf(),
            claims_indexed(claims@),
        ensures
            final(self).wf(),
            final(self)@ == (MissionView {
                elevators: if old(self)@.zone == 1 && old(self)@.mission_no == 1
                    && old(self)@.network_mode != 2 {
                    claimed_elevators(claims@)
                } else {
                    Seq::empty()
                },
                elevator_targets: Seq::new(
                    (old(self)@.terrain.width * old(self)@.terrain.height) as nat,
                    |i: int| 0u8,
                ),
                elevator_bias: Seq::new(
                    (old(self)@.terrain.width * old(self)@.terrain.height) as nat,
                    |i: int| 0u8,
                ),
                ..old(self)@
            }),
    {
        proof {
            lemma_sim_view(self);
            lemma_sim_wf(self);
        }
        let (w, h) = self.terrain.size();
        proof {
            assert(w * h <= 8 * w * h) by (nonlinear_arith)
                requires
                    w > 0,
                    h > 0,
            ;
        }
        let n = (w * h) as usize;
        let mut t: Vec<u8> = Vec::new();
        let mut i: usize = 0;
        while i < n
            invariant
                i <= n,
                t@ == Seq::new(i as nat, |k: int| 0u8),
            decreases n - i,
        {
            t.push(0);
            i = i + 1;
            assert(t@ =~= Seq::new(i as nat, |k: int| 0u8));
        }
        self.elevator_bias = t.clone();
        self.elevator_targets = t;
        let mut rects: Vec<Elevator> = Vec::new();
        if self.zone == 1 && self.mission_no == 1 && self.network_mode != 2 {
            let mut k: usize = 0;
            proof {
                assert(claims@.skip(0) =~= claims@);
                assert(rects@ + claimed_elevators(claims@) =~= claimed_elevators(claims@));
            }
            while k < claims.len()
                invariant
                    k <= claims.len(),
                    claims_indexed(claims@),
                    claimed_elevators(claims@) == rects@ + claimed_elevators(claims@.skip(k as int)),
                decreases claims.len() - k,
            {
                let c = claims[k];
                proof {
                    lemma_claimed_step(claims@, k as int);
                }
                if c.zone == 1 && c.mission == 1 {
                    let levels: u8 = level_of_claim(c.index);
                    rects.push(
                        Elevator { state: c.state, x: c.x as i32, y: c.y as i32, w: c.w as i32, h: c.h as i32, levels },
                    );
                }
                k = k + 1;
            }
            proof {
                assert(claims@.skip(claims@.len() as int) =~= Seq::<ClaimRect>::empty());
                assert(rects@ + Seq::<Elevator>::empty() =~= rects@);
            }
        }
        self.elevators = rects;
        proof {
            lemma_sim_view(self);
            lemma_sim_wf(self);
        }
    }

    /// The per-tile bias bank (see the module documentation).
    pub fn elevator_bias(&self) -> (r: &[u8])
        ensures
            r@ == self@.elevator_bias,
    {
        proof {
            lemma_sim_view(self);
        }
        self.elevator_bias.as_slice()
    }
}

} // verus!
