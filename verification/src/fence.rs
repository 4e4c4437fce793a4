//! The delayed fence shutdown: destroying a fence generator schedules a
//! timer whose payload names the fence-origin objects it takes down eight
//! ticks later; the radar marks generators and their linked origins.

use vstd::prelude::*;

use crate::destroy::{dat_written, zcell, ObjectInstance};
use crate::mission::{
    journaled, lemma_sim_view, lemma_sim_wf, sim_wf, MissionSim, MissionView, PICKUP_FLOOR_WORD,
};

verus! {

/// The zone-2 mission-2 generator payloads for ids 0x70..=0x75.
pub const FENCE_B2_PAYLOADS: [u32; 6] = [0x67, 0x68, 0x69, 0x6d, 0x64, 0x65];

/// The shutdown payload of a generator id: up to two linked origin ids
/// (low and high byte); 0 in head-to-head games and for ids that are no
/// generator of the current zone and mission.
pub open spec fn payload_of(m: MissionView, id: i32) -> u32 {
    if m.network_mode == 2 {
        0
    } else if m.zone == 1 && m.mission_no == 1 && id == 0x85 {
        0x847f
    } else if m.zone == 1 && m.mission_no == 1 && id == 0x86 {
        0x83
    } else if m.zone == 2 && m.mission_no == 2 && 0x70 <= id <= 0x75 {
        FENCE_B2_PAYLOADS@[id - 0x70]
    } else {
        0
    }
}

/// The first idle timer (payload 0) from slot `i` on.
pub open spec fn idle_timer_from(t: Seq<(u32, u16)>, i: int) -> Option<int>
    decreases t.len() - i,
{
    if i < 0 || i >= t.len() {
        None
    } else if t[i].0 == 0 {
        Some(i)
    } else {
        idle_timer_from(t, i + 1)
    }
}

/// The simulation after destroying generator `id` schedules its
/// shutdown: a nonzero payload takes the first idle timer (slot 0 when
/// none is idle) with a countdown of 8.
pub open spec fn shutdown_scheduled(m: MissionView, id: i32) -> MissionView {
    let p = payload_of(m, id);
    if p == 0 {
        m
    } else {
        let slot = match idle_timer_from(m.fence_timers, 0) {
            Some(i) => i,
            None => 0,
        };
        MissionView { fence_timers: m.fence_timers.update(slot, (p, 8u16)), ..m }
    }
}

/// The simulation after object `i` is checked against origin `id`: a
/// live object of that id is destroyed, its DAT byte cleared, and on the
/// map at a level in 0..8 its mirror cell takes the zone's floor word
/// (seen 1) when the zone indexes the floor table and the mirror is
/// staged there.
pub open spec fn origin_cleared(m: MissionView, id: i32, i: int) -> MissionView {
    let o = m.objects[i];
    if o.id != id || o.destroyed {
        m
    } else {
        let m1 = MissionView {
            objects: m.objects.update(i, ObjectInstance { destroyed: true, ..o }),
            terrain: dat_written(m.terrain, o.x as int, o.y as int, o.z as int, 0),
            ..m
        };
        match zcell(m1, o.x, o.y, o.z) {
            None => m1,
            Some(c) => if m1.zone < 7 && c < m1.mirror_words.len() {
                let floor = PICKUP_FLOOR_WORD@[m1.zone as int] as u16;
                MissionView {
                    mirror_words: m1.mirror_words.update(c, floor),
                    mirror_seen: m1.mirror_seen.update(c, 1),
                    terrain_writes: journaled(m1.terrain_writes, (c as usize, floor, 1u8)),
                    ..m1
                }
            } else {
                m1
            },
        }
    }
}

/// The simulation after origin `id` is cleared over objects `0..k`
/// (nothing for id 0).
pub open spec fn origins_cleared(m: MissionView, id: i32, k: nat) -> MissionView
    decreases k,
{
    if id == 0 || k == 0 || k > m.objects.len() {
        m
    } else {
        origin_cleared(origins_cleared(m, id, (k - 1) as nat), id, k - 1)
    }
}

/// The simulation after timer `slot` ticks: an idle timer does nothing,
/// a counting one counts down, an expired one clears its low-byte then
/// its high-byte origins over every object and goes idle.
pub open spec fn timer_ticked(m: MissionView, slot: int) -> MissionView {
    let (p, c) = m.fence_timers[slot];
    if p == 0 {
        m
    } else if c != 0 {
        MissionView { fence_timers: m.fence_timers.update(slot, (p, (c - 1) as u16)), ..m }
    } else {
        let n = m.objects.len();
        let m1 = origins_cleared(m, (p & 0xff) as i32, n);
        let m2 = origins_cleared(m1, (p >> 8u32) as i32, n);
        MissionView { fence_timers: m2.fence_timers.update(slot, (0u32, c)), ..m2 }
    }
}

/// The simulation after timers `0..k` tick, in slot order.
pub open spec fn timers_ticked(m: MissionView, k: nat) -> MissionView
    decreases k,
{
    if k == 0 || k > 32 {
        m
    } else {
        timer_ticked(timers_ticked(m, (k - 1) as nat), k - 1)
    }
}

/// Object `o` is a fence origin some generator among `objs` links to.
pub open spec fn is_fence_target(m: MissionView, objs: Seq<ObjectInstance>, o: ObjectInstance) -> bool {
    exists|j: int|
        0 <= j < objs.len() && {
            let p = payload_of(m, #[trigger] objs[j].id);
            (p & 0xff != 0 && (p & 0xff) as i32 == o.id) || ((p >> 8u32) & 0xff != 0 && ((p
                >> 8u32) & 0xff) as i32 == o.id)
        }
}

/// The radar marks of objects `0..k`: every live generator as icon 9 and
/// every live linked origin as icon 10, with its tile, in object order.
pub open spec fn radar_marks(m: MissionView, k: nat) -> Seq<(usize, i32, i32)>
    decreases k,
{
    if k == 0 || k > m.objects.len() {
        Seq::empty()
    } else {
        let prev = radar_marks(m, (k - 1) as nat);
        let o = m.objects[k - 1];
        if o.destroyed {
            prev
        } else if payload_of(m, o.id) != 0 {
            prev.push((9usize, o.x, o.y))
        } else if is_fence_target(m, m.objects, o) {
            prev.push((10usize, o.x, o.y))
        } else {
            prev
        }
    }
}

impl MissionSim {
    /// The shutdown payload of a generator id (see [`payload_of`]).
    pub fn fence_payload(&self, id: i32) -> (p: u32)
        ensures
            p == payload_of(self@, id),
    {
        proof {
            lemma_sim_view(self);
        }
        if self.network_mode == 2 {
            0
        } else if self.zone == 1 && self.mission_no == 1 && id == 0x85 {
            0x847f
        } else if self.zone == 1 && self.mission_no == 1 && id == 0x86 {
            0x83
        } else if self.zone == 2 && self.mission_no == 2 && 0x70 <= id && id <= 0x75 {
            FENCE_B2_PAYLOADS[(id - 0x70) as usize]
        } else {
            0
        }
    }

    /// Schedule the shutdown of generator `id` (see
    /// [`shutdown_scheduled`]).
    pub fn schedule_fence_shutdown(&mut self, id: i32)
        requires
            old(self).wf(),
        ensures
            final(self).wf(),
            final(self)@ == shutdown_scheduled(old(self)@, id),
    {
        let ghost m0 = self@;
        proof {
            lemma_sim_view(self);
            lemma_sim_wf(self);
        }
        let p = self.fence_payload(id);
        if p == 0 {
            return;
        }
        let mut slot: usize = 0;
        let mut i: usize = 0;
        let mut found = false;
        while i < 32 && !found
            invariant
                i <= 32,
                self.fence_timers@ == m0.fence_timers,
                m0.fence_timers.len() == 32,
                found ==> slot < 32 && idle_timer_from(m0.fence_timers, 0) == Some(slot as int),
                !found ==> idle_timer_from(m0.fence_timers, 0) == idle_timer_from(
                    m0.fence_timers,
                    i as int,
                ),
                !found ==> slot == 0,
            decreases 32 - i + (if found {
                0int
            } else {
                1int
            }),
        {
            if self.fence_timers[i].0 == 0 {
                slot = i;
                found = true;
            } else {
                i = i + 1;
            }
        }
        self.fence_timers[slot] = (p, 8);
        proof {
            lemma_sim_view(self);
            lemma_sim_wf(self);
            assert(self@ =~= shutdown_scheduled(m0, id));
        }
    }

    /// Clear origin `id` at object `i` (see [`origin_cleared`]).
    fn clear_origin(&mut self, id: i32, i: usize)
        requires
            old(self).wf(),
            i < old(self)@.objects.len(),
        ensures
            final(self).wf(),
            final(self)@ == origin_cleared(old(self)@, id, i as int),
    {
        let ghost m0 = self@;
        proof {
            lemma_sim_view(self);
            lemma_sim_wf(self);
        }
        let o = self.objects[i];
        if o.id != id || o.destroyed {
            return;
        }
        self.objects.set(i, ObjectInstance { destroyed: true, ..o });
        self.terrain.dat_write(o.x, o.y, o.z, 0);
        proof {
            lemma_sim_view(self);
            lemma_sim_wf(self);
        }
        let ghost m1 = self@;
        let (w, h) = self.terrain.size();
        if o.x < 0 || o.y < 0 || o.x >= w || o.y >= h || o.z < 0 || o.z >= 8 {
            return;
        }
        if self.zone < 7 {
            let floor = PICKUP_FLOOR_WORD[self.zone as usize];
            proof {
                crate::destroy::lemma_tile_of(o.x as int, o.y as int, w as int, h as int);
                assert(8 * (w * h) <= i32::MAX) by (nonlinear_arith)
                    requires
                        8 * w * h <= i32::MAX,
                        w > 0,
                        h > 0,
                ;
            }
            let c = ((o.y * w + o.x) * 8 + o.z) as usize;
            if c < self.mirror_words.len() {
                self.write_mirror_cell(c, floor as u16, 1);
            }
        }
        proof {
            lemma_sim_view(self);
            lemma_sim_wf(self);
            assert(self@ =~= origin_cleared(m0, id, i as int));
        }
    }

    /// Tick timer `slot` (see [`timer_ticked`]).
    fn tick_timer(&mut self, slot: usize)
        requires
            old(self).wf(),
            slot < 32,
        ensures
            final(self).wf(),
            final(self)@ == timer_ticked(old(self)@, slot as int),
    {
        let ghost m0 = self@;
        proof {
            lemma_sim_view(self);
            lemma_sim_wf(self);
        }
        let (p, c) = self.fence_timers[slot];
        if p == 0 {
            return;
        }
        if c != 0 {
            self.fence_timers[slot] = (p, c - 1);
            proof {
                lemma_sim_view(self);
                lemma_sim_wf(self);
                assert(self@ =~= timer_ticked(m0, slot as int));
            }
            return;
        }
        let n = self.objects.len();
        let lo = (p & 0xff) as i32;
        let hi = (p >> 8) as i32;
        assert(p >> 8 <= 0xFF_FFFF) by (bit_vector);
        self.clear_origins(lo, n);
        self.clear_origins(hi, n);
        proof {
            lemma_sim_view(self);
            lemma_sim_wf(self);
        }
        self.fence_timers[slot] = (0, c);
        proof {
            lemma_sim_view(self);
            lemma_sim_wf(self);
            assert(self@ =~= timer_ticked(m0, slot as int));
        }
    }

    /// Clear origin `id` over objects `0..n` (see [`origins_cleared`]).
    fn clear_origins(&mut self, id: i32, n: usize)
        requires
            old(self).wf(),
            n == old(self)@.objects.len(),
        ensures
            final(self).wf(),
            final(self)@ == origins_cleared(old(self)@, id, n as nat),
            final(self)@.objects.len() == n,
    {
        let ghost m0 = self@;
        if id == 0 {
            return;
        }
        let mut k: usize = 0;
        while k < n
            invariant
                k <= n,
                id != 0,
                self.wf(),
                n == m0.objects.len(),
                self@ == origins_cleared(m0, id, k as nat),
                self@.objects.len() == n,
            decreases n - k,
        {
            self.clear_origin(id, k);
            k = k + 1;
        }
    }

    /// Tick every fence timer, in slot order (see [`timers_ticked`]).
    pub fn fence_tick(&mut self)
        requires
            old(self).wf(),
        ensures
            final(self).wf(),
            final(self)@ == timers_ticked(old(self)@, 32),
    {
        let ghost m0 = self@;
        let mut slot: usize = 0;
        while slot < 32
            invariant
                slot <= 32,
                self.wf(),
                self@ == timers_ticked(m0, slot as nat),
            decreases 32 - slot,
        {
            self.tick_timer(slot);
            slot = slot + 1;
        }
    }

    /// Whether `o` is an origin some generator links to.
    fn fence_target(&self, o: ObjectInstance) -> (r: bool)
        ensures
            r == is_fence_target(self@, self@.objects, o),
    {
        proof {
            lemma_sim_view(self);
        }
        let mut j: usize = 0;
        while j < self.objects.len()
            invariant
                j <= self@.objects.len(),
                self.objects@ == self@.objects,
                forall|k: int|
                    0 <= k < j ==> {
                        let p = payload_of(self@, #[trigger] self@.objects[k].id);
                        !((p & 0xff != 0 && (p & 0xff) as i32 == o.id) || ((p >> 8u32) & 0xff != 0
                            && ((p >> 8u32) & 0xff) as i32 == o.id))
                    },
            decreases self@.objects.len() - j,
        {
            let p = self.fence_payload(self.objects[j].id);
            let a = p & 0xff;
            let b = (p >> 8) & 0xff;
            if (a != 0 && a as i32 == o.id) || (b != 0 && b as i32 == o.id) {
                return true;
            }
            j = j + 1;
        }
        false
    }

    /// The radar marks of the fence family (see [`radar_marks`]): icon 9
    /// for each live generator, icon 10 for each live linked origin.
    pub fn fence_radar_objects(&self) -> (r: Vec<(usize, i32, i32)>)
        ensures
            r@ == radar_marks(self@, self@.objects.len()),
    {
        proof {
            lemma_sim_view(self);
        }
        let mut out: Vec<(usize, i32, i32)> = Vec::new();
        let mut k: usize = 0;
        while k < self.objects.len()
            invariant
                k <= self@.objects.len(),
                self.objects@ == self@.objects,
                out@ == radar_marks(self@, k as nat),
            decreases self@.objects.len() - k,
        {
            let o = self.objects[k];
            if !o.destroyed {
                if self.fence_payload(o.id) != 0 {
                    out.push((9, o.x, o.y));
                } else if self.fence_target(o) {
                    out.push((10, o.x, o.y));
                }
            }
            k = k + 1;
        }
        out
    }
}

} // verus!
