//! Properties of the mission simulation that span several operations or
//! every state: the capped scorch mirror and its fade, the one pending
//! order, the finality of a death, the determinism of frames and of the
//! state hash, what the staged object grid names, and the idle destroy
//! family leaving frames alone.

use vstd::prelude::*;

use crate::debris::{debris_ticked, debris_ticked_one, debris_ticked_upto};
use crate::destroy::{covers, destroy_staged, stamp_grid, type_of, ObjectInstance};
use crate::fence::{timer_ticked, timers_ticked};
use crate::le::{le_bytes_u64, lemma_u32_round_trip};
use crate::objects::ObjectTypeView;
use crate::mission::{
    arm_result, damage_result, debris_pads, faded, frame_result, grown, hash_bytes, latch_bytes,
    le_i32, no_damage, order_bytes, probe_bytes, ring_pads, robot_bytes, robots_bytes,
    scorch_add_pads, scorch_pads, target_bytes, MissionView, Robot, armor_pass, pad_byte,
};

verus! {

/// Every byte of a pad mirror is a scorch level of at most 7.
pub open spec fn pads_capped(p: Seq<u8>) -> bool {
    forall|i: int| 0 <= i < p.len() ==> #[trigger] p[i] <= 7
}

/// The pads after `k` frames of fade.
pub open spec fn faded_times(p: Seq<u8>, k: nat) -> Seq<u8>
    decreases k,
{
    if k == 0 {
        p
    } else {
        faded(faded_times(p, (k - 1) as nat))
    }
}

/// The simulation after `n` frames, `None` when a frame overflows.
pub open spec fn run_frames(m: MissionView, n: nat) -> Option<MissionView>
    decreases n,
{
    if n == 0 {
        Some(m)
    } else {
        match run_frames(m, (n - 1) as nat) {
            None => None,
            Some(m1) => frame_result(m1),
        }
    }
}

proof fn lemma_grown_capped(p: Seq<u8>, t: int)
    requires
        pads_capped(p),
    ensures
        pads_capped(grown(p, t)),
{
    assert forall|i: int| 0 <= i < grown(p, t).len() implies #[trigger] grown(p, t)[i] <= 7 by {
        if i < p.len() {
            assert(grown(p, t)[i] == p[i]);
        }
    }
}

/// Scorch writes, absolute or incrementing, and the per-frame fade never
/// leave a pad byte above 7 when none was before.
pub proof fn lemma_scorch_keeps_pads_capped(p: Seq<u8>, w: int, h: int, wx: i32, wy: i32, value: u8)
    requires
        pads_capped(p),
    ensures
        pads_capped(scorch_pads(p, w, h, wx, wy, value)),
        pads_capped(scorch_add_pads(p, w, h, wx, wy, value)),
        pads_capped(faded(p)),
{
    match crate::mission::scorch_tile(w, h, wx, wy) {
        None => {},
        Some(t) => {
            lemma_grown_capped(p, t);
        },
    }
    assert forall|i: int| 0 <= i < faded(p).len() implies #[trigger] faded(p)[i] <= 7 by {
        assert(p[i] <= 7);
    }
}

proof fn lemma_ring_keeps_pads_capped(
    p: Seq<u8>,
    w: int,
    h: int,
    d: (i32, i32, i32, i32),
    j: nat,
)
    requires
        pads_capped(p),
    ensures
        pads_capped(ring_pads(p, w, h, d, j)),
    decreases j,
{
    if j != 0 && j <= 9 {
        lemma_ring_keeps_pads_capped(p, w, h, d, (j - 1) as nat);
        let q = ring_pads(p, w, h, d, (j - 1) as nat);
        let e = crate::mission::DEBRIS_SCORCH_RING@[j - 1];
        lemma_scorch_keeps_pads_capped(q, w, h, (d.0 + e.0) as i32, (d.1 + e.1) as i32, e.2);
    }
}

proof fn lemma_debris_keeps_pads_capped(
    p: Seq<u8>,
    w: int,
    h: int,
    rng: (u64, u64),
    r: Robot,
    k: nat,
)
    requires
        pads_capped(p),
    ensures
        pads_capped(debris_pads(p, w, h, rng, r, k)),
    decreases k,
{
    if k != 0 {
        lemma_debris_keeps_pads_capped(p, w, h, rng, r, (k - 1) as nat);
        lemma_ring_keeps_pads_capped(
            debris_pads(p, w, h, rng, r, (k - 1) as nat),
            w,
            h,
            crate::mission::debris_row(rng, r, k - 1),
            9,
        );
    }
}

/// A hit, fatal or not, keeps the armor-pad mirror capped at 7: the
/// scorch rings a death writes saturate like every other scorch write.
pub proof fn lemma_damage_keeps_pads_capped(m: MissionView, idx: usize, damage: i32)
    requires
        pads_capped(m.armor_pads),
    ensures
        pads_capped(damage_result(m, idx, damage).0.armor_pads),
{
    if idx < m.robots.len() {
        let r = m.robots[idx as int];
        let r2 = crate::mission::hit_robot(r, damage, m.player_type);
        lemma_debris_keeps_pads_capped(
            m.armor_pads,
            m.terrain.width,
            m.terrain.height,
            m.rng,
            r2,
            5,
        );
    }
}

/// After `k` frames of fade every pad byte has dropped by `k`, stopping
/// at 0.
pub proof fn lemma_fade_times(p: Seq<u8>, k: nat)
    ensures
        faded_times(p, k).len() == p.len(),
        forall|i: int|
            0 <= i < p.len() ==> #[trigger] faded_times(p, k)[i] == (if p[i] > k {
                p[i] - k
            } else {
                0
            }),
    decreases k,
{
    if k > 0 {
        lemma_fade_times(p, (k - 1) as nat);
    }
}

/// A capped pad mirror fades out completely within seven frames.
pub proof fn lemma_capped_pads_clear_in_seven_frames(p: Seq<u8>)
    requires
        pads_capped(p),
    ensures
        forall|i: int| 0 <= i < p.len() ==> #[trigger] faded_times(p, 7)[i] == 0,
{
    lemma_fade_times(p, 7);
    assert forall|i: int| 0 <= i < p.len() implies #[trigger] faded_times(p, 7)[i] == 0 by {
        assert(p[i] <= 7);
    }
}

/// A robot that a hit killed takes no further damage: the next hit on
/// it changes nothing and reports nothing.
pub proof fn lemma_no_damage_after_death(m: MissionView, idx: usize, first: i32, second: i32)
    requires
        damage_result(m, idx, first).1.died,
    ensures
        damage_result(damage_result(m, idx, first).0, idx, second) == (
            damage_result(m, idx, first).0,
            no_damage(),
        ),
{
    let m1 = damage_result(m, idx, first).0;
    assert(idx < m.robots.len());
    assert(m1.robots.len() == m.robots.len());
    assert(!m1.robots[idx as int].alive);
}

/// Only one click order is pending at a time: once an arm has run,
/// whether it armed or found an order pending, every further arm is
/// refused and changes nothing.
pub proof fn lemma_one_pending_order(m: MissionView, first: int, second: int)
    requires
        0 <= first < m.robots.len(),
    ensures
        arm_result(m, first).0.order is Some,
        arm_result(arm_result(m, first).0, second) == (arm_result(m, first).0, false),
{
}

/// Frames are deterministic: equal simulations stay equal frame after
/// frame and hash to the same bytes.
pub proof fn lemma_runs_deterministic(a: MissionView, b: MissionView, n: nat)
    requires
        a == b,
    ensures
        run_frames(a, n) == run_frames(b, n),
        run_frames(a, n) is Some ==> hash_bytes(run_frames(a, n).unwrap()) == hash_bytes(
            run_frames(b, n).unwrap(),
        ),
{
}

/// The state hash reads the frame counter, the pending order, the
/// robots, the trigger latch and the stream only: simulations that agree
/// on those hash to the same bytes whatever else differs (the pad and
/// word mirrors, the personnel bank, the rides, the award counters).
pub proof fn lemma_hash_reads_only_hashed_fields(a: MissionView, b: MissionView)
    requires
        a.frame == b.frame,
        a.order == b.order,
        a.robots == b.robots,
        a.terrain.last_trigger == b.terrain.last_trigger,
        a.rng == b.rng,
    ensures
        hash_bytes(a) == hash_bytes(b),
{
}

/// The number of hashed bytes of one robot.
pub open spec fn robot_byte_len() -> nat {
    94
}

proof fn lemma_robot_bytes_layout(r: Robot)
    ensures
        robot_bytes(r).len() == robot_byte_len(),
        robot_bytes(r)[0] == (if r.alive {
            1u8
        } else {
            0u8
        }),
        forall|j: int|
            0 <= j < 4 ==> {
                &&& #[trigger] robot_bytes(r)[1 + j] == le_i32(r.pos_x)[j]
                &&& robot_bytes(r)[5 + j] == le_i32(r.pos_y)[j]
                &&& robot_bytes(r)[9 + j] == le_i32(r.z)[j]
                &&& robot_bytes(r)[56 + j] == le_i32(r.hp)[j]
            },
{
    let t = r.target;
    assert(target_bytes(t).len() == 9);
    assert(probe_bytes(r.probe_z).len() == 16);
}

proof fn lemma_robots_bytes_concat(a: Seq<Robot>, b: Seq<Robot>)
    ensures
        robots_bytes(a + b) == robots_bytes(a) + robots_bytes(b),
    decreases b.len(),
{
    if b.len() == 0 {
        assert(a + b =~= a);
        assert(robots_bytes(b) =~= Seq::<u8>::empty());
        assert(robots_bytes(a) + robots_bytes(b) =~= robots_bytes(a));
    } else {
        lemma_robots_bytes_concat(a, b.drop_last());
        assert((a + b).drop_last() =~= a + b.drop_last());
        assert((a + b).last() == b.last());
        assert(robots_bytes(a) + robots_bytes(b) =~= robots_bytes(a) + robots_bytes(b.drop_last())
            + robot_bytes(b.last()));
    }
}

proof fn lemma_robots_bytes_split(s: Seq<Robot>, k: int)
    requires
        0 <= k < s.len(),
    ensures
        robots_bytes(s) == robots_bytes(s.take(k)) + robot_bytes(s[k]) + robots_bytes(
            s.skip(k + 1),
        ),
{
    assert(s =~= s.take(k) + seq![s[k]] + s.skip(k + 1));
    lemma_robots_bytes_concat(s.take(k) + seq![s[k]], s.skip(k + 1));
    lemma_robots_bytes_concat(s.take(k), seq![s[k]]);
    assert(seq![s[k]].drop_last() =~= Seq::<Robot>::empty());
    assert(robots_bytes(seq![s[k]]) =~= robots_bytes(Seq::<Robot>::empty()) + robot_bytes(s[k]));
    assert(robots_bytes(seq![s[k]]) =~= robot_bytes(s[k]));
}

proof fn lemma_le_i32_injective(x: i32, y: i32)
    requires
        x != y,
    ensures
        exists|j: int| 0 <= j < 4 && #[trigger] le_i32(x)[j] != le_i32(y)[j],
{
    let ux = x as u32;
    let uy = y as u32;
    assert(ux != uy) by (bit_vector)
        requires
            x != y,
            ux == x as u32,
            uy == y as u32,
    ;
    if forall|j: int| 0 <= j < 4 ==> #[trigger] le_i32(x)[j] == le_i32(y)[j] {
        let s = le_i32(x);
        assert(s[0] == le_i32(y)[0]);
        assert(s[1] == le_i32(y)[1]);
        assert(s[2] == le_i32(y)[2]);
        assert(s[3] == le_i32(y)[3]);
        lemma_u32_round_trip(ux, s, 0);
        lemma_u32_round_trip(uy, s, 0);
    }
}

proof fn lemma_middle_differs(p: Seq<u8>, y1: Seq<u8>, y2: Seq<u8>, s: Seq<u8>, j: int)
    requires
        0 <= j < y1.len(),
        y1.len() == y2.len(),
        y1[j] != y2[j],
    ensures
        p + y1 + s != p + y2 + s,
{
    assert((p + y1 + s)[p.len() + j] == y1[j]);
    assert((p + y2 + s)[p.len() + j] == y2[j]);
}

proof fn lemma_hash_bytes_around_robot(m: MissionView, k: int)
    requires
        0 <= k < m.robots.len(),
    ensures
        hash_bytes(m) == (le_bytes_u64(m.frame) + order_bytes(m.order) + robots_bytes(
            m.robots.take(k),
        )) + robot_bytes(m.robots[k]) + (robots_bytes(m.robots.skip(k + 1)) + latch_bytes(
            m.terrain.last_trigger,
        ) + le_bytes_u64(m.rng.0) + le_bytes_u64(m.rng.1)),
{
    lemma_robots_bytes_split(m.robots, k);
    let a = le_bytes_u64(m.frame);
    let b = order_bytes(m.order);
    let t = robots_bytes(m.robots.take(k));
    let r = robot_bytes(m.robots[k]);
    let u = robots_bytes(m.robots.skip(k + 1));
    let d = latch_bytes(m.terrain.last_trigger);
    let e = le_bytes_u64(m.rng.0);
    let f = le_bytes_u64(m.rng.1);
    lemma_regroup(a, b, t, r, u, d, e, f);
}

proof fn lemma_regroup(
    a: Seq<u8>,
    b: Seq<u8>,
    t: Seq<u8>,
    r: Seq<u8>,
    u: Seq<u8>,
    d: Seq<u8>,
    e: Seq<u8>,
    f: Seq<u8>,
)
    ensures
        a + b + (t + r + u) + d + e + f == (a + b + t) + r + (u + d + e + f),
{
    assert(a + b + (t + r + u) + d + e + f =~= (a + b + t) + r + (u + d + e + f));
}

/// Two simulations that agree on every hashed field but one robot's
/// hashed bytes hash different byte streams.
proof fn lemma_hash_separates_robot_bytes(a: MissionView, b: MissionView, k: int, j: int)
    requires
        a.frame == b.frame,
        a.order == b.order,
        a.terrain.last_trigger == b.terrain.last_trigger,
        a.rng == b.rng,
        a.robots.len() == b.robots.len(),
        0 <= k < a.robots.len(),
        forall|i: int| 0 <= i < a.robots.len() && i != k ==> a.robots[i] == b.robots[i],
        robot_bytes(a.robots[k]).len() == robot_bytes(b.robots[k]).len(),
        0 <= j < robot_bytes(a.robots[k]).len(),
        robot_bytes(a.robots[k])[j] != robot_bytes(b.robots[k])[j],
    ensures
        hash_bytes(a) != hash_bytes(b),
{
    lemma_hash_bytes_around_robot(a, k);
    lemma_hash_bytes_around_robot(b, k);
    assert(a.robots.take(k) =~= b.robots.take(k));
    assert(a.robots.skip(k + 1) =~= b.robots.skip(k + 1));
    lemma_middle_differs(
        le_bytes_u64(a.frame) + order_bytes(a.order) + robots_bytes(a.robots.take(k)),
        robot_bytes(a.robots[k]),
        robot_bytes(b.robots[k]),
        robots_bytes(a.robots.skip(k + 1)) + latch_bytes(a.terrain.last_trigger) + le_bytes_u64(
            a.rng.0,
        ) + le_bytes_u64(a.rng.1),
        j,
    );
}

/// The state hash covers each robot's mover and damage fields: two
/// simulations that differ only in one robot's liveness, position,
/// height or hit points hash different byte streams.
#[verifier::rlimit(100)]
#[verifier::spinoff_prover]
pub proof fn lemma_hash_covers_robot_fields(a: MissionView, b: MissionView, k: int)
    requires
        a.frame == b.frame,
        a.order == b.order,
        a.terrain.last_trigger == b.terrain.last_trigger,
        a.rng == b.rng,
        a.robots.len() == b.robots.len(),
        0 <= k < a.robots.len(),
        forall|i: int| 0 <= i < a.robots.len() && i != k ==> a.robots[i] == b.robots[i],
        a.robots[k].alive != b.robots[k].alive || a.robots[k].pos_x != b.robots[k].pos_x
            || a.robots[k].pos_y != b.robots[k].pos_y || a.robots[k].z != b.robots[k].z
            || a.robots[k].hp != b.robots[k].hp,
    ensures
        hash_bytes(a) != hash_bytes(b),
{
    let ra = a.robots[k];
    let rb = b.robots[k];
    lemma_robot_bytes_layout(ra);
    lemma_robot_bytes_layout(rb);
    if ra.alive != rb.alive {
        assert(robot_bytes(ra)[0] != robot_bytes(rb)[0]);
        lemma_hash_separates_robot_bytes(a, b, k, 0);
    } else if ra.pos_x != rb.pos_x {
        lemma_le_i32_injective(ra.pos_x, rb.pos_x);
        let j = choose|j: int| 0 <= j < 4 && #[trigger] le_i32(ra.pos_x)[j] != le_i32(rb.pos_x)[j];
        assert(robot_bytes(ra)[1 + j] != robot_bytes(rb)[1 + j]);
        lemma_hash_separates_robot_bytes(a, b, k, 1 + j);
    } else if ra.pos_y != rb.pos_y {
        lemma_le_i32_injective(ra.pos_y, rb.pos_y);
        let j = choose|j: int| 0 <= j < 4 && #[trigger] le_i32(ra.pos_y)[j] != le_i32(rb.pos_y)[j];
        assert(robot_bytes(ra)[5 + j] != robot_bytes(rb)[5 + j]);
        lemma_hash_separates_robot_bytes(a, b, k, 5 + j);
    } else if ra.z != rb.z {
        lemma_le_i32_injective(ra.z, rb.z);
        let j = choose|j: int| 0 <= j < 4 && #[trigger] le_i32(ra.z)[j] != le_i32(rb.z)[j];
        assert(robot_bytes(ra)[9 + j] != robot_bytes(rb)[9 + j]);
        lemma_hash_separates_robot_bytes(a, b, k, 9 + j);
    } else {
        lemma_le_i32_injective(ra.hp, rb.hp);
        let j = choose|j: int| 0 <= j < 4 && #[trigger] le_i32(ra.hp)[j] != le_i32(rb.hp)[j];
        assert(robot_bytes(ra)[56 + j] != robot_bytes(rb)[56 + j]);
        lemma_hash_separates_robot_bytes(a, b, k, 56 + j);
    }
}

/// Instance `o` names a type row whose footprint covers tile `t`.
pub open spec fn stands_on(types: Seq<ObjectTypeView>, o: ObjectInstance, w: int, t: int) -> bool {
    match type_of(types, o.id) {
        Some(ty) => covers(o, ty, w, t),
        None => false,
    }
}

/// Every word of a stamped object grid is the starting word, when no
/// stamped instance stands on the tile, or names (index + 1) the last
/// stamped instance standing on it.
pub proof fn lemma_stamped_words_name_covering_instances(
    grid: Seq<u16>,
    objs: Seq<ObjectInstance>,
    types: Seq<ObjectTypeView>,
    w: int,
    k: nat,
    t: int,
)
    requires
        k <= objs.len(),
        objs.len() < 0x10000,
        0 <= t < grid.len(),
    ensures
        stamp_grid(grid, objs, types, w, k).len() == grid.len(),
        ({
            let v = stamp_grid(grid, objs, types, w, k)[t];
            ||| (v == grid[t] && forall|i: int|
                0 <= i < k ==> !#[trigger] stands_on(types, objs[i], w, t))
            ||| (1 <= v <= k && stands_on(types, objs[v - 1], w, t) && forall|i: int|
                v <= i < k ==> !#[trigger] stands_on(types, objs[i], w, t))
        }),
    decreases k,
{
    if k > 0 {
        lemma_stamped_words_name_covering_instances(grid, objs, types, w, (k - 1) as nat, t);
    }
}

/// A staged destroy family's object grid names, on every tile, either
/// nothing (0) or an instance standing on it.
pub proof fn lemma_staged_grid_names_covering_instances(
    m: MissionView,
    types: Seq<ObjectTypeView>,
    pos: Seq<u8>,
    trt: Seq<u8>,
    zone: u32,
    linear: u32,
    t: int,
)
    requires
        pos.len() == 16 * 2000,
        m.terrain.width > 0,
        m.terrain.height > 0,
        0 <= t < m.terrain.width * m.terrain.height,
    ensures
        ({
            let s = destroy_staged(m, types, pos, trt, zone, linear);
            let v = s.object_grid[t];
            ||| v == 0
            ||| (1 <= v <= s.objects.len() && stands_on(types, s.objects[v - 1], m.terrain.width, t))
        }),
{
    let n = (m.terrain.width * m.terrain.height) as nat;
    let s = destroy_staged(m, types, pos, trt, zone, linear);
    let objs = s.objects;
    lemma_pos_instances_len(pos, types, 2000);
    lemma_stamped_words_name_covering_instances(
        Seq::new(n, |i: int| 0u16),
        objs,
        types,
        m.terrain.width,
        objs.len(),
        t,
    );
}

/// The POS file places at most one instance per record.
proof fn lemma_pos_instances_len(pos: Seq<u8>, types: Seq<ObjectTypeView>, k: nat)
    ensures
        crate::destroy::pos_instances(pos, types, k).len() <= k,
    decreases k,
{
    if k > 0 {
        lemma_pos_instances_len(pos, types, (k - 1) as nat);
    }
}

/// With no debris record active, the debris tick changes nothing.
pub proof fn lemma_idle_debris_tick(m: MissionView)
    requires
        forall|i: int| 0 <= i < m.debris.len() ==> !(#[trigger] m.debris[i]).active,
    ensures
        debris_ticked(m) == Some(m),
{
    lemma_idle_debris_upto(m, m.debris.len());
}

proof fn lemma_idle_debris_upto(m: MissionView, k: nat)
    requires
        forall|i: int| 0 <= i < m.debris.len() ==> !(#[trigger] m.debris[i]).active,
    ensures
        debris_ticked_upto(m, k) == Some(m),
    decreases k,
{
    if k > 0 {
        lemma_idle_debris_upto(m, (k - 1) as nat);
        reveal(debris_ticked_one);
    }
}

/// With every fence timer idle, the fence tick changes nothing.
pub proof fn lemma_idle_fence_tick(m: MissionView)
    requires
        m.fence_timers.len() == 32,
        forall|i: int| 0 <= i < 32 ==> (#[trigger] m.fence_timers[i]).0 == 0,
    ensures
        timers_ticked(m, 32) == m,
{
    lemma_idle_timers_upto(m, 32);
}

proof fn lemma_idle_timers_upto(m: MissionView, k: nat)
    requires
        k <= 32,
        m.fence_timers.len() == 32,
        forall|i: int| 0 <= i < 32 ==> (#[trigger] m.fence_timers[i]).0 == 0,
    ensures
        timers_ticked(m, k) == m,
    decreases k,
{
    if k > 0 {
        lemma_idle_timers_upto(m, (k - 1) as nat);
        assert(m.fence_timers[k - 1].0 == 0);
    }
}

/// The armor-pad byte under a robot: the pad of its tile in linear tile
/// order (0 past the bank or for a negative index).
pub open spec fn pad_under(m: MissionView, r: Robot) -> u8 {
    let lin = (r.pos_y >> 13u32) * m.terrain.width + (r.pos_x >> 13u32);
    pad_byte(
        m.armor_pads,
        if lin < 0 {
            0
        } else {
            lin
        },
    )
}

/// The armor rule of a robot's pass: on an armor pad, a nonzero armor
/// pool drains by 20 (not below 0) with the armor kept, and an empty pool
/// lets the armor charge by 20 up to 3000; off the pads the armor bleeds
/// by 10 down to 0. No other robot changes.
pub proof fn lemma_armor_pad_rule(m: MissionView, idx: int)
    requires
        0 <= idx < m.robots.len(),
        0 <= m.robots[idx].armor <= 3000,
        m.robots[idx].armor_pool >= 0,
        armor_pass(m, idx) is Some,
    ensures
        ({
            let r = m.robots[idx];
            let r2 = armor_pass(m, idx).unwrap().robots[idx];
            let pad = pad_under(m, r);
            &&& pad != 0 && r.armor_pool != 0 ==> r2.armor_pool == (if r.armor_pool > 20 {
                r.armor_pool - 20
            } else {
                0
            }) && r2.armor == r.armor
            &&& pad != 0 && r.armor_pool == 0 ==> r2.armor == (if r.armor + 20 > 3000 {
                3000
            } else {
                r.armor + 20
            }) && r2.armor_pool == 0
            &&& pad == 0 ==> r2.armor == (if r.armor > 10 {
                r.armor - 10
            } else {
                0
            }) && r2.armor_pool == r.armor_pool
        }),
        armor_pass(m, idx).unwrap().robots.len() == m.robots.len(),
        forall|j: int| 0 <= j < m.robots.len() && j != idx ==> armor_pass(m, idx).unwrap().robots[j] == m.robots[j],
{
    reveal(armor_pass);
    let r = m.robots[idx];
    let a: i16 = r.armor;
    assert(a.wrapping_add(20i16) == a + 20) by (bit_vector)
        requires
            0 <= a <= 3000,
    ;
    assert(a.wrapping_sub(10i16) == a - 10) by (bit_vector)
        requires
            0 <= a <= 3000,
    ;
}

} // verus!
