use bedlam_core::mission::{
    dat_plane_bytes, dist_octagonal, pickup_case, AngleTable, MissionSim, Terrain, DEBRIS_SCORCH_RING, PICKUP_AWARDS,
    PICKUP_FLOOR_WORD, Q13_PER_TILE, SHIELD_BOOST_POOL, SPAWN_CENTER, STATE_MOVING, STATE_ORDERED,
};
use bedlam_core::hash::StateHash;


fn flat_terrain(w: i32, h: i32, floor_type: u8, heights: Vec<[u8; 1024]>) -> Terrain {
    let mut dat = vec![floor_type; (8 * w * h) as usize];
    // DAT plane 1 is the walkable deck in these tests: fill plane 0
    // with the type, plane 1 empty like a one-level room.
    for b in dat.iter_mut().take((w * h) as usize) {
        *b = floor_type;
    }
    Terrain::from_parts(w, h, dat, heights).unwrap()
}

fn zero_heights(n: usize) -> Vec<[u8; 1024]> {
    vec![[0u8; 1024]; n]
}

/// Threshold table shaped like a quarter-sine (0x647..).
fn sintable_like() -> AngleTable {
    let mut words = [0i16; 256];
    for i in 0..64 {
        let v = 0x0647 + (0x7FFF - 0x0647) * i as i32 / 63;
        words[2 + i] = v as i16;
    }
    AngleTable::from_sintable_words(&words).unwrap()
}

#[test]
fn dist_octagonal_matches_original() {
    assert_eq!(dist_octagonal(100, 0), 100);
    assert_eq!(dist_octagonal(0, -7), 7);
    assert_eq!(dist_octagonal(10, 4), 12);
    assert_eq!(dist_octagonal(-10, -4), 12);
    assert_eq!(dist_octagonal(5, 5), 7);
}

#[test]
fn angle_fold_cardinals() {
    let t = sintable_like();
    // Pure +y (south in map space): dx=0, dy>0 -> 0x7F - sector(0)
    // with ratio 0 -> sector 0 => 0x7F... the cardinal for "mostly
    // south" comes out 0x80 only when |dx| is small but nonzero;
    // pin the exact quadrant-fold outputs instead of the sector
    // granularity:
    let a = t.angle_byte(0, 256);
    assert_eq!(a & 0xC0, 0x40, "dy>0 quadrant folds into E/S band");
    let b = t.angle_byte(-256, 256);
    assert_eq!(b & 0xC0, 0x80, "dx<0 dy>0 -> S/W band");
    let c = t.angle_byte(-256, -256);
    assert!((0x100 - 0x3F..=0x100).contains(&c), "dx<0 dy<0 -> top fold");
    // Ratio peak: pure x hits sector 0x3F.
    assert_eq!(t.angle_byte(0x7FFF, 0), 0x3F);
}

#[test]
fn floor_z_empty_and_0xff_remap() {
    let mut t = flat_terrain(4, 4, 0, zero_heights(1));
    assert_eq!(t.floor_z(16, 16, 0), 0, "no type anywhere -> z 0");
    let mut t2 = flat_terrain(4, 4, 0xFF, zero_heights(1));
    // 0xFF reads back as type 1 -> height slot 0.
    assert_eq!(t2.dat_type(0, 0, 0), 1);
    assert_eq!(t2.floor_z(16, 16, 0), 0, "type 1 height 0 -> z 0");
}

/// A minimal valid CGR bank for `slot_bodies`: u16 count + u32
/// directory + per-slot (8-byte header + 1024-byte raw map). The
/// directory values are chosen so the body address
/// `dir[s] + 4*s + 8` lands exactly on each
/// slot's 1024-byte map (real files store the same relationship:
/// dir[s] is NOT a plain file offset — dir[1]=1538 in MISSIONA.CGR
/// puts slot 1's body at 1550, 6 bytes past its 1544 header).
fn cgr_bank(slot_bodies: &[[u8; 1024]]) -> Vec<u8> {
    let count = slot_bodies.len();
    let mut v = vec![count as u8, 0];
    // body_s = 2 + 4*count + s*(8 + 1024) + 8 (after its header)
    let body_at = |s: usize| 2 + 4 * count + s * (8 + 1024) + 8;
    for s in 0..count {
        let dir = (body_at(s) - 4 * s - 8) as u32;
        v.extend_from_slice(&dir.to_le_bytes());
    }
    for body in slot_bodies {
        v.extend_from_slice(&1u32.to_le_bytes());
        v.extend_from_slice(&32u16.to_le_bytes());
        v.extend_from_slice(&32u16.to_le_bytes());
        v.extend_from_slice(body);
    }
    v
}

fn dat_file(w: u16, h: u16, planes: &[u8]) -> Vec<u8> {
    let mut v = w.to_le_bytes().to_vec();
    v.extend_from_slice(&h.to_le_bytes());
    v.extend_from_slice(planes);
    v
}

fn pad_file(recs: &[(u16, u16, u16)]) -> Vec<u8> {
    let mut v = Vec::new();
    for (x, y, k) in recs {
        v.extend_from_slice(&x.to_le_bytes());
        v.extend_from_slice(&y.to_le_bytes());
        v.extend_from_slice(&k.to_le_bytes());
    }
    v.extend_from_slice(&[0xFF; 6]); // terminator fill
    v
}

#[test]
fn from_mission_bytes_loader_rules() {
    // 4x2 map, plane 0 all type 1 (deck), plane 4 one 0x90 byte to
    // sweep, plus a PAD mark at level 5 tile (1,1).
    let w = 4u16;
    let h = 2u16;
    let n = (w * h) as usize;
    let mut planes = vec![0u8; 8 * n];
    for b in planes[..n].iter_mut() {
        *b = 1;
    }
    planes[4 * n + 3] = 0x90; // swept in plane 4
    planes[7 * n + 1] = 0x90; // plane 7 NOT swept
    let mut bodies = vec![[7u8; 1024]; 2];
    bodies[0] = [0x1Fu8; 1024];
    let mut t = Terrain::from_mission_bytes(
        &dat_file(w, h, &planes),
        &pad_file(&[(1, 1, 5), (0, 0, 9)]), // 9 = out of range, skipped
        &cgr_bank(&bodies),
    )
    .unwrap();
    assert_eq!(t.size(), (4, 2));
    // Deck floor: type 1 -> slot 0 height 0x1F -> z 0x1F.
    assert_eq!(t.floor_z(16, 16, 0), 0x1F);
    // Sweep cleared the plane-4 byte; plane 7 untouched.
    assert_eq!(t.dat_type(3, 0, 4), 0);
    assert_eq!(t.dat_type(1, 0, 7), 0x90);
    // PAD mark: level 5, tile (1,1) reads back as type 1.
    assert_eq!(t.dat_type(1, 1, 5), 1);
    assert_eq!(t.dat_type(1, 1, 4), 0, "mark is plane-local");
    // Second slot kept its own body (type 2 -> slot 1 height 7).
    let mut t2planes = planes.clone();
    t2planes[..n].copy_from_slice(&[2, 2, 2, 2, 2, 2, 2, 2]);
    let mut t2 = Terrain::from_mission_bytes(
        &dat_file(w, h, &t2planes),
        &pad_file(&[]),
        &cgr_bank(&bodies),
    )
    .unwrap();
    assert_eq!(t2.floor_z(16, 16, 0), 7);
    // Malformed inputs -> None (no panics).
    assert!(Terrain::from_mission_bytes(&[0, 4], &[], &[]).is_none());
    let truncated_cgr = [1u8, 0]; // claims 1 slot, no directory
    assert!(
        Terrain::from_mission_bytes(&dat_file(2, 2, &[0; 32]), &[0xFF; 6], &truncated_cgr)
            .is_none()
    );
}

#[test]
fn floor_z_search_and_slope() {
    // Type 5 at level 0 with height 8; type 6 at level 1.
    let mut heights = zero_heights(8);
    heights[4] = [8u8; 1024]; // type 5 slot
    heights[5] = [4u8; 1024]; // type 6 slot
    let w: i32 = 4;
    let h: i32 = 4;
    let mut dat = vec![0u8; (8 * w * h) as usize];
    dat[0] = 5; // plane 0, tile (0,0)
    dat[(w * h) as usize] = 6; // plane 1, tile (0,0)
    let mut t = Terrain::from_parts(w, h, dat, heights.clone()).unwrap();
    // z query at level 0 finds type 5 -> 0*0x20 + 8.
    assert_eq!(t.floor_z(16, 16, 0), 8);
    // Level-1 type 6 with height 4 -> 0x24.
    assert_eq!(t.floor_z(16, 16, 0x20), 0x24);
    // 0x1F top rule: type 7 (slot 6) height 0x1F, level+1 type 6
    // height 4 -> bridges to 0x24.
    heights[6] = [0x1Fu8; 1024];
    let mut dat2 = vec![0u8; (8 * w * h) as usize];
    dat2[0] = 7;
    dat2[(w * h) as usize] = 6;
    let mut t2 = Terrain::from_parts(w, h, dat2, heights).unwrap();
    assert_eq!(t2.floor_z(16, 16, 0), 0x24);
    // Type 3 latch.
    let mut dat3 = vec![0u8; (8 * w * h) as usize];
    dat3[0] = 3;
    let mut t3 = Terrain::from_parts(w, h, dat3, zero_heights(8)).unwrap();
    let _ = t3.floor_z(16, 16, 0);
    assert_eq!(t3.last_trigger, Some((0, 0, 0)));
}

#[test]
fn spawn_settles_and_tiles() {
    // Height byte 3 at level 0: the seeded probe zref (level-0
    // marker → 0xFFFF → −1 signed) climbs: |3−(−1)| = 4 ≤ 4, so the
    // loader's one settle probe passes and the floor is written.
    let mut sim = MissionSim::new(
        flat_terrain(8, 8, 5, {
            let mut hs = zero_heights(8);
            hs[4] = [3u8; 1024];
            hs
        }),
        sintable_like(),
        12345,
    );
    let idx = sim.spawn_robot((2, 3, 0));
    let r = &sim.robots()[idx];
    assert_eq!(r.pos_x, 2 * Q13_PER_TILE + SPAWN_CENTER);
    assert_eq!(r.pos_y, 3 * Q13_PER_TILE + SPAWN_CENTER);
    assert_eq!(r.tile(), (2, 3));
    assert_eq!(r.z, 3, "floor settled through the spawn probe");
    assert_eq!(r.probe_z[0], 3);
    assert_eq!(r.probe_z[7], 3);
    let mut sim2 = MissionSim::new(
        flat_terrain(8, 8, 5, {
            let mut hs = zero_heights(8);
            hs[4] = [8u8; 1024];
            hs
        }),
        sintable_like(),
        12345,
    );
    let idx2 = sim2.spawn_robot((2, 3, 0));
    let r2 = &sim2.robots()[idx2];
    assert_eq!(r2.z, -1, "tall floor: no settle");
    assert_eq!(r2.probe_z[0], 0xFFFF);
}

#[test]
fn order_walk_and_arrival_snap() {
    // Flat 16x16, floor type 5 height 3 (walkable from the seeded
    // spawn probes: |3−(−1)| = 4).
    let mut hs = zero_heights(8);
    hs[4] = [3u8; 1024];
    let mut sim = MissionSim::new(flat_terrain(16, 16, 5, hs), sintable_like(), 7);
    let a = sim.spawn_robot((2, 8, 0));
    let b = sim.spawn_robot((6, 8, 0));
    // Click on robot a: order tile = a's tile; b is 4 tiles away
    // (inside the 6-tile radius) and gets spread slot 1 = order
    // tile +1 x, so it walks ~3 tiles west and snaps on arrival.
    assert!(sim.arm_order_at_robot(a));
    assert!(!sim.arm_order_at_robot(b), "one pending order at a time");
    assert_eq!(sim.robots()[a].state, STATE_ORDERED);
    // The armer snap writes the tile ORIGIN (no +0xF00).
    assert_eq!(sim.robots()[a].pos_x, 2 * Q13_PER_TILE);
    assert_eq!(sim.robots()[a].pos_y, 8 * Q13_PER_TILE);
    // Run frames until b arrives (it starts IDLE, is picked up on
    // the first frame's phases, then walks to the spread tile).
    let mut frames = 0;
    while frames < 200 && sim.robots()[b].state != STATE_ORDERED {
        sim.advance_frame();
        frames += 1;
    }
    assert!(frames < 200, "walk terminates");
    let rb = &sim.robots()[b];
    assert_eq!(rb.state, STATE_ORDERED, "state 4 -> 3 on arrival");
    assert_eq!(rb.pos_x & 0x1FFF, 0, "arrival snaps to the tile grid");
    assert_eq!(rb.pos_y & 0x1FFF, 0, "arrival snaps to the tile grid");
    // Slot 1 spread offset = (+1, 0): target tile = a's tile + 1.
    assert_eq!(rb.pos_x >> 13, 3);
    assert_eq!(rb.pos_y >> 13, 8);
    assert!(sim.order().is_none(), "order consumed once all state-3");
}

#[test]
fn climb_blocks_across_a_wall() {
    // Single wall column x == 6 (type 6, height 20); floor type 5
    // (height 3) everywhere else. Both robots stand a clear tile
    // from the wall so their spawn settles pass; b (east) is 5.97
    // tiles from the order tile (inside the 0xC0 radius) and its
    // slot-1 spread target (4, 8) lies across the wall: the 8-probe
    // footprint always has a probe on the wall column when
    // crossing, |20-3| = 17 > CLIMB_LIMIT, so b can never reach
    // tile <= 6 and never arrives.
    let mut hs = zero_heights(8);
    hs[4] = [3u8; 1024];
    hs[5] = [20u8; 1024];
    let w = 16;
    let h = 16;
    let mut dat = vec![0u8; (8 * w * h) as usize];
    for y in 0..h {
        for x in 0..w {
            dat[(y * w + x) as usize] = if x == 6 { 6u8 } else { 5u8 };
        }
    }
    let mut sim = MissionSim::new(
        Terrain::from_parts(w, h, dat, hs).unwrap(),
        sintable_like(),
        3,
    );
    let a = sim.spawn_robot((3, 8, 0)); // west of the wall
    let b = sim.spawn_robot((9, 8, 0)); // east, 5.97 tiles from a
    assert!(sim.arm_order_at_robot(a));
    assert_eq!(sim.robots()[b].z, 3, "b settled on the east floor");
    for _ in 0..60 {
        sim.advance_frame();
        assert!(sim.robots()[b].pos_x >> 13 >= 7, "wall never crossed");
    }
    assert_eq!(
        sim.robots()[b].state,
        STATE_MOVING,
        "unreachable target never arrives"
    );
}

#[test]
fn determinism_two_runs_identical_hashes() {
    let mut hs = zero_heights(8);
    hs[4] = [8u8; 1024];
    let run = |seed: u64| -> Vec<StateHash> {
        let mut sim =
            MissionSim::new(flat_terrain(16, 16, 5, hs.clone()), sintable_like(), seed);
        let a = sim.spawn_robot((2, 8, 0));
        let _ = sim.spawn_robot((3, 8, 0));
        sim.arm_order_at_robot(a);
        let mut out = Vec::new();
        for _ in 0..40 {
            sim.advance_frame();
            out.push(sim.state_hash());
        }
        out
    };
    let x = run(99);
    let y = run(99);
    assert_eq!(x, y, "same seed -> identical hash stream");
    let z = run(100);
    assert_ne!(x[0], z[0], "seed enters the hash");
}

#[test]
fn hash_covers_mover_fields() {
    let mut hs = zero_heights(8);
    hs[4] = [8u8; 1024];
    let mut sim = MissionSim::new(flat_terrain(8, 8, 5, hs), sintable_like(), 5);
    let a = sim.spawn_robot((2, 3, 0));
    let base = sim.state_hash();
    sim.robots_mut()[a].pos_x += 1;
    assert_ne!(sim.state_hash().0, base.0, "pos_x covered");
    sim.robots_mut()[a].anim ^= 1;
    assert_ne!(sim.state_hash().0, base.0, "anim covered");
}

#[test]
fn boot_camp_exit_pad_keeps_mission_and_network_gates() {
    for (mission, mode, expected) in [(1, 0, true), (2, 0, false), (1, 2, false)] {
        let mut sim = damage_sim();
        sim.zone = 1;
        sim.mission_no = mission;
        sim.network_mode = mode;
        let r = &sim.robots[0];
        let marker = (r.pos_x >> 13, r.pos_y >> 13, r.z >> 5);
        sim.terrain.pad_slots = vec![(7, 7, 0); 16];
        sim.terrain.pad_slots.push(marker);
        sim.pad_extraction_trigger(0);
        assert_eq!(
            sim.order_pad_armed, expected,
            "mission={mission}, mode={mode}"
        );
    }
}

fn damage_sim() -> MissionSim {
    let hs = zero_heights(8);
    let mut sim = MissionSim::new(flat_terrain(8, 8, 5, hs), sintable_like(), 11);
    sim.spawn_robot((2, 3, 0));
    sim
}

#[test]
fn damage_core_follows_fun_0040e230() {
    let mut sim = damage_sim();
    sim.robots_mut()[0].state = STATE_ORDERED;
    let out = sim.apply_damage(0, 100, -1);
    assert!(out.applied && !out.died);
    assert_eq!(sim.robots()[0].shield, 0x20);
    assert_eq!(
        sim.robots()[0].hp,
        5000,
        "the ordered conversion takes nothing"
    );

    // The auto-shield idle: charges > 0 with shield == 0 spends
    // one charge for the 0x20 tick.
    let mut sim = damage_sim();
    sim.robots_mut()[0].shield_charges = 2;
    sim.apply_damage(0, 100, -1);
    assert_eq!(
        (sim.robots()[0].shield_charges, sim.robots()[0].shield),
        (1, 0x20)
    );
    assert_eq!(sim.robots()[0].hp, 5000);

    // The shield absorbs before hp and clamps at 0 on overflow.
    let mut sim = damage_sim();
    sim.robots_mut()[0].shield = 100;
    sim.apply_damage(0, 30, -1);
    assert_eq!((sim.robots()[0].shield, sim.robots()[0].hp), (70, 5000));
    sim.apply_damage(0, 80, -1);
    assert_eq!((sim.robots()[0].shield, sim.robots()[0].hp), (0, 5000));

    // The hp path: hit_flash bumps BEFORE the hp subtract.
    let mut sim = damage_sim();
    sim.apply_damage(0, 100, -1);
    assert_eq!((sim.robots()[0].hit_flash, sim.robots()[0].hp), (1, 4900));

    // Gates: dead and state-2 robots are untouched.
    let mut sim = damage_sim();
    sim.robots_mut()[0].alive = false;
    assert!(!sim.apply_damage(0, 100, -1).applied);
    sim.robots_mut()[0].alive = true;
    sim.robots_mut()[0].state = 2;
    assert!(!sim.apply_damage(0, 100, -1).applied);
    assert_eq!(sim.robots()[0].hp, 5000);
}

#[test]
fn damage_alarm_accumulator_trips_at_100() {
    let mut sim = damage_sim();
    sim.set_battery(0, 90); // hp 14000 — survives 34 x 100
    for _ in 0..33 {
        sim.apply_damage(0, 100, -1);
    }
    assert_eq!((sim.robots()[0].alarm, sim.robots()[0].alarm_ctr), (0, 99));
    sim.apply_damage(0, 100, -1);
    assert_eq!((sim.robots()[0].alarm, sim.robots()[0].alarm_ctr), (100, 0));
    // While the alarm word is nonzero the accumulator idles.
    sim.apply_damage(0, 100, -1);
    assert_eq!(sim.robots()[0].alarm_ctr, 0);
}

#[test]
fn death_subset_clears_vitals_and_draws_ten_stream_values() {
    let mut sim = damage_sim();
    sim.robots_mut()[0].armor = 1234;
    sim.robots_mut()[0].drop_countdown = 77;
    let hash_before = sim.state_hash().0;
    let out = sim.apply_damage(0, 9999, -1);
    assert!(out.applied && out.died);
    let r = sim.robots()[0];
    assert!(!r.alive);
    assert_eq!(
        (r.hp, r.armor, r.drop_countdown, r.death_flag),
        (0, 0, 0, 1)
    );
    // Ten draws left the stream (the hash covers the rng state).
    assert_ne!(sim.state_hash().0, hash_before);
    // The debris jitter: (rand & 0x1f) + pos>>8 - 0x10 — the y
    // (row 1) uses the FIRST draw of each pair, x the second.
    let (px, py, z) = (r.pos_x, r.pos_y, r.z);
    let mut replay = damage_sim();
    replay.robots_mut()[0].armor = 1234;
    replay.robots_mut()[0].drop_countdown = 77;
    replay.apply_damage(0, 9999, -1);
    for (k, d) in out.debris.iter().enumerate() {
        assert_eq!(d.2, z + 8 * k as i32, "debris z walks +8k");
        assert_eq!(d.3, 2 * k as i32, "the phase param is 2k");
        assert!(
            ((px >> 8) - 0x10..=(px >> 8) + 0x1F).contains(&d.0),
            "x jitter window k={k}"
        );
        assert!(
            ((py >> 8) - 0x10..=(py >> 8) + 0x1F).contains(&d.1),
            "y jitter window k={k}"
        );
    }
    // A second lethal hit on the corpse does nothing.
    assert!(!sim.apply_damage(0, 9999, -1).applied);
}

#[test]
fn armor_bleeds_off_pad_and_charges_on_pads() {
    let mut sim = damage_sim();
    sim.robots_mut()[0].armor = 100;
    sim.advance_frame();
    assert_eq!(sim.robots()[0].armor, 90);
    sim.robots_mut()[0].armor = 5;
    sim.advance_frame();
    assert_eq!(sim.robots()[0].armor, 0, "the bleed clamps at 0");

    let mut pads = vec![0u8; 64];
    pads[3 * 8 + 2] = 7;
    sim.set_armor_pads(&pads);
    sim.advance_frame();
    assert_eq!(sim.robots()[0].armor, 20);
    assert_eq!(sim.armor_pad_byte(3 * 8 + 2), 6, "the fade ran");
    // Clamp at 3000 (0xBB8).
    sim.robots_mut()[0].armor = 2995;
    sim.advance_frame();
    assert_eq!(sim.robots()[0].armor, 3000);

    let mut sim = damage_sim();
    let mut pads = vec![0u8; 64];
    pads[3 * 8 + 2] = 7;
    sim.set_armor_pads(&pads);
    sim.robots_mut()[0].armor_pool = 50;
    sim.advance_frame();
    assert_eq!((sim.robots()[0].armor_pool, sim.robots()[0].armor), (30, 0));
    sim.advance_frame();
    assert_eq!((sim.robots()[0].armor_pool, sim.robots()[0].armor), (10, 0));
    sim.advance_frame();
    assert_eq!((sim.robots()[0].armor_pool, sim.robots()[0].armor), (0, 0));
    sim.advance_frame();
    assert_eq!(sim.robots()[0].armor, 20, "the drained pool charges");
}

#[test]
fn death_stages_the_3x3_scorch_ring_into_the_pad_mirror() {
    let mut sim = damage_sim();
    let out = sim.apply_damage(0, 9999, -1);
    assert!(out.died);
    let (w, h) = sim.terrain.size();

    // The ring table itself: the 3×3 pattern at tile ±1.
    let mut pattern = std::collections::HashMap::new();
    for &(dx, dy, v) in DEBRIS_SCORCH_RING.iter() {
        pattern.insert((dx / 0x20, dy / 0x20), v);
    }
    for (ty, row) in [[1, 2, 1], [2, 4, 2], [1, 2, 1]].iter().enumerate() {
        for (tx, &v) in row.iter().enumerate() {
            assert_eq!(
                pattern[&(tx as i32 - 1, ty as i32 - 1)],
                v,
                "ring pattern at ({},{})",
                tx as i32 - 1,
                ty as i32 - 1
            );
        }
    }

    // Fold the five rings in staging order (the expected final
    // byte state) and compare every tile in the covered span.
    let mut expected = std::collections::HashMap::new();
    for d in out.debris.iter() {
        for &(dx, dy, v) in DEBRIS_SCORCH_RING.iter() {
            let tx = (d.0 + dx) >> 5;
            let ty = (d.1 + dy) >> 5;
            if tx >= 0 && ty >= 0 && tx < w && ty < h {
                expected.insert((tx, ty), v);
            }
        }
    }
    assert!(
        expected.len() < 45,
        "the five jittered rings overlap ({} distinct tiles)",
        expected.len()
    );
    for ty in -1..=6i32 {
        for tx in -1..=6i32 {
            let byte = if tx >= 0 && ty >= 0 && tx < w && ty < h {
                sim.armor_pad_byte((ty * w + tx) as usize)
            } else {
                continue;
            };
            assert_eq!(
                i32::from(byte),
                i32::from(expected.get(&(tx, ty)).copied().unwrap_or(0)),
                "pad byte at tile ({tx},{ty})"
            );
        }
    }

    let mut sim2 = MissionSim::new(flat_terrain(8, 8, 5, zero_heights(8)), sintable_like(), 11);
    let first = sim2.spawn_robot((2, 3, 0));
    let _ = sim2.apply_damage(first, 9999, -1);
    let (sx, sy) = *expected.keys().next().unwrap();
    let survivor = sim2.spawn_robot((sx, sy, 0));
    sim2.robots_mut()[survivor].armor = 0;
    assert_ne!(
        sim2.armor_pad_byte((sy * w + sx) as usize),
        0,
        "the folded tile is scorched in the twin sim too"
    );
    sim2.advance_frame();
    assert_eq!(
        sim2.robots()[survivor].armor,
        20,
        "a survivor on a scorched tile charges +20 (the raw reader)"
    );
}

#[test]
fn the_epilogue_fade_decays_every_nonzero_pad_byte_per_frame() {
    let mut sim = damage_sim();
    let mut pads = vec![0u8; 64];
    pads[0] = 1;
    pads[1] = 7;
    pads[63] = 3;
    sim.set_armor_pads(&pads);
    sim.advance_frame();
    assert_eq!(
        (
            sim.armor_pad_byte(0),
            sim.armor_pad_byte(1),
            sim.armor_pad_byte(63)
        ),
        (0, 6, 2),
        "every nonzero byte decays 1/frame; zeros stay 0"
    );
    // A value-1 pad arms exactly ONE phase-1 charge: frame 1
    // charges +20, the fade clears the byte, frame 2 bleeds.
    let mut sim = damage_sim();
    let mut pads = vec![0u8; 64];
    pads[3 * 8 + 2] = 1;
    sim.set_armor_pads(&pads);
    sim.advance_frame();
    assert_eq!(sim.robots()[0].armor, 20, "the single frame charges");
    sim.advance_frame();
    assert_eq!(sim.robots()[0].armor, 10, "the faded pad bleeds -10");
    // The death ring fades too: kill, then run value frames.
    let mut sim = damage_sim();
    let _ = sim.apply_damage(0, 9999, -1);
    let peak = (0..64).map(|t| sim.armor_pad_byte(t)).max().unwrap();
    assert!((1..=7).contains(&peak));
    for _ in 0..i32::from(peak) {
        sim.advance_frame();
    }
    assert_eq!(
        (0..64).map(|t| sim.armor_pad_byte(t)).max().unwrap(),
        0,
        "the whole ring faded after `peak` frames"
    );
}

#[test]
fn scorch_write_bounds_and_clamp_follow_fun_00422287() {
    let mut sim = damage_sim();
    assert_eq!(sim.armor_pad_byte(0), 0, "no writes yet");
    sim.scorch_write(2 * 0x20 + 5, 3 * 0x20 + 7, 4);
    assert_eq!(sim.armor_pad_byte(3 * 8 + 2), 4, "in-tile offsets >>5");
    sim.scorch_write(2 * 0x20, 3 * 0x20, 9);
    assert_eq!(sim.armor_pad_byte(3 * 8 + 2), 7, "9 clamps to 7");
    sim.scorch_write(2 * 0x20, 3 * 0x20, 0xFF);
    assert_eq!(sim.armor_pad_byte(3 * 8 + 2), 7, "0xFF clamps to 7");
    // Bounds: x/y < 0 or >= map w/h are dropped.
    sim.scorch_write(-1, 0, 4);
    sim.scorch_write(0, -1, 4);
    sim.scorch_write(8 * 0x20, 0, 4);
    sim.scorch_write(0, 8 * 0x20, 4);
    for tile in [0usize, 8, 7 * 8, 63] {
        assert_eq!(sim.armor_pad_byte(tile), 0, "out-of-map writes dropped");
    }
    // The growth is zero-padded: untouched tiles between the
    // writes read 0.
    assert_eq!(sim.armor_pad_byte(3 * 8 + 3), 0);
}

#[test]
fn shield_decay_and_booster_follow_the_phase0_pre_walk() {
    let mut sim = damage_sim();
    sim.robots_mut()[0].shield = 5;
    sim.advance_frame();
    assert_eq!(sim.robots()[0].shield, 3);
    sim.advance_frame();
    assert_eq!(sim.robots()[0].shield, 1);
    sim.advance_frame();
    assert_eq!(sim.robots()[0].shield, 0, "-1 clamps to 0");

    // The +0xA0 booster: 10000 while counting down, 150 left on
    // expiry.
    let mut sim = damage_sim();
    sim.robots_mut()[0].shield_boost = 2;
    sim.advance_frame();
    assert_eq!(
        (sim.robots()[0].shield, sim.robots()[0].shield_boost),
        (10000, 1)
    );
    sim.advance_frame();
    assert_eq!(
        (sim.robots()[0].shield, sim.robots()[0].shield_boost),
        (150, 0)
    );
    sim.advance_frame();
    assert_eq!(sim.robots()[0].shield, 148, "normal decay resumes");
}

#[test]
fn alarm_and_hit_flash_decay_per_frame() {
    let mut sim = damage_sim();
    sim.robots_mut()[0].alarm = 3;
    sim.robots_mut()[0].alarm_ctr = 7;
    sim.advance_frame();
    assert_eq!((sim.robots()[0].alarm, sim.robots()[0].alarm_ctr), (2, 6));

    let mut sim = damage_sim();
    sim.robots_mut()[0].hit_flash = 9;
    sim.advance_frame();
    assert_eq!(sim.robots()[0].hit_flash, 4, "clamp 5 then -1");
    sim.advance_frame();
    assert_eq!(sim.robots()[0].hit_flash, 3);
    sim.robots_mut()[0].hit_flash = 4;
    sim.robots_mut()[0].alive = false;
    sim.advance_frame();
    assert_eq!(sim.robots()[0].hit_flash, 4, "dead robots freeze");
    sim.robots_mut()[0].alive = true;
    sim.robots_mut()[0].hp = 0;
    sim.advance_frame();
    assert_eq!(sim.robots()[0].hit_flash, 4, "hp < 1 freezes");
}

#[test]
fn battery_seam_runs_the_landing_formula() {
    let mut sim = damage_sim();
    assert_eq!(sim.robots()[0].hp, 5000);
    sim.set_battery(0, 7);
    assert_eq!((sim.robots()[0].battery, sim.robots()[0].hp), (7, 5700));
    sim.set_battery(0, 0);
    assert_eq!(sim.robots()[0].hp, 5000);
    // Out-of-range idx is a no-op (charter).
    sim.set_battery(9, 7);
}

#[test]
fn hash_covers_the_damage_fields() {
    let mut sim = damage_sim();
    let base = sim.state_hash();
    sim.robots_mut()[0].hp -= 1;
    assert_ne!(sim.state_hash().0, base.0, "hp covered");
    sim.robots_mut()[0].armor = 40;
    assert_ne!(sim.state_hash().0, base.0, "armor covered");
    sim.robots_mut()[0].shield = 30;
    assert_ne!(sim.state_hash().0, base.0, "shield covered");
    sim.robots_mut()[0].hit_flash = 2;
    assert_ne!(sim.state_hash().0, base.0, "hit_flash covered");
    sim.robots_mut()[0].death_flag = 1;
    assert_ne!(sim.state_hash().0, base.0, "death_flag covered");
}

/// A synthetic `.TOT` volume (`u16 w + u16 h + 8 × w·h u16
/// plane-major,  2) with `(tile, z, word)` overrides.
fn tot_volume(w: i32, h: i32, words: &[(usize, usize, u16)]) -> Vec<u8> {
    let n = (w * h) as usize;
    let mut tot = vec![0u8; 4 + 2 * 8 * n];
    tot[0..2].copy_from_slice(&(w as u16).to_le_bytes());
    tot[2..4].copy_from_slice(&(h as u16).to_le_bytes());
    for &(tile, z, word) in words {
        let o = 4 + 2 * (z * n + tile);
        tot[o..o + 2].copy_from_slice(&word.to_le_bytes());
    }
    tot
}

/// The pickup walk fixture: flat 16×16 floor type 5
/// (height 3, slot 4), the type-3 pickup cells at (5,8) and (4,8)
/// with heights = 3 so they floor exactly like the deck (the
/// walk passes THROUGH the probe reach, no standing-on). `a`
/// spawns at (2,8) (the clicked armer), `b` at (6,8) (the walker
/// west through both cells toward spread slot (3,8)).
fn pickup_walk_sim() -> MissionSim {
    let mut hs = zero_heights(8);
    hs[4] = [3u8; 1024];
    hs[2] = [3u8; 1024]; // type-3 height slot
    let w = 16;
    let h = 16;
    let mut dat = vec![0u8; (8 * w * h) as usize];
    for y in 0..h {
        for x in 0..w {
            dat[(y * w + x) as usize] = if (x == 4 || x == 5) && y == 8 {
                3u8
            } else {
                5u8
            };
        }
    }
    MissionSim::new(
        Terrain::from_parts(w, h, dat, hs).unwrap(),
        sintable_like(),
        21,
    )
}

#[test]
fn stage_pickup_surface_follows_init_tiles() {
    let mut sim = pickup_walk_sim();
    let a = sim.spawn_robot((2, 8, 0));
    let _ = a;
    sim.terrain.dat_write(0, 0, 0, 0);
    let tot = tot_volume(16, 16, &[(8 * 16 + 4, 0, 0x52), (0, 0, 0x131)]);
    assert!(sim.stage_pickup_surface(&tot, 1));
    assert_eq!(sim.mirror_word(8 * 16 + 4, 0), 0x52);
    assert_eq!(sim.mirror_word(0, 0), 0x131, "word stages at a DAT-0 cell");
    assert_eq!(sim.mirror_seen(0, 0), 1, "seen at the DAT-0 cell");
    assert_eq!(sim.mirror_seen(8 * 16 + 4, 0), 0, "no seen under type 3");
    // The rest of the deck (type 5, DAT≠0): words stay 0 (not in
    // the TOT), seen 0.
    assert_eq!(sim.mirror_word(8 * 16 + 6, 0), 0);
    assert_eq!(sim.mirror_seen(8 * 16 + 6, 0), 0);
    // Malformed inputs are refused, never guessed.
    assert!(!sim.stage_pickup_surface(&tot[..tot.len() - 2], 1));
    let bad_dims = tot_volume(8, 8, &[]);
    assert!(!sim.stage_pickup_surface(&bad_dims, 1));
}

#[test]
fn walk_fires_pickups_through_the_probe_reach() {
    let mut sim = pickup_walk_sim();
    let tot = tot_volume(16, 16, &[(8 * 16 + 5, 0, 0x5A), (8 * 16 + 4, 0, 0x52)]);
    assert!(sim.stage_pickup_surface(&tot, 1));
    let a = sim.spawn_robot((2, 8, 0));
    let b = sim.spawn_robot((6, 8, 0));
    sim.robots_mut()[b].hp = 1000;
    assert!(sim.arm_order_at_robot(a));
    let mut frames = 0;
    while frames < 200 && sim.robots()[b].state != STATE_ORDERED {
        sim.advance_frame();
        frames += 1;
    }
    assert!(frames < 200, "the walk terminates through the pickups");
    // Both cells consumed.
    assert_eq!(sim.terrain.dat_type(5, 8, 0), 0, "case-4 cell consumed");
    assert_eq!(sim.terrain.dat_type(4, 8, 0), 0, "case-3 cell consumed");
    assert_eq!(sim.mirror_word(8 * 16 + 5, 0), PICKUP_FLOOR_WORD[0] as u16);
    assert_eq!(sim.mirror_word(8 * 16 + 4, 0), PICKUP_FLOOR_WORD[0] as u16);
    assert_eq!(sim.mirror_seen(8 * 16 + 5, 0), 1);
    assert_eq!(sim.mirror_seen(8 * 16 + 4, 0), 1);
    // The case-3 body ran (hp 1000 + 2500) and the case-4 award
    // staged exactly one table value on one side of the pair.
    assert_eq!(sim.robots()[b].hp, 3500);
    let (s, m) = sim.take_pickup_awards();
    assert!(
        (PICKUP_AWARDS[0].contains(&s) && m == 0) || (PICKUP_AWARDS[1].contains(&m) && s == 0),
        "one row, one table amount: ({s}, {m})"
    );
    assert_eq!(sim.take_pickup_awards(), (0, 0));
    // The armer (state 3, never in the move-toward block) fired
    // nothing — its record is untouched.
    assert_eq!(sim.robots()[a].hp, 5000);
}

#[test]
fn inert_words_latch_but_never_fire() {
    let mut sim = pickup_walk_sim();
    let tot = tot_volume(16, 16, &[(8 * 16 + 5, 0, 0x81), (8 * 16 + 4, 0, 0x81)]);
    assert!(sim.stage_pickup_surface(&tot, 1));
    let a = sim.spawn_robot((2, 8, 0));
    let b = sim.spawn_robot((6, 8, 0));
    assert!(sim.arm_order_at_robot(a));
    let mut frames = 0;
    while frames < 200 && sim.robots()[b].state != STATE_ORDERED {
        sim.advance_frame();
        frames += 1;
    }
    assert!(frames < 200, "the walk still terminates");
    assert_eq!(sim.terrain.dat_type(5, 8, 0), 3, "cell untouched");
    assert_eq!(sim.terrain.dat_type(4, 8, 0), 3, "cell untouched");
    assert_eq!(sim.mirror_word(8 * 16 + 5, 0), 0x81);
    assert_eq!(sim.mirror_seen(8 * 16 + 5, 0), 0);
    assert_eq!(sim.take_pickup_awards(), (0, 0));
    assert_eq!(sim.robots()[b].hp, 5000);
}

#[test]
fn move_sub_tick_clears_the_latch() {
    let mut hs = zero_heights(8);
    hs[4] = [3u8; 1024];
    let mut sim = MissionSim::new(flat_terrain(16, 16, 5, hs), sintable_like(), 5);
    let a = sim.spawn_robot((2, 8, 0));
    let b = sim.spawn_robot((6, 8, 0));
    assert!(sim.arm_order_at_robot(a));
    // Mid-walk: b is state 4 with a target.
    sim.advance_frame();
    assert_eq!(sim.robots()[b].state, STATE_MOVING);
    sim.terrain.last_trigger = Some((0, 1, 1)); // stale latch
    sim.advance_frame();
    assert_eq!(
        sim.terrain.last_trigger, None,
        "the move sub-tick cleared the stale latch"
    );
}

#[test]
fn pickup_case_decodes_the_range_tables() {
    for g in 0..4i32 {
        let b_cases = [9, 7, 8];
        for o in 0..4i32 {
            assert_eq!(
                pickup_case(0x4E + 4 * g + o, 0),
                Some([1, 3, 2, 4][g as usize])
            );
            if (g as usize) < b_cases.len() {
                assert_eq!(pickup_case(0x75 + 4 * g + o, 0), Some(b_cases[g as usize]));
            }
        }
    }
    // The blocks are closed: the words just past each block and
    // every non-pickup word decode to None.
    assert_eq!(pickup_case(0x4E + 16, 0), None);
    assert_eq!(pickup_case(0x75 + 12, 0), None);
    assert_eq!(pickup_case(0x4D, 0), None);
    assert_eq!(pickup_case(0x10, 0), None);
    // Set 3 (A=0x358), set 2 (B=0x70b), set 5 (A=0xa3, B=0x4fe)
    // + a bogus set index.
    assert_eq!(pickup_case(0x358, 3), Some(1));
    assert_eq!(pickup_case(0x358 + 12, 3), Some(4));
    assert_eq!(pickup_case(0x70B + 4, 2), Some(7));
    assert_eq!(pickup_case(0xA3 + 8, 5), Some(2));
    assert_eq!(pickup_case(0x4FE + 8, 5), Some(8));
    assert_eq!(pickup_case(0x4FE + 4, 7), None, "set 7 has no table");
}

#[test]
fn apply_pickup_follows_fun_0040eba0_cases() {
    let mut sim = damage_sim();
    let out = sim.apply_pickup(0, 1);
    assert_eq!((out.applied, out.effect), (true, 1));
    assert_eq!(sim.robots()[0].drop_countdown, 1000);

    // Case 2 refills the shield pool.
    let mut sim = damage_sim();
    sim.robots_mut()[0].shield = 40;
    let out = sim.apply_pickup(0, 2);
    assert_eq!((out.applied, out.effect), (true, 6));
    assert_eq!(sim.robots()[0].shield, 1000);

    // Case 3 heals +2500, clamped at 5000.
    let mut sim = damage_sim();
    sim.robots_mut()[0].hp = 1000;
    sim.apply_pickup(0, 3);
    assert_eq!(sim.robots()[0].hp, 3500);
    let out = sim.apply_pickup(0, 3);
    assert_eq!((out.applied, out.effect), (true, 7));
    assert_eq!(sim.robots()[0].hp, 5000, "0x1388 clamp");

    // Case 7 arms the booster countdown.
    let mut sim = damage_sim();
    let out = sim.apply_pickup(0, 7);
    assert_eq!((out.applied, out.effect), (true, 0xE));
    assert_eq!(sim.robots()[0].shield_boost, 200);

    let mut sim = damage_sim();
    let out = sim.apply_pickup(0, 4);
    assert_eq!((out.applied, out.effect), (true, 1));
    let (s, m) = sim.take_pickup_awards();
    let sums: (bool, bool) = (
        PICKUP_AWARDS[0].contains(&s) && m == 0,
        PICKUP_AWARDS[1].contains(&m) && s == 0,
    );
    assert!(sums.0 || sums.1, "one row, one table amount: ({s}, {m})");
    assert_eq!(sim.take_pickup_awards(), (0, 0), "taking clears");
    assert_eq!(sim.robots()[0].hp, 5000, "case 4 writes no robot field");

    let mut sim = damage_sim();
    assert_eq!(
        (sim.apply_pickup(0, 8).applied, sim.robots()[0].shield_boost),
        (true, 0)
    );
    assert_eq!(
        (
            sim.apply_pickup(0, 9).applied,
            sim.robots()[0].drop_countdown
        ),
        (true, 0)
    );
    assert_eq!(sim.apply_pickup(0, 8).effect, 0xC);
    assert_eq!(sim.apply_pickup(0, 9).effect, 0xD);
    assert_eq!(sim.take_pickup_awards(), (0, 0));
    // A bad robot index is never applied.
    assert!(!sim.apply_pickup(9, 1).applied);
    assert_eq!(sim.robots()[0].hp, 5000);
}

#[test]
fn apply_pickup_moves_the_hash_and_boost_feeds_the_pre_walk() {
    // The pickup writes hash-covered fields (7g/D53), and the
    // case-7 arming feeds the phase-0 pre-walk booster decay.
    let mut sim = damage_sim();
    let base = sim.state_hash();
    sim.apply_pickup(0, 7);
    assert_ne!(sim.state_hash().0, base.0, "shield_boost covered");
    sim.advance_frame();
    assert_eq!(sim.robots()[0].shield, SHIELD_BOOST_POOL);
    assert_eq!(sim.robots()[0].shield_boost, 199);
}

#[test]
fn a_dead_robot_takes_no_further_damage() {
    let mut sim = damage_sim();
    let out = sim.apply_damage(0, 9999, -1);
    assert!(out.died);
    let hash = sim.state_hash();
    let pads: Vec<u8> = (0..64).map(|t| sim.armor_pad_byte(t)).collect();
    let again = sim.apply_damage(0, 500, -1);
    assert!(!again.applied && !again.died);
    assert_eq!(sim.state_hash(), hash);
    assert_eq!((0..64).map(|t| sim.armor_pad_byte(t)).collect::<Vec<u8>>(), pads);
}

#[test]
fn only_one_order_is_pending_at_a_time() {
    let hs = zero_heights(8);
    let mut sim = MissionSim::new(flat_terrain(8, 8, 5, hs), sintable_like(), 11);
    sim.spawn_robot((2, 3, 0));
    sim.spawn_robot((5, 5, 0));
    assert!(sim.arm_order_at_robot(0));
    let hash = sim.state_hash();
    assert!(!sim.arm_order_at_robot(1));
    assert!(!sim.arm_order_at_robot(0));
    assert_eq!(sim.state_hash(), hash);
}

#[test]
fn scorch_stays_capped_and_fades_within_seven_frames() {
    let mut sim = damage_sim();
    for _ in 0..5 {
        sim.scorch_increment(3 * 32, 3 * 32, 3);
    }
    assert_eq!(sim.armor_pad_byte(3 * 8 + 3), 7);
    sim.scorch_write(4 * 32, 4 * 32, 200);
    assert_eq!(sim.armor_pad_byte(4 * 8 + 4), 7);
    for _ in 0..7 {
        sim.advance_frame();
    }
    assert_eq!((0..64).map(|t| sim.armor_pad_byte(t)).max().unwrap(), 0);
}

#[test]
fn dat_plane_bytes_refuses_an_oversize_header() {
    assert!(dat_plane_bytes(&[0xFF, 0xFF, 0xFF, 0xFF]).is_none());
    assert!(Terrain::from_mission_bytes(&[0xFF, 0xFF, 0xFF, 0xFF], &[], &[0, 0]).is_none());
}
