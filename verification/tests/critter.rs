use bedlam_core::critter::CritterRecord;
use bedlam_core::mission::{AngleTable, MissionSim, Terrain};

fn sim_flat(seed: u64) -> MissionSim {
    let mut planes = vec![0u8; 8 * 32 * 32];
    for b in planes[2 * 32 * 32..3 * 32 * 32].iter_mut() {
        *b = 1;
    }
    let heights = vec![[0x1Fu8; 1024]];
    let terrain = Terrain::from_parts(32, 32, planes, heights).unwrap();
    let angles = AngleTable::from_thresholds(&[0u16; 64]).unwrap();
    let mut sim = MissionSim::new(terrain, angles, seed);
    sim.linear = 5; // m = 5 → hp = 200 + 1000/27 = 237
    sim
}

fn s2_nme(w3: u16, w4: u16) -> Vec<u8> {
    let mut b = Vec::new();
    b.extend_from_slice(&0u16.to_le_bytes()); // S1 count
    b.extend_from_slice(&1u16.to_le_bytes()); // S2 count
    for w in [1u16, 0, 0, w3, w4] {
        b.extend_from_slice(&w.to_le_bytes());
    }
    for _ in 0..6 {
        b.extend_from_slice(&0u16.to_le_bytes()); // S3..S8 counts
    }
    b
}

fn s6_nme(n: u16, w1: u16, w2: u16, w3: u16) -> Vec<u8> {
    let mut b = Vec::new();
    b.extend_from_slice(&0u16.to_le_bytes()); // S1
    b.extend_from_slice(&0u16.to_le_bytes()); // S2
    b.extend_from_slice(&0u16.to_le_bytes()); // S3
    b.extend_from_slice(&0u16.to_le_bytes()); // S4
    b.extend_from_slice(&0u16.to_le_bytes()); // S5
    b.extend_from_slice(&n.to_le_bytes()); // S6 count
    for _ in 0..n {
        for w in [1u16, w1, w2, w3] {
            b.extend_from_slice(&w.to_le_bytes());
        }
    }
    b.extend_from_slice(&0u16.to_le_bytes()); // S7
    b.extend_from_slice(&0u16.to_le_bytes()); // S8
    b
}

fn sim_sine(seed: u64) -> MissionSim {
    let mut planes = vec![0u8; 8 * 32 * 32];
    for b in planes[2 * 32 * 32..3 * 32 * 32].iter_mut() {
        *b = 1;
    }
    let heights = vec![[0x1Fu8; 1024]];
    let terrain = Terrain::from_parts(32, 32, planes, heights).unwrap();
    let mut words = vec![0i16; 256];
    for (a, w) in words.iter_mut().enumerate() {
        *w = ((a as f64 * std::f64::consts::PI / 128.0).sin() * 32767.0).round() as i16;
    }
    let angles = AngleTable::from_sintable_words(&words).unwrap();
    let mut sim = MissionSim::new(terrain, angles, seed);
    sim.linear = 5; // m = 5 → S1 hp = 175 + 875/27 = 207
    sim
}

fn s1_nme(n: u16, w1: u16, w2: u16, w3: u16, w4: u16) -> Vec<u8> {
    let mut b = Vec::new();
    b.extend_from_slice(&n.to_le_bytes()); // S1 count
    for _ in 0..n {
        for w in [1u16, w1, w2, w3, w4] {
            b.extend_from_slice(&w.to_le_bytes());
        }
    }
    for _ in 0..7 {
        b.extend_from_slice(&0u16.to_le_bytes()); // S2..S8
    }
    b
}

fn s5_nme(n: u16, w1: u16, w2: u16, w3: u16, w4: u16) -> Vec<u8> {
    let mut b = Vec::new();
    for _ in 0..4 {
        b.extend_from_slice(&0u16.to_le_bytes()); // S1..S4
    }
    b.extend_from_slice(&n.to_le_bytes()); // S5 count
    for _ in 0..n {
        for w in [1u16, w1, w2, w3, w4] {
            b.extend_from_slice(&w.to_le_bytes());
        }
    }
    for _ in 0..3 {
        b.extend_from_slice(&0u16.to_le_bytes()); // S6..S8
    }
    b
}

fn s7_nme(n: u16, w1: u16, w2: u16) -> Vec<u8> {
    let mut b = Vec::new();
    for _ in 0..6 {
        b.extend_from_slice(&0u16.to_le_bytes()); // S1..S6
    }
    b.extend_from_slice(&n.to_le_bytes()); // S7 count
    for _ in 0..n {
        for w in [1u16, w1, w2] {
            b.extend_from_slice(&w.to_le_bytes());
        }
    }
    b.extend_from_slice(&0u16.to_le_bytes()); // S8
    b
}

#[test]
fn s2_staging_spawns_and_seeds() {
    let mut sim = sim_flat(0xC0FFEE);
    let staged = sim.stage_critters(&s2_nme(10, 10), 1).expect("S2 staged");
    // difficulty 1 → d+3 = 4 wanderers on the flat level-2 world.
    assert_eq!(staged, 4);
    assert_eq!(sim.critters.len(), 4);
    for c in sim.critters() {
        assert_eq!(c.kind, 1);
        assert_eq!(c.species, 1);
        assert_eq!(c.dir, -1, "the S2 DIR seed");
        assert_eq!(c.frame, 0);
        assert_eq!(c.z, 2 * 0x20 + 0x1F);
        assert_eq!(c.z_restore, c.z);
        assert_eq!(c.x, 10 * 0x20 + 0x10);
        assert_eq!(c.y, 10 * 0x20 + 0x10);
        assert_eq!(c.hp, 200 + 200 * 5 / 27, "hp = 200+(200·m)/27, m=5");
        assert!((10..=19).contains(&c.countdown));
        assert!(c.presence);
    }
}

#[test]
fn s2_staging_draw_budget_one_per_critter() {
    let mut a = sim_flat(7);
    let mut b = sim_flat(7);
    a.stage_critters(&s2_nme(4, 4), 2).expect("staged");
    // d=2 → 5 critters → exactly 5 bounded_pick(10) draws.
    for _ in 0..5 {
        b.bounded_pick(10);
    }
    assert_eq!(a.rand_a_state(), b.rand_a_state());
}

#[test]
fn s2_search_rejects_no_air_above() {
    // A >3 special byte sits at the level directly ABOVE the
    // first standable tile: the scan stops at level 2 (plane-2
    // solid), but the stand gate reads level 3 ≠ 0 → reject.
    let mut sim = sim_flat(0xABCD);
    sim.terrain.dat_write(10, 10, 3, 7);
    let probe = sim_flat(0xABCD);
    let staged = sim.stage_critters(&s2_nme(10, 10), 0).expect("staged");
    assert_eq!(staged, 0, "no air above → no spawn");
    assert_eq!(sim.rand_a_state(), probe.rand_a_state(), "no draws");
}

#[test]
fn s2_search_continues_past_special_lands_below() {
    // The scan SKIPS a >3 tile (level 4) and keeps going: with
    // plane 2 cleared at the tile, it lands on a 1..3 tile at
    // level 1 with air above.
    let mut sim = sim_flat(0xBEEF);
    sim.terrain.dat_write(10, 10, 2, 0);
    sim.terrain.dat_write(10, 10, 4, 7);
    sim.terrain.dat_write(10, 10, 1, 2);
    let staged = sim.stage_critters(&s2_nme(10, 10), 0).expect("staged");
    assert_eq!(staged, 3, "d=0 → 3 spawns at level 1");
    assert_eq!(sim.critters()[0].z, 0x3F);
}

#[test]
fn s6_staging_one_each_draw_free_s3_stamps() {
    for d in [0u32, 3] {
        let mut sim = sim_flat(0x5EED);
        let probe = sim_flat(0x5EED);
        let staged = sim
            .stage_critters(&s6_nme(3, 2, 10, 12), d)
            .expect("S6 staged");
        assert_eq!(staged, 3, "one each at d={d}");
        assert_eq!(sim.critters.len(), 3);
        assert_eq!(sim.rand_a_state(), probe.rand_a_state(), "no draws");
        let expected_z = sim.terrain.floor_z(
            (10 * 0x2000 + 0xF00) >> 8,
            (12 * 0x2000 + 0xF00) >> 8,
            2 * 32,
        );
        for c in sim.critters() {
            assert_eq!(c.kind, 6);
            assert_eq!(c.species, 3);
            assert_eq!(c.mode, 8);
            assert_eq!(c.anim, 5);
            assert_eq!(c.heading, 0x72);
            assert_eq!(c.x, 10 * 0x2000 + 0xF00);
            assert_eq!(c.y, 12 * 0x2000 + 0xF00);
            assert_eq!(c.home_x, c.x, "the S3 home convention");
            assert_eq!(c.home_y, c.y);
            assert_eq!(c.countdown, 0, "w@+0x56 = 0");
            // m = 5 (sim_flat) → hp = 150 + 750/27 = 177.
            assert_eq!(c.hp, 150 + 150 * 5 / 27);
            assert!(c.presence);
            // z = the floor probe at level w1 on the flat world.
            assert_eq!(c.z, expected_z);
        }
    }
}

#[test]
fn s6_mixed_with_modeled_sections_preserves_file_order() {
    // S2 → S3 → S4 → S6 in file order: an .NME with one record
    // each of S2/S3/S4/S6 stages the sections in order (d=1:
    // 4 wanderers, 1..2 kind-5, 2 kind-4, 1 kind-6).
    let mut b = Vec::new();
    b.extend_from_slice(&0u16.to_le_bytes()); // S1
    b.extend_from_slice(&1u16.to_le_bytes()); // S2
    for w in [1u16, 0, 0, 6, 6] {
        b.extend_from_slice(&w.to_le_bytes());
    }
    b.extend_from_slice(&1u16.to_le_bytes()); // S3
    for w in [1u16, 2, 10, 10] {
        b.extend_from_slice(&w.to_le_bytes());
    }
    b.extend_from_slice(&1u16.to_le_bytes()); // S4
    for w in [1u16, 2, 10, 10] {
        b.extend_from_slice(&w.to_le_bytes());
    }
    b.extend_from_slice(&0u16.to_le_bytes()); // S5
    b.extend_from_slice(&1u16.to_le_bytes()); // S6
    for w in [1u16, 2, 10, 10] {
        b.extend_from_slice(&w.to_le_bytes());
    }
    b.extend_from_slice(&0u16.to_le_bytes()); // S7
    b.extend_from_slice(&0u16.to_le_bytes()); // S8
    let mut sim = sim_flat(0x600D);
    let staged = sim.stage_critters(&b, 1).expect("staged");
    let kinds: Vec<u16> = sim.critters().iter().map(|c| c.kind).collect();
    let k5 = kinds.iter().filter(|&&k| k == 5).count();
    assert!((1..=2).contains(&k5), "d=1 → the S3 RandA&1+1 roll");
    let mut expected = vec![1u16; 4]; // S2: d+3 wanderers first
    expected.extend((0..k5).map(|_| 5)); // S3 after S2
    expected.extend([4, 4]); // S4 after S3
    expected.push(6); // S6 last (file order)
    assert_eq!(staged, expected.len());
    assert_eq!(kinds, expected);
}

#[test]
fn s3_s4_hp_scalars_read_linear_m_not_difficulty() {
    let mut b = Vec::new();
    b.extend_from_slice(&0u16.to_le_bytes()); // S1
    b.extend_from_slice(&0u16.to_le_bytes()); // S2
    b.extend_from_slice(&1u16.to_le_bytes()); // S3
    for w in [1u16, 2, 10, 10] {
        b.extend_from_slice(&w.to_le_bytes());
    }
    b.extend_from_slice(&1u16.to_le_bytes()); // S4
    for w in [1u16, 2, 10, 10] {
        b.extend_from_slice(&w.to_le_bytes());
    }
    for _ in 0..4 {
        b.extend_from_slice(&0u16.to_le_bytes()); // S5..S8
    }
    let mut sim = sim_flat(0x7A11);
    sim.stage_critters(&b, 3).expect("staged");
    // d=3 → S3 spawns max(3,1) = 3, S4 spawns (3>>1)+2 = 3.
    let k5: Vec<i16> = sim.critters()[..3].iter().map(|c| c.hp).collect();
    let k4: Vec<i16> = sim.critters()[3..].iter().map(|c| c.hp).collect();
    assert!(
        k5.iter().all(|&h| h == 177),
        "kind-5 hp m-scaled (got {k5:?})"
    );
    assert!(
        k4.iter().all(|&h| h == 237),
        "kind-4 hp m-scaled (got {k4:?})"
    );
    let mut sim0 = sim_flat(0x7A11);
    sim0.linear = 0;
    sim0.stage_critters(&b, 3).expect("staged");
    assert_eq!(sim0.critters()[0].hp, 150, "m=0 → base hp (kind 5)");
    assert_eq!(sim0.critters()[3].hp, 200, "m=0 → base hp (kind 4)");
}

#[test]
fn s1_staging_spawns_and_seeds() {
    // w1 = 2, d = 1 → 3 attempts per record; the central tile of
    // the 32×32 world always passes the bounds gate (jitter −2..2
    // on tile 15 stays in [0,32)).
    let mut sim = sim_sine(0xC0FFEE);
    let staged = sim
        .stage_critters(&s1_nme(2, 2, 0, 15, 15), 1)
        .expect("S1 staged");
    assert_eq!(staged, 6);
    for c in sim.critters() {
        assert_eq!(c.kind, 2);
        assert_eq!(c.species, 1);
        assert_eq!(c.z, 0xC000, "the FIXED Q13 spawn z (6 levels)");
        assert_eq!(c.heading, 0);
        assert!(c.anim <= 7, "anim seed = RandA&7");
        assert!((3..=6).contains(&c.variant), "variant = pick(4)+3 ∈ [3,7)");
        // (RandA&0x1F)−0xF ∈ [−15,+15] stored as the u16 word.
        let timer = c.facing as i16 as i32;
        assert!((-15..=15).contains(&timer), "the +0x72 timer stamp");
        assert_eq!(c.hp, 175 + 175 * 5 / 27, "hp = 175+(175·m)/27, m=5");
        // The jittered tile: (w3 + pick − 2)·0x2000, pick ∈ [0,5).
        assert!((13..=17).contains(&(c.x >> 13)));
        assert!((13..=17).contains(&(c.y >> 13)));
        assert!(c.presence);
    }
}

#[test]
fn s1_w2_flag_negates_the_variant() {
    let mut sim = sim_sine(0xBEEF);
    sim.stage_critters(&s1_nme(1, 1, 1, 15, 15), 0)
        .expect("staged");
    let c = &sim.critters()[0];
    assert!(c.variant <= -3, "flagged record: variant = −(pick(4)+3)");
}

#[test]
fn s1_spawn_count_clamps_to_one() {
    let mut sim = sim_sine(0xABCD);
    let staged = sim
        .stage_critters(&s1_nme(1, 0, 0, 15, 15), 0)
        .expect("staged");
    assert_eq!(staged, 1);
}

#[test]
fn s1_bounds_gate_drops_out_of_map_attempts() {
    // Tile 33 (beyond the 32-tile world): EVERY attempt drops —
    // 0 critters, and exactly 4×2 scatter draws consumed
    // (w1 = 3, d = 1 → 4 attempts).
    let mut sim = sim_sine(0x600D);
    let staged = sim
        .stage_critters(&s1_nme(1, 3, 0, 33, 33), 1)
        .expect("staged");
    assert_eq!(staged, 0, "all attempts out of map → dropped");
    let mut probe = sim_sine(0x600D);
    for _ in 0..4 {
        probe.bounded_pick(5);
        probe.bounded_pick(5);
    }
    assert_eq!(sim.rand_a_state(), probe.rand_a_state());
}

#[test]
fn s1_draw_budget_five_per_landed_critter() {
    // Per landed critter: scatter x, scatter y, anim RandA,
    // variant pick(4), timer RandA = 5 draws.
    let mut a = sim_sine(7);
    let mut b = sim_sine(7);
    let staged = a
        .stage_critters(&s1_nme(1, 1, 0, 15, 15), 1)
        .expect("staged");
    assert_eq!(staged, 2);
    for _ in 0..2 {
        b.bounded_pick(5);
        b.bounded_pick(5);
        b.rand_a();
        b.bounded_pick(4);
        b.rand_a();
    }
    assert_eq!(a.rand_a_state(), b.rand_a_state());
}

#[test]
fn s5_staging_one_each_draw_free_with_home_stamps() {
    let mut sim = sim_flat(0x5DC);
    let staged = sim
        .stage_critters(&s5_nme(2, 3, 2, 10, 12), 3)
        .expect("S5 staged");
    assert_eq!(staged, 2, "one each — the difficulty cell is dead");
    for c in sim.critters() {
        assert_eq!(c.kind, 3);
        assert_eq!(c.species, 8, "the spawn-grace counter");
        assert_eq!(c.mode, 0, "awake-idle, NOT 8");
        assert_eq!(c.target_robot, -1);
        assert_eq!(c.x, 10 * 0x2000 + 0xF00);
        assert_eq!(c.y, 12 * 0x2000 + 0xF00);
        assert_eq!(c.home_x, c.x, "S5 is the ONE home-stamping section");
        assert_eq!(c.home_y, c.y);
        assert_eq!(c.home_z, c.z, "home z staged too");
        assert_eq!(c.heading, 3 << 6, "w1<<6");
        assert_eq!(c.spawn_heading, 3 << 6, "the +0x14 wake-heading cell");
        assert_eq!(c.hp, (1500 + 1500 * 5 / 27) as i16, "m = 5");
        assert!(c.presence);
        assert_eq!(c.countdown, 0);
    }
    // Draw-free: the stream did not move.
    let mut probe = sim_flat(0x5DC);
    probe
        .stage_critters(&s5_nme(2, 3, 2, 10, 12), 3)
        .expect("staged");
    assert_eq!(sim.rand_a_state(), probe.rand_a_state());
}

#[test]
fn s7_staging_cascade_counts_and_stamps() {
    let mut sim = sim_flat(0x9C4);
    let staged = sim
        .stage_critters(&s7_nme(2, 10, 12), 2)
        .expect("S7 staged");
    assert_eq!(staged, 4, "d=2 → TWO each");
    assert_eq!(sim.critters.len(), 4);
    for c in sim.critters() {
        assert_eq!(c.kind, 7);
        assert_eq!(c.species, 1, "the substep count");
        assert_eq!(c.mode, 3, "ACTIVE approach — never dormant");
        assert_eq!(c.anim, 0);
        assert_eq!(c.countdown, 0);
        assert_eq!(c.x, 10 * 0x2000 + 0xF00);
        assert_eq!(c.y, 12 * 0x2000 + 0xF00);
        assert_eq!(c.z, 0xDF, "the FIXED level-6-top constant");
        assert_eq!(c.hp, (2500 + 2500 * 5 / 27) as i16, "m=5");
        assert!((0..=0xFE).contains(&c.heading), "bounded pick(0xFF)");
        assert_eq!(c.home_x, 0, "S7 stages NO home");
        assert!(c.presence);
    }
    // d=0 and d≥3 → ONE each.
    let mut sim = sim_flat(0x9C5);
    assert_eq!(sim.stage_critters(&s7_nme(1, 8, 8), 0), Some(1));
    let mut sim = sim_flat(0x9C6);
    assert_eq!(sim.stage_critters(&s7_nme(1, 8, 8), 4), Some(1));
}

#[test]
fn s7_staging_draw_budget_roll_plus_heading() {
    let mut a = sim_flat(0xBEA);
    let mut b = sim_flat(0xBEA);
    a.stage_critters(&s7_nme(1, 10, 10), 1).expect("staged");
    let roll = (b.rand_a() & 1) as i32 + 1;
    for _ in 0..roll {
        b.bounded_pick(0xFF);
    }
    assert_eq!(a.rand_a_state(), b.rand_a_state());
    assert_eq!(a.critters.len(), roll as usize);
    // At d≠1 NO roll draw: d=0 → exactly one heading draw.
    let mut a = sim_flat(0xBEB);
    let mut b = sim_flat(0xBEB);
    a.stage_critters(&s7_nme(1, 10, 10), 0).expect("staged");
    b.bounded_pick(0xFF);
    assert_eq!(a.rand_a_state(), b.rand_a_state());
}
#[test]
fn an_empty_or_short_file_stages_nothing() {
    let mut sim = sim_flat(3);
    assert_eq!(sim.stage_critters(&[], 2), Some(0));
    assert_eq!(sim.stage_critters(&[1], 2), Some(0));
    assert!(sim.critters().is_empty());
}

#[test]
fn a_record_cut_short_reads_zero_words() {
    // S4 with one record whose last word is missing: x tile 10, y tile 0.
    let mut b = Vec::new();
    for _ in 0..3 {
        b.extend_from_slice(&0u16.to_le_bytes());
    }
    b.extend_from_slice(&1u16.to_le_bytes()); // S4 count
    for w in [1u16, 2, 10] {
        b.extend_from_slice(&w.to_le_bytes());
    }
    let mut sim = sim_flat(0x44);
    assert_eq!(sim.stage_critters(&b, 0), Some(2));
    for c in sim.critters() {
        assert_eq!(c.kind, 4);
        assert_eq!((c.x, c.y), (10 * 0x20 + 0xF, 0xF));
        assert!(c.heading <= 3);
    }
}

#[test]
fn effect_rows_take_the_oldest_row_and_age_the_rest() {
    let mut sim = sim_sine(0xE1);
    assert_eq!(sim.effect_rows().len(), 80);
    sim.stage_effect_rows(0x2000, 0x4000, 0x600, 3);
    let rows = sim.effect_rows();
    // All rows start at age 0: the first spawn takes row 0, which then
    // ages once per later spawn.
    assert_eq!((rows[0].x, rows[0].y, rows[0].z, rows[0].id), (0x2000, 0x4000, 0x600, 0));
    assert_eq!(rows[0].age, 2);
    assert_eq!((rows[1].id, rows[1].age), (1, 1));
    assert_eq!((rows[2].id, rows[2].age), (2, 0));
    assert_eq!(rows[3].age, 3);
    for r in &rows[..3] {
        assert!(r.ttl >= 0x80 && r.ttl <= 0xF0 && (r.ttl - 0x80) % 0x10 == 0);
    }
}

#[test]
fn effect_rows_past_eight_pick_their_variant() {
    let mut a = sim_sine(0xE2);
    let mut b = sim_sine(0xE2);
    a.stage_effect_rows(0, 0, 0, 9);
    for _ in 0..9 * 3 {
        b.rand_a();
    }
    b.bounded_pick(5);
    assert_eq!(a.rand_a_state(), b.rand_a_state());
    let id = a.effect_rows()[8].id;
    assert!((3..=7).contains(&id));
}

/// A flat world whose plane 0 is solid (the crush gate reads it) with
/// one kind-5 critter at tile (10, 10) standing on level 0.
fn crush_sim() -> MissionSim {
    let mut planes = vec![0u8; 8 * 32 * 32];
    for b in planes[..32 * 32].iter_mut() {
        *b = 1;
    }
    let heights = vec![[0x1Fu8; 1024]];
    let terrain = Terrain::from_parts(32, 32, planes, heights).unwrap();
    let angles = AngleTable::from_thresholds(&[0u16; 64]).unwrap();
    let mut sim = MissionSim::new(terrain, angles, 0x51);
    let mut b = Vec::new();
    b.extend_from_slice(&0u16.to_le_bytes()); // S1
    b.extend_from_slice(&0u16.to_le_bytes()); // S2
    b.extend_from_slice(&1u16.to_le_bytes()); // S3
    for w in [1u16, 0, 10, 10] {
        b.extend_from_slice(&w.to_le_bytes());
    }
    for _ in 0..5 {
        b.extend_from_slice(&0u16.to_le_bytes());
    }
    assert_eq!(sim.stage_critters(&b, 0), Some(1));
    sim
}

#[test]
fn debris_crushes_a_nearby_critter_through_the_terrain_gate() {
    let mut sim = crush_sim();
    let c = sim.critters()[0];
    assert_eq!(c.hp, 150);
    // Kind 1 debris right on the critter: physics countdown 6, damage 2.
    assert!(sim.stage_debris(c.x >> 8, c.y >> 8, 0x40, 1, 0, -1));
    sim.debris_tick();
    let hit = sim.critters()[0];
    assert_eq!(hit.hp, 148, "one pass of 2");
    // Far debris leaves it alone.
    let mut far = crush_sim();
    assert!(far.stage_debris(25 * 32, 25 * 32, 0x40, 1, 0, -1));
    far.debris_tick();
    assert_eq!(far.critters()[0].hp, 150);
}

/// Flat level-2 world with the sine ramp, the personnel fixture.
fn poi_sim(seed: u64) -> MissionSim {
    let mut planes = vec![0u8; 8 * 32 * 32];
    for b in planes[2 * 32 * 32..3 * 32 * 32].iter_mut() {
        *b = 1;
    }
    let heights = vec![[0x1Fu8; 1024]];
    let terrain = Terrain::from_parts(32, 32, planes, heights).unwrap();
    let mut words = vec![0i16; 256];
    for (a, w) in words.iter_mut().enumerate() {
        *w = ((a as f64 * std::f64::consts::PI / 128.0).sin() * 32767.0).round() as i16;
    }
    let angles = AngleTable::from_sintable_words(&words).unwrap();
    MissionSim::new(terrain, angles, seed)
}

/// An .NME hosting exactly one S8 record (w1 = z level, w2/w3 = the x/y
/// tile); every other section empty.
fn s8_nme(w1: u16, w2: u16, w3: u16) -> Vec<u8> {
    let mut b = Vec::new();
    for _ in 0..7 {
        b.extend_from_slice(&0u16.to_le_bytes()); // S1..S7 counts
    }
    b.extend_from_slice(&1u16.to_le_bytes()); // S8 count
    for w in [1u16, w1, w2, w3] {
        b.extend_from_slice(&w.to_le_bytes());
    }
    b
}

#[test]
fn s8_staging_four_per_record_with_exact_seeds() {
    let mut sim = poi_sim(11);
    let staged = sim.stage_critters(&s8_nme(2, 5, 7), 1).expect("S8 accepted");
    // The POIs do NOT add to the critter count.
    assert_eq!(staged, 0);
    assert_eq!(sim.pois().len(), 4, "exactly four POIs per record");
    for p in sim.pois() {
        assert!(p.active);
        assert_eq!(p.state, 1, "spawn IDLE");
        assert_eq!(p.hp, 0x32, "the literal 50 — NO m-scalar on this bank");
        assert_eq!(p.timer, 0, "the memset seed");
        assert_eq!(p.exit_slot, 0);
        assert_eq!(p.draw_word, 0);
        assert!((0..=7).contains(&p.heading), "heading = RandA&7 raw");
        assert!((5 * 0x2000..5 * 0x2000 + 0x1F00).contains(&p.x));
        assert!((7 * 0x2000..7 * 0x2000 + 0x1F00).contains(&p.y));
        assert_eq!(p.z, 0x5F, "the w1-level floor probe (flat level 2)");
    }
}

#[test]
fn s8_staging_draw_budget_three_per_poi() {
    let mut a = poi_sim(7);
    a.stage_critters(&s8_nme(2, 5, 7), 1).expect("staged");
    assert_eq!(a.pois().len(), 4);
    let mut b = poi_sim(7);
    let mut counts_only = Vec::new();
    for _ in 0..8 {
        counts_only.extend_from_slice(&0u16.to_le_bytes());
    }
    b.stage_critters(&counts_only, 1).expect("staged");
    assert!(b.pois().is_empty());
    for _ in 0..12 {
        b.rand_a();
    }
    assert_eq!(a.rand_a_state(), b.rand_a_state(), "the S8 schedule advances exactly 12 draws");
}

#[test]
fn staging_stops_at_the_bank_capacity() {
    let mut sim = sim_flat(0xCAFE);
    let staged = sim.stage_critters(&s6_nme(700, 2, 10, 12), 0).expect("staged");
    assert_eq!(staged, bedlam_core::critter::CRITTER_SLOTS);
    assert_eq!(sim.critters().len(), 0x2AC);
}

fn sim_with_plane0(nonzero: bool) -> MissionSim {
    let mut planes = vec![0u8; 8 * 32 * 32];
    if nonzero {
        // Nonzero volume at the probe block rows 4..6, col 4 (the debris
        // at tile (5,5) probes rows 4..6 at col 4).
        for row in 4..7 {
            planes[row * 32 + 4] = 3;
        }
    }
    let terrain = Terrain::from_parts(32, 32, planes, Vec::new()).unwrap();
    let angles = AngleTable::from_thresholds(&[0u16; 64]).unwrap();
    MissionSim::new(terrain, angles, 0xC0FFEE)
}

fn push_critter(sim: &mut MissionSim, kind: u16, mode: u16, hp: i16, x: i32, y: i32) {
    let z = 0x1F;
    sim.critters.push(CritterRecord {
        kind,
        species: 1,
        attacker: 0,
        hp,
        mode,
        anim: 0,
        heading: 0,
        presence: true,
        target_x: 0,
        target_y: 0,
        target_z: 0,
        impact_x: 0,
        impact_y: 0,
        x,
        y,
        z,
        home_x: x,
        home_y: y,
        countdown: 0,
        dir: -1,
        frame: 0,
        z_restore: z,
        death_ctr: 0,
        target_robot: -1,
        fuse: 0,
        facing: 0,
        variant: 0,
        home_z: 0,
        spawn_heading: 0,
        seek_sector: 0,
        knock_vx: 0,
        knock_vy: 0,
        fall_rate: 0,
        scan_robot: 0,
        scan_dist: 10_000_000,
    });
}

/// A k12 chunk (phys 6, radius 96) at tile (5,5) center.
fn stage_k12(sim: &mut MissionSim) {
    assert!(sim.stage_debris(5 * 0x20 + 0x10, 5 * 0x20 + 0x10, 0x20, 12, 0, -1));
}

#[test]
fn terrain_gate_blocks_empty_ground() {
    // All-zero volume planes: the critter walk never runs — no damage
    // even point-blank.
    let mut sim = sim_with_plane0(false);
    push_critter(&mut sim, 5, 0xA, 100, (5 * 0x20 + 0x10) << 8, (5 * 0x20 + 0x10) << 8);
    stage_k12(&mut sim);
    for _ in 0..6 {
        sim.advance_frame();
    }
    assert_eq!(sim.critters()[0].hp, 100);
}

#[test]
fn crush_damage_mag_and_falloff_gate() {
    // Gate open + point-blank: hp -= 25 per frame (kind 12), six frames.
    let mut sim = sim_with_plane0(true);
    let cx = (5 * 0x20 + 0x10 - 8) << 8;
    let cy = (5 * 0x20 + 0x10) << 8;
    push_critter(&mut sim, 5, 0xA, 500, cx, cy);
    stage_k12(&mut sim);
    for _ in 0..6 {
        sim.advance_frame();
    }
    assert_eq!(sim.critters()[0].hp, 500 - 6 * 25);
    // Falloff gate: at radius 96 the falloff ((96-1)-dist)>>3 drops to 2
    // at dist 71 — no damage beyond that.
    let mut far = sim_with_plane0(true);
    push_critter(&mut far, 5, 0xA, 100, (5 * 0x20 + 0x10 - 72) << 8, (5 * 0x20 + 0x10) << 8);
    stage_k12(&mut far);
    for _ in 0..6 {
        far.advance_frame();
    }
    assert_eq!(far.critters()[0].hp, 100, "falloff <= 2 -> no crush");
}

#[test]
fn crush_mode_and_kind_gates() {
    // Modes 7/6/0xB are skipped by the walk; kind 2/7 by the dispatcher.
    for mode in [7u16, 6, 0xB] {
        let mut sim = sim_with_plane0(true);
        push_critter(&mut sim, 5, mode, 100, (5 * 0x20 + 0x10 - 8) << 8, (5 * 0x20 + 0x10) << 8);
        stage_k12(&mut sim);
        sim.advance_frame();
        assert_eq!(sim.critters()[0].hp, 100, "mode {mode} skipped");
    }
    let mut sim = sim_with_plane0(true);
    push_critter(&mut sim, 2, 0xA, 100, (5 * 0x20 + 0x10 - 8) << 8, (5 * 0x20 + 0x10) << 8);
    stage_k12(&mut sim);
    sim.advance_frame();
    assert_eq!(sim.critters()[0].hp, 100, "kind 2 guarded");
}

#[test]
fn crush_kill_dispatches_environment_death() {
    // hp 10 point-blank: killed with attacker -1; the kind-5/6 handler
    // stamps mode 6 + species 1 + stages the kind-7 chunk.
    let mut sim = sim_with_plane0(true);
    push_critter(&mut sim, 5, 0xA, 10, (5 * 0x20 + 0x10 - 8) << 8, (5 * 0x20 + 0x10) << 8);
    stage_k12(&mut sim);
    sim.advance_frame();
    assert!(sim.critters()[0].hp <= 0);
    assert_eq!(sim.critters()[0].attacker, -1);
    assert_eq!(sim.critters()[0].mode, 6, "the death-dive stamp");
    assert!(sim.debris_bank().iter().any(|r| r.active && r.kind == 7), "the death chunk staged");
}
