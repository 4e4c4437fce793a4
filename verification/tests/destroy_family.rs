use bedlam_core::destroy::{DebrisRecord, SplashRecord, HAZARD_7D2, HAZARD_7D3, WATER_RANGE};
use bedlam_core::mission::{AngleTable, MissionSim, Terrain};
use bedlam_core::objects::{ObjectType, ObjectTypeTable};

fn empty_pos() -> Vec<u8> {
    let mut pos = vec![0xFFu8; 16 * 2000];
    for slot in 0..2000 {
        pos[slot * 16..slot * 16 + 4].copy_from_slice(&0i32.to_le_bytes());
        pos[slot * 16 + 4..slot * 16 + 8].copy_from_slice(&0i32.to_le_bytes());
        pos[slot * 16 + 8..slot * 16 + 12].copy_from_slice(&0i32.to_le_bytes());
        pos[slot * 16 + 12..slot * 16 + 16].copy_from_slice(&(-1i32).to_le_bytes());
    }
    pos
}

fn set_record(pos: &mut [u8], slot: usize, x: i32, y: i32, z: i32, id: i32) {
    let o = slot * 16;
    pos[o..o + 4].copy_from_slice(&x.to_le_bytes());
    pos[o + 4..o + 8].copy_from_slice(&y.to_le_bytes());
    pos[o + 8..o + 12].copy_from_slice(&z.to_le_bytes());
    pos[o + 12..o + 16].copy_from_slice(&id.to_le_bytes());
}

fn sim_with(w: i32, h: i32, dat: Vec<u8>) -> MissionSim {
    let terrain = Terrain::from_parts(w, h, dat, Vec::new()).expect("terrain");
    let angles = AngleTable::from_thresholds(&[0u16; 64]).expect("thresholds");
    MissionSim::new(terrain, angles, 0x1234_5678)
}

/// The 32x32 all-empty sim with the destroy banks staged empty.
fn sim() -> MissionSim {
    let mut s = sim_with(32, 32, vec![0u8; 8 * 32 * 32]);
    assert!(s.stage_destroy_family(&ObjectTypeTable::default(), &empty_pos(), &[0u8, 0], 1, 0));
    s
}

fn row(w: u16, h: u16, hp: i32) -> ObjectType {
    ObjectType { w, h, d: 1, hp, ..ObjectType::default() }
}

#[test]
fn creep_site_latches_only_on_the_ring_path() {
    // The destroy path stores no site; the weaken path latches only
    // when the ring gate passes.
    let mut s = sim();
    s.zone = 1;
    s.stage_platform(5, 5, 2, 300);
    s.platform_damage(5, 5, 500);
    assert_eq!(s.platform_site(), (0, 0), "destroy stores no site");
    let mut s2 = sim();
    s2.zone = 1;
    s2.stage_platform(5, 5, 2, 300);
    s2.platform_damage(5, 5, 75);
    assert_eq!(s2.platform_site(), (0, 0), "no ring → no latch");
    assert_eq!(s2.platform_strength_word(5, 5), 225);
    s2.platform_damage(5, 5, 75);
    assert_eq!(s2.platform_strength_word(5, 5), 150);
    assert_eq!(s2.platform_site(), (5, 5), "the ring path latches");
}

#[test]
fn platform_family_arms_and_advances_draw() {
    let mut s = sim();
    s.zone = 1;
    let before = s.rand_a_state();
    for _ in 0..8 {
        s.advance_frame();
    }
    assert_eq!(s.rand_a_state(), before, "unarmed: no draws");
    s.arm_platform_family();
    assert!(s.platform_family_armed());
    let before = s.rand_a_state();
    s.advance_frame();
    assert_ne!(s.rand_a_state(), before, "armed: the creep tick draws its gate");
}

#[test]
fn staging_places_instances_and_stamps_footprints() {
    let mut s = sim_with(8, 8, vec![0u8; 8 * 64]);
    let bdg = ObjectTypeTable { rows: vec![row(2, 1, 40), row(1, 2, 90)] };
    let mut pos = empty_pos();
    set_record(&mut pos, 3, 1, 1, 0, 0);
    set_record(&mut pos, 7, 2, 1, 2, 1); // overlaps the first footprint
    set_record(&mut pos, 9, 7, 7, 0, 0); // footprint runs off the map
    set_record(&mut pos, 12, 4, 4, 0, 5); // names no type row
    let mut trt = vec![1u8, 0];
    trt.extend_from_slice(&3i32.to_le_bytes());
    trt.extend_from_slice(&4i32.to_le_bytes());
    trt.extend_from_slice(&1i32.to_le_bytes());
    assert!(s.stage_destroy_family(&bdg, &pos, &trt, 3, 27));
    let objs = s.objects();
    assert_eq!(objs.len(), 4);
    assert_eq!((objs[0].x, objs[0].y, objs[0].id, objs[0].hp, objs[0].slot), (1, 1, 0, 40, 3));
    assert_eq!((objs[1].hp, objs[1].slot, objs[1].z), (90, 7, 2));
    assert_eq!(objs[3].hp, 0, "no type row: hp stays 0");
    assert!(!objs[0].destroyed);
    // Instance 1 (word 1) covers (1,1)-(2,1); instance 2 (word 2)
    // overwrites (2,1) and covers (2,2); instance 3 clips at the edge.
    assert_eq!(s.object_grid_word(1, 1), 1);
    assert_eq!(s.object_grid_word(2, 1), 2);
    assert_eq!(s.object_grid_word(2, 2), 2);
    assert_eq!(s.object_grid_word(7, 7), 3);
    assert_eq!(s.object_grid_word(4, 4), 0);
    assert_eq!(s.object_grid_word(-1, 0), 0);
    assert_eq!(s.object_grid().len(), 64);
    assert_eq!(s.platform_bank(), &[0u16; 64][..]);
    assert_eq!(s.structures().len(), 1);
    assert_eq!((s.structures()[0].x, s.structures()[0].hp), (3, 500));
    assert_eq!(s.mirror_words().len(), 512);
}

#[test]
fn staging_with_a_short_pos_file_is_refused() {
    let mut s = sim_with(8, 8, vec![0u8; 8 * 64]);
    let bdg = ObjectTypeTable { rows: vec![row(1, 1, 5)] };
    assert!(!s.stage_destroy_family(&bdg, &[0u8; 16], &[0u8, 0], 2, 0));
    assert!(s.objects().is_empty());
    assert_eq!(s.zone, 2);
    assert!(s.object_grid().is_empty());
}

#[test]
fn hazard_words_stamp_the_object_grid() {
    let mut s = sim_with(4, 4, vec![0u8; 8 * 16]);
    assert!(s.stage_destroy_family(&ObjectTypeTable::default(), &empty_pos(), &[0u8, 0], 1, 0));
    let mut words = vec![0u16; 8 * 16];
    words[5 * 8 + 3] = HAZARD_7D2[1] as u16 + 2; // tile 5: 0x7d2
    words[6 * 8 + 1] = HAZARD_7D3[1] as u16; // tile 6: 0x7d3 ...
    words[7 * 8 + 1] = HAZARD_7D2[1] as u16; // tile 7: 0x7d2 then ...
    words[7 * 8 + 4] = HAZARD_7D3[1] as u16 + 4; // ... a later 0x7d3 wins
    assert!(s.stage_terrain_mirror(&words));
    assert!(!s.stage_terrain_mirror(&words[1..]));
    s.stamp_hazard_words();
    assert_eq!(s.object_grid_word(1, 1), 0x7d2);
    assert_eq!(s.object_grid_word(2, 1), 0x7d3);
    assert_eq!(s.object_grid_word(3, 1), 0x7d3);
    assert_eq!(s.object_grid_word(0, 0), 0);
}

#[test]
fn journal_records_writes_and_gates_rendered_words() {
    let mut s = sim();
    s.zone = 1;
    assert!(!s.accept_rendered_words(&vec![0u16; 8 * 1024]), "not observing yet");
    s.observe_terrain_writes();
    s.z_structure_write(2, 3, 4, 0x55, 0);
    let c = (3 * 32 + 2) * 8 + 4;
    assert_eq!(s.mirror_word(3 * 32 + 2, 4), 0x55);
    assert_eq!(s.mirror_seen(3 * 32 + 2, 4), 1);
    assert!(!s.accept_rendered_words(&vec![7u16; 8 * 1024]), "journal not drained");
    assert_eq!(s.take_terrain_writes(), vec![(c, 0x55, 1)]);
    assert!(s.take_terrain_writes().is_empty());
    assert!(!s.accept_rendered_words(&vec![7u16; 3]), "wrong size");
    assert!(s.accept_rendered_words(&vec![7u16; 8 * 1024]));
    assert_eq!(s.mirror_word(0, 0), 7);
}

#[test]
fn z_structure_write_sets_word_seen_and_volume() {
    let mut s = sim();
    s.z_structure_write(1, 1, 2, 0x30, 2);
    assert_eq!(s.mirror_word(33, 2), 0x30);
    assert_eq!(s.mirror_seen(33, 2), 0, "a volume clears seen");
    assert_eq!(s.terrain.dat_type(1, 1, 2), 2);
    s.z_structure_write(1, 1, 2, 0, 0);
    assert_eq!((s.mirror_word(33, 2), s.mirror_seen(33, 2)), (0, 0));
    s.z_structure_write(1, 1, 8, 0x30, 2);
    s.z_structure_write(-1, 1, 2, 0x30, 2);
    assert_eq!(s.mirror_word(33, 2), 0, "off-volume writes drop");
}

#[test]
fn platform_staging_and_probe() {
    let mut s = sim();
    s.zone = 8;
    assert!(!s.stage_platform(1, 1, 2, 300), "zone outside the table");
    s.zone = 2;
    assert!(s.stage_platform(1, 1, 2, 300));
    assert_eq!(s.object_grid_word(1, 1), 0x7d4);
    assert_eq!(s.platform_strength_word(1, 1), 300);
    assert_eq!(s.mirror_word(33, 2) as i32, WATER_RANGE[2]);
    assert!(!s.stage_platform(32, 1, 2, 300));
    // The probe climbs past the platform's volume to the first free level.
    assert_eq!(s.splash_probe_z(1, 1, 2), 3);
    assert_eq!(s.splash_probe_z(1, 1, -4), 0);
    assert_eq!(s.splash_probe_z(1, 1, 99), 7);
    assert_eq!(s.splash_probe_z(-1, 0, 0), 7);
}

#[test]
fn splashes_fill_free_slots_then_evict_the_oldest() {
    let mut s = sim();
    assert!(s.stage_splash(3, 4, 9, 5));
    assert_eq!(
        s.splash_bank()[0],
        SplashRecord { x: 3, y: 4, z: 7, delay: 5, age: 1 }
    );
    s.z_structure_write(3, 5, 1, 0x11, 0);
    assert!(!s.stage_splash(3, 5, 1, 0), "a mirror word refuses");
    assert!(!s.stage_splash(32, 0, 1, 0), "off the map");
    for i in 1..250 {
        assert!(s.stage_splash((i % 32) as i32, (i / 32) as i32, 0, 0));
    }
    assert!(s.splash_bank().iter().all(|r| r.age == 1));
    assert!(s.stage_splash(9, 9, 1, 3));
    assert_eq!(
        s.splash_bank()[0],
        SplashRecord { x: 9, y: 9, z: 1, delay: 3, age: 1 },
        "the first slot of the greatest age is evicted"
    );
}

#[test]
fn debris_fills_the_ring_then_evicts_the_stalest() {
    let mut s = sim();
    assert!(!s.stage_debris(-1, 0, 0, 1, 0, 0));
    assert!(!s.stage_debris(0, 0, 0, 21, 0, 0));
    assert!(s.stage_debris(0x40, 0x60, 0x300, 2, 4, 9));
    let r = s.debris_bank()[0];
    assert_eq!(
        r,
        DebrisRecord {
            active: true,
            x: 0x40,
            y: 0x60,
            z: 0xFF,
            init_a: 0x20,
            init_b: 0,
            seq: 1,
            anim: 0,
            kind: 2,
            phys: 0,
            delay: 4,
            param: 9,
            table: 6,
        }
    );
    assert_eq!(s.armor_pad_byte(3 * 32 + 2), 3, "kind 2 writes one center scorch");
    // Kind 11 draws once for its sound gate; kind 10 draws nothing.
    let st = s.rand_a_state();
    assert!(s.stage_debris(0x40, 0x40, 0, 10, 0, 0));
    assert_eq!(s.rand_a_state(), st);
    assert!(s.stage_debris(0x40, 0x40, 0, 11, 0, 0));
    assert_ne!(s.rand_a_state(), st);
    assert_eq!(s.debris_bank()[2].z, 0x20);
    // Kind 1 writes the 3x3 ring: corners 1, edges 2, center 4.
    assert!(s.stage_debris(10 * 32, 10 * 32, 0x40, 1, 0, 0));
    assert_eq!(s.armor_pad_byte(10 * 32 + 10), 4);
    assert_eq!(s.armor_pad_byte(9 * 32 + 9), 1);
    assert_eq!(s.armor_pad_byte(9 * 32 + 10), 2);
    for _ in 4..128 {
        assert!(s.stage_debris(0, 0, 0, 7, 0, 0));
    }
    assert!(s.debris_bank().iter().all(|r| r.active));
    assert!(s.stage_debris(0x20, 0x20, 0x20, 7, 0, 0));
    assert_eq!(s.debris_bank()[0].seq, 129, "the stalest (seq 1) slot is reused");
}

#[test]
fn a_structure_hit_weakens_then_destroys() {
    let mut s = sim_with(8, 8, vec![0u8; 8 * 64]);
    let mut trt = vec![1u8, 0];
    trt.extend_from_slice(&3i32.to_le_bytes());
    trt.extend_from_slice(&4i32.to_le_bytes());
    trt.extend_from_slice(&1i32.to_le_bytes());
    assert!(s.stage_destroy_family(&ObjectTypeTable::default(), &empty_pos(), &trt, 3, 0));
    s.resolve_structure_impact(3 << 13, 3 << 13, 100); // wrong tile
    assert_eq!(s.structures()[0].hp, 250);
    s.resolve_structure_impact((3 << 13) + 5, (4 << 13) + 9, 100);
    assert_eq!(s.structures()[0].hp, 150);
    assert!(s.structures()[0].active);
    s.resolve_structure_impact(3 << 13, 4 << 13, 200);
    assert!(!s.structures()[0].active);
    assert_eq!(s.structures()[0].hp, -50);
    // Zone 3's rubble word with seen 1, kind-15 debris, a splash.
    assert_eq!(s.mirror_word(4 * 8 + 3, 1), 0x348);
    assert_eq!(s.mirror_seen(4 * 8 + 3, 1), 1);
    assert_eq!(s.debris_bank()[0].kind, 15);
    assert_eq!((s.debris_bank()[0].x, s.debris_bank()[0].z), (3 * 32, 0x20));
    assert_eq!(s.splash_bank()[0].age, 1);
    assert_eq!(s.splash_bank()[0].z, 2, "the probe climbs past the seen rubble");
    // An inactive structure takes no more hits.
    s.resolve_structure_impact(3 << 13, 4 << 13, 200);
    assert_eq!(s.structures()[0].hp, -50);
}

/// A sim whose tiles all carry a type-1 DAT volume at level 1 (the ring
/// build anchor) and nothing above.
fn ring_sim() -> MissionSim {
    let n = 32 * 32;
    let mut dat = vec![0u8; 8 * n];
    for b in dat[n..2 * n].iter_mut() {
        *b = 1;
    }
    let mut s = sim_with(32, 32, dat);
    assert!(s.stage_destroy_family(&ObjectTypeTable::default(), &empty_pos(), &[0u8, 0], 1, 0));
    s
}

#[test]
fn the_ring_builds_the_eight_neighbours() {
    let mut s = ring_sim();
    s.platform_ring_build(10, 10, 2, 120);
    for (dx, dy) in [(-1, -1), (0, -1), (1, -1), (-1, 0), (1, 0), (-1, 1), (0, 1), (1, 1)] {
        assert_eq!(s.platform_strength_word(10 + dx, 10 + dy), 120);
        assert_eq!(s.object_grid_word(10 + dx, 10 + dy), 0x7d4);
    }
    assert_eq!(s.platform_strength_word(10, 10), 0, "the center is never built");
    assert_eq!(s.armor_pad_byte(9 * 32 + 9), 4, "each build scorches +4");
    // A second ring skips every tile that already stands.
    s.platform_ring_build(10, 10, 2, 50);
    assert_eq!(s.platform_strength_word(9, 9), 120);
}

#[test]
fn platform_destroy_clears_and_stages_five_debris() {
    let mut s = ring_sim();
    s.zone = 1;
    assert!(s.stage_platform(6, 6, 2, 100));
    let st = s.rand_a_state();
    s.platform_damage(6, 6, 100);
    assert_eq!(s.platform_strength_word(6, 6), 0);
    assert_eq!(s.object_grid_word(6, 6), 0);
    assert_eq!(s.mirror_word(6 * 32 + 6, 2), 0);
    assert_ne!(s.rand_a_state(), st, "ten jitter draws");
    let staged: Vec<_> = s.debris_bank().iter().filter(|r| r.active).collect();
    assert_eq!(staged.len(), 5);
    for (k, r) in staged.iter().enumerate() {
        assert_eq!((r.kind, r.delay, r.z), (7, 2 * k as i32, 0x40));
        assert_eq!((r.x >> 5, r.y >> 5), (6, 6));
    }
    // No water level: nothing happens.
    s.platform_damage(7, 7, 100);
    assert_eq!(s.debris_bank().iter().filter(|r| r.active).count(), 5);
}
