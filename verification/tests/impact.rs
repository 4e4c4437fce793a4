use bedlam_core::mission::{AngleTable, MissionSim, Terrain};
use bedlam_core::objects::{ObjectEffectEntry, ObjectType, ObjectTypeTable};

fn pos_with(records: &[(usize, i32, i32, i32, i32)]) -> Vec<u8> {
    let mut pos = vec![0xFFu8; 16 * 2000];
    for &(slot, x, y, z, id) in records {
        let o = slot * 16;
        pos[o..o + 4].copy_from_slice(&x.to_le_bytes());
        pos[o + 4..o + 8].copy_from_slice(&y.to_le_bytes());
        pos[o + 8..o + 12].copy_from_slice(&z.to_le_bytes());
        pos[o + 12..o + 16].copy_from_slice(&id.to_le_bytes());
    }
    pos
}

fn staged(rows: Vec<ObjectType>, records: &[(usize, i32, i32, i32, i32)]) -> MissionSim {
    staged_on(vec![0u8; 8 * 64], rows, records)
}

fn staged_on(dat: Vec<u8>, rows: Vec<ObjectType>, records: &[(usize, i32, i32, i32, i32)]) -> MissionSim {
    let terrain = Terrain::from_parts(8, 8, dat, Vec::new()).expect("terrain");
    let angles = AngleTable::from_thresholds(&[0u16; 64]).expect("thresholds");
    let mut s = MissionSim::new(terrain, angles, 0x1234_5678);
    assert!(s.stage_destroy_family(&ObjectTypeTable { rows }, &pos_with(records), &[0u8, 0], 2, 0));
    s
}

fn kind_row(hp: i32, kind: i32, chain: u16) -> ObjectType {
    ObjectType { w: 1, h: 1, d: 1, hp, kind, chain, ..ObjectType::default() }
}

#[test]
fn an_object_weakens_then_is_destroyed_and_scores() {
    let mut s = staged(vec![kind_row(40, 7, 0)], &[(0, 2, 2, 0, 0)]);
    assert!(!s.resolve_object_impact(2 << 13, 2 << 13, 0, 30, true));
    assert_eq!(s.objects()[0].hp, 10);
    assert_eq!(s.take_destroy_score(), (0, false));
    assert!(s.resolve_object_impact((2 << 13) + 0x1FFF, 2 << 13, 0, 30, true));
    assert!(s.objects()[0].destroyed);
    assert_eq!(s.objects()[0].hp, 0);
    assert_eq!(s.take_destroy_score(), (7, true));
    assert!(!s.resolve_object_impact(2 << 13, 2 << 13, 0, 30, true), "already destroyed");
    assert_eq!(s.take_destroy_score(), (0, false));
}

#[test]
fn misses_immune_objects_and_unscored_hits_change_nothing_else() {
    let mut s = staged(vec![kind_row(-1, 7, 0), kind_row(5, 0xb, 0)], &[(0, 1, 1, 0, 0), (1, 4, 4, 0, 1)]);
    assert!(!s.resolve_object_impact(1 << 13, 1 << 13, 0, 500, true));
    assert_eq!(s.objects()[0].hp, -1, "immune");
    assert!(!s.resolve_object_impact(3 << 13, 3 << 13, 0, 500, true), "empty tile");
    assert!(!s.resolve_object_impact(-1, 0, 0, 500, true), "off the map");
    assert!(!s.resolve_object_impact(8 << 13, 0, 0, 500, true), "off the map");
    assert!(s.resolve_object_impact(4 << 13, 4 << 13, 0, 500, false));
    assert_eq!(s.take_destroy_score(), (0, false), "no score without the flag");
}

#[test]
fn kind_0xb_scores_ten_but_not_under_language_1() {
    let mut s = staged(vec![kind_row(5, 0xb, 0)], &[(0, 4, 4, 0, 0), (1, 5, 5, 0, 0)]);
    assert!(s.resolve_object_impact(4 << 13, 4 << 13, 0, 5, true));
    assert_eq!(s.take_destroy_score(), (10, true));
    s.set_language(1);
    assert!(s.resolve_object_impact(5 << 13, 5 << 13, 0, 5, true));
    assert!(s.objects()[1].destroyed);
    assert_eq!(s.take_destroy_score(), (0, false), "the GER gate skips the tail");
}

#[test]
fn destroying_restores_the_under_words() {
    let mut row = kind_row(1, 3, 0);
    row.bank_under_tot = vec![0x155];
    row.bank_under_dat = vec![0];
    let mut s = staged(vec![row], &[(0, 3, 2, 0, 0)]);
    let mut words = vec![0u16; 8 * 64];
    words[(2 * 8 + 3) * 8] = 0x99;
    assert!(s.stage_terrain_mirror(&words));
    assert_eq!(s.mirror_word(2 * 8 + 3, 0), 0x99);
    assert!(s.resolve_object_impact(3 << 13, 2 << 13, 0, 1, false));
    assert_eq!(s.mirror_word(2 * 8 + 3, 0), 0x155);
    assert_eq!(s.mirror_seen(2 * 8 + 3, 0), 1);
}

#[test]
fn a_destroyed_object_detonates_its_chaining_neighbour() {
    // B sits on A's east edge; C sits on its north row but does not chain.
    let rows = vec![kind_row(10, 4, 1), kind_row(10, 6, 0)];
    let mut s = staged(rows, &[(0, 3, 3, 0, 0), (1, 4, 3, 0, 0), (2, 3, 2, 0, 1)]);
    assert!(s.resolve_object_impact(3 << 13, 3 << 13, 0, 100, true));
    assert!(s.objects()[0].destroyed);
    assert!(s.objects()[1].destroyed, "chained at damage 1000");
    assert!(!s.objects()[2].destroyed, "a non-chaining type is skipped");
    assert_eq!(s.take_destroy_score(), (8, true));
}

#[test]
fn collapse_effects_stage_quiet_debris_without_draws() {
    let mut row = kind_row(1, 2, 0);
    row.effects[0] = ObjectEffectEntry { selector: 6, dx: 1, dy: 0, dz: 0 };
    let mut s = staged(vec![row], &[(0, 2, 2, 0, 0)]);
    let before = s.rand_a_state();
    assert!(s.resolve_object_impact(2 << 13, 2 << 13, 0, 1, false));
    assert_eq!(s.rand_a_state(), before, "selector 6 draws nothing");
    let staged: Vec<_> = s.debris_bank().iter().filter(|d| d.active).collect();
    assert_eq!(staged.len(), 1);
    assert_eq!((staged[0].kind, staged[0].x, staged[0].y, staged[0].param), (10, 3 * 0x20 + 0x10, 2 * 0x20 + 0x20, -1));
}

#[test]
fn splash_effects_draw_from_the_mission_stream() {
    let mut row = kind_row(1, 2, 0);
    row.effects[0] = ObjectEffectEntry { selector: 3, dx: 0, dy: 0, dz: 0 };
    let mut s = staged(vec![row], &[(0, 4, 4, 0, 0)]);
    let before = s.rand_a_state();
    assert!(s.resolve_object_impact(4 << 13, 4 << 13, 0, 1, false));
    assert_ne!(s.rand_a_state(), before);
    assert!(s.splash_bank().iter().any(|r| r.age != 0));
    assert!(s.debris_bank().iter().any(|d| d.active && d.kind == 17));
}

#[test]
fn a_robot_on_a_trap_tile_fires_the_object_resolver() {
    let mut dat = vec![0u8; 8 * 64];
    dat[3 * 8 + 2] = 0x62;
    let mut s = staged_on(dat, vec![kind_row(150, 5, 0)], &[(0, 2, 3, 0, 0)]);
    let idx = s.spawn_robot((2, 3, 1));
    assert_eq!(s.robots[idx].tile(), (2, 3));
    assert!(!s.robot_trap_lane(idx));
    assert_eq!(s.objects()[0].hp, 50);
    assert!(!s.robot_trap_lane(idx + 1), "no such robot");
    assert!(s.robot_trap_lane(idx));
    assert!(s.objects()[0].destroyed);
    let traps = s.debris_bank().iter().filter(|d| d.active && d.kind == 12).count();
    assert_eq!(traps, 5);
    assert_eq!(s.take_destroy_score(), (0, false), "the trap scores nothing");
}

#[test]
fn a_robot_off_trap_tiles_changes_nothing() {
    let mut s = staged(vec![kind_row(150, 5, 0)], &[(0, 2, 3, 0, 0)]);
    let idx = s.spawn_robot((2, 3, 1));
    let before = s.rand_a_state();
    assert!(!s.robot_trap_lane(idx));
    assert_eq!(s.objects()[0].hp, 150);
    assert_eq!(s.rand_a_state(), before);
}
