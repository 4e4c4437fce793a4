use bedlam_core::destroy::parse_trt;
use bedlam_core::mission::{AngleTable, MissionSim, Terrain};

fn scene() -> MissionSim {
    let terrain = Terrain::from_parts(16, 16, vec![0; 16 * 16 * 8], vec![[0; 1024]]).unwrap();
    let mut sim = MissionSim::new(terrain, AngleTable::from_thresholds(&[0; 64]).unwrap(), 123);
    let mut trt = vec![1, 0];
    for n in [4i32, 4, 1] {
        trt.extend(n.to_le_bytes());
    }
    sim.structures = parse_trt(&trt, 0).unwrap();
    sim.mirror_words = vec![0; 16 * 16 * 8];
    sim.mirror_seen = vec![1; 16 * 16 * 8];
    sim.stamp_sentries();
    sim
}

#[test]
fn opens_aims_fires_then_retracts_without_changing_seen() {
    let mut sim = scene();
    sim.spawn_robot((4, 6, 1));
    let cell = (4 * 16 + 4) * 8 + 1;
    for frame in 1..=7 {
        sim.sentry_tick();
        assert_eq!(sim.mirror_words[cell], frame + 1);
    }
    sim.sentry_tick();
    sim.sentry_tick();
    assert_eq!(sim.mirror_words[cell], 16);
    assert!(sim.enemy_bank.iter().all(|p| p.kind == 0));
    sim.sentry_tick();
    sim.sentry_tick();
    let p = sim.enemy_bank[0];
    assert_eq!((p.kind, p.x, p.y, p.z, p.vx, p.vy, p.vz), (0x66, 36608, 36608, 8192, 0, 255, 20));
    sim.robots[0].alive = false;
    for _ in 0..7 {
        sim.sentry_tick();
    }
    assert_eq!((sim.structures[0].state, sim.structures[0].frame), (1, 0));
    assert_eq!(sim.mirror_words[cell], 1);
    assert_eq!(sim.mirror_seen[cell], 1);
}

#[test]
fn inactive_gun_does_not_animate_or_overwrite_rubble() {
    let mut sim = scene();
    sim.spawn_robot((4, 6, 1));
    sim.structures[0].active = false;
    let before = sim.mirror_words.clone();
    sim.sentry_tick();
    assert_eq!(sim.mirror_words, before);
    assert_eq!(sim.structures[0].frame, 0);
}

#[test]
fn stamp_marks_the_gun_cell_and_shows_frame_zero() {
    let sim = scene();
    let cell = (4 * 16 + 4) * 8 + 1;
    assert_eq!(sim.mirror_words[cell], 1);
    assert_eq!(sim.terrain.raw_dat_byte(4, 4, 1), Some(0x66));
    assert_eq!((sim.structures[0].state, sim.structures[0].frame, sim.structures[0].fire_counter), (1, 0, 0));
}

#[test]
fn far_robot_keeps_the_gun_closed() {
    let mut sim = scene();
    sim.spawn_robot((12, 12, 1));
    for _ in 0..5 {
        sim.sentry_tick();
    }
    assert_eq!((sim.structures[0].state, sim.structures[0].frame), (1, 0));
}
