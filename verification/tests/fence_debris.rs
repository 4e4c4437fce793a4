use bedlam_core::destroy::ObjectInstance;
use bedlam_core::mission::{AngleTable, MissionSim, Terrain};
use bedlam_core::objects::ObjectTypeTable;

fn staged() -> MissionSim {
    let terrain = Terrain::from_parts(8, 8, vec![1; 8 * 8 * 8], vec![]).unwrap();
    let angles = AngleTable::from_thresholds(&[0; 64]).unwrap();
    let mut sim = MissionSim::new(terrain, angles, 1);
    let pos = vec![0xff; 2000 * 16];
    assert!(sim.stage_destroy_family(&ObjectTypeTable::default(), &pos, &[0, 0], 1, 1));
    sim.mirror_words.fill(99);
    sim.observe_terrain_writes();
    for (i, id) in [0x7f, 0x84, 0x83, 0x7f].into_iter().enumerate() {
        sim.objects.push(ObjectInstance {
            x: i as i32 + 1,
            y: 2,
            z: 1,
            id,
            destroyed: i == 3,
            hp: 123,
            slot: i as u16,
        });
    }
    sim
}

#[test]
fn shutdown_waits_then_clears_only_linked_origins_without_damage_tail() {
    let mut sim = staged();
    sim.schedule_fence_shutdown(0x85);
    for _ in 0..8 {
        sim.fence_tick();
    }
    assert!(!sim.objects[0].destroyed);
    assert!(sim.take_terrain_writes().is_empty());
    sim.fence_tick();
    assert!(sim.objects[0].destroyed && sim.objects[1].destroyed);
    assert!(!sim.objects[2].destroyed);
    assert_eq!(sim.objects[0].hp, 123);
    assert_eq!(sim.score_pending, 0);
    assert!(sim.debris.iter().all(|d| !d.active));
    assert_eq!(
        sim.take_terrain_writes(),
        vec![(137, 0x48f, 1), (145, 0x48f, 1)]
    );
    assert_eq!(sim.mirror_words[138], 99);
    assert_eq!(sim.terrain.dat_type(1, 2, 1), 0);
    assert_eq!(sim.terrain.dat_type(1, 2, 2), 1);
    sim.fence_tick();
    assert!(sim.take_terrain_writes().is_empty());
}

#[test]
fn b2_radar_links_survive_generator_death_until_delayed_shutdown() {
    let mut sim = staged();
    sim.zone = 2;
    sim.mission_no = 2;
    for (object, id) in sim.objects.iter_mut().zip([0x70, 0x67, 0x68, 0x71]) {
        object.id = id;
        object.destroyed = false;
    }
    assert_eq!(
        sim.fence_radar_objects(),
        vec![(9, 1, 2), (10, 2, 2), (10, 3, 2), (9, 4, 2)]
    );
    for (id, payload) in (0x70..=0x75).zip([0x67, 0x68, 0x69, 0x6d, 0x64, 0x65]) {
        assert_eq!(sim.fence_payload(id), payload);
    }
    sim.objects[0].destroyed = true;
    sim.schedule_fence_shutdown(0x70);
    assert_eq!(
        sim.fence_radar_objects(),
        vec![(10, 2, 2), (10, 3, 2), (9, 4, 2)]
    );
    for _ in 0..9 {
        sim.fence_tick();
    }
    assert_eq!(sim.fence_radar_objects(), vec![(10, 3, 2), (9, 4, 2)]);
    assert!(!sim.objects[2].destroyed);
    sim.network_mode = 2;
    assert!(sim.fence_radar_objects().is_empty());
    assert_eq!(sim.fence_payload(0x70), 0);
}

#[test]
fn timer_allocation_gates_and_secondary_generator() {
    let mut sim = staged();
    sim.network_mode = 2;
    sim.schedule_fence_shutdown(0x85);
    assert!(sim.fence_timers.iter().all(|t| t.0 == 0));
    sim.network_mode = 0;
    sim.mission_no = 2;
    sim.schedule_fence_shutdown(0x85);
    assert!(sim.fence_timers.iter().all(|t| t.0 == 0));
    sim.mission_no = 1;
    for _ in 0..32 {
        sim.schedule_fence_shutdown(0x85);
    }
    sim.schedule_fence_shutdown(0x86);
    assert_eq!(sim.fence_timers[0], (0x83, 8));
    assert_eq!(sim.fence_timers[31], (0x847f, 8));
    for _ in 0..9 {
        sim.fence_tick();
    }
    assert!(sim.objects[2].destroyed);
    assert!(sim.fence_timers.iter().all(|t| t.0 == 0));
}

#[test]
fn advance_frame_runs_the_fence_timers() {
    let mut sim = staged();
    sim.schedule_fence_shutdown(0x86);
    for _ in 0..8 {
        sim.advance_frame();
    }
    assert!(!sim.objects[2].destroyed);
    sim.advance_frame();
    assert!(sim.objects[2].destroyed);
}

fn robot_sim() -> MissionSim {
    let terrain = Terrain::from_parts(8, 8, vec![5; 8 * 8 * 8], vec![[0u8; 1024]; 8]).unwrap();
    let angles = AngleTable::from_thresholds(&[0; 64]).unwrap();
    let mut sim = MissionSim::new(terrain, angles, 7);
    sim.spawn_robot((2, 3, 0));
    sim
}

#[test]
fn debris_walks_its_table_then_frees() {
    let mut sim = robot_sim();
    // Kind 2: the six-entry walk, no physics; two frames of delay first.
    assert!(sim.stage_debris(0x20 * 6, 0x20 * 6, 0x40, 2, 2, -1));
    sim.debris_tick();
    assert_eq!((sim.debris[0].delay, sim.debris[0].anim), (1, 0));
    sim.debris_tick();
    assert_eq!((sim.debris[0].delay, sim.debris[0].anim), (0, 0));
    for anim in 1..5 {
        sim.debris_tick();
        assert_eq!(sim.debris[0].anim, anim);
        assert!(sim.debris[0].active);
    }
    sim.debris_tick();
    assert!(!sim.debris[0].active, "freed on the terminator");
}

#[test]
fn debris_physics_hits_nearby_robots_while_its_countdown_runs() {
    let mut sim = robot_sim();
    let (qx, qy) = sim.robots()[0].q5();
    let hp = sim.robots()[0].hp;
    // Kind 1: physics countdown 6, damage 2 per pass.
    assert!(sim.stage_debris(qx, qy, 0x40, 1, 0, -1));
    for _ in 0..8 {
        sim.debris_tick();
    }
    assert_eq!(sim.robots()[0].hp, hp - 12, "six passes of 2");
    assert_eq!(sim.debris[0].phys, 0);
    // Far debris leaves the robot alone.
    let mut far = robot_sim();
    assert!(far.stage_debris(7 * 32, 7 * 32, 0x40, 1, 0, -1));
    far.debris_tick();
    assert_eq!(far.robots()[0].hp, hp);
}
