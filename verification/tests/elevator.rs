use bedlam_core::elevator::{ClaimRect, Elevator};
use bedlam_core::mission::{AngleTable, MissionSim, Terrain};

fn staged(levels: u8) -> MissionSim {
    let terrain = Terrain::from_parts(8, 8, vec![1; 8 * 8 * 8], vec![]).unwrap();
    let angles = AngleTable::from_thresholds(&[0; 64]).unwrap();
    let mut sim = MissionSim::new(terrain, angles, 1);
    sim.stage_elevators(vec![]);
    sim.elevators = vec![Elevator { state: 1, x: 2, y: 2, w: 2, h: 2, levels }];
    sim.mirror_words = (0..64).flat_map(|_| [10, 20, 30, 40, 50, 60, 70, 80]).collect();
    sim.mirror_seen = (0..64).flat_map(|_| [1, 0, 1, 0, 1, 0, 1, 0]).collect();
    sim.observe_terrain_writes();
    sim
}

#[test]
fn lowering_moves_only_at_sixteen_and_raising_restores_upper_stack() {
    let mut sim = staged(1);
    let t = 2 * 8 + 2;
    let unrelated = sim.mirror_words[..8].to_vec();
    sim.set_elevator(0, 2);
    sim.elevator_tick();
    assert_eq!(sim.elevator_bias()[t], 1);
    assert_eq!(sim.terrain.dat_type(2, 2, 7), 0x5f);
    assert!(sim.take_terrain_writes().is_empty());
    for _ in 0..14 {
        sim.elevator_tick();
    }
    assert_eq!(sim.mirror_words[t * 8], 10);
    sim.elevator_tick();
    assert_eq!(&sim.mirror_words[t * 8..t * 8 + 8], &[20, 30, 40, 50, 60, 70, 80, 0]);
    assert_eq!(&sim.mirror_seen[t * 8..t * 8 + 8], &[0, 1, 0, 1, 0, 1, 0, 0]);
    assert_eq!(sim.terrain.dat_type(2, 2, 7), 0);
    sim.take_terrain_writes();
    sim.elevator_tick();
    assert!(sim.take_terrain_writes().is_empty());
    sim.set_elevator(0, 1);
    sim.elevator_tick();
    assert_eq!(sim.terrain.dat_type(2, 2, 7), 0x40);
    for _ in 0..15 {
        sim.elevator_tick();
    }
    assert_eq!(&sim.mirror_words[t * 8..t * 8 + 8], &[0, 20, 30, 40, 50, 60, 70, 80]);
    assert_eq!(
        sim.mirror_words[(3 * 8 + 3) * 8],
        20,
        "edge keeps bottom when both neighbors are not tagged"
    );
    assert_eq!(&sim.mirror_words[..8], unrelated);
}

#[test]
fn raising_an_empty_stack_stamps_ground_without_a_ninth_plane() {
    let mut sim = staged(1);
    sim.mirror_words.fill(0);
    sim.elevators[0].state = 2;
    sim.set_elevator(0, 1);
    for _ in 0..16 {
        sim.elevator_tick();
    }
    assert_eq!(sim.terrain.dat_type(2, 2, 0), 1);
    assert_eq!(sim.terrain.dat_type(2, 2, 1), 0);
    assert_eq!(sim.elevator_bias()[18], 0x90);
    assert!(sim.mirror_words.iter().all(|&word| word == 0));
}

#[test]
fn five_level_motion_and_in_flight_requests_keep_original_semantics() {
    let mut sim = staged(5);
    let t = 2 * 8 + 2;
    sim.set_elevator(0, 2);
    sim.elevator_tick();
    sim.set_elevator(0, 1);
    assert_eq!(sim.elevator_bias()[t], 1, "busy tiles are not restarted or reversed");
    assert_eq!(sim.elevators[0].state, 1, "rectangle state still accepts request");
    for _ in 0..79 {
        sim.elevator_tick();
    }
    assert_eq!(sim.elevator_bias()[t], 80);
    assert_eq!(&sim.mirror_words[t * 8..t * 8 + 8], &[60, 70, 80, 0, 0, 0, 0, 0]);
    sim.take_terrain_writes();
    sim.set_elevator(0, 1);
    sim.elevator_tick();
    assert!(sim.take_terrain_writes().is_empty(), "same-state requests are no-ops");
}

#[test]
fn staging_keeps_only_mission_one_of_zone_one_claims() {
    let terrain = Terrain::from_parts(8, 8, vec![1; 8 * 8 * 8], vec![]).unwrap();
    let angles = AngleTable::from_thresholds(&[0; 64]).unwrap();
    let mut sim = MissionSim::new(terrain, angles, 1);
    sim.zone = 1;
    sim.mission_no = 1;
    let claims = vec![
        ClaimRect { zone: 1, mission: 1, index: 4, state: 1, x: 1, y: 2, w: 3, h: 1 },
        ClaimRect { zone: 2, mission: 1, index: 0, state: 1, x: 0, y: 0, w: 1, h: 1 },
        ClaimRect { zone: 1, mission: 1, index: 6, state: 2, x: 5, y: 5, w: 1, h: 2 },
    ];
    sim.stage_elevators(claims.clone());
    assert_eq!(
        sim.elevators,
        vec![
            Elevator { state: 1, x: 1, y: 2, w: 3, h: 1, levels: 5 },
            Elevator { state: 2, x: 5, y: 5, w: 1, h: 2, levels: 2 },
        ]
    );
    assert_eq!(sim.elevator_bias().len(), 64);
    sim.network_mode = 2;
    sim.stage_elevators(claims);
    assert!(sim.elevators.is_empty());
}
