use bedlam_core::brain::closecombat_steer;
use bedlam_core::critter::CritterRecord;
use bedlam_core::mission::{AngleTable, MissionSim, Robot, Terrain, FACING_NONE};

fn world() -> Terrain {
    let mut planes = vec![0u8; 8 * 32 * 32];
    for b in planes[2 * 32 * 32..3 * 32 * 32].iter_mut() {
        *b = 1;
    }
    let heights = vec![[0x1Fu8; 1024]];
    Terrain::from_parts(32, 32, planes, heights).unwrap()
}

fn sim_flat(seed: u64) -> MissionSim {
    let angles = AngleTable::from_thresholds(&[0u16; 64]).unwrap();
    let mut sim = MissionSim::new(world(), angles, seed);
    sim.linear = 5;
    sim
}

fn sim_sine(seed: u64) -> MissionSim {
    let mut words = vec![0i16; 256];
    for (a, w) in words.iter_mut().enumerate() {
        *w = ((a as f64 * std::f64::consts::PI / 128.0).sin() * 32767.0).round() as i16;
    }
    let angles = AngleTable::from_sintable_words(&words).unwrap();
    let mut sim = MissionSim::new(world(), angles, seed);
    sim.linear = 5;
    sim
}

fn push_robot(sim: &mut MissionSim, x: i32, y: i32, z: i32, alive: bool) {
    sim.robots.push(Robot {
        pos_x: x,
        pos_y: y,
        z,
        state: 0,
        dir_byte: 0,
        facing: FACING_NONE,
        anim: 0,
        variant: 0,
        probe_z: [z as u16; 8],
        stop_dist: 0,
        target: None,
        alive,
        drop_countdown: 0,
        hp: 5000,
        armor: 0,
        hit_flash: 0,
        alarm: 0,
        alarm_ctr: 0,
        shield: 0,
        shield_charges: 0,
        shield_boost: 0,
        battery: 0,
        armor_pool: 0,
        kind: 0,
        death_flag: 0,
        weapon_mask: 0,
    });
}

fn s5_nme(n: u16, w1: u16, w2: u16, w3: u16, w4: u16) -> Vec<u8> {
    let mut b = Vec::new();
    for _ in 0..4 {
        b.extend_from_slice(&0u16.to_le_bytes());
    }
    b.extend_from_slice(&n.to_le_bytes());
    for _ in 0..n {
        for w in [1u16, w1, w2, w3, w4] {
            b.extend_from_slice(&w.to_le_bytes());
        }
    }
    for _ in 0..3 {
        b.extend_from_slice(&0u16.to_le_bytes());
    }
    b
}

fn push_chaser(sim: &mut MissionSim, x: i32, y: i32, z: i32) {
    sim.critters.push(CritterRecord {
        kind: 3,
        species: 0,
        hp: 1500,
        mode: 0,
        x,
        y,
        z,
        home_x: x,
        home_y: y,
        home_z: z,
        heading: 0x40,
        spawn_heading: 0x80,
        presence: true,
        ..Default::default()
    });
}

fn push_closecombat(sim: &mut MissionSim, x: i32, y: i32, z: i32) {
    sim.critters.push(CritterRecord {
        kind: 7,
        species: 1,
        hp: 2500,
        mode: 3,
        x,
        y,
        z,
        heading: 0,
        presence: true,
        ..Default::default()
    });
}

fn count_kind(sim: &MissionSim, kind: u16) -> usize {
    sim.enemy_bank().iter().filter(|p| p.kind == kind).count()
}

#[test]
fn chaser_spawn_grace_then_approach() {
    let mut sim = sim_sine(9);
    push_robot(&mut sim, 14 * 0x2000 + 0xF00, 10 * 0x2000 + 0xF00, 0x5F, true);
    push_chaser(&mut sim, 10 * 0x2000 + 0xF00, 10 * 0x2000 + 0xF00, 0x5F);
    sim.critters[0].species = 8;
    for _ in 0..7 {
        sim.critter_tick();
        assert_eq!(sim.critters[0].mode, 0, "the grace");
    }
    sim.critter_tick();
    let c = &sim.critters[0];
    assert_eq!(c.mode, 3);
    assert_eq!(c.target_robot, 0);
    assert_eq!(c.countdown, 8, "aim-set 9, stepped (table[9]), dec → 8");
    assert_eq!(c.heading, 0x40, "the east snap");
    assert_eq!(c.species, 0);
}

#[test]
fn chaser_close_band_fires_067_every_frame() {
    let mut sim = sim_sine(11);
    push_robot(&mut sim, 12 * 0x2000 + 0xF00, 10 * 0x2000 + 0xF00, 0x5F, true);
    push_chaser(&mut sim, 10 * 0x2000 + 0xF00, 10 * 0x2000 + 0xF00, 0x5F);
    let mut countdowns = Vec::new();
    for k in 0..5 {
        sim.critter_tick();
        let c = &sim.critters[0];
        assert_eq!(c.mode, 2);
        countdowns.push(c.countdown);
        assert_eq!(count_kind(&sim, 0x67), k + 1);
    }
    assert_eq!(countdowns, vec![1, 2, 3, 0, 1], "the aim cycle wrap");
    let p = *sim.enemy_bank().iter().find(|p| p.kind == 0x67).unwrap();
    assert_eq!(p.x, 10 * 0x2000 + 0xF00, "the critter x stamp");
    assert_eq!(p.y, 10 * 0x2000 + 0xF00);
    assert_eq!(p.z, (0x5F + 0x10) << 8, "the (z+0x10)<<8 stamp");
    assert_eq!(p.vx, 0x800);
    assert_eq!(p.vy, 0);
    assert!(p.vz < 0, "the robot center offset: dz = (z+4)−(z+0x10) < 0");
}

#[test]
fn chaser_target_death_flips_idle_before_all_else() {
    let mut sim = sim_sine(12);
    push_robot(&mut sim, 30 * 0x2000, 30 * 0x2000, 0x5F, false);
    push_chaser(&mut sim, 10 * 0x2000 + 0xF00, 10 * 0x2000 + 0xF00, 0x5F);
    sim.critters[0].mode = 7;
    sim.critters[0].death_ctr = 10;
    sim.critters[0].target_robot = 0;
    sim.critter_tick();
    let c = &sim.critters[0];
    assert_eq!(c.mode, 8, "the awake-idle flip");
    assert_eq!(c.target_robot, -1);
    assert_eq!(c.countdown, 0);
}

#[test]
fn chaser_break_and_leash_flip_return_home() {
    let mut sim = sim_sine(13);
    push_robot(&mut sim, 17 * 0x2000 + 0xF00, 10 * 0x2000 + 0xF00, 0x5F, true);
    push_chaser(&mut sim, 10 * 0x2000 + 0xF00, 10 * 0x2000 + 0xF00, 0x5F);
    sim.critters[0].mode = 2;
    sim.critters[0].target_robot = 0;
    sim.critters[0].countdown = 2;
    sim.critter_tick();
    let c = &sim.critters[0];
    assert_eq!(c.mode, 0xA);
    assert_eq!(c.species, 0x20, "the return walk budget");
    assert_eq!(c.countdown, 8, "aim-at-home fired the same frame: 0 → 9, step, dec");
    assert_eq!(c.target_robot, -1);
    let mut sim2 = sim_sine(13);
    push_chaser(&mut sim2, 10 * 0x2000 + 0xF00, 10 * 0x2000 + 0xF00, 0x5F);
    sim2.critters[0].x = 25 * 0x2000;
    sim2.critters[0].mode = 3;
    sim2.critters[0].countdown = 5;
    sim2.critter_tick();
    let c = &sim2.critters[0];
    assert_eq!(c.mode, 0xA);
    assert_eq!(c.species, 0x20);
    assert_eq!(c.target_robot, -1);
}

#[test]
fn chaser_walk_cycle_six_steps_per_ten() {
    let mut sim = sim_sine(14);
    push_robot(&mut sim, 14 * 0x2000 + 0xF00, 10 * 0x2000 + 0xF00, 0x5F, true);
    push_chaser(&mut sim, 10 * 0x2000 + 0xF00, 10 * 0x2000 + 0xF00, 0x5F);
    sim.critters[0].mode = 3;
    sim.critters[0].countdown = 9;
    sim.critters[0].target_robot = 0;
    let x0 = sim.critters[0].x;
    for _ in 0..10 {
        sim.critter_tick();
        assert_eq!(sim.critters[0].mode, 3, "the 100..200 band holds");
    }
    assert_eq!(sim.critters[0].x - x0, 6 * 1023, "6 steps of 1023");
    assert_eq!(sim.critters[0].countdown, 8, "the cycle position");
    assert_eq!(sim.critters[0].heading, 0x40, "the east snap holds");
}

#[test]
fn chaser_blocked_path_wall_follow_ladder() {
    let mut sim = sim_sine(15);
    push_chaser(&mut sim, 0x10, 10 * 0x2000 + 0xF00, 0x5F);
    sim.critters[0].mode = 3;
    sim.critters[0].countdown = 9;
    sim.critters[0].heading = 0xC0;
    sim.critters[0].seek_sector = 0xC0;
    let (x0, y0) = (sim.critters[0].x, sim.critters[0].y);
    sim.critter_tick();
    let c = &sim.critters[0];
    assert_eq!(c.x, x0, "no west move");
    assert_eq!(c.y, y0 - 0x200, "the −y perpendicular");
    assert_eq!(c.seek_sector, 0x00);
    assert_eq!(c.heading, 0x00, "heading := the sector on the blocked path");
}

#[test]
fn chaser_open_path_updates_sector_not_heading() {
    let mut sim = sim_sine(16);
    push_chaser(&mut sim, 10 * 0x2000 + 0xF00, 10 * 0x2000 + 0xF00, 0x5F);
    sim.critters[0].mode = 3;
    sim.critters[0].countdown = 9;
    sim.critters[0].heading = 0x40;
    sim.critters[0].seek_sector = 0xC0;
    sim.critters[0].x += 1023;
    let x0 = sim.critters[0].x;
    sim.critter_tick();
    let c = &sim.critters[0];
    assert_eq!(c.x, x0 + 1023, "the open-path step");
    assert_eq!(c.seek_sector, 0x40, "(0x40+0x20)&0xC0");
    assert_eq!(c.heading, 0x40, "the aim is kept");
}

#[test]
fn chaser_dormant_teleport_then_wake() {
    let mut sim = sim_sine(17);
    sim.set_difficulty(2);
    push_chaser(&mut sim, 10 * 0x2000 + 0xF00, 10 * 0x2000 + 0xF00, 0x5F);
    let (hx, hy, hz) = (sim.critters[0].home_x, sim.critters[0].home_y, sim.critters[0].home_z);
    let c = &mut sim.critters[0];
    c.mode = 0xB;
    c.countdown = 0;
    c.x = 20 * 0x2000;
    c.y = 20 * 0x2000;
    c.z = 0x10;
    c.heading = 0x00;
    for k in 1..=580 {
        sim.critter_tick();
        assert_eq!(sim.critters[0].countdown, k);
    }
    let c = &sim.critters[0];
    assert_eq!((c.x, c.y, c.z), (hx, hy, hz), "the teleport at delay−20");
    assert_eq!(c.heading, 0x80, "the spawn-heading restore");
    assert_eq!(c.mode, 0xB, "still dormant");
    for _ in 581..=601 {
        sim.critter_tick();
    }
    let c = &sim.critters[0];
    assert_eq!(c.mode, 8, "the wake");
    assert_eq!(c.hp, 0x5DC, "FLAT 1500 — no m scalar on wake");
    assert_eq!(c.species, 0);
    assert_eq!(c.countdown, 0);
}

#[test]
fn chaser_dying_40_frames_then_dormant() {
    let mut sim = sim_sine(18);
    push_chaser(&mut sim, 10 * 0x2000 + 0xF00, 10 * 0x2000 + 0xF00, 0x5F);
    sim.critters[0].mode = 7;
    for _ in 0..39 {
        sim.critter_tick();
        assert_eq!(sim.critters[0].mode, 7);
        assert_eq!(sim.critters[0].hp, 0);
    }
    sim.critter_tick();
    assert_eq!(sim.critters[0].mode, 0xB);
    assert_eq!(sim.critters[0].countdown, 0);
}

#[test]
fn chaser_whole_chain_draw_free() {
    let mut a = sim_sine(19);
    a.stage_critters(&s5_nme(1, 3, 2, 10, 10), 2).expect("staged");
    push_robot(&mut a, 12 * 0x2000 + 0xF00, 10 * 0x2000 + 0xF00, 0x5F, true);
    a.critters[0].species = 0;
    let s0 = a.rand_a_state();
    for _ in 0..20 {
        a.critter_tick();
    }
    assert_eq!(a.rand_a_state(), s0, "the k3 chain is draw-free");
    assert!(count_kind(&a, 0x67) > 0, "the chaser engaged");
}

#[test]
fn s7_engage_steers_moves_and_fires_the_beam() {
    let mut sim = sim_sine(0x69);
    sim.set_difficulty(2);
    push_robot(&mut sim, 10 * 0x2000 + 0x30 * 0x100, 10 * 0x2000, 0x5F, true);
    push_closecombat(&mut sim, 10 * 0x2000, 10 * 0x2000, 0x5F);
    let (x0, y0, h0) = (sim.critters[0].x, sim.critters[0].y, sim.critters[0].heading);
    sim.critter_tick();
    let c = sim.critters[0];
    assert_eq!(c.heading, (h0 + 1) & 0xFF, "the ±1 steer toward the aim");
    let expected_dx = ((sim.angles.sine_word(1).unwrap() as i16) >> 6) as i32;
    let expected_dy = ((sim.angles.sine_word(0xC1).unwrap() as i16) >> 6) as i32;
    assert_eq!(c.x, x0 + expected_dx, "the eb65>>6 step");
    assert_eq!(c.y, y0 + expected_dy, "the eb77>>6 step");
    let p = sim.enemy_bank()[0];
    assert_eq!(p.kind, 0x69, "the BEAM");
    assert_eq!(p.x, c.x, "the post-move Q13 x");
    assert_eq!(p.y, c.y);
    assert_eq!(p.z, 6, "the LITERAL z — NOT Q13");
    assert_eq!((p.vx, p.vy, p.vz), (0, 0, 0), "the beam is stationary");
    assert_eq!(c.countdown, 6, "the fire recharge");
    for _ in 0..6 {
        sim.critter_tick();
    }
    assert_eq!(count_kind(&sim, 0x69), 1);
    assert_eq!(sim.critters[0].countdown, 0);
}

#[test]
fn s7_fire_phase_modulo_and_the_d3_never_arm() {
    let mut sim = sim_sine(0x6A);
    push_robot(&mut sim, 0x2000 + 0x30 * 0x100, 0x2000, 0x5F, true);
    push_closecombat(&mut sim, 0, 0, 0x5F);
    push_closecombat(&mut sim, 0x2000, 0x2000, 0x5F);
    sim.set_difficulty(2);
    for _ in 0..3 {
        sim.critter_tick();
    }
    assert!(count_kind(&sim, 0x69) == 0, "phase 1 &7 ≠ 0 — no fire");
    let mut sim = sim_sine(0x6B);
    push_robot(&mut sim, 0x2000 + 0x30 * 0x100, 0x2000, 0x5F, true);
    push_closecombat(&mut sim, 0x2000, 0x2000, 0x5F);
    sim.set_difficulty(3);
    for _ in 0..24 {
        sim.critter_tick();
    }
    assert!(count_kind(&sim, 0x69) == 0);
    assert_eq!(sim.critters[0].countdown, 0, "no recharge staged either");
}

#[test]
fn s7_engage_chain_draw_free() {
    let mut sim = sim_sine(0x6C);
    sim.set_difficulty(0);
    push_robot(&mut sim, 10 * 0x2000 + 0x30 * 0x100, 10 * 0x2000, 0x5F, true);
    push_closecombat(&mut sim, 10 * 0x2000, 10 * 0x2000, 0x5F);
    let s0 = sim.rand_a_state();
    for _ in 0..24 {
        sim.critter_tick();
    }
    assert_eq!(sim.rand_a_state(), s0, "the k7 engage chain is draw-free");
    assert!(count_kind(&sim, 0x69) > 0);
}

#[test]
fn s7_stale_scan_cells_after_the_drift_flip() {
    let mut sim = sim_sine(0x6E);
    sim.set_difficulty(2);
    push_robot(&mut sim, 10 * 0x2000 + 0x30 * 0x100, 10 * 0x2000, 0x5F, true);
    push_closecombat(&mut sim, 10 * 0x2000, 10 * 0x2000, 0x5F);
    sim.critters[0].mode = 5;
    sim.critters[0].countdown = 10;
    sim.critters[0].scan_dist = 10_000_000;
    sim.critter_tick();
    assert_eq!(sim.critters[0].mode, 3);
    assert!(count_kind(&sim, 0x69) == 0, "the stale sentinel skips the engage");
    let mut sim = sim_sine(0x6F);
    sim.set_difficulty(2);
    push_robot(&mut sim, 10 * 0x2000 + 0x30 * 0x100, 10 * 0x2000, 0x5F, true);
    push_closecombat(&mut sim, 10 * 0x2000, 10 * 0x2000, 0x5F);
    sim.critters[0].mode = 5;
    sim.critters[0].countdown = 10;
    sim.critters[0].scan_robot = 0;
    sim.critters[0].scan_dist = 0x30;
    sim.critter_tick();
    assert!(count_kind(&sim, 0x69) > 0);
}

#[test]
fn s7_ballistic_landing_machine() {
    let mut sim = sim_sine(0x70);
    push_closecombat(&mut sim, 10 * 0x2000, 10 * 0x2000, 0x100);
    let c = &mut sim.critters[0];
    c.mode = 6;
    c.fall_rate = 0x18;
    c.knock_vx = 4;
    c.knock_vy = -2;
    let (x0, y0) = (c.x, c.y);
    sim.critter_tick();
    let c = sim.critters[0];
    assert_eq!(c.mode, 6, "still falling");
    assert_eq!(c.z, 0x100 - 0x18);
    assert_eq!(c.x, x0 + 8, "the ×2 knock drift");
    assert_eq!(c.y, y0 - 4);
    assert_eq!(c.fall_rate, 0x18, "the ramp cap");
    for _ in 0..5 {
        sim.critter_tick();
    }
    assert_eq!(sim.critters[0].z, 0x70);
    assert_eq!(sim.critters[0].mode, 6);
    sim.critter_tick();
    let c = sim.critters[0];
    assert_eq!(c.mode, 7, "the landing flips to dying");
    assert_eq!(c.z, 0x5F, "settled on the floor");
    assert_eq!(c.countdown, 0);
    assert_eq!(sim.debris.iter().filter(|d| d.active).count(), 8);
    assert_eq!(sim.splash_bank().iter().filter(|s| s.age != 0).count(), 5);
    let mut b = sim_sine(0x70);
    for _ in 0..122 {
        b.rand_a();
    }
    assert_eq!(sim.rand_a_state(), b.rand_a_state(), "8·3 + 5·2 + 24·3 + 16 — the landing's whole draw budget");
}

#[test]
fn s7_dying_despawns_on_the_fifth_frame() {
    let mut sim = sim_flat(0x71);
    push_closecombat(&mut sim, 0x2000, 0x2000, 0x5F);
    sim.critters[0].mode = 7;
    for _ in 0..4 {
        sim.critter_tick();
        assert!(sim.critters[0].presence, "frames 1..4 hold");
    }
    sim.critter_tick();
    let c = &sim.critters[0];
    assert!(!c.presence, "the fifth frame despawns");
    assert_eq!(c.hp, 0);
    assert_eq!(c.countdown, 5);
}

#[test]
fn s7_dormant_is_inert() {
    let mut sim = sim_sine(0x72);
    push_robot(&mut sim, 10 * 0x2000 + 0x30 * 0x100, 10 * 0x2000, 0x5F, true);
    push_closecombat(&mut sim, 10 * 0x2000, 10 * 0x2000, 0x5F);
    sim.critters[0].mode = 0xB;
    let s0 = sim.rand_a_state();
    let (x0, y0) = (sim.critters[0].x, sim.critters[0].y);
    for _ in 0..8 {
        sim.critter_tick();
    }
    let c = &sim.critters[0];
    assert_eq!((c.x, c.y), (x0, y0), "inert");
    assert_eq!(c.mode, 0xB);
    assert_eq!(sim.rand_a_state(), s0, "draw-free");
    assert_eq!(c.scan_dist, 0x30, "the scan still runs (sticky cells)");
}

#[test]
fn steer_is_the_shortest_arc_pm1() {
    assert_eq!(closecombat_steer(0x40, 0x40), 0);
    assert_eq!(closecombat_steer(0x41, 0x40), 1);
    assert_eq!(closecombat_steer(0xBF, 0x40), 1, "0x7F short arc = +1");
    assert_eq!(closecombat_steer(0xC0, 0x40), -1, "the 0x80 tie turns −1");
    assert_eq!(closecombat_steer(0x00, 0x40), -1);
    assert_eq!(closecombat_steer(0x41, 0x00), 1);
    assert_eq!(closecombat_steer(0xFF, 0x00), -1);
    assert_eq!(closecombat_steer(0x01, 0x00), 1);
    assert_eq!(closecombat_steer(0x3F, 0x40), -1);
}

#[test]
fn controller_skips_absent_critters_and_counts_down_the_flash() {
    let mut sim = sim_sine(0x73);
    push_closecombat(&mut sim, 0x2000, 0x2000, 0x5F);
    push_closecombat(&mut sim, 0x4000, 0x4000, 0x5F);
    sim.critters[0].fuse = 3;
    sim.critters[1].fuse = 3;
    sim.critters[1].presence = false;
    sim.critter_tick();
    assert_eq!(sim.critters[0].fuse, 2);
    assert_eq!(sim.critters[1].fuse, 3, "an absent critter is skipped");
}

#[test]
fn armed_frame_runs_the_critter_controller() {
    let mut sim = sim_sine(0x74);
    push_chaser(&mut sim, 10 * 0x2000 + 0xF00, 10 * 0x2000 + 0xF00, 0x5F);
    sim.critters[0].mode = 7;
    sim.arm_critter_family();
    sim.advance_frame();
    assert_eq!(sim.critters[0].death_ctr, 1, "the controller ran once");
    assert_eq!(sim.critters[0].hp, 0);
}

fn push_shooter(sim: &mut MissionSim, x: i32, y: i32, variant: i32) {
    sim.critters.push(CritterRecord {
        kind: 2,
        species: 1,
        hp: 100,
        heading: 0,
        variant,
        z: 0xC000,
        x,
        y,
        presence: true,
        ..Default::default()
    });
}

#[test]
fn sine_walk_precesses_heading_and_advances() {
    let mut sim = sim_sine(1);
    push_shooter(&mut sim, 15 * 0x2000, 15 * 0x2000, 5);
    let s0 = sim.rand_a_state();
    sim.critter_tick();
    assert_eq!(sim.critters()[0].heading, 5);
    assert_eq!(sim.critters()[0].anim, 1, "anim := (0+1)&0xF");
    assert_ne!(sim.rand_a_state(), s0);
    let x0 = 15 * 0x2000;
    let dx = sim.critters()[0].x - x0;
    let dy = sim.critters()[0].y - x0;
    assert!((280..=340).contains(&dx), "the sine walk dx (got {dx})");
    assert!((-2600..=-2450).contains(&dy), "the sine walk dy (got {dy})");
    let mut sim2 = sim_sine(1);
    push_shooter(&mut sim2, 15 * 0x2000, 15 * 0x2000, -3);
    sim2.critter_tick();
    assert_eq!(sim2.critters()[0].heading, 0xFD);
}

#[test]
fn fire_arm_stamps_projectile_65_raw_velocity() {
    let mut sim = sim_sine(0xFEED);
    sim.set_difficulty(2);
    push_robot(&mut sim, 20 * 0x2000, 15 * 0x2000, 192, true);
    push_shooter(&mut sim, 15 * 0x2000, 15 * 0x2000, 0);
    let mut fired = false;
    for _ in 0..64 {
        sim.critter_tick();
        if let Some(slot) = sim.enemy_bank().iter().position(|p| p.kind == 0x65) {
            let p = sim.enemy_bank()[slot];
            let c = sim.critters()[0];
            assert_eq!(p.x, c.x, "spawned at the critter's CURRENT position");
            assert_eq!(p.y, c.y);
            assert_eq!(p.z, 0xC000, "z passes through RAW (Q13)");
            let dirx = 20 * 0x2000 - p.x;
            let jx = p.vx * 32 - dirx;
            assert!((-0x1F00..=0x2000).contains(&jx), "vx = (dirx+jitter)>>5 (jitter {jx:#x})");
            assert_eq!(p.vx * 32 - dirx, jx, "raw >>5, NOT normalized");
            let diry = 15 * 0x2000 - p.y;
            let jy = p.vy * 32 - diry;
            assert!((-0x1F00..=0x2000).contains(&jy), "vy = (diry+jitter)>>5 (jitter {jy:#x})");
            assert_eq!(p.vz, 0, "same z-plane");
            fired = true;
            break;
        }
    }
    assert!(fired, "the 1/4 gate fired within 64 frames");
}

#[test]
fn fire_arm_range_gate_and_dead_robot_skip() {
    let mut sim = sim_sine(0xD00D);
    sim.set_difficulty(0);
    push_robot(&mut sim, 75 * 0x2000, 15 * 0x2000, 192, true);
    push_shooter(&mut sim, 15 * 0x2000, 15 * 0x2000, 0);
    for _ in 0..128 {
        sim.critter_tick();
    }
    assert!(sim.enemy_bank().iter().all(|p| p.kind != 0x65), "out of range → never fires");
    let mut sim2 = sim_sine(0xD00D);
    sim2.set_difficulty(2);
    push_robot(&mut sim2, 20 * 0x2000, 15 * 0x2000, 192, false);
    push_shooter(&mut sim2, 15 * 0x2000, 15 * 0x2000, 0);
    for _ in 0..128 {
        sim2.critter_tick();
    }
    assert!(sim2.enemy_bank().iter().all(|p| p.kind != 0x65));
}

#[test]
fn fire_arm_consumes_five_draws_on_the_full_arm() {
    let mut fired_seed = None;
    for seed in 0x1010u64..0x2010 {
        let mut probe = sim_sine(seed);
        let g1 = probe.rand_a() & 0x7F;
        let g2 = probe.rand_a() & 3;
        let _pick = probe.bounded_pick(1);
        let _jx = probe.rand_a();
        let _jy = probe.rand_a();
        if g1 != 0 && g2 == 0 {
            fired_seed = Some(seed);
            break;
        }
    }
    let Some(seed) = fired_seed else {
        panic!("no fire-arm seed found in the window");
    };
    let mut sim = sim_sine(seed);
    sim.set_difficulty(2);
    push_robot(&mut sim, 20 * 0x2000, 15 * 0x2000, 192, true);
    push_shooter(&mut sim, 15 * 0x2000, 15 * 0x2000, 0);
    let mut probe = sim_sine(seed);
    probe.rand_a();
    probe.rand_a();
    probe.bounded_pick(1);
    probe.rand_a();
    probe.rand_a();
    sim.critter_tick();
    assert_eq!(sim.rand_a_state(), probe.rand_a_state());
    assert!(count_kind(&sim, 0x65) > 0);
}

#[test]
fn presence_gate_keeps_idle_shooter_draw_free() {
    let mut sim = sim_sine(3);
    push_shooter(&mut sim, 0, 0, 0);
    sim.critters[0].presence = false;
    let s0 = sim.rand_a_state();
    sim.critter_tick();
    assert_eq!(sim.rand_a_state(), s0, "presence 0 → no draws");
}

fn push_mixed(sim: &mut MissionSim, kind: u16, x: i32, y: i32, z: i32) {
    sim.critters.push(CritterRecord {
        kind,
        species: 1,
        hp: 150,
        mode: 8,
        anim: 2,
        x,
        y,
        z,
        presence: true,
        ..Default::default()
    });
}

#[test]
fn mixed_wake_picks_a_heading_and_engages_the_same_substep() {
    let mut sim = sim_sine(0x75);
    sim.set_difficulty(2);
    push_mixed(&mut sim, 5, 10 * 0x2000, 10 * 0x2000, 0x5F);
    sim.critters[0].mode = 0xB;
    sim.critters[0].countdown = 600;
    let mut probe = sim_sine(0x75);
    let gate = probe.rand_a() & 0x1F;
    if gate == 0 {
        probe.rand_a();
    }
    let heading = probe.bounded_pick(0xFF);
    sim.critter_tick();
    let c = sim.critters[0];
    assert_eq!(c.mode, 8, "awake and engaging");
    assert_eq!(c.species, 3);
    assert_eq!(c.hp, 0x96);
    assert_eq!(c.heading, heading, "no robot in reach: the engage leaves the drawn heading");
    assert_eq!(sim.rand_a_state(), probe.rand_a_state(), "beyond the leash the engage draws nothing");
}

#[test]
fn mixed_hold_band_turns_to_fire_at_the_robot() {
    let mut sim = sim_sine(0x76);
    push_robot(&mut sim, 10 * 0x2000 + 0x70 * 0x100, 10 * 0x2000, 0x5F, true);
    push_mixed(&mut sim, 6, 10 * 0x2000, 10 * 0x2000, 0x5F);
    sim.critter_tick();
    let c = sim.critters[0];
    assert_eq!(c.mode, 2, "0x60..=0x80 px: fire");
    assert_eq!(c.target_robot, 0);
    assert_eq!((c.target_x, c.target_y, c.target_z), (10 * 0x2000 + 0x70 * 0x100, 10 * 0x2000, 0x5F));
    assert!((0xA..=0x29).contains(&c.countdown));
}

#[test]
fn mixed_dying_turns_dormant_after_forty_frames() {
    let mut sim = sim_sine(0x77);
    push_mixed(&mut sim, 5, 10 * 0x2000, 10 * 0x2000, 0x5F);
    sim.critters[0].mode = 7;
    sim.critters[0].anim = 3;
    for _ in 0..39 {
        sim.critter_tick();
        assert_eq!(sim.critters[0].mode, 7);
    }
    sim.critter_tick();
    let c = sim.critters[0];
    assert_eq!(c.mode, 0xB);
    assert_eq!(c.hp, 0);
    assert_eq!(c.anim, 0);
    assert_eq!(c.countdown, 0);
}

fn push_stepper(sim: &mut MissionSim, x: i32, y: i32, z: i32) {
    sim.critters.push(CritterRecord {
        kind: 4,
        species: 6,
        hp: 200,
        mode: 9,
        x,
        y,
        z,
        presence: true,
        ..Default::default()
    });
}

#[test]
fn stepper_wakes_with_one_draw_and_seeks() {
    let mut sim = sim_sine(0x78);
    sim.set_difficulty(1);
    push_stepper(&mut sim, 10 * 32, 10 * 32, 0x5F);
    sim.critters[0].mode = 0xB;
    sim.critters[0].countdown = 900;
    sim.critters[0].species = 1;
    let mut probe = sim_sine(0x78);
    let dir = (probe.rand_a() & 3) as i32;
    sim.critter_tick();
    let c = sim.critters[0];
    assert_eq!(c.mode, 9);
    assert_eq!(c.species, 6);
    assert_eq!(c.hp, 0xC8);
    assert_eq!(c.heading, dir);
    assert_eq!(sim.rand_a_state(), probe.rand_a_state(), "one draw: no robot in range");
}

#[test]
fn stepper_dormant_counts_once_per_frame() {
    let mut sim = sim_sine(0x79);
    push_stepper(&mut sim, 10 * 32, 10 * 32, 0x5F);
    sim.critters[0].mode = 0xB;
    sim.critters[0].countdown = 0;
    let s0 = sim.rand_a_state();
    for k in 1..=5 {
        sim.critter_tick();
        assert_eq!(sim.critters[0].countdown, k, "the first substep alone counts");
    }
    assert_eq!(sim.rand_a_state(), s0);
}

#[test]
fn stepper_strike_damages_and_returns_to_seek_at_four() {
    let mut sim = sim_sine(0x7A);
    push_robot(&mut sim, 12 * 0x2000, 10 * 0x2000, 0x5F, true);
    push_stepper(&mut sim, 10 * 32, 10 * 32, 0x5F);
    sim.critters[0].mode = 2;
    sim.critters[0].target_robot = 0;
    sim.critters[0].countdown = 0;
    sim.critters[0].species = 1;
    let hp0 = sim.robots[0].hp;
    sim.critter_tick();
    assert_eq!(sim.robots[0].hp, hp0 - 1, "one point of damage");
    assert_eq!(sim.critters[0].countdown, 1);
    sim.critters[0].countdown = 4;
    sim.critter_tick();
    assert_eq!(sim.critters[0].mode, 9, "back to seeking");
}

fn push_wanderer(sim: &mut MissionSim, x: i32, y: i32, countdown: i32, dir: i16) {
    sim.critters.push(CritterRecord {
        kind: 1,
        species: 1,
        hp: 200,
        dir,
        countdown,
        z: 0x5F,
        z_restore: 0x5F,
        x,
        y,
        presence: true,
        ..Default::default()
    });
}

#[test]
fn idle_squash_restores_z_and_burns_no_draws() {
    let mut sim = sim_flat(1);
    push_wanderer(&mut sim, 0x210, 0x210, 5, -1);
    sim.critters[0].z = 0x40;
    let s0 = sim.rand_a_state();
    sim.critter_tick();
    assert_eq!(sim.rand_a_state(), s0, "the squash path is draw-free");
    let c = &sim.critters[0];
    assert_eq!(c.countdown, 1, "squashed to one substep");
    assert_eq!(c.z, 0x5F, "z := z_restore");
    assert_eq!(c.dir, -1);
}

#[test]
fn pick_then_walk_cycle() {
    let mut sim = sim_flat(2);
    push_wanderer(&mut sim, 0x210, 0x210, 1, -1);
    sim.critter_tick();
    let c = sim.critters[0];
    assert!((0..=3).contains(&(c.dir as i32)), "a walk direction");
    assert_eq!(c.frame as i32, c.dir as i32, "the anim mirror");
    assert!((10..=25).contains(&c.countdown));
    assert_eq!(c.x, 0x210);
    assert_eq!(c.y, 0x210);
    let dir = c.dir as i32;
    let (ex, ey) = match dir {
        0 => (0x210, 0x210 - 6),
        1 => (0x210 + 6, 0x210),
        2 => (0x210, 0x210 + 6),
        _ => (0x210 - 6, 0x210),
    };
    sim.critter_tick();
    let c = &sim.critters[0];
    assert_eq!((c.x, c.y), (ex, ey), "the ±6 stepper commit");
    assert_eq!(c.dir as i32, dir, "still walking");
}

#[test]
fn walk_end_and_repick() {
    let mut sim = sim_flat(3);
    push_wanderer(&mut sim, 0x210, 0x210, 2, 1);
    sim.critter_tick();
    assert_eq!(sim.critters[0].x, 0x210 + 6);
    sim.critter_tick();
    let c = &sim.critters[0];
    assert_eq!(c.dir, -1);
    assert!((8..=15).contains(&c.countdown));
}

#[test]
fn blocked_probe_repick_no_z_restore() {
    let mut sim = sim_flat(4);
    sim.terrain.dat_write(6, 5, 2, 0xFF);
    push_wanderer(&mut sim, 5 * 0x20 + 0x10, 5 * 0x20 + 0x10, 3, 1);
    sim.critters[0].z = 0x50;
    sim.critter_tick();
    let c = &sim.critters[0];
    assert_eq!(c.x, 5 * 0x20 + 0x10, "the step did not commit");
    assert_eq!(c.dir, -1, "re-picked");
    assert_eq!(c.z, 0x50, "no z-restore on the blocked path");
}

#[test]
fn wander_toward_tie_break_and_axes() {
    let mut sim = sim_flat(5);
    sim.spawn_robot((3, 3, 2));
    push_wanderer(&mut sim, 111 - 60, 111 - 60, 1, -1);
    assert_eq!(sim.wander_toward(0), 2);
    let mut sim2 = sim_flat(5);
    sim2.spawn_robot((3, 3, 2));
    push_wanderer(&mut sim2, 111 - 60, 111, 1, -1);
    assert_eq!(sim2.wander_toward(0), 1);
    push_wanderer(&mut sim2, 111 + 60, 111, 1, -1);
    assert_eq!(sim2.wander_toward(1), 3);
    let mut sim3 = sim_flat(5);
    sim3.spawn_robot((3, 3, 2));
    push_wanderer(&mut sim3, 111, 111 + 60, 1, -1);
    assert_eq!(sim3.wander_toward(0), 0);
}

#[test]
fn suicide_trigger_explodes_with_40_draws() {
    let mut a = sim_flat(6);
    let mut b = sim_flat(6);
    a.spawn_robot((3, 3, 2));
    b.spawn_robot((3, 3, 2));
    push_wanderer(&mut a, 111, 111, 9, 1);
    a.critter_tick();
    assert!(!a.critters[0].presence, "deactivated");
    for _ in 0..40 {
        b.rand_a();
    }
    assert_eq!(a.rand_a_state(), b.rand_a_state(), "5 draws × 8");
}

#[test]
fn suicide_trigger_far_robot_wanders_on() {
    let mut sim = sim_flat(8);
    sim.spawn_robot((10, 10, 2));
    push_wanderer(&mut sim, 111, 111, 5, -1);
    sim.critter_tick();
    assert!(sim.critters[0].presence);
    assert_eq!(sim.critters[0].countdown, 1, "the idle squash ran");
}
