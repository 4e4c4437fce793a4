//! The mission simulation: terrain, the squad's robots, one pending
//! click order, and the per-frame unit manager that walks ordered robots
//! to their targets.
//!
//! World positions are Q13 (0x2000 units per tile); the walkability code
//! works in Q5 (0x20 units per tile): candidate = `(pos + delta) >> 8`,
//! tile = `candidate >> 5`. A frame runs the unit manager six times
//! (phases 0..5); movement strides are 0x400 (1/8 tile). Walkability is
//! an 8-probe footprint test with a climb limit of 4 z-units over the
//! height field; tall steps are the walls. Clicking a robot arms one
//! pending order; the unit manager hands the move to every robot within
//! 6 tiles and walks them with an octagonally normalized velocity;
//! arrival snaps them to the tile grid.
//!
//! Integer math only, no unordered state: the same inputs give the same
//! frames and the same state hashes.

use vstd::prelude::*;

use crate::angle::{angle_of, angle_wf, AngleView};
use crate::hash::{fnv1a64_spec, fnv_fold, lemma_fnv_fold_concat, Fnv1a64, StateHash};
use crate::le::{le_bytes_u16, le_bytes_u32, le_bytes_u64, read_u16, u16_at};
use crate::poi::{
    ExitSlot, PoiRecord, ARRIVE_DIST, ESCAPE_AWARD, FLEE_DIST, FLEE_FOREVER, PANIC_TIMER, SETTLE_DIST,
};
use crate::debris::debris_ticked;
use crate::fence::timers_ticked;
use crate::destroy::{
    creep_fits, creep_ticked, free_debris, free_splash, DebrisRecord, ObjectInstance, SplashRecord, TerrainStructure,
    DEBRIS_SLOTS, SPLASH_SLOTS,
};
use crate::objects::{rows_view, ObjectType, ObjectTypeView};
use crate::impact::{lemma_trapped_keeps_robots, trapped};
use crate::critter::{blank_row, blank_row_bank, CritterRecord, EffectRow, EFFECT_ROWS};
use crate::elevator::Elevator;
use crate::brain::{critters_ticked, free_projectile, free_projectile_bank, EnemyProjectile, ENEMY_SLOTS};
use crate::ride::Ride;
use crate::rng::{draw_at, lcg_step, pcg_output, splitmix64_spec, state_after, Pcg32};
use crate::terrain::{terrain_wf, TerrainView};

pub use crate::angle::{dist_octagonal, AngleTable};
pub use crate::terrain::{dat_plane_bytes, Terrain};

verus! {

/// Q13 units per tile (world position quantum).
pub const Q13_PER_TILE: i32 = 0x2000;

/// Q5 units per tile (walkability-space quantum).
pub const Q5_PER_TILE: i32 = 0x20;

/// Robot spawn centering offset inside the tile.
pub const SPAWN_CENTER: i32 = 0xF00;

/// Per-sub-tick movement stride, Q13 (1/8 tile).
pub const MOVE_STRIDE: i32 = 0x400;

/// Arrival radius, Q13.
pub const ARRIVE_RADIUS: i32 = 0x1400;

/// Click-order effect radius, Q5 (6 tiles).
pub const ORDER_RADIUS: i32 = 0xC0;

/// Order validity window, frames.
pub const ORDER_WINDOW: u16 = 0x197;

/// Stop distance stored on a click order ("go all the way").
pub const ORDER_STOP_DIST: i32 = 1_000_000;

/// Unit-manager invocations per frame (phases 0..5).
pub const PHASES_PER_FRAME: u32 = 6;

/// Footprint probes: X offsets, Q5.
pub const PROBE_X: [i32; 8] = [-11, -11, 12, 12, 0, 0, -11, 12];

/// Footprint probes: Y offsets, Q5.
pub const PROBE_Y: [i32; 8] = [-11, 12, -11, 12, -11, 12, 0, 0];

/// Maximum climb between a probe floor and its reference z, z-units.
pub const CLIMB_LIMIT: i32 = 4;

/// Facing: none.
pub const FACING_NONE: u16 = 0xFFFF;

/// Facing: north.
pub const FACING_N: u16 = 0x0000;

/// Facing: east.
pub const FACING_E: u16 = 0x0040;

/// Facing: south.
pub const FACING_S: u16 = 0x0080;

/// Facing: west.
pub const FACING_W: u16 = 0x00C0;

/// Robot state: idle.
pub const STATE_IDLE: u16 = 0;

/// Robot state: ordered (holding at its order tile).
pub const STATE_ORDERED: u16 = 3;

/// Robot state: moving to an order target.
pub const STATE_MOVING: u16 = 4;

/// Spread-claim destination offsets, tile units: 12 slots, assigned
/// first-free.
pub const SPREAD_OFFSETS: [(i32, i32); 12] = [
    (0, 0),
    (1, 0),
    (-1, 0),
    (0, -1),
    (0, 1),
    (-1, -1),
    (1, -1),
    (-1, 1),
    (1, 1),
    (-2, 0),
    (0, -2),
    (2, 0),
];

/// Shield granted by the ordered and auto-shield conversions.
pub const SHIELD_TICK: i32 = 0x20;

/// Shield decay per frame.
pub const SHIELD_DECAY: i32 = 2;

/// The shield pool while the booster counts down.
pub const SHIELD_BOOST_POOL: i32 = 10_000;

/// The pool left when the booster expires.
pub const SHIELD_BOOST_LEFTOVER: i32 = 150;

/// Armor ceiling on pad charges.
pub const ARMOR_MAX: i16 = 0xBB8;

/// Armor bleed per phase-1 pass off a pad.
pub const ARMOR_BLEED: i16 = 10;

/// Armor charge per phase-1 pass on a pad.
pub const ARMOR_CHARGE: i32 = 0x14;

/// The scorch ring a death debris writes: world Q5 offsets (one tile =
/// 0x20) and values (corners 1, edges 2, center 4), in write order.
pub const DEBRIS_SCORCH_RING: [(i32, i32, u8); 9] = [
    (-0x20, -0x20, 1),
    (-0x20, 0, 2),
    (-0x20, 0x20, 1),
    (0, -0x20, 2),
    (0, 0, 4),
    (0, 0x20, 2),
    (0x20, -0x20, 1),
    (0x20, 0, 2),
    (0x20, 0x20, 1),
];

/// The reinforcement countdown pickup case 1 writes.
pub const PICKUP_DROP: i32 = 0x3E8;

/// The shield pool pickup case 2 writes.
pub const PICKUP_SHIELD: i32 = 0x3E8;

/// The health pickup increment (case 3).
pub const PICKUP_HEALTH: i32 = 0x9C4;

/// The HP ceiling the health pickup clamps to.
pub const HP_MAX: i32 = 0x1388;

/// The booster countdown pickup case 7 arms.
pub const PICKUP_BOOST: i32 = 0xC8;

/// Pickup table A bases per terrain set: words in `[A, A+0x10)` map to
/// cases 1, 3, 2, 4 by groups of four.
pub const PICKUP_RANGE_A: [i32; 7] = [0x4E, 0x75, 0x75, 0x358, 0x75, 0xA3, 0xA3];

/// Pickup table B bases per terrain set: words in `[B, B+0xC)` map to
/// cases 9, 7, 8 by groups of four.
pub const PICKUP_RANGE_B: [i32; 7] = [0x75, 0x535, 0x70B, 0x656, 0x535, 0x4FE, 0x31E];

/// The bare-floor word a consumed pickup cell takes, per terrain set.
pub const PICKUP_FLOOR_WORD: [i32; 7] = [0x70B, 0x48F, 0x24C, 0x368, 0x48F, 0x39, 0x39];

/// The case-4 award table: row 0 score, row 1 money.
pub const PICKUP_AWARDS: [[i32; 4]; 2] = [[1000, 2000, 5000, 10000], [10, 50, 100, 250]];

/// PCG stream of the mission draws.
pub const STREAM_MISSION: u64 = 7;

/// The pickup case a tile word selects for terrain set `set` (0-based).
pub open spec fn pickup_case_of(tile_word: i32, set: usize) -> Option<u8> {
    if set < 7 && PICKUP_RANGE_A@[set as int] <= tile_word < PICKUP_RANGE_A@[set as int] + 16 {
        let g = (tile_word - PICKUP_RANGE_A@[set as int]) / 4;
        Some(
            if g == 0 {
                1u8
            } else if g == 1 {
                3u8
            } else if g == 2 {
                2u8
            } else {
                4u8
            },
        )
    } else if set < 7 && PICKUP_RANGE_B@[set as int] <= tile_word < PICKUP_RANGE_B@[set as int]
        + 12 {
        let g = (tile_word - PICKUP_RANGE_B@[set as int]) / 4;
        Some(
            if g == 0 {
                9u8
            } else if g == 1 {
                7u8
            } else {
                8u8
            },
        )
    } else {
        None
    }
}

/// The pickup case a per-tile type word selects for terrain set `set`
/// (0-based): table A's four-word groups give cases 1/3/2/4, table B's
/// give 9/7/8; any other word, or a set past 6, gives `None`.
pub fn pickup_case(tile_word: i32, set: usize) -> (r: Option<u8>)
    ensures
        r == pickup_case_of(tile_word, set),
{
    if set >= 7 {
        return None;
    }
    let a = PICKUP_RANGE_A[set];
    if tile_word >= a && tile_word - a < 16 {
        let g = (tile_word - a) / 4;
        return Some(
            if g == 0 {
                1
            } else if g == 1 {
                3
            } else if g == 2 {
                2
            } else {
                4
            },
        );
    }
    let b = PICKUP_RANGE_B[set];
    if tile_word >= b && tile_word - b < 12 {
        let g = (tile_word - b) / 4;
        return Some(
            if g == 0 {
                9
            } else if g == 1 {
                7
            } else {
                8
            },
        );
    }
    None
}

/// One robot record.
#[derive(Debug, Clone, Copy, PartialEq, Eq)]
pub struct Robot {
    /// World X, Q13.
    pub pos_x: i32,
    /// World Y, Q13.
    pub pos_y: i32,
    /// Floor z, Q5.
    pub z: i32,
    /// State word (0 idle, 1 walking, 2 held, 3 ordered, 4 moving,
    /// 5 extracted).
    pub state: u16,
    /// Last angle byte used.
    pub dir_byte: u16,
    /// Facing: a cardinal code or `FACING_NONE`.
    pub facing: u16,
    /// Walk animation phase `((angle + 4) & 0xFF) >> 3`.
    pub anim: u16,
    /// Spawn variant (`RandA() & 3`).
    pub variant: u16,
    /// Probe floor cache: slot i is probe i's climb reference and floor
    /// query z (read sign-extended, so 0xFFFF is -1).
    pub probe_z: [u16; 8],
    /// Stop distance of the active order.
    pub stop_dist: i32,
    /// Move target, Q5.
    pub target: Option<(i32, i32)>,
    /// Alive flag.
    pub alive: bool,
    /// Countdown buying phases 4/5: they run while `phase*32 <
    /// drop_countdown`.
    pub drop_countdown: i32,
    /// Hit points; `< 1` is death.
    pub hp: i32,
    /// Armor, charged on pads and bled off them, within `[0, 3000]`.
    pub armor: i16,
    /// Hit flash, bumped per damaging hit, decaying per frame.
    pub hit_flash: u16,
    /// Under-attack alarm word, decaying per frame.
    pub alarm: u16,
    /// Alarm accumulator: +3 per damaging hit while the alarm is off.
    pub alarm_ctr: i32,
    /// Shield pool: absorbs damage before hp, decays 2 per frame.
    pub shield: i32,
    /// Auto-shield charges.
    pub shield_charges: i32,
    /// Shield booster countdown.
    pub shield_boost: i32,
    /// Battery stat: the landing HP is `5000 + 100*battery`.
    pub battery: i32,
    /// Armor-charge pool, drained before armor charges.
    pub armor_pool: i32,
    /// Robot type word (0 = the player type).
    pub kind: u16,
    /// Death flag.
    pub death_flag: u16,
    /// Weapon enable mask: bit k = slot k armed.
    pub weapon_mask: u16,
}

impl Robot {
    /// Tile coordinates of the robot center (Q13 >> 13).
    pub fn tile(&self) -> (r: (i32, i32))
        ensures
            r == (self.pos_x >> 13u32, self.pos_y >> 13u32),
    {
        (self.pos_x >> 13, self.pos_y >> 13)
    }

    /// Q5 position (what the walkability code consumes).
    pub fn q5(&self) -> (r: (i32, i32))
        ensures
            r == (self.pos_x >> 8u32, self.pos_y >> 8u32),
    {
        (self.pos_x >> 8, self.pos_y >> 8)
    }
}

/// The pending click order.
#[derive(Debug, Clone, Copy, PartialEq, Eq)]
pub struct Order {
    /// Order tile and z.
    pub tile: (i32, i32, i32),
    /// Validity window in frames (0 when exactly one robot is alive).
    pub window: u16,
    /// The 12 spread-claim slots.
    pub claims: [bool; 12],
}

/// The extraction dropship record: active flag, phase (1 descend, 2
/// landed, 3 depart), position, altitude, image group and dwell.
#[derive(Debug, Clone, Copy, PartialEq, Eq, Default)]
pub struct CraftRecord {
    pub active: bool,
    pub phase: i32,
    pub x: i32,
    pub y: i32,
    pub alt: i32,
    pub group: i32,
    pub dwell: i32,
}

/// What [`MissionSim::apply_damage`] did.
#[derive(Debug, Clone, Copy, PartialEq, Eq)]
pub struct DamageOutcome {
    /// The hit passed the gates (robot alive and not held).
    pub applied: bool,
    /// The robot died from this hit.
    pub died: bool,
    /// The five debris rows `(x_q5, y_q5, z, phase_param)` of a death.
    pub debris: [(i32, i32, i32, i32); 5],
}

/// What [`MissionSim::apply_pickup`] did.
#[derive(Debug, Clone, Copy, PartialEq, Eq)]
pub struct PickupOutcome {
    /// The case body ran (robot index valid, case in 1..=4 or 7..=9).
    pub applied: bool,
    /// The effect id of the case.
    pub effect: i32,
}

/// Everything a [`MissionSim`] holds.
#[verifier::ext_equal]
pub struct MissionView {
    pub terrain: TerrainView,
    pub robots: Seq<Robot>,
    pub order: Option<Order>,
    pub angles: AngleView,
    /// The shared draw stream `(state, increment)`.
    pub rng: (u64, u64),
    pub frame: u64,
    /// Per-tile armor-pad bytes, linear tile order, zero past the end.
    pub armor_pads: Seq<u8>,
    pub player_type: u16,
    pub difficulty: u32,
    pub zone: u32,
    pub language: u32,
    pub mission_no: u32,
    pub network_mode: u8,
    /// The tile mirror words, 8 per tile.
    pub mirror_words: Seq<u16>,
    /// The seen bytes, 8 per tile.
    pub mirror_seen: Seq<u8>,
    pub score_pending: i32,
    pub strip_arm: bool,
    pub pickup_score: i32,
    pub pickup_money: i32,
    pub dropship: CraftRecord,
    pub extracted: i32,
    pub extraction_complete: bool,
    pub order_pad_armed: bool,
    pub beacon_tile_latch: Option<(i32, i32, i32)>,
    pub beacon_claims_latch: [bool; 12],
    pub objective: (u32, u32, u32),
    pub family_armed: bool,
    pub pois: Seq<PoiRecord>,
    pub poi_exits: Seq<ExitSlot>,
    pub poi_escapes: i32,
    pub poi_panic: i32,
    pub rides: Seq<Ride>,
    /// The linear mission number the turret hit points derive from.
    pub linear: u32,
    /// The destructible-object type rows.
    pub object_types: Seq<ObjectTypeView>,
    /// The placed object instances, in POS slot order.
    pub objects: Seq<ObjectInstance>,
    /// The terrain-structure (turret) bank.
    pub structures: Seq<TerrainStructure>,
    /// The object-presence words, one per tile: 0 empty, instance
    /// index + 1, or the 0x7d2/0x7d3/0x7d4 hazard, clamp and platform
    /// words.
    pub object_grid: Seq<u16>,
    /// The platform strength words, one per tile.
    pub platform_strength: Seq<u16>,
    pub platform_site: (i32, i32),
    pub platform_family_armed: bool,
    /// The journal of mirror-cell writes `(cell, word, seen)`, when a
    /// renderer observes them.
    pub terrain_writes: Option<Seq<(usize, u16, u8)>>,
    /// The per-tile height pair cleared by the objective notify.
    pub mirror_heights: Seq<(u8, u8)>,
    /// The debris ring.
    pub debris: Seq<DebrisRecord>,
    /// The global debris staging counter.
    pub debris_seq: i32,
    /// The splash bank.
    pub splashes: Seq<SplashRecord>,
    /// The objective counter the zone-7 notify counts down.
    pub objective_count: i32,
    /// The delayed fence-shutdown timers `(payload, countdown)`.
    pub fence_timers: Seq<(u32, u16)>,
    /// The critter bank.
    pub critters: Seq<CritterRecord>,
    /// The effect-row bank.
    pub effect_rows: Seq<EffectRow>,
    /// The enemy-projectile bank.
    pub enemy_bank: Seq<EnemyProjectile>,
    /// The elevator rectangles.
    pub elevators: Seq<Elevator>,
    /// The per-tile elevator target words.
    pub elevator_targets: Seq<u8>,
    /// The per-tile elevator bias words.
    pub elevator_bias: Seq<u8>,
}

/// The simulation is well formed: a well-formed terrain and angle table,
/// and the five exit slots.
pub open spec fn sim_wf(m: MissionView) -> bool {
    &&& terrain_wf(m.terrain)
    &&& angle_wf(m.angles)
    &&& m.poi_exits.len() == 5
    &&& m.mirror_words.len() == m.mirror_seen.len()
    &&& m.object_grid.len() == m.platform_strength.len()
    &&& m.debris.len() == DEBRIS_SLOTS
    &&& m.splashes.len() == SPLASH_SLOTS
    &&& m.fence_timers.len() == 32
    &&& m.effect_rows.len() == EFFECT_ROWS
    &&& m.enemy_bank.len() == ENEMY_SLOTS
}



/// The mission simulation (see the module documentation).
#[derive(Debug, PartialEq, Eq)]
pub struct MissionSim {
    /// The walkability data.
    pub terrain: Terrain,
    /// The robots in record order.
    pub robots: Vec<Robot>,
    pub(crate) order: Option<Order>,
    /// The angle table.
    pub angles: AngleTable,
    pub(crate) rng: Pcg32,
    pub(crate) frame: u64,
    pub(crate) armor_pads: Vec<u8>,
    pub(crate) player_type: u16,
    pub(crate) difficulty: u32,
    /// The terrain-set cell (1..7), 0 until staged.
    pub zone: u32,
    pub(crate) language: u32,
    /// The within-zone mission number (1 by default).
    pub mission_no: u32,
    /// The network mode (2 = head-to-head).
    pub network_mode: u8,
    pub mirror_words: Vec<u16>,
    pub mirror_seen: Vec<u8>,
    /// The pending score award.
    pub score_pending: i32,
    pub(crate) strip_arm: bool,
    pub(crate) pickup_score_pending: i32,
    pub(crate) pickup_money_pending: i32,
    pub(crate) dropship: CraftRecord,
    pub(crate) extracted: i32,
    pub(crate) extraction_complete: bool,
    /// The pending order was armed by an extraction pad.
    pub order_pad_armed: bool,
    pub(crate) beacon_tile_latch: Option<(i32, i32, i32)>,
    pub(crate) beacon_claims_latch: [bool; 12],
    pub(crate) objective_phase: u32,
    pub(crate) objective_blink: u32,
    pub(crate) objective_light: u32,
    pub(crate) critter_family_armed: bool,
    /// The personnel bank.
    pub pois: Vec<PoiRecord>,
    /// The exit slots personnel flee to.
    pub poi_exits: [ExitSlot; 5],
    pub(crate) poi_escapes: i32,
    pub(crate) poi_panic: i32,
    pub(crate) rides: Vec<Ride>,
    /// The linear mission number (the critter hp scalar).
    pub linear: u32,
    pub(crate) object_types: Vec<ObjectType>,
    pub objects: Vec<ObjectInstance>,
    pub structures: Vec<TerrainStructure>,
    pub(crate) object_grid: Vec<u16>,
    pub(crate) platform_strength: Vec<u16>,
    pub(crate) platform_site: (i32, i32),
    pub(crate) platform_family_armed: bool,
    pub(crate) terrain_writes: Option<Vec<(usize, u16, u8)>>,
    pub(crate) mirror_heights: Vec<(u8, u8)>,
    pub debris: Vec<DebrisRecord>,
    pub(crate) debris_seq: i32,
    pub(crate) splashes: Vec<SplashRecord>,
    pub(crate) objective_count: i32,
    pub fence_timers: [(u32, u16); 32],
    /// The critter bank in staging order.
    pub critters: Vec<CritterRecord>,
    pub(crate) effect_rows: Vec<EffectRow>,
    /// The enemy-projectile bank.
    pub enemy_bank: Vec<EnemyProjectile>,
    /// The elevator rectangles.
    pub elevators: Vec<Elevator>,
    /// The per-tile elevator target words: the level count times 16 a
    /// moving stack runs to.
    pub elevator_targets: Vec<u8>,
    /// The per-tile elevator bias words: bit 7 raising, the low seven
    /// bits the frames run so far.
    pub elevator_bias: Vec<u8>,
}

/// The journal after one more mirror-cell write, when one is kept.
pub open spec fn journaled(j: Option<Seq<(usize, u16, u8)>>, e: (usize, u16, u8)) -> Option<
    Seq<(usize, u16, u8)>,
> {
    match j {
        None => None,
        Some(s) => Some(s.push(e)),
    }
}

/// The views of a journal.
pub open spec fn journal_view(j: Option<Vec<(usize, u16, u8)>>) -> Option<Seq<(usize, u16, u8)>> {
    match j {
        None => None,
        Some(v) => Some(v@),
    }
}

impl View for MissionSim {
    type V = MissionView;

    closed spec fn view(&self) -> MissionView {
        MissionView {
            terrain: self.terrain@,
            robots: self.robots@,
            order: self.order,
            angles: self.angles@,
            rng: self.rng@,
            frame: self.frame,
            armor_pads: self.armor_pads@,
            player_type: self.player_type,
            difficulty: self.difficulty,
            zone: self.zone,
            language: self.language,
            mission_no: self.mission_no,
            network_mode: self.network_mode,
            mirror_words: self.mirror_words@,
            mirror_seen: self.mirror_seen@,
            score_pending: self.score_pending,
            strip_arm: self.strip_arm,
            pickup_score: self.pickup_score_pending,
            pickup_money: self.pickup_money_pending,
            dropship: self.dropship,
            extracted: self.extracted,
            extraction_complete: self.extraction_complete,
            order_pad_armed: self.order_pad_armed,
            beacon_tile_latch: self.beacon_tile_latch,
            beacon_claims_latch: self.beacon_claims_latch,
            objective: (self.objective_phase, self.objective_blink, self.objective_light),
            family_armed: self.critter_family_armed,
            pois: self.pois@,
            poi_exits: self.poi_exits@,
            poi_escapes: self.poi_escapes,
            poi_panic: self.poi_panic,
            rides: self.rides@,
            linear: self.linear,
            object_types: rows_view(self.object_types@),
            objects: self.objects@,
            structures: self.structures@,
            object_grid: self.object_grid@,
            platform_strength: self.platform_strength@,
            platform_site: self.platform_site,
            platform_family_armed: self.platform_family_armed,
            terrain_writes: journal_view(self.terrain_writes),
            mirror_heights: self.mirror_heights@,
            debris: self.debris@,
            debris_seq: self.debris_seq,
            splashes: self.splashes@,
            objective_count: self.objective_count,
            fence_timers: self.fence_timers@,
            critters: self.critters@,
            effect_rows: self.effect_rows@,
            enemy_bank: self.enemy_bank@,
            elevators: self.elevators@,
            elevator_targets: self.elevator_targets@,
            elevator_bias: self.elevator_bias@,
        }
    }
}

/// The view of a simulation, field by field.
pub(crate) proof fn lemma_sim_view(s: &MissionSim)
    ensures
        s@ == (MissionView {
            terrain: s.terrain@,
            robots: s.robots@,
            order: s.order,
            angles: s.angles@,
            rng: s.rng@,
            frame: s.frame,
            armor_pads: s.armor_pads@,
            player_type: s.player_type,
            difficulty: s.difficulty,
            zone: s.zone,
            language: s.language,
            mission_no: s.mission_no,
            network_mode: s.network_mode,
            mirror_words: s.mirror_words@,
            mirror_seen: s.mirror_seen@,
            score_pending: s.score_pending,
            strip_arm: s.strip_arm,
            pickup_score: s.pickup_score_pending,
            pickup_money: s.pickup_money_pending,
            dropship: s.dropship,
            extracted: s.extracted,
            extraction_complete: s.extraction_complete,
            order_pad_armed: s.order_pad_armed,
            beacon_tile_latch: s.beacon_tile_latch,
            beacon_claims_latch: s.beacon_claims_latch,
            objective: (s.objective_phase, s.objective_blink, s.objective_light),
            family_armed: s.critter_family_armed,
            pois: s.pois@,
            poi_exits: s.poi_exits@,
            poi_escapes: s.poi_escapes,
            poi_panic: s.poi_panic,
            rides: s.rides@,
            linear: s.linear,
            object_types: rows_view(s.object_types@),
            objects: s.objects@,
            structures: s.structures@,
            object_grid: s.object_grid@,
            platform_strength: s.platform_strength@,
            platform_site: s.platform_site,
            platform_family_armed: s.platform_family_armed,
            terrain_writes: journal_view(s.terrain_writes),
            mirror_heights: s.mirror_heights@,
            debris: s.debris@,
            debris_seq: s.debris_seq,
            splashes: s.splashes@,
            objective_count: s.objective_count,
            fence_timers: s.fence_timers@,
            critters: s.critters@,
            effect_rows: s.effect_rows@,
            enemy_bank: s.enemy_bank@,
            elevators: s.elevators@,
            elevator_targets: s.elevator_targets@,
            elevator_bias: s.elevator_bias@,
        }),
{
}

/// A simulation is well formed when its view is.
pub(crate) proof fn lemma_sim_wf(s: &MissionSim)
    ensures
        s.wf() == sim_wf(s@),
{
}

/// An empty exit slot.
pub open spec fn empty_exit() -> ExitSlot {
    ExitSlot { active: false, phase: 0, x: 0, y: 0, dwell: 0 }
}

/// The dropship record at rest.
pub open spec fn idle_craft() -> CraftRecord {
    CraftRecord { active: false, phase: 0, x: 0, y: 0, alt: 0, group: 0, dwell: 0 }
}

/// A fresh simulation over `t` and `a`, its stream seeded from `seed`.
pub open spec fn fresh_sim(t: TerrainView, a: AngleView, seed: u64) -> MissionView {
    MissionView {
        terrain: t,
        robots: Seq::empty(),
        order: None,
        angles: a,
        rng: (
            lcg_step(splitmix64_spec(seed), splitmix64_spec(STREAM_MISSION) | 1),
            splitmix64_spec(STREAM_MISSION) | 1,
        ),
        frame: 0,
        armor_pads: Seq::empty(),
        player_type: 0,
        difficulty: 0,
        zone: 0,
        language: 0,
        mission_no: 1,
        network_mode: 0,
        mirror_words: Seq::empty(),
        mirror_seen: Seq::empty(),
        score_pending: 0,
        strip_arm: false,
        pickup_score: 0,
        pickup_money: 0,
        dropship: idle_craft(),
        extracted: 0,
        extraction_complete: false,
        order_pad_armed: false,
        beacon_tile_latch: None,
        beacon_claims_latch: [false, false, false, false, false, false, false, false, false, false, false, false],
        objective: (0, 0, 0),
        family_armed: false,
        pois: Seq::empty(),
        poi_exits: Seq::new(5, |i: int| empty_exit()),
        poi_escapes: 0,
        poi_panic: 0,
        rides: Seq::empty(),
        linear: 0,
        object_types: Seq::empty(),
        objects: Seq::empty(),
        structures: Seq::empty(),
        object_grid: Seq::empty(),
        platform_strength: Seq::empty(),
        platform_site: (0, 0),
        platform_family_armed: false,
        terrain_writes: None,
        mirror_heights: Seq::empty(),
        debris: Seq::new(DEBRIS_SLOTS as nat, |i: int| free_debris()),
        debris_seq: 0,
        splashes: Seq::new(SPLASH_SLOTS as nat, |i: int| free_splash()),
        objective_count: 0,
        fence_timers: Seq::new(32, |i: int| (0u32, 0u16)),
        critters: Seq::empty(),
        effect_rows: Seq::new(EFFECT_ROWS as nat, |i: int| blank_row()),
        enemy_bank: Seq::new(ENEMY_SLOTS as nat, |i: int| free_projectile()),
        elevators: Seq::empty(),
        elevator_targets: Seq::empty(),
        elevator_bias: Seq::empty(),
    }
}

/// The armor pads grown with zeros so that `tile` is inside.
pub open spec fn grown(pads: Seq<u8>, tile: int) -> Seq<u8> {
    if tile < pads.len() {
        pads
    } else {
        pads + Seq::new((tile + 1 - pads.len()) as nat, |i: int| 0u8)
    }
}

/// The linear tile of a world Q5 position on a `w x h` map, if inside.
pub open spec fn scorch_tile(w: int, h: int, wx: i32, wy: i32) -> Option<int> {
    let tx = wx >> 5u32;
    let ty = wy >> 5u32;
    if tx < 0 || ty < 0 || tx >= w || ty >= h {
        None
    } else {
        Some(ty * w + tx)
    }
}

/// The pads after the absolute scorch write of `value` (values of 8 and
/// more write 7) at a world Q5 position; positions off the map are
/// dropped.
pub open spec fn scorch_pads(pads: Seq<u8>, w: int, h: int, wx: i32, wy: i32, value: u8) -> Seq<
    u8,
> {
    match scorch_tile(w, h, wx, wy) {
        None => pads,
        Some(t) => grown(pads, t).update(
            t,
            if value >= 8 {
                7u8
            } else {
                value
            },
        ),
    }
}

/// The pads after the incrementing scorch write (`+value`, saturating,
/// then capped at 7).
pub open spec fn scorch_add_pads(
    pads: Seq<u8>,
    w: int,
    h: int,
    wx: i32,
    wy: i32,
    value: u8,
) -> Seq<u8> {
    match scorch_tile(w, h, wx, wy) {
        None => pads,
        Some(t) => {
            let s = grown(pads, t)[t].saturating_add(value);
            grown(pads, t).update(
                t,
                if s > 7 {
                    7u8
                } else {
                    s
                },
            )
        },
    }
}

/// The pad byte of a linear tile: 0 past the staged bytes.
pub open spec fn pad_byte(pads: Seq<u8>, tile: int) -> u8 {
    if 0 <= tile < pads.len() {
        pads[tile]
    } else {
        0
    }
}

/// The `k`-th death debris row of a robot dying with the stream at
/// `rng`: two draws each (y jitter first, then x), z walking `+8k`, the
/// phase parameter `2k`.
pub open spec fn debris_row(rng: (u64, u64), r: Robot, k: int) -> (i32, i32, i32, i32) {
    let ry = draw_at(rng.0, rng.1, (2 * k) as nat);
    let rx = draw_at(rng.0, rng.1, (2 * k + 1) as nat);
    (
        ((rx & 0x1F) as int + (r.pos_x >> 8u32) - 0x10) as i32,
        ((ry & 0x1F) as int + (r.pos_y >> 8u32) - 0x10) as i32,
        (r.z + 8 * k) as i32,
        (2 * k) as i32,
    )
}

/// The pads after the first `j` scorch-ring writes around a debris row.
pub open spec fn ring_pads(pads: Seq<u8>, w: int, h: int, d: (i32, i32, i32, i32), j: nat) -> Seq<
    u8,
>
    decreases j,
{
    if j == 0 || j > 9 {
        pads
    } else {
        let p = ring_pads(pads, w, h, d, (j - 1) as nat);
        let e = DEBRIS_SCORCH_RING@[j - 1];
        scorch_pads(p, w, h, (d.0 + e.0) as i32, (d.1 + e.1) as i32, e.2)
    }
}

/// The pads after the scorch rings of the first `k` death debris.
pub open spec fn debris_pads(
    pads: Seq<u8>,
    w: int,
    h: int,
    rng: (u64, u64),
    r: Robot,
    k: nat,
) -> Seq<u8>
    decreases k,
{
    if k == 0 {
        pads
    } else {
        ring_pads(debris_pads(pads, w, h, rng, r, (k - 1) as nat), w, h, debris_row(rng, r, k - 1), 9)
    }
}

/// The outcome of a hit that passed no gate.
pub open spec fn no_damage() -> DamageOutcome {
    DamageOutcome {
        applied: false,
        died: false,
        debris: [(0i32, 0i32, 0i32, 0i32), (0, 0, 0, 0), (0, 0, 0, 0), (0, 0, 0, 0), (0, 0, 0, 0)],
    }
}

/// The robot after a damaging hit (the alarm accumulator, then the
/// shield absorb or the hit flash and hp subtract).
pub open spec fn hit_robot(r: Robot, damage: i32, player_type: u16) -> Robot {
    let ctr = if r.alarm == 0 {
        (r.alarm_ctr + 3) as i32
    } else {
        r.alarm_ctr
    };
    let (alarm, ctr2) = if ctr > 100 && r.kind == player_type {
        (100u16, 0i32)
    } else {
        (r.alarm, ctr)
    };
    let r1 = Robot { alarm: alarm, alarm_ctr: ctr2, ..r };
    if r1.shield == 0 {
        Robot { hit_flash: r1.hit_flash.wrapping_add(1), hp: (r1.hp - damage) as i32, ..r1 }
    } else {
        Robot {
            shield: if r1.shield - damage < 0 {
                0i32
            } else {
                (r1.shield - damage) as i32
            },
            ..r1
        }
    }
}

/// The dead robot: alive, hp and drop countdown cleared, death flag set,
/// armor zeroed.
pub open spec fn dead_robot(r: Robot) -> Robot {
    Robot { alive: false, drop_countdown: 0, hp: 0, death_flag: 1, armor: 0, ..r }
}

/// The hit's arithmetic stays inside `i32` on the path it takes: the
/// charge count of an auto-shield, the alarm counter of an unalarmed
/// robot, the hp (no shield) or the shield it comes off, and the debris
/// height of a death.
pub open spec fn damage_defined(m: MissionView, idx: usize, damage: i32) -> bool {
    idx < m.robots.len() ==> {
        let r = m.robots[idx as int];
        (r.alive && r.state != 2 && r.state != STATE_ORDERED) ==> if r.shield_charges != 0 && r.shield == 0 {
            r.shield_charges > i32::MIN
        } else {
            &&& (r.alarm == 0 ==> r.alarm_ctr + 3 <= i32::MAX)
            &&& (r.shield == 0 ==> i32::MIN <= r.hp - damage <= i32::MAX)
            &&& (r.shield != 0 ==> i32::MIN <= r.shield - damage <= i32::MAX)
            &&& (hit_robot(r, damage, m.player_type).hp < 1 ==> r.z + 32 <= i32::MAX)
        }
    }
}

/// The simulation and outcome after `damage` hits robot `idx`: dead or
/// held (state 2) robots and bad indices are untouched; an ordered
/// robot (state 3) converts the hit into a 0x20 shield; a live
/// auto-shield (charges with an empty pool) spends a charge for the
/// shield; otherwise the hit lands (see [`hit_robot`]) and, at hp below
/// 1, the robot dies: five debris from ten stream draws, each writing
/// its scorch ring into the armor pads.
pub open spec fn damage_result(m: MissionView, idx: usize, damage: i32) -> (
    MissionView,
    DamageOutcome,
) {
    let applied = DamageOutcome { applied: true, ..no_damage() };
    if idx >= m.robots.len() {
        (m, no_damage())
    } else {
        let r = m.robots[idx as int];
        if !r.alive || r.state == 2 {
            (m, no_damage())
        } else if r.state == STATE_ORDERED {
            (MissionView { robots: m.robots.update(idx as int, Robot { shield: 0x20, ..r }), ..m }, applied)
        } else if r.shield_charges != 0 && r.shield == 0 {
            (
                MissionView {
                    robots: m.robots.update(
                        idx as int,
                        Robot { shield_charges: (r.shield_charges - 1) as i32, shield: 0x20, ..r },
                    ),
                    ..m
                },
                applied,
            )
        } else {
            let r2 = hit_robot(r, damage, m.player_type);
            if r2.hp < 1 {
                death_result(m, idx, r2)
            } else {
                (MissionView { robots: m.robots.update(idx as int, r2), ..m }, applied)
            }
        }
    }
}

/// The death of robot `idx` after the hit left it as `r2`: the robot
/// dies, ten draws stage five debris rows, each writing its scorch ring.
pub open spec fn death_result(m: MissionView, idx: usize, r2: Robot) -> (MissionView, DamageOutcome) {
    let w = m.terrain.width;
    let h = m.terrain.height;
    (
        MissionView {
            robots: m.robots.update(idx as int, dead_robot(r2)),
            rng: (state_after(m.rng.0, m.rng.1, 10), m.rng.1),
            armor_pads: debris_pads(m.armor_pads, w, h, m.rng, r2, 5),
            ..m
        },
        DamageOutcome {
            applied: true,
            died: true,
            debris: [
                debris_row(m.rng, r2, 0),
                debris_row(m.rng, r2, 1),
                debris_row(m.rng, r2, 2),
                debris_row(m.rng, r2, 3),
                debris_row(m.rng, r2, 4),
            ],
        },
    )
}

/// The effect id of a pickup case.
pub open spec fn pickup_effect(case: u8) -> i32 {
    if case == 1 {
        1
    } else if case == 2 {
        6
    } else if case == 3 {
        7
    } else if case == 4 {
        1
    } else if case == 7 {
        0xE
    } else if case == 8 {
        0xC
    } else {
        0xD
    }
}

/// A pickup case with a body (1..=4, 7..=9).
pub open spec fn pickup_case_valid(case: u8) -> bool {
    (1 <= case <= 4) || (7 <= case <= 9)
}

/// The pickup's arithmetic stays inside `i32`: the heal of case 3, and
/// the pending total the drawn award of case 4 goes to.
pub open spec fn pickup_defined(m: MissionView, idx: usize, case: u8) -> bool {
    &&& (case == 3 && idx < m.robots.len() ==> m.robots[idx as int].hp + PICKUP_HEALTH
        <= i32::MAX)
    &&& (case == 4 && idx < m.robots.len() ==> if award_of(m.rng).0 == 0 {
        m.pickup_score + award_of(m.rng).1 <= i32::MAX
    } else {
        m.pickup_money + award_of(m.rng).1 <= i32::MAX
    })
}

/// The case-4 award: `(row, amount)` from the next two draws.
pub open spec fn award_of(rng: (u64, u64)) -> (int, i32) {
    let row = (draw_at(rng.0, rng.1, 0) & 1) as int;
    let k = (draw_at(rng.0, rng.1, 1) & 3) as int;
    (row, PICKUP_AWARDS@[row]@[k])
}

/// The simulation and outcome after pickup `case` on robot `idx`: case 1
/// stages the reinforcement countdown, 2 refills the shield, 3 heals
/// +2500 capped at 5000, 4 draws a score or money award into the pending
/// pair, 7 arms the shield booster; 8 and 9 only report their effect.
/// Other cases and bad indices do nothing.
pub open spec fn pickup_result(m: MissionView, idx: usize, case: u8) -> (MissionView, PickupOutcome) {
    if !pickup_case_valid(case) || idx >= m.robots.len() {
        (m, PickupOutcome { applied: false, effect: 0 })
    } else {
        let r = m.robots[idx as int];
        let out = PickupOutcome { applied: true, effect: pickup_effect(case) };
        if case == 1 {
            (MissionView { robots: m.robots.update(idx as int, Robot { drop_countdown: PICKUP_DROP, ..r }), ..m }, out)
        } else if case == 2 {
            (MissionView { robots: m.robots.update(idx as int, Robot { shield: PICKUP_SHIELD, ..r }), ..m }, out)
        } else if case == 3 {
            let hp = if r.hp + PICKUP_HEALTH > HP_MAX {
                HP_MAX
            } else {
                (r.hp + PICKUP_HEALTH) as i32
            };
            (MissionView { robots: m.robots.update(idx as int, Robot { hp: hp, ..r }), ..m }, out)
        } else if case == 4 {
            let (row, amount) = award_of(m.rng);
            let m2 = MissionView { rng: (state_after(m.rng.0, m.rng.1, 2), m.rng.1), ..m };
            if row == 0 {
                (MissionView { pickup_score: (m.pickup_score + amount) as i32, ..m2 }, out)
            } else {
                (MissionView { pickup_money: (m.pickup_money + amount) as i32, ..m2 }, out)
            }
        } else if case == 7 {
            (MissionView { robots: m.robots.update(idx as int, Robot { shield_boost: PICKUP_BOOST, ..r }), ..m }, out)
        } else {
            (m, out)
        }
    }
}


/// A TOT volume matching the terrain: `u16 w + u16 h + 8*w*h` words.
pub open spec fn tot_ok(m: MissionView, tot: Seq<u8>) -> bool {
    let n = m.terrain.width * m.terrain.height;
    &&& tot.len() == 4 + 16 * n
    &&& u16_at(tot, 0) == m.terrain.width
    &&& u16_at(tot, 2) == m.terrain.height
}

/// The mirror words of a TOT volume, 8 per tile: cell `tile*8 + z` holds
/// plane `z`'s word of the tile.
pub open spec fn tot_words(tot: Seq<u8>, n: int) -> Seq<u16> {
    Seq::new((8 * n) as nat, |c: int| u16_at(tot, 4 + 2 * ((c % 8) * n + c / 8)))
}

/// The seen bytes of a volume, 8 per tile: 1 where the plane byte is 0.
pub open spec fn seen_bytes(dat: Seq<u8>, n: int) -> Seq<u8> {
    Seq::new(
        (8 * n) as nat,
        |c: int|
            if dat[(c % 8) * n + c / 8] == 0 {
                1u8
            } else {
                0u8
            },
    )
}

/// `v` fits in `i32`.
pub open spec fn fits32(v: int) -> bool {
    i32::MIN <= v <= i32::MAX
}

/// The number of alive robots.
pub open spec fn alive_count(s: Seq<Robot>) -> nat
    decreases s.len(),
{
    if s.len() == 0 {
        0
    } else {
        alive_count(s.drop_last()) + if s.last().alive {
            1nat
        } else {
            0nat
        }
    }
}

/// The first free claim slot at or after `i`.
pub open spec fn first_free(c: [bool; 12], i: nat) -> Option<int>
    decreases 12 - i,
{
    if i >= 12 {
        None
    } else if !c@[i as int] {
        Some(i as int)
    } else {
        first_free(c, i + 1)
    }
}

/// The claim flags with slot `s` taken.
pub open spec fn claim_set(c: [bool; 12], s: int) -> [bool; 12] {
    [
        s == 0 || c@[0],
        s == 1 || c@[1],
        s == 2 || c@[2],
        s == 3 || c@[3],
        s == 4 || c@[4],
        s == 5 || c@[5],
        s == 6 || c@[6],
        s == 7 || c@[7],
        s == 8 || c@[8],
        s == 9 || c@[9],
        s == 10 || c@[10],
        s == 11 || c@[11],
    ]
}

/// A fresh robot at a marker `(x, y, level)`: centered in the tile,
/// z one below the level's base, its probe cache seeded with that z.
pub open spec fn spawned_robot(marker: (i32, i32, i32), variant: u16) -> Robot {
    let z = (marker.2 * 0x20 - 1) as i32;
    let zz = z as u16;
    Robot {
        pos_x: (marker.0 * Q13_PER_TILE + SPAWN_CENTER) as i32,
        pos_y: (marker.1 * Q13_PER_TILE + SPAWN_CENTER) as i32,
        z: z,
        state: STATE_IDLE,
        dir_byte: 0,
        facing: FACING_NONE,
        anim: 0,
        variant: variant,
        probe_z: [zz, zz, zz, zz, zz, zz, zz, zz],
        stop_dist: 0,
        target: None,
        alive: true,
        drop_countdown: 0,
        hp: 5000,
        armor: 0,
        hit_flash: 0,
        alarm: 0,
        alarm_ctr: 0,
        shield: 0,
        shield_charges: 0,
        shield_boost: 0,
        battery: 0,
        armor_pool: 0,
        kind: 0,
        death_flag: 0,
        weapon_mask: 0,
    }
}

/// A marker whose spawn arithmetic fits in `i32`.
pub open spec fn spawn_defined(marker: (i32, i32, i32)) -> bool {
    &&& fits32(marker.2 * 0x20)
    &&& fits32(marker.2 * 0x20 - 1)
    &&& fits32(marker.0 * Q13_PER_TILE)
    &&& fits32(marker.1 * Q13_PER_TILE)
    &&& fits32(marker.0 * Q13_PER_TILE + SPAWN_CENTER)
    &&& fits32(marker.1 * Q13_PER_TILE + SPAWN_CENTER)
}

/// The simulation after spawning a robot at `marker`: one draw picks the
/// variant (`& 3`), the robot is appended, and one move test at its own
/// position settles its floor (a failed test leaves the seeds).
pub open spec fn spawn_result(m: MissionView, marker: (i32, i32, i32)) -> MissionView {
    let r0 = spawned_robot(marker, (draw_at(m.rng.0, m.rng.1, 0) & 3) as u16);
    let c = crate::movement::move_check(m.terrain, r0, r0.pos_x, r0.pos_y);
    MissionView {
        robots: m.robots.push(c.2),
        terrain: c.1,
        rng: (state_after(m.rng.0, m.rng.1, 1), m.rng.1),
        ..m
    }
}

/// Arm the click order at robot `idx`: with no order pending, the order
/// takes the robot's tile and z, a window of 0x197 frames (0 when
/// exactly one robot is alive) and claim slot 0; the robot snaps to its
/// tile's origin and takes state 3. With an order pending, nothing
/// changes (`false`).
pub open spec fn arm_result(m: MissionView, idx: int) -> (MissionView, bool) {
    if m.order is Some {
        (m, false)
    } else {
        let r = m.robots[idx];
        let tx = r.pos_x >> 13u32;
        let ty = r.pos_y >> 13u32;
        let window: u16 = if alive_count(m.robots) == 1 {
            0
        } else {
            ORDER_WINDOW
        };
        let claims = claim_set(
            [false, false, false, false, false, false, false, false, false, false, false, false],
            0,
        );
        (
            MissionView {
                order: Some(Order { tile: (tx, ty, r.z), window: window, claims: claims }),
                robots: m.robots.update(
                    idx,
                    Robot {
                        pos_x: (tx * Q13_PER_TILE) as i32,
                        pos_y: (ty * Q13_PER_TILE) as i32,
                        state: STATE_ORDERED,
                        ..r
                    },
                ),
                ..m
            },
            true,
        )
    }
}

/// The first pad record equal to `key`, from `i` on.
pub open spec fn first_pad(s: Seq<(i32, i32, i32)>, key: (i32, i32, i32), i: nat) -> Option<int>
    decreases s.len() - i,
{
    if i >= s.len() {
        None
    } else if s[i as int] == key {
        Some(i as int)
    } else {
        first_pad(s, key, i + 1)
    }
}

/// The pad slot under a robot (its tile and level), if any.
pub open spec fn pad_under(m: MissionView, r: Robot) -> Option<int> {
    first_pad(m.terrain.pad_slots, (r.pos_x >> 13u32, r.pos_y >> 13u32, r.z >> 5u32), 0)
}

/// The zone's extraction pad slots.
pub open spec fn extraction_slot(zone: u32, slot: int) -> bool {
    if zone == 1 {
        slot == 0x10
    } else if zone == 2 {
        slot == 4 || slot == 5 || slot == 7 || slot == 0xE || slot == 0x11
    } else if zone == 3 {
        slot == 0 || slot == 1 || slot == 6 || slot == 0xF || slot == 0x15
    } else if zone == 4 {
        slot == 0 || slot == 2 || slot == 0x10 || slot == 0x15 || slot == 0x16
    } else if zone == 5 {
        slot == 8 || slot == 9 || slot == 0x3D
    } else {
        false
    }
}

/// The extraction pad trigger for robot `idx`: with no order pending
/// (and, in zone 1, only in mission 1 outside network mode 2), a robot
/// standing on one of the zone's extraction pads arms the order at its
/// tile, tagged as pad-armed, and the beacon tile is latched.
#[verifier::opaque]
pub open spec fn pad_extraction(m: MissionView, idx: int) -> MissionView {
    let r = m.robots[idx];
    if m.order is Some {
        m
    } else if m.zone == 1 && (m.mission_no != 1 || m.network_mode == 2) {
        m
    } else {
        match pad_under(m, r) {
            None => m,
            Some(slot) => if !extraction_slot(m.zone, slot) {
                m
            } else {
                let a = arm_result(m, idx).0;
                MissionView {
                    order_pad_armed: true,
                    beacon_tile_latch: Some(a.order.unwrap().tile),
                    ..a
                }
            },
        }
    }
}

/// The first ride boarded from pad slot `slot`, from `i` on.
pub open spec fn first_ride(rides: Seq<Ride>, slot: int, i: nat) -> Option<int>
    decreases rides.len() - i,
{
    if i >= rides.len() {
        None
    } else if rides[i as int].pad_slot == slot {
        Some(i as int)
    } else {
        first_ride(rides, slot, i + 1)
    }
}

/// The ride pad trigger for robot `idx` (boot camp only: zone 1,
/// mission 1, not network mode 2): a robot on a free ride's pad boards
/// it (countdown 10) and is held (state 2, no target, stop 0) at the
/// pad tile's center. `None` when the position arithmetic overflows.
#[verifier::opaque]
pub open spec fn pad_ride(m: MissionView, idx: int) -> Option<MissionView> {
    let r = m.robots[idx];
    if m.zone != 1 || m.mission_no != 1 || m.network_mode == 2 {
        Some(m)
    } else {
        match pad_under(m, r) {
            None => Some(m),
            Some(slot) => match first_ride(m.rides, slot, 0) {
                None => Some(m),
                Some(k) => {
                    let ride = m.rides[k];
                    if ride.rider is Some {
                        Some(m)
                    } else if !fits32(ride.marker.0.wrapping_shl(13) + 0x1000) || !fits32(
                        ride.marker.1.wrapping_shl(13) + 0x1000,
                    ) {
                        None
                    } else {
                        Some(
                            MissionView {
                                rides: m.rides.update(
                                    k,
                                    Ride { rider: Some(idx as usize), countdown: 10, ..ride },
                                ),
                                robots: m.robots.update(
                                    idx,
                                    Robot {
                                        state: 2,
                                        stop_dist: 0,
                                        target: None,
                                        pos_x: (ride.marker.0.wrapping_shl(13) + 0x1000) as i32,
                                        pos_y: (ride.marker.1.wrapping_shl(13) + 0x1000) as i32,
                                        ..r
                                    },
                                ),
                                ..m
                            },
                        )
                    }
                },
            },
        }
    }
}

/// The pad triggers of a walking robot: the ride pad, then (unless it
/// boarded) the extraction pad.
pub open spec fn pad_step(m: MissionView, idx: int) -> Option<MissionView> {
    match pad_ride(m, idx) {
        None => None,
        Some(m1) => Some(
            if m1.robots[idx].state != 2 {
                pad_extraction(m1, idx)
            } else {
                m1
            },
        ),
    }
}

/// The armor charge of `amount`: a nonzero charge pool absorbs it
/// (clamped at 0); an empty pool charges the armor (wrapping), capped at
/// 3000. `None` when the pool arithmetic overflows.
pub open spec fn armor_charge_s(r: Robot, amount: i32) -> Option<Robot> {
    if amount == 0 {
        Some(r)
    } else if r.armor_pool != 0 {
        if !fits32(r.armor_pool - amount) {
            None
        } else {
            Some(
                Robot {
                    armor_pool: if r.armor_pool - amount > 0 {
                        (r.armor_pool - amount) as i32
                    } else {
                        0
                    },
                    ..r
                },
            )
        }
    } else {
        let a = r.armor.wrapping_add(amount as i16);
        Some(
            Robot {
                armor: if a > ARMOR_MAX {
                    ARMOR_MAX
                } else {
                    a
                },
                ..r
            },
        )
    }
}

/// The phase-1 armor pass: on a tile whose pad byte is nonzero the
/// robot charges +20, else its armor bleeds 10 (wrapping, floored at
/// 0). `None` when the tile arithmetic overflows.
#[verifier::opaque]
pub open spec fn armor_pass(m: MissionView, idx: int) -> Option<MissionView> {
    let r = m.robots[idx];
    let tx = r.pos_x >> 13u32;
    let ty = r.pos_y >> 13u32;
    if !fits32(ty * m.terrain.width) || !fits32(ty * m.terrain.width + tx) {
        None
    } else {
        let lin = ty * m.terrain.width + tx;
        let pad = pad_byte(
            m.armor_pads,
            if lin < 0 {
                0
            } else {
                lin
            },
        );
        if pad != 0 {
            match armor_charge_s(r, ARMOR_CHARGE) {
                None => None,
                Some(r2) => Some(MissionView { robots: m.robots.update(idx, r2), ..m }),
            }
        } else {
            let a = r.armor.wrapping_sub(ARMOR_BLEED);
            Some(
                MissionView {
                    robots: m.robots.update(
                        idx,
                        Robot {
                            armor: if a < 0 {
                                0
                            } else {
                                a
                            },
                            ..r
                        },
                    ),
                    ..m
                },
            )
        }
    }
}

/// Order consumption: with an order pending, a robot outside states
/// 3/4/5 within 6 tiles (octagonal, Q5) of the order tile's center
/// claims the first free spread slot, takes state 4, stop distance
/// 1000000 and the slot's tile as its Q5 target. `None` when the tile
/// arithmetic overflows.
#[verifier::opaque]
pub open spec fn consume_order(m: MissionView, idx: int) -> Option<MissionView> {
    match m.order {
        None => Some(m),
        Some(o) => {
            let r = m.robots[idx];
            if r.state == STATE_ORDERED || r.state == STATE_MOVING || r.state == 5 {
                Some(m)
            } else {
                let qx = r.pos_x >> 8u32;
                let qy = r.pos_y >> 8u32;
                let cx = o.tile.0 * Q5_PER_TILE + 0x10;
                let cy = o.tile.1 * Q5_PER_TILE + 0x10;
                if !fits32(o.tile.0 * Q5_PER_TILE) || !fits32(cx) || !fits32(o.tile.1 * Q5_PER_TILE)
                    || !fits32(cy) || !fits32(qx - cx) || !fits32(qy - cy) {
                    None
                } else if crate::angle::dist_oct((qx - cx) as i32, (qy - cy) as i32) < ORDER_RADIUS {
                    match first_free(o.claims, 0) {
                        None => Some(m),
                        Some(sl) => {
                            let dx = o.tile.0 + SPREAD_OFFSETS@[sl].0;
                            let dy = o.tile.1 + SPREAD_OFFSETS@[sl].1;
                            if !fits32(dx) || !fits32(dy) || !fits32(dx * Q5_PER_TILE) || !fits32(
                                dy * Q5_PER_TILE,
                            ) {
                                None
                            } else {
                                Some(
                                    MissionView {
                                        order: Some(Order { claims: claim_set(o.claims, sl), ..o }),
                                        robots: m.robots.update(
                                            idx,
                                            Robot {
                                                state: STATE_MOVING,
                                                stop_dist: ORDER_STOP_DIST,
                                                target: Some(
                                                    (
                                                        (dx * Q5_PER_TILE) as i32,
                                                        (dy * Q5_PER_TILE) as i32,
                                                    ),
                                                ),
                                                ..r
                                            },
                                        ),
                                        ..m
                                    },
                                )
                            }
                        },
                    }
                } else {
                    Some(m)
                }
            }
        },
    }
}

/// The pickup fire at a latched cell `(z, tx, ty)`: the cell's mirror
/// word selects a pickup case for the staged terrain set (zone - 1); on
/// a match the cell is consumed (plane byte 0, mirror word the set's
/// bare floor, seen 1) and the case's body runs on robot `idx`. `None`
/// when arithmetic overflows.
#[verifier::opaque]
pub open spec fn fire_pickup_s(m: MissionView, idx: int, z: i32, tx: i32, ty: i32) -> Option<
    MissionView,
> {
    let w = m.terrain.width;
    if !(0 <= z < 8) || tx < 0 || ty < 0 {
        Some(m)
    } else if !fits32(ty * w) || !fits32(ty * w + tx) {
        None
    } else if ty * w + tx < 0 {
        Some(m)
    } else {
        let c = (ty * w + tx) * 8 + z;
        if c > usize::MAX {
            None
        } else {
            let word: u16 = if c < m.mirror_words.len() {
                m.mirror_words[c]
            } else {
                0
            };
            if m.zone < 1 {
                Some(m)
            } else {
                let set = (m.zone - 1) as usize;
                match pickup_case_of(word as i32, set) {
                    None => Some(m),
                    Some(case) => {
                        let floor = PICKUP_FLOOR_WORD@[set as int] as u16;
                        let t = m.terrain;
                        let t1 = if crate::terrain::in_volume(t, tx as int, ty as int, z as int) {
                            TerrainView {
                                dat: t.dat.update(crate::terrain::cell_of(t, tx as int, ty as int, z as int), 0),
                                ..t
                            }
                        } else {
                            t
                        };
                        let m1 = if c < m.mirror_words.len() {
                            MissionView {
                                terrain: t1,
                                mirror_words: m.mirror_words.update(c, floor),
                                mirror_seen: m.mirror_seen.update(c, 1),
                                terrain_writes: journaled(m.terrain_writes, (c as usize, floor, 1u8)),
                                ..m
                            }
                        } else {
                            MissionView { terrain: t1, ..m }
                        };
                        if !pickup_defined(m1, idx as usize, case) {
                            None
                        } else {
                            Some(pickup_result(m1, idx as usize, case).0)
                        }
                    },
                }
            }
        }
    }
}

/// The move-toward-target step of robot `idx` (states 1 and 4 with a
/// target): the Q5 delta to the target, shifted to Q13, gives the
/// distance (at least 1) and the angle byte. Past the stop distance or
/// inside the arrival radius the robot arrives: state 4 becomes 3 and
/// snaps to its tile's origin, state 1 goes idle and drops its target
/// and stop distance. Otherwise the velocity is the delta over the
/// distance (clamped to 0xFFFF) in Q16, times 4, the trigger latch is
/// cleared, the mover ticks, and a latched cell fires its pickup.
/// `None` when arithmetic overflows.
#[verifier::opaque]
pub open spec fn move_toward(m: MissionView, idx: int) -> Option<MissionView> {
    let r = m.robots[idx];
    if r.state != STATE_MOVING && r.state != 1 {
        Some(m)
    } else {
        match r.target {
            None => Some(m),
            Some(tq) => {
                let qx = r.pos_x >> 8u32;
                let qy = r.pos_y >> 8u32;
                if !fits32(tq.0 - qx) || !fits32(tq.1 - qy) {
                    None
                } else {
                    let dxq = (tq.0 - qx) as i32;
                    let dyq = (tq.1 - qy) as i32;
                    let sx = dxq.wrapping_shl(8);
                    let sy = dyq.wrapping_shl(8);
                    let d = crate::angle::dist_oct(sx, sy);
                    let dist_raw: i32 = if d < 1 {
                        1
                    } else {
                        d
                    };
                    let angle = angle_of(m.angles.thresholds, sx, sy);
                    if dist_raw > r.stop_dist || dist_raw < ARRIVE_RADIUS {
                        let r2 = if r.state == STATE_MOVING {
                            Robot {
                                state: STATE_ORDERED,
                                pos_x: r.pos_x & !0x1FFFi32,
                                pos_y: r.pos_y & !0x1FFFi32,
                                ..r
                            }
                        } else {
                            Robot { state: STATE_IDLE, stop_dist: 0, target: None, ..r }
                        };
                        Some(MissionView { robots: m.robots.update(idx, r2), ..m })
                    } else {
                        let dist: i32 = if dist_raw > 0xFFFF {
                            0xFFFF
                        } else {
                            dist_raw
                        };
                        let vx = (crate::fx::trunc_div(dxq.wrapping_shl(16) as int, dist as int) as i32).wrapping_shl(2);
                        let vy = (crate::fx::trunc_div(dyq.wrapping_shl(16) as int, dist as int) as i32).wrapping_shl(2);
                        let t0 = TerrainView { last_trigger: None, ..m.terrain };
                        match crate::movement::robot_move_s(t0, r, vx, vy, angle) {
                            None => None,
                            Some(mv) => {
                                let m1 = MissionView {
                                    terrain: mv.0,
                                    robots: m.robots.update(idx, mv.1),
                                    ..m
                                };
                                match mv.0.last_trigger {
                                    None => Some(m1),
                                    Some(lt) => fire_pickup_s(m1, idx, lt.0, lt.1, lt.2),
                                }
                            },
                        }
                    }
                }
            },
        }
    }
}

/// One robot's pass in phase `phase`: dead robots, and robots whose
/// phase gate is shut (phases 4 and 5 need `phase*32 < drop_countdown`),
/// are skipped; phase 1 runs the armor pass and then the trap lane (see
/// [`trapped`]); a walking robot (state 1 or 4 with a target) runs the
/// pad triggers; then order consumption and the move toward the target.
pub open spec fn robot_pass(m: MissionView, phase: i32, idx: int) -> Option<MissionView> {
    let r = m.robots[idx];
    if !r.alive || !(phase < 4 || phase * 32 < r.drop_countdown) {
        Some(m)
    } else {
        let a = if phase == 1 {
            match armor_pass(m, idx) {
                None => None,
                Some(ma) => match trapped(ma, idx) {
                    None => None,
                    Some(t) => Some(t.0),
                },
            }
        } else {
            Some(m)
        };
        match a {
            None => None,
            Some(m1) => {
                let r1 = m1.robots[idx];
                let b = if (r1.state == 1 || r1.state == STATE_MOVING) && r1.target is Some {
                    pad_step(m1, idx)
                } else {
                    Some(m1)
                };
                match b {
                    None => None,
                    Some(m2) => match consume_order(m2, idx) {
                        None => None,
                        Some(m3) => move_toward(m3, idx),
                    },
                }
            },
        }
    }
}

/// The passes of robots `i..n` in phase `phase`.
pub open spec fn passes_from(m: MissionView, phase: i32, i: nat, n: nat) -> Option<MissionView>
    decreases n - i,
{
    if i >= n {
        Some(m)
    } else {
        match robot_pass(m, phase, i as int) {
            None => None,
            Some(m1) => passes_from(m1, phase, i + 1, n),
        }
    }
}

/// A robot after the phase-0 pre-walk: the alarm word and accumulator
/// decay by 1 when nonzero, the shield pool by 2 (floored at 0); a
/// running booster forces the pool to 10000 and counts down, leaving
/// 150 when it expires. `None` when a decrement overflows.
pub open spec fn prewalk_robot(r: Robot) -> Option<Robot> {
    if r.alarm_ctr == i32::MIN || r.shield < i32::MIN + 2 || r.shield_boost == i32::MIN {
        None
    } else {
        let alarm: u16 = if r.alarm != 0 {
            (r.alarm - 1) as u16
        } else {
            0
        };
        let ctr: i32 = if r.alarm_ctr != 0 {
            (r.alarm_ctr - 1) as i32
        } else {
            0
        };
        let sh: i32 = if r.shield != 0 {
            if r.shield - 2 < 0 {
                0
            } else {
                (r.shield - 2) as i32
            }
        } else {
            0
        };
        let (sh2, boost): (i32, i32) = if r.shield_boost != 0 {
            if r.shield_boost - 1 < 1 {
                (SHIELD_BOOST_LEFTOVER, 0)
            } else {
                (SHIELD_BOOST_POOL, (r.shield_boost - 1) as i32)
            }
        } else {
            (sh, 0)
        };
        Some(Robot { alarm: alarm, alarm_ctr: ctr, shield: sh2, shield_boost: boost, ..r })
    }
}

/// The pre-walk over every robot, alive or not.
pub open spec fn prewalk(m: MissionView) -> Option<MissionView> {
    if exists|i: int| 0 <= i < m.robots.len() && prewalk_robot(#[trigger] m.robots[i]) is None {
        None
    } else {
        Some(
            MissionView {
                robots: Seq::new(m.robots.len(), |i: int| prewalk_robot(m.robots[i]).unwrap()),
                ..m
            },
        )
    }
}

/// One unit-manager phase: the pre-walk in phase 0, then every robot's
/// pass in record order.
pub open spec fn phase_result(m: MissionView, phase: i32) -> Option<MissionView> {
    let p = if phase == 0 {
        prewalk(m)
    } else {
        Some(m)
    };
    match p {
        None => None,
        Some(m1) => passes_from(m1, phase, 0, m1.robots.len()),
    }
}

/// Phases `p..6` of a frame.
pub open spec fn phases_from(m: MissionView, p: nat) -> Option<MissionView>
    decreases 6 - p,
{
    if p >= 6 {
        Some(m)
    } else {
        match phase_result(m, p as i32) {
            None => None,
            Some(m1) => phases_from(m1, p + 1),
        }
    }
}

/// Ride `i`'s tick: a running countdown drops by one; when it reaches 0
/// the rider (if any) is set down at the destination tile's origin, on
/// the floor probed there from one below the destination level's base,
/// its probe cache filled with that floor, idle. `None` when the rider
/// index is bad or arithmetic overflows.
pub open spec fn ride_step(m: MissionView, i: int) -> Option<MissionView> {
    let ride = m.rides[i];
    if ride.countdown == 0 {
        Some(m)
    } else if ride.countdown - 1 != 0 {
        Some(MissionView { rides: m.rides.update(i, Ride { countdown: (ride.countdown - 1) as u8, ..ride }), ..m })
    } else {
        let done = Ride { countdown: 0, rider: None, ..ride };
        match ride.rider {
            None => Some(MissionView { rides: m.rides.update(i, done), ..m }),
            Some(k) => {
                let (x, y, z) = ride.destination;
                if k >= m.robots.len() || !fits32(z * 32) || !fits32(z * 32 - 1) {
                    None
                } else {
                    let c = crate::terrain::floor_probe(m.terrain, x.wrapping_shl(5), y.wrapping_shl(5), (z * 32 - 1) as i32);
                    let hz = c.0 as u16;
                    let r = m.robots[k as int];
                    Some(
                        MissionView {
                            rides: m.rides.update(i, done),
                            terrain: TerrainView { last_trigger: c.1, ..m.terrain },
                            robots: m.robots.update(
                                k as int,
                                Robot {
                                    pos_x: x.wrapping_shl(13),
                                    pos_y: y.wrapping_shl(13),
                                    z: c.0,
                                    probe_z: [hz, hz, hz, hz, hz, hz, hz, hz],
                                    state: 0,
                                    ..r
                                },
                            ),
                            ..m
                        },
                    )
                }
            },
        }
    }
}

/// The ride ticks of rides `i..n`, in order.
pub open spec fn rides_from(m: MissionView, i: nat, n: nat) -> Option<MissionView>
    decreases n - i,
{
    if i >= n {
        Some(m)
    } else {
        match ride_step(m, i as int) {
            None => None,
            Some(m1) => rides_from(m1, i + 1, n),
        }
    }
}

/// A robot swept by the landing dropship: alive robots in states 3 and
/// 4 are extracted (state 5, stop distance 1000000).
pub open spec fn swept(r: Robot) -> bool {
    r.alive && (r.state == STATE_ORDERED || r.state == STATE_MOVING)
}

/// The number of robots the sweep extracts.
pub open spec fn sweep_count(s: Seq<Robot>) -> nat
    decreases s.len(),
{
    if s.len() == 0 {
        0
    } else {
        sweep_count(s.drop_last()) + if swept(s.last()) {
            1nat
        } else {
            0nat
        }
    }
}

/// The landing's extraction sweep. `None` when the counter overflows.
#[verifier::opaque]
pub open spec fn extraction_sweep_s(m: MissionView) -> Option<MissionView> {
    if !fits32(m.extracted + sweep_count(m.robots)) {
        None
    } else {
        Some(
            MissionView {
                robots: Seq::new(
                    m.robots.len(),
                    |i: int|
                        if swept(m.robots[i]) {
                            Robot { state: 5, stop_dist: 1_000_000, ..m.robots[i] }
                        } else {
                            m.robots[i]
                        },
                ),
                extracted: (m.extracted + sweep_count(m.robots)) as i32,
                ..m
            },
        )
    }
}

/// The dropship's tick. Phase 1 (descend): the image group flickers
/// 0/1, the altitude drops 0x20 while at least 0x101, then shrinks to
/// `(alt >> 2) * 3`; below 1 it lands (altitude 0, phase 2, dwell 10)
/// and sweeps. Phase 2 (landed): one draw jitters the altitude (1 when
/// the draw's low three bits are 0, else 0), the group flickers, the
/// dwell counts down to phase 3. Phase 3 (depart): the altitude rises by
/// a quarter plus one, x drifts left by four per group, the group climbs
/// to 5 then holds 4, and above 0x200 the craft is gone and extraction
/// completes. `None` when arithmetic overflows.
pub open spec fn dropship_tick_s(m: MissionView) -> Option<MissionView> {
    let d = m.dropship;
    if !d.active {
        Some(m)
    } else if d.phase == 1 {
        if !fits32(d.group + 1) || !fits32(d.alt - 0x20) || !fits32((d.alt >> 2u32) * 3) {
            None
        } else {
            let group = ((d.group + 1) as i32) & 1;
            let alt: i32 = if d.alt >= 0x101 {
                (d.alt - 0x20) as i32
            } else {
                ((d.alt >> 2u32) * 3) as i32
            };
            if alt < 1 {
                extraction_sweep_s(
                    MissionView {
                        dropship: CraftRecord { group: group, alt: 0, phase: 2, dwell: 10, ..d },
                        ..m
                    },
                )
            } else {
                Some(MissionView { dropship: CraftRecord { group: group, alt: alt, ..d }, ..m })
            }
        }
    } else if d.phase == 2 {
        if d.dwell == i32::MIN {
            None
        } else {
            let alt: i32 = if draw_at(m.rng.0, m.rng.1, 0) & 7 == 0 {
                1
            } else {
                0
            };
            let dwell = (d.dwell - 1) as i32;
            Some(
                MissionView {
                    rng: (state_after(m.rng.0, m.rng.1, 1), m.rng.1),
                    dropship: CraftRecord {
                        alt: alt,
                        group: d.group ^ 1,
                        dwell: dwell,
                        phase: if dwell == 0 {
                            3
                        } else {
                            2
                        },
                        ..d
                    },
                    ..m
                },
            )
        }
    } else if d.phase == 3 {
        if !fits32(d.alt + (d.alt >> 2u32)) || !fits32(d.alt + (d.alt >> 2u32) + 1) || !fits32(
            d.group * 4,
        ) || !fits32(d.x - d.group * 4)
            || !fits32(d.group + 1) {
            None
        } else {
            let alt = (d.alt + (d.alt >> 2u32) + 1) as i32;
            let x = (d.x - d.group * 4) as i32;
            let group: i32 = if d.group < 5 {
                (d.group + 1) as i32
            } else {
                4
            };
            if alt > 0x200 {
                Some(
                    MissionView {
                        dropship: CraftRecord { alt: alt, x: x, group: group, active: false, ..d },
                        extraction_complete: true,
                        ..m
                    },
                )
            } else {
                Some(MissionView { dropship: CraftRecord { alt: alt, x: x, group: group, ..d }, ..m })
            }
        }
    } else {
        Some(m)
    }
}

/// Every robot is dead or holding at its order tile (state 3).
pub open spec fn all_settled(s: Seq<Robot>) -> bool {
    forall|i: int| 0 <= i < s.len() ==> !(#[trigger] s[i]).alive || s[i].state == STATE_ORDERED
}

/// The dropship deploy at the beacon: the craft starts its descent from
/// altitude 0x200 over the order tile (Q5 pixels), the order is
/// dropped, its claims latched, and the pad tag cleared.
pub open spec fn deploy_s(m: MissionView, o: Order) -> MissionView {
    MissionView {
        order: None,
        dropship: CraftRecord {
            active: true,
            phase: 1,
            x: o.tile.0.wrapping_shl(5),
            y: o.tile.1.wrapping_shl(5),
            alt: 0x200,
            group: 0,
            dwell: 0,
        },
        beacon_claims_latch: o.claims,
        order_pad_armed: false,
        ..m
    }
}

/// The order-window tick: a nonzero window drops by one; at 0, or when
/// every robot is dead or holding, a pad-armed order deploys the
/// dropship (unless one is in flight, when the order stays armed) and a
/// click order is dropped.
pub open spec fn beacon_block(m: MissionView) -> MissionView {
    match m.order {
        None => m,
        Some(o) => {
            let w: u16 = if o.window != 0 {
                (o.window - 1) as u16
            } else {
                0
            };
            let o2 = Order { window: w, ..o };
            if w == 0 || all_settled(m.robots) {
                if m.order_pad_armed {
                    if !m.dropship.active {
                        deploy_s(m, o2)
                    } else {
                        MissionView { order: Some(o2), ..m }
                    }
                } else {
                    MissionView { order: None, ..m }
                }
            } else {
                MissionView { order: Some(o2), ..m }
            }
        }
    }
}

/// The pads after the per-frame fade: every nonzero byte drops by one.
pub open spec fn faded(pads: Seq<u8>) -> Seq<u8> {
    Seq::new(pads.len(), |i: int| if pads[i] != 0 { (pads[i] - 1) as u8 } else { 0u8 })
}

/// A robot after the per-frame hit-flash decay: alive robots with hp of
/// at least 1 clamp a nonzero flash to 5, then drop it by one.
pub open spec fn flash_decayed(r: Robot) -> Robot {
    if r.alive && r.hp >= 1 && r.hit_flash != 0 {
        Robot {
            hit_flash: (if r.hit_flash > 5 {
                5u16
            } else {
                r.hit_flash
            } - 1) as u16,
            ..r
        }
    } else {
        r
    }
}

/// The simulation after one draw, and the draw.
pub open spec fn draw1(m: MissionView) -> (MissionView, u32) {
    (
        MissionView { rng: (state_after(m.rng.0, m.rng.1, 1), m.rng.1), ..m },
        draw_at(m.rng.0, m.rng.1, 0),
    )
}

/// The POI move gate by `(dx, dy)`: the floor at the target (Q13 >> 8)
/// probed from the POI's z; it passes within 4 of that z, taking the
/// floor as the new z. `None` when arithmetic overflows.
#[verifier::opaque]
pub open spec fn poi_gate_s(t: TerrainView, p: PoiRecord, dx: i32, dy: i32) -> Option<
    (bool, TerrainView, PoiRecord),
> {
    if !fits32(p.x + dx) || !fits32(p.y + dy) {
        None
    } else {
        let c = crate::terrain::floor_probe(t, ((p.x + dx) as i32) >> 8u32, ((p.y + dy) as i32) >> 8u32, p.z);
        if !fits32(c.0 - p.z) || c.0 - p.z == i32::MIN {
            None
        } else {
            let t1 = TerrainView { last_trigger: c.1, ..t };
            if -4 <= c.0 - p.z <= 4 {
                Some((true, t1, PoiRecord { z: c.0, ..p }))
            } else {
                Some((false, t1, p))
            }
        }
    }
}

/// A gated step by `d`: on a pass the POI moves, and takes draw word
/// `w` when one is given.
#[verifier::opaque]
pub open spec fn poi_try(t: TerrainView, p: PoiRecord, d: (i32, i32), w: Option<i32>) -> Option<
    (bool, TerrainView, PoiRecord),
> {
    match poi_gate_s(t, p, d.0, d.1) {
        None => None,
        Some(g) => if g.0 {
            let moved = PoiRecord { x: (g.2.x + d.0) as i32, y: (g.2.y + d.1) as i32, ..g.2 };
            Some(
                (
                    true,
                    g.1,
                    match w {
                        Some(wd) => PoiRecord { draw_word: wd, ..moved },
                        None => moved,
                    },
                ),
            )
        } else {
            Some((false, g.1, g.2))
        },
    }
}

/// The quadrant ladder of a blocked POI: the quadrant's own axis step,
/// else the two perpendicular steps in the order `cond` picks.
#[verifier::opaque]
pub open spec fn poi_ladder(
    t: TerrainView,
    p: PoiRecord,
    first: (i32, i32),
    cond: bool,
    a: ((i32, i32), i32),
    b: ((i32, i32), i32),
) -> Option<(TerrainView, PoiRecord)> {
    let (x, y) = if cond {
        (a, b)
    } else {
        (b, a)
    };
    match poi_try(t, p, first, None) {
        None => None,
        Some(f) => if f.0 {
            Some((f.1, f.2))
        } else {
            match poi_try(f.1, f.2, x.0, Some(x.1)) {
                None => None,
                Some(g) => if g.0 {
                    Some((g.1, g.2))
                } else {
                    match poi_try(g.1, g.2, y.0, Some(y.1)) {
                        None => None,
                        Some(h) => Some((h.1, h.2)),
                    }
                },
            }
        },
    }
}

/// The POI walker by `(dx, dy)`: a gated free move that sets the draw
/// word to the heading's quadrant `(heading + 0x20) & 0xC0`; blocked,
/// the quadrant ladder of the current draw word (0 and 0x80 order their
/// x steps by the heading, 0x40 and 0xC0 their y steps by `dx`); the
/// heading then takes the draw word. `None` when arithmetic overflows.
pub open spec fn poi_walk_s(t: TerrainView, p: PoiRecord, dx: i32, dy: i32) -> Option<
    (TerrainView, PoiRecord),
> {
    let angle = p.heading;
    let st = 0x200i32;
    let ns = (-0x200int) as i32;
    let r: Option<(TerrainView, PoiRecord)> = match poi_gate_s(t, p, dx, dy) {
        None => None,
        Some(g) => if g.0 {
            if !fits32(angle + 0x20) {
                None
            } else {
                Some(
                    (
                        g.1,
                        PoiRecord {
                            x: (g.2.x + dx) as i32,
                            y: (g.2.y + dy) as i32,
                            draw_word: ((angle + 0x20) as i32) & 0xC0,
                            ..g.2
                        },
                    ),
                )
            }
        } else {
            let dw = g.2.draw_word;
            if dw == 0 {
                poi_ladder(g.1, g.2, (0, ns), angle < 0x80, ((st, 0), 0x40), ((ns, 0), 0xC0))
            } else if dw == 0x40 {
                poi_ladder(g.1, g.2, (st, 0), dx > 0x80, ((0, st), 0x80), ((0, ns), 0))
            } else if dw == 0x80 {
                poi_ladder(g.1, g.2, (0, st), angle < 0x80, ((st, 0), 0x40), ((ns, 0), 0xC0))
            } else if dw == 0xC0 {
                poi_ladder(g.1, g.2, (ns, 0), dx > 0x80, ((0, st), 0x80), ((0, ns), 0))
            } else {
                Some((g.1, g.2))
            }
        },
    };
    match r {
        None => None,
        Some(w) => Some((w.0, PoiRecord { heading: w.1.draw_word, ..w.1 })),
    }
}

/// The walk steps of a heading: the sine table's words at the heading
/// byte and 0x40 before it, read signed and shifted right by 6; (0, 0)
/// without a sine table.
pub open spec fn walk_vector(a: AngleView, heading: i32) -> (i32, i32) {
    match a.sine {
        None => (0, 0),
        Some(sn) => {
            let h = heading & 0xFF;
            let c = sn[h as int];
            let sw = sn[if h >= 0x40 {
                h - 0x40
            } else {
                h + 0xC0
            }];
            ((c as i16 as i32) >> 6u32, (sw as i16 as i32) >> 6u32)
        },
    }
}

/// The 32-sector aim of a delta: `(((angle + 0xF) & 0xFF) >> 5 & 7) << 5`.
pub open spec fn sector_aim(a: AngleView, dx: i32, dy: i32) -> i32 {
    let dir = angle_of(a.thresholds, dx, dy) as i32;
    (((((dir + 0xF) as i32) & 0xFF) >> 5u32) & 7) << 5u32
}

/// The nearest active exit to a POI from slot `i` on, given the best so
/// far: `(slot, distance)` by octagonal distance between the slot's raw
/// pixels and the POI's Q5 position, strictly better wins; `(-1,
/// 0x989680)` when none. `None` when a delta overflows.
pub open spec fn nearest_exit_from(
    exits: Seq<ExitSlot>,
    p: PoiRecord,
    i: nat,
    best: (i32, i32),
) -> Option<(i32, i32)>
    decreases 5 - i,
{
    if i >= 5 || i >= exits.len() {
        Some(best)
    } else {
        let e = exits[i as int];
        if !e.active {
            nearest_exit_from(exits, p, i + 1, best)
        } else if !fits32(e.x - (p.x >> 8u32)) || !fits32(e.y - (p.y >> 8u32)) {
            None
        } else {
            let d = crate::angle::dist_oct((e.x - (p.x >> 8u32)) as i32, (e.y - (p.y >> 8u32)) as i32);
            nearest_exit_from(
                exits,
                p,
                i + 1,
                if d < best.1 {
                    (i as i32, d)
                } else {
                    best
                },
            )
        }
    }
}

/// The nearest alive robot to `(px, py)` from robot `i` on, given the
/// best so far `(index, distance)`. `None` when a delta overflows.
pub open spec fn nearest_robot_from(s: Seq<Robot>, px: i32, py: i32, i: nat, best: (i32, i32)) -> Option<(i32, i32)>
    decreases s.len() - i,
{
    if i >= s.len() {
        Some(best)
    } else {
        let r = s[i as int];
        if !r.alive {
            nearest_robot_from(s, px, py, i + 1, best)
        } else if !fits32(r.pos_x - px) || !fits32(r.pos_y - py) || i > i32::MAX {
            None
        } else {
            let d = crate::angle::dist_oct((r.pos_x - px) as i32, (r.pos_y - py) as i32);
            nearest_robot_from(
                s,
                px,
                py,
                i + 1,
                if d < best.1 {
                    (i as i32, d)
                } else {
                    best
                },
            )
        }
    }
}

/// POI `i` after its walk by its heading's vector.
#[verifier::opaque]
pub open spec fn poi_walk_step(m: MissionView, i: int) -> Option<MissionView> {
    let p = m.pois[i];
    let v = walk_vector(m.angles, p.heading);
    match poi_walk_s(m.terrain, p, v.0, v.1) {
        None => None,
        Some(w) => Some(MissionView { terrain: w.0, pois: m.pois.update(i, w.1), ..m }),
    }
}

/// The walk-out gate of an idle POI: a 1-in-16 draw, then state 3 with
/// a 10..=25 frame budget and a random 8-way heading (two more draws).
#[verifier::opaque]
pub open spec fn poi_walk_out(m: MissionView, i: int) -> MissionView {
    let (m1, d1) = draw1(m);
    if d1 & 0xF != 0 {
        m1
    } else {
        let (m2, d2) = draw1(m1);
        let (m3, d3) = draw1(m2);
        let p = m.pois[i];
        MissionView {
            pois: m.pois.update(
                i,
                PoiRecord {
                    state: 3,
                    timer: ((d2 & 0xF) + 10) as i32,
                    heading: ((d3 & 7) as i32) << 5u32,
                    ..p
                },
            ),
            ..m3
        }
    }
}

/// The idle/settle/walk-out machine of POI `i` (states 1..3).
/// State 1 ramps its timer to 11; past 10 it settles (an exit within
/// 0xC0 and a 1-in-16 draw: face the nearest alive robot, state 2) or
/// tries the walk-out. State 2 returns to idle after 9 frames. State 3
/// walks its budget down, then idles. `None` when arithmetic overflows.
#[verifier::opaque]
pub open spec fn poi_idle_s(m: MissionView, i: int, exit_dist: i32) -> Option<MissionView> {
    let p = m.pois[i];
    if p.state == 1 {
        if p.timer <= 10 {
            if !fits32(p.timer + 1) {
                None
            } else {
                Some(MissionView { pois: m.pois.update(i, PoiRecord { timer: (p.timer + 1) as i32, ..p }), ..m })
            }
        } else if exit_dist >= SETTLE_DIST {
            Some(poi_walk_out(m, i))
        } else {
            let (m1, d) = draw1(m);
            if d & 0xF != 0 {
                Some(poi_walk_out(m1, i))
            } else {
                match nearest_robot_from(m.robots, p.x, p.y, 0, ((-1int) as i32, 0x989680i32)) {
                    None => None,
                    Some(best) => {
                        let heading = if best.0 >= 0 {
                            let r = m.robots[best.0 as int];
                            if !fits32(r.pos_x - p.x) || !fits32(r.pos_y - p.y) {
                                p.heading
                            } else {
                                sector_aim(m.angles, (r.pos_x - p.x) as i32, (r.pos_y - p.y) as i32)
                            }
                        } else {
                            p.heading
                        };
                        Some(
                            MissionView {
                                pois: m.pois.update(i, PoiRecord { state: 2, timer: 0, heading: heading, ..p }),
                                ..m1
                            },
                        )
                    },
                }
            }
        }
    } else if p.state == 2 {
        if !fits32(p.timer + 1) {
            None
        } else if p.timer + 1 > 8 {
            Some(MissionView { pois: m.pois.update(i, PoiRecord { timer: 0, state: 1, ..p }), ..m })
        } else {
            Some(MissionView { pois: m.pois.update(i, PoiRecord { timer: (p.timer + 1) as i32, ..p }), ..m })
        }
    } else if p.state == 3 {
        if p.timer == 0 {
            Some(MissionView { pois: m.pois.update(i, PoiRecord { state: 1, ..p }), ..m })
        } else if p.timer == i32::MIN {
            None
        } else {
            poi_walk_step(
                MissionView { pois: m.pois.update(i, PoiRecord { timer: (p.timer - 1) as i32, ..p }), ..m },
                i,
            )
        }
    } else {
        Some(m)
    }
}

/// The flee of POI `i` (state 4): when its stashed exit is not open
/// (active, phase 2) it returns to idle; otherwise it re-aims at the
/// exit, walks, and spends its budget (below 0 the budget becomes the
/// never-expiring 10000). `None` when arithmetic overflows.
#[verifier::opaque]
pub open spec fn poi_flee_s(m: MissionView, i: int) -> Option<MissionView> {
    let p = m.pois[i];
    let slot = p.exit_slot;
    if !(slot < 5 && m.poi_exits[slot as int].active && m.poi_exits[slot as int].phase == 2) {
        Some(MissionView { pois: m.pois.update(i, PoiRecord { timer: 0, state: 1, ..p }), ..m })
    } else {
        let e = m.poi_exits[slot as int];
        let ex = e.x.wrapping_shl(8);
        let ey = e.y.wrapping_shl(8);
        if !fits32(ex - p.x) || !fits32(ey - p.y) {
            None
        } else {
            let aim = sector_aim(m.angles, (ex - p.x) as i32, (ey - p.y) as i32);
            match poi_walk_step(MissionView { pois: m.pois.update(i, PoiRecord { heading: aim, ..p }), ..m }, i) {
                None => None,
                Some(m1) => {
                    let q = m1.pois[i];
                    if q.timer == i32::MIN {
                        None
                    } else {
                        Some(
                            MissionView {
                                pois: m1.pois.update(
                                    i,
                                    PoiRecord {
                                        timer: if q.timer - 1 < 0 {
                                            FLEE_FOREVER
                                        } else {
                                            (q.timer - 1) as i32
                                        },
                                        ..q
                                    },
                                ),
                                ..m1
                            },
                        )
                    }
                },
            }
        }
    }
}

/// POI `i`'s controller tick: inactive records are skipped; the floor
/// re-settles z and the nearest exit is scanned; then by state. States
/// 1..3: one 1-in-16 draw flees to an open exit within 0x180, else the
/// idle machine. State 4: within 0x10 of an exit while the stashed exit
/// is still open the escape begins (state 5, timer -1), else the flee.
/// State 5: after its countdown the POI escapes (inactive; the escape
/// counter, the panic timer 0x32, the exit's dwell reset, the 5000
/// award). State 6: after 6 frames, state 7. State 7: timer 0. `None`
/// when arithmetic overflows or the stashed exit slot is out of range.
pub open spec fn poi_step(m0: MissionView, i: int) -> Option<MissionView> {
    let p0 = m0.pois[i];
    if !p0.active {
        Some(m0)
    } else {
        let c = crate::terrain::floor_probe(m0.terrain, p0.x >> 8u32, p0.y >> 8u32, p0.z);
        let p = PoiRecord { z: c.0, ..p0 };
        let m = MissionView {
            terrain: TerrainView { last_trigger: c.1, ..m0.terrain },
            pois: m0.pois.update(i, p),
            ..m0
        };
        match nearest_exit_from(m.poi_exits, p, 0, ((-1int) as i32, 0x989680i32)) {
            None => None,
            Some(scan) => {
                if 1 <= p.state <= 3 {
                    let (m1, roll) = draw1(m);
                    if roll & 0xF == 0 && scan.1 < FLEE_DIST && scan.0 >= 0
                        && m.poi_exits[scan.0 as int].phase == 2 {
                        Some(
                            MissionView {
                                pois: m.pois.update(i, PoiRecord { state: 4, exit_slot: scan.0 as usize, ..p }),
                                ..m1
                            },
                        )
                    } else {
                        poi_idle_s(m1, i, scan.1)
                    }
                } else if p.state == 4 {
                    if scan.1 < ARRIVE_DIST && p.exit_slot >= 5 {
                        None
                    } else if scan.1 < ARRIVE_DIST && m.poi_exits[p.exit_slot as int].phase == 2 {
                        Some(MissionView { pois: m.pois.update(i, PoiRecord { state: 5, timer: (-1int) as i32, ..p }), ..m })
                    } else {
                        poi_flee_s(m, i)
                    }
                } else if p.state == 5 {
                    if !fits32(p.timer + 1) {
                        None
                    } else if p.timer + 1 >= 10 {
                        if !fits32(m.poi_escapes + 1) || !fits32(m.score_pending + 5000) {
                            None
                        } else {
                            let slot = p.exit_slot;
                            Some(
                                MissionView {
                                    pois: m.pois.update(
                                        i,
                                        PoiRecord { timer: (p.timer + 1) as i32, active: false, ..p },
                                    ),
                                    poi_escapes: (m.poi_escapes + 1) as i32,
                                    poi_panic: PANIC_TIMER,
                                    poi_exits: if slot < 5 {
                                        m.poi_exits.update(
                                            slot as int,
                                            ExitSlot { dwell: 0, ..m.poi_exits[slot as int] },
                                        )
                                    } else {
                                        m.poi_exits
                                    },
                                    score_pending: (m.score_pending + 5000) as i32,
                                    ..m
                                },
                            )
                        }
                    } else {
                        Some(MissionView { pois: m.pois.update(i, PoiRecord { timer: (p.timer + 1) as i32, ..p }), ..m })
                    }
                } else if p.state == 6 {
                    if !fits32(p.timer + 1) {
                        None
                    } else {
                        Some(
                            MissionView {
                                pois: m.pois.update(
                                    i,
                                    PoiRecord {
                                        timer: (p.timer + 1) as i32,
                                        state: if p.timer + 1 > 5 {
                                            7
                                        } else {
                                            6
                                        },
                                        ..p
                                    },
                                ),
                                ..m
                            },
                        )
                    }
                } else if p.state == 7 {
                    Some(MissionView { pois: m.pois.update(i, PoiRecord { timer: 0, ..p }), ..m })
                } else {
                    Some(m)
                }
            },
        }
    }
}

/// The POI controller over POIs `i..n`, in order.
pub open spec fn pois_from(m: MissionView, i: nat, n: nat) -> Option<MissionView>
    decreases n - i,
{
    if i >= n {
        Some(m)
    } else {
        match poi_step(m, i as int) {
            None => None,
            Some(m1) => pois_from(m1, i + 1, n),
        }
    }
}

/// One frame: the critter and personnel controllers (when armed), the six
/// unit-manager phases, the ride ticks, the debris tick, the armor-pad
/// fade and hit-flash
/// decay, the dropship tick, the fence timers, the platform creep tick
/// (when armed), the
/// order-window tick with its beacon deploy, and the frame counter.
/// `None` when arithmetic overflows.
pub open spec fn frame_result(m: MissionView) -> Option<MissionView> {
    let a = if m.family_armed {
        match critters_ticked(m) {
            None => None,
            Some(mc) => pois_from(mc, 0, mc.pois.len()),
        }
    } else {
        Some(m)
    };
    match a {
        None => None,
        Some(m1) => match phases_from(m1, 0) {
            None => None,
            Some(m2) => match rides_from(m2, 0, m2.rides.len()) {
                None => None,
                Some(m2r) => match debris_ticked(m2r) {
                    None => None,
                    Some(m3) => epilogue_result(m3),
                },
            },
        },
    }
}

/// The frame epilogue after the debris tick: the armor-pad fade and
/// hit-flash decay, the dropship tick, the fence timers, the platform
/// creep tick (when armed), the order-window tick with its beacon deploy,
/// and the frame counter.
pub open spec fn epilogue_result(m3: MissionView) -> Option<MissionView> {
    let m4 = MissionView {
        armor_pads: faded(m3.armor_pads),
        robots: Seq::new(m3.robots.len(), |k: int| flash_decayed(m3.robots[k])),
        ..m3
    };
    match dropship_tick_s(m4) {
        None => None,
        Some(m5) => match creep_step(timers_ticked(m5, 32)) {
            None => None,
            Some(m5c) => {
                let m6 = beacon_block(m5c);
                if m6.frame == u64::MAX {
                    None
                } else {
                    Some(MissionView { frame: (m6.frame + 1) as u64, ..m6 })
                }
            },
        },
    }
}

/// The platform creep tick of a frame: it runs when the platform family
/// is armed; `None` when its ring would overflow.
pub open spec fn creep_step(m: MissionView) -> Option<MissionView> {
    if !m.platform_family_armed {
        Some(m)
    } else if creep_fits(m) {
        Some(creep_ticked(m))
    } else {
        None
    }
}

/// The pad slots boot camp's rides board from, in staging order.
pub open spec fn ride_slot(k: int) -> usize {
    if k == 0 {
        0
    } else {
        (k + 9) as usize
    }
}

/// A ride's destination `(x, y, level)` by its pad slot.
pub open spec fn ride_destination(slot: usize) -> (i32, i32, i32) {
    if slot == 0 {
        (8, 57, 2)
    } else if slot == 15 {
        (14, 32, 1)
    } else {
        (8, 26, 5)
    }
}

/// How many of the ride pad slots exist among `n` pad records (staging
/// stops at the first missing one).
pub open spec fn ride_count(n: nat) -> nat {
    if n == 0 {
        0
    } else if n <= 10 {
        1
    } else if n - 9 > 7 {
        7
    } else {
        (n - 9) as nat
    }
}

/// The rides staged for the simulation: in boot camp (zone 1, mission
/// 1, not network mode 2) one per existing ride pad slot (0, 10..=15,
/// stopping at the first missing), idle and empty; none elsewhere.
pub open spec fn staged_rides(m: MissionView) -> Seq<Ride> {
    if m.zone != 1 || m.mission_no != 1 || m.network_mode == 2 {
        Seq::empty()
    } else {
        Seq::new(
            ride_count(m.terrain.pad_slots.len()),
            |k: int|
                Ride {
                    pad_slot: ride_slot(k),
                    marker: m.terrain.pad_slots[ride_slot(k) as int],
                    destination: ride_destination(ride_slot(k)),
                    countdown: 0,
                    rider: None,
                },
        )
    }
}

/// `first_pad` finds the first match.
proof fn lemma_first_pad_some(s: Seq<(i32, i32, i32)>, key: (i32, i32, i32), i: nat, k: int)
    requires
        i <= k < s.len(),
        s[k] == key,
        forall|j: int| 0 <= j < k ==> s[j] != key,
    ensures
        first_pad(s, key, i) == Some(k),
    decreases k - i,
{
    if i < k {
        lemma_first_pad_some(s, key, i + 1, k);
    }
}

/// `first_pad` finds nothing when nothing matches.
proof fn lemma_first_pad_none(s: Seq<(i32, i32, i32)>, key: (i32, i32, i32), i: nat)
    requires
        forall|j: int| 0 <= j < s.len() ==> s[j] != key,
    ensures
        first_pad(s, key, i) is None,
    decreases s.len() - i,
{
    if i < s.len() {
        lemma_first_pad_none(s, key, i + 1);
    }
}

/// `first_ride` finds the first match.
proof fn lemma_first_ride_some(rides: Seq<Ride>, slot: int, i: nat, k: int)
    requires
        i <= k < rides.len(),
        rides[k].pad_slot == slot,
        forall|j: int| i <= j < k ==> rides[j].pad_slot != slot,
    ensures
        first_ride(rides, slot, i) == Some(k),
    decreases k - i,
{
    if i < k {
        lemma_first_ride_some(rides, slot, i + 1, k);
    }
}

/// `first_ride` finds nothing when nothing matches.
proof fn lemma_first_ride_none(rides: Seq<Ride>, slot: int, i: nat)
    requires
        forall|j: int| i <= j < rides.len() ==> rides[j].pad_slot != slot,
    ensures
        first_ride(rides, slot, i) is None,
    decreases rides.len() - i,
{
    if i < rides.len() {
        lemma_first_ride_none(rides, slot, i + 1);
    }
}

/// The alive count of a prefix grows by the next robot.
proof fn lemma_alive_count_step(s: Seq<Robot>, i: int)
    requires
        0 <= i < s.len(),
    ensures
        alive_count(s.subrange(0, i + 1)) == alive_count(s.subrange(0, i)) + if s[i].alive {
            1nat
        } else {
            0nat
        },
{
    assert(s.subrange(0, i + 1).drop_last() =~= s.subrange(0, i));
}

/// The sweep count of a prefix never exceeds the whole's.
proof fn lemma_sweep_count_prefix(s: Seq<Robot>, k: int)
    requires
        0 <= k <= s.len(),
    ensures
        sweep_count(s.subrange(0, k)) <= sweep_count(s),
    decreases s.len() - k,
{
    if k < s.len() {
        lemma_sweep_count_prefix(s, k + 1);
        assert(s.subrange(0, k + 1).drop_last() =~= s.subrange(0, k));
    } else {
        assert(s.subrange(0, k) =~= s);
    }
}

/// The zone's extraction pad test.
fn zone_extraction_slot(zone: u32, slot: usize) -> (b: bool)
    ensures
        b == extraction_slot(zone, slot as int),
{
    if zone == 1 {
        slot == 0x10
    } else if zone == 2 {
        slot == 4 || slot == 5 || slot == 7 || slot == 0xE || slot == 0x11
    } else if zone == 3 {
        slot == 0 || slot == 1 || slot == 6 || slot == 0xF || slot == 0x15
    } else if zone == 4 {
        slot == 0 || slot == 2 || slot == 0x10 || slot == 0x15 || slot == 0x16
    } else if zone == 5 {
        slot == 8 || slot == 9 || slot == 0x3D
    } else {
        false
    }
}

/// The four little-endian bytes of an `i32`.
pub open spec fn le_i32(v: i32) -> Seq<u8> {
    le_bytes_u32(v as u32)
}

/// The hash bytes of the claim flags.
pub open spec fn claims_bytes(c: [bool; 12]) -> Seq<u8> {
    Seq::new(
        12,
        |i: int|
            if c@[i] {
                1u8
            } else {
                0u8
            },
    )
}

/// The hash bytes of the pending order.
pub open spec fn order_bytes(o: Option<Order>) -> Seq<u8> {
    match o {
        None => seq![0u8],
        Some(o) => seq![1u8] + le_i32(o.tile.0) + le_i32(o.tile.1) + le_i32(o.tile.2)
            + le_bytes_u16(o.window) + claims_bytes(o.claims),
    }
}

/// The hash bytes of a probe cache.
pub open spec fn probe_bytes(p: [u16; 8]) -> Seq<u8> {
    le_bytes_u16(p@[0]) + le_bytes_u16(p@[1]) + le_bytes_u16(p@[2]) + le_bytes_u16(p@[3])
        + le_bytes_u16(p@[4]) + le_bytes_u16(p@[5]) + le_bytes_u16(p@[6]) + le_bytes_u16(p@[7])
}

/// The hash bytes of a move target.
pub open spec fn target_bytes(t: Option<(i32, i32)>) -> Seq<u8> {
    match t {
        None => seq![0u8] + le_i32(0) + le_i32(0),
        Some((x, y)) => seq![1u8] + le_i32(x) + le_i32(y),
    }
}

/// The hash bytes of one robot, in the pinned field order.
pub open spec fn robot_bytes(r: Robot) -> Seq<u8> {
    seq![
        if r.alive {
            1u8
        } else {
            0u8
        },
    ] + le_i32(r.pos_x) + le_i32(r.pos_y) + le_i32(r.z) + le_bytes_u16(r.state) + le_bytes_u16(
        r.dir_byte,
    ) + le_bytes_u16(r.facing) + le_bytes_u16(r.anim) + le_bytes_u16(r.variant) + probe_bytes(
        r.probe_z,
    ) + le_i32(r.stop_dist) + target_bytes(r.target) + le_i32(r.drop_countdown) + le_i32(r.hp)
        + le_bytes_u16(r.armor as u16) + le_bytes_u16(r.hit_flash) + le_bytes_u16(r.alarm)
        + le_bytes_u16(r.kind) + le_i32(r.shield) + le_i32(r.shield_charges) + le_i32(
        r.shield_boost,
    ) + le_i32(r.battery) + le_i32(r.armor_pool) + le_i32(r.alarm_ctr) + le_bytes_u16(
        r.death_flag,
    )
}

/// The hash bytes of the robots, in record order.
pub open spec fn robots_bytes(s: Seq<Robot>) -> Seq<u8>
    decreases s.len(),
{
    if s.len() == 0 {
        Seq::empty()
    } else {
        robots_bytes(s.drop_last()) + robot_bytes(s.last())
    }
}

/// The hash bytes of the trigger latch.
pub open spec fn latch_bytes(lt: Option<(i32, i32, i32)>) -> Seq<u8> {
    match lt {
        None => seq![0u8],
        Some((z, x, y)) => seq![1u8] + le_i32(z) + le_i32(x) + le_i32(y),
    }
}

/// The bytes the state hash covers: frame, order and claims, every
/// robot's mover and damage fields, the trigger latch, and the stream.
pub open spec fn hash_bytes(m: MissionView) -> Seq<u8> {
    le_bytes_u64(m.frame) + order_bytes(m.order) + robots_bytes(m.robots) + latch_bytes(
        m.terrain.last_trigger,
    ) + le_bytes_u64(m.rng.0) + le_bytes_u64(m.rng.1)
}

/// Feeding `b` after `a` is feeding `a + b`.
proof fn lemma_feed(h0: u64, a: Seq<u8>, b: Seq<u8>)
    ensures
        fnv_fold(fnv_fold(h0, a), b) == fnv_fold(h0, a + b),
{
    lemma_fnv_fold_concat(h0, a, b);
}

/// Hash one robot's bytes.
fn hash_robot(h: &mut Fnv1a64, r: &Robot)
    ensures
        final(h)@ == fnv_fold(old(h)@, robot_bytes(*r)),
{
    let ghost h0 = h@;
    let ghost mut acc: Seq<u8> = Seq::empty();
    assert(fnv_fold(h0, acc) == h0);
    h.write_u8(if r.alive { 1 } else { 0 });
    proof {
        let b = seq![if r.alive { 1u8 } else { 0u8 }];
        assert(fnv_fold(h0, b) == h@) by {
            reveal_with_fuel(fnv_fold, 2);
            assert(b.drop_last() =~= Seq::<u8>::empty());
        }
        acc = b;
    }
    h.write_i32(r.pos_x);
    proof { lemma_feed(h0, acc, le_i32(r.pos_x)); acc = acc + le_i32(r.pos_x); }
    h.write_i32(r.pos_y);
    proof { lemma_feed(h0, acc, le_i32(r.pos_y)); acc = acc + le_i32(r.pos_y); }
    h.write_i32(r.z);
    proof { lemma_feed(h0, acc, le_i32(r.z)); acc = acc + le_i32(r.z); }
    h.write_u16(r.state);
    proof { lemma_feed(h0, acc, le_bytes_u16(r.state)); acc = acc + le_bytes_u16(r.state); }
    h.write_u16(r.dir_byte);
    proof { lemma_feed(h0, acc, le_bytes_u16(r.dir_byte)); acc = acc + le_bytes_u16(r.dir_byte); }
    h.write_u16(r.facing);
    proof { lemma_feed(h0, acc, le_bytes_u16(r.facing)); acc = acc + le_bytes_u16(r.facing); }
    h.write_u16(r.anim);
    proof { lemma_feed(h0, acc, le_bytes_u16(r.anim)); acc = acc + le_bytes_u16(r.anim); }
    h.write_u16(r.variant);
    proof { lemma_feed(h0, acc, le_bytes_u16(r.variant)); acc = acc + le_bytes_u16(r.variant); }
    let mut i: usize = 0;
    while i < 8
        invariant
            i <= 8,
            h@ == fnv_fold(h0, acc + probe_prefix(r.probe_z, i as nat)),
        decreases 8 - i,
    {
        h.write_u16(r.probe_z[i]);
        proof {
            lemma_feed(h0, acc + probe_prefix(r.probe_z, i as nat), le_bytes_u16(r.probe_z@[i as int]));
            assert(acc + probe_prefix(r.probe_z, i as nat) + le_bytes_u16(r.probe_z@[i as int])
                =~= acc + probe_prefix(r.probe_z, (i + 1) as nat));
        }
        i = i + 1;
    }
    proof {
        reveal_with_fuel(probe_prefix, 9);
        assert(probe_prefix(r.probe_z, 8) =~= probe_bytes(r.probe_z));
        acc = acc + probe_bytes(r.probe_z);
    }
    h.write_i32(r.stop_dist);
    proof { lemma_feed(h0, acc, le_i32(r.stop_dist)); acc = acc + le_i32(r.stop_dist); }
    match r.target {
        None => {
            h.write_u8(0);
            h.write_i32(0);
            h.write_i32(0);
        },
        Some((tx, ty)) => {
            h.write_u8(1);
            h.write_i32(tx);
            h.write_i32(ty);
        },
    }
    proof {
        let tb = target_bytes(r.target);
        let one = if r.target is Some { 1u8 } else { 0u8 };
        let h1 = fnv_fold(fnv_fold(h0, acc), seq![one]);
        assert(fnv_fold(fnv_fold(h0, acc), seq![one]) == crate::hash::fnv_step(fnv_fold(h0, acc), one)) by {
            reveal_with_fuel(fnv_fold, 2);
            assert(seq![one].drop_last() =~= Seq::<u8>::empty());
        }
        lemma_feed(h0, acc, seq![one]);
        let (x, y) = match r.target { Some((a, b)) => (a, b), None => (0i32, 0i32) };
        lemma_feed(h0, acc + seq![one], le_i32(x));
        lemma_feed(h0, acc + seq![one] + le_i32(x), le_i32(y));
        assert(acc + seq![one] + le_i32(x) + le_i32(y) =~= acc + tb);
        acc = acc + tb;
    }
    h.write_i32(r.drop_countdown);
    proof { lemma_feed(h0, acc, le_i32(r.drop_countdown)); acc = acc + le_i32(r.drop_countdown); }
    h.write_i32(r.hp);
    proof { lemma_feed(h0, acc, le_i32(r.hp)); acc = acc + le_i32(r.hp); }
    h.write_i16(r.armor);
    proof { lemma_feed(h0, acc, le_bytes_u16(r.armor as u16)); acc = acc + le_bytes_u16(r.armor as u16); }
    h.write_u16(r.hit_flash);
    proof { lemma_feed(h0, acc, le_bytes_u16(r.hit_flash)); acc = acc + le_bytes_u16(r.hit_flash); }
    h.write_u16(r.alarm);
    proof { lemma_feed(h0, acc, le_bytes_u16(r.alarm)); acc = acc + le_bytes_u16(r.alarm); }
    h.write_u16(r.kind);
    proof { lemma_feed(h0, acc, le_bytes_u16(r.kind)); acc = acc + le_bytes_u16(r.kind); }
    h.write_i32(r.shield);
    proof { lemma_feed(h0, acc, le_i32(r.shield)); acc = acc + le_i32(r.shield); }
    h.write_i32(r.shield_charges);
    proof { lemma_feed(h0, acc, le_i32(r.shield_charges)); acc = acc + le_i32(r.shield_charges); }
    h.write_i32(r.shield_boost);
    proof { lemma_feed(h0, acc, le_i32(r.shield_boost)); acc = acc + le_i32(r.shield_boost); }
    h.write_i32(r.battery);
    proof { lemma_feed(h0, acc, le_i32(r.battery)); acc = acc + le_i32(r.battery); }
    h.write_i32(r.armor_pool);
    proof { lemma_feed(h0, acc, le_i32(r.armor_pool)); acc = acc + le_i32(r.armor_pool); }
    h.write_i32(r.alarm_ctr);
    proof { lemma_feed(h0, acc, le_i32(r.alarm_ctr)); acc = acc + le_i32(r.alarm_ctr); }
    h.write_u16(r.death_flag);
    proof {
        lemma_feed(h0, acc, le_bytes_u16(r.death_flag));
        acc = acc + le_bytes_u16(r.death_flag);
        assert(acc =~= robot_bytes(*r));
    }
}

/// Feeding one byte is one FNV step.
proof fn lemma_feed_byte(h: u64, b: u8)
    ensures
        fnv_fold(h, seq![b]) == crate::hash::fnv_step(h, b),
{
    reveal_with_fuel(fnv_fold, 2);
    assert(seq![b].drop_last() =~= Seq::<u8>::empty());
}

/// Hash the pending order's bytes.
fn hash_order(h: &mut Fnv1a64, order: Option<Order>)
    ensures
        final(h)@ == fnv_fold(old(h)@, order_bytes(order)),
{
    let ghost h0 = h@;
    match order {
        None => {
            h.write_u8(0);
            proof {
                lemma_feed_byte(h0, 0);
            }
        },
        Some(o) => {
            h.write_u8(1);
            proof {
                lemma_feed_byte(h0, 1);
            }
            let ghost mut acc: Seq<u8> = seq![1u8];
            h.write_i32(o.tile.0);
            proof { lemma_feed(h0, acc, le_i32(o.tile.0)); acc = acc + le_i32(o.tile.0); }
            h.write_i32(o.tile.1);
            proof { lemma_feed(h0, acc, le_i32(o.tile.1)); acc = acc + le_i32(o.tile.1); }
            h.write_i32(o.tile.2);
            proof { lemma_feed(h0, acc, le_i32(o.tile.2)); acc = acc + le_i32(o.tile.2); }
            h.write_u16(o.window);
            proof { lemma_feed(h0, acc, le_bytes_u16(o.window)); acc = acc + le_bytes_u16(o.window); }
            let mut i: usize = 0;
            while i < 12
                invariant
                    i <= 12,
                    h@ == fnv_fold(h0, acc + claims_bytes(o.claims).subrange(0, i as int)),
                decreases 12 - i,
            {
                let c = o.claims[i];
                let ghost pre = acc + claims_bytes(o.claims).subrange(0, i as int);
                let ghost hp = h@;
                let b: u8 = if c { 1 } else { 0 };
                h.write_u8(b);
                proof {
                    lemma_feed_byte(hp, b);
                    lemma_feed(h0, pre, seq![b]);
                    assert(pre + seq![b] =~= acc + claims_bytes(o.claims).subrange(0, i + 1));
                }
                i = i + 1;
            }
            proof {
                assert(acc + claims_bytes(o.claims).subrange(0, 12) =~= order_bytes(order));
            }
        },
    }
}

/// Hash the trigger latch's bytes.
fn hash_latch(h: &mut Fnv1a64, lt: Option<(i32, i32, i32)>)
    ensures
        final(h)@ == fnv_fold(old(h)@, latch_bytes(lt)),
{
    let ghost h0 = h@;
    match lt {
        None => {
            h.write_u8(0);
            proof {
                lemma_feed_byte(h0, 0);
            }
        },
        Some((z, x, y)) => {
            h.write_u8(1);
            proof {
                lemma_feed_byte(h0, 1);
            }
            let ghost mut acc: Seq<u8> = seq![1u8];
            h.write_i32(z);
            proof { lemma_feed(h0, acc, le_i32(z)); acc = acc + le_i32(z); }
            h.write_i32(x);
            proof { lemma_feed(h0, acc, le_i32(x)); acc = acc + le_i32(x); }
            h.write_i32(y);
            proof {
                lemma_feed(h0, acc, le_i32(y));
                acc = acc + le_i32(y);
                assert(acc =~= latch_bytes(lt));
            }
        },
    }
}

/// A personnel record after `dmg` (taken as `i16`) hits it: at hp 0 or
/// below it enters panic (state 6, timer 0).
pub open spec fn poi_hit(p: PoiRecord, dmg: i32) -> PoiRecord {
    let hp = (p.hp - (dmg as i16)) as i16;
    if hp <= 0 {
        PoiRecord { hp: hp, state: 6, timer: 0, ..p }
    } else {
        PoiRecord { hp: hp, ..p }
    }
}

/// The hash bytes of the first `n` probe-cache words.
pub open spec fn probe_prefix(p: [u16; 8], n: nat) -> Seq<u8>
    decreases n,
{
    if n == 0 || n > 8 {
        Seq::empty()
    } else {
        probe_prefix(p, (n - 1) as nat) + le_bytes_u16(p@[n - 1])
    }
}


/// `a / b` truncating toward zero, for a positive `b`.
fn div_trunc(a: i32, b: i32) -> (q: i32)
    requires
        b > 0,
    ensures
        q == crate::fx::trunc_div(a as int, b as int),
{
    let ua: u64 = if a < 0 {
        (0 - (a as i64)) as u64
    } else {
        a as u64
    };
    let uq = ua / (b as u64);
    assert(uq <= ua) by (nonlinear_arith)
        requires
            uq == ua / (b as u64),
            b > 0,
    ;
    if a < 0 {
        (0 - (uq as i64)) as i32
    } else {
        uq as i32
    }
}

/// Entry `k` of row `row` of [`PICKUP_AWARDS`].
fn award(row: usize, k: usize) -> (a: i32)
    requires
        row < 2,
        k < 4,
    ensures
        a == PICKUP_AWARDS@[row as int]@[k as int],
        0 < a <= 10000,
        row == 1 ==> a <= 250,
{
    PICKUP_AWARDS[row][k]
}

/// Entry `j` of [`DEBRIS_SCORCH_RING`].
fn ring_entry(j: usize) -> (e: (i32, i32, u8))
    requires
        j < 9,
    ensures
        e == DEBRIS_SCORCH_RING@[j as int],
        -0x20 <= e.0 <= 0x20,
        -0x20 <= e.1 <= 0x20,
{
    DEBRIS_SCORCH_RING[j]
}

/// The free debris ring.
fn free_debris_bank() -> (v: Vec<DebrisRecord>)
    ensures
        v@ == Seq::new(DEBRIS_SLOTS as nat, |i: int| free_debris()),
{
    let z = DebrisRecord {
        active: false,
        x: 0,
        y: 0,
        z: 0,
        init_a: 0,
        init_b: 0,
        seq: 0,
        anim: 0,
        kind: 0,
        phys: 0,
        delay: 0,
        param: 0,
        table: 0,
    };
    let mut v: Vec<DebrisRecord> = Vec::new();
    let mut i: usize = 0;
    while i < DEBRIS_SLOTS
        invariant
            i <= DEBRIS_SLOTS,
            z == free_debris(),
            v@ == Seq::new(i as nat, |k: int| free_debris()),
        decreases DEBRIS_SLOTS - i,
    {
        v.push(z);
        i = i + 1;
        assert(v@ =~= Seq::new(i as nat, |k: int| free_debris()));
    }
    v
}

/// The free splash bank.
fn free_splash_bank() -> (v: Vec<SplashRecord>)
    ensures
        v@ == Seq::new(SPLASH_SLOTS as nat, |i: int| free_splash()),
{
    let z = SplashRecord { x: 0, y: 0, z: 0, delay: 0, age: 0 };
    let mut v: Vec<SplashRecord> = Vec::new();
    let mut i: usize = 0;
    while i < SPLASH_SLOTS
        invariant
            i <= SPLASH_SLOTS,
            z == free_splash(),
            v@ == Seq::new(i as nat, |k: int| free_splash()),
        decreases SPLASH_SLOTS - i,
    {
        v.push(z);
        i = i + 1;
        assert(v@ =~= Seq::new(i as nat, |k: int| free_splash()));
    }
    v
}

impl MissionSim {
    /// The simulation is well formed.
    pub closed spec fn wf(&self) -> bool {
        sim_wf(self@)
    }

    /// Create with terrain, the angle table, and a PRNG seed: no robots,
    /// no order, frame 0, mission number 1, every bank empty.
    pub fn new(terrain: Terrain, angles: AngleTable, seed: u64) -> (s: Self)
        ensures
            s@ == fresh_sim(terrain@, angles@, seed),
    {
        let exit = ExitSlot { active: false, phase: 0, x: 0, y: 0, dwell: 0 };
        let s = MissionSim {
            terrain,
            robots: Vec::new(),
            order: None,
            angles,
            rng: Pcg32::new(seed, STREAM_MISSION),
            frame: 0,
            armor_pads: Vec::new(),
            player_type: 0,
            difficulty: 0,
            zone: 0,
            language: 0,
            mission_no: 1,
            network_mode: 0,
            mirror_words: Vec::new(),
            mirror_seen: Vec::new(),
            score_pending: 0,
            strip_arm: false,
            pickup_score_pending: 0,
            pickup_money_pending: 0,
            dropship: CraftRecord { active: false, phase: 0, x: 0, y: 0, alt: 0, group: 0, dwell: 0 },
            extracted: 0,
            extraction_complete: false,
            order_pad_armed: false,
            beacon_tile_latch: None,
            beacon_claims_latch: [false; 12],
            objective_phase: 0,
            objective_blink: 0,
            objective_light: 0,
            critter_family_armed: false,
            pois: Vec::new(),
            poi_exits: [exit; 5],
            poi_escapes: 0,
            poi_panic: 0,
            rides: Vec::new(),
            linear: 0,
            object_types: Vec::new(),
            objects: Vec::new(),
            structures: Vec::new(),
            object_grid: Vec::new(),
            platform_strength: Vec::new(),
            platform_site: (0, 0),
            platform_family_armed: false,
            terrain_writes: None,
            mirror_heights: Vec::new(),
            debris: free_debris_bank(),
            debris_seq: 0,
            splashes: free_splash_bank(),
            objective_count: 0,
            fence_timers: [(0, 0); 32],
            critters: Vec::new(),
            effect_rows: blank_row_bank(),
            enemy_bank: free_projectile_bank(),
            elevators: Vec::new(),
            elevator_targets: Vec::new(),
            elevator_bias: Vec::new(),
        };
        assert(s@.elevators =~= Seq::<Elevator>::empty());
        assert(s@.elevator_targets =~= Seq::<u8>::empty());
        assert(s@.elevator_bias =~= Seq::<u8>::empty());
        assert(s@.critters =~= Seq::<CritterRecord>::empty());
        assert(s@.fence_timers =~= Seq::new(32, |i: int| (0u32, 0u16)));
        assert(s@.object_types =~= Seq::<ObjectTypeView>::empty());
        assert(s@.poi_exits =~= Seq::new(5, |i: int| empty_exit()));
        assert(s@.beacon_claims_latch =~= fresh_sim(s.terrain@, s.angles@, seed).beacon_claims_latch);
        assert(s@ =~= fresh_sim(s.terrain@, s.angles@, seed));
        s
    }

    /// Stage the difficulty selector (0..2).
    pub fn set_difficulty(&mut self, difficulty: u32)
        ensures
            final(self)@ == (MissionView { difficulty: difficulty, ..old(self)@ }),
    {
        self.difficulty = difficulty;
    }

    /// The robots in record order.
    pub fn robots(&self) -> (r: &[Robot])
        ensures
            r@ == self@.robots,
    {
        self.robots.as_slice()
    }

    /// The robots in record order, mutably (direct state setup).
    pub fn robots_mut(&mut self) -> (r: &mut [Robot])
        ensures
            r@ == old(self)@.robots,
            final(self)@ == (MissionView { robots: final(r)@, ..old(self)@ }),
    {
        self.robots.as_mut_slice()
    }

    /// The pending order, if any.
    pub fn order(&self) -> (o: Option<Order>)
        ensures
            o == self@.order,
    {
        self.order
    }

    /// The extraction dropship record.
    pub fn dropship(&self) -> (c: CraftRecord)
        ensures
            c == self@.dropship,
    {
        self.dropship
    }

    /// The extraction counters: robots extracted, and whether the
    /// dropship has left.
    pub fn extraction_state(&self) -> (r: (i32, bool))
        ensures
            r == (self@.extracted, self@.extraction_complete),
    {
        (self.extracted, self.extraction_complete)
    }

    /// The beacon tile an extraction pad armed (kept after the deploy).
    pub fn beacon_tile_latch(&self) -> (r: Option<(i32, i32, i32)>)
        ensures
            r == self@.beacon_tile_latch,
    {
        self.beacon_tile_latch
    }

    /// The spread claims of the deployed beacon.
    pub fn beacon_claims_latch(&self) -> (r: [bool; 12])
        ensures
            r == self@.beacon_claims_latch,
    {
        self.beacon_claims_latch
    }

    /// The objective cells `(phase, blink, light)`.
    pub fn objective_cells(&self) -> (r: (u32, u32, u32))
        ensures
            r == self@.objective,
    {
        (self.objective_phase, self.objective_blink, self.objective_light)
    }

    /// Stage the terrain-set cell (1..7).
    pub fn stage_zone_set(&mut self, zone: u32)
        ensures
            final(self)@ == (MissionView { zone: zone, ..old(self)@ }),
    {
        self.zone = zone;
    }

    /// Frames elapsed.
    pub fn frame(&self) -> (f: u64)
        ensures
            f == self@.frame,
    {
        self.frame
    }

    /// The shared stream's LCG state.
    pub fn rand_a_state(&self) -> (s: u64)
        ensures
            s == self@.rng.0,
    {
        self.rng.state()
    }

    /// The staged armor-pad bytes as stored.
    pub fn armor_pads(&self) -> (r: &[u8])
        ensures
            r@ == self@.armor_pads,
    {
        self.armor_pads.as_slice()
    }

    /// One draw from the shared mission stream.
    pub fn rand_a(&mut self) -> (r: u32)
        ensures
            r == draw_at(old(self)@.rng.0, old(self)@.rng.1, 0),
            final(self)@ == (MissionView {
                rng: (state_after(old(self)@.rng.0, old(self)@.rng.1, 1), old(self)@.rng.1),
                ..old(self)@
            }),
    {
        let r = self.rng.next_u32();
        proof {
            reveal_with_fuel(state_after, 2);
        }
        r
    }

    /// Stage robot `idx`'s battery stat and re-run the landing HP
    /// formula `5000 + 100*battery`; a bad index does nothing.
    pub fn set_battery(&mut self, idx: usize, battery: i32)
        requires
            idx < old(self)@.robots.len() ==> i32::MIN <= 100 * battery && 5000 + 100 * battery
                <= i32::MAX,
        ensures
            final(self)@ == (if idx < old(self)@.robots.len() {
                (MissionView {
                    robots: old(self)@.robots.update(
                        idx as int,
                        Robot {
                            battery: battery,
                            hp: (5000 + 100 * battery) as i32,
                            ..old(self)@.robots[idx as int]
                        },
                    ),
                    ..old(self)@
                })
            } else {
                old(self)@
            }),
    {
        if idx >= self.robots.len() {
            return;
        }
        let mut r = self.robots[idx];
        r.battery = battery;
        r.hp = 5000 + 100 * battery;
        self.robots.set(idx, r);
    }

    /// Stage the per-tile armor-pad bytes (linear tile order; shorter
    /// arrays read as zero-padded).
    pub fn set_armor_pads(&mut self, pads: &[u8])
        ensures
            final(self)@ == (MissionView { armor_pads: pads@, ..old(self)@ }),
    {
        let mut v: Vec<u8> = Vec::new();
        let mut i: usize = 0;
        while i < pads.len()
            invariant
                i <= pads@.len(),
                v@ == pads@.subrange(0, i as int),
            decreases pads@.len() - i,
        {
            v.push(pads[i]);
            i = i + 1;
            assert(v@ =~= pads@.subrange(0, i as int));
        }
        assert(v@ =~= pads@);
        self.armor_pads = v;
    }

    /// The armor pad byte of a linear tile, 0 when unstaged.
    pub fn armor_pad_byte(&self, tile: usize) -> (b: u8)
        ensures
            b == pad_byte(self@.armor_pads, tile as int),
    {
        if tile < self.armor_pads.len() {
            self.armor_pads[tile]
        } else {
            0
        }
    }

    /// The player type word (0 in single player).
    pub fn player_type(&self) -> (t: u16)
        ensures
            t == self@.player_type,
    {
        self.player_type
    }

    /// Linear tile of a world Q5 position, if on the map.
    fn scorch_index(&self, world_x: i32, world_y: i32) -> (r: Option<usize>)
        requires
            self.wf(),
        ensures
            r matches Some(t) ==> scorch_tile(self@.terrain.width, self@.terrain.height, world_x, world_y) == Some(t as int) && t < 0x8000_0000,
            r is None ==> scorch_tile(self@.terrain.width, self@.terrain.height, world_x, world_y) is None,
    {
        let tx = world_x >> 5;
        let ty = world_y >> 5;
        if tx < 0 || ty < 0 {
            return None;
        }
        let (w, h) = self.terrain.size();
        if tx >= w || ty >= h {
            return None;
        }
        proof {
            assert(0 <= ty * w + tx < w * h) by (nonlinear_arith)
                requires
                    0 <= tx < w,
                    0 <= ty < h,
            ;
            assert(w * h <= 8 * w * h) by (nonlinear_arith)
                requires
                    w > 0,
                    h > 0,
            ;
        }
        Some((ty * w + tx) as usize)
    }

    /// Grow the pads with zeros so that `tile` is inside.
    fn grow_pads(&mut self, tile: usize)
        requires
            tile < 0x8000_0000,
        ensures
            final(self)@ == (MissionView { armor_pads: grown(old(self)@.armor_pads, tile as int), ..old(self)@ }),
    {
        if self.armor_pads.len() <= tile {
            let ghost old_pads = self.armor_pads@;
            self.armor_pads.resize(tile + 1, 0);
            assert(self.armor_pads@ =~= grown(old_pads, tile as int));
        }
    }

    /// The absolute scorch write: the tile under world Q5 `(x, y)` takes
    /// `value` (8 and more write 7); off-map positions are dropped and the
    /// pads grow zero-padded on the first write past their end.
    pub fn scorch_write(&mut self, world_x: i32, world_y: i32, value: u8)
        requires
            old(self).wf(),
        ensures
            final(self)@ == (MissionView {
                armor_pads: scorch_pads(
                    old(self)@.armor_pads,
                    old(self)@.terrain.width,
                    old(self)@.terrain.height,
                    world_x,
                    world_y,
                    value,
                ),
                ..old(self)@
            }),
    {
        let tile = match self.scorch_index(world_x, world_y) {
            Some(t) => t,
            None => return,
        };
        let value = if value >= 8 {
            7
        } else {
            value
        };
        self.grow_pads(tile);
        self.armor_pads.set(tile, value);
    }

    /// The incrementing scorch write: the tile's byte `+= value`
    /// (saturating), then capped at 7; off-map positions are dropped.
    pub fn scorch_increment(&mut self, world_x: i32, world_y: i32, value: u8)
        requires
            old(self).wf(),
        ensures
            final(self)@ == (MissionView {
                armor_pads: scorch_add_pads(
                    old(self)@.armor_pads,
                    old(self)@.terrain.width,
                    old(self)@.terrain.height,
                    world_x,
                    world_y,
                    value,
                ),
                ..old(self)@
            }),
    {
        let tile = match self.scorch_index(world_x, world_y) {
            Some(t) => t,
            None => return,
        };
        self.grow_pads(tile);
        let s = self.armor_pads[tile].saturating_add(value);
        let v = if s > 7 {
            7
        } else {
            s
        };
        self.armor_pads.set(tile, v);
    }


    /// The scorch ring around one debris row.
    pub(crate) fn scorch_ring(&mut self, d: (i32, i32, i32, i32))
        requires
            old(self).wf(),
            i32::MIN + 0x20 <= d.0 <= i32::MAX - 0x20,
            i32::MIN + 0x20 <= d.1 <= i32::MAX - 0x20,
        ensures
            final(self).wf(),
            final(self)@ == (MissionView {
                armor_pads: ring_pads(
                    old(self)@.armor_pads,
                    old(self)@.terrain.width,
                    old(self)@.terrain.height,
                    d,
                    9,
                ),
                ..old(self)@
            }),
    {
        let ghost m0 = self@;
        let mut j: usize = 0;
        while j < 9
            invariant
                j <= 9,
                self.wf(),
                i32::MIN + 0x20 <= d.0 <= i32::MAX - 0x20,
                i32::MIN + 0x20 <= d.1 <= i32::MAX - 0x20,
                self@ == (MissionView {
                    armor_pads: ring_pads(m0.armor_pads, m0.terrain.width, m0.terrain.height, d, j as nat),
                    ..m0
                }),
            decreases 9 - j,
        {
            let (dx, dy, value) = ring_entry(j);
            self.scorch_write(d.0 + dx, d.1 + dy, value);
            j = j + 1;
            assert(self@ =~= (MissionView {
                armor_pads: ring_pads(m0.armor_pads, m0.terrain.width, m0.terrain.height, d, j as nat),
                ..m0
            }));
        }
    }

    /// Stage the five death debris of robot `rh`: two draws each, each
    /// debris writing its scorch ring.
    #[verifier::rlimit(50)]
    #[verifier::spinoff_prover]
    fn death_debris(&mut self, rh: Robot) -> (debris: [(i32, i32, i32, i32); 5])
        requires
            old(self).wf(),
            rh.z + 32 <= i32::MAX,
        ensures
            final(self).wf(),
            final(self)@ == (MissionView {
                rng: (state_after(old(self)@.rng.0, old(self)@.rng.1, 10), old(self)@.rng.1),
                armor_pads: debris_pads(
                    old(self)@.armor_pads,
                    old(self)@.terrain.width,
                    old(self)@.terrain.height,
                    old(self)@.rng,
                    rh,
                    5,
                ),
                ..old(self)@
            }),
            forall|q: int| 0 <= q < 5 ==> debris@[q] == debris_row(old(self)@.rng, rh, q),
    {
        let ghost m0 = self@;
        let mut debris: [(i32, i32, i32, i32); 5] = [(0, 0, 0, 0); 5];
        let mut k: usize = 0;
        while k < 5
            invariant
                k <= 5,
                self.wf(),
                rh.z + 32 <= i32::MAX,
                self@ == (MissionView {
                    rng: (state_after(m0.rng.0, m0.rng.1, (2 * k) as nat), m0.rng.1),
                    armor_pads: debris_pads(
                        m0.armor_pads,
                        m0.terrain.width,
                        m0.terrain.height,
                        m0.rng,
                        rh,
                        k as nat,
                    ),
                    ..m0
                }),
                forall|q: int| 0 <= q < k ==> debris@[q] == debris_row(m0.rng, rh, q),
            decreases 5 - k,
        {
            let ry = self.rng.next_u32();
            let rx = self.rng.next_u32();
            proof {
                reveal_with_fuel(state_after, 3);
            }
            assert(rx & 0x1F <= 31 && ry & 0x1F <= 31) by (bit_vector);
            let px = rh.pos_x;
            let py = rh.pos_y;
            assert(-0x80_0000 <= px >> 8u32 <= 0x80_0000 && -0x80_0000 <= py >> 8u32 <= 0x80_0000)
                by (bit_vector);
            let d0 = (rx & 0x1F) as i32 + (px >> 8) - 0x10;
            let d1 = (ry & 0x1F) as i32 + (py >> 8) - 0x10;
            let d2 = rh.z + 8 * k as i32;
            let d3 = 2 * k as i32;
            let d = (d0, d1, d2, d3);
            assert(d == debris_row(m0.rng, rh, k as int));
            self.scorch_ring(d);
            debris[k] = d;
            k = k + 1;
        }
        debris
    }


    /// Robot `idx` dies after a hit left it as `rh` (see
    /// [`death_result`]).
    fn kill_robot(&mut self, idx: usize, rh: Robot) -> (out: DamageOutcome)
        requires
            old(self).wf(),
            idx < old(self)@.robots.len(),
            rh.z + 32 <= i32::MAX,
        ensures
            final(self).wf(),
            (final(self)@, out) == death_result(old(self)@, idx, rh),
    {
        let ghost m0 = self@;
        let mut r = rh;
        r.alive = false;
        r.drop_countdown = 0;
        r.hp = 0;
        r.death_flag = 1;
        r.armor = 0;
        self.robots.set(idx, r);
        let debris = self.death_debris(rh);
        let out = DamageOutcome { applied: true, died: true, debris };
        assert(out.debris =~= death_result(m0, idx, rh).1.debris);
        assert(self@ =~= death_result(m0, idx, rh).0);
        out
    }

    /// Apply `damage` to robot `idx` (see [`damage_result`]). `killer`
    /// only matters to multiplayer bookkeeping and is unused here.
    #[verifier::rlimit(50)]
    #[verifier::spinoff_prover]
    pub fn apply_damage(&mut self, idx: usize, damage: i32, killer: i32) -> (out: DamageOutcome)
        requires
            old(self).wf(),
            damage_defined(old(self)@, idx, damage),
        ensures
            final(self).wf(),
            (final(self)@, out) == damage_result(old(self)@, idx, damage),
    {
        let ghost m0 = self@;
        let _ = killer;
        if idx >= self.robots.len() {
            let out = DamageOutcome { applied: false, died: false, debris: [(0, 0, 0, 0); 5] };
            assert(out.debris =~= no_damage().debris);
            return out;
        }
        let mut r = self.robots[idx];
        if !r.alive || r.state == 2 {
            let out = DamageOutcome { applied: false, died: false, debris: [(0, 0, 0, 0); 5] };
            assert(out.debris =~= no_damage().debris);
            return out;
        }
        let applied = DamageOutcome { applied: true, died: false, debris: [(0, 0, 0, 0); 5] };
        assert(applied.debris =~= no_damage().debris);
        if r.state == STATE_ORDERED {
            r.shield = 0x20;
            self.robots.set(idx, r);
            assert(self@ =~= damage_result(m0, idx, damage).0);
            return applied;
        }
        if r.shield_charges != 0 && r.shield == 0 {
            r.shield_charges = r.shield_charges - 1;
            r.shield = 0x20;
            self.robots.set(idx, r);
            assert(self@ =~= damage_result(m0, idx, damage).0);
            return applied;
        }
        if r.alarm == 0 {
            r.alarm_ctr = r.alarm_ctr + 3;
        }
        if r.alarm_ctr > 100 && r.kind == self.player_type {
            r.alarm = 100;
            r.alarm_ctr = 0;
        }
        if r.shield == 0 {
            r.hit_flash = r.hit_flash.wrapping_add(1);
            r.hp = r.hp - damage;
        } else {
            let s = r.shield - damage;
            r.shield = if s < 0 {
                0
            } else {
                s
            };
        }
        assert(r == hit_robot(m0.robots[idx as int], damage, m0.player_type));
        if r.hp >= 1 {
            self.robots.set(idx, r);
            assert(self@ =~= damage_result(m0, idx, damage).0);
            return applied;
        }
        self.kill_robot(idx, r)
    }

    /// Apply pickup `case` to robot `idx` (see [`pickup_result`]).
    pub fn apply_pickup(&mut self, idx: usize, case: u8) -> (out: PickupOutcome)
        requires
            pickup_defined(old(self)@, idx, case),
        ensures
            (final(self)@, out) == pickup_result(old(self)@, idx, case),
    {
        let ghost m0 = self@;
        if !((1 <= case && case <= 4) || (7 <= case && case <= 9)) || idx >= self.robots.len() {
            return PickupOutcome { applied: false, effect: 0 };
        }
        let effect: i32 = if case == 1 {
            1
        } else if case == 2 {
            6
        } else if case == 3 {
            7
        } else if case == 4 {
            1
        } else if case == 7 {
            0xE
        } else if case == 8 {
            0xC
        } else {
            0xD
        };
        let out = PickupOutcome { applied: true, effect };
        let mut r = self.robots[idx];
        if case == 1 {
            r.drop_countdown = PICKUP_DROP;
            self.robots.set(idx, r);
        } else if case == 2 {
            r.shield = PICKUP_SHIELD;
            self.robots.set(idx, r);
        } else if case == 3 {
            r.hp = r.hp + PICKUP_HEALTH;
            if r.hp > HP_MAX {
                r.hp = HP_MAX;
            }
            self.robots.set(idx, r);
        } else if case == 4 {
            let row = (self.rng.next_u32() & 1) as usize;
            let k = (self.rng.next_u32() & 3) as usize;
            proof {
                reveal_with_fuel(state_after, 3);
                let d0 = draw_at(m0.rng.0, m0.rng.1, 0);
                let d1 = draw_at(m0.rng.0, m0.rng.1, 1);
                assert(d0 & 1 < 2 && d1 & 3 < 4) by (bit_vector);
            }
            let amount = award(row, k);
            if row == 0 {
                self.pickup_score_pending = self.pickup_score_pending + amount;
            } else {
                self.pickup_money_pending = self.pickup_money_pending + amount;
            }
        } else if case == 7 {
            r.shield_boost = PICKUP_BOOST;
            self.robots.set(idx, r);
        }
        assert(self@ =~= pickup_result(m0, idx, case).0);
        out
    }

    /// Stage the pickup surface from a TOT volume (`u16 w + u16 h + 8
    /// plane-major planes of w*h u16 words`): every word goes to the tile
    /// mirror (8 per tile), the seen byte is 1 exactly where the plane
    /// byte is 0, and the terrain-set cell takes `zone`. Returns false,
    /// changing nothing, on a size or dimension mismatch.
    pub fn stage_pickup_surface(&mut self, tot: &[u8], zone: u32) -> (ok: bool)
        requires
            old(self).wf(),
        ensures
            final(self).wf(),
            ok == tot_ok(old(self)@, tot@),
            final(self)@ == (if ok {
                (MissionView {
                    mirror_words: tot_words(tot@, old(self)@.terrain.width * old(self)@.terrain.height),
                    mirror_seen: seen_bytes(
                        old(self)@.terrain.dat,
                        old(self)@.terrain.width * old(self)@.terrain.height,
                    ),
                    zone: zone,
                    ..old(self)@
                })
            } else {
                old(self)@
            }),
    {
        let ghost m0 = self@;
        let (w, h) = self.terrain.size();
        proof {
            assert(w * h <= 8 * w * h) by (nonlinear_arith)
                requires
                    w > 0,
                    h > 0,
            ;
            assert(8 * (w * h) == 8 * w * h) by (nonlinear_arith);
            assert(w * h > 0) by (nonlinear_arith)
                requires
                    w > 0,
                    h > 0,
            ;
        }
        let n = (w * h) as usize;
        let tlen = tot.len();
        if tot.len() as u64 != 4 + 16 * (n as u64) {
            return false;
        }
        let tw = read_u16(tot, 0) as i32;
        let th = read_u16(tot, 2) as i32;
        if tw != w || th != h {
            return false;
        }
        let total = 8 * n;
        let mut words: Vec<u16> = Vec::new();
        let mut seen: Vec<u8> = Vec::new();
        let mut c: usize = 0;
        while c < total
            invariant
                total == 8 * n,
                n == m0.terrain.width * m0.terrain.height,
                n > 0,
                tot@.len() == 4 + 16 * n,
                tlen == tot@.len(),
                m0.terrain.dat.len() == 8 * n,
                self@ == m0,
                self.wf(),
                c <= total,
                words@.len() == c,
                seen@.len() == c,
                forall|q: int| 0 <= q < c ==> words@[q] == tot_words(tot@, n as int)[q],
                forall|q: int| 0 <= q < c ==> seen@[q] == seen_bytes(m0.terrain.dat, n as int)[q],
            decreases total - c,
        {
            let tile = c / 8;
            let z = c % 8;
            proof {
                assert(z * n + tile < 8 * n) by (nonlinear_arith)
                    requires
                        c < 8 * n,
                        tile == c / 8,
                        z == c % 8,
                        n > 0,
                ;
            }
            let cell = z * n + tile;
            let word = read_u16(tot, 4 + 2 * cell);
            words.push(word);
            let b = self.terrain.volume_byte(cell);
            seen.push(if b == 0 { 1 } else { 0 });
            c = c + 1;
        }
        assert(words@ =~= tot_words(tot@, n as int));
        assert(seen@ =~= seen_bytes(m0.terrain.dat, n as int));
        self.mirror_words = words;
        self.mirror_seen = seen;
        self.zone = zone;
        true
    }

    /// The pending case-4 awards `(score, money)`; taking clears both.
    pub fn take_pickup_awards(&mut self) -> (r: (i32, i32))
        ensures
            r == (old(self)@.pickup_score, old(self)@.pickup_money),
            final(self)@ == (MissionView { pickup_score: 0, pickup_money: 0, ..old(self)@ }),
    {
        let out = (self.pickup_score_pending, self.pickup_money_pending);
        self.pickup_score_pending = 0;
        self.pickup_money_pending = 0;
        out
    }

    /// The mirror word of `(tile, z)`, 0 past the staged words.
    pub fn mirror_word(&self, tile: usize, z: usize) -> (w: u16)
        requires
            tile * 8 + z <= usize::MAX,
        ensures
            w == (if tile * 8 + z < self@.mirror_words.len() {
                self@.mirror_words[tile * 8 + z]
            } else {
                0
            }),
    {
        if tile * 8 + z < self.mirror_words.len() {
            self.mirror_words[tile * 8 + z]
        } else {
            0
        }
    }

    /// The seen byte of `(tile, z)`, 0 past the staged bytes.
    pub fn mirror_seen(&self, tile: usize, z: usize) -> (b: u8)
        requires
            tile * 8 + z <= usize::MAX,
        ensures
            b == (if tile * 8 + z < self@.mirror_seen.len() {
                self@.mirror_seen[tile * 8 + z]
            } else {
                0
            }),
    {
        if tile * 8 + z < self.mirror_seen.len() {
            self.mirror_seen[tile * 8 + z]
        } else {
            0
        }
    }

    /// The whole mirror word bank, 8 per tile.
    pub fn mirror_words(&self) -> (r: &[u16])
        ensures
            r@ == self@.mirror_words,
    {
        self.mirror_words.as_slice()
    }

    /// The whole seen-byte bank, 8 per tile.
    pub fn mirror_seen_bank(&self) -> (r: &[u8])
        ensures
            r@ == self@.mirror_seen,
    {
        self.mirror_seen.as_slice()
    }

    /// The pending score award and the score-strip redraw arm; taking
    /// clears both.
    pub fn take_destroy_score(&mut self) -> (r: (i32, bool))
        ensures
            r == (old(self)@.score_pending, old(self)@.strip_arm),
            final(self)@ == (MissionView { score_pending: 0, strip_arm: false, ..old(self)@ }),
    {
        let out = (self.score_pending, self.strip_arm);
        self.score_pending = 0;
        self.strip_arm = false;
        out
    }

    /// Stage the language latch (1 = German).
    pub fn set_language(&mut self, language: u32)
        ensures
            final(self)@ == (MissionView { language: language, ..old(self)@ }),
    {
        self.language = language;
    }

    /// Stage the within-zone mission number.
    pub fn set_mission_no(&mut self, mission_no: u32)
        ensures
            final(self)@ == (MissionView { mission_no: mission_no, ..old(self)@ }),
    {
        self.mission_no = mission_no;
    }

    /// Arm the per-frame critter and personnel controllers.
    pub fn arm_critter_family(&mut self)
        ensures
            final(self)@ == (MissionView { family_armed: true, ..old(self)@ }),
    {
        self.critter_family_armed = true;
    }

    /// The personnel bank.
    pub fn pois(&self) -> (r: &[PoiRecord])
        ensures
            r@ == self@.pois,
    {
        self.pois.as_slice()
    }

    /// The escape counter.
    pub fn poi_escape_count(&self) -> (n: i32)
        ensures
            n == self@.poi_escapes,
    {
        self.poi_escapes
    }

    /// The panic timer (stamped 0x32 by every escape).
    pub fn poi_panic_timer(&self) -> (n: i32)
        ensures
            n == self@.poi_panic,
    {
        self.poi_panic
    }

    /// Stage exit slot `slot` active at raw-pixel `(x, y)` in `phase`
    /// (2 = open), dwell 0; a slot past 4 does nothing.
    pub fn stage_poi_exit(&mut self, slot: usize, x: i32, y: i32, phase: i32)
        ensures
            final(self)@ == (if slot < 5 {
                (MissionView {
                    poi_exits: old(self)@.poi_exits.update(
                        slot as int,
                        ExitSlot { active: true, phase: phase, x: x, y: y, dwell: 0 },
                    ),
                    ..old(self)@
                })
            } else {
                old(self)@
            }),
    {
        if slot < 5 {
            self.poi_exits[slot] = ExitSlot { active: true, phase, x, y, dwell: 0 };
            assert(self@ =~= (MissionView {
                poi_exits: old(self)@.poi_exits.update(
                    slot as int,
                    ExitSlot { active: true, phase: phase, x: x, y: y, dwell: 0 },
                ),
                ..old(self)@
            }));
        }
    }

    /// Damage personnel `idx` by `dmg` (taken as `i16`): at hp 0 or below
    /// it enters panic (state 6, timer 0) and stays active. A bad index
    /// does nothing.
    pub fn poi_damage(&mut self, idx: usize, dmg: i32)
        requires
            idx < old(self)@.pois.len() ==> i16::MIN <= old(self)@.pois[idx as int].hp - (dmg as i16)
                <= i16::MAX,
        ensures
            final(self)@ == (if idx < old(self)@.pois.len() {
                (MissionView {
                    pois: old(self)@.pois.update(
                        idx as int,
                        poi_hit(old(self)@.pois[idx as int], dmg),
                    ),
                    ..old(self)@
                })
            } else {
                old(self)@
            }),
    {
        if idx >= self.pois.len() {
            return;
        }
        let mut p = self.pois[idx];
        p.hp = p.hp - dmg as i16;
        if p.hp <= 0 {
            p.state = 6;
            p.timer = 0;
        }
        self.pois.set(idx, p);
    }

    /// The rides in staging order.
    pub fn rides(&self) -> (r: &[Ride])
        ensures
            r@ == self@.rides,
    {
        self.rides.as_slice()
    }

    /// The state hash over frame, order and claims, every robot's mover
    /// and damage fields, the trigger latch and the stream (FNV-1a 64 of
    /// [`hash_bytes`]).
    pub fn state_hash(&self) -> (h: StateHash)
        ensures
            h.0 == fnv1a64_spec(hash_bytes(self@)),
    {
        let ghost m = self@;
        let mut h = Fnv1a64::new();
        let ghost base = h@;
        h.write_u64(self.frame);
        let ghost mut acc: Seq<u8> = le_bytes_u64(self.frame);
        hash_order(&mut h, self.order);
        proof {
            lemma_feed(base, acc, order_bytes(m.order));
            acc = acc + order_bytes(m.order);
        }
        let mut i: usize = 0;
        while i < self.robots.len()
            invariant
                i <= m.robots.len(),
                m == self@,
                h@ == fnv_fold(base, acc + robots_bytes(m.robots.subrange(0, i as int))),
            decreases m.robots.len() - i,
        {
            hash_robot(&mut h, &self.robots[i]);
            proof {
                let pre = acc + robots_bytes(m.robots.subrange(0, i as int));
                lemma_feed(base, pre, robot_bytes(m.robots[i as int]));
                assert(m.robots.subrange(0, i + 1).drop_last() =~= m.robots.subrange(0, i as int));
                assert(pre + robot_bytes(m.robots[i as int]) =~= acc + robots_bytes(
                    m.robots.subrange(0, i + 1),
                ));
            }
            i = i + 1;
        }
        proof {
            assert(m.robots.subrange(0, m.robots.len() as int) =~= m.robots);
            acc = acc + robots_bytes(m.robots);
        }
        hash_latch(&mut h, self.terrain.trigger());
        proof {
            lemma_feed(base, acc, latch_bytes(m.terrain.last_trigger));
            acc = acc + latch_bytes(m.terrain.last_trigger);
        }
        h.write_u64(self.rng.state());
        proof {
            lemma_feed(base, acc, le_bytes_u64(m.rng.0));
            acc = acc + le_bytes_u64(m.rng.0);
        }
        h.write_u64(self.rng.stream());
        proof {
            lemma_feed(base, acc, le_bytes_u64(m.rng.1));
            acc = acc + le_bytes_u64(m.rng.1);
            assert(acc =~= hash_bytes(m));
        }
        StateHash(h.finish())
    }

    /// The pad slot under robot `r` (its tile and level).
    fn pad_slot_under(&self, r: Robot) -> (slot: Option<usize>)
        ensures
            slot matches Some(sl) ==> pad_under(self@, r) == Some(sl as int),
            slot is None ==> pad_under(self@, r) is None,
    {
        let key = (r.pos_x >> 13u32, r.pos_y >> 13u32, r.z >> 5u32);
        let found = self.terrain.pad_slot_at(key.0, key.1, key.2);
        proof {
            match found {
                Some(i) => lemma_first_pad_some(self@.terrain.pad_slots, key, 0, i as int),
                None => lemma_first_pad_none(self@.terrain.pad_slots, key, 0),
            }
        }
        found
    }

    /// Spawn a robot at marker `(x, y, level)` (see [`spawn_result`]);
    /// returns its index.
    pub fn spawn_robot(&mut self, marker: (i32, i32, i32)) -> (idx: usize)
        requires
            old(self).wf(),
            spawn_defined(marker),
            old(self)@.robots.len() < usize::MAX,
        ensures
            final(self).wf(),
            idx == old(self)@.robots.len(),
            final(self)@ == spawn_result(old(self)@, marker),
    {
        let ghost m0 = self@;
        let z = marker.2 * 0x20 - 1;
        let draw = self.rng.next_u32();
        proof {
            reveal_with_fuel(state_after, 2);
        }
        let variant = (draw & 3) as u16;
        let zz = z as u16;
        let mut r = Robot {
            pos_x: marker.0 * Q13_PER_TILE + SPAWN_CENTER,
            pos_y: marker.1 * Q13_PER_TILE + SPAWN_CENTER,
            z,
            state: STATE_IDLE,
            dir_byte: 0,
            facing: FACING_NONE,
            anim: 0,
            variant,
            probe_z: [zz; 8],
            stop_dist: 0,
            target: None,
            alive: true,
            drop_countdown: 0,
            hp: 5000,
            armor: 0,
            hit_flash: 0,
            alarm: 0,
            alarm_ctr: 0,
            shield: 0,
            shield_charges: 0,
            shield_boost: 0,
            battery: 0,
            armor_pool: 0,
            kind: 0,
            death_flag: 0,
            weapon_mask: 0,
        };
        assert(r.probe_z =~= spawned_robot(marker, variant).probe_z);
        assert(r == spawned_robot(marker, variant));
        let idx = self.robots.len();
        let wx = r.pos_x;
        let wy = r.pos_y;
        let _ = crate::movement::move_possible(&mut self.terrain, &mut r, wx, wy);
        self.robots.push(r);
        assert(self@ =~= spawn_result(m0, marker));
        idx
    }

    /// Arm the click order at robot `idx` (see [`arm_result`]); false
    /// when an order is already pending.
    pub fn arm_order_at_robot(&mut self, idx: usize) -> (armed: bool)
        requires
            old(self).wf(),
            idx < old(self)@.robots.len(),
        ensures
            final(self).wf(),
            (final(self)@, armed) == arm_result(old(self)@, idx as int),
    {
        let ghost m0 = self@;
        if self.order.is_some() {
            return false;
        }
        let r = self.robots[idx];
        let (tx, ty) = r.tile();
        let mut n: usize = 0;
        let mut i: usize = 0;
        while i < self.robots.len()
            invariant
                m0 == self@,
                i <= m0.robots.len(),
                n == alive_count(m0.robots.subrange(0, i as int)),
                n <= i,
            decreases m0.robots.len() - i,
        {
            proof {
                lemma_alive_count_step(m0.robots, i as int);
            }
            if self.robots[i].alive {
                n = n + 1;
            }
            i = i + 1;
        }
        assert(m0.robots.subrange(0, m0.robots.len() as int) =~= m0.robots);
        let window = if n == 1 {
            0
        } else {
            ORDER_WINDOW
        };
        let mut claims = [false; 12];
        claims[0] = true;
        assert(claims =~= claim_set(
            [false, false, false, false, false, false, false, false, false, false, false, false],
            0,
        ));
        self.order = Some(Order { tile: (tx, ty, r.z), window, claims });
        let px = r.pos_x;
        let py = r.pos_y;
        assert(-0x8000_0000 <= (px >> 13u32) * 0x2000 <= 0x7FFF_FFFF) by (bit_vector);
        assert(-0x8000_0000 <= (py >> 13u32) * 0x2000 <= 0x7FFF_FFFF) by (bit_vector);
        let mut r2 = r;
        r2.pos_x = tx * Q13_PER_TILE;
        r2.pos_y = ty * Q13_PER_TILE;
        r2.state = STATE_ORDERED;
        self.robots.set(idx, r2);
        assert(self@ =~= arm_result(m0, idx as int).0);
        true
    }

    /// The extraction pad trigger for robot `idx` (see
    /// [`pad_extraction`]).
    pub fn pad_extraction_trigger(&mut self, idx: usize)
        requires
            old(self).wf(),
            idx < old(self)@.robots.len(),
        ensures
            final(self)@.robots.len() == old(self)@.robots.len(),
            final(self).wf(),
            final(self)@ == pad_extraction(old(self)@, idx as int),
    {
        reveal(pad_extraction);
        let ghost m0 = self@;
        if self.order.is_some() {
            return;
        }
        let r = self.robots[idx];
        if self.zone == 1 && (self.mission_no != 1 || self.network_mode == 2) {
            return;
        }
        let slot = match self.pad_slot_under(r) {
            None => return,
            Some(s) => s,
        };
        if !zone_extraction_slot(self.zone, slot) {
            return;
        }
        if self.arm_order_at_robot(idx) {
            self.order_pad_armed = true;
            self.beacon_tile_latch = match self.order {
                Some(o) => Some(o.tile),
                None => None,
            };
        }
        assert(self@ =~= pad_extraction(m0, idx as int));
    }

    /// Stage the boot-camp rides (see [`staged_rides`]).
    pub fn stage_rides(&mut self)
        ensures
            final(self)@ == (MissionView { rides: staged_rides(old(self)@), ..old(self)@ }),
    {
        let ghost m0 = self@;
        self.rides = Vec::new();
        if self.zone != 1 || self.mission_no != 1 || self.network_mode == 2 {
            assert(self@ =~= (MissionView { rides: staged_rides(m0), ..m0 }));
            return;
        }
        let n = self.terrain.pad_slot_count();
        let mut k: usize = 0;
        let mut done = false;
        while k < 7 && !done
            invariant
                k <= 7,
                n == m0.terrain.pad_slots.len(),
                m0.zone == 1 && m0.mission_no == 1 && m0.network_mode != 2,
                self@ == (MissionView { rides: self@.rides, ..m0 }),
                k <= ride_count(n as nat),
                done ==> k == ride_count(n as nat),
                self@.rides =~= staged_rides(m0).subrange(0, k as int),
            decreases 7 - k + (if done { 0int } else { 1int }),
        {
            let slot: usize = if k == 0 {
                0
            } else {
                k + 9
            };
            match self.terrain.pad_slot(slot) {
                None => {
                    done = true;
                },
                Some(marker) => {
                    let destination = if slot == 0 {
                        (8, 57, 2)
                    } else if slot == 15 {
                        (14, 32, 1)
                    } else {
                        (8, 26, 5)
                    };
                    self.rides.push(
                        Ride { pad_slot: slot, marker, destination, countdown: 0, rider: None },
                    );
                    k = k + 1;
                },
            }
        }
        assert(self@.rides =~= staged_rides(m0));
    }

    /// The ride pad trigger for robot `idx` (see [`pad_ride`]).
    fn pad_ride_trigger(&mut self, idx: usize)
        requires
            old(self).wf(),
            idx < old(self)@.robots.len(),
            pad_ride(old(self)@, idx as int) is Some,
        ensures
            final(self)@.robots.len() == old(self)@.robots.len(),
            final(self).wf(),
            final(self)@ == pad_ride(old(self)@, idx as int).unwrap(),
    {
        reveal(pad_ride);
        let ghost m0 = self@;
        if self.zone != 1 || self.mission_no != 1 || self.network_mode == 2 {
            return;
        }
        let r = self.robots[idx];
        let slot = match self.pad_slot_under(r) {
            None => return,
            Some(s) => s,
        };
        let mut k: usize = 0;
        let mut found = false;
        while k < self.rides.len() && !found
            invariant
                m0 == self@,
                k <= m0.rides.len(),
                forall|j: int| 0 <= j < k ==> m0.rides[j].pad_slot != slot,
                found ==> k < m0.rides.len() && m0.rides[k as int].pad_slot == slot,
            decreases m0.rides.len() - k + (if found { 0int } else { 1int }),
        {
            if self.rides[k].pad_slot == slot {
                found = true;
            } else {
                k = k + 1;
            }
        }
        if !found {
            proof {
                lemma_first_ride_none(m0.rides, slot as int, 0);
            }
            return;
        }
        proof {
            lemma_first_ride_some(m0.rides, slot as int, 0, k as int);
        }
        let ride = self.rides[k];
        if ride.rider.is_some() {
            return;
        }
        let mut ride2 = ride;
        ride2.rider = Some(idx);
        ride2.countdown = 10;
        self.rides.set(k, ride2);
        let mut r2 = r;
        r2.state = 2;
        r2.stop_dist = 0;
        r2.target = None;
        r2.pos_x = ride.marker.0.wrapping_shl(13) + 0x1000;
        r2.pos_y = ride.marker.1.wrapping_shl(13) + 0x1000;
        self.robots.set(idx, r2);
        assert(self@ =~= pad_ride(m0, idx as int).unwrap());
    }

    /// Write one mirror cell's word and seen byte.
    pub(crate) fn write_mirror_cell(&mut self, c: usize, word: u16, seen: u8)
        requires
            old(self).wf(),
            c < old(self)@.mirror_words.len(),
        ensures
            final(self).wf(),
            final(self)@ == (MissionView {
                mirror_words: old(self)@.mirror_words.update(c as int, word),
                mirror_seen: old(self)@.mirror_seen.update(c as int, seen),
                terrain_writes: journaled(old(self)@.terrain_writes, (c, word, seen)),
                ..old(self)@
            }),
    {
        self.mirror_words.set(c, word);
        self.mirror_seen.set(c, seen);
        match &mut self.terrain_writes {
            Some(w) => {
                w.push((c, word, seen));
            },
            None => {},
        }
    }

    /// The pickup fire at a latched cell (see [`fire_pickup_s`]).
    #[verifier::rlimit(40)]
    #[verifier::spinoff_prover]
    fn fire_pickup(&mut self, idx: usize, z: i32, tx: i32, ty: i32)
        requires
            old(self).wf(),
            idx < old(self)@.robots.len(),
            fire_pickup_s(old(self)@, idx as int, z, tx, ty) is Some,
        ensures
            final(self)@.robots.len() == old(self)@.robots.len(),
            final(self).wf(),
            final(self)@ == fire_pickup_s(old(self)@, idx as int, z, tx, ty).unwrap(),
    {
        reveal(fire_pickup_s);
        let ghost m0 = self@;
        let (w, _h) = self.terrain.size();
        if z < 0 || z >= 8 || tx < 0 || ty < 0 {
            return;
        }
        let tile = ty * w + tx;
        if tile < 0 {
            return;
        }
        let tile = tile as usize;
        let c = tile * 8 + z as usize;
        let word = self.mirror_word(tile, z as usize);
        if self.zone < 1 {
            return;
        }
        let set = (self.zone - 1) as usize;
        let case = match pickup_case(word as i32, set) {
            None => return,
            Some(k) => k,
        };
        let floor = PICKUP_FLOOR_WORD[set];
        self.terrain.dat_write(tx, ty, z, 0);
        if c < self.mirror_words.len() {
            self.write_mirror_cell(c, floor as u16, 1);
        }
        let ghost m1 = self@;
        assert(m1 =~= (if (c as int) < m0.mirror_words.len() {
            (MissionView {
                terrain: m1.terrain,
                mirror_words: m0.mirror_words.update(c as int, floor as u16),
                mirror_seen: m0.mirror_seen.update(c as int, 1),
                terrain_writes: journaled(m0.terrain_writes, (c, floor as u16, 1u8)),
                ..m0
            })
        } else {
            (MissionView { terrain: m1.terrain, ..m0 })
        }));
        self.apply_pickup(idx, case);
    }

    /// The armor pass of robot `idx` (see [`armor_pass`]).
    fn armor_pass_exec(&mut self, idx: usize)
        requires
            old(self).wf(),
            idx < old(self)@.robots.len(),
            armor_pass(old(self)@, idx as int) is Some,
        ensures
            final(self)@.robots.len() == old(self)@.robots.len(),
            final(self).wf(),
            final(self)@ == armor_pass(old(self)@, idx as int).unwrap(),
    {
        reveal(armor_pass);
        let r = self.robots[idx];
        let (tx, ty) = r.tile();
        let (w, _h) = self.terrain.size();
        let lin = ty * w + tx;
        let pad = self.armor_pad_byte(if lin < 0 {
            0
        } else {
            lin as usize
        });
        let mut r2 = r;
        if pad != 0 {
            if r.armor_pool != 0 {
                let p = r.armor_pool - ARMOR_CHARGE;
                r2.armor_pool = if p > 0 {
                    p
                } else {
                    0
                };
            } else {
                let a = r.armor.wrapping_add(ARMOR_CHARGE as i16);
                r2.armor = if a > ARMOR_MAX {
                    ARMOR_MAX
                } else {
                    a
                };
            }
        } else {
            let a = r.armor.wrapping_sub(ARMOR_BLEED);
            r2.armor = if a < 0 {
                0
            } else {
                a
            };
        }
        self.robots.set(idx, r2);
    }

    /// Order consumption for robot `idx` (see [`consume_order`]).
    fn consume_order_exec(&mut self, idx: usize)
        requires
            old(self).wf(),
            idx < old(self)@.robots.len(),
            consume_order(old(self)@, idx as int) is Some,
        ensures
            final(self)@.robots.len() == old(self)@.robots.len(),
            final(self).wf(),
            final(self)@ == consume_order(old(self)@, idx as int).unwrap(),
    {
        reveal(consume_order);
        let ghost m0 = self@;
        let o = match self.order {
            None => return,
            Some(o) => o,
        };
        let r = self.robots[idx];
        if r.state == STATE_ORDERED || r.state == STATE_MOVING || r.state == 5 {
            return;
        }
        let (qx, qy) = r.q5();
        let cx = o.tile.0 * Q5_PER_TILE + 0x10;
        let cy = o.tile.1 * Q5_PER_TILE + 0x10;
        if dist_octagonal(qx - cx, qy - cy) >= ORDER_RADIUS {
            return;
        }
        let mut sl: usize = 0;
        while sl < 12 && o.claims[sl]
            invariant
                sl <= 12,
                first_free(o.claims, 0) == first_free(o.claims, sl as nat),
            decreases 12 - sl,
        {
            sl = sl + 1;
        }
        if sl >= 12 {
            return;
        }
        let (ox, oy) = SPREAD_OFFSETS[sl];
        let dx = o.tile.0 + ox;
        let dy = o.tile.1 + oy;
        let mut claims = o.claims;
        claims[sl] = true;
        assert(claims =~= claim_set(o.claims, sl as int));
        self.order = Some(Order { claims, ..o });
        let mut r2 = r;
        r2.state = STATE_MOVING;
        r2.stop_dist = ORDER_STOP_DIST;
        r2.target = Some((dx * Q5_PER_TILE, dy * Q5_PER_TILE));
        self.robots.set(idx, r2);
        assert(self@ =~= consume_order(m0, idx as int).unwrap());
    }

    /// The move-toward-target step of robot `idx` (see [`move_toward`]).
    fn move_toward_exec(&mut self, idx: usize)
        requires
            old(self).wf(),
            idx < old(self)@.robots.len(),
            move_toward(old(self)@, idx as int) is Some,
        ensures
            final(self)@.robots.len() == old(self)@.robots.len(),
            final(self).wf(),
            final(self)@ == move_toward(old(self)@, idx as int).unwrap(),
    {
        reveal(move_toward);
        let ghost m0 = self@;
        let r = self.robots[idx];
        if r.state != STATE_MOVING && r.state != 1 {
            return;
        }
        let (tqx, tqy) = match r.target {
            None => return,
            Some(t) => t,
        };
        let (qx, qy) = r.q5();
        let dxq = tqx - qx;
        let dyq = tqy - qy;
        let sx = dxq.wrapping_shl(8);
        let sy = dyq.wrapping_shl(8);
        let d = dist_octagonal(sx, sy);
        let dist_raw = if d < 1 {
            1
        } else {
            d
        };
        let angle = self.angles.angle_byte(sx, sy);
        if dist_raw > r.stop_dist || dist_raw < ARRIVE_RADIUS {
            let mut r2 = r;
            if r.state == STATE_MOVING {
                r2.state = STATE_ORDERED;
                r2.pos_x = r.pos_x & !0x1FFFi32;
                r2.pos_y = r.pos_y & !0x1FFFi32;
            } else {
                r2.state = STATE_IDLE;
                r2.stop_dist = 0;
                r2.target = None;
            }
            self.robots.set(idx, r2);
            return;
        }
        let dist = if dist_raw > 0xFFFF {
            0xFFFF
        } else {
            dist_raw
        };
        let vx = div_trunc(dxq.wrapping_shl(16), dist).wrapping_shl(2);
        let vy = div_trunc(dyq.wrapping_shl(16), dist).wrapping_shl(2);
        self.terrain.set_trigger(None);
        let mut r2 = r;
        crate::movement::robot_move(&mut self.terrain, &mut r2, vx, vy, angle);
        self.robots.set(idx, r2);
        match self.terrain.trigger() {
            None => {},
            Some((lz, ltx, lty)) => {
                self.fire_pickup(idx, lz, ltx, lty);
            },
        }
    }

    /// One robot's pass in a phase (see [`robot_pass`]).
    fn robot_pass_exec(&mut self, phase: i32, idx: usize)
        requires
            old(self).wf(),
            0 <= phase < 6,
            idx < old(self)@.robots.len(),
            robot_pass(old(self)@, phase, idx as int) is Some,
        ensures
            final(self)@.robots.len() == old(self)@.robots.len(),
            final(self).wf(),
            final(self)@ == robot_pass(old(self)@, phase, idx as int).unwrap(),
    {
        let r = self.robots[idx];
        if !r.alive || !(phase < 4 || phase * 32 < r.drop_countdown) {
            return;
        }
        if phase == 1 {
            self.armor_pass_exec(idx);
            proof {
                lemma_trapped_keeps_robots(self@, idx as int);
            }
            let _ = self.robot_trap_lane(idx);
        }
        let r1 = self.robots[idx];
        if (r1.state == 1 || r1.state == STATE_MOVING) && r1.target.is_some() {
            self.pad_ride_trigger(idx);
            if self.robots[idx].state != 2 {
                self.pad_extraction_trigger(idx);
            }
        }
        self.consume_order_exec(idx);
        self.move_toward_exec(idx);
    }

    /// The phase-0 pre-walk over every robot (see [`prewalk`]).
    fn prewalk_exec(&mut self)
        requires
            old(self).wf(),
            prewalk(old(self)@) is Some,
        ensures
            final(self).wf(),
            final(self)@ == prewalk(old(self)@).unwrap(),
    {
        let ghost m0 = self@;
        let n = self.robots.len();
        let mut i: usize = 0;
        while i < n
            invariant
                n == m0.robots.len(),
                i <= n,
                self.wf(),
                forall|j: int| 0 <= j < n ==> prewalk_robot(#[trigger] m0.robots[j]) is Some,
                self@ == (MissionView { robots: self@.robots, ..m0 }),
                self@.robots.len() == n,
                forall|j: int| 0 <= j < i ==> self@.robots[j] == prewalk_robot(m0.robots[j]).unwrap(),
                forall|j: int| i <= j < n ==> self@.robots[j] == m0.robots[j],
            decreases n - i,
        {
            let mut r = self.robots[i];
            assert(prewalk_robot(m0.robots[i as int]) is Some);
            if r.alarm != 0 {
                r.alarm = r.alarm - 1;
            }
            if r.alarm_ctr != 0 {
                r.alarm_ctr = r.alarm_ctr - 1;
            }
            if r.shield != 0 {
                r.shield = r.shield - SHIELD_DECAY;
                if r.shield < 0 {
                    r.shield = 0;
                }
            }
            if r.shield_boost != 0 {
                r.shield = SHIELD_BOOST_POOL;
                r.shield_boost = r.shield_boost - 1;
                if r.shield_boost < 1 {
                    r.shield_boost = 0;
                    r.shield = SHIELD_BOOST_LEFTOVER;
                }
            }
            self.robots.set(i, r);
            i = i + 1;
        }
        assert(self@ =~= prewalk(m0).unwrap());
    }

    /// One unit-manager phase (see [`phase_result`]).
    fn robots_phase(&mut self, phase: i32)
        requires
            old(self).wf(),
            0 <= phase < 6,
            phase_result(old(self)@, phase) is Some,
        ensures
            final(self).wf(),
            final(self)@ == phase_result(old(self)@, phase).unwrap(),
    {
        let ghost m0 = self@;
        if phase == 0 {
            self.prewalk_exec();
        }
        let n = self.robots.len();
        let mut idx: usize = 0;
        while idx < n
            invariant
                self.wf(),
                0 <= phase < 6,
                idx <= n,
                n == self@.robots.len(),
                passes_from(self@, phase, idx as nat, n as nat) == phase_result(m0, phase),
                phase_result(m0, phase) is Some,
            decreases n - idx,
        {
            self.robot_pass_exec(phase, idx);
            idx = idx + 1;
        }
    }

    /// The ride ticks (see [`rides_from`]).
    fn ride_tick(&mut self)
        requires
            old(self).wf(),
            rides_from(old(self)@, 0, old(self)@.rides.len()) is Some,
        ensures
            final(self).wf(),
            final(self)@ == rides_from(old(self)@, 0, old(self)@.rides.len()).unwrap(),
    {
        let ghost m0 = self@;
        let n = self.rides.len();
        let mut i: usize = 0;
        while i < n
            invariant
                self.wf(),
                i <= n,
                n == self@.rides.len(),
                rides_from(self@, i as nat, n as nat) == rides_from(m0, 0, m0.rides.len()),
                rides_from(m0, 0, m0.rides.len()) is Some,
            decreases n - i,
        {
            let ghost mi = self@;
            let ride = self.rides[i];
            if ride.countdown != 0 {
                let c = ride.countdown - 1;
                let mut ride2 = ride;
                ride2.countdown = c;
                if c == 0 {
                    ride2.rider = None;
                }
                self.rides.set(i, ride2);
                if c == 0 {
                    match ride.rider {
                        None => {},
                        Some(k) => {
                            let (x, y, z) = ride.destination;
                            let height = self.terrain.floor_z(x.wrapping_shl(5), y.wrapping_shl(5), z * 32 - 1);
                            let hz = height as u16;
                            let mut r = self.robots[k];
                            r.pos_x = x.wrapping_shl(13);
                            r.pos_y = y.wrapping_shl(13);
                            r.z = height;
                            r.probe_z = [hz; 8];
                            r.state = 0;
                            assert(r.probe_z =~= [hz, hz, hz, hz, hz, hz, hz, hz]);
                            self.robots.set(k, r);
                        },
                    }
                }
            }
            assert(self@ =~= ride_step(mi, i as int).unwrap());
            i = i + 1;
        }
    }

    /// The landing's extraction sweep (see [`extraction_sweep_s`]).
    fn extraction_sweep(&mut self)
        requires
            old(self).wf(),
            extraction_sweep_s(old(self)@) is Some,
        ensures
            final(self).wf(),
            final(self)@ == extraction_sweep_s(old(self)@).unwrap(),
    {
        reveal(extraction_sweep_s);
        let ghost m0 = self@;
        let n = self.robots.len();
        let mut i: usize = 0;
        while i < n
            invariant
                n == m0.robots.len(),
                i <= n,
                self.wf(),
                fits32(m0.extracted + sweep_count(m0.robots)),
                self@ == (MissionView { robots: self@.robots, extracted: self@.extracted, ..m0 }),
                self@.robots.len() == n,
                self@.extracted == m0.extracted + sweep_count(m0.robots.subrange(0, i as int)),
                sweep_count(m0.robots.subrange(0, i as int)) <= sweep_count(m0.robots),
                forall|j: int|
                    0 <= j < i ==> self@.robots[j] == (if swept(m0.robots[j]) {
                        Robot { state: 5, stop_dist: 1_000_000, ..m0.robots[j] }
                    } else {
                        m0.robots[j]
                    }),
                forall|j: int| i <= j < n ==> self@.robots[j] == m0.robots[j],
            decreases n - i,
        {
            proof {
                assert(m0.robots.subrange(0, i + 1).drop_last() =~= m0.robots.subrange(0, i as int));
                lemma_sweep_count_prefix(m0.robots, i + 1);
            }
            let mut r = self.robots[i];
            if r.alive && (r.state == STATE_ORDERED || r.state == STATE_MOVING) {
                r.state = 5;
                r.stop_dist = 1_000_000;
                self.robots.set(i, r);
                self.extracted = self.extracted + 1;
            }
            i = i + 1;
        }
        assert(m0.robots.subrange(0, n as int) =~= m0.robots);
        assert(self@ =~= extraction_sweep_s(m0).unwrap());
    }

    /// The dropship's tick (see [`dropship_tick_s`]).
    fn dropship_tick(&mut self)
        requires
            old(self).wf(),
            dropship_tick_s(old(self)@) is Some,
        ensures
            final(self).wf(),
            final(self)@ == dropship_tick_s(old(self)@).unwrap(),
    {
        let ghost m0 = self@;
        if !self.dropship.active {
            return;
        }
        let mut d = self.dropship;
        if d.phase == 1 {
            d.group = (d.group + 1) & 1;
            if d.alt >= 0x101 {
                d.alt = d.alt - 0x20;
            } else {
                d.alt = (d.alt >> 2u32) * 3;
            }
            if d.alt < 1 {
                d.alt = 0;
                d.phase = 2;
                d.dwell = 10;
                self.dropship = d;
                self.extraction_sweep();
            } else {
                self.dropship = d;
            }
        } else if d.phase == 2 {
            let draw = self.rand_a();
            d.alt = if draw & 7 == 0 {
                1
            } else {
                0
            };
            d.group = d.group ^ 1;
            d.dwell = d.dwell - 1;
            if d.dwell == 0 {
                d.phase = 3;
            }
            self.dropship = d;
        } else if d.phase == 3 {
            d.alt = d.alt + (d.alt >> 2u32) + 1;
            d.x = d.x - d.group * 4;
            d.group = if d.group < 5 {
                d.group + 1
            } else {
                4
            };
            self.dropship = d;
            if d.alt > 0x200 {
                self.dropship.active = false;
                self.extraction_complete = true;
            }
        }
        assert(self@ =~= dropship_tick_s(m0).unwrap());
    }

    /// The order-window tick and the beacon deploy (see
    /// [`beacon_block`]).
    fn beacon_tick(&mut self)
        requires
            old(self).wf(),
        ensures
            final(self).wf(),
            final(self)@ == beacon_block(old(self)@),
    {
        let ghost m0 = self@;
        let o = match self.order {
            None => return,
            Some(o) => o,
        };
        let w = if o.window != 0 {
            o.window - 1
        } else {
            0
        };
        let o2 = Order { window: w, ..o };
        let mut settled = true;
        let mut i: usize = 0;
        while i < self.robots.len()
            invariant
                self@ == m0,
                i <= m0.robots.len(),
                settled == forall|j: int|
                    0 <= j < i ==> !(#[trigger] m0.robots[j]).alive || m0.robots[j].state
                        == STATE_ORDERED,
            decreases m0.robots.len() - i,
        {
            let r = self.robots[i];
            if r.alive && r.state != STATE_ORDERED {
                settled = false;
            }
            i = i + 1;
        }
        if w == 0 || settled {
            if self.order_pad_armed {
                if !self.dropship.active {
                    self.order = None;
                    self.dropship = CraftRecord {
                        active: true,
                        phase: 1,
                        x: o2.tile.0.wrapping_shl(5),
                        y: o2.tile.1.wrapping_shl(5),
                        alt: 0x200,
                        group: 0,
                        dwell: 0,
                    };
                    self.beacon_claims_latch = o2.claims;
                    self.order_pad_armed = false;
                } else {
                    self.order = Some(o2);
                }
            } else {
                self.order = None;
            }
        } else {
            self.order = Some(o2);
        }
        assert(self@ =~= beacon_block(m0));
    }

    /// The per-frame armor-pad fade and hit-flash decay.
    fn epilogue_decay(&mut self)
        requires
            old(self).wf(),
        ensures
            final(self).wf(),
            final(self)@ == (MissionView {
                armor_pads: faded(old(self)@.armor_pads),
                robots: Seq::new(old(self)@.robots.len(), |i: int| flash_decayed(old(self)@.robots[i])),
                ..old(self)@
            }),
    {
        let ghost m0 = self@;
        let n = self.armor_pads.len();
        let mut i: usize = 0;
        while i < n
            invariant
                n == m0.armor_pads.len(),
                i <= n,
                self.wf(),
                self@ == (MissionView { armor_pads: self@.armor_pads, ..m0 }),
                self@.armor_pads.len() == n,
                forall|j: int| 0 <= j < i ==> self@.armor_pads[j] == faded(m0.armor_pads)[j],
                forall|j: int| i <= j < n ==> self@.armor_pads[j] == m0.armor_pads[j],
            decreases n - i,
        {
            let b = self.armor_pads[i];
            if b != 0 {
                self.armor_pads.set(i, b - 1);
            }
            i = i + 1;
        }
        assert(self@.armor_pads =~= faded(m0.armor_pads));
        let ghost m1 = self@;
        let rn = self.robots.len();
        let mut k: usize = 0;
        while k < rn
            invariant
                rn == m1.robots.len(),
                k <= rn,
                self.wf(),
                self@ == (MissionView { robots: self@.robots, ..m1 }),
                self@.robots.len() == rn,
                forall|j: int| 0 <= j < k ==> self@.robots[j] == flash_decayed(m1.robots[j]),
                forall|j: int| k <= j < rn ==> self@.robots[j] == m1.robots[j],
            decreases rn - k,
        {
            let mut r = self.robots[k];
            if r.alive && r.hp >= 1 && r.hit_flash != 0 {
                r.hit_flash = (if r.hit_flash > 5 {
                    5
                } else {
                    r.hit_flash
                }) - 1;
                self.robots.set(k, r);
            }
            k = k + 1;
        }
        assert(self@ =~= (MissionView {
            armor_pads: faded(m0.armor_pads),
            robots: Seq::new(m0.robots.len(), |i: int| flash_decayed(m0.robots[i])),
            ..m0
        }));
    }

    /// The POI move gate for POI `idx` by `(dx, dy)` (see
    /// [`poi_gate_s`]): true when the target floor is within 4 of the
    /// POI's z, which then takes it.
    pub fn poi_gate(&mut self, idx: usize, dx: i32, dy: i32) -> (ok: bool)
        requires
            old(self).wf(),
            idx < old(self)@.pois.len(),
            poi_gate_s(old(self)@.terrain, old(self)@.pois[idx as int], dx, dy) is Some,
        ensures
            fits32(old(self)@.pois[idx as int].x + dx),
            fits32(old(self)@.pois[idx as int].y + dy),
            final(self)@.pois[idx as int] == (PoiRecord {
                z: final(self)@.pois[idx as int].z,
                ..old(self)@.pois[idx as int]
            }),
            final(self)@.pois.len() == old(self)@.pois.len(),
            final(self).wf(),
            ({
                let g = poi_gate_s(old(self)@.terrain, old(self)@.pois[idx as int], dx, dy).unwrap();
                &&& ok == g.0
                &&& final(self)@ == (MissionView {
                    terrain: g.1,
                    pois: old(self)@.pois.update(idx as int, g.2),
                    ..old(self)@
                })
            }),
    {
        reveal(poi_gate_s);
        let ghost m0 = self@;
        let p = self.pois[idx];
        let floor = self.terrain.floor_z((p.x + dx) >> 8u32, (p.y + dy) >> 8u32, p.z);
        let diff = floor - p.z;
        if -4 <= diff && diff <= 4 {
            let mut p2 = p;
            p2.z = floor;
            self.pois.set(idx, p2);
            assert(self@ =~= (MissionView {
                terrain: self@.terrain,
                pois: m0.pois.update(idx as int, p2),
                ..m0
            }));
            true
        } else {
            assert(m0.pois.update(idx as int, p) =~= m0.pois);
            false
        }
    }

    /// A gated step (see [`poi_try`]).
    fn poi_try_exec(&mut self, idx: usize, d: (i32, i32), w: Option<i32>) -> (ok: bool)
        requires
            old(self).wf(),
            idx < old(self)@.pois.len(),
            poi_try(old(self)@.terrain, old(self)@.pois[idx as int], d, w) is Some,
        ensures
            final(self).wf(),
            ({
                let g = poi_try(old(self)@.terrain, old(self)@.pois[idx as int], d, w).unwrap();
                &&& ok == g.0
                &&& final(self)@ == (MissionView {
                    terrain: g.1,
                    pois: old(self)@.pois.update(idx as int, g.2),
                    ..old(self)@
                })
            }),
    {
        reveal(poi_try);
        let ghost m0 = self@;
        if self.poi_gate(idx, d.0, d.1) {
            let mut p = self.pois[idx];
            p.x = p.x + d.0;
            p.y = p.y + d.1;
            match w {
                Some(wd) => {
                    p.draw_word = wd;
                },
                None => {},
            }
            self.pois.set(idx, p);
            assert(self@ =~= (MissionView {
                terrain: self@.terrain,
                pois: m0.pois.update(idx as int, p),
                ..m0
            }));
            true
        } else {
            false
        }
    }

    /// The quadrant ladder (see [`poi_ladder`]).
    fn poi_ladder_exec(
        &mut self,
        idx: usize,
        first: (i32, i32),
        cond: bool,
        a: ((i32, i32), i32),
        b: ((i32, i32), i32),
    )
        requires
            old(self).wf(),
            idx < old(self)@.pois.len(),
            poi_ladder(old(self)@.terrain, old(self)@.pois[idx as int], first, cond, a, b) is Some,
        ensures
            final(self).wf(),
            ({
                let g = poi_ladder(old(self)@.terrain, old(self)@.pois[idx as int], first, cond, a, b).unwrap();
                final(self)@ == (MissionView {
                    terrain: g.0,
                    pois: old(self)@.pois.update(idx as int, g.1),
                    ..old(self)@
                })
            }),
    {
        reveal(poi_ladder);
        let ghost m0 = self@;
        let (x, y) = if cond {
            (a, b)
        } else {
            (b, a)
        };
        if self.poi_try_exec(idx, first, None) {
            return;
        }
        if self.poi_try_exec(idx, x.0, Some(x.1)) {
            assert(self@ =~= (MissionView {
                terrain: self@.terrain,
                pois: m0.pois.update(idx as int, self@.pois[idx as int]),
                ..m0
            }));
            return;
        }
        self.poi_try_exec(idx, y.0, Some(y.1));
        assert(self@ =~= (MissionView {
            terrain: self@.terrain,
            pois: m0.pois.update(idx as int, self@.pois[idx as int]),
            ..m0
        }));
    }

    /// The POI walker (see [`poi_walk_s`]).
    fn poi_walk(&mut self, idx: usize, dx: i32, dy: i32)
        requires
            old(self).wf(),
            idx < old(self)@.pois.len(),
            poi_walk_s(old(self)@.terrain, old(self)@.pois[idx as int], dx, dy) is Some,
        ensures
            final(self).wf(),
            ({
                let g = poi_walk_s(old(self)@.terrain, old(self)@.pois[idx as int], dx, dy).unwrap();
                final(self)@ == (MissionView {
                    terrain: g.0,
                    pois: old(self)@.pois.update(idx as int, g.1),
                    ..old(self)@
                })
            }),
    {
        let ghost m0 = self@;
        let angle = self.pois[idx].heading;
        if self.poi_gate(idx, dx, dy) {
            let mut p = self.pois[idx];
            p.x = p.x + dx;
            p.y = p.y + dy;
            p.draw_word = (angle + 0x20) & 0xC0;
            self.pois.set(idx, p);
        } else {
            let dw = self.pois[idx].draw_word;
            if dw == 0 {
                self.poi_ladder_exec(idx, (0, -0x200), angle < 0x80, ((0x200, 0), 0x40), ((-0x200, 0), 0xC0));
            } else if dw == 0x40 {
                self.poi_ladder_exec(idx, (0x200, 0), dx > 0x80, ((0, 0x200), 0x80), ((0, -0x200), 0));
            } else if dw == 0x80 {
                self.poi_ladder_exec(idx, (0, 0x200), angle < 0x80, ((0x200, 0), 0x40), ((-0x200, 0), 0xC0));
            } else if dw == 0xC0 {
                self.poi_ladder_exec(idx, (-0x200, 0), dx > 0x80, ((0, 0x200), 0x80), ((0, -0x200), 0));
            }
        }
        let mut p = self.pois[idx];
        p.heading = p.draw_word;
        self.pois.set(idx, p);
        assert(self@ =~= (MissionView {
            terrain: self@.terrain,
            pois: m0.pois.update(idx as int, p),
            ..m0
        }));
    }

    /// The walk steps of a heading (see [`walk_vector`]).
    fn poi_walk_vector(&self, heading: i32) -> (v: (i32, i32))
        requires
            self.wf(),
        ensures
            v == walk_vector(self@.angles, heading),
    {
        proof {
            lemma_sim_view(self);
        }
        match crate::brain::sine_pair_exec(&self.angles, heading) {
            Some((c, sn)) => (c >> 6u32, sn >> 6u32),
            None => (0, 0),
        }
    }

    /// The 32-sector aim of a delta (see [`sector_aim`]).
    pub(crate) fn poi_sector_aim(&self, dx: i32, dy: i32) -> (a: i32)
        requires
            self.wf(),
        ensures
            a == sector_aim(self@.angles, dx, dy),
    {
        let dir = self.angles.angle_byte(dx, dy) as i32;
        ((((dir + 0xF) & 0xFF) >> 5u32) & 7) << 5u32
    }


    /// The nearest active exit to a POI (see [`nearest_exit_from`]).
    fn poi_nearest_exit(&self, p: PoiRecord) -> (r: (i32, i32))
        requires
            self.wf(),
            nearest_exit_from(self@.poi_exits, p, 0, ((-1int) as i32, 0x989680i32)) is Some,
        ensures
            r == nearest_exit_from(self@.poi_exits, p, 0, ((-1int) as i32, 0x989680i32)).unwrap(),
            r.0 < 5,
    {
        let mut best: (i32, i32) = (-1, 0x989680);
        let mut slot: usize = 0;
        while slot < 5
            invariant
                slot <= 5,
                self.wf(),
                nearest_exit_from(self@.poi_exits, p, slot as nat, best) == nearest_exit_from(
                    self@.poi_exits,
                    p,
                    0,
                    ((-1int) as i32, 0x989680i32),
                ),
                nearest_exit_from(self@.poi_exits, p, 0, ((-1int) as i32, 0x989680i32)) is Some,
                best.0 < 5,
            decreases 5 - slot,
        {
            let e = self.poi_exits[slot];
            if e.active {
                let d = dist_octagonal(e.x - (p.x >> 8u32), e.y - (p.y >> 8u32));
                if d < best.1 {
                    best = (slot as i32, d);
                }
            }
            slot = slot + 1;
        }
        best
    }

    /// The nearest alive robot to `(px, py)` (see
    /// [`nearest_robot_from`]).
    pub(crate) fn nearest_robot(&self, px: i32, py: i32) -> (r: (i32, i32))
        requires
            nearest_robot_from(self@.robots, px, py, 0, ((-1int) as i32, 0x989680i32)) is Some,
        ensures
            r == nearest_robot_from(self@.robots, px, py, 0, ((-1int) as i32, 0x989680i32)).unwrap(),
            r.0 < self@.robots.len(),
            r.0 >= 0 ==> fits32(self@.robots[r.0 as int].pos_x - px) && fits32(
                self@.robots[r.0 as int].pos_y - py,
            ),
    {
        let mut best: (i32, i32) = (-1, 0x989680);
        let mut i: usize = 0;
        assert(best.0 < i as int + 0);
        while i < self.robots.len()
            invariant
                i <= self@.robots.len(),
                nearest_robot_from(self@.robots, px, py, i as nat, best) == nearest_robot_from(
                    self@.robots,
                    px,
                    py,
                    0,
                    ((-1int) as i32, 0x989680i32),
                ),
                nearest_robot_from(self@.robots, px, py, 0, ((-1int) as i32, 0x989680i32)) is Some,
                best.0 < i,
                best.0 >= 0 ==> fits32(self@.robots[best.0 as int].pos_x - px) && fits32(
                    self@.robots[best.0 as int].pos_y - py,
                ),
            decreases self@.robots.len() - i,
        {
            let r = self.robots[i];
            if r.alive {
                let d = dist_octagonal(r.pos_x - px, r.pos_y - py);
                if d < best.1 {
                    best = (i as i32, d);
                }
            }
            i = i + 1;
        }
        best
    }

    /// POI `i`'s walk by its heading's vector (see [`poi_walk_step`]).
    fn poi_walk_step_exec(&mut self, i: usize)
        requires
            old(self).wf(),
            i < old(self)@.pois.len(),
            poi_walk_step(old(self)@, i as int) is Some,
        ensures
            final(self)@.pois.len() == old(self)@.pois.len(),
            final(self).wf(),
            final(self)@ == poi_walk_step(old(self)@, i as int).unwrap(),
    {
        reveal(poi_walk_step);
        let ghost m0 = self@;
        let h = self.pois[i].heading;
        let (dx, dy) = self.poi_walk_vector(h);
        self.poi_walk(i, dx, dy);
    }

    /// The walk-out gate (see [`poi_walk_out`]).
    fn poi_walk_out_exec(&mut self, i: usize)
        requires
            old(self).wf(),
            i < old(self)@.pois.len(),
        ensures
            final(self).wf(),
            final(self)@.pois.len() == old(self)@.pois.len(),
            final(self)@ == poi_walk_out(old(self)@, i as int),
    {
        reveal(poi_walk_out);
        let ghost m0 = self@;
        if self.rand_a() & 0xF != 0 {
            return;
        }
        let d2 = self.rand_a();
        let d3 = self.rand_a();
        assert(d2 & 0xF <= 0xF && d3 & 7 <= 7) by (bit_vector);
        let timer = ((d2 & 0xF) as i32) + 10;
        let heading = ((d3 & 7) as i32) << 5u32;
        let mut p = self.pois[i];
        p.state = 3;
        p.timer = timer;
        p.heading = heading;
        self.pois.set(i, p);
        assert(self@ =~= poi_walk_out(m0, i as int));
    }

    /// The idle machine (see [`poi_idle_s`]).
    fn poi_idle_exec(&mut self, i: usize, exit_dist: i32)
        requires
            old(self).wf(),
            i < old(self)@.pois.len(),
            poi_idle_s(old(self)@, i as int, exit_dist) is Some,
        ensures
            final(self)@.pois.len() == old(self)@.pois.len(),
            final(self).wf(),
            final(self)@ == poi_idle_s(old(self)@, i as int, exit_dist).unwrap(),
    {
        reveal(poi_idle_s);
        let ghost m0 = self@;
        let p = self.pois[i];
        if p.state == 1 {
            if p.timer <= 10 {
                let mut p2 = p;
                p2.timer = p.timer + 1;
                self.pois.set(i, p2);
                return;
            }
            if exit_dist >= SETTLE_DIST {
                self.poi_walk_out_exec(i);
                return;
            }
            if self.rand_a() & 0xF != 0 {
                self.poi_walk_out_exec(i);
                return;
            }
            let (best, _best_d) = self.nearest_robot(p.x, p.y);
            let mut p2 = p;
            p2.state = 2;
            p2.timer = 0;
            if best >= 0 {
                let r = self.robots[best as usize];
                p2.heading = self.poi_sector_aim(r.pos_x - p.x, r.pos_y - p.y);
            }
            self.pois.set(i, p2);
            assert(self@ =~= poi_idle_s(m0, i as int, exit_dist).unwrap());
        } else if p.state == 2 {
            let mut p2 = p;
            p2.timer = p.timer + 1;
            if p2.timer > 8 {
                p2.timer = 0;
                p2.state = 1;
            }
            self.pois.set(i, p2);
        } else if p.state == 3 {
            if p.timer == 0 {
                let mut p2 = p;
                p2.state = 1;
                self.pois.set(i, p2);
            } else {
                let mut p2 = p;
                p2.timer = p.timer - 1;
                self.pois.set(i, p2);
                self.poi_walk_step_exec(i);
            }
        }
    }

    /// The flee (see [`poi_flee_s`]).
    #[verifier::rlimit(80)]
    #[verifier::spinoff_prover]
    fn poi_flee_exec(&mut self, i: usize)
        requires
            old(self).wf(),
            i < old(self)@.pois.len(),
            poi_flee_s(old(self)@, i as int) is Some,
        ensures
            final(self)@.pois.len() == old(self)@.pois.len(),
            final(self).wf(),
            final(self)@ == poi_flee_s(old(self)@, i as int).unwrap(),
    {
        reveal(poi_flee_s);
        let ghost m0 = self@;
        let p = self.pois[i];
        let slot = p.exit_slot;
        let exit_ok = slot < 5 && self.poi_exits[slot].active && self.poi_exits[slot].phase == 2;
        if !exit_ok {
            let mut p2 = p;
            p2.timer = 0;
            p2.state = 1;
            self.pois.set(i, p2);
            return;
        }
        let e = self.poi_exits[slot];
        let ex = e.x.wrapping_shl(8);
        let ey = e.y.wrapping_shl(8);
        let aim = self.poi_sector_aim(ex - p.x, ey - p.y);
        let mut p2 = p;
        p2.heading = aim;
        self.pois.set(i, p2);
        self.poi_walk_step_exec(i);
        let mut q = self.pois[i];
        q.timer = q.timer - 1;
        if q.timer < 0 {
            q.timer = FLEE_FOREVER;
        }
        self.pois.set(i, q);
    }

    /// POI `i`'s controller tick (see [`poi_step`]).
    fn poi_step_exec(&mut self, i: usize)
        requires
            old(self).wf(),
            i < old(self)@.pois.len(),
            poi_step(old(self)@, i as int) is Some,
        ensures
            final(self).wf(),
            final(self)@ == poi_step(old(self)@, i as int).unwrap(),
            final(self)@.pois.len() == old(self)@.pois.len(),
    {
        let ghost m0 = self@;
        let p0 = self.pois[i];
        if !p0.active {
            return;
        }
        let z2 = self.terrain.floor_z(p0.x >> 8u32, p0.y >> 8u32, p0.z);
        let mut p = p0;
        p.z = z2;
        self.pois.set(i, p);
        let ghost m = self@;
        let (scan_idx, scan_dist) = self.poi_nearest_exit(p);
        let state = p.state;
        if 1 <= state && state <= 3 {
            let roll = self.rand_a() & 0xF;
            if roll == 0 && scan_dist < FLEE_DIST && scan_idx >= 0 && self.poi_exits[scan_idx as usize].phase == 2 {
                let mut p2 = p;
                p2.state = 4;
                p2.exit_slot = scan_idx as usize;
                self.pois.set(i, p2);
            } else {
                self.poi_idle_exec(i, scan_dist);
            }
        } else if state == 4 {
            let slot = p.exit_slot;
            if scan_dist < ARRIVE_DIST && self.poi_exits[slot].phase == 2 {
                let mut p2 = p;
                p2.state = 5;
                p2.timer = -1;
                self.pois.set(i, p2);
            } else {
                self.poi_flee_exec(i);
            }
        } else if state == 5 {
            let mut p2 = p;
            p2.timer = p.timer + 1;
            if p2.timer >= 10 {
                p2.active = false;
                let slot = p2.exit_slot;
                self.poi_escapes = self.poi_escapes + 1;
                self.poi_panic = PANIC_TIMER;
                if slot < 5 {
                    self.poi_exits[slot].dwell = 0;
                }
                self.score_pending = self.score_pending + ESCAPE_AWARD;
            }
            self.pois.set(i, p2);
        } else if state == 6 {
            let mut p2 = p;
            p2.timer = p.timer + 1;
            if p2.timer > 5 {
                p2.state = 7;
            }
            self.pois.set(i, p2);
        } else if state == 7 {
            let mut p2 = p;
            p2.timer = 0;
            self.pois.set(i, p2);
        }
        assert(self@ =~= poi_step(m0, i as int).unwrap());
    }

    /// The personnel controller over every POI (see [`pois_from`]).
    fn poi_tick(&mut self)
        requires
            old(self).wf(),
            pois_from(old(self)@, 0, old(self)@.pois.len()) is Some,
        ensures
            final(self).wf(),
            final(self)@ == pois_from(old(self)@, 0, old(self)@.pois.len()).unwrap(),
    {
        let ghost m0 = self@;
        let n = self.pois.len();
        let mut i: usize = 0;
        while i < n
            invariant
                self.wf(),
                i <= n,
                n == self@.pois.len(),
                pois_from(self@, i as nat, n as nat) == pois_from(m0, 0, m0.pois.len()),
                pois_from(m0, 0, m0.pois.len()) is Some,
            decreases n - i,
        {
            self.poi_step_exec(i);
            i = i + 1;
        }
    }

    /// One frame (see [`frame_result`]): the critter and personnel
    /// controllers when armed, the six unit-manager phases, the ride ticks, the debris
    /// tick, the armor-pad
    /// fade and hit-flash decay, the dropship, the fence timers, the
    /// platform creep tick when armed, the order window and its beacon deploy, then the frame
    /// counter.
    pub fn advance_frame(&mut self)
        requires
            old(self).wf(),
            frame_result(old(self)@) is Some,
        ensures
            final(self).wf(),
            final(self)@ == frame_result(old(self)@).unwrap(),
    {
        let ghost m0 = self@;
        if self.critter_family_armed {
            proof {
                lemma_sim_view(self);
            }
            self.critter_tick();
            self.poi_tick();
        }
        let ghost m1 = self@;
        let mut phase: usize = 0;
        while phase < 6
            invariant
                self.wf(),
                phase <= 6,
                phases_from(self@, phase as nat) == phases_from(m1, 0),
                phases_from(m1, 0) is Some,
            decreases 6 - phase,
        {
            self.robots_phase(phase as i32);
            phase = phase + 1;
        }
        self.ride_tick();
        self.debris_tick();
        self.epilogue_decay();
        self.dropship_tick();
        self.fence_tick();
        if self.platform_family_armed {
            proof {
                lemma_sim_view(self);
            }
            self.platform_creep_tick();
        }
        self.beacon_tick();
        self.frame = self.frame + 1;
    }
}

} // verus!
