//! Personnel (POI) records and the exit slots they flee to.
//!
//! Idle personnel wander; an open exit pad within reach sends them
//! fleeing to it; arrival is an escape (the counter plus a 5000-point
//! award). Damage can kill a POI, which then runs a short panic tail.
//! Positions are Q13 (0x2000 per tile), z is Q5; the exit-slot x/y are
//! raw pixels, compared against `poi.x >> 8`.

use vstd::prelude::*;

verus! {

/// POI bank capacity (0xF00 bytes at a 0x1E stride).
pub const POI_SLOTS: usize = 128;

/// Number of exit slots.
pub const EXIT_SLOTS: usize = 5;

/// The head-lane distance gate: an open exit within this octagonal
/// distance (pixels) can start a flee.
pub const FLEE_DIST: i32 = 0x180;

/// The idle settle/walk-out split distance.
pub const SETTLE_DIST: i32 = 0xC0;

/// The flee-arrival gate: the escape begins within this distance.
pub const ARRIVE_DIST: i32 = 0x10;

/// The panic timer stamped by every escape.
pub const PANIC_TIMER: i32 = 0x32;

/// The never-expiring flee budget.
pub const FLEE_FOREVER: i32 = 0x2710;

/// The escape award.
pub const ESCAPE_AWARD: i32 = 5000;

/// One personnel record.
#[derive(Debug, Clone, Copy, PartialEq, Eq, Default)]
pub struct PoiRecord {
    /// 0 skips the record; cleared when the POI has escaped.
    pub active: bool,
    /// Hit points (spawned 50).
    pub hp: i16,
    /// 1 idle, 2 settle, 3 walk-out, 4 flee, 5 escape, 6/7 panic.
    pub state: u16,
    /// Heading word; the walk steps read it as a byte angle.
    pub heading: i32,
    /// Per-state counter (idle ramp, settle, walk budget, flee budget,
    /// escape countdown, panic counter).
    pub timer: i32,
    /// The exit slot a flee aims at.
    pub exit_slot: usize,
    /// World x, Q13.
    pub x: i32,
    /// World y, Q13.
    pub y: i32,
    /// World z, Q5.
    pub z: i32,
    /// The walker's sprite quadrant (0, 0x40, 0x80 or 0xC0).
    pub draw_word: i32,
}

/// One exit slot: active flag, phase (2 = landed and open), raw-pixel
/// position and dwell counter.
#[derive(Debug, Clone, Copy, PartialEq, Eq, Default)]
pub struct ExitSlot {
    pub active: bool,
    pub phase: i32,
    pub x: i32,
    pub y: i32,
    pub dwell: i32,
}

} // verus!
