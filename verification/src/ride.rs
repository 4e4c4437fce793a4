//! Boarding records of the boot-camp ride pads: a robot stepping on a
//! ride pad is held for ten frames, then set down at the destination.

use vstd::prelude::*;

verus! {

/// One ride: the pad slot that boards it, the pad's tile, the
/// destination `(x, y, level)`, the countdown and the boarded robot.
#[derive(Debug, Clone, Copy, PartialEq, Eq)]
pub struct Ride {
    pub pad_slot: usize,
    pub marker: (i32, i32, i32),
    pub destination: (i32, i32, i32),
    pub countdown: u8,
    pub rider: Option<usize>,
}

} // verus!
