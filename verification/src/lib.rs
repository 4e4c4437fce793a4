//! Hermetic deterministic simulation core: integer and fixed-point
//! arithmetic only, bytes and arguments in, no I/O.

pub mod angle;
pub mod brain;
pub mod debris;
pub mod destroy;
pub mod elevator;
pub mod critter;
pub mod fence;
pub mod frame;
pub mod fx;
pub mod hash;
pub mod impact;
pub mod input;
pub mod le;
pub mod mission;
pub mod mode;
pub mod movement;
pub mod objects;
pub mod poi;
pub mod properties;
pub mod replay;
pub mod ride;
pub mod rng;
pub mod sentry;
pub mod terrain;

use vstd::prelude::*;

verus! {

/// Version of the replay/snapshot serialization formats written by this
/// crate. Readers reject other values.
pub const FORMAT_VERSION: u16 = 1;

/// Core parse/validation failures.
#[derive(Debug, Clone, Copy, PartialEq, Eq)]
pub enum CoreError {
    /// First 4 bytes do not match the expected format magic.
    BadMagic,
    /// Format version field is not one this build can read.
    UnsupportedVersion(u16),
    /// Buffer shorter than the format's required size for its declared
    /// counts/lengths.
    Truncated { needed: usize, have: usize },
    /// Declared tick count does not match the number of input frames
    /// actually present.
    TickCountMismatch { declared: u32, actual: usize },
    /// Stored hash does not match the hash recomputed from the bytes.
    HashMismatch { stored: u64, computed: u64 },
    /// Time base with a zero (or otherwise unusable) tick rate.
    BadTickHz(u32),
}

} // verus!
