//! Per-tick deterministic input frames: a replay is exactly a seed plus
//! the ordered list of these frames.

use vstd::prelude::*;

use crate::le::{le_bytes_u16, le_bytes_u32, lemma_u16_round_trip, lemma_u32_round_trip, u16_at, u32_at};

verus! {

/// Encoded size of one [`InputFrame`]: fixed 12-byte little-endian layout
/// (buttons u32, mouse_dx i16, mouse_dy i16, mouse_buttons u8, 3 pad bytes).
pub const ENCODED_LEN: usize = 12;

/// One tick's worth of sampled input.
///
/// - `buttons`: keyboard button bitmask.
/// - `mouse_buttons`: bit 0 = left, bit 1 = right.
/// - `mouse_dx` / `mouse_dy`: per-tick pointer deltas in 640x480 game space.
#[derive(Clone, Copy, PartialEq, Eq, Debug)]
pub struct InputFrame {
    /// Keyboard button bitmask.
    pub buttons: u32,
    /// Horizontal pointer delta for this tick (game space).
    pub mouse_dx: i16,
    /// Vertical pointer delta for this tick (game space).
    pub mouse_dy: i16,
    /// Mouse button bitmask: bit 0 = left, bit 1 = right.
    pub mouse_buttons: u8,
}

impl Default for InputFrame {
    /// The neutral frame: no buttons, no motion.
    fn default() -> (f: Self)
        ensures
            f == (InputFrame { buttons: 0, mouse_dx: 0, mouse_dy: 0, mouse_buttons: 0 }),
    {
        InputFrame { buttons: 0, mouse_dx: 0, mouse_dy: 0, mouse_buttons: 0 }
    }
}

/// The 12 encoded bytes of a frame: buttons u32 @0, mouse_dx i16 @4,
/// mouse_dy i16 @6, mouse_buttons u8 @8, zero pad @9..12.
pub open spec fn input_bytes(f: InputFrame) -> Seq<u8> {
    le_bytes_u32(f.buttons) + le_bytes_u16(f.mouse_dx as u16) + le_bytes_u16(f.mouse_dy as u16)
        + seq![f.mouse_buttons, 0u8, 0u8, 0u8]
}

/// The frame decoded from the 12 bytes at `at` (pad bytes ignored).
pub open spec fn input_at(s: Seq<u8>, at: int) -> InputFrame {
    InputFrame {
        buttons: u32_at(s, at),
        mouse_dx: u16_at(s, at + 4) as i16,
        mouse_dy: u16_at(s, at + 6) as i16,
        mouse_buttons: s[at + 8],
    }
}

impl InputFrame {
    /// Encode into the first [`ENCODED_LEN`] bytes of `out` (little-endian,
    /// fixed layout, pad always zeroed); the rest of `out` is untouched.
    pub fn to_bytes(&self, out: &mut [u8])
        requires
            old(out)@.len() >= ENCODED_LEN,
        ensures
            final(out)@ == input_bytes(*self) + old(out)@.skip(12),
    {
        let dx = self.mouse_dx as u16;
        let dy = self.mouse_dy as u16;
        out[0] = self.buttons as u8;
        out[1] = (self.buttons >> 8) as u8;
        out[2] = (self.buttons >> 16) as u8;
        out[3] = (self.buttons >> 24) as u8;
        out[4] = dx as u8;
        out[5] = (dx >> 8) as u8;
        out[6] = dy as u8;
        out[7] = (dy >> 8) as u8;
        out[8] = self.mouse_buttons;
        out[9] = 0;
        out[10] = 0;
        out[11] = 0;
        assert(final(out)@ =~= input_bytes(*self) + old(out)@.skip(12));
    }

    /// Decode from the 12-byte little-endian layout (see [`Self::to_bytes`]).
    /// Lenient by design: the pad bytes are ignored.
    pub fn from_bytes(bytes: &[u8]) -> (f: Self)
        requires
            bytes@.len() >= ENCODED_LEN,
        ensures
            f == input_at(bytes@, 0),
    {
        Self::from_bytes_at(bytes, 0)
    }

    /// Decode the 12-byte layout starting at `at`.
    pub(crate) fn from_bytes_at(bytes: &[u8], at: usize) -> (f: Self)
        requires
            at + ENCODED_LEN <= bytes@.len(),
        ensures
            f == input_at(bytes@, at as int),
    {
        let n = bytes.len();
        assert(at + ENCODED_LEN <= n);
        InputFrame {
            buttons: crate::le::read_u32(bytes, at),
            mouse_dx: crate::le::read_u16(bytes, at + 4) as i16,
            mouse_dy: crate::le::read_u16(bytes, at + 6) as i16,
            mouse_buttons: bytes[at + 8],
        }
    }
}

/// Decoding an encoded frame gives the frame back, whatever follows it.
pub proof fn lemma_input_round_trip(f: InputFrame, s: Seq<u8>, at: int)
    requires
        0 <= at,
        at + 12 <= s.len(),
        s.subrange(at, at + 12) == input_bytes(f),
    ensures
        input_at(s, at) == f,
{
    let e = input_bytes(f);
    assert(s[at + 0] == e[0] && s[at + 1] == e[1] && s[at + 2] == e[2] && s[at + 3] == e[3]) by {
        assert(s.subrange(at, at + 12)[0] == s[at + 0]);
        assert(s.subrange(at, at + 12)[1] == s[at + 1]);
        assert(s.subrange(at, at + 12)[2] == s[at + 2]);
        assert(s.subrange(at, at + 12)[3] == s[at + 3]);
    }
    assert(s[at + 4] == e[4] && s[at + 5] == e[5] && s[at + 6] == e[6] && s[at + 7] == e[7]
        && s[at + 8] == e[8]) by {
        assert(s.subrange(at, at + 12)[4] == s[at + 4]);
        assert(s.subrange(at, at + 12)[5] == s[at + 5]);
        assert(s.subrange(at, at + 12)[6] == s[at + 6]);
        assert(s.subrange(at, at + 12)[7] == s[at + 7]);
        assert(s.subrange(at, at + 12)[8] == s[at + 8]);
    }
    lemma_u32_round_trip(f.buttons, s, at);
    lemma_u16_round_trip(f.mouse_dx as u16, s, at + 4);
    lemma_u16_round_trip(f.mouse_dy as u16, s, at + 6);
    let dx = f.mouse_dx;
    let dy = f.mouse_dy;
    assert((dx as u16) as i16 == dx) by (bit_vector);
    assert((dy as u16) as i16 == dy) by (bit_vector);
}

} // verus!
