//! Versioned input-log replay format.
//!
//! A replay = the configuration the run started from (time base + seed +
//! initial state hash) plus the exact ordered per-tick input frames.
//! Everything is little-endian, fixed field order.

use vstd::prelude::*;

use crate::input::{input_at, input_bytes, lemma_input_round_trip, InputFrame};
use crate::le::{
    le_bytes_u16, le_bytes_u32, le_bytes_u64, lemma_u16_round_trip, lemma_u32_round_trip,
    lemma_u64_round_trip, push_u16, push_u32, push_u64, read_u16, read_u32, read_u64, u16_at,
    u32_at, u64_at,
};
use crate::{CoreError, FORMAT_VERSION};

verus! {

/// Header size: magic(4) + version(2) + flags(2) + tick_hz(4) + seed(8) +
/// initial_state_hash(8) + tick_count(4).
pub const HEADER_LEN: usize = 32;

/// The file magic `"BDLR"`.
pub open spec fn replay_magic() -> Seq<u8> {
    seq![0x42u8, 0x44u8, 0x4Cu8, 0x52u8]
}

/// The encoded frames, oldest first.
pub open spec fn frames_bytes(frames: Seq<InputFrame>) -> Seq<u8>
    decreases frames.len(),
{
    if frames.len() == 0 {
        Seq::empty()
    } else {
        frames_bytes(frames.drop_last()) + input_bytes(frames.last())
    }
}

/// The 32 header bytes for a replay with `count` frames.
pub open spec fn header_bytes(version: u16, tick_hz: u32, seed: u64, hash: u64, count: u32) -> Seq<
    u8,
> {
    replay_magic() + le_bytes_u16(version) + le_bytes_u16(0) + le_bytes_u32(tick_hz)
        + le_bytes_u64(seed) + le_bytes_u64(hash) + le_bytes_u32(count)
}

/// The whole serialized replay: header, then one 12-byte frame per tick.
pub open spec fn replay_bytes(
    version: u16,
    tick_hz: u32,
    seed: u64,
    hash: u64,
    frames: Seq<InputFrame>,
) -> Seq<u8> {
    header_bytes(version, tick_hz, seed, hash, frames.len() as u32) + frames_bytes(frames)
}

/// What parsing a buffer yields: `(version, tick_hz, seed,
/// initial_state_hash, frames)`, or the first failure in check order
/// (length, magic, version, declared length, leftover bytes).
pub open spec fn parse_spec(bytes: Seq<u8>) -> Result<(u16, u32, u64, u64, Seq<InputFrame>), CoreError> {
    if bytes.len() < 32 {
        Err(CoreError::Truncated { needed: 32, have: bytes.len() as usize })
    } else if bytes.subrange(0, 4) != replay_magic() {
        Err(CoreError::BadMagic)
    } else if u16_at(bytes, 4) != FORMAT_VERSION {
        Err(CoreError::UnsupportedVersion(u16_at(bytes, 4)))
    } else {
        let declared = u32_at(bytes, 28);
        let total = 32 + declared * 12;
        if bytes.len() < total {
            Err(CoreError::Truncated { needed: total as usize, have: bytes.len() as usize })
        } else if bytes.len() > total {
            Err(
                CoreError::TickCountMismatch {
                    declared,
                    actual: ((bytes.len() - 32) / 12) as usize,
                },
            )
        } else {
            Ok(
                (
                    u16_at(bytes, 4),
                    u32_at(bytes, 8),
                    u64_at(bytes, 12),
                    u64_at(bytes, 20),
                    Seq::new(declared as nat, |i: int| input_at(bytes, 32 + 12 * i)),
                ),
            )
        }
    }
}

/// A recorded run: enough to reconstruct a simulation bit-exactly and
/// re-simulate it.
#[derive(Debug, Clone, PartialEq, Eq)]
pub struct Replay {
    /// Format version the bytes were written with.
    pub version: u16,
    /// Ticks per second the recording was made at (data, not code).
    pub tick_hz: u32,
    /// Seed the simulation was created with.
    pub seed: u64,
    /// The state hash of the freshly created simulation at tick 0.
    pub initial_state_hash: u64,
    /// One input frame per tick, oldest first.
    pub inputs: Vec<InputFrame>,
}

impl View for Replay {
    /// `(version, tick_hz, seed, initial_state_hash, frames)`.
    type V = (u16, u32, u64, u64, Seq<InputFrame>);

    open spec fn view(&self) -> (u16, u32, u64, u64, Seq<InputFrame>) {
        (self.version, self.tick_hz, self.seed, self.initial_state_hash, self.inputs@)
    }
}

/// Appending one frame's encoding.
fn push_input(out: &mut Vec<u8>, f: &InputFrame)
    ensures
        final(out)@ == old(out)@ + input_bytes(*f),
{
    let ghost start = out@;
    push_u32(out, f.buttons);
    push_u16(out, f.mouse_dx as u16);
    push_u16(out, f.mouse_dy as u16);
    out.push(f.mouse_buttons);
    out.push(0);
    out.push(0);
    out.push(0);
    assert(out@ =~= start + input_bytes(*f));
}

/// The frames' encoding is 12 bytes per frame.
proof fn lemma_frames_bytes_len(frames: Seq<InputFrame>)
    ensures
        frames_bytes(frames).len() == 12 * frames.len(),
    decreases frames.len(),
{
    if frames.len() > 0 {
        lemma_frames_bytes_len(frames.drop_last());
    }
}

/// Frame `i`'s encoding sits at bytes `12i..12i+12`.
proof fn lemma_frames_bytes_at(frames: Seq<InputFrame>, i: int)
    requires
        0 <= i < frames.len(),
    ensures
        frames_bytes(frames).subrange(12 * i, 12 * i + 12) == input_bytes(frames[i]),
    decreases frames.len(),
{
    let prefix = frames.drop_last();
    lemma_frames_bytes_len(prefix);
    lemma_frames_bytes_len(frames);
    if i < frames.len() - 1 {
        lemma_frames_bytes_at(prefix, i);
        assert(frames_bytes(frames).subrange(12 * i, 12 * i + 12) =~= frames_bytes(
            prefix,
        ).subrange(12 * i, 12 * i + 12));
    } else {
        assert(frames_bytes(frames).subrange(12 * i, 12 * i + 12) =~= input_bytes(frames.last()));
    }
}

impl Replay {
    /// Serialize: header, then `tick_count` x 12-byte frames. The tick count
    /// field is the frame count as a `u32`.
    pub fn to_bytes(&self) -> (out: Vec<u8>)
        ensures
            out@ == replay_bytes(
                self.version,
                self.tick_hz,
                self.seed,
                self.initial_state_hash,
                self.inputs@,
            ),
    {
        let mut out: Vec<u8> = Vec::new();
        out.push(0x42u8);
        out.push(0x44u8);
        out.push(0x4Cu8);
        out.push(0x52u8);
        assert(out@ =~= replay_magic());
        push_u16(&mut out, self.version);
        push_u16(&mut out, 0);
        push_u32(&mut out, self.tick_hz);
        push_u64(&mut out, self.seed);
        push_u64(&mut out, self.initial_state_hash);
        push_u32(&mut out, self.inputs.len() as u32);
        let ghost header = out@;
        assert(header =~= header_bytes(
            self.version,
            self.tick_hz,
            self.seed,
            self.initial_state_hash,
            self.inputs@.len() as u32,
        ));
        let mut i: usize = 0;
        while i < self.inputs.len()
            invariant
                i <= self.inputs@.len(),
                out@ == header + frames_bytes(self.inputs@.take(i as int)),
            decreases self.inputs@.len() - i,
        {
            push_input(&mut out, &self.inputs[i]);
            proof {
                let t = self.inputs@.take(i + 1);
                assert(t.drop_last() =~= self.inputs@.take(i as int));
                assert(t.last() == self.inputs@[i as int]);
            }
            assert(out@ =~= header + frames_bytes(self.inputs@.take(i + 1)));
            i = i + 1;
        }
        assert(self.inputs@.take(i as int) =~= self.inputs@);
        out
    }

    /// Parse and fully validate a replay buffer. Never panics: every failure
    /// is a typed [`CoreError`], including single-byte truncation.
    pub fn parse(bytes: &[u8]) -> (r: Result<Replay, CoreError>)
        ensures
            r matches Ok(rep) ==> parse_spec(bytes@) == Ok::<
                (u16, u32, u64, u64, Seq<InputFrame>),
                CoreError,
            >(rep@),
            r matches Err(e) ==> parse_spec(bytes@) == Err::<
                (u16, u32, u64, u64, Seq<InputFrame>),
                CoreError,
            >(e),
    {
        let have = bytes.len();
        if have < HEADER_LEN {
            return Err(CoreError::Truncated { needed: HEADER_LEN, have });
        }
        if !(bytes[0] == 0x42u8 && bytes[1] == 0x44u8 && bytes[2] == 0x4Cu8 && bytes[3] == 0x52u8) {
            assert(bytes@.subrange(0, 4) != replay_magic()) by {
                if bytes@.subrange(0, 4) == replay_magic() {
                    assert(bytes@.subrange(0, 4)[0] == bytes@[0]);
                    assert(bytes@.subrange(0, 4)[1] == bytes@[1]);
                    assert(bytes@.subrange(0, 4)[2] == bytes@[2]);
                    assert(bytes@.subrange(0, 4)[3] == bytes@[3]);
                }
            }
            return Err(CoreError::BadMagic);
        }
        assert(bytes@.subrange(0, 4) =~= replay_magic());
        let version = read_u16(bytes, 4);
        if version != FORMAT_VERSION {
            return Err(CoreError::UnsupportedVersion(version));
        }
        let tick_hz = read_u32(bytes, 8);
        let seed = read_u64(bytes, 12);
        let initial_state_hash = read_u64(bytes, 20);
        let declared = read_u32(bytes, 28);
        let total: u64 = 32 + (declared as u64) * 12;
        if (have as u64) < total {
            return Err(CoreError::Truncated { needed: total as usize, have });
        }
        if (have as u64) > total {
            let actual = (have - HEADER_LEN) / 12;
            return Err(CoreError::TickCountMismatch { declared, actual });
        }
        let mut inputs: Vec<InputFrame> = Vec::new();
        let mut i: u32 = 0;
        while i < declared
            invariant
                i <= declared,
                have == bytes@.len(),
                declared == u32_at(bytes@, 28),
                bytes@.len() == 32 + declared * 12,
                inputs@.len() == i,
                forall|j: int| 0 <= j < i ==> inputs@[j] == input_at(bytes@, 32 + 12 * j),
            decreases declared - i,
        {
            let at: usize = 32 + (i as usize) * 12;
            inputs.push(InputFrame::from_bytes_at(bytes, at));
            i = i + 1;
        }
        let rep = Replay { version, tick_hz, seed, initial_state_hash, inputs };
        assert(rep.inputs@ =~= Seq::new(declared as nat, |j: int| input_at(bytes@, 32 + 12 * j)));
        Ok(rep)
    }
}

/// Header fields decode back out of an encoded header.
proof fn lemma_header_fields(
    bytes: Seq<u8>,
    version: u16,
    tick_hz: u32,
    seed: u64,
    hash: u64,
    count: u32,
)
    requires
        bytes.len() >= 32,
        bytes.subrange(0, 32) == header_bytes(version, tick_hz, seed, hash, count),
    ensures
        bytes.subrange(0, 4) == replay_magic(),
        u16_at(bytes, 4) == version,
        u32_at(bytes, 8) == tick_hz,
        u64_at(bytes, 12) == seed,
        u64_at(bytes, 20) == hash,
        u32_at(bytes, 28) == count,
{
    let h = header_bytes(version, tick_hz, seed, hash, count);
    assert forall|k: int| 0 <= k < 32 implies bytes[k] == h[k] by {
        assert(bytes.subrange(0, 32)[k] == bytes[k]);
    }
    assert(bytes.subrange(0, 4) =~= replay_magic());
    lemma_u16_round_trip(version, bytes, 4);
    lemma_u32_round_trip(tick_hz, bytes, 8);
    assert forall|k: int| 0 <= k < 8 implies bytes[12 + k] == #[trigger] le_bytes_u64(seed)[k] by {
        assert(h[12 + k] == le_bytes_u64(seed)[k]);
    }
    lemma_u64_round_trip(seed, bytes, 12);
    assert forall|k: int| 0 <= k < 8 implies bytes[20 + k] == #[trigger] le_bytes_u64(hash)[k] by {
        assert(h[20 + k] == le_bytes_u64(hash)[k]);
    }
    lemma_u64_round_trip(hash, bytes, 20);
    lemma_u32_round_trip(count, bytes, 28);
}

/// Round trip: parsing the serialization of a replay written at the
/// current format version (with at most `u32::MAX` frames, so the count
/// field is exact) gives the same replay back.
pub proof fn lemma_replay_round_trip(tick_hz: u32, seed: u64, hash: u64, frames: Seq<InputFrame>)
    requires
        frames.len() <= u32::MAX,
    ensures
        parse_spec(replay_bytes(FORMAT_VERSION, tick_hz, seed, hash, frames)) == Ok::<
            (u16, u32, u64, u64, Seq<InputFrame>),
            CoreError,
        >((FORMAT_VERSION, tick_hz, seed, hash, frames)),
{
    let count = frames.len() as u32;
    let bytes = replay_bytes(FORMAT_VERSION, tick_hz, seed, hash, frames);
    let h = header_bytes(FORMAT_VERSION, tick_hz, seed, hash, count);
    let body = frames_bytes(frames);
    lemma_frames_bytes_len(frames);
    assert(h.len() == 32);
    assert(bytes.subrange(0, 32) =~= h);
    lemma_header_fields(bytes, FORMAT_VERSION, tick_hz, seed, hash, count);
    assert(bytes.len() == 32 + count * 12);
    let decoded = Seq::new(count as nat, |i: int| input_at(bytes, 32 + 12 * i));
    assert forall|i: int| 0 <= i < frames.len() implies decoded[i] == frames[i] by {
        lemma_frames_bytes_at(frames, i);
        assert(bytes.subrange(32 + 12 * i, 32 + 12 * i + 12) =~= body.subrange(
            12 * i,
            12 * i + 12,
        ));
        lemma_input_round_trip(frames[i], bytes, 32 + 12 * i);
    }
    assert(decoded =~= frames);
}

/// Every strict prefix of a serialized replay is refused as truncated.
pub proof fn lemma_replay_prefix_truncated(
    tick_hz: u32,
    seed: u64,
    hash: u64,
    frames: Seq<InputFrame>,
    len: int,
)
    requires
        frames.len() <= u32::MAX,
        0 <= len < replay_bytes(FORMAT_VERSION, tick_hz, seed, hash, frames).len(),
    ensures
        parse_spec(replay_bytes(FORMAT_VERSION, tick_hz, seed, hash, frames).take(len)) matches Err(
            CoreError::Truncated { .. },
        ),
{
    let full = replay_bytes(FORMAT_VERSION, tick_hz, seed, hash, frames);
    let count = frames.len() as u32;
    let h = header_bytes(FORMAT_VERSION, tick_hz, seed, hash, count);
    lemma_frames_bytes_len(frames);
    let p = full.take(len);
    if len >= 32 {
        assert(p.subrange(0, 32) =~= h);
        lemma_header_fields(p, FORMAT_VERSION, tick_hz, seed, hash, count);
        assert(full.len() == 32 + count * 12);
    }
}

} // verus!
