//! Canonical little-endian byte layouts: the encodings every format and
//! the state hash use, their decoders, and the round-trip facts.

use vstd::prelude::*;

verus! {

/// The two little-endian bytes of a `u16`.
pub open spec fn le_bytes_u16(v: u16) -> Seq<u8> {
    seq![v as u8, (v >> 8u16) as u8]
}

/// The four little-endian bytes of a `u32`.
pub open spec fn le_bytes_u32(v: u32) -> Seq<u8> {
    seq![v as u8, (v >> 8u32) as u8, (v >> 16u32) as u8, (v >> 24u32) as u8]
}

/// The eight little-endian bytes of a `u64`.
pub open spec fn le_bytes_u64(v: u64) -> Seq<u8> {
    seq![
        v as u8,
        (v >> 8u64) as u8,
        (v >> 16u64) as u8,
        (v >> 24u64) as u8,
        (v >> 32u64) as u8,
        (v >> 40u64) as u8,
        (v >> 48u64) as u8,
        (v >> 56u64) as u8,
    ]
}

/// The `u16` whose little-endian bytes start at `at`.
pub open spec fn u16_at(s: Seq<u8>, at: int) -> u16 {
    (s[at] as u16) | ((s[at + 1] as u16) << 8u16)
}

/// The `u32` whose little-endian bytes start at `at`.
pub open spec fn u32_at(s: Seq<u8>, at: int) -> u32 {
    (s[at] as u32) | ((s[at + 1] as u32) << 8u32) | ((s[at + 2] as u32) << 16u32) | ((s[at
        + 3] as u32) << 24u32)
}

/// The `u64` whose little-endian bytes start at `at`.
pub open spec fn u64_at(s: Seq<u8>, at: int) -> u64 {
    (u32_at(s, at) as u64) | ((u32_at(s, at + 4) as u64) << 32u64)
}

/// Read a little-endian `u16` at `at`.
pub fn read_u16(bytes: &[u8], at: usize) -> (v: u16)
    requires
        at + 2 <= bytes@.len(),
    ensures
        v == u16_at(bytes@, at as int),
{
    (bytes[at] as u16) | ((bytes[at + 1] as u16) << 8)
}

/// Read a little-endian `u32` at `at`.
pub fn read_u32(bytes: &[u8], at: usize) -> (v: u32)
    requires
        at + 4 <= bytes@.len(),
    ensures
        v == u32_at(bytes@, at as int),
{
    (bytes[at] as u32) | ((bytes[at + 1] as u32) << 8) | ((bytes[at + 2] as u32) << 16) | ((
    bytes[at + 3] as u32) << 24)
}

/// Read a little-endian `u64` at `at`.
pub fn read_u64(bytes: &[u8], at: usize) -> (v: u64)
    requires
        at + 8 <= bytes@.len(),
    ensures
        v == u64_at(bytes@, at as int),
{
    let n = bytes.len();
    assert(at + 4 <= n);
    (read_u32(bytes, at) as u64) | ((read_u32(bytes, at + 4) as u64) << 32)
}

/// Append the little-endian bytes of a `u16`.
pub fn push_u16(out: &mut Vec<u8>, v: u16)
    ensures
        final(out)@ == old(out)@ + le_bytes_u16(v),
{
    out.push(v as u8);
    out.push((v >> 8) as u8);
    assert(final(out)@ =~= old(out)@ + le_bytes_u16(v));
}

/// Append the little-endian bytes of a `u32`.
pub fn push_u32(out: &mut Vec<u8>, v: u32)
    ensures
        final(out)@ == old(out)@ + le_bytes_u32(v),
{
    out.push(v as u8);
    out.push((v >> 8) as u8);
    out.push((v >> 16) as u8);
    out.push((v >> 24) as u8);
    assert(final(out)@ =~= old(out)@ + le_bytes_u32(v));
}

/// Append the little-endian bytes of a `u64`.
pub fn push_u64(out: &mut Vec<u8>, v: u64)
    ensures
        final(out)@ == old(out)@ + le_bytes_u64(v),
{
    out.push(v as u8);
    out.push((v >> 8) as u8);
    out.push((v >> 16) as u8);
    out.push((v >> 24) as u8);
    out.push((v >> 32) as u8);
    out.push((v >> 40) as u8);
    out.push((v >> 48) as u8);
    out.push((v >> 56) as u8);
    assert(final(out)@ =~= old(out)@ + le_bytes_u64(v));
}

/// Decoding the little-endian bytes of a `u16` gives the value back.
pub proof fn lemma_u16_round_trip(v: u16, s: Seq<u8>, at: int)
    requires
        0 <= at,
        at + 2 <= s.len(),
        s[at] == le_bytes_u16(v)[0],
        s[at + 1] == le_bytes_u16(v)[1],
    ensures
        u16_at(s, at) == v,
{
    let b0 = s[at];
    let b1 = s[at + 1];
    assert((b0 as u16) | ((b1 as u16) << 8u16) == v) by (bit_vector)
        requires
            b0 == v as u8,
            b1 == (v >> 8u16) as u8,
    ;
}

/// Decoding the little-endian bytes of a `u32` gives the value back.
pub proof fn lemma_u32_round_trip(v: u32, s: Seq<u8>, at: int)
    requires
        0 <= at,
        at + 4 <= s.len(),
        s[at] == le_bytes_u32(v)[0],
        s[at + 1] == le_bytes_u32(v)[1],
        s[at + 2] == le_bytes_u32(v)[2],
        s[at + 3] == le_bytes_u32(v)[3],
    ensures
        u32_at(s, at) == v,
{
    let b0 = s[at];
    let b1 = s[at + 1];
    let b2 = s[at + 2];
    let b3 = s[at + 3];
    assert((b0 as u32) | ((b1 as u32) << 8u32) | ((b2 as u32) << 16u32) | ((b3 as u32) << 24u32)
        == v) by (bit_vector)
        requires
            b0 == v as u8,
            b1 == (v >> 8u32) as u8,
            b2 == (v >> 16u32) as u8,
            b3 == (v >> 24u32) as u8,
    ;
}

/// Decoding the little-endian bytes of a `u64` gives the value back.
pub proof fn lemma_u64_round_trip(v: u64, s: Seq<u8>, at: int)
    requires
        0 <= at,
        at + 8 <= s.len(),
        forall|k: int| 0 <= k < 8 ==> s[at + k] == #[trigger] le_bytes_u64(v)[k],
    ensures
        u64_at(s, at) == v,
{
    let b0 = s[at];
    let b1 = s[at + 1];
    let b2 = s[at + 2];
    let b3 = s[at + 3];
    let b4 = s[at + 4];
    let b5 = s[at + 5];
    let b6 = s[at + 6];
    let b7 = s[at + 7];
    assert(s[at + 0] == le_bytes_u64(v)[0]);
    assert(s[at + 1] == le_bytes_u64(v)[1]);
    assert(s[at + 2] == le_bytes_u64(v)[2]);
    assert(s[at + 3] == le_bytes_u64(v)[3]);
    assert(s[at + 4] == le_bytes_u64(v)[4]);
    assert(s[at + 5] == le_bytes_u64(v)[5]);
    assert(s[at + 6] == le_bytes_u64(v)[6]);
    assert(s[at + 7] == le_bytes_u64(v)[7]);
    assert((((b0 as u32) | ((b1 as u32) << 8u32) | ((b2 as u32) << 16u32) | ((b3 as u32)
        << 24u32)) as u64) | ((((b4 as u32) | ((b5 as u32) << 8u32) | ((b6 as u32) << 16u32)
        | ((b7 as u32) << 24u32)) as u64) << 32u64) == v) by (bit_vector)
        requires
            b0 == v as u8,
            b1 == (v >> 8u64) as u8,
            b2 == (v >> 16u64) as u8,
            b3 == (v >> 24u64) as u8,
            b4 == (v >> 32u64) as u8,
            b5 == (v >> 40u64) as u8,
            b6 == (v >> 48u64) as u8,
            b7 == (v >> 56u64) as u8,
    ;
}

} // verus!
