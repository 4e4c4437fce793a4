//! Stable FNV-1a 64 hashing and the per-tick [`StateHash`] type.
//!
//! The state hash must be byte-identical across machines and compiler
//! versions, so the algorithm is written out here over plain integers:
//! multi-byte values are fed as their canonical little-endian bytes.

use vstd::prelude::*;

use crate::le::{le_bytes_u16, le_bytes_u32, le_bytes_u64};

verus! {

/// The FNV-1a 64 offset basis (the hash of the empty input).
pub const FNV_OFFSET_BASIS: u64 = 0xcbf2_9ce4_8422_2325;

/// The FNV-1a 64 prime.
pub const FNV_PRIME: u64 = 0x0000_0100_0000_01b3;

/// One FNV-1a step: xor the byte in, then multiply by the prime modulo 2^64.
pub open spec fn fnv_step(h: u64, b: u8) -> u64 {
    vstd::wrapping::u64_specs::wrapping_mul(h ^ (b as u64), FNV_PRIME)
}

/// FNV-1a over a byte sequence, starting from the hash value `h`.
pub open spec fn fnv_fold(h: u64, bytes: Seq<u8>) -> u64
    decreases bytes.len(),
{
    if bytes.len() == 0 {
        h
    } else {
        fnv_step(fnv_fold(h, bytes.drop_last()), bytes.last())
    }
}

/// The FNV-1a 64 hash of a whole byte sequence.
pub open spec fn fnv1a64_spec(bytes: Seq<u8>) -> u64 {
    fnv_fold(FNV_OFFSET_BASIS, bytes)
}

/// Folding one more byte onto a sequence is one more step.
pub proof fn lemma_fnv_fold_push(h: u64, s: Seq<u8>, b: u8)
    ensures
        fnv_fold(h, s.push(b)) == fnv_step(fnv_fold(h, s), b),
{
    assert(s.push(b).drop_last() =~= s);
}

/// Hashing `a` and then `b` incrementally equals hashing `a + b` in one go.
pub proof fn lemma_fnv_fold_concat(h: u64, a: Seq<u8>, b: Seq<u8>)
    ensures
        fnv_fold(fnv_fold(h, a), b) == fnv_fold(h, a + b),
    decreases b.len(),
{
    if b.len() == 0 {
        assert(a + b =~= a);
    } else {
        lemma_fnv_fold_concat(h, a, b.drop_last());
        assert((a + b).drop_last() =~= a + b.drop_last());
        assert((a + b).last() == b.last());
    }
}

/// A per-tick simulation state hash. Equality of hash streams across
/// machines and builds is the determinism contract.
#[derive(Debug, Clone, Copy, PartialEq, Eq)]
pub struct StateHash(pub u64);

/// The hexadecimal digit character for a nibble, lower or upper case.
pub open spec fn hex_digit(n: u64, upper: bool) -> char {
    if n < 10 {
        ((48 + n) as u8) as char
    } else if upper {
        ((55 + n) as u8) as char
    } else {
        ((87 + n) as u8) as char
    }
}

/// The 16 zero-padded hexadecimal digits of `v`, most significant first.
pub open spec fn hex16(v: u64, upper: bool) -> Seq<char> {
    Seq::new(16, |k: int| hex_digit((v >> ((60 - 4 * k) as u64)) & 0xf, upper))
}

/// Appends one character to a string.
#[verifier::external_body]
fn push_char(s: &mut String, c: char)
    ensures
        final(s)@ == old(s)@.push(c),
{
    s.push(c);
}

fn hex_char(n: u64, upper: bool) -> (c: char)
    requires
        n < 16,
    ensures
        c == hex_digit(n, upper),
{
    let b: u8 = n as u8;
    if b < 10 {
        (48u8 + b) as char
    } else if upper {
        (55u8 + b) as char
    } else {
        (87u8 + b) as char
    }
}

impl StateHash {
    fn hex(&self, upper: bool) -> (s: String)
        ensures
            s@ == hex16(self.0, upper),
    {
        let v = self.0;
        let mut s = String::new();
        let mut k: u64 = 0;
        while k < 16
            invariant
                k <= 16,
                s@.len() == k,
                v == self.0,
                forall|j: int| 0 <= j < k ==> s@[j] == hex16(v, upper)[j],
            decreases 16 - k,
        {
            let sh: u64 = 60 - 4 * k;
            let n = (v >> sh) & 0xf;
            assert(n < 16) by (bit_vector)
                requires
                    n == (v >> sh) & 0xf,
            ;
            let c = hex_char(n, upper);
            push_char(&mut s, c);
            k = k + 1;
        }
        assert(s@ =~= hex16(self.0, upper));
        s
    }

    /// The 16-digit zero-padded lower-case hexadecimal rendering.
    pub fn to_lower_hex(&self) -> (s: String)
        ensures
            s@ == hex16(self.0, false),
    {
        self.hex(false)
    }

    /// The 16-digit zero-padded upper-case hexadecimal rendering.
    pub fn to_upper_hex(&self) -> (s: String)
        ensures
            s@ == hex16(self.0, true),
    {
        self.hex(true)
    }
}

/// Incremental FNV-1a 64 hasher.
///
/// Multi-byte values are fed as canonical little-endian bytes (see the
/// `write_*` methods).
#[derive(Debug, Clone, Copy, PartialEq, Eq)]
pub struct Fnv1a64(u64);

impl View for Fnv1a64 {
    type V = u64;

    closed spec fn view(&self) -> u64 {
        self.0
    }
}

impl Fnv1a64 {
    /// New hasher at the FNV-1a offset basis.
    pub fn new() -> (h: Self)
        ensures
            h@ == FNV_OFFSET_BASIS,
    {
        Fnv1a64(FNV_OFFSET_BASIS)
    }

    /// Mix one byte.
    pub fn write_u8(&mut self, v: u8)
        ensures
            final(self)@ == fnv_step(old(self)@, v),
    {
        self.0 = (self.0 ^ (v as u64)).wrapping_mul(FNV_PRIME);
    }

    /// Mix a byte slice in order.
    pub fn write_bytes(&mut self, bytes: &[u8])
        ensures
            final(self)@ == fnv_fold(old(self)@, bytes@),
    {
        let ghost h0 = self@;
        let mut i: usize = 0;
        while i < bytes.len()
            invariant
                i <= bytes@.len(),
                self@ == fnv_fold(h0, bytes@.take(i as int)),
            decreases bytes@.len() - i,
        {
            proof {
                lemma_fnv_fold_push(h0, bytes@.take(i as int), bytes@[i as int]);
                assert(bytes@.take(i as int).push(bytes@[i as int]) =~= bytes@.take(i + 1));
            }
            self.write_u8(bytes[i]);
            i = i + 1;
        }
        assert(bytes@.take(i as int) =~= bytes@);
    }

    /// Mix a `u16` as its 2 canonical little-endian bytes.
    pub fn write_u16(&mut self, v: u16)
        ensures
            final(self)@ == fnv_fold(old(self)@, le_bytes_u16(v)),
    {
        let ghost h0 = self@;
        self.write_u8(v as u8);
        self.write_u8((v >> 8u16) as u8);
        proof {
            let s = le_bytes_u16(v);
            lemma_fnv_fold_push(h0, seq![], s[0]);
            lemma_fnv_fold_push(h0, seq![s[0]], s[1]);
            assert(seq![s[0]] =~= Seq::<u8>::empty().push(s[0]));
            assert(s =~= seq![s[0]].push(s[1]));
        }
    }

    /// Mix a `u32` as its 4 canonical little-endian bytes.
    pub fn write_u32(&mut self, v: u32)
        ensures
            final(self)@ == fnv_fold(old(self)@, le_bytes_u32(v)),
    {
        let ghost h0 = self@;
        let ghost s = le_bytes_u32(v);
        self.write_u8(v as u8);
        proof {
            lemma_fnv_fold_push(h0, seq![], s[0]);
            assert(Seq::<u8>::empty().push(s[0]) =~= s.take(1));
        }
        self.write_u8((v >> 8u32) as u8);
        proof {
            lemma_fnv_fold_push(h0, s.take(1), s[1]);
            assert(s.take(1).push(s[1]) =~= s.take(2));
        }
        self.write_u8((v >> 16u32) as u8);
        proof {
            lemma_fnv_fold_push(h0, s.take(2), s[2]);
            assert(s.take(2).push(s[2]) =~= s.take(3));
        }
        self.write_u8((v >> 24u32) as u8);
        proof {
            lemma_fnv_fold_push(h0, s.take(3), s[3]);
            assert(s.take(3).push(s[3]) =~= s);
        }
    }

    /// Mix a `u64` as its 8 canonical little-endian bytes.
    pub fn write_u64(&mut self, v: u64)
        ensures
            final(self)@ == fnv_fold(old(self)@, le_bytes_u64(v)),
    {
        let ghost h0 = self@;
        let ghost s = le_bytes_u64(v);
        let mut k: u64 = 0;
        while k < 8
            invariant
                k <= 8,
                s == le_bytes_u64(v),
                self@ == fnv_fold(h0, s.take(k as int)),
            decreases 8 - k,
        {
            let b = (v >> (8 * k)) as u8;
            proof {
                assert(b == s[k as int]) by {
                    if k == 0 {
                        assert(v >> 0u64 == v) by (bit_vector);
                    }
                }
                lemma_fnv_fold_push(h0, s.take(k as int), b);
                assert(s.take(k as int).push(b) =~= s.take(k + 1));
            }
            self.write_u8(b);
            k = k + 1;
        }
        assert(s.take(8) =~= s);
    }

    /// Mix an `i16` (bit-cast to `u16`) as its 2 canonical little-endian bytes.
    pub fn write_i16(&mut self, v: i16)
        ensures
            final(self)@ == fnv_fold(old(self)@, le_bytes_u16(v as u16)),
    {
        self.write_u16(v as u16);
    }

    /// Mix an `i32` (bit-cast to `u32`) as its 4 canonical little-endian bytes.
    pub fn write_i32(&mut self, v: i32)
        ensures
            final(self)@ == fnv_fold(old(self)@, le_bytes_u32(v as u32)),
    {
        self.write_u32(v as u32);
    }

    /// Mix an `i64` (bit-cast to `u64`) as its 8 canonical little-endian bytes.
    pub fn write_i64(&mut self, v: i64)
        ensures
            final(self)@ == fnv_fold(old(self)@, le_bytes_u64(v as u64)),
    {
        self.write_u64(v as u64);
    }

    /// Final hash value.
    pub fn finish(&self) -> (r: u64)
        ensures
            r == self@,
    {
        self.0
    }
}

impl Default for Fnv1a64 {
    fn default() -> (h: Self)
        ensures
            h@ == FNV_OFFSET_BASIS,
    {
        Self::new()
    }
}

/// One-shot FNV-1a 64 over `bytes`.
pub fn fnv1a64(bytes: &[u8]) -> (r: u64)
    ensures
        r == fnv1a64_spec(bytes@),
{
    let mut h = Fnv1a64::new();
    h.write_bytes(bytes);
    h.finish()
}

} // verus!
