//! Seeded PCG32 PRNG (XSH-RR 64/32 output, 64-bit LCG state).
//!
//! Deterministic across machines by construction: only integer wrapping
//! arithmetic.

use vstd::prelude::*;

verus! {

/// LCG multiplier used by the standard PCG32.
pub const MULTIPLIER: u64 = 6_364_136_223_846_793_005;

/// The SplitMix64 additive constant.
pub const SPLITMIX_GAMMA: u64 = 0x9E37_79B9_7F4A_7C15;

/// The first SplitMix64 mixing multiplier.
pub const SPLITMIX_MUL_A: u64 = 0xBF58_476D_1CE4_E5B9;

/// The second SplitMix64 mixing multiplier.
pub const SPLITMIX_MUL_B: u64 = 0x94D0_49BB_1331_11EB;

/// SplitMix64 step function (used only for seeding).
pub open spec fn splitmix64_spec(x: u64) -> u64 {
    let z0 = vstd::wrapping::u64_specs::wrapping_add(x, SPLITMIX_GAMMA);
    let z1 = vstd::wrapping::u64_specs::wrapping_mul(z0 ^ (z0 >> 30u64), SPLITMIX_MUL_A);
    let z2 = vstd::wrapping::u64_specs::wrapping_mul(z1 ^ (z1 >> 27u64), SPLITMIX_MUL_B);
    z2 ^ (z2 >> 31u64)
}

/// One raw LCG step: `state * MULTIPLIER + inc` modulo 2^64.
pub open spec fn lcg_step(state: u64, inc: u64) -> u64 {
    vstd::wrapping::u64_specs::wrapping_add(
        vstd::wrapping::u64_specs::wrapping_mul(state, MULTIPLIER),
        inc,
    )
}

/// Rotate a 32-bit word right by `r` (`r < 32`).
pub open spec fn rotr32(x: u32, r: u32) -> u32 {
    if r == 0 {
        x
    } else {
        (x >> r) | (x << ((32 - r) as u32))
    }
}

/// The XSH-RR output of the PRE-step state `old`.
pub open spec fn pcg_output(old: u64) -> u32 {
    rotr32((((old >> 18u64) ^ old) >> 27u64) as u32, (old >> 59u64) as u32)
}

/// The LCG state after `n` steps.
pub open spec fn state_after(state: u64, inc: u64, n: nat) -> u64
    decreases n,
{
    if n == 0 {
        state
    } else {
        lcg_step(state_after(state, inc, (n - 1) as nat), inc)
    }
}

/// The `k`-th 32-bit draw (0-based) from a generator in `state`.
pub open spec fn draw_at(state: u64, inc: u64, k: nat) -> u32 {
    pcg_output(state_after(state, inc, k))
}

/// The rejection threshold of unbiased sampling below `m`: `2^32 mod m`.
pub open spec fn bounded_threshold(m: u32) -> u64 {
    (0x1_0000_0000u64 % (m as u64)) as u64
}

/// Draw `k` is accepted by the sampler for bound `m`.
pub open spec fn bounded_accepts(state: u64, inc: u64, m: u32, k: nat) -> bool {
    draw_at(state, inc, k) as u64 >= bounded_threshold(m)
}

/// Draw `k` is the FIRST draw the sampler for bound `m` accepts.
pub open spec fn bounded_first_accept(state: u64, inc: u64, m: u32, k: nat) -> bool {
    &&& bounded_accepts(state, inc, m, k)
    &&& forall|j: nat| j < k ==> !bounded_accepts(state, inc, m, j)
}

/// PCG32 generator: 64-bit LCG state, XSH-RR 32-bit output.
#[derive(Debug, Clone, Copy, PartialEq, Eq)]
pub struct Pcg32 {
    state: u64,
    inc: u64,
}

impl View for Pcg32 {
    /// `(state, inc)`: the LCG state and the (odd) increment.
    type V = (u64, u64);

    closed spec fn view(&self) -> (u64, u64) {
        (self.state, self.inc)
    }
}

/// SplitMix64 step function (used only for seeding).
fn splitmix64(x: u64) -> (r: u64)
    ensures
        r == splitmix64_spec(x),
{
    let mut z = x.wrapping_add(SPLITMIX_GAMMA);
    z = (z ^ (z >> 30)).wrapping_mul(SPLITMIX_MUL_A);
    z = (z ^ (z >> 27)).wrapping_mul(SPLITMIX_MUL_B);
    z ^ (z >> 31)
}

fn rotate_right32(x: u32, r: u32) -> (y: u32)
    requires
        r < 32,
    ensures
        y == rotr32(x, r),
{
    if r == 0 {
        x
    } else {
        (x >> r) | (x << (32 - r))
    }
}

/// Stepping `n` times and then once more is stepping `n + 1` times.
proof fn lemma_state_after_succ(state: u64, inc: u64, n: nat)
    ensures
        state_after(state, inc, n + 1) == lcg_step(state_after(state, inc, n), inc),
{
}

impl Pcg32 {
    /// Create a generator from a `seed` and a `stream` selector: both pass
    /// through SplitMix64, `inc = splitmix64(stream) | 1` (odd, so every
    /// stream has the full period) and the state takes one LCG step of
    /// decorrelation.
    pub fn new(seed: u64, stream: u64) -> (rng: Self)
        ensures
            rng@.1 == splitmix64_spec(stream) | 1,
            rng@.0 == lcg_step(splitmix64_spec(seed), splitmix64_spec(stream) | 1),
            rng@.1 % 2 == 1,
    {
        let state = splitmix64(seed);
        let inc = splitmix64(stream) | 1;
        assert(inc % 2 == 1) by (bit_vector)
            requires
                inc == splitmix64_spec(stream) | 1,
        ;
        let mut rng = Pcg32 { state, inc };
        rng.advance_state();
        rng
    }

    /// Rebuild from canonical serialization parts (see [`Pcg32::state`] and
    /// [`Pcg32::stream`]). The increment is taken as given: it is meant
    /// for round-trips of the engine's own bytes, where it is odd.
    pub fn from_raw_parts(state: u64, inc: u64) -> (rng: Self)
        ensures
            rng@ == (state, inc),
    {
        Pcg32 { state, inc }
    }

    /// Next 32 random bits (PCG XSH-RR: xorshift-high then random rotate).
    pub fn next_u32(&mut self) -> (r: u32)
        ensures
            r == pcg_output(old(self)@.0),
            final(self)@ == (lcg_step(old(self)@.0, old(self)@.1), old(self)@.1),
    {
        let old = self.state;
        self.advance_state();
        let xorshifted = (((old >> 18) ^ old) >> 27) as u32;
        let rot = (old >> 59) as u32;
        assert(rot < 32) by (bit_vector)
            requires
                rot == (old >> 59u64) as u32,
        ;
        rotate_right32(xorshifted, rot)
    }

    /// Next 64 random bits: exactly two [`Pcg32::next_u32`] calls, the FIRST
    /// call supplying the LOW word.
    pub fn next_u64(&mut self) -> (r: u64)
        ensures
            r == ((draw_at(old(self)@.0, old(self)@.1, 1) as u64) << 32u64) | (draw_at(
                old(self)@.0,
                old(self)@.1,
                0,
            ) as u64),
            final(self)@ == (state_after(old(self)@.0, old(self)@.1, 2), old(self)@.1),
    {
        let ghost s0 = self@;
        let lo = self.next_u32() as u64;
        let hi = self.next_u32() as u64;
        proof {
            reveal_with_fuel(state_after, 3);
        }
        (hi << 32) | lo
    }

    /// Uniform random value in `0..max_exclusive` by exact unbiased
    /// rejection sampling: draw `x` uniform in `[0, 2^32)` and reject
    /// `x < 2^32 mod max_exclusive`, which leaves a multiple of
    /// `max_exclusive` accepted values so `x % max_exclusive` is exactly
    /// uniform. Rejected draws still advance the stream.
    ///
    /// The loop ends at the first accepted draw, so the caller states that
    /// one exists.
    pub fn bounded(&mut self, max_exclusive: u32) -> (r: u32)
        requires
            max_exclusive > 0,
            exists|k: nat| bounded_accepts(old(self)@.0, old(self)@.1, max_exclusive, k),
        ensures
            r < max_exclusive,
            final(self)@.1 == old(self)@.1,
            exists|k: nat|
                {
                    &&& bounded_first_accept(old(self)@.0, old(self)@.1, max_exclusive, k)
                    &&& r == (draw_at(old(self)@.0, old(self)@.1, k) as u64 % (
                    max_exclusive as u64)) as u32
                    &&& final(self)@.0 == state_after(old(self)@.0, old(self)@.1, k + 1)
                },
    {
        let ghost s0 = self@.0;
        let ghost inc = self@.1;
        let ghost witness = choose|k: nat| bounded_accepts(s0, inc, max_exclusive, k);
        let m = max_exclusive as u64;
        let threshold = 0x1_0000_0000u64 % m;
        let mut i: u64 = 0;
        let ghost mut gi: nat = 0;
        loop
            invariant
                m == max_exclusive as u64,
                m > 0,
                s0 == old(self)@.0,
                inc == old(self)@.1,
                threshold == bounded_threshold(max_exclusive),
                bounded_accepts(s0, inc, max_exclusive, witness),
                gi <= witness,
                self@ == (state_after(s0, inc, gi), inc),
                forall|j: nat| j < gi ==> !bounded_accepts(s0, inc, max_exclusive, j),
            decreases witness - gi,
        {
            let x = self.next_u32() as u64;
            assert(x == draw_at(s0, inc, gi) as u64);
            proof {
                lemma_state_after_succ(s0, inc, gi);
            }
            if x >= threshold {
                let r = (x % m) as u32;
                assert(bounded_first_accept(s0, inc, max_exclusive, gi));
                assert(r == (draw_at(s0, inc, gi) as u64 % (max_exclusive as u64)) as u32);
                assert(self@.0 == state_after(s0, inc, gi + 1));
                return r;
            }
            assert(!bounded_accepts(s0, inc, max_exclusive, gi));
            proof {
                gi = gi + 1;
            }
        }
    }

    /// Current LCG state (for canonical serialization / state hashing).
    pub fn state(&self) -> (s: u64)
        ensures
            s == self@.0,
    {
        self.state
    }

    /// Current stream selector, i.e. the odd LCG increment (for canonical
    /// serialization / state hashing).
    pub fn stream(&self) -> (s: u64)
        ensures
            s == self@.1,
    {
        self.inc
    }

    /// One raw LCG step (state = state * M + inc); output mixing happens in
    /// [`Pcg32::next_u32`] against the PRE-step state.
    fn advance_state(&mut self)
        ensures
            final(self)@ == (lcg_step(old(self)@.0, old(self)@.1), old(self)@.1),
    {
        self.state = self.state.wrapping_mul(MULTIPLIER).wrapping_add(self.inc);
    }
}

/// For a bound that divides 2^32 (a power of two) the sampler rejects
/// nothing: every draw is accepted, so [`Pcg32::bounded`] always returns
/// after exactly one draw.
pub proof fn lemma_power_of_two_bound_accepts(state: u64, inc: u64, m: u32)
    requires
        m > 0,
        m & ((m - 1) as u32) == 0,
    ensures
        bounded_threshold(m) == 0,
        forall|k: nat| bounded_accepts(state, inc, m, k),
{
    assert(0x1_0000_0000u64 % (m as u64) == 0) by (bit_vector)
        requires
            m > 0,
            m & ((m - 1) as u32) == 0,
    ;
}

/// Two generators built from the same seed and stream are identical, and
/// so produce the same draws forever.
pub proof fn lemma_same_seed_same_draws(a: Pcg32, b: Pcg32, seed: u64, stream: u64, k: nat)
    requires
        a@.0 == lcg_step(splitmix64_spec(seed), splitmix64_spec(stream) | 1),
        a@.1 == splitmix64_spec(stream) | 1,
        b@.0 == lcg_step(splitmix64_spec(seed), splitmix64_spec(stream) | 1),
        b@.1 == splitmix64_spec(stream) | 1,
    ensures
        a@ == b@,
        draw_at(a@.0, a@.1, k) == draw_at(b@.0, b@.1, k),
{
}

} // verus!
