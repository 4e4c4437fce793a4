//! Q16.16 fixed-point arithmetic — the only fractional numeric type in
//! simulation state. Every operation is plain integer arithmetic.

use vstd::prelude::*;

verus! {

/// Raw units per 1.0 (2^16).
pub const FX_ONE_RAW: i32 = 0x0001_0000;

/// `v` pinned into the `i32` range.
pub open spec fn sat_i32(v: int) -> i32 {
    if v > i32::MAX {
        i32::MAX
    } else if v < i32::MIN {
        i32::MIN
    } else {
        v as i32
    }
}

/// Absolute value over the integers.
pub open spec fn abs_int(v: int) -> int {
    if v < 0 {
        -v
    } else {
        v
    }
}

/// Division truncating toward zero (the machine `idiv`), `b != 0`.
pub open spec fn trunc_div(a: int, b: int) -> int {
    let q = abs_int(a) / abs_int(b);
    if (a < 0) != (b < 0) {
        -q
    } else {
        q
    }
}

/// Division rounding toward negative infinity by 2^16 (an arithmetic
/// shift right by 16).
pub open spec fn floor_div_one(v: int) -> int {
    v / 65536
}

/// `num / den` in Q16.16 with truncation toward zero, if representable.
pub open spec fn ratio_spec(num: i32, den: i32) -> Option<i32> {
    if den == 0 {
        None
    } else {
        let q = trunc_div(num * 65536, den as int);
        if i32::MIN <= q <= i32::MAX {
            Some(q as i32)
        } else {
            None
        }
    }
}

/// Q16.16 fixed-point number: the inner `i32` counts 1/65536 units, so
/// the raw word `0x0001_0000` is 1.0. Range is roughly [-32768, 32768).
#[derive(Clone, Copy, PartialEq, Eq, PartialOrd, Ord, Debug, Hash)]
pub struct Fixed(i32);

impl View for Fixed {
    /// The raw Q16.16 word.
    type V = i32;

    closed spec fn view(&self) -> i32 {
        self.0
    }
}

/// Narrow an `i64` to `i32`, saturating at the range bounds.
fn saturate_i32(v: i64) -> (r: i32)
    ensures
        r == sat_i32(v as int),
{
    if v > i32::MAX as i64 {
        i32::MAX
    } else if v < i32::MIN as i64 {
        i32::MIN
    } else {
        v as i32
    }
}

/// Division of `a` by a nonzero `b`, truncating toward zero, computed
/// over magnitudes.
fn trunc_div_i64(a: i64, b: i64) -> (q: i64)
    requires
        b != 0,
        -0x8000_0000_0000_0000i64 < a,
        -0x8000_0000_0000_0000i64 < b,
    ensures
        q == trunc_div(a as int, b as int),
{
    let ua: u64 = if a < 0 {
        (-a) as u64
    } else {
        a as u64
    };
    let ub: u64 = if b < 0 {
        (-b) as u64
    } else {
        b as u64
    };
    let uq = ua / ub;
    assert(uq <= ua) by (nonlinear_arith)
        requires
            uq == ua / ub,
            ub > 0,
    ;
    if (a < 0) != (b < 0) {
        -(uq as i64)
    } else {
        uq as i64
    }
}

impl Fixed {
    /// 0.0
    pub fn zero() -> (r: Fixed)
        ensures
            r@ == 0,
    {
        Fixed(0)
    }

    /// 1.0
    pub fn one() -> (r: Fixed)
        ensures
            r@ == 0x0001_0000,
    {
        Fixed(FX_ONE_RAW)
    }

    /// -1.0
    pub fn neg_one() -> (r: Fixed)
        ensures
            r@ == -0x0001_0000,
    {
        Fixed(-FX_ONE_RAW)
    }

    /// Exact integer value. `|v| <= 0x7FFF`, so `v << 16` fits.
    pub fn from_int(v: i32) -> (r: Fixed)
        requires
            -0x7FFF <= v <= 0x7FFF,
        ensures
            r@ == v * 65536,
    {
        assert(v << 16i32 == v * 65536) by (bit_vector)
            requires
                -0x7FFF <= v <= 0x7FFF,
        ;
        Fixed(v << 16)
    }

    /// The integer part, floored toward negative infinity (an arithmetic
    /// shift: -0.5 floors to -1).
    pub fn to_i32_floor(self) -> (r: i32)
        ensures
            r == floor_div_one(self@ as int),
    {
        let v = self.0;
        let r = v >> 16;
        assert(r as int == (v as int) / 65536) by (bit_vector)
            requires
                r == v >> 16i32,
        ;
        r
    }

    /// `num / den` as fixed-point, or `None` if `den == 0` or the result
    /// does not fit Q16.16. 64-bit intermediate, truncating toward zero.
    pub fn from_ratio(num: i32, den: i32) -> (r: Option<Fixed>)
        ensures
            r matches Some(f) ==> ratio_spec(num, den) == Some(f@),
            r is None ==> ratio_spec(num, den) is None,
    {
        if den == 0 {
            return None;
        }
        let a: i64 = (num as i64) * 65536;
        let q = trunc_div_i64(a, den as i64);
        if q > i32::MAX as i64 || q < i32::MIN as i64 {
            None
        } else {
            Some(Fixed(q as i32))
        }
    }

    /// Product via a 64-bit intermediate, then SATURATING narrow: overflow
    /// pins at `i32::MAX` / `i32::MIN` raw rather than wrapping.
    pub fn mul(self, rhs: Fixed) -> (r: Fixed)
        ensures
            r@ == sat_i32(floor_div_one(self@ * rhs@)),
    {
        let a = self.0 as i64;
        let b = rhs.0 as i64;
        assert(-0x4000_0000_0000_0000 <= a * b <= 0x4000_0000_0000_0000) by (nonlinear_arith)
            requires
                -0x8000_0000 <= a <= 0x7fff_ffff,
                -0x8000_0000 <= b <= 0x7fff_ffff,
        ;
        let p: i64 = a * b;
        let q = p >> 16;
        assert(q as int == (p as int) / 65536) by (bit_vector)
            requires
                q == p >> 16i64,
        ;
        Fixed(saturate_i32(q))
    }

    /// Saturating addition.
    pub fn add(self, rhs: Fixed) -> (r: Fixed)
        ensures
            r@ == sat_i32(self@ + rhs@),
    {
        Fixed(saturate_i32(self.0 as i64 + rhs.0 as i64))
    }

    /// Saturating subtraction.
    pub fn sub(self, rhs: Fixed) -> (r: Fixed)
        ensures
            r@ == sat_i32(self@ - rhs@),
    {
        Fixed(saturate_i32(self.0 as i64 - rhs.0 as i64))
    }

    /// Negation, saturating at `i32::MIN` (which negates to `i32::MAX`).
    pub fn neg(self) -> (r: Fixed)
        ensures
            r@ == sat_i32(-self@),
    {
        Fixed(saturate_i32(0 - self.0 as i64))
    }

    /// Absolute value, saturating at `i32::MIN` raw (=> `i32::MAX`).
    pub fn abs(self) -> (r: Fixed)
        ensures
            r@ == sat_i32(abs_int(self@ as int)),
    {
        let v = self.0 as i64;
        Fixed(saturate_i32(if v < 0 {
            -v
        } else {
            v
        }))
    }

    /// Quotient via a 64-bit intermediate (`(self << 16) / rhs`, truncating
    /// toward zero) with SATURATING narrow, or `None` if `rhs` is zero.
    pub fn div(self, rhs: Fixed) -> (r: Option<Fixed>)
        ensures
            rhs@ == 0 <==> r is None,
            r matches Some(f) ==> f@ == sat_i32(trunc_div(self@ * 65536, rhs@ as int)),
    {
        if rhs.0 == 0 {
            return None;
        }
        let a: i64 = (self.0 as i64) * 65536;
        let q = trunc_div_i64(a, rhs.0 as i64);
        Some(Fixed(saturate_i32(q)))
    }

    /// Wrap a raw Q16.16 word (serialization and tests).
    pub fn raw(v: i32) -> (r: Fixed)
        ensures
            r@ == v,
    {
        Fixed(v)
    }

    /// Unwrap the raw Q16.16 word (serialization and tests).
    pub fn to_raw(self) -> (r: i32)
        ensures
            r == self@,
    {
        self.0
    }
}

/// The saturating operations always land in range and agree with exact
/// arithmetic whenever the exact result is representable.
pub proof fn lemma_saturation_exact_in_range(v: int)
    ensures
        i32::MIN <= v <= i32::MAX ==> sat_i32(v) == v,
        v > i32::MAX ==> sat_i32(v) == i32::MAX,
        v < i32::MIN ==> sat_i32(v) == i32::MIN,
{
}

} // verus!
