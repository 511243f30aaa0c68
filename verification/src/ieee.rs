//! IEEE-754 numbers carried by their bit patterns.
//!
//! Scene geometry is binary32/binary64 data. The library never computes with
//! it; it only classifies it (finite, positive, in range), and each of those
//! classifications is a plain condition on the encoding's sign, exponent and
//! fraction fields, stated here over the bit pattern itself.

use vstd::prelude::*;
use vstd::arithmetic::mul::lemma_mul_inequality;
use vstd::arithmetic::power2::{lemma2_to64, lemma_pow2_pos, lemma_pow2_strictly_increases, pow2};
use vstd::bits::{lemma_u64_shl_is_mul, lemma_u64_shr_is_div};

verus! {

/// One unit of the binary32 exponent field (2^23).
pub const F32_EXP_UNIT: u32 = 0x80_0000;

/// The binary32 sign bit.
pub const F32_SIGN_BIT: u32 = 0x8000_0000;

/// One unit of the binary64 exponent field (2^52).
pub const F64_EXP_UNIT: u64 = 0x10_0000_0000_0000;

/// The binary64 sign bit.
pub const F64_SIGN_BIT: u64 = 0x8000_0000_0000_0000;

/// A binary32 number, held as its IEEE-754 bit pattern.
#[derive(Debug, Clone, Copy, PartialEq, Eq)]
pub struct Ieee32 {
    pub bits: u32,
}

/// A binary64 number, held as its IEEE-754 bit pattern.
#[derive(Debug, Clone, Copy, PartialEq, Eq)]
pub struct Ieee64 {
    pub bits: u64,
}

/// The biased exponent field of a binary32 pattern.
pub open spec fn exp32(bits: u32) -> int {
    (bits / F32_EXP_UNIT) as int % 0x100
}

/// A binary32 pattern denotes a finite number: its exponent field is not all
/// ones (all ones encodes the infinities and NaN).
pub open spec fn finite32(bits: u32) -> bool {
    exp32(bits) != 0xff
}

/// A binary32 pattern denotes a number strictly greater than zero: finite,
/// sign bit clear, and not a zero.
pub open spec fn positive32(bits: u32) -> bool {
    finite32(bits) && bits < F32_SIGN_BIT && bits != 0
}

/// The biased exponent field of a binary64 pattern.
pub open spec fn exp64(bits: u64) -> int {
    (bits / F64_EXP_UNIT) as int % 0x800
}

/// A binary64 pattern denotes a finite number.
pub open spec fn finite64(bits: u64) -> bool {
    exp64(bits) != 0x7ff
}

/// A finite binary64 pattern denotes a number strictly below zero: sign bit
/// set and not negative zero.
pub open spec fn negative64(bits: u64) -> bool {
    bits > F64_SIGN_BIT
}

/// A finite binary64 pattern denotes a number strictly above the non-negative
/// finite number whose pattern is `limit`. For non-negative numbers the
/// encoding orders like the unsigned integers.
pub open spec fn above64(bits: u64, limit: u64) -> bool {
    bits < F64_SIGN_BIT && bits > limit
}

impl Ieee32 {
    /// Whether the value is finite (neither infinite nor NaN).
    pub fn is_finite(&self) -> (r: bool)
        ensures
            r == finite32(self.bits),
    {
        (self.bits / F32_EXP_UNIT) % 0x100 != 0xff
    }

    /// Whether the value is strictly greater than zero.
    pub fn is_positive(&self) -> (r: bool)
        ensures
            r == positive32(self.bits),
    {
        self.is_finite() && self.bits < F32_SIGN_BIT && self.bits != 0
    }
}

impl Ieee64 {
    /// Whether the value is finite (neither infinite nor NaN).
    pub fn is_finite(&self) -> (r: bool)
        ensures
            r == finite64(self.bits),
    {
        (self.bits / F64_EXP_UNIT) % 0x800 != 0x7ff
    }

    /// Whether a finite value is strictly below zero.
    pub fn is_negative(&self) -> (r: bool)
        ensures
            r == negative64(self.bits),
    {
        self.bits > F64_SIGN_BIT
    }

    /// Whether a finite, non-negative value is strictly above the value whose
    /// pattern is `limit`.
    pub fn is_above(&self, limit: u64) -> (r: bool)
        ensures
            r == above64(self.bits, limit),
    {
        self.bits < F64_SIGN_BIT && self.bits > limit
    }
}


/// The number `ceil() as u32` gives for a binary32 pattern: the smallest
/// integer not below the number, saturated into `0..=u32::MAX` (NaN gives 0).
/// A normal number is its significand `2^23 + fraction` times
/// `2^(exponent - 150)`; a subnormal number lies strictly between 0 and 1.
pub open spec fn ceil_u32(bits: u32) -> u32 {
    let e = exp32(bits);
    let m = bits % F32_EXP_UNIT;
    if e == 0xff {
        if m == 0 && bits < F32_SIGN_BIT {
            u32::MAX
        } else {
            0
        }
    } else if bits >= F32_SIGN_BIT {
        0
    } else if e == 0 {
        if m == 0 {
            0
        } else {
            1
        }
    } else {
        let s = m + F32_EXP_UNIT;
        if e >= 150 {
            let v = s * pow2((e - 150) as nat);
            if v > u32::MAX {
                u32::MAX
            } else {
                v as u32
            }
        } else {
            let d = pow2((150 - e) as nat) as int;
            ((s + d - 1) / d) as u32
        }
    }
}

/// Round a binary32 number up to a whole `u32`, as `ceil() as u32` does.
pub fn ceil_to_u32(bits: u32) -> (r: u32)
    ensures
        r == ceil_u32(bits),
{
    let e = (bits / F32_EXP_UNIT) % 0x100;
    let m = bits % F32_EXP_UNIT;
    if e == 0xff {
        return if m == 0 && bits < F32_SIGN_BIT {
            u32::MAX
        } else {
            0
        };
    }
    if bits >= F32_SIGN_BIT {
        return 0;
    }
    if e == 0 {
        return if m == 0 {
            0
        } else {
            1
        };
    }
    let s: u64 = (m + F32_EXP_UNIT) as u64;
    proof {
        lemma2_to64();
    }
    if e >= 150 {
        let k: u64 = (e - 150) as u64;
        if k >= 9 {
            proof {
                if k > 9 {
                    lemma_pow2_strictly_increases(9, k as nat);
                }
                lemma_mul_inequality(0x80_0000, s as int, pow2(k as nat) as int);
                lemma_mul_inequality(0x200, pow2(k as nat) as int, 0x80_0000);
            }
            return u32::MAX;
        }
        proof {
            if k < 8 {
                lemma_pow2_strictly_increases(k as nat, 8);
            }
            lemma_mul_inequality(s as int, 0x100_0000, pow2(k as nat) as int);
            lemma_mul_inequality(pow2(k as nat) as int, 0x100, 0x100_0000);
            lemma_u64_shl_is_mul(s, k);
        }
        let v = s << k;
        if v > 0xffff_ffff {
            u32::MAX
        } else {
            v as u32
        }
    } else {
        let k: u64 = (150 - e) as u64;
        if k >= 25 {
            proof {
                lemma_pow2_strictly_increases(24, k as nat);
                let d = pow2(k as nat) as int;
                let si = s as int;
                assert((si + d - 1) / d == 1) by (nonlinear_arith)
                    requires
                        0 < si < d,
                ;
            }
            return 1;
        }
        proof {
            if k < 24 {
                lemma_pow2_strictly_increases(k as nat, 24);
            }
            lemma_u64_shl_is_mul(1, k);
        }
        let d: u64 = 1u64 << k;
        let t = s + d - 1;
        proof {
            lemma_u64_shr_is_div(t, k);
            lemma_pow2_pos(k as nat);
            let di = d as int;
            let ti = t as int;
            assert(ti / di <= ti) by (nonlinear_arith)
                requires
                    di > 0,
                    ti >= 0,
            ;
        }
        (t >> k) as u32
    }
}

} // verus!
