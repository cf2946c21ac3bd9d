//! Conversions out of and between the formats: widening a binary32,
//! narrowing a binary64, and rounding a binary64 toward zero to an integer.

use vstd::prelude::*;
use vstd::arithmetic::power2::pow2;
use crate::ieee::bits::{Binary32, Binary64};
use crate::ieee::encode::{div_round_half_even, encode_magnitude, encode_magnitude_bits};

verus! {

impl Binary32 {
    /// The binary64 with the same value as `self`.
    ///
    /// A finite value keeps its sign and value: a normal one moves its
    /// exponent to the wider bias, a subnormal one becomes normal. An
    /// infinity stays one. A NaN becomes a quiet NaN that keeps the sign and
    /// the payload.
    pub open spec fn widened(self) -> Binary64 {
        let sign: nat = if self.negative() {
            0x8000_0000_0000_0000
        } else {
            0
        };
        let e = self.exponent();
        let f = self.fraction();
        let magnitude: nat = if e == 255 {
            if f == 0 {
                0x7ff0_0000_0000_0000
            } else {
                0x7ff8_0000_0000_0000 + (f % 0x40_0000) * 0x2000_0000
            }
        } else if e == 0 {
            if f == 0 {
                0
            } else {
                encode_magnitude(f, 52, 874)
            }
        } else {
            (e + 896) * 0x10_0000_0000_0000 + f * 0x2000_0000
        };
        Binary64 { bits: (sign + magnitude) as u64 }
    }

    /// Converts to binary64, keeping the value.
    pub fn widen(self) -> (r: Binary64)
        ensures
            r == self.widened(),
            r.negative() == self.negative(),
            r.nan() == self.nan(),
            r.finite() == self.finite(),
            r.zero() == self.zero(),
    {
        let sign: u64 = if self.bits >= 0x8000_0000 {
            0x8000_0000_0000_0000
        } else {
            0
        };
        let magnitude: u32 = self.bits % 0x8000_0000;
        let e: u64 = (magnitude / 0x80_0000) as u64;
        let f: u64 = (magnitude % 0x80_0000) as u64;
        let wide: u64 = if e == 255 {
            if f == 0 {
                0x7ff0_0000_0000_0000
            } else {
                0x7ff8_0000_0000_0000 + (f % 0x40_0000) * 0x2000_0000
            }
        } else if e == 0 {
            if f == 0 {
                0
            } else {
                proof {
                    vstd::arithmetic::power2::lemma2_to64_rest();
                }
                let bits = encode_magnitude_bits(f, 0x10_0000_0000_0000, 52, 874);
                bits
            }
        } else {
            (e + 896) * 0x10_0000_0000_0000 + f * 0x2000_0000
        };
        Binary64 { bits: sign + wide }
    }
}

/// The power of two with exponent `k`.
pub(crate) fn power_of_two(k: u64) -> (r: u64)
    requires
        k < 64,
    ensures
        r == pow2(k as nat),
        r > 0,
{
    proof {
        vstd::arithmetic::power2::lemma2_to64_rest();
        vstd::arithmetic::power2::lemma_pow2_pos(k as nat);
        if k < 63 {
            vstd::arithmetic::power2::lemma_pow2_strictly_increases(k as nat, 63);
        }
        vstd::bits::lemma_u64_shl_is_mul(1, k);
    }
    1u64 << k
}

impl Binary64 {
    /// The integer part of the absolute value of a finite `self`.
    pub open spec fn truncated_magnitude(self) -> nat {
        self.scaled_magnitude() / pow2(1074)
    }

    /// A finite `self` rounded toward zero to an integer.
    pub open spec fn truncated(self) -> int {
        if self.negative() {
            -(self.truncated_magnitude() as int)
        } else {
            self.truncated_magnitude() as int
        }
    }

    /// The value rounded toward zero to an integer.
    ///
    /// Returns `None` for a NaN, for an infinity, and for a value of
    /// magnitude `2^64` or more.
    pub fn to_integer(&self) -> (r: Option<i128>)
        ensures
            self.finite() && self.truncated_magnitude() < 0x1_0000_0000_0000_0000 ==> r == Some(
                self.truncated() as i128,
            ),
            !(self.finite() && self.truncated_magnitude() < 0x1_0000_0000_0000_0000) ==> r is None,
    {
        let magnitude: u64 = self.bits % 0x8000_0000_0000_0000;
        let e: u64 = magnitude / 0x10_0000_0000_0000;
        let f: u64 = magnitude % 0x10_0000_0000_0000;
        let sig: u64 = 0x10_0000_0000_0000 + f;
        proof {
            vstd::arithmetic::power2::lemma2_to64();
            vstd::arithmetic::power2::lemma2_to64_rest();
            vstd::arithmetic::power2::lemma_pow2_pos(1074);
        }
        if e == 2047 {
            return None;
        }
        let whole: u64 = if e < 1023 {
            proof {
                lemma_below_one(*self);
            }
            0
        } else if e >= 1087 {
            proof {
                lemma_beyond_64_bits(*self);
            }
            return None;
        } else if e >= 1075 {
            let scale = power_of_two(e - 1075);
            proof {
                let k = (e - 1075) as nat;
                vstd::arithmetic::power2::lemma_pow2_adds(k, 1074);
                if k < 11 {
                    vstd::arithmetic::power2::lemma_pow2_strictly_increases(k, 11);
                }
                assert(sig * scale < 0x1_0000_0000_0000_0000) by (nonlinear_arith)
                    requires
                        sig < 0x20_0000_0000_0000,
                        0 < scale <= 0x800,
                ;
                assert(sig * (pow2(k) * pow2(1074)) == pow2(1074) * (sig * scale))
                    by (nonlinear_arith)
                    requires
                        scale == pow2(k),
                ;
                vstd::arithmetic::div_mod::lemma_div_multiples_vanish(
                    (sig * scale) as int,
                    pow2(1074) as int,
                );
            }
            sig * scale
        } else {
            let scale = power_of_two(1075 - e);
            proof {
                let k = (1075 - e) as nat;
                let low = (e - 1) as nat;
                vstd::arithmetic::power2::lemma_pow2_adds(low, k);
                vstd::arithmetic::power2::lemma_pow2_pos(low);
                vstd::arithmetic::div_mod::lemma_div_multiples_vanish_quotient(
                    pow2(low) as int,
                    sig as int,
                    scale as int,
                );
                assert(sig * pow2(low) == pow2(low) * sig) by (nonlinear_arith);
            }
            sig / scale
        };
        if self.bits >= 0x8000_0000_0000_0000 {
            Some(-(whole as i128))
        } else {
            Some(whole as i128)
        }
    }
}

/// `m / unit`, rounded to the nearest integer; a tie goes to the even one.
pub(crate) fn round_div(m: u64, unit: u64) -> (r: u64)
    requires
        unit > 0,
        m < u64::MAX,
    ensures
        r == div_round_half_even(m as nat, unit as nat),
{
    let q = m / unit;
    let rem = m % unit;
    if rem > unit - rem || (rem == unit - rem && q % 2 == 1) {
        q + 1
    } else {
        q
    }
}

impl Binary64 {
    /// The binary32 nearest to `self`, ties to even.
    ///
    /// The sign is kept. A finite value beyond the range of binary32
    /// becomes an infinity, one below half of its least positive value a
    /// zero, and one between those is rounded to 24 significant bits, or to
    /// fewer where the result is subnormal. An infinity stays one. A NaN
    /// becomes a quiet NaN that keeps the upper bits of the payload.
    pub open spec fn narrowed(self) -> Binary32 {
        let sign: nat = if self.negative() {
            0x8000_0000
        } else {
            0
        };
        let e = self.exponent();
        let f = self.fraction();
        let sig = 0x10_0000_0000_0000 + f;
        let magnitude: nat = if e == 2047 {
            if f == 0 {
                0x7f80_0000
            } else {
                0x7fc0_0000 + (f / 0x2000_0000) % 0x40_0000
            }
        } else if e > 1150 {
            0x7f80_0000
        } else if e >= 897 {
            ((e - 897) * 0x80_0000 + div_round_half_even(sig, 0x2000_0000)) as nat
        } else if e >= 873 {
            div_round_half_even(sig, pow2((926 - e) as nat))
        } else {
            0
        };
        Binary32 { bits: (sign + magnitude) as u32 }
    }

    /// Converts to binary32, rounding to nearest with ties to even.
    pub fn narrow(self) -> (r: Binary32)
        ensures
            r == self.narrowed(),
            r.negative() == self.negative(),
            r.nan() == self.nan(),
    {
        let sign: u32 = if self.bits >= 0x8000_0000_0000_0000 {
            0x8000_0000
        } else {
            0
        };
        let magnitude: u64 = self.bits % 0x8000_0000_0000_0000;
        let e: u64 = magnitude / 0x10_0000_0000_0000;
        let f: u64 = magnitude % 0x10_0000_0000_0000;
        let sig: u64 = 0x10_0000_0000_0000 + f;
        let narrow: u64 = if e == 2047 {
            if f == 0 {
                0x7f80_0000
            } else {
                0x7fc0_0000 + (f / 0x2000_0000) % 0x40_0000
            }
        } else if e > 1150 {
            0x7f80_0000
        } else if e >= 897 {
            let q = round_div(sig, 0x2000_0000);
            (e - 897) * 0x80_0000 + q
        } else if e >= 873 {
            let unit = power_of_two(926 - e);
            proof {
                vstd::arithmetic::power2::lemma2_to64();
                vstd::arithmetic::power2::lemma2_to64_rest();
                if 926 - e > 30 {
                    vstd::arithmetic::power2::lemma_pow2_strictly_increases(30, (926 - e) as nat);
                }
            }
            let q = round_div(sig, unit);
            assert(q <= 0x80_0000) by {
                assert(sig / unit <= 0x7f_ffff) by (nonlinear_arith)
                    requires
                        sig < 0x20_0000_0000_0000,
                        unit >= 0x4000_0000,
                ;
            }
            q
        } else {
            0
        };
        Binary32 { bits: sign + narrow as u32 }
    }
}

/// A finite value whose exponent field is below the bias is below one in
/// magnitude.
proof fn lemma_below_one(x: Binary64)
    requires
        x.exponent() < 1023,
    ensures
        x.truncated_magnitude() == 0,
{
    vstd::arithmetic::power2::lemma2_to64();
    vstd::arithmetic::power2::lemma2_to64_rest();
    let e = x.exponent();
    let f = x.fraction();
    if e == 0 {
        vstd::arithmetic::power2::lemma_pow2_strictly_increases(52, 1074);
    } else {
        let low = (e - 1) as nat;
        vstd::arithmetic::power2::lemma_pow2_adds(53, low);
        vstd::arithmetic::power2::lemma_pow2_pos(low);
        if 53 + low < 1074 {
            vstd::arithmetic::power2::lemma_pow2_strictly_increases(53 + low, 1074);
        }
        assert((0x10_0000_0000_0000 + f) * pow2(low) < pow2(53) * pow2(low)) by (nonlinear_arith)
            requires
                0x10_0000_0000_0000 + f < pow2(53),
                pow2(low) > 0,
        ;
    }
    vstd::arithmetic::div_mod::lemma_basic_div(x.scaled_magnitude() as int, pow2(1074) as int);
}

/// A finite value whose exponent field is 64 or more above the bias has a
/// magnitude of `2^64` or more.
proof fn lemma_beyond_64_bits(x: Binary64)
    requires
        x.exponent() >= 1087,
    ensures
        x.truncated_magnitude() >= 0x1_0000_0000_0000_0000,
{
    vstd::arithmetic::power2::lemma2_to64();
    vstd::arithmetic::power2::lemma2_to64_rest();
    let e = x.exponent();
    let f = x.fraction();
    let k = (e - 1075) as nat;
    vstd::arithmetic::power2::lemma_pow2_adds(k, 1074);
    vstd::arithmetic::power2::lemma_pow2_pos(1074);
    if k > 12 {
        vstd::arithmetic::power2::lemma_pow2_strictly_increases(12, k);
    }
    let sig = 0x10_0000_0000_0000 + f;
    assert(sig * (pow2(k) * pow2(1074)) == pow2(1074) * (sig * pow2(k))) by (nonlinear_arith);
    vstd::arithmetic::div_mod::lemma_div_multiples_vanish(
        (sig * pow2(k)) as int,
        pow2(1074) as int,
    );
    assert(sig * pow2(k) >= 0x10_0000_0000_0000 * 0x1000) by (nonlinear_arith)
        requires
            sig >= 0x10_0000_0000_0000,
            pow2(k) >= 0x1000,
    ;
}

} // verus!
