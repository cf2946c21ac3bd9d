//! The encoding of integers: the binary32 and the binary64 nearest to an
//! integer, and what value the encoded bits have.

use vstd::prelude::*;
use vstd::arithmetic::power2::pow2;
use crate::ieee::bits::{Binary32, Binary64};

verus! {

/// The position of the highest set bit of a positive integer.
pub open spec fn floor_log2(m: nat) -> nat
    decreases m,
{
    if m < 2 {
        0
    } else {
        1 + floor_log2(m / 2)
    }
}

/// `m / unit`, rounded to the nearest integer; a tie goes to the even one.
pub open spec fn div_round_half_even(m: nat, unit: nat) -> nat {
    let q = m / unit;
    let r = m % unit;
    if 2 * r > unit || (2 * r == unit && q % 2 == 1) {
        q + 1
    } else {
        q
    }
}

/// The magnitude bits of the positive integer `m` in a binary format with
/// `fraction_bits` fraction bits and the given exponent bias.
///
/// With `p` the position of the highest set bit of `m`, the exponent field
/// is `bias + p` and the significand is `m` scaled to `fraction_bits + 1`
/// bits, rounded to nearest with ties to even where `m` has more bits than
/// that. A significand that rounds up to the next power of two carries into
/// the exponent field, as the format intends.
pub open spec fn encode_magnitude(m: nat, fraction_bits: nat, bias: nat) -> nat {
    let p = floor_log2(m);
    let significand = if p <= fraction_bits {
        m * pow2((fraction_bits - p) as nat)
    } else {
        div_round_half_even(m, pow2((p - fraction_bits) as nat))
    };
    ((bias + p) * pow2(fraction_bits) + significand - pow2(fraction_bits)) as nat
}

/// The highest set bit of `m` lies between `2^floor_log2(m)` and twice that.
pub proof fn lemma_floor_log2_bounds(m: nat)
    requires
        m > 0,
    ensures
        pow2(floor_log2(m)) <= m < 2 * pow2(floor_log2(m)),
    decreases m,
{
    vstd::arithmetic::power2::lemma2_to64();
    if m >= 2 {
        lemma_floor_log2_bounds(m / 2);
        vstd::arithmetic::power2::lemma_pow2_unfold(floor_log2(m));
    }
}

/// The position of the highest set bit is the one exponent whose power of
/// two is no more than `m` and more than half of it.
pub proof fn lemma_floor_log2_unique(m: nat, p: nat)
    requires
        pow2(p) <= m < 2 * pow2(p),
    ensures
        floor_log2(m) == p,
    decreases p,
{
    vstd::arithmetic::power2::lemma2_to64();
    if p > 0 {
        vstd::arithmetic::power2::lemma_pow2_unfold(p);
        lemma_floor_log2_unique(m / 2, (p - 1) as nat);
    }
}

/// Finds the highest set bit of `m`: its position and its value.
pub(crate) fn highest_bit(m: u64) -> (r: (u32, u64))
    requires
        m > 0,
    ensures
        r.0 == floor_log2(m as nat),
        r.1 == pow2(r.0 as nat),
        r.0 < 64,
        r.1 <= m,
        m - r.1 < r.1,
{
    let zeros: u32 = m.leading_zeros();
    proof {
        vstd::std_specs::bits::axiom_u64_leading_zeros(m);
    }
    let p: u32 = 63 - zeros;
    let shift: u64 = p as u64;
    let top: u64 = 1u64 << shift;
    proof {
        vstd::arithmetic::power2::lemma2_to64();
        vstd::arithmetic::power2::lemma2_to64_rest();
        let kept = m >> shift;
        assert(kept & 1 != 0);
        assert(kept != 0) by (bit_vector)
            requires
                kept & 1 != 0,
        ;
        vstd::bits::lemma_u64_shr_is_div(m, shift);
        vstd::arithmetic::power2::lemma_pow2_pos(p as nat);
        assert(pow2(p as nat) <= m) by {
            if m < pow2(p as nat) {
                vstd::arithmetic::div_mod::lemma_basic_div(m as int, pow2(p as nat) as int);
            }
        }
        if p < 63 {
            let above: u64 = (shift + 1) as u64;
            assert(m >> above == 0);
            vstd::bits::lemma_u64_shr_is_div(m, above);
            vstd::arithmetic::power2::lemma_pow2_unfold((p + 1) as nat);
            vstd::arithmetic::power2::lemma_pow2_pos((p + 1) as nat);
            assert(m < pow2((p + 1) as nat)) by {
                if m >= pow2((p + 1) as nat) {
                    vstd::arithmetic::div_mod::lemma_div_is_ordered(
                        pow2((p + 1) as nat) as int,
                        m as int,
                        pow2((p + 1) as nat) as int,
                    );
                    vstd::arithmetic::div_mod::lemma_div_basics(pow2((p + 1) as nat) as int);
                }
            }
        } else {
            vstd::arithmetic::power2::lemma_pow2_unfold(64);
        }
        if p < 63 {
            vstd::arithmetic::power2::lemma_pow2_strictly_increases(p as nat, 63);
        }
        vstd::bits::lemma_u64_shl_is_mul(1, shift);
        lemma_floor_log2_unique(m as nat, p as nat);
    }
    (p, top)
}

/// Computes the magnitude bits of the positive integer `m` in the format
/// with `fraction_bits` fraction bits, whose implicit bit is `unit`.
pub(crate) fn encode_magnitude_bits(m: u64, unit: u64, fraction_bits: u32, bias: u64) -> (r: u64)
    requires
        m > 0,
        fraction_bits <= 52,
        unit == pow2(fraction_bits as nat),
        bias <= 1023,
    ensures
        r == encode_magnitude(m as nat, fraction_bits as nat, bias as nat),
        r < 0x7ff0_0000_0000_0000,
        r >= bias * unit,
{
    let (p, top) = highest_bit(m);
    proof {
        vstd::arithmetic::power2::lemma2_to64();
        vstd::arithmetic::power2::lemma2_to64_rest();
        if p <= fraction_bits {
            if p < fraction_bits {
                vstd::arithmetic::power2::lemma_pow2_strictly_increases(
                    p as nat,
                    fraction_bits as nat,
                );
            }
        } else {
            vstd::arithmetic::power2::lemma_pow2_strictly_increases(
                fraction_bits as nat,
                p as nat,
            );
        }
        vstd::arithmetic::power2::lemma_pow2_strictly_increases(fraction_bits as nat, 53);
        assert(unit < 0x20_0000_0000_0000);
    }
    let significand: u64 = if top <= unit {
        let scale = unit / top;
        proof {
            vstd::arithmetic::power2::lemma_pow2_subtracts(p as nat, fraction_bits as nat);
            vstd::arithmetic::power2::lemma_pow2_adds(
                p as nat,
                (fraction_bits - p) as nat,
            );
            assert(scale == pow2((fraction_bits - p) as nat));
            assert(top * scale == unit);
            assert(m * scale < 2 * unit && top * scale <= m * scale) by (nonlinear_arith)
                requires
                    top <= m,
                    m < 2 * top,
                    top * scale == unit,
                    scale > 0,
            ;
        }
        m * scale
    } else {
        let ulp = top / unit;
        proof {
            vstd::arithmetic::power2::lemma_pow2_subtracts(fraction_bits as nat, p as nat);
            vstd::arithmetic::power2::lemma_pow2_adds(
                fraction_bits as nat,
                (p - fraction_bits) as nat,
            );
            assert(ulp == pow2((p - fraction_bits) as nat));
            assert(ulp * unit == top) by (nonlinear_arith)
                requires
                    unit * ulp == top,
            ;
        }
        let q = m / ulp;
        let rem = m % ulp;
        proof {
            assert(m == ulp * q + rem) by {
                vstd::arithmetic::div_mod::lemma_fundamental_div_mod(m as int, ulp as int);
            }
            assert(unit <= q < 2 * unit) by (nonlinear_arith)
                requires
                    m == ulp * q + rem,
                    0 <= rem < ulp,
                    ulp * unit <= m,
                    m < 2 * (ulp * unit),
                    ulp > 0,
            ;
        }
        if rem > ulp - rem || (rem == ulp - rem && q % 2 == 1) {
            q + 1
        } else {
            q
        }
    };
    assert(unit <= significand <= 2 * unit);
    assert((bias + p) * unit <= (1023 + 63) * unit) by (nonlinear_arith)
        requires
            bias <= 1023,
            p <= 63,
            unit >= 0,
    ;
    assert((1023 + 63) * unit <= (1023 + 63) * 0x10_0000_0000_0000) by (nonlinear_arith)
        requires
            unit <= 0x10_0000_0000_0000,
    ;
    assert(bias * unit <= (bias + p) * unit) by (nonlinear_arith)
        requires
            p >= 0,
            unit >= 0,
            bias >= 0,
    ;
    (bias + p as u64) * unit + significand - unit
}

impl Binary64 {
    /// The binary64 nearest to the integer `v`, ties to even.
    ///
    /// Integers of magnitude up to `2^53` are met exactly.
    pub open spec fn of_int(v: int) -> Binary64 {
        if v == 0 {
            Binary64 { bits: 0 }
        } else if v > 0 {
            Binary64 { bits: encode_magnitude(v as nat, 52, 1023) as u64 }
        } else {
            Binary64 {
                bits: (0x8000_0000_0000_0000 + encode_magnitude((-v) as nat, 52, 1023)) as u64,
            }
        }
    }

    /// The binary64 nearest to `v`, ties to even.
    pub fn from_u64(v: u64) -> (r: Self)
        ensures
            r == Self::of_int(v as int),
            r.finite(),
            !r.negative(),
    {
        if v == 0 {
            Binary64 { bits: 0 }
        } else {
            proof {
                vstd::arithmetic::power2::lemma2_to64_rest();
            }
            Binary64 { bits: encode_magnitude_bits(v, 0x10_0000_0000_0000, 52, 1023) }
        }
    }

    /// The binary64 nearest to `v`, ties to even.
    pub fn from_i64(v: i64) -> (r: Self)
        ensures
            r == Self::of_int(v as int),
            r.finite(),
            r.negative() == (v < 0),
    {
        proof {
            vstd::arithmetic::power2::lemma2_to64_rest();
        }
        if v == 0 {
            Binary64 { bits: 0 }
        } else if v > 0 {
            Binary64 { bits: encode_magnitude_bits(v as u64, 0x10_0000_0000_0000, 52, 1023) }
        } else {
            let m: u64 = if v == i64::MIN {
                0x8000_0000_0000_0000
            } else {
                (-v) as u64
            };
            Binary64 {
                bits: 0x8000_0000_0000_0000 + encode_magnitude_bits(
                    m,
                    0x10_0000_0000_0000,
                    52,
                    1023,
                ),
            }
        }
    }
}

impl Binary32 {
    /// The binary32 nearest to the integer `v`, ties to even.
    ///
    /// Integers of magnitude up to `2^24` are met exactly.
    pub open spec fn of_int(v: int) -> Binary32 {
        if v == 0 {
            Binary32 { bits: 0 }
        } else if v > 0 {
            Binary32 { bits: encode_magnitude(v as nat, 23, 127) as u32 }
        } else {
            Binary32 { bits: (0x8000_0000 + encode_magnitude((-v) as nat, 23, 127)) as u32 }
        }
    }

    /// The binary32 that holds `v`.
    pub fn from_u16(v: u16) -> (r: Self)
        ensures
            r == Self::of_int(v as int),
            r.finite(),
            !r.negative(),
    {
        if v == 0 {
            Binary32 { bits: 0 }
        } else {
            proof {
                vstd::arithmetic::power2::lemma2_to64();
            }
            let bits = encode_magnitude_bits(v as u64, 0x80_0000, 23, 127);
            proof {
                lemma_encode_small(v as nat);
            }
            Binary32 { bits: bits as u32 }
        }
    }

    /// The binary32 that holds `v`.
    pub fn from_i16(v: i16) -> (r: Self)
        ensures
            r == Self::of_int(v as int),
            r.finite(),
            r.negative() == (v < 0),
    {
        proof {
            vstd::arithmetic::power2::lemma2_to64();
        }
        if v == 0 {
            Binary32 { bits: 0 }
        } else if v > 0 {
            let bits = encode_magnitude_bits(v as u64, 0x80_0000, 23, 127);
            proof {
                lemma_encode_small(v as nat);
            }
            Binary32 { bits: bits as u32 }
        } else {
            let m: u64 = (-(v as i32)) as u64;
            let bits = encode_magnitude_bits(m, 0x80_0000, 23, 127);
            proof {
                lemma_encode_small(m as nat);
            }
            Binary32 { bits: 0x8000_0000 + bits as u32 }
        }
    }
}

/// An integer below `2^24` has binary32 magnitude bits below those of `2^24`.
proof fn lemma_encode_small(m: nat)
    requires
        0 < m < 0x100_0000,
    ensures
        encode_magnitude(m, 23, 127) < 0x4b80_0000,
        encode_magnitude(m, 23, 127) >= 0x3f80_0000,
{
    vstd::arithmetic::power2::lemma2_to64();
    lemma_floor_log2_bounds(m);
    let p = floor_log2(m);
    if p > 24 {
        vstd::arithmetic::power2::lemma_pow2_strictly_increases(24, p);
    }
    assert(p <= 23);
    let scale = pow2((23 - p) as nat);
    vstd::arithmetic::power2::lemma_pow2_adds(p, (23 - p) as nat);
    assert(m * scale < 2 * 0x80_0000 && m * scale >= 0x80_0000) by (nonlinear_arith)
        requires
            pow2(p) <= m < 2 * pow2(p),
            pow2(p) * scale == 0x80_0000,
            scale >= 0,
    ;
    assert((127 + p) * 0x80_0000 <= 150 * 0x80_0000);
}

/// The integer nearest to `m` that has at most 53 significant bits; a tie
/// goes to the one whose last significant bit is zero.
pub open spec fn nearest_in_53_bits(m: nat) -> nat {
    let p = floor_log2(m);
    if p <= 52 {
        m
    } else {
        div_round_half_even(m, pow2((p - 52) as nat)) * pow2((p - 52) as nat)
    }
}

/// The magnitude bits that encode a positive integer below `2^64` as a
/// binary64 are those of a finite value, and that value is the integer
/// itself where 53 bits hold it, and the nearest integer of 53 bits else.
pub proof fn lemma_encoded_value(m: nat)
    requires
        0 < m < 0x1_0000_0000_0000_0000,
    ensures
        encode_magnitude(m, 52, 1023) < 0x7ff0_0000_0000_0000,
        (Binary64 { bits: encode_magnitude(m, 52, 1023) as u64 }).finite(),
        !(Binary64 { bits: encode_magnitude(m, 52, 1023) as u64 }).negative(),
        (Binary64 { bits: encode_magnitude(m, 52, 1023) as u64 }).scaled_magnitude()
            == nearest_in_53_bits(m) * pow2(1074),
{
    vstd::arithmetic::power2::lemma2_to64();
    vstd::arithmetic::power2::lemma2_to64_rest();
    lemma_floor_log2_bounds(m);
    let p = floor_log2(m);
    if p > 64 {
        vstd::arithmetic::power2::lemma_pow2_strictly_increases(64, p);
    }
    assert(p < 64);
    let unit: nat = 0x10_0000_0000_0000;
    let bits = encode_magnitude(m, 52, 1023);
    let x = Binary64 { bits: bits as u64 };
    if p <= 52 {
        let scale = pow2((52 - p) as nat);
        vstd::arithmetic::power2::lemma_pow2_adds(p, (52 - p) as nat);
        vstd::arithmetic::power2::lemma_pow2_pos((52 - p) as nat);
        let sig = m * scale;
        assert(unit <= sig < 2 * unit) by (nonlinear_arith)
            requires
                pow2(p) <= m < 2 * pow2(p),
                pow2(p) * scale == unit,
                scale > 0,
                sig == m * scale,
        ;
        let e: nat = 1023 + p;
        let f: nat = (sig - unit) as nat;
        assert(bits == e * unit + f) by (nonlinear_arith)
            requires
                bits == (1023 + p) * unit + sig - unit,
                e == 1023 + p,
                f == sig - unit,
        ;
        assert(e * unit <= 1075 * unit) by (nonlinear_arith)
            requires
                e <= 1075,
        ;
        vstd::arithmetic::div_mod::lemma_fundamental_div_mod_converse(
            bits as int,
            unit as int,
            e as int,
            f as int,
        );
        assert(x.exponent() == e);
        assert(x.fraction() == f);
        let low = (1022 + p) as nat;
        vstd::arithmetic::power2::lemma_pow2_adds((52 - p) as nat, low);
        assert(sig * pow2(low) == m * pow2(1074)) by (nonlinear_arith)
            requires
                sig == m * scale,
                pow2(1074) == scale * pow2(low),
        ;
    } else {
        let k = (p - 52) as nat;
        let ulp = pow2(k);
        vstd::arithmetic::power2::lemma_pow2_adds(52, k);
        vstd::arithmetic::power2::lemma_pow2_pos(k);
        let q0 = m / ulp;
        let r = m % ulp;
        vstd::arithmetic::div_mod::lemma_fundamental_div_mod(m as int, ulp as int);
        assert(unit <= q0 < 2 * unit) by (nonlinear_arith)
            requires
                m == ulp * q0 + r,
                0 <= r < ulp,
                unit * ulp <= m,
                m < 2 * (unit * ulp),
                ulp > 0,
        ;
        let q = div_round_half_even(m, ulp);
        assert(q == q0 || q == q0 + 1);
        let low = (1022 + p) as nat;
        vstd::arithmetic::power2::lemma_pow2_adds(k, 1074);
        assert(pow2(low) == ulp * pow2(1074));
        if q < 2 * unit {
            let e: nat = 1023 + p;
            let f: nat = (q - unit) as nat;
            assert(bits == e * unit + f) by (nonlinear_arith)
                requires
                    bits == (1023 + p) * unit + q - unit,
                    e == 1023 + p,
                    f == q - unit,
            ;
            assert(e * unit <= 1086 * unit) by (nonlinear_arith)
                requires
                    e <= 1086,
            ;
            vstd::arithmetic::div_mod::lemma_fundamental_div_mod_converse(
                bits as int,
                unit as int,
                e as int,
                f as int,
            );
            assert(x.exponent() == e);
            assert(x.fraction() == f);
            assert(q * pow2(low) == (q * ulp) * pow2(1074)) by (nonlinear_arith)
                requires
                    pow2(low) == ulp * pow2(1074),
            ;
        } else {
            let e: nat = 1024 + p;
            assert(bits == e * unit + 0) by (nonlinear_arith)
                requires
                    bits == (1023 + p) * unit + q - unit,
                    e == 1024 + p,
                    q == 2 * unit,
            ;
            assert(e * unit <= 1087 * unit) by (nonlinear_arith)
                requires
                    e <= 1087,
            ;
            vstd::arithmetic::div_mod::lemma_fundamental_div_mod_converse(
                bits as int,
                unit as int,
                e as int,
                0,
            );
            assert(x.exponent() == e);
            assert(x.fraction() == 0);
            vstd::arithmetic::power2::lemma_pow2_unfold((1023 + p) as nat);
            assert(unit * pow2((1023 + p) as nat) == (q * ulp) * pow2(1074)) by (nonlinear_arith)
                requires
                    pow2((1023 + p) as nat) == 2 * pow2(low),
                    pow2(low) == ulp * pow2(1074),
                    q == 2 * unit,
            ;
        }
    }
}

/// The binary64 of an integer of magnitude below `2^64` is finite, has the
/// sign of the integer, and has as its value the integer itself where 53
/// bits hold its magnitude, and the nearest such integer else. An integer
/// of magnitude up to `2^53` comes back when the binary64 is rounded
/// toward zero.
pub proof fn lemma_of_int_value(v: int)
    requires
        -0x1_0000_0000_0000_0000 < v < 0x1_0000_0000_0000_0000,
    ensures
        Binary64::of_int(v).finite(),
        Binary64::of_int(v).negative() == (v < 0),
        Binary64::of_int(v).scaled_magnitude() == nearest_in_53_bits(vstd::math::abs(v) as nat)
            * pow2(1074),
        -0x20_0000_0000_0000 <= v <= 0x20_0000_0000_0000 ==> Binary64::of_int(v).truncated() == v,
{
    vstd::arithmetic::power2::lemma2_to64();
    vstd::arithmetic::power2::lemma2_to64_rest();
    vstd::arithmetic::power2::lemma_pow2_pos(1074);
    let m = vstd::math::abs(v) as nat;
    let x = Binary64::of_int(v);
    if v == 0 {
        assert(x.scaled_magnitude() == 0);
        assert(nearest_in_53_bits(0) == 0);
        assert(0 * pow2(1074) == 0) by (nonlinear_arith);
        vstd::arithmetic::div_mod::lemma_basic_div(0, pow2(1074) as int);
    } else {
        lemma_encoded_value(m);
        let y = Binary64 { bits: encode_magnitude(m, 52, 1023) as u64 };
        assert(x.magnitude() == y.magnitude());
        assert(x.scaled_magnitude() == y.scaled_magnitude());
        if m <= 0x20_0000_0000_0000 {
            lemma_floor_log2_bounds(m);
            let p = floor_log2(m);
            if p > 53 {
                vstd::arithmetic::power2::lemma_pow2_strictly_increases(53, p);
            }
            assert(p <= 53);
            if p == 53 {
                assert(m == 0x20_0000_0000_0000);
                assert(pow2((p - 52) as nat) == 2);
                assert(m / 2 == 0x10_0000_0000_0000 && m % 2 == 0);
                let d = div_round_half_even(m, 2);
                assert(d == 0x10_0000_0000_0000);
                assert(d * 2 == m) by (nonlinear_arith)
                    requires
                        d == 0x10_0000_0000_0000,
                        m == 0x20_0000_0000_0000,
                ;
                assert(nearest_in_53_bits(m) == d * 2);
            }
            assert(nearest_in_53_bits(m) == m);
            vstd::arithmetic::div_mod::lemma_div_multiples_vanish(m as int, pow2(1074) as int);
            assert(m * pow2(1074) == pow2(1074) * m) by (nonlinear_arith);
        }
    }
}

/// Where `m` has no more significant bits than the format has, its
/// encoding holds `m` itself: the exponent field is the bias plus the
/// position of the highest bit, the fraction is `m` shifted up to the
/// implicit bit, without that bit.
pub proof fn lemma_encode_exact(m: nat, fraction_bits: nat, bias: nat)
    requires
        m > 0,
        floor_log2(m) <= fraction_bits,
    ensures
        pow2(fraction_bits) <= m * pow2((fraction_bits - floor_log2(m)) as nat) < 2 * pow2(
            fraction_bits,
        ),
        encode_magnitude(m, fraction_bits, bias) == (bias + floor_log2(m)) * pow2(fraction_bits)
            + (m * pow2((fraction_bits - floor_log2(m)) as nat) - pow2(fraction_bits)),
        encode_magnitude(m, fraction_bits, bias) / pow2(fraction_bits) == bias + floor_log2(m),
        encode_magnitude(m, fraction_bits, bias) % pow2(fraction_bits) == m * pow2(
            (fraction_bits - floor_log2(m)) as nat,
        ) - pow2(fraction_bits),
{
    lemma_floor_log2_bounds(m);
    let p = floor_log2(m);
    let unit = pow2(fraction_bits);
    let scale = pow2((fraction_bits - p) as nat);
    vstd::arithmetic::power2::lemma_pow2_adds(p, (fraction_bits - p) as nat);
    vstd::arithmetic::power2::lemma_pow2_pos((fraction_bits - p) as nat);
    vstd::arithmetic::power2::lemma_pow2_pos(fraction_bits);
    let sig = m * scale;
    assert(unit <= sig < 2 * unit) by (nonlinear_arith)
        requires
            pow2(p) <= m < 2 * pow2(p),
            pow2(p) * scale == unit,
            scale > 0,
            sig == m * scale,
    ;
    let e: nat = bias + p;
    let f: nat = (sig - unit) as nat;
    let bits = encode_magnitude(m, fraction_bits, bias);
    assert(bits == e * unit + f) by (nonlinear_arith)
        requires
            bits == (bias + p) * unit + sig - unit,
            e == bias + p,
            f == sig - unit,
    ;
    vstd::arithmetic::div_mod::lemma_fundamental_div_mod_converse(
        bits as int,
        unit as int,
        e as int,
        f as int,
    );
}

} // verus!
