//! What the conversions do to the values: widening keeps them, narrowing
//! rounds them, and a small integer has one value in both formats.

use vstd::prelude::*;
use vstd::arithmetic::power2::pow2;
use crate::ieee::bits::{Binary32, Binary64};
use crate::ieee::encode::{
    div_round_half_even,
    encode_magnitude,
    floor_log2,
    lemma_encode_exact,
    lemma_floor_log2_bounds,
};

verus! {

/// A multiple of the unit, divided by the unit, needs no rounding.
pub proof fn lemma_round_div_exact(a: nat, unit: nat)
    requires
        unit > 0,
    ensures
        div_round_half_even(a * unit, unit) == a,
{
    vstd::arithmetic::div_mod::lemma_div_multiples_vanish(a as int, unit as int);
    vstd::arithmetic::div_mod::lemma_mod_multiples_basic(a as int, unit as int);
    assert(a * unit == unit * a) by (nonlinear_arith);
}

/// An integer of magnitude below `2^24` has the same value as a binary32
/// and as a binary64: the one widens to the other.
pub proof fn lemma_small_int_widens(v: int)
    requires
        -0x100_0000 < v < 0x100_0000,
    ensures
        Binary32::of_int(v).widened() == Binary64::of_int(v),
        Binary32::of_int(v).finite(),
{
    vstd::arithmetic::power2::lemma2_to64();
    vstd::arithmetic::power2::lemma2_to64_rest();
    if v != 0 {
        let m = vstd::math::abs(v) as nat;
        lemma_floor_log2_bounds(m);
        let p = floor_log2(m);
        if p > 24 {
            vstd::arithmetic::power2::lemma_pow2_strictly_increases(24, p);
        }
        assert(p <= 23);
        lemma_encode_exact(m, 23, 127);
        lemma_encode_exact(m, 52, 1023);
        let low = pow2((23 - p) as nat);
        let high = pow2((52 - p) as nat);
        vstd::arithmetic::power2::lemma_pow2_adds((23 - p) as nat, 29);
        assert(high == low * 0x2000_0000);
        let narrow = encode_magnitude(m, 23, 127);
        let e: nat = 127 + p;
        let f: nat = (m * low - 0x80_0000) as nat;
        assert(narrow == e * 0x80_0000 + f);
        assert(e * 0x80_0000 <= 150 * 0x80_0000) by (nonlinear_arith)
            requires
                e <= 150,
        ;
        assert(narrow < 0x7f80_0000);
        let x = Binary32::of_int(v);
        assert(x.magnitude() == narrow);
        assert(x.exponent() == e);
        assert(x.fraction() == f);
        assert((e + 896) * 0x10_0000_0000_0000 + f * 0x2000_0000 == (1023 + p)
            * 0x10_0000_0000_0000 + (m * high - 0x10_0000_0000_0000)) by (nonlinear_arith)
            requires
                e == 127 + p,
                f == m * low - 0x80_0000,
                high == low * 0x2000_0000,
        ;
        lemma_encoded_small(m);
    }
}

/// The binary64 magnitude bits of an integer below `2^24` are below those
/// of `2^24`.
proof fn lemma_encoded_small(m: nat)
    requires
        0 < m < 0x100_0000,
    ensures
        encode_magnitude(m, 52, 1023) < 0x4170_0000_0000_0000,
{
    vstd::arithmetic::power2::lemma2_to64();
    vstd::arithmetic::power2::lemma2_to64_rest();
    lemma_floor_log2_bounds(m);
    let p = floor_log2(m);
    if p > 24 {
        vstd::arithmetic::power2::lemma_pow2_strictly_increases(24, p);
    }
    lemma_encode_exact(m, 52, 1023);
    assert((1023 + p) * 0x10_0000_0000_0000 <= 1046 * 0x10_0000_0000_0000) by (nonlinear_arith)
        requires
            p <= 23,
    ;
}

/// A binary32 that is widened and narrowed again comes back as it was,
/// unless it is a NaN.
pub proof fn lemma_widen_then_narrow(x: Binary32)
    requires
        !x.nan(),
    ensures
        x.widened().narrowed() == x,
{
    vstd::arithmetic::power2::lemma2_to64();
    vstd::arithmetic::power2::lemma2_to64_rest();
    let e = x.exponent();
    let f = x.fraction();
    let sign: nat = if x.negative() {
        0x8000_0000_0000_0000
    } else {
        0
    };
    let wide = x.widened();
    vstd::arithmetic::div_mod::lemma_fundamental_div_mod(x.magnitude() as int, 0x80_0000);
    assert(x.magnitude() == 0x80_0000 * e + f);
    assert(e <= 255);
    if e == 255 {
        assert(f == 0);
        assert(wide.magnitude() == 0x7ff0_0000_0000_0000);
        assert(wide.exponent() == 2047 && wide.fraction() == 0);
    } else if e == 0 {
        if f == 0 {
            assert(wide.magnitude() == 0);
            assert(wide.exponent() == 0);
        } else {
            lemma_floor_log2_bounds(f);
            let p = floor_log2(f);
            if p > 23 {
                vstd::arithmetic::power2::lemma_pow2_strictly_increases(23, p);
            }
            assert(p <= 22);
            lemma_encode_exact(f, 52, 874);
            let scale = pow2((52 - p) as nat);
            let sig = f * scale;
            let m = encode_magnitude(f, 52, 874);
            assert((874 + p) * 0x10_0000_0000_0000 <= 896 * 0x10_0000_0000_0000)
                by (nonlinear_arith)
                requires
                    p <= 22,
            ;
            assert(m < 0x7ff0_0000_0000_0000);
            assert(wide.magnitude() == m);
            assert(wide.exponent() == 874 + p);
            assert(wide.fraction() == sig - 0x10_0000_0000_0000);
            vstd::arithmetic::power2::lemma_pow2_pos((52 - p) as nat);
            lemma_round_div_exact(f, scale);
            assert((926 - (874 + p)) as nat == (52 - p) as nat);
        }
    } else {
        let m = (e + 896) * 0x10_0000_0000_0000 + f * 0x2000_0000;
        assert(f * 0x2000_0000 < 0x10_0000_0000_0000);
        assert((e + 896) * 0x10_0000_0000_0000 <= 1150 * 0x10_0000_0000_0000) by (nonlinear_arith)
            requires
                e <= 254,
        ;
        assert(wide.magnitude() == m);
        vstd::arithmetic::div_mod::lemma_fundamental_div_mod_converse(
            m as int,
            0x10_0000_0000_0000,
            (e + 896) as int,
            (f * 0x2000_0000) as int,
        );
        assert(wide.exponent() == e + 896);
        assert(wide.fraction() == f * 0x2000_0000);
        lemma_round_div_exact(0x80_0000 + f, 0x2000_0000);
        assert(0x10_0000_0000_0000 + f * 0x2000_0000 == (0x80_0000 + f) * 0x2000_0000);
        assert(((e + 896) - 897) * 0x80_0000 + (0x80_0000 + f) == 0x80_0000 * e + f)
            by (nonlinear_arith)
            requires
                e >= 1,
        ;
    }
}

/// A finite binary32 keeps its sign and its value when it is widened.
///
/// The values are compared as integers: the one scaled by `2^149`, the
/// other by `2^1074`, which is `2^925` times as much.
pub proof fn lemma_widened_value(x: Binary32)
    requires
        x.finite(),
    ensures
        x.widened().finite(),
        x.widened().negative() == x.negative(),
        x.widened().scaled_magnitude() == x.scaled_magnitude() * pow2(925),
{
    vstd::arithmetic::power2::lemma2_to64();
    vstd::arithmetic::power2::lemma2_to64_rest();
    let e = x.exponent();
    let f = x.fraction();
    let wide = x.widened();
    vstd::arithmetic::div_mod::lemma_fundamental_div_mod(x.magnitude() as int, 0x80_0000);
    assert(x.magnitude() == 0x80_0000 * e + f);
    assert(e <= 254);
    if e == 0 {
        if f == 0 {
            assert(wide.magnitude() == 0);
            assert(wide.exponent() == 0);
            assert(0 * pow2(925) == 0) by (nonlinear_arith);
        } else {
            lemma_floor_log2_bounds(f);
            let p = floor_log2(f);
            if p > 23 {
                vstd::arithmetic::power2::lemma_pow2_strictly_increases(23, p);
            }
            lemma_encode_exact(f, 52, 874);
            let scale = pow2((52 - p) as nat);
            let sig = f * scale;
            let m = encode_magnitude(f, 52, 874);
            assert((874 + p) * 0x10_0000_0000_0000 <= 896 * 0x10_0000_0000_0000)
                by (nonlinear_arith)
                requires
                    p <= 22,
            ;
            assert(wide.magnitude() == m);
            assert(wide.exponent() == 874 + p);
            assert(wide.fraction() == sig - 0x10_0000_0000_0000);
            let low = (873 + p) as nat;
            vstd::arithmetic::power2::lemma_pow2_adds((52 - p) as nat, low);
            assert(sig * pow2(low) == f * pow2(925)) by (nonlinear_arith)
                requires
                    sig == f * scale,
                    pow2(925) == scale * pow2(low),
            ;
        }
    } else {
        let m = (e + 896) * 0x10_0000_0000_0000 + f * 0x2000_0000;
        assert((e + 896) * 0x10_0000_0000_0000 <= 1150 * 0x10_0000_0000_0000) by (nonlinear_arith)
            requires
                e <= 254,
        ;
        assert(wide.magnitude() == m);
        vstd::arithmetic::div_mod::lemma_fundamental_div_mod_converse(
            m as int,
            0x10_0000_0000_0000,
            (e + 896) as int,
            (f * 0x2000_0000) as int,
        );
        assert(wide.exponent() == e + 896);
        assert(wide.fraction() == f * 0x2000_0000);
        let low = (e - 1) as nat;
        vstd::arithmetic::power2::lemma_pow2_adds(low, 925);
        vstd::arithmetic::power2::lemma_pow2_adds(29, (e + 895) as nat);
        vstd::arithmetic::power2::lemma_pow2_adds(29, 896);
        vstd::arithmetic::power2::lemma_pow2_adds(low, 896);
        assert(pow2((e + 895) as nat) == pow2(low) * pow2(896));
        assert(pow2(925) == 0x2000_0000 * pow2(896));
        assert((0x10_0000_0000_0000 + f * 0x2000_0000) * pow2((e + 895) as nat) == ((0x80_0000 + f)
            * pow2(low)) * pow2(925)) by (nonlinear_arith)
            requires
                pow2((e + 895) as nat) == pow2(low) * pow2(896),
                pow2(925) == 0x2000_0000 * pow2(896),
        ;
    }
}

/// The weight, in units of the last bit of a binary64 significand, of the
/// last bit that a binary32 keeps of a binary64 with the exponent field
/// `e`: `2^29` where the binary32 is normal, more where it is subnormal.
pub open spec fn kept_unit(e: nat) -> nat {
    if e >= 897 {
        0x2000_0000
    } else {
        pow2((926 - e) as nat)
    }
}

/// What narrowing does to the value of a finite binary64.
///
/// Beyond the range of binary32 the result is an infinity, and far below
/// it a zero. Between those, where the result is finite, its value is that
/// of `self` with the significand rounded to the bits that a binary32
/// keeps, to nearest and ties to even. The values are compared as
/// integers, scaled by `2^1074`.
pub proof fn lemma_narrowed_value(x: Binary64)
    requires
        x.finite(),
    ensures
        x.narrowed().negative() == x.negative(),
        x.exponent() > 1150 ==> x.narrowed().magnitude() == 0x7f80_0000,
        x.exponent() < 873 ==> x.narrowed().zero(),
        873 <= x.exponent() <= 1150 && x.narrowed().finite() ==> x.narrowed().scaled_magnitude()
            * pow2(925) == (div_round_half_even(
            0x10_0000_0000_0000 + x.fraction(),
            kept_unit(x.exponent()),
        ) * kept_unit(x.exponent())) * pow2((x.exponent() - 1) as nat),
{
    vstd::arithmetic::power2::lemma2_to64();
    vstd::arithmetic::power2::lemma2_to64_rest();
    let e = x.exponent();
    let f = x.fraction();
    let sig: nat = 0x10_0000_0000_0000 + f;
    let r = x.narrowed();
    vstd::arithmetic::div_mod::lemma_fundamental_div_mod(x.magnitude() as int, 0x10_0000_0000_0000);
    assert(e <= 2046);
    if 897 <= e <= 1150 {
        let q = div_round_half_even(sig, 0x2000_0000);
        assert(0x80_0000 <= q <= 0x100_0000);
        let bits: nat = ((e - 897) * 0x80_0000 + q) as nat;
        assert((e - 897) * 0x80_0000 <= 253 * 0x80_0000) by (nonlinear_arith)
            requires
                897 <= e <= 1150,
        ;
        assert(r.magnitude() == bits);
        if r.finite() {
            let low = (e - 897) as nat;
            vstd::arithmetic::power2::lemma_pow2_adds(low, 925);
            vstd::arithmetic::power2::lemma_pow2_adds(29, (e - 1) as nat);
            vstd::arithmetic::power2::lemma_pow2_adds(29, 896);
            vstd::arithmetic::power2::lemma_pow2_adds(low, 896);
            assert(pow2((e - 1) as nat) == pow2(low) * pow2(896));
            assert(pow2(925) == 0x2000_0000 * pow2(896));
            if q < 0x100_0000 {
                let expo: nat = (e - 896) as nat;
                let frac: nat = (q - 0x80_0000) as nat;
                assert(bits == expo * 0x80_0000 + frac) by (nonlinear_arith)
                    requires
                        bits == (e - 897) * 0x80_0000 + q,
                        expo == e - 896,
                        frac == q - 0x80_0000,
                ;
                vstd::arithmetic::div_mod::lemma_fundamental_div_mod_converse(
                    bits as int,
                    0x80_0000,
                    expo as int,
                    frac as int,
                );
                assert(r.exponent() == expo);
                assert(r.fraction() == frac);
                assert(r.scaled_magnitude() == q * pow2(low));
            } else {
                let expo: nat = (e - 895) as nat;
                assert(bits == expo * 0x80_0000 + 0) by (nonlinear_arith)
                    requires
                        bits == (e - 897) * 0x80_0000 + q,
                        expo == e - 895,
                        q == 0x100_0000,
                ;
                vstd::arithmetic::div_mod::lemma_fundamental_div_mod_converse(
                    bits as int,
                    0x80_0000,
                    expo as int,
                    0,
                );
                assert(r.exponent() == expo);
                assert(r.fraction() == 0);
                vstd::arithmetic::power2::lemma_pow2_unfold((e - 896) as nat);
                assert(r.scaled_magnitude() == q * pow2(low)) by (nonlinear_arith)
                    requires
                        r.scaled_magnitude() == 0x80_0000 * pow2((e - 896) as nat),
                        pow2((e - 896) as nat) == 2 * pow2(low),
                        q == 0x100_0000,
                ;
            }
            assert((q * pow2(low)) * pow2(925) == (q * 0x2000_0000) * pow2((e - 1) as nat))
                by (nonlinear_arith)
                requires
                    pow2((e - 1) as nat) == pow2(low) * pow2(896),
                    pow2(925) == 0x2000_0000 * pow2(896),
            ;
        }
    } else if 873 <= e <= 896 {
        let k = (926 - e) as nat;
        let unit = pow2(k);
        if k > 30 {
            vstd::arithmetic::power2::lemma_pow2_strictly_increases(30, k);
        }
        assert(unit >= 0x4000_0000);
        let q = div_round_half_even(sig, unit);
        assert(sig / unit <= 0x7f_ffff) by (nonlinear_arith)
            requires
                sig < 0x20_0000_0000_0000,
                unit >= 0x4000_0000,
        ;
        assert(q <= 0x80_0000);
        assert(r.magnitude() == q);
        vstd::arithmetic::power2::lemma_pow2_adds(k, (e - 1) as nat);
        if q < 0x80_0000 {
            vstd::arithmetic::div_mod::lemma_fundamental_div_mod_converse(
                q as int,
                0x80_0000,
                0,
                q as int,
            );
            assert(r.exponent() == 0);
            assert(r.fraction() == q);
        } else {
            vstd::arithmetic::div_mod::lemma_fundamental_div_mod_converse(
                q as int,
                0x80_0000,
                1,
                0,
            );
            assert(r.exponent() == 1);
            assert(r.fraction() == 0);
            assert(pow2(0) == 1);
            assert(r.scaled_magnitude() == q);
        }
        assert(q * pow2(925) == (q * unit) * pow2((e - 1) as nat)) by (nonlinear_arith)
            requires
                pow2(925) == unit * pow2((e - 1) as nat),
        ;
    }
}

/// An integer of magnitude below `2^24` goes to the same binary32 directly
/// and by way of its binary64.
pub proof fn lemma_small_int_narrows(v: int)
    requires
        -0x100_0000 < v < 0x100_0000,
    ensures
        Binary64::of_int(v).narrowed() == Binary32::of_int(v),
{
    lemma_small_int_widens(v);
    lemma_widen_then_narrow(Binary32::of_int(v));
}

} // verus!
