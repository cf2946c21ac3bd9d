use erased_cells::{Binary32, Binary64, CellType, CellValue};
use std::cmp::Ordering;

fn f32c(x: f32) -> Binary32 {
    Binary32::from_bits(x.to_bits())
}

fn f64c(x: f64) -> Binary64 {
    Binary64::from_bits(x.to_bits())
}

fn samples_u64() -> Vec<u64> {
    let mut out = vec![0u64, 1, 2, 3, 255, 65535, 16777215, 16777216, 16777217, u64::MAX];
    for p in 0..64u32 {
        let top = 1u64 << p;
        for d in [0u64, 1, 2, 3, 5] {
            out.push(top.wrapping_add(d));
            out.push(top.wrapping_sub(d));
            out.push(top | (top >> 1).wrapping_add(d));
            out.push(top | (top >> 53));
            out.push(top | (top >> 53) | d);
            out.push(top | (top >> 52) | (top >> 53));
            out.push(top | (top >> 54));
            out.push((top | (top >> 53)).wrapping_sub(1));
            out.push((top | (top >> 24)).wrapping_add(d));
            out.push((top | (top >> 23) | (top >> 24)).wrapping_sub(d));
        }
    }
    let mut x: u64 = 0x9e37_79b9_7f4a_7c15;
    for _ in 0..40000 {
        x ^= x << 13;
        x ^= x >> 7;
        x ^= x << 17;
        out.push(x);
        out.push(x >> (x % 64));
    }
    out
}

fn samples_f64() -> Vec<f64> {
    let mut out = vec![
        0.0,
        -0.0,
        1.0,
        -1.0,
        0.5,
        -0.5,
        0.999999,
        1.5,
        2.5,
        3.5,
        -2.5,
        255.0,
        255.5,
        256.0,
        -128.0,
        -128.5,
        -129.0,
        65535.9,
        65536.0,
        4294967295.0,
        4294967296.0,
        9007199254740992.0,
        9223372036854775807.0,
        9223372036854775808.0,
        -9223372036854775808.0,
        -9223372036854777856.0,
        18446744073709549568.0,
        18446744073709551616.0,
        1e300,
        -1e300,
        1e-300,
        f64::MAX,
        f64::MIN,
        f64::MIN_POSITIVE,
        f64::EPSILON,
        f64::INFINITY,
        f64::NEG_INFINITY,
        f64::NAN,
        -f64::NAN,
        f32::MAX as f64,
        f32::MIN_POSITIVE as f64,
        3.4028235677973366e38,
        3.4028234663852886e38,
        3.4028235e38,
        3.402823669209385e38,
        1.401298464324817e-45,
        7.006492321624085e-46,
        7.006492321624087e-46,
        7.0064923216240839e-46,
        1.1754943508222875e-38,
        1.1754942106924411e-38,
        1.17549428e-38,
        5e-324,
    ];
    let mut x: u64 = 0x2545_f491_4f6c_dd1d;
    for _ in 0..100000 {
        x ^= x << 13;
        x ^= x >> 7;
        x ^= x << 17;
        out.push(f64::from_bits(x));
        // values around the range of binary32 and of the integers
        let e = 1023 - 160 + (x % 330);
        out.push(f64::from_bits((x & 0x800f_ffff_ffff_ffff) | (e << 52)));
        out.push(f64::from_bits((x & 0x800f_ffff_e000_0000) | (e << 52)));
        out.push(f64::from_bits((x & 0x800f_ffff_f000_0000) | (e << 52)));
        out.push(f64::from_bits((x & 0x8000_0000_0000_0000) | (e << 52) | 0x1000_0000));
    }
    out
}

fn samples_f32() -> Vec<f32> {
    let mut out = vec![
        0.0f32,
        -0.0,
        1.0,
        -1.5,
        f32::MAX,
        f32::MIN,
        f32::MIN_POSITIVE,
        f32::EPSILON,
        f32::INFINITY,
        f32::NEG_INFINITY,
        f32::NAN,
        -f32::NAN,
        f32::from_bits(1),
        f32::from_bits(0x007f_ffff),
        f32::from_bits(0x0040_0000),
        f32::from_bits(0x8000_0001),
    ];
    let mut x: u32 = 0x9e37_79b9;
    for _ in 0..100000 {
        x ^= x << 13;
        x ^= x >> 17;
        x ^= x << 5;
        out.push(f32::from_bits(x));
        out.push(f32::from_bits(x & 0x807f_ffff));
    }
    out
}

#[test]
fn integers_go_to_the_nearest_binary64() {
    for v in samples_u64() {
        assert_eq!(Binary64::from_u64(v), f64c(v as f64), "{v}");
        let s = v as i64;
        assert_eq!(Binary64::from_i64(s), f64c(s as f64), "{s}");
        assert_eq!(CellValue::UInt64(v).to_binary64(), f64c(v as f64));
        assert_eq!(CellValue::Int64(s).to_binary64(), f64c(s as f64));
    }
    assert_eq!(Binary64::from_i64(i64::MIN), f64c(i64::MIN as f64));
    assert_eq!(Binary64::from_i64(i64::MAX), f64c(i64::MAX as f64));
    assert_eq!(Binary64::from_u64(43).to_bits(), 0x4045_8000_0000_0000);
    // a tie goes to the even significand
    assert_eq!(Binary64::from_u64((1 << 53) + 1), f64c(9007199254740992.0));
    assert_eq!(Binary64::from_u64((1 << 53) + 3), f64c(9007199254740996.0));
    assert_eq!(Binary64::from_u64(u64::MAX), f64c(18446744073709551616.0));
}

#[test]
fn small_integers_go_to_binary32_exactly() {
    for v in 0..=u16::MAX {
        assert_eq!(Binary32::from_u16(v), f32c(v as f32), "{v}");
        let s = v as i16;
        assert_eq!(Binary32::from_i16(s), f32c(s as f32), "{s}");
    }
    assert_eq!(Binary32::from_u16(33).to_bits(), 0x4204_0000);
    for v in 0..=u8::MAX {
        let c = CellValue::UInt8(v).convert(CellType::Float32).unwrap();
        assert_eq!(c, CellValue::Float32(f32c(v as f32)));
        let c = CellValue::Int8(v as i8).convert(CellType::Float32).unwrap();
        assert_eq!(c, CellValue::Float32(f32c(v as i8 as f32)));
        // converting by value gives the same cell
        assert_eq!(CellValue::UInt8(v).cast(CellType::Float32), Some(c_of(v)));
    }
}

fn c_of(v: u8) -> CellValue {
    CellValue::Float32(f32c(v as f32))
}

#[test]
fn binary32_widens_to_the_same_value() {
    for x in samples_f32() {
        let wide = f32c(x).widen();
        if x.is_nan() {
            assert!(wide.is_nan());
            assert_eq!(wide.is_sign_negative(), x.is_sign_negative());
        } else {
            assert_eq!(wide, f64c(x as f64), "{x:?}");
        }
    }
    assert_eq!(f32c(f32::NAN).widen(), f64c(f64::NAN));
    assert_eq!(f32c(1.5).widen().to_bits(), 0x3ff8_0000_0000_0000);
}

#[test]
fn binary64_narrows_to_the_nearest_binary32() {
    for x in samples_f64() {
        let narrow = f64c(x).narrow();
        if x.is_nan() {
            assert!(narrow.is_nan());
            assert_eq!(narrow.is_sign_negative(), x.is_sign_negative());
        } else {
            assert_eq!(narrow, f32c(x as f32), "{x:?}");
        }
    }
    for x in samples_f32() {
        if !x.is_nan() {
            assert_eq!(f32c(x).widen().narrow(), f32c(x), "{x:?}");
        }
    }
    assert_eq!(f64c(f64::NAN).narrow(), f32c(f32::NAN));
    assert_eq!(f64c(0.1).narrow().to_bits(), 0x3dcc_cccd);
}

#[test]
fn truncation_toward_zero() {
    for x in samples_f64() {
        let got = f64c(x).to_integer();
        if x.is_finite() && x.abs() < 18446744073709551616.0 {
            assert_eq!(got, Some(x.trunc() as i128), "{x:?}");
        } else {
            assert_eq!(got, None, "{x:?}");
        }
        assert_eq!(
            CellValue::Float64(f64c(x)).to_i64(),
            num_traits::ToPrimitive::to_i64(&x),
            "{x:?}"
        );
        assert_eq!(
            CellValue::Float64(f64c(x)).to_u64(),
            num_traits::ToPrimitive::to_u64(&x),
            "{x:?}"
        );
    }
    for x in samples_f32() {
        assert_eq!(
            CellValue::Float32(f32c(x)).to_i64(),
            num_traits::ToPrimitive::to_i64(&x),
            "{x:?}"
        );
        assert_eq!(
            CellValue::Float32(f32c(x)).to_u64(),
            num_traits::ToPrimitive::to_u64(&x),
            "{x:?}"
        );
    }
    assert_eq!(f64c(-3.99).to_integer(), Some(-3));
    assert_eq!(f64c(3.99).to_integer(), Some(3));
    assert_eq!(f64c(-0.0).to_integer(), Some(0));
}

#[test]
fn casting_by_value_follows_the_numeric_conversions() {
    for x in samples_f64() {
        let c = CellValue::Float64(f64c(x));
        assert_eq!(
            c.cast(CellType::UInt8),
            num_traits::ToPrimitive::to_u8(&x).map(CellValue::UInt8),
            "{x:?}"
        );
        assert_eq!(
            c.cast(CellType::Int8),
            num_traits::ToPrimitive::to_i8(&x).map(CellValue::Int8),
            "{x:?}"
        );
        assert_eq!(
            c.cast(CellType::UInt16),
            num_traits::ToPrimitive::to_u16(&x).map(CellValue::UInt16),
            "{x:?}"
        );
        assert_eq!(
            c.cast(CellType::Int16),
            num_traits::ToPrimitive::to_i16(&x).map(CellValue::Int16),
            "{x:?}"
        );
        assert_eq!(
            c.cast(CellType::UInt32),
            num_traits::ToPrimitive::to_u32(&x).map(CellValue::UInt32),
            "{x:?}"
        );
        assert_eq!(
            c.cast(CellType::Int32),
            num_traits::ToPrimitive::to_i32(&x).map(CellValue::Int32),
            "{x:?}"
        );
        assert_eq!(
            c.cast(CellType::UInt64),
            num_traits::ToPrimitive::to_u64(&x).map(CellValue::UInt64),
            "{x:?}"
        );
        assert_eq!(
            c.cast(CellType::Int64),
            num_traits::ToPrimitive::to_i64(&x).map(CellValue::Int64),
            "{x:?}"
        );
    }
    for v in samples_u64() {
        let c = CellValue::UInt64(v);
        assert_eq!(c.cast(CellType::UInt8), u8::try_from(v).ok().map(CellValue::UInt8));
        assert_eq!(c.cast(CellType::Int8), i8::try_from(v).ok().map(CellValue::Int8));
        assert_eq!(c.cast(CellType::UInt16), u16::try_from(v).ok().map(CellValue::UInt16));
        assert_eq!(c.cast(CellType::Int16), i16::try_from(v).ok().map(CellValue::Int16));
        assert_eq!(c.cast(CellType::UInt32), u32::try_from(v).ok().map(CellValue::UInt32));
        assert_eq!(c.cast(CellType::Int32), i32::try_from(v).ok().map(CellValue::Int32));
        assert_eq!(c.cast(CellType::Int64), i64::try_from(v).ok().map(CellValue::Int64));
        assert_eq!(c.cast(CellType::UInt64), Some(c));
        assert_eq!(
            c.cast(CellType::Float32),
            Some(CellValue::Float32(f32c(v as f64 as f32)))
        );
        assert_eq!(c.cast(CellType::Float64), Some(CellValue::Float64(f64c(v as f64))));
        let s = CellValue::Int64(v as i64);
        let w = v as i64;
        assert_eq!(s.cast(CellType::UInt8), u8::try_from(w).ok().map(CellValue::UInt8));
        assert_eq!(s.cast(CellType::Int8), i8::try_from(w).ok().map(CellValue::Int8));
        assert_eq!(s.cast(CellType::UInt16), u16::try_from(w).ok().map(CellValue::UInt16));
        assert_eq!(s.cast(CellType::Int16), i16::try_from(w).ok().map(CellValue::Int16));
        assert_eq!(s.cast(CellType::UInt32), u32::try_from(w).ok().map(CellValue::UInt32));
        assert_eq!(s.cast(CellType::Int32), i32::try_from(w).ok().map(CellValue::Int32));
        assert_eq!(s.cast(CellType::UInt64), u64::try_from(w).ok().map(CellValue::UInt64));
        assert_eq!(
            s.cast(CellType::Float32),
            Some(CellValue::Float32(f32c(w as f64 as f32)))
        );
    }
    // a value out of range is refused, not taken modulo the width
    assert_eq!(CellValue::Int64(300).cast(CellType::UInt8), None);
    assert_eq!(CellValue::Int64(200).cast(CellType::UInt8), Some(CellValue::UInt8(200)));
    assert_eq!(CellValue::Int64(-1).cast(CellType::UInt64), None);
    assert_eq!(CellValue::UInt64(u64::MAX).cast(CellType::Int64), None);
    assert_eq!(CellValue::Int32(-129).cast(CellType::Int8), None);
    assert_eq!(CellValue::Int32(-128).cast(CellType::Int8), Some(CellValue::Int8(-128)));
    assert_eq!(CellValue::UInt32(70000).cast(CellType::UInt16), None);
    assert_eq!(CellValue::UInt32(70000).cast(CellType::Int32), Some(CellValue::Int32(70000)));
    assert_eq!(CellValue::UInt16(40000).cast(CellType::Int16), None);
    assert_eq!(CellValue::Int64(1 << 40).cast(CellType::UInt32), None);
    assert_eq!(CellValue::Int64(1 << 40).cast(CellType::Int32), None);
    assert_eq!(CellValue::from_integer(-5, CellType::Int64), Some(CellValue::Int64(-5)));
    assert_eq!(CellValue::from_integer(1 << 70, CellType::Int64), None);
    assert_eq!(CellValue::from_integer(5, CellType::Float64), None);
    assert_eq!(CellValue::Int16(-5).to_integer(), Some(-5));
    assert_eq!(CellValue::Float32(f32c(5.0)).to_integer(), None);
    assert_eq!(CellValue::Float32(f32c(5.5)).to_whole(), Some(5));
}

#[test]
fn total_order_of_bit_patterns() {
    let xs = samples_f64();
    for w in xs.windows(2) {
        let (a, b) = (w[0], w[1]);
        assert_eq!(f64c(a).total_cmp(&f64c(b)), a.total_cmp(&b), "{a:?} {b:?}");
        assert_eq!(f64c(a).total_cmp(&f64c(a)), Ordering::Equal);
        assert_eq!(f64c(a).negated(), f64c(-a));
        assert_eq!(f64c(a).is_nan(), a.is_nan());
        assert_eq!(f64c(a).is_zero(), a == 0.0);
        assert_eq!(f64c(a).is_sign_negative(), a.is_sign_negative());
    }
    let xs = samples_f32();
    for w in xs.windows(2) {
        let (a, b) = (w[0], w[1]);
        assert_eq!(f32c(a).total_cmp(&f32c(b)), a.total_cmp(&b), "{a:?} {b:?}");
        assert_eq!(f32c(a).negated(), f32c(-a));
        assert_eq!(f32c(a).is_nan(), a.is_nan());
        assert_eq!(f32c(a).is_zero(), a == 0.0);
        assert_eq!(f32c(a).is_sign_negative(), a.is_sign_negative());
    }
    assert_eq!(f64c(-0.0).total_cmp(&f64c(0.0)), Ordering::Less);
    assert_eq!(f64c(f64::NAN).total_cmp(&f64c(f64::INFINITY)), Ordering::Greater);
    assert_eq!(f64c(-f64::NAN).total_cmp(&f64c(f64::NEG_INFINITY)), Ordering::Less);
}

#[test]
fn constants_of_the_formats() {
    assert_eq!(Binary64::zero_value(), f64c(0.0));
    assert_eq!(Binary64::one_value(), f64c(1.0));
    assert_eq!(Binary64::min_value(), f64c(f64::MIN));
    assert_eq!(Binary64::max_value(), f64c(f64::MAX));
    assert_eq!(Binary64::nan_value(), f64c(f64::NAN));
    assert_eq!(Binary32::zero_value(), f32c(0.0));
    assert_eq!(Binary32::one_value(), f32c(1.0));
    assert_eq!(Binary32::min_value(), f32c(f32::MIN));
    assert_eq!(Binary32::max_value(), f32c(f32::MAX));
    assert_eq!(Binary32::nan_value(), f32c(f32::NAN));
    assert_eq!(Binary32::from_bits(7).to_bits(), 7);
    assert_eq!(Binary64::from_bits(7).to_bits(), 7);
}
