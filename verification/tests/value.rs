use erased_cells::{Binary32, Binary64, CellType, CellValue};

fn f32c(x: f32) -> Binary32 {
    Binary32::from_bits(x.to_bits())
}

fn f64c(x: f64) -> Binary64 {
    Binary64::from_bits(x.to_bits())
}

fn num(x: Binary64) -> f64 {
    f64::from_bits(x.to_bits())
}

fn add(a: Binary64, b: Binary64) -> Binary64 {
    f64c(num(a) + num(b))
}

fn sub(a: Binary64, b: Binary64) -> Binary64 {
    f64c(num(a) - num(b))
}

fn mul(a: Binary64, b: Binary64) -> Binary64 {
    f64c(num(a) * num(b))
}

fn div(a: Binary64, b: Binary64) -> Binary64 {
    f64c(num(a) / num(b))
}

#[test]
fn cell_type() {
    assert_eq!(CellValue::UInt8(u8::default()).cell_type(), CellType::UInt8);
    assert_eq!(CellValue::UInt16(u16::default()).cell_type(), CellType::UInt16);
    assert_eq!(CellValue::UInt32(u32::default()).cell_type(), CellType::UInt32);
    assert_eq!(CellValue::UInt64(u64::default()).cell_type(), CellType::UInt64);
    assert_eq!(CellValue::Int8(i8::default()).cell_type(), CellType::Int8);
    assert_eq!(CellValue::Int16(i16::default()).cell_type(), CellType::Int16);
    assert_eq!(CellValue::Int32(i32::default()).cell_type(), CellType::Int32);
    assert_eq!(CellValue::Int64(i64::default()).cell_type(), CellType::Int64);
    assert_eq!(CellValue::Float32(f32c(f32::default())).cell_type(), CellType::Float32);
    assert_eq!(CellValue::Float64(f64c(f64::default())).cell_type(), CellType::Float64);
}

#[test]
fn get() {
    {
        let v = u8::default();
        let cv = CellValue::new(v);
        let r = cv.get::<u8>();
        assert!(r.is_ok());
        assert_eq!(r.unwrap(), v);
        let r2 = cv.get::<Binary64>();
        assert!(r2.is_ok(), "{:?}", cv);
        assert_eq!(r2.unwrap(), f64c(v as f64))
    }
    {
        let v = u16::default();
        let cv = CellValue::new(v);
        let r = cv.get::<u16>();
        assert!(r.is_ok());
        assert_eq!(r.unwrap(), v);
        let r2 = cv.get::<Binary64>();
        assert!(r2.is_ok(), "{:?}", cv);
        assert_eq!(r2.unwrap(), f64c(v as f64))
    }
    {
        let v = u32::default();
        let cv = CellValue::new(v);
        let r = cv.get::<u32>();
        assert!(r.is_ok());
        assert_eq!(r.unwrap(), v);
        let r2 = cv.get::<Binary64>();
        assert!(r2.is_ok(), "{:?}", cv);
        assert_eq!(r2.unwrap(), f64c(v as f64))
    }
    {
        let v = u64::default();
        let cv = CellValue::new(v);
        let r = cv.get::<u64>();
        assert!(r.is_ok());
        assert_eq!(r.unwrap(), v);
        let r2 = cv.get::<Binary64>();
        assert!(r2.is_ok(), "{:?}", cv);
        assert_eq!(r2.unwrap(), f64c(v as f64))
    }
    {
        let v = i8::default();
        let cv = CellValue::new(v);
        let r = cv.get::<i8>();
        assert!(r.is_ok());
        assert_eq!(r.unwrap(), v);
        let r2 = cv.get::<Binary64>();
        assert!(r2.is_ok(), "{:?}", cv);
        assert_eq!(r2.unwrap(), f64c(v as f64))
    }
    {
        let v = i16::default();
        let cv = CellValue::new(v);
        let r = cv.get::<i16>();
        assert!(r.is_ok());
        assert_eq!(r.unwrap(), v);
        let r2 = cv.get::<Binary64>();
        assert!(r2.is_ok(), "{:?}", cv);
        assert_eq!(r2.unwrap(), f64c(v as f64))
    }
    {
        let v = i32::default();
        let cv = CellValue::new(v);
        let r = cv.get::<i32>();
        assert!(r.is_ok());
        assert_eq!(r.unwrap(), v);
        let r2 = cv.get::<Binary64>();
        assert!(r2.is_ok(), "{:?}", cv);
        assert_eq!(r2.unwrap(), f64c(v as f64))
    }
    {
        let v = i64::default();
        let cv = CellValue::new(v);
        let r = cv.get::<i64>();
        assert!(r.is_ok());
        assert_eq!(r.unwrap(), v);
        let r2 = cv.get::<Binary64>();
        assert!(r2.is_ok(), "{:?}", cv);
        assert_eq!(r2.unwrap(), f64c(v as f64))
    }
    {
        let v = f32::default();
        let cv = CellValue::new(f32c(v));
        let r = cv.get::<Binary32>();
        assert!(r.is_ok());
        assert_eq!(r.unwrap(), f32c(v));
        let r2 = cv.get::<Binary64>();
        assert!(r2.is_ok(), "{:?}", cv);
        assert_eq!(r2.unwrap(), f64c(v as f64))
    }
    {
        let v = f64::default();
        let cv = CellValue::new(f64c(v));
        let r = cv.get::<Binary64>();
        assert!(r.is_ok());
        assert_eq!(r.unwrap(), f64c(v));
        let r2 = cv.get::<Binary64>();
        assert!(r2.is_ok(), "{:?}", cv);
        assert_eq!(r2.unwrap(), f64c(v))
    }
}

#[test]
fn value_convert() {
    assert!(matches!(
        CellValue::UInt8(43).convert(CellType::Int16),
        Ok(CellValue::Int16(43))
    ));
    assert!(CellValue::Float32(f32c(3.11111))
        .convert(CellType::Int64)
        .is_err());
    assert!(matches!(
        CellValue::Float32(f32c(3.11111)).convert(CellType::Float32),
        Ok(CellValue::Float32(b)) if b == f32c(3.11111)
    ));
    assert!(matches!(
        CellValue::UInt16(33).convert(CellType::Float32),
        Ok(CellValue::Float32(b)) if b == f32c(33.0)
    ));
}

#[test]
fn zero_one() {
    assert!(CellValue::zero().is_zero());
    assert!(!CellValue::one().is_zero());
}

#[test]
fn value_unary() {
    assert!(matches!(-CellValue::UInt8(1), CellValue::Int16(-1)));
    assert!(matches!(-CellValue::UInt16(1), CellValue::Int32(-1)));
    assert!(matches!(-CellValue::Int8(1), CellValue::Int8(-1)));
    assert!(matches!(-CellValue::Int16(1), CellValue::Int16(-1)));
    assert!(matches!(-CellValue::Float64(f64c(1.0)), CellValue::Float64(b) if b == f64c(-1.0)));
    assert!(matches!(-CellValue::Float32(f32c(1.0)), CellValue::Float32(b) if b == f32c(-1.0)));
}

#[test]
fn binops() {
    let l = CellValue::UInt8(1);
    let r = CellValue::UInt8(2);
    assert_eq!(l.combine(&r, &add), CellValue::Float64(f64c(3.)));
    assert_eq!(l.combine(&2.into(), &add), CellValue::Float64(f64c(3.)));
    assert_eq!(l.combine(&r, &sub), CellValue::Float64(f64c(-1.)));
    assert_eq!(l.combine(&2.into(), &sub), CellValue::Float64(f64c(-1.)));
    assert_eq!(r.combine(&l, &sub), CellValue::Float64(f64c(1.)));
    assert_eq!(l.combine(&r, &mul), CellValue::Float64(f64c(2.)));
    assert_eq!(r.combine(&l, &mul), CellValue::Float64(f64c(2.)));
    assert_eq!(l.combine(&r, &div), CellValue::Float64(f64c(0.5)));
    assert_eq!(r.combine(&l, &div), CellValue::Float64(f64c(2.)));

    let l = CellValue::UInt16(1);
    let r = CellValue::UInt16(2);
    assert_eq!(l.combine(&r, &add), CellValue::Float64(f64c(3.)));
    assert_eq!(l.combine(&r, &sub), CellValue::Float64(f64c(-1.)));
    assert_eq!(r.combine(&l, &sub), CellValue::Float64(f64c(1.)));
    assert_eq!(l.combine(&r, &mul), CellValue::Float64(f64c(2.)));
    assert_eq!(r.combine(&l, &mul), CellValue::Float64(f64c(2.)));
    assert_eq!(l.combine(&r, &div), CellValue::Float64(f64c(0.5)));
    assert_eq!(r.combine(&l, &div), CellValue::Float64(f64c(2.)));

    let l = CellValue::Float32(f32c(1.));
    let r = CellValue::Float32(f32c(2.));
    assert_eq!(l.combine(&r, &add), CellValue::Float32(f32c(3.)));
    assert_eq!(l.combine(&r, &sub), CellValue::Float32(f32c(-1.)));
    assert_eq!(r.combine(&l, &sub), CellValue::Float32(f32c(1.)));
    assert_eq!(l.combine(&r, &mul), CellValue::Float32(f32c(2.)));
    assert_eq!(r.combine(&l, &mul), CellValue::Float32(f32c(2.)));
    assert_eq!(l.combine(&r, &div), CellValue::Float32(f32c(0.5)));
    assert_eq!(r.combine(&l, &div), CellValue::Float32(f32c(2.)));

    let l = CellValue::Float64(f64c(1.));
    let r = CellValue::Float64(f64c(2.));
    assert_eq!(l.combine(&r, &add), CellValue::Float64(f64c(3.)));
    assert_eq!(l.combine(&r, &sub), CellValue::Float64(f64c(-1.)));
    assert_eq!(r.combine(&l, &sub), CellValue::Float64(f64c(1.)));
    assert_eq!(l.combine(&r, &mul), CellValue::Float64(f64c(2.)));
    assert_eq!(r.combine(&l, &mul), CellValue::Float64(f64c(2.)));
    assert_eq!(l.combine(&r, &div), CellValue::Float64(f64c(0.5)));
    assert_eq!(r.combine(&l, &div), CellValue::Float64(f64c(2.)));
}

#[test]
fn round_trip_through_the_own_encoding() {
    let cells = [
        CellValue::UInt8(200),
        CellValue::UInt16(60000),
        CellValue::UInt32(u32::MAX),
        CellValue::UInt64(u64::MAX),
        CellValue::Int8(-128),
        CellValue::Int16(-3),
        CellValue::Int32(i32::MIN),
        CellValue::Int64(i64::MAX),
        CellValue::Float32(f32c(f32::NAN)),
        CellValue::Float32(f32c(-0.0)),
        CellValue::Float64(f64c(3.14)),
        CellValue::Float64(f64c(f64::INFINITY)),
    ];
    for c in cells {
        let back = c.convert(c.cell_type()).unwrap();
        assert_eq!(back.cell_type(), c.cell_type());
        assert_eq!(format!("{back:?}"), format!("{c:?}"));
    }
    assert_eq!(CellValue::new(7u16).get::<u16>().unwrap(), 7);
    assert_eq!(CellValue::new(-7i64).get::<i64>().unwrap(), -7);
}

#[test]
fn narrowing_guard() {
    let r = CellValue::new(f64c(3.14)).convert(CellType::Int64);
    assert!(matches!(
        r,
        Err(erased_cells::Error::NarrowingError { src: CellType::Float64, dst: CellType::Int64 })
    ));
    let r = CellValue::new(43u8).convert(CellType::Int16).unwrap();
    assert!(matches!(r, CellValue::Int16(43)));
    assert!(matches!(
        CellValue::Int8(1).convert(CellType::UInt64),
        Err(erased_cells::Error::NarrowingError { src: CellType::Int8, dst: CellType::UInt64 })
    ));
    assert!(matches!(
        CellValue::UInt32(1).get::<Binary32>(),
        Err(erased_cells::Error::NarrowingError { src: CellType::UInt32, dst: CellType::Float32 })
    ));
    assert!(matches!(CellValue::UInt32(1).get::<i64>(), Ok(1)));
}

#[test]
fn conversion_follows_the_widening_rule() {
    for a in CellType::iter() {
        for b in CellType::iter() {
            let r = a.one().convert(b);
            assert_eq!(r.is_ok(), a.can_fit_into(b), "{a:?} {b:?}");
            if let Ok(c) = r {
                assert_eq!(c.cell_type(), b);
                assert_eq!(c, b.one());
                assert_eq!(format!("{c:?}"), format!("{:?}", b.one()));
            }
            let (l, r) = a.max().unify(&b.min());
            assert_eq!(l.cell_type(), a.union(b));
            assert_eq!(r.cell_type(), a.union(b));
        }
    }
    assert!(matches!(
        CellValue::UInt32(4000000000).convert(CellType::Int64),
        Ok(CellValue::Int64(4000000000))
    ));
    assert!(matches!(
        CellValue::Int16(-5).convert(CellType::Int32),
        Ok(CellValue::Int32(-5))
    ));
    assert_eq!(
        CellValue::Int64(-(1 << 53) - 1).convert(CellType::Float64).unwrap(),
        CellValue::Float64(f64c(-9007199254740992.0))
    );
    assert_eq!(
        CellValue::Float32(f32c(0.1)).convert(CellType::Float64).unwrap(),
        CellValue::Float64(f64c(0.1f32 as f64))
    );
}

#[test]
fn order_of_cells() {
    assert!(CellValue::UInt8(3) == CellValue::Float64(f64c(3.0)));
    assert!(CellValue::UInt8(3) < CellValue::Int16(4));
    assert!(CellValue::Int64(-1) < CellValue::UInt8(0));
    assert!(CellValue::Float32(f32c(0.5)) > CellValue::Int8(0));
    assert!(CellValue::Float64(f64c(f64::NAN)) == CellValue::Float64(f64c(f64::NAN)));
    assert!(CellValue::Float64(f64c(f64::NAN)) > CellValue::Float64(f64c(f64::INFINITY)));
    assert!(CellValue::Float64(f64c(-0.0)) < CellValue::Float64(f64c(0.0)));
    assert!(CellValue::Float64(f64c(-0.0)) != CellValue::Float64(f64c(0.0)));
    assert_eq!(
        CellValue::UInt64(u64::MAX).cmp(&CellValue::Int8(-1)),
        std::cmp::Ordering::Greater
    );
    assert_eq!(CellValue::Int8(5).min(CellValue::UInt8(4)), CellValue::UInt8(4));
    assert_eq!(CellValue::Int8(5).max(CellValue::UInt8(4)), CellValue::Int8(5));
    assert!(matches!(CellValue::Int8(5).min(CellValue::UInt8(5)), CellValue::Int8(5)));
    assert!(matches!(CellValue::Int8(5).max(CellValue::UInt8(5)), CellValue::UInt8(5)));
    assert!(CellValue::Float32(f32c(-0.0)).is_zero());
    assert!(CellValue::Float64(f64c(0.0)).is_zero());
    assert!(!CellValue::Float64(f64c(f64::MIN_POSITIVE)).is_zero());
    assert!(CellValue::Int32(0).is_zero());
    assert!(!CellValue::Int32(-1).is_zero());
}

#[test]
fn negation_of_wide_unsigned_cells() {
    assert!(matches!(-CellValue::UInt32(u32::MAX), CellValue::Int64(-4294967295)));
    assert!(matches!(-CellValue::UInt8(0), CellValue::Int16(0)));
    assert_eq!(-CellValue::UInt64(5), CellValue::Float64(f64c(-5.0)));
    assert!(matches!(-CellValue::UInt64(0), CellValue::Float64(b) if b == f64c(-0.0)));
    assert!(matches!(-CellValue::Int64(i64::MAX), CellValue::Int64(v) if v == -i64::MAX));
    assert!(matches!(
        -CellValue::Float32(f32c(f32::NAN)),
        CellValue::Float32(b) if b == f32c(-f32::NAN)
    ));
}

#[test]
fn operands_of_an_operation() {
    let seen = |a: Binary64, b: Binary64| {
        assert_eq!(a, f64c(16777217.0));
        assert_eq!(b, f64c(0.5));
        f64c(1.0)
    };
    let r = CellValue::UInt32(16777217).combine(&CellValue::Float32(f32c(0.5)), &seen);
    assert!(matches!(r, CellValue::Float64(b) if b == f64c(1.0)));
    let r = CellValue::Int64(i64::MIN).combine(&CellValue::UInt64(u64::MAX), &add);
    assert_eq!(r, CellValue::Float64(f64c(i64::MIN as f64 + u64::MAX as f64)));
}

#[test]
fn integers_at_the_bounds_of_each_encoding() {
    let bounds: [(CellType, i128, i128); 8] = [
        (CellType::UInt8, u8::MIN as i128, u8::MAX as i128),
        (CellType::UInt16, u16::MIN as i128, u16::MAX as i128),
        (CellType::UInt32, u32::MIN as i128, u32::MAX as i128),
        (CellType::UInt64, u64::MIN as i128, u64::MAX as i128),
        (CellType::Int8, i8::MIN as i128, i8::MAX as i128),
        (CellType::Int16, i16::MIN as i128, i16::MAX as i128),
        (CellType::Int32, i32::MIN as i128, i32::MAX as i128),
        (CellType::Int64, i64::MIN as i128, i64::MAX as i128),
    ];
    for (ct, lo, hi) in bounds {
        assert_eq!(CellValue::from_integer(lo - 1, ct), None, "{ct:?}");
        assert_eq!(CellValue::from_integer(hi + 1, ct), None, "{ct:?}");
        assert_eq!(CellValue::from_integer(i128::MIN, ct), None, "{ct:?}");
        assert_eq!(CellValue::from_integer(i128::MAX, ct), None, "{ct:?}");
        for v in [lo, lo + 1, 0, 1, hi - 1, hi] {
            let c = CellValue::from_integer(v, ct).unwrap();
            assert_eq!(c.cell_type(), ct);
            assert_eq!(c.to_integer(), Some(v));
            assert_eq!(c.to_whole(), Some(v));
        }
    }
    assert_eq!(CellValue::from_integer(255, CellType::UInt8), Some(CellValue::UInt8(255)));
    assert_eq!(CellValue::from_integer(-128, CellType::Int8), Some(CellValue::Int8(-128)));
    assert_eq!(CellValue::UInt64(u64::MAX).to_i64(), None);
    assert_eq!(CellValue::UInt64(u64::MAX).to_u64(), Some(u64::MAX));
    assert_eq!(CellValue::Int64(-1).to_u64(), None);
    assert_eq!(CellValue::Int64(i64::MIN).to_i64(), Some(i64::MIN));
}
