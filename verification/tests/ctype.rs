use erased_cells::{Binary32, Binary64, CellType, CellValue, Error};

fn f32c(x: f32) -> Binary32 {
    Binary32::from_bits(x.to_bits())
}

fn f64c(x: f64) -> Binary64 {
    Binary64::from_bits(x.to_bits())
}

#[test]
fn can_union() {
    // reflexivity
    assert_eq!(CellType::UInt8.union(CellType::UInt8), CellType::UInt8);
    assert_eq!(CellType::UInt16.union(CellType::UInt16), CellType::UInt16);
    assert_eq!(CellType::Float32.union(CellType::Float32), CellType::Float32);
    assert_eq!(CellType::Float64.union(CellType::Float64), CellType::Float64);

    // symmetry
    assert_eq!(CellType::Int16.union(CellType::Float32), CellType::Float32);
    assert_eq!(CellType::Float32.union(CellType::Int16), CellType::Float32);
    // widening
    assert_eq!(CellType::UInt8.union(CellType::UInt16), CellType::UInt16);
    assert_eq!(CellType::Int32.union(CellType::Float32), CellType::Float64);
}

#[test]
fn is_integral() {
    assert!(CellType::UInt8.is_integral());
    assert!(CellType::UInt16.is_integral());
    assert!(!CellType::Float32.is_integral());
    assert!(!CellType::Float64.is_integral());
}

#[test]
fn size() {
    assert_eq!(CellType::Int8.size_of(), 1);
    assert_eq!(CellType::UInt8.size_of(), 1);
    assert_eq!(CellType::Int16.size_of(), 2);
    assert_eq!(CellType::UInt16.size_of(), 2);
    assert_eq!(CellType::Int32.size_of(), 4);
    assert_eq!(CellType::UInt32.size_of(), 4);
    assert_eq!(CellType::Int64.size_of(), 8);
    assert_eq!(CellType::UInt64.size_of(), 8);
    assert_eq!(CellType::Float32.size_of(), 4);
    assert_eq!(CellType::Float64.size_of(), 8);
}

#[test]
fn has_min_max() {
    // Confirm min/max returns correct values.
    assert_eq!(CellType::UInt8.min(), u8::MIN.into(), "min");
    assert_eq!(CellType::UInt8.max(), u8::MAX.into(), "max");
    assert_eq!(CellType::UInt16.min(), u16::MIN.into(), "min");
    assert_eq!(CellType::UInt16.max(), u16::MAX.into(), "max");
    assert_eq!(CellType::UInt32.min(), u32::MIN.into(), "min");
    assert_eq!(CellType::UInt32.max(), u32::MAX.into(), "max");
    assert_eq!(CellType::UInt64.min(), u64::MIN.into(), "min");
    assert_eq!(CellType::UInt64.max(), u64::MAX.into(), "max");
    assert_eq!(CellType::Int8.min(), i8::MIN.into(), "min");
    assert_eq!(CellType::Int8.max(), i8::MAX.into(), "max");
    assert_eq!(CellType::Int16.min(), i16::MIN.into(), "min");
    assert_eq!(CellType::Int16.max(), i16::MAX.into(), "max");
    assert_eq!(CellType::Int32.min(), i32::MIN.into(), "min");
    assert_eq!(CellType::Int32.max(), i32::MAX.into(), "max");
    assert_eq!(CellType::Int64.min(), i64::MIN.into(), "min");
    assert_eq!(CellType::Int64.max(), i64::MAX.into(), "max");
    assert_eq!(CellType::Float32.min(), f32c(f32::MIN).into(), "min");
    assert_eq!(CellType::Float32.max(), f32c(f32::MAX).into(), "max");
    assert_eq!(CellType::Float64.min(), f64c(f64::MIN).into(), "min");
    assert_eq!(CellType::Float64.max(), f64c(f64::MAX).into(), "max");
}

#[test]
fn can_string() {
    // Confirm simple serialization.
    assert_eq!(CellType::UInt8.to_string(), "UInt8");
    assert_eq!(CellType::UInt16.to_string(), "UInt16");
    assert_eq!(CellType::UInt32.to_string(), "UInt32");
    assert_eq!(CellType::UInt64.to_string(), "UInt64");
    assert_eq!(CellType::Int8.to_string(), "Int8");
    assert_eq!(CellType::Int16.to_string(), "Int16");
    assert_eq!(CellType::Int32.to_string(), "Int32");
    assert_eq!(CellType::Int64.to_string(), "Int64");
    assert_eq!(CellType::Float32.to_string(), "Float32");
    assert_eq!(CellType::Float64.to_string(), "Float64");

    // Test round-trip conversion to/from String
    for ct in CellType::iter() {
        let stringed = ct.to_string();
        let parsed = CellType::from_str(&stringed);
        assert!(parsed.is_ok(), "{stringed}");
        assert_eq!(parsed.unwrap(), ct, "{stringed}");
    }

    assert!(CellType::from_str("UInt57").is_err());
    assert_eq!("Int16".parse::<CellType>().unwrap(), CellType::Int16);
    assert!("int16".parse::<CellType>().is_err());
}

#[test]
fn union_is_commutative_idempotent_and_widening() {
    for a in CellType::iter() {
        assert_eq!(a.union(a), a);
        assert!(a.can_fit_into(a));
        for b in CellType::iter() {
            let u = a.union(b);
            assert_eq!(u, b.union(a), "{a:?} {b:?}");
            assert!(u.size_of() >= a.size_of().max(b.size_of()), "{a:?} {b:?}");
            assert!(a.can_fit_into(u) && b.can_fit_into(u), "{a:?} {b:?}");
            assert_eq!(a.can_fit_into(b), u == b);
        }
    }
}

#[test]
fn union_of_mixed_encodings() {
    // unsigned with signed: the signed encoding of twice the unsigned width
    assert_eq!(CellType::UInt8.union(CellType::Int8), CellType::Int16);
    assert_eq!(CellType::UInt16.union(CellType::Int8), CellType::Int32);
    assert_eq!(CellType::UInt32.union(CellType::Int64), CellType::Int64);
    assert_eq!(CellType::UInt8.union(CellType::Int64), CellType::Int64);
    // what needs more than eight bytes is held as Float64
    assert_eq!(CellType::UInt64.union(CellType::Int8), CellType::Float64);
    assert_eq!(CellType::Int64.union(CellType::UInt64), CellType::Float64);
    // integers with floats
    assert_eq!(CellType::UInt8.union(CellType::Float32), CellType::Float32);
    assert_eq!(CellType::UInt16.union(CellType::Float32), CellType::Float32);
    assert_eq!(CellType::UInt32.union(CellType::Float32), CellType::Float64);
    assert_eq!(CellType::Int64.union(CellType::Float32), CellType::Float64);
    assert_eq!(CellType::UInt64.union(CellType::Float64), CellType::Float64);
    assert_eq!(CellType::Float32.union(CellType::Float64), CellType::Float64);
    // same class
    assert_eq!(CellType::Int8.union(CellType::Int32), CellType::Int32);
    assert_eq!(CellType::UInt64.union(CellType::UInt16), CellType::UInt64);
}

#[test]
fn canonical_order_and_shape() {
    let all = CellType::iter();
    assert_eq!(all.len(), 10);
    for (i, ct) in all.iter().enumerate() {
        assert_eq!(ct.index() as usize, i);
    }
    assert!(!CellType::UInt32.is_signed());
    assert!(CellType::Int8.is_signed());
    assert!(CellType::Float32.is_signed());
    assert_eq!(CellType::Int16.zero(), CellValue::Int16(0));
    assert_eq!(CellType::Float64.one(), CellValue::Float64(f64c(1.0)));
    assert_eq!(CellType::Float32.one(), CellValue::Float32(f32c(1.0)));
    assert_eq!(CellType::Float32.zero(), CellValue::Float32(f32c(0.0)));
}

#[test]
fn parse_error_keeps_the_text() {
    match CellType::from_str("UInt57") {
        Err(Error::ParseError(text, kind)) => {
            assert_eq!(text, "UInt57");
            assert_eq!(kind, "CellType");
        }
        other => panic!("{other:?}"),
    }
    assert_eq!(
        CellType::from_str("nope").unwrap_err().to_string(),
        "Unable to parse nope as a CellType"
    );
    assert_eq!(
        CellValue::Float64(f64c(3.14))
            .convert(CellType::Int64)
            .unwrap_err()
            .to_string(),
        "Invalid narrowing from cell type Float64 to Int64"
    );
    assert_eq!(
        Error::UnsupportedCellTypeError("CInt16".to_string()).to_string(),
        "Unsupported cell type CInt16"
    );
    assert_eq!(
        Error::ExpectedError("band".to_string()).to_string(),
        "Expected a value but received `None`: band"
    );
}

#[test]
fn encodings_are_ordered_as_declared() {
    let all = CellType::iter();
    for w in all.windows(2) {
        assert!(w[0] < w[1]);
        assert!(w[0].index() < w[1].index());
    }
    assert!(CellType::UInt64 < CellType::Int8);
    assert!(CellType::Int64 < CellType::Float32);
}
