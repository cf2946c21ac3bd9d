use erased_cells::{
    Binary64, CellBuffer, CellType, CellValue, Error, Mask, MaskedCellBuffer, NoData,
};

fn f64c(x: f64) -> Binary64 {
    Binary64::from_bits(x.to_bits())
}

fn num(x: Binary64) -> f64 {
    f64::from_bits(x.to_bits())
}

fn add(a: Binary64, b: Binary64) -> Binary64 {
    f64c(num(a) + num(b))
}

fn sub(a: Binary64, b: Binary64) -> Binary64 {
    f64c(num(a) - num(b))
}

fn mul(a: Binary64, b: Binary64) -> Binary64 {
    f64c(num(a) * num(b))
}

fn div(a: Binary64, b: Binary64) -> Binary64 {
    f64c(num(a) / num(b))
}

fn show(c: CellValue) -> String {
    match c {
        CellValue::UInt8(v) => format!("{:?}", v),
        CellValue::UInt16(v) => format!("{:?}", v),
        CellValue::UInt32(v) => format!("{:?}", v),
        CellValue::UInt64(v) => format!("{:?}", v),
        CellValue::Int8(v) => format!("{:?}", v),
        CellValue::Int16(v) => format!("{:?}", v),
        CellValue::Int32(v) => format!("{:?}", v),
        CellValue::Int64(v) => format!("{:?}", v),
        CellValue::Float32(v) => format!("{:?}", f32::from_bits(v.to_bits())),
        CellValue::Float64(v) => format!("{:?}", f64::from_bits(v.to_bits())),
    }
}

fn filler(i: usize) -> u8 {
    i as u8
}

fn masker(i: usize) -> bool {
    i % 2 == 0
}

fn filler_masker(i: usize) -> (u8, bool) {
    (filler(i), masker(i))
}

#[test]
fn masked_ctor() {
    let filler = |i| i as u8 + 1;
    let m = MaskedCellBuffer::fill_via(3, filler);
    let r = MaskedCellBuffer::new(CellBuffer::fill_via(3, |i| filler(i)), Mask::fill(3, true));
    assert_eq!(m, r);
}

#[test]
fn masked_buffer_ctor() {
    let m = MaskedCellBuffer::fill_via(3, filler);
    let r = MaskedCellBuffer::new(CellBuffer::fill_via(3, filler), Mask::fill(3, true));
    assert_eq!(m, r);

    let m = MaskedCellBuffer::from_vec(vec![f64c(0.0); 4]);
    assert_eq!(m.mask().counts(), (4, 0));
    let m = MaskedCellBuffer::with_defaults(4, CellType::Int8);
    assert_eq!(m.mask().counts(), (4, 0));
}

#[test]
fn vec_with_nodata() {
    let v = vec![f64c(1.0), f64c(f64::NAN), f64c(3.0), f64c(f64::NAN)];
    let m = MaskedCellBuffer::from_vec_with_nodata(v.clone(), NoData::Default);
    assert_eq!(
        m,
        MaskedCellBuffer::new(v.clone().into(), Mask::new(vec![true, false, true, false]))
    );
    let m = MaskedCellBuffer::from_vec_with_nodata(v.clone(), NoData::new(f64c(3.0)));
    assert_eq!(
        m,
        MaskedCellBuffer::new(v.into(), Mask::new(vec![true, true, false, true]))
    );
}

#[test]
fn get_masked() {
    let mut buf = MaskedCellBuffer::fill_with_mask_via(9, filler_masker);
    assert_eq!(buf.get(4), 4.into());
    assert_eq!(buf.get_masked(4), Some(4.into()));
    assert_eq!(buf.get_masked(5), None);
    buf.put(5, CellValue::new(4u8)).unwrap();
    assert_eq!(buf.get_masked(5), None);

    buf.mask_mut().put(5, true);
    assert_eq!(buf.get_masked(5), Some(4.into()));
    buf.put_with_mask(5, CellValue::new(99u8), false).unwrap();
    assert_eq!(buf.get_masked(5), None);
}

#[test]
fn masked_buffer_convert() {
    let buf = MaskedCellBuffer::fill_with_mask_via(4, filler_masker);
    let r = buf.convert(CellType::Float64).unwrap();
    assert_eq!(
        r.to_vec::<Binary64>().unwrap(),
        [f64c(0.0), f64c(1.0), f64c(2.0), f64c(3.0)]
    );
}

#[test]
fn masked_buffer_extend() {
    let mut buf = MaskedCellBuffer::fill(3, 0.into());
    buf.extend(vec![(1, false)]);
    assert_eq!(buf.get_masked(0), Some(0.into()));
    assert_eq!(buf.get_masked(3), None);
}

#[test]
fn from_iter() {
    let buf: MaskedCellBuffer = MaskedCellBuffer::from_vec((0..5i16).collect());
    assert!(buf.mask().all(true));
    assert_eq!(buf.to_vec::<i16>().unwrap(), [0, 1, 2, 3, 4i16]);
}

#[test]
fn masked_buffer_unary() {
    let mbuf = MaskedCellBuffer::fill_with_mask_via(9, filler_masker);
    let r = -&mbuf;
    let v = r.to_vec_with_nodata::<i16>(NoData::Default).unwrap();

    assert_eq!(
        v,
        vec![0, i16::MIN, -2, i16::MIN, -4, i16::MIN, -6, i16::MIN, -8]
    );

    let r = -mbuf;

    assert_eq!(r.to_vec_with_nodata::<i16>(NoData::Default).unwrap(), v);
}

#[test]
fn masked_buffer_min_max() {
    let mbuf = MaskedCellBuffer::fill_with_mask_via(9, |i| (filler(i), i != 0 && i != 8));
    assert_eq!(mbuf.min_max(), (1u8.into(), 7u8.into()));
}

#[test]
fn masked_buffer_scalar() {
    // All `true` case
    let mbuf = MaskedCellBuffer::fill_with_mask_via(9, |i| (filler(i), true));
    let r = mbuf.map_with(f64c(2.0).into(), &mul);
    let expected = CellBuffer::fill_via(9, filler).map_with(f64c(2.0).into(), &mul);
    assert_eq!(r, expected.clone().into());

    // Alternating mask case
    let mbuf = MaskedCellBuffer::fill_with_mask_via(9, filler_masker);
    let r = mbuf.map_with(f64c(2.0).into(), &mul);
    assert_ne!(r, expected.into());

    let v = r
        .to_vec_with_nodata::<Binary64>(NoData::Value(f64c(f64::MIN)))
        .unwrap();

    assert_eq!(
        v,
        vec![
            f64c(0.0),
            f64c(f64::MIN),
            f64c(4.0),
            f64c(f64::MIN),
            f64c(8.0),
            f64c(f64::MIN),
            f64c(12.0),
            f64c(f64::MIN),
            f64c(16.0)
        ]
    );
}

#[test]
fn masked_buffer_binary() {
    let lhs = MaskedCellBuffer::new(
        CellBuffer::fill(9, f64c(1f64).into()),
        Mask::fill_via(9, masker),
    );
    let rhs = MaskedCellBuffer::new(CellBuffer::fill(9, f64c(2f64).into()), Mask::fill(9, true));

    {
        let r = lhs.zip_with(&rhs, &add);
        assert_eq!(r.get_masked(0), Some(f64c(1f64 + 2f64).into()));
        assert_eq!(r.get_masked(1), None);
        let r = lhs.clone().zip_with(&rhs, &add);
        assert_eq!(r.get_masked(2), Some(f64c(1f64 + 2f64).into()));
        assert_eq!(r.get_masked(3), None);
        let r = lhs.clone().zip_with(&rhs.clone(), &add);
        assert_eq!(r.get_masked(4), Some(f64c(1f64 + 2f64).into()));
        assert_eq!(r.get_masked(5), None);
    }
    {
        let r = lhs.zip_with(&rhs, &sub);
        assert_eq!(r.get_masked(0), Some(f64c(1f64 - 2f64).into()));
        assert_eq!(r.get_masked(1), None);
        let r = lhs.clone().zip_with(&rhs, &sub);
        assert_eq!(r.get_masked(2), Some(f64c(1f64 - 2f64).into()));
        assert_eq!(r.get_masked(3), None);
        let r = lhs.clone().zip_with(&rhs.clone(), &sub);
        assert_eq!(r.get_masked(4), Some(f64c(1f64 - 2f64).into()));
        assert_eq!(r.get_masked(5), None);
    }
    {
        let r = lhs.zip_with(&rhs, &mul);
        assert_eq!(r.get_masked(0), Some(f64c(1f64 * 2f64).into()));
        assert_eq!(r.get_masked(1), None);
        let r = lhs.clone().zip_with(&rhs, &mul);
        assert_eq!(r.get_masked(2), Some(f64c(1f64 * 2f64).into()));
        assert_eq!(r.get_masked(3), None);
        let r = lhs.clone().zip_with(&rhs.clone(), &mul);
        assert_eq!(r.get_masked(4), Some(f64c(1f64 * 2f64).into()));
        assert_eq!(r.get_masked(5), None);
    }
    {
        let r = lhs.zip_with(&rhs, &div);
        assert_eq!(r.get_masked(0), Some(f64c(1f64 / 2f64).into()));
        assert_eq!(r.get_masked(1), None);
        let r = lhs.clone().zip_with(&rhs, &div);
        assert_eq!(r.get_masked(2), Some(f64c(1f64 / 2f64).into()));
        assert_eq!(r.get_masked(3), None);
        let r = lhs.clone().zip_with(&rhs.clone(), &div);
        assert_eq!(r.get_masked(4), Some(f64c(1f64 / 2f64).into()));
        assert_eq!(r.get_masked(5), None);
    }
}

#[test]
fn masked_buffer_debug() {
    let m: MaskedCellBuffer = MaskedCellBuffer::from_vec((0..1).collect());
    let dbg = m.debug_with(&show);
    assert!(dbg.starts_with("Int32MaskedCellBuffer"));
    assert!(dbg.contains("CellBuffer(0)"));
    assert!(dbg.contains("Mask(true)"));
}

#[test]
fn validity_is_the_conjunction() {
    let lhs = MaskedCellBuffer::new(
        CellBuffer::from_vec(vec![1u8, 2, 3]),
        Mask::new(vec![true, false, true]),
    );
    let rhs = MaskedCellBuffer::new(
        CellBuffer::from_vec(vec![4i16, 5, 6]),
        Mask::new(vec![true, true, false]),
    );
    let r = lhs.zip_with(&rhs, &add);
    assert_eq!(r.mask(), &Mask::new(vec![true, false, false]));
    assert_eq!(
        r.buffer(),
        &CellBuffer::from_vec(vec![f64c(5.0), f64c(7.0), f64c(9.0)])
    );
    assert_eq!(rhs.zip_with(&lhs, &mul).mask(), &Mask::new(vec![true, false, false]));
}

#[test]
fn scalar_arithmetic_keeps_the_mask() {
    let m = MaskedCellBuffer::fill_with_mask_via(6, |i| (i as i32 - 3, i % 3 != 0));
    let r = m.map_with(f64c(2.0).into(), &mul);
    assert_eq!(r.mask(), m.mask());
    assert_eq!(r.counts(), m.counts());
    let r = m.map_with(CellValue::UInt8(1), &sub);
    assert_eq!(r.mask(), m.mask());
    assert_eq!((-&m).mask(), m.mask());
    assert_eq!(m.convert(CellType::Int64).unwrap().mask(), m.mask());
}

#[test]
fn nodata_round_trip() {
    let v = vec![f64c(1.0), f64c(f64::NAN), f64c(3.0), f64c(f64::NAN)];
    let m = MaskedCellBuffer::from_vec_with_nodata(v, NoData::Default);
    assert_eq!(m.mask(), &Mask::new(vec![true, false, true, false]));
    let doubled = m.map_with(f64c(2.0).into(), &mul);
    let out = doubled.to_vec_with_nodata::<Binary64>(NoData::Default).unwrap();
    assert_eq!(
        out,
        vec![f64c(2.0), f64c(f64::NAN), f64c(6.0), f64c(f64::NAN)]
    );
    // without a sentinel the cells come out as they are
    let m = MaskedCellBuffer::fill_with_mask_via(3, |i| (i as u8, i == 1));
    assert_eq!(m.clone().to_vec_with_nodata::<u8>(NoData::Absent).unwrap(), vec![0, 1, 2]);
    assert_eq!(m.clone().to_vec_with_nodata::<u8>(NoData::Default).unwrap(), vec![0, 1, 0]);
    assert_eq!(m.clone().to_vec_with_nodata::<i32>(NoData::new(-9)).unwrap(), vec![-9, 1, -9]);
    assert!(matches!(
        m.to_vec_with_nodata::<i8>(NoData::Default),
        Err(Error::NarrowingError { src: CellType::UInt8, dst: CellType::Int8 })
    ));
}

#[test]
fn normalized_difference_of_two_bands() {
    let sentinel = NoData::new(0u16);
    let red = MaskedCellBuffer::from_vec_with_nodata(vec![10u16, 0, 30, 40, 0, 60], sentinel);
    let nir = MaskedCellBuffer::from_vec_with_nodata(vec![30u16, 20, 0, 40, 0, 20], sentinel);
    let ndvi = nir
        .zip_with(&red, &sub)
        .zip_with(&nir.zip_with(&red, &add), &div);
    let both = nir.mask() & red.mask();
    assert_eq!(ndvi.mask(), &both);
    assert_eq!(ndvi.counts(), both.counts());
    assert_eq!(ndvi.counts(), (3, 3));
    // where only one band is invalid the cell holds a number, which is not looked at
    assert_eq!(ndvi.get(1), CellValue::Float64(f64c(1.0)));
    assert_eq!(ndvi.get(2), CellValue::Float64(f64c(-1.0)));
    assert_eq!(ndvi.get_masked(1), None);
    let (min, max) = ndvi.min_max();
    assert_eq!(min, CellValue::Float64(f64c(-0.5)));
    assert_eq!(max, CellValue::Float64(f64c(0.5)));
    // with one band valid throughout, the counts are those of the other
    let full = MaskedCellBuffer::from_vec(vec![1u16, 2, 3, 4, 5, 6]);
    assert_eq!(nir.zip_with(&full, &add).counts(), nir.counts());
}

#[test]
fn min_max_of_valid_cells_only() {
    let none = MaskedCellBuffer::new(
        CellBuffer::from_vec(vec![5i32, -5]),
        Mask::fill(2, false),
    );
    assert_eq!(
        none.min_max(),
        (CellValue::Int32(i32::MAX), CellValue::Int32(i32::MIN))
    );
    let a = MaskedCellBuffer::new(
        CellBuffer::from_vec(vec![5i32, -500, 7, 900]),
        Mask::new(vec![true, false, true, false]),
    );
    let b = MaskedCellBuffer::new(
        CellBuffer::from_vec(vec![5i32, 123, 7, -123]),
        Mask::new(vec![true, false, true, false]),
    );
    assert_eq!(a.min_max(), (CellValue::Int32(5), CellValue::Int32(7)));
    assert_eq!(a.min_max(), b.min_max());
}

#[test]
fn parts_of_a_masked_buffer() {
    let mut m = MaskedCellBuffer::fill_with_mask_via(3, |i| (i as u32, i != 1));
    assert_eq!(m.len(), 3);
    assert!(!m.is_empty());
    assert_eq!(m.cell_type(), CellType::UInt32);
    assert_eq!(m.get_with_mask(1), (CellValue::UInt32(1), false));
    assert_eq!(m.get_with_mask(2), (CellValue::UInt32(2), true));
    m.buffer_mut().put(0, CellValue::UInt8(8)).unwrap();
    assert_eq!(m.get(0), CellValue::UInt32(8));
    assert!(matches!(
        m.put_with_mask(0, CellValue::Int8(1), false),
        Err(Error::NarrowingError { src: CellType::Int8, dst: CellType::UInt32 })
    ));
    assert_eq!(m.get_with_mask(0), (CellValue::UInt32(8), true));
    let mut it = m.iter();
    assert_eq!(it.next(), Some((CellValue::UInt32(8), true)));
    assert_eq!(it.next(), Some((CellValue::UInt32(1), false)));
    assert_eq!(it.next(), Some((CellValue::UInt32(2), true)));
    assert_eq!(it.next(), None);
    let (buffer, mask) = m.take();
    assert_eq!(buffer, CellBuffer::from_vec(vec![8u32, 1, 2]));
    assert_eq!(mask, Mask::new(vec![true, false, true]));
    let m = MaskedCellBuffer::from_iter(vec![(1i8, true), (2, false)]);
    assert_eq!(m.buffer(), &CellBuffer::from_vec(vec![1i8, 2]));
    assert_eq!(m.mask(), &Mask::new(vec![true, false]));
    assert_eq!(
        m.debug_with(&show),
        "Int8MaskedCellBuffer(Int8CellBuffer(1, 2), Mask(true, false))"
    );
}

fn total<B: erased_cells::BufferOps>(len: usize) -> (usize, CellType, CellValue, CellValue) {
    let mut b = B::fill_via(len, |i| i as i16 - 2);
    b.put(0, CellValue::UInt8(9)).unwrap();
    assert!(b.put(0, CellValue::Int32(9)).is_err());
    let wide = b.convert(CellType::Int64).unwrap();
    assert!(!wide.is_empty());
    let (lo, hi) = wide.min_max();
    assert_eq!(wide.get(1), CellValue::Int64(-1));
    assert_eq!(wide.to_vec::<Binary64>().unwrap().len(), len);
    (b.len(), b.cell_type(), lo, hi)
}

#[test]
fn plain_and_masked_buffers_share_their_operations() {
    let plain = total::<CellBuffer>(5);
    let masked = total::<MaskedCellBuffer>(5);
    assert_eq!(plain, (5, CellType::Int16, CellValue::Int64(-1), CellValue::Int64(9)));
    assert_eq!(plain, masked);
    let b = <CellBuffer as erased_cells::BufferOps>::with_defaults(2, CellType::UInt8);
    assert_eq!(b, CellBuffer::from_vec(vec![0u8, 0]));
    let m = <MaskedCellBuffer as erased_cells::BufferOps>::fill(2, CellValue::Int8(3));
    assert_eq!(m, MaskedCellBuffer::from_vec(vec![3i8, 3]));
    let m = <MaskedCellBuffer as erased_cells::BufferOps>::from_vec(vec![1u8]);
    assert_eq!(m.counts(), (1, 0));
}

#[test]
fn order_of_masked_buffers() {
    let a = MaskedCellBuffer::new(CellBuffer::from_vec(vec![1u8, 2]), Mask::new(vec![true, false]));
    let b = MaskedCellBuffer::new(CellBuffer::from_vec(vec![1u8, 2]), Mask::new(vec![true, true]));
    let c = MaskedCellBuffer::new(CellBuffer::from_vec(vec![1u8, 3]), Mask::new(vec![false, false]));
    assert!(a < b);
    assert!(b < c);
    assert!(a < c);
    assert_eq!(a.cmp(&a.clone()), std::cmp::Ordering::Equal);
    assert_ne!(a, b);
}

#[test]
fn buffer_and_mask_of_one_length() {
    let buffer = CellBuffer::from_vec(vec![1u8, 2]);
    assert!(MaskedCellBuffer::checked_new(buffer.clone(), Mask::fill(3, true)).is_none());
    let m = MaskedCellBuffer::checked_new(buffer.clone(), Mask::fill(2, false)).unwrap();
    assert_eq!(m, MaskedCellBuffer::new(buffer, Mask::fill(2, false)));
}
