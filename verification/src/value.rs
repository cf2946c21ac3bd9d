//! A single cell: one value of one encoding.

use vstd::prelude::*;
use std::cmp::Ordering;
use crate::cast::{
    narrow_to_i16,
    narrow_to_i32,
    narrow_to_i64,
    narrow_to_i8,
    narrow_to_u16,
    narrow_to_u32,
    narrow_to_u64,
    narrow_to_u8,
};
use crate::ctype::{lemma_fits_into, CellType};
use crate::encoding::CellEncoding;
use crate::error::{narrowing, Error};
use crate::ieee::encode::lemma_of_int_value;
use crate::ieee::{
    int_ordering,
    lemma_order_key_injective,
    lemma_order_key_injective_32,
    lemma_small_int_narrows,
    lemma_small_int_widens,
    Binary32,
    Binary64,
};

verus! {

/// Value variants for each [`CellType`].
#[derive(Debug, Copy, Clone)]
pub enum CellValue {
    UInt8(u8),
    UInt16(u16),
    UInt32(u32),
    UInt64(u64),
    Int8(i8),
    Int16(i16),
    Int32(i32),
    Int64(i64),
    Float32(Binary32),
    Float64(Binary64),
}

/// Whether the integer `v` lies in the range of the integer encoding `t`.
pub open spec fn holds_int(t: CellType, v: int) -> bool {
    match t {
        CellType::UInt8 => u8::MIN <= v <= u8::MAX,
        CellType::UInt16 => u16::MIN <= v <= u16::MAX,
        CellType::UInt32 => u32::MIN <= v <= u32::MAX,
        CellType::UInt64 => u64::MIN <= v <= u64::MAX,
        CellType::Int8 => i8::MIN <= v <= i8::MAX,
        CellType::Int16 => i16::MIN <= v <= i16::MAX,
        CellType::Int32 => i32::MIN <= v <= i32::MAX,
        CellType::Int64 => i64::MIN <= v <= i64::MAX,
        CellType::Float32 | CellType::Float64 => false,
    }
}

impl CellValue {
    /// The encoding of the cell.
    pub open spec fn tag(self) -> CellType {
        match self {
            CellValue::UInt8(_) => CellType::UInt8,
            CellValue::UInt16(_) => CellType::UInt16,
            CellValue::UInt32(_) => CellType::UInt32,
            CellValue::UInt64(_) => CellType::UInt64,
            CellValue::Int8(_) => CellType::Int8,
            CellValue::Int16(_) => CellType::Int16,
            CellValue::Int32(_) => CellType::Int32,
            CellValue::Int64(_) => CellType::Int64,
            CellValue::Float32(_) => CellType::Float32,
            CellValue::Float64(_) => CellType::Float64,
        }
    }

    /// The integer that an integer cell holds; `0` for a floating-point cell.
    pub open spec fn int_value(self) -> int {
        match self {
            CellValue::UInt8(v) => v as int,
            CellValue::UInt16(v) => v as int,
            CellValue::UInt32(v) => v as int,
            CellValue::UInt64(v) => v as int,
            CellValue::Int8(v) => v as int,
            CellValue::Int16(v) => v as int,
            CellValue::Int32(v) => v as int,
            CellValue::Int64(v) => v as int,
            CellValue::Float32(_) => 0,
            CellValue::Float64(_) => 0,
        }
    }

    /// The cell of encoding `t` for the integer `v`: the integer itself in
    /// an integer encoding that holds it, the nearest value in a
    /// floating-point encoding.
    pub open spec fn of_int(t: CellType, v: int) -> CellValue {
        match t {
            CellType::UInt8 => CellValue::UInt8(v as u8),
            CellType::UInt16 => CellValue::UInt16(v as u16),
            CellType::UInt32 => CellValue::UInt32(v as u32),
            CellType::UInt64 => CellValue::UInt64(v as u64),
            CellType::Int8 => CellValue::Int8(v as i8),
            CellType::Int16 => CellValue::Int16(v as i16),
            CellType::Int32 => CellValue::Int32(v as i32),
            CellType::Int64 => CellValue::Int64(v as i64),
            CellType::Float32 => CellValue::Float32(Binary32::of_int(v)),
            CellType::Float64 => CellValue::Float64(Binary64::of_int(v)),
        }
    }

    /// The value as a binary64: an integer goes to the nearest binary64, a
    /// binary32 keeps its value.
    pub open spec fn as_binary64(self) -> Binary64 {
        match self {
            CellValue::Float32(b) => b.widened(),
            CellValue::Float64(b) => b,
            _ => Binary64::of_int(self.int_value()),
        }
    }

    /// The cell after widening to the encoding `t`.
    ///
    /// This is what `convert` gives where the encoding of `self` fits
    /// into `t`.
    pub open spec fn widened(self, t: CellType) -> CellValue {
        if t == self.tag() {
            self
        } else if t is Float64 {
            CellValue::Float64(self.as_binary64())
        } else {
            Self::of_int(t, self.int_value())
        }
    }

    /// Construct new [`CellValue`] from a statically known [`CellEncoding`].
    pub fn new<T: CellEncoding>(value: T) -> (r: Self)
        ensures
            r == value.cell(),
            r.tag() == T::tag(),
    {
        value.into_cell_value()
    }

    /// Get the [`CellType`] encoding `self`.
    pub fn cell_type(&self) -> (r: CellType)
        ensures
            r == self.tag(),
    {
        match self {
            CellValue::UInt8(_) => CellType::UInt8,
            CellValue::UInt16(_) => CellType::UInt16,
            CellValue::UInt32(_) => CellType::UInt32,
            CellValue::UInt64(_) => CellType::UInt64,
            CellValue::Int8(_) => CellType::Int8,
            CellValue::Int16(_) => CellType::Int16,
            CellValue::Int32(_) => CellType::Int32,
            CellValue::Int64(_) => CellType::Int64,
            CellValue::Float32(_) => CellType::Float32,
            CellValue::Float64(_) => CellType::Float64,
        }
    }

    /// The integer of an integer cell, and nothing for a floating-point
    /// cell.
    pub fn to_integer(&self) -> (r: Option<i128>)
        ensures
            self.tag().integral() ==> r == Some(self.int_value() as i128),
            !self.tag().integral() ==> r is None,
    {
        match self {
            CellValue::UInt8(v) => Some(*v as i128),
            CellValue::UInt16(v) => Some(*v as i128),
            CellValue::UInt32(v) => Some(*v as i128),
            CellValue::UInt64(v) => Some(*v as i128),
            CellValue::Int8(v) => Some(*v as i128),
            CellValue::Int16(v) => Some(*v as i128),
            CellValue::Int32(v) => Some(*v as i128),
            CellValue::Int64(v) => Some(*v as i128),
            CellValue::Float32(_) => None,
            CellValue::Float64(_) => None,
        }
    }

    /// The cell of the integer encoding `t` that holds `v`, where `t` is an
    /// integer encoding and `v` lies in its range.
    pub fn from_integer(v: i128, t: CellType) -> (r: Option<Self>)
        ensures
            holds_int(t, v as int) ==> r == Some(Self::of_int(t, v as int)),
            !holds_int(t, v as int) ==> r is None,
    {
        match t {
            CellType::UInt8 => match narrow_to_u8(v) {
                Some(x) => Some(CellValue::UInt8(x)),
                None => None,
            },
            CellType::UInt16 => match narrow_to_u16(v) {
                Some(x) => Some(CellValue::UInt16(x)),
                None => None,
            },
            CellType::UInt32 => match narrow_to_u32(v) {
                Some(x) => Some(CellValue::UInt32(x)),
                None => None,
            },
            CellType::UInt64 => match narrow_to_u64(v) {
                Some(x) => Some(CellValue::UInt64(x)),
                None => None,
            },
            CellType::Int8 => match narrow_to_i8(v) {
                Some(x) => Some(CellValue::Int8(x)),
                None => None,
            },
            CellType::Int16 => match narrow_to_i16(v) {
                Some(x) => Some(CellValue::Int16(x)),
                None => None,
            },
            CellType::Int32 => match narrow_to_i32(v) {
                Some(x) => Some(CellValue::Int32(x)),
                None => None,
            },
            CellType::Int64 => match narrow_to_i64(v) {
                Some(x) => Some(CellValue::Int64(x)),
                None => None,
            },
            CellType::Float32 => None,
            CellType::Float64 => None,
        }
    }

    /// The value as a binary64; an integer is rounded to the nearest one.
    pub fn to_binary64(&self) -> (r: Binary64)
        ensures
            r == self.as_binary64(),
    {
        match self {
            CellValue::UInt8(v) => Binary64::from_u64(*v as u64),
            CellValue::UInt16(v) => Binary64::from_u64(*v as u64),
            CellValue::UInt32(v) => Binary64::from_u64(*v as u64),
            CellValue::UInt64(v) => Binary64::from_u64(*v),
            CellValue::Int8(v) => Binary64::from_i64(*v as i64),
            CellValue::Int16(v) => Binary64::from_i64(*v as i64),
            CellValue::Int32(v) => Binary64::from_i64(*v as i64),
            CellValue::Int64(v) => Binary64::from_i64(*v),
            CellValue::Float32(b) => b.widen(),
            CellValue::Float64(b) => *b,
        }
    }

    /// The value rounded toward zero to an integer: the integer of an
    /// integer cell, the integer part of a finite floating-point value of
    /// magnitude below `2^64`.
    pub open spec fn whole(self) -> Option<int> {
        let b = self.as_binary64();
        if self.tag().integral() {
            Some(self.int_value())
        } else if b.finite() && b.truncated_magnitude() < 0x1_0000_0000_0000_0000 {
            Some(b.truncated())
        } else {
            None
        }
    }

    /// The cell of encoding `t` that the number in `self` makes, whatever
    /// the encoding of `self`.
    ///
    /// For an integer encoding `t` that is the value rounded toward zero,
    /// where it lies in the range of `t`. For `Float64` it is the nearest
    /// binary64, and for `Float32` the binary32 nearest to that. A cell that
    /// is of encoding `t` already stays as it is.
    pub open spec fn cast_to(self, t: CellType) -> Option<CellValue> {
        if t == self.tag() {
            Some(self)
        } else if t is Float64 {
            Some(CellValue::Float64(self.as_binary64()))
        } else if t is Float32 {
            Some(CellValue::Float32(self.as_binary64().narrowed()))
        } else {
            match self.whole() {
                Some(v) => if holds_int(t, v) {
                    Some(Self::of_int(t, v))
                } else {
                    None
                },
                None => None,
            }
        }
    }

    /// The value rounded toward zero to an integer.
    ///
    /// Returns `None` for a NaN, for an infinity, and for a floating-point
    /// value of magnitude `2^64` or more.
    pub fn to_whole(&self) -> (r: Option<i128>)
        ensures
            self.whole() matches Some(v) ==> r == Some(v as i128),
            self.whole() is None ==> r is None,
    {
        match self {
            CellValue::Float32(b) => b.widen().to_integer(),
            CellValue::Float64(b) => b.to_integer(),
            _ => self.to_integer(),
        }
    }

    /// The value as an `i64`, rounded toward zero.
    ///
    /// Returns `None` if the value is not a number or the rounded value is
    /// out of the range of `i64`.
    pub fn to_i64(&self) -> (r: Option<i64>)
        ensures
            r == (match self.whole() {
                Some(v) => if i64::MIN <= v <= i64::MAX {
                    Some(v as i64)
                } else {
                    None
                },
                None => None,
            }),
    {
        match self.to_whole() {
            Some(v) => narrow_to_i64(v),
            None => None,
        }
    }

    /// The value as a `u64`, rounded toward zero.
    ///
    /// Returns `None` if the value is not a number or the rounded value is
    /// out of the range of `u64`.
    pub fn to_u64(&self) -> (r: Option<u64>)
        ensures
            r == (match self.whole() {
                Some(v) => if u64::MIN <= v <= u64::MAX {
                    Some(v as u64)
                } else {
                    None
                },
                None => None,
            }),
    {
        match self.to_whole() {
            Some(v) => narrow_to_u64(v),
            None => None,
        }
    }

    /// Converts the number in `self` to the encoding `cell_type`, whatever
    /// the encoding of `self`: where `convert` goes by the encodings, this
    /// goes by the value.
    ///
    /// Returns `None` where the target is an integer encoding and the
    /// value, rounded toward zero, is not in its range.
    pub fn cast(&self, cell_type: CellType) -> (r: Option<Self>)
        ensures
            r == self.cast_to(cell_type),
            r matches Some(c) ==> c.tag() == cell_type,
    {
        if cell_type == self.cell_type() {
            return Some(*self);
        }
        match cell_type {
            CellType::Float64 => Some(CellValue::Float64(self.to_binary64())),
            CellType::Float32 => Some(CellValue::Float32(self.to_binary64().narrow())),
            _ => match self.to_whole() {
                Some(v) => Self::from_integer(v, cell_type),
                None => None,
            },
        }
    }

    /// Convert `self` into a variant with [`CellType`] `cell_type` equal to
    /// or wider than its current `CellType`.
    ///
    /// Returns `Ok(CellValue)` if every value of the encoding of `self` can
    /// be held by `cell_type`, and the narrowing error if not. A conversion
    /// to the encoding that `self` already has returns `self`.
    pub fn convert(&self, cell_type: CellType) -> (r: Result<Self, Error>)
        ensures
            self.tag().fits_into(cell_type) ==> r == Ok::<Self, Error>(self.widened(cell_type)),
            !self.tag().fits_into(cell_type) ==> r == Err::<Self, Error>(
                narrowing(self.tag(), cell_type),
            ),
            cell_type == self.tag() ==> r == Ok::<Self, Error>(*self),
            r matches Ok(c) ==> c.tag() == cell_type,
    {
        let own = self.cell_type();
        proof {
            lemma_fits_into(own, cell_type);
        }
        if !own.can_fit_into(cell_type) {
            return Err(Error::NarrowingError { src: own, dst: cell_type });
        }
        if cell_type == own {
            return Ok(*self);
        }
        let converted: Option<CellValue> = match cell_type {
            CellType::Float64 => Some(CellValue::Float64(self.to_binary64())),
            CellType::Float32 => match self {
                CellValue::UInt8(v) => Some(CellValue::Float32(Binary32::from_u16(*v as u16))),
                CellValue::UInt16(v) => Some(CellValue::Float32(Binary32::from_u16(*v))),
                CellValue::Int8(v) => Some(CellValue::Float32(Binary32::from_i16(*v as i16))),
                CellValue::Int16(v) => Some(CellValue::Float32(Binary32::from_i16(*v))),
                _ => None,
            },
            _ => match self.to_integer() {
                Some(v) => Self::from_integer(v, cell_type),
                None => None,
            },
        };
        match converted {
            Some(c) => Ok(c),
            None => Err(Error::NarrowingError { src: own, dst: cell_type }),
        }
    }

    /// Determines the smallest cell type that can contain `self` and `other`, and then
    /// converts values to that cell type and returns a tuple of the converted values, i.e.
    /// `(convert(self), convert(other))`.
    pub fn unify(&self, other: &Self) -> (r: (Self, Self))
        ensures
            r.0 == self.widened(self.tag().spec_union(other.tag())),
            r.1 == other.widened(self.tag().spec_union(other.tag())),
            r.0.tag() == self.tag().spec_union(other.tag()),
            r.1.tag() == self.tag().spec_union(other.tag()),
    {
        let dest = self.cell_type().union(other.cell_type());
        proof {
            lemma_fits_into(self.tag(), other.tag());
        }
        (self.convert(dest).unwrap(), other.convert(dest).unwrap())
    }

    /// Get the [`CellValue`] contents as a `T`.
    ///
    /// Returns `Ok(T)` if the [`CellType`] of `T` is the same or wider than
    /// the encoded value, or the narrowing error if `T` is narrower.
    pub fn get<T: CellEncoding>(&self) -> (r: Result<T, Error>)
        ensures
            self.tag().fits_into(T::tag()) ==> (r matches Ok(x) && x.cell() == self.widened(
                T::tag(),
            )),
            !self.tag().fits_into(T::tag()) ==> r == Err::<T, Error>(
                narrowing(self.tag(), T::tag()),
            ),
    {
        match self.convert(T::cell_type()) {
            Ok(cv) => match T::from_cell_value(cv) {
                Some(x) => Ok(x),
                None => Err(Error::NarrowingError { src: self.cell_type(), dst: T::cell_type() }),
            },
            Err(e) => Err(e),
        }
    }
}


/// How two wide integers compare.
fn integer_order(a: i128, b: i128) -> (r: Ordering)
    ensures
        a < b ==> r is Less,
        a == b ==> r is Equal,
        a > b ==> r is Greater,
{
    if a < b {
        Ordering::Less
    } else if a == b {
        Ordering::Equal
    } else {
        Ordering::Greater
    }
}

impl CellValue {
    /// The rank of the cell among the cells of its own encoding: the value
    /// of an integer, the rank in the IEEE 754 total order of a
    /// floating-point value.
    pub open spec fn order_key(self) -> int {
        match self {
            CellValue::Float32(b) => b.order_key(),
            CellValue::Float64(b) => b.order_key(),
            _ => self.int_value(),
        }
    }

    /// How `self` compares to `other`: both are widened to the union of
    /// their encodings and compared there.
    pub open spec fn ordering(self, other: CellValue) -> Ordering {
        let u = self.tag().spec_union(other.tag());
        int_ordering(self.widened(u).order_key(), other.widened(u).order_key())
    }

    /// Whether the two cells compare equal.
    pub open spec fn same_rank(self, other: CellValue) -> bool {
        self.ordering(other) is Equal
    }

    /// Compares two cells after unifying them. Floating-point values are
    /// compared in the IEEE 754 total order, so that a NaN has its place.
    pub fn cmp(&self, other: &Self) -> (r: Ordering)
        ensures
            r == self.ordering(*other),
    {
        let (lhs, rhs) = self.unify(other);
        match (lhs, rhs) {
            (CellValue::Float32(l), CellValue::Float32(r)) => l.total_cmp(&r),
            (CellValue::Float64(l), CellValue::Float64(r)) => l.total_cmp(&r),
            _ => match (lhs.to_integer(), rhs.to_integer()) {
                (Some(l), Some(r)) => integer_order(l, r),
                _ => Ordering::Equal,
            },
        }
    }

    /// The smaller of two cells; `self` where they compare equal.
    pub fn min(self, other: Self) -> (r: Self)
        ensures
            r == (if self.ordering(other) is Greater {
                other
            } else {
                self
            }),
    {
        match self.cmp(&other) {
            Ordering::Greater => other,
            _ => self,
        }
    }

    /// The larger of two cells; `other` where they compare equal.
    pub fn max(self, other: Self) -> (r: Self)
        ensures
            r == (if self.ordering(other) is Greater {
                self
            } else {
                other
            }),
    {
        match self.cmp(&other) {
            Ordering::Greater => self,
            _ => other,
        }
    }

    /// The cell `UInt8(0)`.
    pub fn zero() -> (r: Self)
        ensures
            r == CellValue::UInt8(0),
    {
        CellValue::UInt8(0)
    }

    /// The cell `UInt8(1)`.
    pub fn one() -> (r: Self)
        ensures
            r == CellValue::UInt8(1),
    {
        CellValue::UInt8(1)
    }

    /// Whether the cell holds zero; both zeros of a floating-point encoding
    /// count.
    pub open spec fn holds_zero(self) -> bool {
        match self {
            CellValue::Float32(b) => b.zero(),
            CellValue::Float64(b) => b.zero(),
            _ => self.int_value() == 0,
        }
    }

    /// Returns `true` if the cell holds zero.
    pub fn is_zero(&self) -> (r: bool)
        ensures
            r == self.holds_zero(),
    {
        match self {
            CellValue::UInt8(v) => *v == 0,
            CellValue::UInt16(v) => *v == 0,
            CellValue::UInt32(v) => *v == 0,
            CellValue::UInt64(v) => *v == 0,
            CellValue::Int8(v) => *v == 0,
            CellValue::Int16(v) => *v == 0,
            CellValue::Int32(v) => *v == 0,
            CellValue::Int64(v) => *v == 0,
            CellValue::Float32(b) => b.is_zero(),
            CellValue::Float64(b) => b.is_zero(),
        }
    }

    /// Whether the cell can be negated: a signed integer other than the
    /// least of its encoding, or any other cell.
    pub open spec fn negatable(self) -> bool {
        match self {
            CellValue::Int8(v) => v != i8::MIN,
            CellValue::Int16(v) => v != i16::MIN,
            CellValue::Int32(v) => v != i32::MIN,
            CellValue::Int64(v) => v != i64::MIN,
            _ => true,
        }
    }

    /// The negated cell.
    ///
    /// An unsigned integer of up to 32 bits moves to the signed encoding of
    /// twice its width, one of 64 bits to `Float64`; a signed integer and a
    /// floating-point value keep their encoding.
    pub open spec fn negation(self) -> CellValue {
        match self {
            CellValue::UInt8(v) => CellValue::Int16((-v) as i16),
            CellValue::UInt16(v) => CellValue::Int32((-v) as i32),
            CellValue::UInt32(v) => CellValue::Int64((-v) as i64),
            CellValue::UInt64(v) => CellValue::Float64(Binary64::of_int(v as int).spec_negated()),
            CellValue::Int8(v) => CellValue::Int8((-v) as i8),
            CellValue::Int16(v) => CellValue::Int16((-v) as i16),
            CellValue::Int32(v) => CellValue::Int32((-v) as i32),
            CellValue::Int64(v) => CellValue::Int64((-v) as i64),
            CellValue::Float32(b) => CellValue::Float32(b.spec_negated()),
            CellValue::Float64(b) => CellValue::Float64(b.spec_negated()),
        }
    }

    /// Applies a binary64 operation to two cells.
    ///
    /// Both cells are unified and taken as binary64 values, `op` is called
    /// on the two, and what it returns is the `Float64` cell that comes
    /// back.
    pub fn combine<F: Fn(Binary64, Binary64) -> Binary64>(&self, rhs: &Self, op: &F) -> (r: Self)
        requires
            forall|a: Binary64, b: Binary64| call_requires(op, (a, b)),
        ensures
            r matches CellValue::Float64(x) && call_ensures(
                op,
                (self.operand(*rhs), rhs.operand(*self)),
                x,
            ),
    {
        let (lhs, rhs) = self.unify(rhs);
        proof {
            crate::ctype::lemma_union_commutative(self.tag(), rhs.tag());
        }
        CellValue::Float64(op(lhs.to_binary64(), rhs.to_binary64()))
    }

    /// The binary64 that stands for `self` in an operation with `other`:
    /// `self` widened to the union of the two encodings, as a binary64.
    pub open spec fn operand(self, other: CellValue) -> Binary64 {
        self.widened(self.tag().spec_union(other.tag())).as_binary64()
    }
}

impl PartialEq for CellValue {
    /// Two cells are equal where they compare equal after unifying.
    fn eq(&self, other: &Self) -> (r: bool) {
        match self.cmp(other) {
            Ordering::Equal => true,
            _ => false,
        }
    }
}

impl vstd::std_specs::cmp::PartialEqSpecImpl for CellValue {
    open spec fn obeys_eq_spec() -> bool {
        true
    }

    open spec fn eq_spec(&self, other: &Self) -> bool {
        self.same_rank(*other)
    }
}

impl Eq for CellValue {

}

impl PartialOrd for CellValue {
    fn partial_cmp(&self, other: &Self) -> (r: Option<Ordering>) {
        Some(self.cmp(other))
    }
}

impl vstd::std_specs::cmp::PartialOrdSpecImpl for CellValue {
    open spec fn obeys_partial_cmp_spec() -> bool {
        true
    }

    open spec fn partial_cmp_spec(&self, other: &Self) -> Option<Ordering> {
        Some(self.ordering(*other))
    }
}

impl core::ops::Neg for CellValue {
    type Output = CellValue;

    /// Negates the cell.
    fn neg(self) -> (r: CellValue) {
        match self {
            CellValue::UInt8(v) => CellValue::Int16(-(v as i16)),
            CellValue::UInt16(v) => CellValue::Int32(-(v as i32)),
            CellValue::UInt32(v) => CellValue::Int64(-(v as i64)),
            CellValue::UInt64(v) => CellValue::Float64(Binary64::from_u64(v).negated()),
            CellValue::Int8(v) => CellValue::Int8(-v),
            CellValue::Int16(v) => CellValue::Int16(-v),
            CellValue::Int32(v) => CellValue::Int32(-v),
            CellValue::Int64(v) => CellValue::Int64(-v),
            CellValue::Float32(b) => CellValue::Float32(b.negated()),
            CellValue::Float64(b) => CellValue::Float64(b.negated()),
        }
    }
}

impl vstd::std_specs::ops::NegSpecImpl for CellValue {
    open spec fn obeys_neg_spec() -> bool {
        true
    }

    open spec fn neg_req(self) -> bool {
        self.negatable()
    }

    open spec fn neg_spec(self) -> CellValue {
        self.negation()
    }
}


/// Convert from a native value to [`CellValue`].
impl<T: CellEncoding> From<T> for CellValue {
    fn from(value: T) -> (r: Self)
        ensures
            r == value.cell(),
    {
        value.into_cell_value()
    }
}

impl<T: CellEncoding> vstd::std_specs::convert::FromSpecImpl<T> for CellValue {
    open spec fn obeys_from_spec() -> bool {
        true
    }

    open spec fn from_spec(value: T) -> Self {
        value.cell()
    }
}


/// A native value that is made a cell and converted to its own encoding
/// comes back as it was.
pub proof fn lemma_round_trip<T: CellEncoding>(v: T)
    ensures
        v.cell().tag().fits_into(T::tag()),
        v.cell().widened(T::tag()) == v.cell(),
        forall|x: T| x.cell() == v.cell().widened(T::tag()) ==> x == v,
{
    T::lemma_cell(v, v);
    lemma_fits_into(T::tag(), T::tag());
    assert forall|x: T| x.cell() == v.cell().widened(T::tag()) implies x == v by {
        T::lemma_cell(x, v);
    }
}

/// Cells of one encoding compare as their ranks do, and compare equal
/// exactly when they are the same cell.
pub proof fn lemma_ordering_in_one_encoding(a: CellValue, b: CellValue)
    requires
        a.tag() == b.tag(),
    ensures
        a.ordering(b) == int_ordering(a.order_key(), b.order_key()),
        a.same_rank(b) <==> a == b,
        a.same_rank(a),
{
    lemma_fits_into(a.tag(), b.tag());
    match (a, b) {
        (CellValue::Float32(x), CellValue::Float32(y)) => {
            lemma_order_key_injective_32(x, y);
        },
        (CellValue::Float64(x), CellValue::Float64(y)) => {
            lemma_order_key_injective(x, y);
        },
        _ => {},
    }
}

/// Among cells of one encoding the order is a total order: whatever is not
/// less is equal or greater the other way round, and the order passes on.
pub proof fn lemma_ordering_is_total(a: CellValue, b: CellValue, c: CellValue)
    requires
        a.tag() == b.tag(),
        b.tag() == c.tag(),
    ensures
        a.ordering(b) is Less <==> b.ordering(a) is Greater,
        a.ordering(b) is Equal <==> b.ordering(a) is Equal,
        a.ordering(b) is Less && b.ordering(c) is Less ==> a.ordering(c) is Less,
        a.ordering(b) is Equal && b.ordering(c) is Equal ==> a.ordering(c) is Equal,
{
    lemma_ordering_in_one_encoding(a, b);
    lemma_ordering_in_one_encoding(b, a);
    lemma_ordering_in_one_encoding(b, c);
    lemma_ordering_in_one_encoding(a, c);
}


/// Where the encoding of a cell fits into a target, converting by value
/// gives what converting by encoding gives.
pub proof fn lemma_cast_agrees_with_convert(c: CellValue, t: CellType)
    requires
        c.tag().fits_into(t),
    ensures
        c.cast_to(t) == Some(c.widened(t)),
{
    lemma_fits_into(c.tag(), t);
    if t is Float32 && c.tag() != t {
        lemma_small_int_narrows(c.int_value());
    }
}

/// Widening a cell for an operation does not change the binary64 that
/// stands for it: each operand of `combine` is the cell itself, taken as a
/// binary64.
pub proof fn lemma_operand(c: CellValue, other: CellValue)
    ensures
        c.operand(other) == c.as_binary64(),
{
    let u = c.tag().spec_union(other.tag());
    lemma_fits_into(c.tag(), other.tag());
    if u is Float32 && c.tag() != u {
        lemma_small_int_widens(c.int_value());
    }
}


/// Widening keeps the number: an integer cell whose magnitude is at most
/// `2^53` holds the same integer after it is widened to any encoding that
/// its own fits into, be that an integer or a floating-point encoding.
pub proof fn lemma_widening_keeps_integers(c: CellValue, t: CellType)
    requires
        c.tag().integral(),
        c.tag().fits_into(t),
        -0x20_0000_0000_0000 <= c.int_value() <= 0x20_0000_0000_0000,
    ensures
        c.widened(t).whole() == Some(c.int_value()),
{
    let v = c.int_value();
    lemma_fits_into(c.tag(), t);
    if !t.integral() {
        lemma_of_int_value(v);
        if t is Float32 {
            lemma_small_int_widens(v);
        }
    }
}

} // verus!
