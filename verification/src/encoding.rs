//! The binding from a native cell type to its encoding.

use vstd::prelude::*;
use crate::buffer::CellBuffer;
use crate::ctype::CellType;
use crate::ieee::{Binary32, Binary64};
use crate::value::CellValue;

verus! {

/// Trait for marking native types as having a corresponding [`CellType`].
///
/// The integer primitives from `u8` to `i64` are `CellEncoding`, and so are
/// [`Binary32`] and [`Binary64`], which stand for the two floating-point
/// encodings.
pub trait CellEncoding: Copy + Sized {
    /// The encoding that covers `Self`.
    spec fn tag() -> CellType;

    /// The cell that holds `self`.
    spec fn cell(self) -> CellValue;

    /// Different values make different cells, each of the encoding of
    /// `Self`.
    proof fn lemma_cell(a: Self, b: Self)
        ensures
            a.cell().tag() == Self::tag(),
            a.cell() == b.cell() ==> a == b,
    ;

    /// Returns the [`CellType`] covering `Self`.
    fn cell_type() -> (r: CellType)
        ensures
            r == Self::tag(),
    ;

    /// Converts `self` into a [`CellValue`].
    fn into_cell_value(self) -> (r: CellValue)
        ensures
            r == self.cell(),
            r.tag() == Self::tag(),
    ;

    /// Takes the native value out of a cell of the encoding of `Self`.
    ///
    /// Returns `None` if the cell is of another encoding.
    fn from_cell_value(value: CellValue) -> (r: Option<Self>)
        ensures
            value.tag() == Self::tag() ==> (r matches Some(x) && x.cell() == value),
            value.tag() != Self::tag() ==> r is None,
    ;

    /// Makes a buffer of the encoding of `Self` out of native values,
    /// without copying them.
    fn into_buffer(data: Vec<Self>) -> (r: CellBuffer)
        ensures
            r.tag() == Self::tag(),
            r@ == Seq::new(data@.len(), |i: int| data@[i].cell()),
    ;

    /// Takes the native values out of a buffer of the encoding of `Self`,
    /// without copying them.
    ///
    /// Returns `None` if the buffer is of another encoding.
    fn from_buffer(buffer: CellBuffer) -> (r: Option<Vec<Self>>)
        ensures
            buffer.tag() == Self::tag() ==> (r matches Some(v) && buffer@ == Seq::new(
                v@.len(),
                |i: int| v@[i].cell(),
            )),
            buffer.tag() != Self::tag() ==> r is None,
    ;
}

/// Convert dynamic type to static type when logically known.
///
/// Returns `None` if the given value isn't of the exact same encoding as
/// the type asked for.
pub fn static_cast<T: CellEncoding, S: CellEncoding>(value: T) -> (r: Option<S>)
    ensures
        T::tag() == S::tag() ==> (r matches Some(x) && x.cell() == value.cell()),
        T::tag() != S::tag() ==> r is None,
{
    S::from_cell_value(value.into_cell_value())
}

impl CellEncoding for u8 {
    open spec fn tag() -> CellType {
        CellType::UInt8
    }

    open spec fn cell(self) -> CellValue {
        CellValue::UInt8(self)
    }

    proof fn lemma_cell(a: Self, b: Self) {
    }

    fn cell_type() -> (r: CellType) {
        CellType::UInt8
    }

    fn into_cell_value(self) -> (r: CellValue) {
        CellValue::UInt8(self)
    }

    fn from_cell_value(value: CellValue) -> (r: Option<Self>) {
        match value {
            CellValue::UInt8(v) => Some(v),
            _ => None,
        }
    }

    fn into_buffer(data: Vec<Self>) -> (r: CellBuffer) {
        CellBuffer::UInt8(data)
    }

    fn from_buffer(buffer: CellBuffer) -> (r: Option<Vec<Self>>) {
        match buffer {
            CellBuffer::UInt8(v) => Some(v),
            _ => None,
        }
    }
}

impl CellEncoding for u16 {
    open spec fn tag() -> CellType {
        CellType::UInt16
    }

    open spec fn cell(self) -> CellValue {
        CellValue::UInt16(self)
    }

    proof fn lemma_cell(a: Self, b: Self) {
    }

    fn cell_type() -> (r: CellType) {
        CellType::UInt16
    }

    fn into_cell_value(self) -> (r: CellValue) {
        CellValue::UInt16(self)
    }

    fn from_cell_value(value: CellValue) -> (r: Option<Self>) {
        match value {
            CellValue::UInt16(v) => Some(v),
            _ => None,
        }
    }

    fn into_buffer(data: Vec<Self>) -> (r: CellBuffer) {
        CellBuffer::UInt16(data)
    }

    fn from_buffer(buffer: CellBuffer) -> (r: Option<Vec<Self>>) {
        match buffer {
            CellBuffer::UInt16(v) => Some(v),
            _ => None,
        }
    }
}

impl CellEncoding for u32 {
    open spec fn tag() -> CellType {
        CellType::UInt32
    }

    open spec fn cell(self) -> CellValue {
        CellValue::UInt32(self)
    }

    proof fn lemma_cell(a: Self, b: Self) {
    }

    fn cell_type() -> (r: CellType) {
        CellType::UInt32
    }

    fn into_cell_value(self) -> (r: CellValue) {
        CellValue::UInt32(self)
    }

    fn from_cell_value(value: CellValue) -> (r: Option<Self>) {
        match value {
            CellValue::UInt32(v) => Some(v),
            _ => None,
        }
    }

    fn into_buffer(data: Vec<Self>) -> (r: CellBuffer) {
        CellBuffer::UInt32(data)
    }

    fn from_buffer(buffer: CellBuffer) -> (r: Option<Vec<Self>>) {
        match buffer {
            CellBuffer::UInt32(v) => Some(v),
            _ => None,
        }
    }
}

impl CellEncoding for u64 {
    open spec fn tag() -> CellType {
        CellType::UInt64
    }

    open spec fn cell(self) -> CellValue {
        CellValue::UInt64(self)
    }

    proof fn lemma_cell(a: Self, b: Self) {
    }

    fn cell_type() -> (r: CellType) {
        CellType::UInt64
    }

    fn into_cell_value(self) -> (r: CellValue) {
        CellValue::UInt64(self)
    }

    fn from_cell_value(value: CellValue) -> (r: Option<Self>) {
        match value {
            CellValue::UInt64(v) => Some(v),
            _ => None,
        }
    }

    fn into_buffer(data: Vec<Self>) -> (r: CellBuffer) {
        CellBuffer::UInt64(data)
    }

    fn from_buffer(buffer: CellBuffer) -> (r: Option<Vec<Self>>) {
        match buffer {
            CellBuffer::UInt64(v) => Some(v),
            _ => None,
        }
    }
}

impl CellEncoding for i8 {
    open spec fn tag() -> CellType {
        CellType::Int8
    }

    open spec fn cell(self) -> CellValue {
        CellValue::Int8(self)
    }

    proof fn lemma_cell(a: Self, b: Self) {
    }

    fn cell_type() -> (r: CellType) {
        CellType::Int8
    }

    fn into_cell_value(self) -> (r: CellValue) {
        CellValue::Int8(self)
    }

    fn from_cell_value(value: CellValue) -> (r: Option<Self>) {
        match value {
            CellValue::Int8(v) => Some(v),
            _ => None,
        }
    }

    fn into_buffer(data: Vec<Self>) -> (r: CellBuffer) {
        CellBuffer::Int8(data)
    }

    fn from_buffer(buffer: CellBuffer) -> (r: Option<Vec<Self>>) {
        match buffer {
            CellBuffer::Int8(v) => Some(v),
            _ => None,
        }
    }
}

impl CellEncoding for i16 {
    open spec fn tag() -> CellType {
        CellType::Int16
    }

    open spec fn cell(self) -> CellValue {
        CellValue::Int16(self)
    }

    proof fn lemma_cell(a: Self, b: Self) {
    }

    fn cell_type() -> (r: CellType) {
        CellType::Int16
    }

    fn into_cell_value(self) -> (r: CellValue) {
        CellValue::Int16(self)
    }

    fn from_cell_value(value: CellValue) -> (r: Option<Self>) {
        match value {
            CellValue::Int16(v) => Some(v),
            _ => None,
        }
    }

    fn into_buffer(data: Vec<Self>) -> (r: CellBuffer) {
        CellBuffer::Int16(data)
    }

    fn from_buffer(buffer: CellBuffer) -> (r: Option<Vec<Self>>) {
        match buffer {
            CellBuffer::Int16(v) => Some(v),
            _ => None,
        }
    }
}

impl CellEncoding for i32 {
    open spec fn tag() -> CellType {
        CellType::Int32
    }

    open spec fn cell(self) -> CellValue {
        CellValue::Int32(self)
    }

    proof fn lemma_cell(a: Self, b: Self) {
    }

    fn cell_type() -> (r: CellType) {
        CellType::Int32
    }

    fn into_cell_value(self) -> (r: CellValue) {
        CellValue::Int32(self)
    }

    fn from_cell_value(value: CellValue) -> (r: Option<Self>) {
        match value {
            CellValue::Int32(v) => Some(v),
            _ => None,
        }
    }

    fn into_buffer(data: Vec<Self>) -> (r: CellBuffer) {
        CellBuffer::Int32(data)
    }

    fn from_buffer(buffer: CellBuffer) -> (r: Option<Vec<Self>>) {
        match buffer {
            CellBuffer::Int32(v) => Some(v),
            _ => None,
        }
    }
}

impl CellEncoding for i64 {
    open spec fn tag() -> CellType {
        CellType::Int64
    }

    open spec fn cell(self) -> CellValue {
        CellValue::Int64(self)
    }

    proof fn lemma_cell(a: Self, b: Self) {
    }

    fn cell_type() -> (r: CellType) {
        CellType::Int64
    }

    fn into_cell_value(self) -> (r: CellValue) {
        CellValue::Int64(self)
    }

    fn from_cell_value(value: CellValue) -> (r: Option<Self>) {
        match value {
            CellValue::Int64(v) => Some(v),
            _ => None,
        }
    }

    fn into_buffer(data: Vec<Self>) -> (r: CellBuffer) {
        CellBuffer::Int64(data)
    }

    fn from_buffer(buffer: CellBuffer) -> (r: Option<Vec<Self>>) {
        match buffer {
            CellBuffer::Int64(v) => Some(v),
            _ => None,
        }
    }
}

impl CellEncoding for Binary32 {
    open spec fn tag() -> CellType {
        CellType::Float32
    }

    open spec fn cell(self) -> CellValue {
        CellValue::Float32(self)
    }

    proof fn lemma_cell(a: Self, b: Self) {
    }

    fn cell_type() -> (r: CellType) {
        CellType::Float32
    }

    fn into_cell_value(self) -> (r: CellValue) {
        CellValue::Float32(self)
    }

    fn from_cell_value(value: CellValue) -> (r: Option<Self>) {
        match value {
            CellValue::Float32(v) => Some(v),
            _ => None,
        }
    }

    fn into_buffer(data: Vec<Self>) -> (r: CellBuffer) {
        CellBuffer::Float32(data)
    }

    fn from_buffer(buffer: CellBuffer) -> (r: Option<Vec<Self>>) {
        match buffer {
            CellBuffer::Float32(v) => Some(v),
            _ => None,
        }
    }
}

impl CellEncoding for Binary64 {
    open spec fn tag() -> CellType {
        CellType::Float64
    }

    open spec fn cell(self) -> CellValue {
        CellValue::Float64(self)
    }

    proof fn lemma_cell(a: Self, b: Self) {
    }

    fn cell_type() -> (r: CellType) {
        CellType::Float64
    }

    fn into_cell_value(self) -> (r: CellValue) {
        CellValue::Float64(self)
    }

    fn from_cell_value(value: CellValue) -> (r: Option<Self>) {
        match value {
            CellValue::Float64(v) => Some(v),
            _ => None,
        }
    }

    fn into_buffer(data: Vec<Self>) -> (r: CellBuffer) {
        CellBuffer::Float64(data)
    }

    fn from_buffer(buffer: CellBuffer) -> (r: Option<Vec<Self>>) {
        match buffer {
            CellBuffer::Float64(v) => Some(v),
            _ => None,
        }
    }
}

} // verus!
