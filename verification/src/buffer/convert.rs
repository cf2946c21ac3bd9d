//! Conversion of buffers: to another encoding, from cells of several
//! encodings, and cell by cell on the way in.

use vstd::prelude::*;
use crate::buffer::{cells_of, CellBuffer};
use crate::ctype::{lemma_fits_into, CellType};
use crate::encoding::CellEncoding;
use crate::error::{narrowing, Error};
use crate::ieee::{Binary32, Binary64};
use crate::value::CellValue;

verus! {

/// Whether every cell of `s` is of an encoding that fits into `t`.
pub open spec fn all_fit(s: Seq<CellValue>, t: CellType) -> bool {
    forall|i: int| 0 <= i < s.len() ==> (#[trigger] s[i]).tag().fits_into(t)
}

/// The cells of `s`, each widened to `t`.
pub open spec fn all_widened(s: Seq<CellValue>, t: CellType) -> Seq<CellValue> {
    Seq::new(s.len(), |i: int| s[i].widened(t))
}

/// Whether every cell of `s` has a counterpart of encoding `t`.
pub open spec fn all_castable(s: Seq<CellValue>, t: CellType) -> bool {
    forall|i: int| 0 <= i < s.len() ==> (#[trigger] s[i]).cast_to(t) is Some
}

/// The counterparts of encoding `t` of the cells of `s`.
pub open spec fn all_cast(s: Seq<CellValue>, t: CellType) -> Seq<CellValue> {
    Seq::new(s.len(), |i: int| s[i].cast_to(t).unwrap())
}

/// Takes the native values of type `T` out of cells that fit into the
/// encoding of `T`, widening each.
fn collect<T: CellEncoding>(values: &Vec<CellValue>) -> (r: Vec<T>)
    requires
        all_fit(values@, T::tag()),
    ensures
        cells_of(r@) == all_widened(values@, T::tag()),
{
    let mut out: Vec<T> = Vec::new();
    let mut i: usize = 0;
    while i < values.len()
        invariant
            i <= values.len(),
            out.len() == i,
            all_fit(values@, T::tag()),
            forall|j: int| 0 <= j < i ==> (#[trigger] out@[j]).cell() == values@[j].widened(T::tag()),
        decreases values.len() - i,
    {
        let x: T = values[i].get::<T>().unwrap();
        out.push(x);
        i = i + 1;
    }
    out
}

impl CellBuffer {
    /// Makes a buffer of encoding `t` out of cells that fit into `t`,
    /// widening each.
    pub fn gather(values: &Vec<CellValue>, t: CellType) -> (r: Self)
        requires
            all_fit(values@, t),
        ensures
            r.tag() == t,
            r@ == all_widened(values@, t),
    {
        match t {
            CellType::UInt8 => u8::into_buffer(collect::<u8>(values)),
            CellType::UInt16 => u16::into_buffer(collect::<u16>(values)),
            CellType::UInt32 => u32::into_buffer(collect::<u32>(values)),
            CellType::UInt64 => u64::into_buffer(collect::<u64>(values)),
            CellType::Int8 => i8::into_buffer(collect::<i8>(values)),
            CellType::Int16 => i16::into_buffer(collect::<i16>(values)),
            CellType::Int32 => i32::into_buffer(collect::<i32>(values)),
            CellType::Int64 => i64::into_buffer(collect::<i64>(values)),
            CellType::Float32 => Binary32::into_buffer(collect::<Binary32>(values)),
            CellType::Float64 => Binary64::into_buffer(collect::<Binary64>(values)),
        }
    }

    /// Makes a buffer out of cells. The first cell gives the encoding, into
    /// which the encodings of all others have to fit; no cell at all gives
    /// an empty `UInt8` buffer.
    pub fn from_iter(values: Vec<CellValue>) -> (r: Self)
        requires
            values@.len() > 0 ==> all_fit(values@, values@[0].tag()),
        ensures
            values@.len() == 0 ==> r.tag() == CellType::UInt8 && r@.len() == 0,
            values@.len() > 0 ==> r.tag() == values@[0].tag() && r@ == all_widened(
                values@,
                values@[0].tag(),
            ),
    {
        if values.len() == 0 {
            Self::with_defaults(0, CellType::UInt8)
        } else {
            let ct = values[0].cell_type();
            Self::gather(&values, ct)
        }
    }

    /// Store `value` at position `index`.
    ///
    /// The value is converted to the encoding of the buffer first. Returns
    /// the narrowing error, and leaves the buffer as it is, if the encoding
    /// of `value` does not fit into that of the buffer.
    pub fn put(&mut self, index: usize, value: CellValue) -> (r: Result<(), Error>)
        requires
            index < old(self)@.len(),
        ensures
            final(self).tag() == old(self).tag(),
            value.tag().fits_into(old(self).tag()) ==> r is Ok && final(self)@ == old(self)@.update(
                index as int,
                value.widened(old(self).tag()),
            ),
            !value.tag().fits_into(old(self).tag()) ==> r == Err::<(), Error>(
                narrowing(value.tag(), old(self).tag()),
            ) && *final(self) == *old(self),
    {
        let converted = match value.convert(self.cell_type()) {
            Ok(c) => c,
            Err(e) => {
                return Err(e);
            },
        };
        match self {
            CellBuffer::UInt8(b) => match converted {
                CellValue::UInt8(v) => {
                    b.set(index, v);
                },
                _ => {},
            },
            CellBuffer::UInt16(b) => match converted {
                CellValue::UInt16(v) => {
                    b.set(index, v);
                },
                _ => {},
            },
            CellBuffer::UInt32(b) => match converted {
                CellValue::UInt32(v) => {
                    b.set(index, v);
                },
                _ => {},
            },
            CellBuffer::UInt64(b) => match converted {
                CellValue::UInt64(v) => {
                    b.set(index, v);
                },
                _ => {},
            },
            CellBuffer::Int8(b) => match converted {
                CellValue::Int8(v) => {
                    b.set(index, v);
                },
                _ => {},
            },
            CellBuffer::Int16(b) => match converted {
                CellValue::Int16(v) => {
                    b.set(index, v);
                },
                _ => {},
            },
            CellBuffer::Int32(b) => match converted {
                CellValue::Int32(v) => {
                    b.set(index, v);
                },
                _ => {},
            },
            CellBuffer::Int64(b) => match converted {
                CellValue::Int64(v) => {
                    b.set(index, v);
                },
                _ => {},
            },
            CellBuffer::Float32(b) => match converted {
                CellValue::Float32(v) => {
                    b.set(index, v);
                },
                _ => {},
            },
            CellBuffer::Float64(b) => match converted {
                CellValue::Float64(v) => {
                    b.set(index, v);
                },
                _ => {},
            },
        }
        Ok(())
    }

    /// Appends native values, each converted by its value into the
    /// encoding that the buffer has.
    ///
    /// Every value has to have a counterpart there: an integer encoding
    /// takes what lies in its range once rounded toward zero.
    pub fn extend<C: CellEncoding>(&mut self, items: Vec<C>)
        requires
            all_castable(cells_of(items@), old(self).tag()),
        ensures
            final(self).tag() == old(self).tag(),
            final(self)@ == old(self)@ + all_cast(cells_of(items@), old(self).tag()),
    {
        let ct = self.cell_type();
        let ghost incoming = cells_of(items@);
        let mut i: usize = 0;
        while i < items.len()
            invariant
                i <= items@.len(),
                ct == old(self).tag(),
                self.tag() == ct,
                incoming == cells_of(items@),
                all_castable(incoming, ct),
                self@ == old(self)@ + all_cast(incoming, ct).take(i as int),
            decreases items@.len() - i,
        {
            assert(incoming[i as int] == items@[i as int].cell());
            let c = items[i].into_cell_value().cast(ct).unwrap();
            self.push(c);
            i = i + 1;
        }
    }

    /// Create a new [`CellBuffer`] whereby all [`CellValue`]s are converted to `cell_type`.
    ///
    /// Returns `Ok(CellBuffer)` if the encoding of the buffer fits into
    /// `cell_type`, and the narrowing error if it does not.
    pub fn convert(&self, cell_type: CellType) -> (r: Result<Self, Error>)
        ensures
            self.tag().fits_into(cell_type) ==> (r matches Ok(b) && b.tag() == cell_type && b@
                == all_widened(self@, cell_type)),
            !self.tag().fits_into(cell_type) ==> r == Err::<Self, Error>(
                narrowing(self.tag(), cell_type),
            ),
            cell_type == self.tag() ==> (r matches Ok(b) && b@ == self@),
    {
        proof {
            lemma_fits_into(self.tag(), cell_type);
        }
        if cell_type == self.cell_type() {
            let r = self.clone();
            return Ok(r);
        }
        if !self.cell_type().can_fit_into(cell_type) {
            return Err(Error::NarrowingError { src: self.cell_type(), dst: cell_type });
        }
        let cells = self.cells();
        Ok(Self::gather(&cells, cell_type))
    }

    /// Convert `self` into a `Vec<T>`.
    ///
    /// Returns the narrowing error if the encoding of the buffer does not
    /// fit into that of `T`.
    pub fn to_vec<T: CellEncoding>(self) -> (r: Result<Vec<T>, Error>)
        ensures
            self.tag().fits_into(T::tag()) ==> (r matches Ok(v) && cells_of(v@) == all_widened(
                self@,
                T::tag(),
            )),
            !self.tag().fits_into(T::tag()) ==> r == Err::<Vec<T>, Error>(
                narrowing(self.tag(), T::tag()),
            ),
    {
        match self.convert(T::cell_type()) {
            Ok(b) => match T::from_buffer(b) {
                Some(v) => {
                    Ok(v)
                },
                None => Err(Error::NarrowingError { src: self.cell_type(), dst: T::cell_type() }),
            },
            Err(e) => Err(e),
        }
    }
}

} // verus!
