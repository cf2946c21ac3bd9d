//! A flat buffer of cells that share one encoding.

use vstd::prelude::*;
use crate::ctype::CellType;
use crate::encoding::CellEncoding;
use crate::ieee::{Binary32, Binary64};
use crate::value::CellValue;

pub mod arith;
pub mod convert;
pub mod order;
pub mod text;

pub use arith::{all_negatable, all_negated, combined};
pub use convert::{all_cast, all_castable, all_fit, all_widened};
pub use order::{
    common_prefix,
    first_difference,
    is_greatest,
    is_least,
    lemma_common_prefix_holds,
    lemma_difference_decides,
    lemma_equal_buffers,
    lemma_first_difference,
    lemma_first_difference_symmetric,
    lemma_ordering_passes_on,
    lemma_ordering_reverses,
    lemma_prefix_is_less,
    length,
};
pub use text::{buffer_text, shows};

verus! {

/// An enum over buffers of [`CellEncoding`] types.
#[derive(Debug)]
pub enum CellBuffer {
    UInt8(Vec<u8>),
    UInt16(Vec<u16>),
    UInt32(Vec<u32>),
    UInt64(Vec<u64>),
    Int8(Vec<i8>),
    Int16(Vec<i16>),
    Int32(Vec<i32>),
    Int64(Vec<i64>),
    Float32(Vec<Binary32>),
    Float64(Vec<Binary64>),
}

/// The cells that hold the native values of `s`, in the same order.
pub open spec fn cells_of<T: CellEncoding>(s: Seq<T>) -> Seq<CellValue> {
    Seq::new(s.len(), |i: int| s[i].cell())
}

impl View for CellBuffer {
    type V = Seq<CellValue>;

    /// The cells of the buffer, in order.
    open spec fn view(&self) -> Seq<CellValue> {
        match self {
            CellBuffer::UInt8(v) => Seq::new(v@.len(), |i: int| CellValue::UInt8(v@[i])),
            CellBuffer::UInt16(v) => Seq::new(v@.len(), |i: int| CellValue::UInt16(v@[i])),
            CellBuffer::UInt32(v) => Seq::new(v@.len(), |i: int| CellValue::UInt32(v@[i])),
            CellBuffer::UInt64(v) => Seq::new(v@.len(), |i: int| CellValue::UInt64(v@[i])),
            CellBuffer::Int8(v) => Seq::new(v@.len(), |i: int| CellValue::Int8(v@[i])),
            CellBuffer::Int16(v) => Seq::new(v@.len(), |i: int| CellValue::Int16(v@[i])),
            CellBuffer::Int32(v) => Seq::new(v@.len(), |i: int| CellValue::Int32(v@[i])),
            CellBuffer::Int64(v) => Seq::new(v@.len(), |i: int| CellValue::Int64(v@[i])),
            CellBuffer::Float32(v) => Seq::new(v@.len(), |i: int| CellValue::Float32(v@[i])),
            CellBuffer::Float64(v) => Seq::new(v@.len(), |i: int| CellValue::Float64(v@[i])),
        }
    }
}

impl CellBuffer {
    /// The encoding of the buffer.
    pub open spec fn tag(&self) -> CellType {
        match self {
            CellBuffer::UInt8(_) => CellType::UInt8,
            CellBuffer::UInt16(_) => CellType::UInt16,
            CellBuffer::UInt32(_) => CellType::UInt32,
            CellBuffer::UInt64(_) => CellType::UInt64,
            CellBuffer::Int8(_) => CellType::Int8,
            CellBuffer::Int16(_) => CellType::Int16,
            CellBuffer::Int32(_) => CellType::Int32,
            CellBuffer::Int64(_) => CellType::Int64,
            CellBuffer::Float32(_) => CellType::Float32,
            CellBuffer::Float64(_) => CellType::Float64,
        }
    }

    /// Every cell of a buffer is of the buffer's encoding.
    pub proof fn lemma_homogeneous(&self)
        ensures
            forall|i: int| 0 <= i < self@.len() ==> (#[trigger] self@[i]).tag() == self.tag(),
    {
    }

    /// Construct a [`CellBuffer`] from a `Vec<T>`.
    pub fn new<T: CellEncoding>(data: Vec<T>) -> (r: Self)
        ensures
            r@ == cells_of(data@),
            r.tag() == T::tag(),
    {
        T::into_buffer(data)
    }

    /// Construct a [`CellBuffer`] from a `Vec<T>`.
    pub fn from_vec<T: CellEncoding>(data: Vec<T>) -> (r: Self)
        ensures
            r@ == cells_of(data@),
            r.tag() == T::tag(),
    {
        T::into_buffer(data)
    }

    /// Construct a [`CellBuffer`] from a slice of native values.
    pub fn from_slice<T: CellEncoding>(data: &[T]) -> (r: Self)
        ensures
            r.tag() == T::tag(),
            r@ == cells_of(data@),
    {
        let mut values: Vec<T> = Vec::new();
        let mut i: usize = 0;
        while i < data.len()
            invariant
                i <= data@.len(),
                values@ == data@.take(i as int),
            decreases data@.len() - i,
        {
            values.push(data[i]);
            i = i + 1;
        }
        T::into_buffer(values)
    }

    /// Construct a [`CellBuffer`] of given `len` length and `ct` `CellType`.
    ///
    /// All cells will be filled with the `CellType`'s corresponding default value.
    pub fn with_defaults(len: usize, ct: CellType) -> (r: Self)
        ensures
            r.tag() == ct,
            r@ == Seq::new(len as nat, |i: int| ct.zero_cell()),
    {
        Self::fill(len, ct.zero())
    }

    /// Create a buffer of size `len` with all values `value`.
    pub fn fill(len: usize, value: CellValue) -> (r: Self)
        ensures
            r.tag() == value.tag(),
            r@ == Seq::new(len as nat, |i: int| value),
    {
        match value {
            CellValue::UInt8(v) => CellBuffer::UInt8(vec![v; len]),
            CellValue::UInt16(v) => CellBuffer::UInt16(vec![v; len]),
            CellValue::UInt32(v) => CellBuffer::UInt32(vec![v; len]),
            CellValue::UInt64(v) => CellBuffer::UInt64(vec![v; len]),
            CellValue::Int8(v) => CellBuffer::Int8(vec![v; len]),
            CellValue::Int16(v) => CellBuffer::Int16(vec![v; len]),
            CellValue::Int32(v) => CellBuffer::Int32(vec![v; len]),
            CellValue::Int64(v) => CellBuffer::Int64(vec![v; len]),
            CellValue::Float32(v) => CellBuffer::Float32(vec![v; len]),
            CellValue::Float64(v) => CellBuffer::Float64(vec![v; len]),
        }
    }

    /// Fill a buffer of size `len` with values from a closure.
    ///
    /// First parameter of the closure is the current index.
    pub fn fill_via<T: CellEncoding, F: Fn(usize) -> T>(len: usize, f: F) -> (r: Self)
        requires
            forall|i: usize| i < len ==> call_requires(f, (i,)),
        ensures
            r.tag() == T::tag(),
            r@.len() == len,
            exists|made: Seq<T>|
                {
                    &&& #[trigger] cells_of(made) == r@
                    &&& made.len() == len
                    &&& forall|i: usize| i < len ==> call_ensures(f, (i,), #[trigger] made[i as int])
                },
    {
        let mut data: Vec<T> = Vec::new();
        let mut i: usize = 0;
        while i < len
            invariant
                i <= len,
                data.len() == i,
                forall|j: usize| j < len ==> call_requires(f, (j,)),
                forall|j: usize|
                    j < i ==> call_ensures(f, (j,), #[trigger] data@[j as int]),
            decreases len - i,
        {
            let x = f(i);
            data.push(x);
            i = i + 1;
        }
        Self::from_vec(data)
    }

    /// Get the length of the buffer.
    pub fn len(&self) -> (r: usize)
        ensures
            r == self@.len(),
    {
        match self {
            CellBuffer::UInt8(v) => v.len(),
            CellBuffer::UInt16(v) => v.len(),
            CellBuffer::UInt32(v) => v.len(),
            CellBuffer::UInt64(v) => v.len(),
            CellBuffer::Int8(v) => v.len(),
            CellBuffer::Int16(v) => v.len(),
            CellBuffer::Int32(v) => v.len(),
            CellBuffer::Int64(v) => v.len(),
            CellBuffer::Float32(v) => v.len(),
            CellBuffer::Float64(v) => v.len(),
        }
    }

    /// Determine if the buffer has zero values in it.
    pub fn is_empty(&self) -> (r: bool)
        ensures
            r == (self@.len() == 0),
    {
        self.len() == 0
    }

    /// Get the cell type of the encoded value.
    pub fn cell_type(&self) -> (r: CellType)
        ensures
            r == self.tag(),
    {
        match self {
            CellBuffer::UInt8(_) => CellType::UInt8,
            CellBuffer::UInt16(_) => CellType::UInt16,
            CellBuffer::UInt32(_) => CellType::UInt32,
            CellBuffer::UInt64(_) => CellType::UInt64,
            CellBuffer::Int8(_) => CellType::Int8,
            CellBuffer::Int16(_) => CellType::Int16,
            CellBuffer::Int32(_) => CellType::Int32,
            CellBuffer::Int64(_) => CellType::Int64,
            CellBuffer::Float32(_) => CellType::Float32,
            CellBuffer::Float64(_) => CellType::Float64,
        }
    }

    /// Get the [`CellValue`] at position `index`.
    pub fn get(&self, index: usize) -> (r: CellValue)
        requires
            index < self@.len(),
        ensures
            r == self@[index as int],
            r.tag() == self.tag(),
    {
        match self {
            CellBuffer::UInt8(b) => CellValue::UInt8(b[index]),
            CellBuffer::UInt16(b) => CellValue::UInt16(b[index]),
            CellBuffer::UInt32(b) => CellValue::UInt32(b[index]),
            CellBuffer::UInt64(b) => CellValue::UInt64(b[index]),
            CellBuffer::Int8(b) => CellValue::Int8(b[index]),
            CellBuffer::Int16(b) => CellValue::Int16(b[index]),
            CellBuffer::Int32(b) => CellValue::Int32(b[index]),
            CellBuffer::Int64(b) => CellValue::Int64(b[index]),
            CellBuffer::Float32(b) => CellValue::Float32(b[index]),
            CellBuffer::Float64(b) => CellValue::Float64(b[index]),
        }
    }

    /// Appends one cell of the buffer's own encoding.
    pub fn push(&mut self, cell: CellValue)
        requires
            cell.tag() == old(self).tag(),
        ensures
            final(self).tag() == old(self).tag(),
            final(self)@ == old(self)@.push(cell),
    {
        match self {
            CellBuffer::UInt8(b) => match cell {
                CellValue::UInt8(v) => {
                    b.push(v);
                },
                _ => {},
            },
            CellBuffer::UInt16(b) => match cell {
                CellValue::UInt16(v) => {
                    b.push(v);
                },
                _ => {},
            },
            CellBuffer::UInt32(b) => match cell {
                CellValue::UInt32(v) => {
                    b.push(v);
                },
                _ => {},
            },
            CellBuffer::UInt64(b) => match cell {
                CellValue::UInt64(v) => {
                    b.push(v);
                },
                _ => {},
            },
            CellBuffer::Int8(b) => match cell {
                CellValue::Int8(v) => {
                    b.push(v);
                },
                _ => {},
            },
            CellBuffer::Int16(b) => match cell {
                CellValue::Int16(v) => {
                    b.push(v);
                },
                _ => {},
            },
            CellBuffer::Int32(b) => match cell {
                CellValue::Int32(v) => {
                    b.push(v);
                },
                _ => {},
            },
            CellBuffer::Int64(b) => match cell {
                CellValue::Int64(v) => {
                    b.push(v);
                },
                _ => {},
            },
            CellBuffer::Float32(b) => match cell {
                CellValue::Float32(v) => {
                    b.push(v);
                },
                _ => {},
            },
            CellBuffer::Float64(b) => match cell {
                CellValue::Float64(v) => {
                    b.push(v);
                },
                _ => {},
            },
        }
    }

    /// The cells of the buffer, in order.
    pub fn cells(&self) -> (r: Vec<CellValue>)
        ensures
            r@ == self@,
    {
        let mut out: Vec<CellValue> = Vec::new();
        let mut i: usize = 0;
        while i < self.len()
            invariant
                i <= self@.len(),
                out@ == self@.take(i as int),
            decreases self@.len() - i,
        {
            out.push(self.get(i));
            i = i + 1;
        }
        out
    }

    /// An iterator over the cells of the buffer.
    pub fn iter(&self) -> (r: CellBufferIterator<'_>)
        ensures
            r.remaining() == self@,
    {
        CellBufferIterator { buf: self, idx: 0, len: self.len() }
    }
}

impl Clone for CellBuffer {
    fn clone(&self) -> (r: Self)
        ensures
            r@ == self@,
            r.tag() == self.tag(),
    {
        match self {
            CellBuffer::UInt8(v) => CellBuffer::UInt8(v.clone()),
            CellBuffer::UInt16(v) => CellBuffer::UInt16(v.clone()),
            CellBuffer::UInt32(v) => CellBuffer::UInt32(v.clone()),
            CellBuffer::UInt64(v) => CellBuffer::UInt64(v.clone()),
            CellBuffer::Int8(v) => CellBuffer::Int8(v.clone()),
            CellBuffer::Int16(v) => CellBuffer::Int16(v.clone()),
            CellBuffer::Int32(v) => CellBuffer::Int32(v.clone()),
            CellBuffer::Int64(v) => CellBuffer::Int64(v.clone()),
            CellBuffer::Float32(v) => CellBuffer::Float32(v.clone()),
            CellBuffer::Float64(v) => CellBuffer::Float64(v.clone()),
        }
    }
}

/// Makes a buffer out of native values.
impl<T: CellEncoding> From<Vec<T>> for CellBuffer {
    fn from(values: Vec<T>) -> (r: Self)
        ensures
            r.tag() == T::tag(),
            r@ == cells_of(values@),
    {
        T::into_buffer(values)
    }
}

/// What `from` returns is stated on `from` itself, over the cells of the
/// result: no spec function can build the buffer that comes back.
impl<T: CellEncoding> vstd::std_specs::convert::FromSpecImpl<Vec<T>> for CellBuffer {
    open spec fn obeys_from_spec() -> bool {
        false
    }

    open spec fn from_spec(values: Vec<T>) -> Self {
        arbitrary()
    }
}

/// Iterator over [`CellValue`] elements in a [`CellBuffer`].
pub struct CellBufferIterator<'buf> {
    buf: &'buf CellBuffer,
    idx: usize,
    len: usize,
}

impl<'buf> CellBufferIterator<'buf> {
    #[verifier::type_invariant]
    spec fn well_formed(self) -> bool {
        self.len == self.buf@.len() && self.idx <= self.len
    }

    /// The cells that are still to come.
    pub closed spec fn remaining(self) -> Seq<CellValue> {
        self.buf@.skip(self.idx as int)
    }

    /// The next cell of the buffer, or `None` at its end.
    pub fn next(&mut self) -> (r: Option<CellValue>)
        ensures
            old(self).remaining().len() == 0 ==> r is None && final(self).remaining().len() == 0,
            old(self).remaining().len() > 0 ==> r == Some(old(self).remaining()[0])
                && final(self).remaining() == old(self).remaining().skip(1),
    {
        proof {
            use_type_invariant(&*self);
        }
        if self.idx >= self.len {
            None
        } else {
            let r = self.buf.get(self.idx);
            self.idx = self.idx + 1;
            Some(r)
        }
    }
}

} // verus!
