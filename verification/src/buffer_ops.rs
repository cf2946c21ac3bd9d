//! The operations that plain and masked buffers have in common.

use vstd::prelude::*;
use crate::buffer::{all_widened, cells_of, CellBuffer};
use crate::ctype::CellType;
use crate::encoding::CellEncoding;
use crate::error::{narrowing, Error};
use crate::masked_buffer::{is_greatest_valid, is_least_valid, MaskedCellBuffer};
use crate::value::CellValue;

verus! {

/// Operations common to buffers of [`CellValue`]s.
pub trait BufferOps: Sized {
    /// The cells of the buffer, in order.
    spec fn cells(&self) -> Seq<CellValue>;

    /// The encoding of the buffer.
    spec fn encoding(&self) -> CellType;

    /// Which cells count in an aggregate, position by position.
    spec fn counted(&self) -> Seq<bool>;

    /// Whether the parts of the buffer are of one length.
    spec fn intact(&self) -> bool;

    /// Construct a buffer from a `Vec<T>`.
    fn from_vec<T: CellEncoding>(data: Vec<T>) -> (r: Self)
        ensures
            r.intact(),
            r.encoding() == T::tag(),
            r.cells() == cells_of(data@),
    ;

    /// Construct a buffer of given `len` length and `ct` `CellType`.
    ///
    /// All cells will be filled with the `CellType`'s corresponding default value.
    fn with_defaults(len: usize, ct: CellType) -> (r: Self)
        ensures
            r.intact(),
            r.encoding() == ct,
            r.cells() == Seq::new(len as nat, |i: int| ct.zero_cell()),
    ;

    /// Create a buffer of size `len` with all values `value`.
    fn fill(len: usize, value: CellValue) -> (r: Self)
        ensures
            r.intact(),
            r.encoding() == value.tag(),
            r.cells() == Seq::new(len as nat, |i: int| value),
    ;

    /// Fill a buffer of size `len` with values from a closure.
    ///
    /// First parameter of the closure is the current index.
    fn fill_via<T: CellEncoding, F: Fn(usize) -> T>(len: usize, f: F) -> (r: Self)
        requires
            forall|i: usize| i < len ==> call_requires(f, (i,)),
        ensures
            r.intact(),
            r.encoding() == T::tag(),
            exists|made: Seq<T>|
                {
                    &&& #[trigger] cells_of(made) == r.cells()
                    &&& made.len() == len
                    &&& forall|i: usize| i < len ==> call_ensures(f, (i,), #[trigger] made[i as int])
                },
    ;

    /// Get the length of the buffer.
    fn len(&self) -> (r: usize)
        ensures
            r == self.cells().len(),
    ;

    /// Determine if the buffer has zero values in it.
    fn is_empty(&self) -> (r: bool)
        ensures
            r == (self.cells().len() == 0),
    ;

    /// Get the cell type of the encoded value.
    fn cell_type(&self) -> (r: CellType)
        ensures
            r == self.encoding(),
    ;

    /// Get the [`CellValue`] at position `index`.
    fn get(&self, index: usize) -> (r: CellValue)
        requires
            index < self.cells().len(),
        ensures
            r == self.cells()[index as int],
    ;

    /// Store `value` at position `index`.
    ///
    /// Returns the narrowing error, and changes nothing, if the encoding of
    /// `value` does not fit into that of the buffer.
    fn put(&mut self, index: usize, value: CellValue) -> (r: Result<(), Error>)
        requires
            index < old(self).cells().len(),
        ensures
            final(self).encoding() == old(self).encoding(),
            final(self).counted() == old(self).counted(),
            final(self).intact() == old(self).intact(),
            value.tag().fits_into(old(self).encoding()) ==> r is Ok && final(self).cells() == old(
                self,
            ).cells().update(index as int, value.widened(old(self).encoding())),
            !value.tag().fits_into(old(self).encoding()) ==> r == Err::<(), Error>(
                narrowing(value.tag(), old(self).encoding()),
            ) && final(self).cells() == old(self).cells(),
    ;

    /// Create a new buffer whereby all [`CellValue`]s are converted to `cell_type`.
    ///
    /// Returns the narrowing error if the encoding of the buffer does not
    /// fit into `cell_type`.
    fn convert(&self, cell_type: CellType) -> (r: Result<Self, Error>)
        requires
            self.intact(),
        ensures
            self.encoding().fits_into(cell_type) ==> (r matches Ok(b) && b.intact() && b.encoding()
                == cell_type && b.cells() == all_widened(self.cells(), cell_type) && b.counted()
                == self.counted()),
            !self.encoding().fits_into(cell_type) ==> r == Err::<Self, Error>(
                narrowing(self.encoding(), cell_type),
            ),
    ;

    /// Compute the minimum and maximum values of the buffer, among the cells
    /// that count.
    fn min_max(&self) -> (r: (CellValue, CellValue))
        requires
            self.intact(),
        ensures
            is_least_valid(r.0, self.cells(), self.counted(), self.encoding().max_cell()),
            is_greatest_valid(r.1, self.cells(), self.counted(), self.encoding().min_cell()),
    ;

    /// Convert `self` into a `Vec<T>`.
    ///
    /// Returns the narrowing error if the encoding of the buffer does not
    /// fit into that of `T`.
    fn to_vec<T: CellEncoding>(self) -> (r: Result<Vec<T>, Error>)
        ensures
            self.encoding().fits_into(T::tag()) ==> (r matches Ok(v) && cells_of(v@)
                == all_widened(self.cells(), T::tag())),
            !self.encoding().fits_into(T::tag()) ==> r == Err::<Vec<T>, Error>(
                narrowing(self.encoding(), T::tag()),
            ),
    ;
}

impl BufferOps for CellBuffer {
    open spec fn cells(&self) -> Seq<CellValue> {
        self@
    }

    open spec fn encoding(&self) -> CellType {
        self.tag()
    }

    open spec fn counted(&self) -> Seq<bool> {
        Seq::new(self@.len(), |i: int| true)
    }

    open spec fn intact(&self) -> bool {
        true
    }

    fn from_vec<T: CellEncoding>(data: Vec<T>) -> (r: Self) {
        CellBuffer::from_vec(data)
    }

    fn with_defaults(len: usize, ct: CellType) -> (r: Self) {
        CellBuffer::with_defaults(len, ct)
    }

    fn fill(len: usize, value: CellValue) -> (r: Self) {
        CellBuffer::fill(len, value)
    }

    fn fill_via<T: CellEncoding, F: Fn(usize) -> T>(len: usize, f: F) -> (r: Self) {
        CellBuffer::fill_via(len, f)
    }

    fn len(&self) -> (r: usize) {
        CellBuffer::len(self)
    }

    fn is_empty(&self) -> (r: bool) {
        CellBuffer::is_empty(self)
    }

    fn cell_type(&self) -> (r: CellType) {
        CellBuffer::cell_type(self)
    }

    fn get(&self, index: usize) -> (r: CellValue) {
        CellBuffer::get(self, index)
    }

    fn put(&mut self, index: usize, value: CellValue) -> (r: Result<(), Error>) {
        CellBuffer::put(self, index, value)
    }

    fn convert(&self, cell_type: CellType) -> (r: Result<Self, Error>) {
        CellBuffer::convert(self, cell_type)
    }

    fn min_max(&self) -> (r: (CellValue, CellValue)) {
        let r = CellBuffer::min_max(self);
        proof {
            let low = self@.push(self.tag().max_cell());
            let high = self@.push(self.tag().min_cell());
            let n = self@.len() as int;
            assert(low[n] == self.tag().max_cell());
            assert(high[n] == self.tag().min_cell());
            assert forall|k: int| 0 <= k < n implies r.0.order_key() <= (
            #[trigger] self@[k]).order_key() by {
                assert(low[k] == self@[k]);
            }
            assert forall|k: int| 0 <= k < n implies r.1.order_key() >= (
            #[trigger] self@[k]).order_key() by {
                assert(high[k] == self@[k]);
            }
        }
        r
    }

    fn to_vec<T: CellEncoding>(self) -> (r: Result<Vec<T>, Error>) {
        CellBuffer::to_vec(self)
    }
}

impl BufferOps for MaskedCellBuffer {
    open spec fn cells(&self) -> Seq<CellValue> {
        self.buffer()@
    }

    open spec fn encoding(&self) -> CellType {
        self.buffer().tag()
    }

    open spec fn counted(&self) -> Seq<bool> {
        self.mask()@
    }

    open spec fn intact(&self) -> bool {
        self.well_formed()
    }

    fn from_vec<T: CellEncoding>(data: Vec<T>) -> (r: Self) {
        MaskedCellBuffer::from_vec(data)
    }

    fn with_defaults(len: usize, ct: CellType) -> (r: Self) {
        MaskedCellBuffer::with_defaults(len, ct)
    }

    fn fill(len: usize, value: CellValue) -> (r: Self) {
        MaskedCellBuffer::fill(len, value)
    }

    fn fill_via<T: CellEncoding, F: Fn(usize) -> T>(len: usize, f: F) -> (r: Self) {
        MaskedCellBuffer::fill_via(len, f)
    }

    fn len(&self) -> (r: usize) {
        MaskedCellBuffer::len(self)
    }

    fn is_empty(&self) -> (r: bool) {
        MaskedCellBuffer::is_empty(self)
    }

    fn cell_type(&self) -> (r: CellType) {
        MaskedCellBuffer::cell_type(self)
    }

    fn get(&self, index: usize) -> (r: CellValue) {
        MaskedCellBuffer::get(self, index)
    }

    fn put(&mut self, index: usize, value: CellValue) -> (r: Result<(), Error>) {
        MaskedCellBuffer::put(self, index, value)
    }

    fn convert(&self, cell_type: CellType) -> (r: Result<Self, Error>) {
        MaskedCellBuffer::convert(self, cell_type)
    }

    fn min_max(&self) -> (r: (CellValue, CellValue)) {
        MaskedCellBuffer::min_max(self)
    }

    fn to_vec<T: CellEncoding>(self) -> (r: Result<Vec<T>, Error>) {
        MaskedCellBuffer::to_vec(self)
    }
}

} // verus!
