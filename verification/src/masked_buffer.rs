//! A buffer of cells together with the mask that tells which are valid.

use vstd::prelude::*;
use vstd::string::StringExecFns;
use std::cmp::Ordering;
use crate::buffer::{
    all_cast,
    all_castable,
    all_negatable,
    all_negated,
    all_widened,
    buffer_text,
    cells_of,
    combined,
    shows,
    CellBuffer,
};
use crate::ctype::CellType;
use crate::encoding::CellEncoding;
use crate::error::{narrowing, Error};
use crate::ieee::Binary64;
use crate::mask::{both, count_valid, flag_texts, Mask};
use crate::nodata::NoData;
use crate::render::elided_text;
use crate::value::CellValue;

verus! {

/// A [`CellBuffer`] with a companion [`Mask`].
///
/// The `Mask` tracks which cells are valid across operations, and which should be
/// treated as "no-data" values.
#[derive(Debug)]
pub struct MaskedCellBuffer(CellBuffer, Mask);

/// Whether `c` is the seed or a valid cell, and ranks no higher than the
/// seed and than any valid cell.
pub open spec fn is_least_valid(
    c: CellValue,
    cells: Seq<CellValue>,
    valid: Seq<bool>,
    seed: CellValue,
) -> bool {
    &&& c == seed || exists|i: int| 0 <= i < cells.len() && valid[i] && #[trigger] cells[i] == c
    &&& c.order_key() <= seed.order_key()
    &&& forall|i: int|
        0 <= i < cells.len() && valid[i] ==> c.order_key() <= (#[trigger] cells[i]).order_key()
}

/// Whether `c` is the seed or a valid cell, and ranks no lower than the
/// seed and than any valid cell.
pub open spec fn is_greatest_valid(
    c: CellValue,
    cells: Seq<CellValue>,
    valid: Seq<bool>,
    seed: CellValue,
) -> bool {
    &&& c == seed || exists|i: int| 0 <= i < cells.len() && valid[i] && #[trigger] cells[i] == c
    &&& c.order_key() >= seed.order_key()
    &&& forall|i: int|
        0 <= i < cells.len() && valid[i] ==> c.order_key() >= (#[trigger] cells[i]).order_key()
}

/// The cells of a masked buffer as a plain array: each valid cell widened
/// to `t`, and the sentinel, where there is one, in the place of each invalid cell.
pub open spec fn with_sentinel(
    cells: Seq<CellValue>,
    valid: Seq<bool>,
    t: CellType,
    sentinel: Option<CellValue>,
) -> Seq<CellValue> {
    Seq::new(
        cells.len(),
        |i: int|
            match sentinel {
                Some(s) => if valid[i] {
                    cells[i].widened(t)
                } else {
                    s
                },
                None => cells[i].widened(t),
            },
    )
}

impl MaskedCellBuffer {
    /// The buffer of cells.
    pub closed spec fn spec_buffer(&self) -> &CellBuffer {
        &self.0
    }

    /// The validity mask.
    pub closed spec fn spec_mask(&self) -> &Mask {
        &self.1
    }

    /// Whether cells and mask are of one length.
    pub open spec fn well_formed(&self) -> bool {
        self.buffer()@.len() == self.mask()@.len()
    }

    /// Create a new combined [`CellBuffer`] and [`Mask`].
    ///
    /// The two have to be of the same length.
    pub fn new(buffer: CellBuffer, mask: Mask) -> (r: Self)
        requires
            buffer@.len() == mask@.len(),
        ensures
            *r.buffer() == buffer,
            *r.mask() == mask,
            r.well_formed(),
    {
        MaskedCellBuffer(buffer, mask)
    }

    /// Create a new combined [`CellBuffer`] and [`Mask`], if the two are of
    /// the same length.
    ///
    /// Returns `None` if they are not.
    pub fn checked_new(buffer: CellBuffer, mask: Mask) -> (r: Option<Self>)
        ensures
            buffer@.len() == mask@.len() ==> (r matches Some(m) && *m.buffer() == buffer
                && *m.mask() == mask && m.well_formed()),
            buffer@.len() != mask@.len() ==> r is None,
    {
        if buffer.len() == mask.len() {
            Some(MaskedCellBuffer(buffer, mask))
        } else {
            None
        }
    }

    /// Constructs a `MaskedCellBuffer` from a `Vec<CellEncoding>`, specifying a `NoData<T>` value.
    ///
    /// Mask value will be `false` when associated cell matches `nodata`.
    pub fn from_vec_with_nodata<T: CellEncoding>(data: Vec<T>, nodata: NoData<T>) -> (r: Self)
        ensures
            r.well_formed(),
            r.buffer().tag() == T::tag(),
            r.buffer()@ == cells_of(data@),
            forall|i: int|
                0 <= i < data@.len() ==> #[trigger] r.mask()@[i] == !nodata.marks(data@[i].cell()),
    {
        let mut mask = Mask::fill(data.len(), true);
        let buf = CellBuffer::from_vec(data);
        let mut i: usize = 0;
        while i < buf.len()
            invariant
                i <= buf@.len(),
                mask@.len() == buf@.len(),
                buf@ == cells_of(data@),
                forall|j: int| 0 <= j < i ==> #[trigger] mask@[j] == !nodata.marks(buf@[j]),
            decreases buf@.len() - i,
        {
            let v = buf.get(i);
            mask.put(i, !nodata.is(&v));
            i = i + 1;
        }
        Self::new(buf, mask)
    }

    /// Fills a buffer of size `len` with the values and the validity flags
    /// that a closure gives for each index.
    pub fn fill_with_mask_via<T: CellEncoding, F: Fn(usize) -> (T, bool)>(len: usize, mv: F) -> (r:
        Self)
        requires
            forall|i: usize| i < len ==> call_requires(mv, (i,)),
        ensures
            r.well_formed(),
            r.buffer().tag() == T::tag(),
            r.buffer()@.len() == len,
            exists|made: Seq<(T, bool)>|
                {
                    &&& #[trigger] made.len() == len
                    &&& forall|i: usize|
                        i < len ==> call_ensures(mv, (i,), #[trigger] made[i as int])
                    &&& forall|i: int|
                        0 <= i < len ==> #[trigger] r.buffer()@[i] == made[i].0.cell()
                    &&& forall|i: int| 0 <= i < len ==> #[trigger] r.mask()@[i] == made[i].1
                },
    {
        let mut data: Vec<T> = Vec::new();
        let mut flags: Vec<bool> = Vec::new();
        let ghost mut made: Seq<(T, bool)> = Seq::empty();
        let mut i: usize = 0;
        while i < len
            invariant
                i <= len,
                data.len() == i,
                flags.len() == i,
                made.len() == i,
                forall|j: usize| j < len ==> call_requires(mv, (j,)),
                forall|j: usize| j < i ==> call_ensures(mv, (j,), #[trigger] made[j as int]),
                forall|j: int| 0 <= j < i ==> #[trigger] data@[j] == made[j].0,
                forall|j: int| 0 <= j < i ==> #[trigger] flags@[j] == made[j].1,
            decreases len - i,
        {
            let pair = mv(i);
            data.push(pair.0);
            flags.push(pair.1);
            proof {
                made = made.push(pair);
            }
            i = i + 1;
        }
        Self::new(CellBuffer::from_vec(data), Mask::new(flags))
    }

    /// The buffer of cells.
    #[verifier::when_used_as_spec(spec_buffer)]
    pub fn buffer(&self) -> (r: &CellBuffer)
        ensures
            r == self.buffer(),
    {
        &self.0
    }

    /// The buffer of cells, to be changed in place.
    pub fn buffer_mut(&mut self) -> (r: &mut CellBuffer)
        ensures
            *r == *old(self).buffer(),
            *final(self).buffer() == *final(r),
            *final(self).mask() == *old(self).mask(),
    {
        &mut self.0
    }

    /// The validity mask.
    #[verifier::when_used_as_spec(spec_mask)]
    pub fn mask(&self) -> (r: &Mask)
        ensures
            r == self.mask(),
    {
        &self.1
    }

    /// The validity mask, to be changed in place.
    pub fn mask_mut(&mut self) -> (r: &mut Mask)
        ensures
            *r == *old(self).mask(),
            *final(self).mask() == *final(r),
            *final(self).buffer() == *old(self).buffer(),
    {
        &mut self.1
    }

    /// Get a buffer value at position `index` with mask evaluated.
    ///
    /// Returns `Some(CellValue)` if mask at `index` is `true`, `None` otherwise.
    pub fn get_masked(&self, index: usize) -> (r: Option<CellValue>)
        requires
            index < self.buffer()@.len(),
            index < self.mask()@.len(),
        ensures
            r == (if self.mask()@[index as int] {
                Some(self.buffer()@[index as int])
            } else {
                None
            }),
    {
        if self.1.get(index) {
            Some(self.0.get(index))
        } else {
            None
        }
    }

    /// Get the cell value and mask value at position `index`.
    ///
    /// Returns `(CellValue, bool)`. If `bool` is `false`, associated
    /// `CellValue` should be considered invalid.
    pub fn get_with_mask(&self, index: usize) -> (r: (CellValue, bool))
        requires
            index < self.buffer()@.len(),
            index < self.mask()@.len(),
        ensures
            r == (self.buffer()@[index as int], self.mask()@[index as int]),
    {
        (self.0.get(index), self.1.get(index))
    }

    /// Set the `value` and `mask` at position `index`.
    ///
    /// Returns the narrowing error, and changes nothing, if the encoding of
    /// `value` does not fit into that of the buffer.
    pub fn put_with_mask(&mut self, index: usize, value: CellValue, mask: bool) -> (r: Result<
        (),
        Error,
    >)
        requires
            index < old(self).buffer()@.len(),
            index < old(self).mask()@.len(),
        ensures
            final(self).buffer().tag() == old(self).buffer().tag(),
            final(self).well_formed() == old(self).well_formed(),
            value.tag().fits_into(old(self).buffer().tag()) ==> r is Ok && final(self).buffer()@
                == old(self).buffer()@.update(
                index as int,
                value.widened(old(self).buffer().tag()),
            ) && final(self).mask()@ == old(self).mask()@.update(index as int, mask),
            !value.tag().fits_into(old(self).buffer().tag()) ==> r == Err::<(), Error>(
                narrowing(value.tag(), old(self).buffer().tag()),
            ) && *final(self) == *old(self),
    {
        match self.0.put(index, value) {
            Ok(()) => {},
            Err(e) => {
                return Err(e);
            },
        }
        self.1.put(index, mask);
        Ok(())
    }

    /// Returns the counts of valid and of invalid cells, as `(data, nodata)`.
    pub fn counts(&self) -> (r: (usize, usize))
        ensures
            r.0 == count_valid(self.mask()@),
            r.1 == self.mask()@.len() - count_valid(self.mask()@),
    {
        self.1.counts()
    }

    /// Separate underlying buffer and mask from `self`.
    pub fn take(self) -> (r: (CellBuffer, Mask))
        ensures
            r.0 == *self.buffer(),
            r.1 == *self.mask(),
    {
        (self.0, self.1)
    }

    /// Convert `self` into a `Vec<T>`, replacing values where the mask is `0` to `no_data.value()`.
    ///
    /// Returns the narrowing error if the encoding of the buffer does not
    /// fit into that of `T`. Where `no_data` has no sentinel, the cells
    /// come out as they are.
    pub fn to_vec_with_nodata<T: CellEncoding>(self, no_data: NoData<T>) -> (r: Result<
        Vec<T>,
        Error,
    >)
        requires
            self.well_formed(),
        ensures
            self.buffer().tag().fits_into(T::tag()) ==> (r matches Ok(v) && cells_of(v@)
                == with_sentinel(self.buffer()@, self.mask()@, T::tag(), no_data.sentinel())),
            !self.buffer().tag().fits_into(T::tag()) ==> r == Err::<Vec<T>, Error>(
                narrowing(self.buffer().tag(), T::tag()),
            ),
    {
        let ghost cells = self.buffer()@;
        let ghost valid = self.mask()@;
        let MaskedCellBuffer(buf, mask) = self;
        let out = match buf.to_vec::<T>() {
            Ok(v) => v,
            Err(e) => {
                return Err(e);
            },
        };
        match no_data.value() {
            Some(nd) => {
                let mut out = out;
                let ghost plain = out@;
                assert(cells_of(plain).len() == all_widened(cells, T::tag()).len());
                let mut i: usize = 0;
                while i < out.len()
                    invariant
                        i <= out@.len(),
                        out@.len() == plain.len(),
                        plain.len() == cells.len(),
                        mask@ == valid,
                        valid.len() == cells.len(),
                        cells_of(plain) == all_widened(cells, T::tag()),
                        no_data.sentinel() == Some(nd.cell()),
                        forall|j: int|
                            0 <= j < i ==> #[trigger] out@[j] == (if valid[j] {
                                plain[j]
                            } else {
                                nd
                            }),
                        forall|j: int| i <= j < out@.len() ==> #[trigger] out@[j] == plain[j],
                    decreases out@.len() - i,
                {
                    if !mask.get(i) {
                        out.set(i, nd);
                    }
                    i = i + 1;
                }
                assert forall|j: int| 0 <= j < cells.len() implies #[trigger] cells_of(out@)[j]
                    == with_sentinel(cells, valid, T::tag(), no_data.sentinel())[j] by {
                    assert(cells_of(plain)[j] == all_widened(cells, T::tag())[j]);
                }
                assert(cells_of(out@) =~= with_sentinel(
                    cells,
                    valid,
                    T::tag(),
                    no_data.sentinel(),
                ));
                Ok(out)
            },
            None => {
                assert(cells_of(out@) =~= with_sentinel(
                    cells,
                    valid,
                    T::tag(),
                    no_data.sentinel(),
                ));
                Ok(out)
            },
        }
    }
}


impl MaskedCellBuffer {
    /// Construct a masked buffer from a `Vec<T>`, with every cell valid.
    pub fn from_vec<T: CellEncoding>(data: Vec<T>) -> (r: Self)
        ensures
            r.well_formed(),
            r.buffer().tag() == T::tag(),
            r.buffer()@ == cells_of(data@),
            r.mask()@ == Seq::new(data@.len(), |i: int| true),
    {
        let buffer = CellBuffer::from_vec(data);
        let mask = Mask::fill(buffer.len(), true);
        Self::new(buffer, mask)
    }

    /// Construct a masked buffer of given `len` length and `ct` `CellType`,
    /// with every cell valid and of the default value.
    pub fn with_defaults(len: usize, ct: CellType) -> (r: Self)
        ensures
            r.well_formed(),
            r.buffer().tag() == ct,
            r.buffer()@ == Seq::new(len as nat, |i: int| ct.zero_cell()),
            r.mask()@ == Seq::new(len as nat, |i: int| true),
    {
        let buffer = CellBuffer::with_defaults(len, ct);
        let mask = Mask::fill(len, true);
        Self::new(buffer, mask)
    }

    /// Create a masked buffer of size `len` with all values `value`, each
    /// of them valid.
    pub fn fill(len: usize, value: CellValue) -> (r: Self)
        ensures
            r.well_formed(),
            r.buffer().tag() == value.tag(),
            r.buffer()@ == Seq::new(len as nat, |i: int| value),
            r.mask()@ == Seq::new(len as nat, |i: int| true),
    {
        let buffer = CellBuffer::fill(len, value);
        let mask = Mask::fill(len, true);
        Self::new(buffer, mask)
    }

    /// Fill a masked buffer of size `len` with values from a closure, each
    /// of them valid.
    pub fn fill_via<T: CellEncoding, F: Fn(usize) -> T>(len: usize, f: F) -> (r: Self)
        requires
            forall|i: usize| i < len ==> call_requires(f, (i,)),
        ensures
            r.well_formed(),
            r.buffer().tag() == T::tag(),
            r.mask()@ == Seq::new(len as nat, |i: int| true),
            exists|made: Seq<T>|
                {
                    &&& #[trigger] cells_of(made) == r.buffer()@
                    &&& made.len() == len
                    &&& forall|i: usize| i < len ==> call_ensures(f, (i,), #[trigger] made[i as int])
                },
    {
        let buffer = CellBuffer::fill_via(len, f);
        let mask = Mask::fill(len, true);
        Self::new(buffer, mask)
    }

    /// Get the length of the buffer.
    pub fn len(&self) -> (r: usize)
        ensures
            r == self.buffer()@.len(),
    {
        self.0.len()
    }

    /// Determine if the buffer has zero values in it.
    pub fn is_empty(&self) -> (r: bool)
        ensures
            r == (self.buffer()@.len() == 0),
    {
        self.0.len() == 0
    }

    /// Get the cell type of the encoded value.
    pub fn cell_type(&self) -> (r: CellType)
        ensures
            r == self.buffer().tag(),
    {
        self.0.cell_type()
    }

    /// Get the [`CellValue`] at position `index`, whatever the mask says of it.
    pub fn get(&self, index: usize) -> (r: CellValue)
        requires
            index < self.buffer()@.len(),
        ensures
            r == self.buffer()@[index as int],
    {
        self.0.get(index)
    }

    /// Store `value` at position `index`, and leave the mask as it is.
    ///
    /// Returns the narrowing error, and changes nothing, if the encoding of
    /// `value` does not fit into that of the buffer.
    pub fn put(&mut self, index: usize, value: CellValue) -> (r: Result<(), Error>)
        requires
            index < old(self).buffer()@.len(),
        ensures
            final(self).buffer().tag() == old(self).buffer().tag(),
            final(self).well_formed() == old(self).well_formed(),
            *final(self).mask() == *old(self).mask(),
            value.tag().fits_into(old(self).buffer().tag()) ==> r is Ok && final(self).buffer()@
                == old(self).buffer()@.update(
                index as int,
                value.widened(old(self).buffer().tag()),
            ),
            !value.tag().fits_into(old(self).buffer().tag()) ==> r == Err::<(), Error>(
                narrowing(value.tag(), old(self).buffer().tag()),
            ) && *final(self) == *old(self),
    {
        self.0.put(index, value)
    }

    /// Create a new masked buffer whereby all cells are converted to
    /// `cell_type`; the mask is carried over.
    ///
    /// Returns the narrowing error if the encoding of the buffer does not
    /// fit into `cell_type`.
    pub fn convert(&self, cell_type: CellType) -> (r: Result<Self, Error>)
        requires
            self.well_formed(),
        ensures
            self.buffer().tag().fits_into(cell_type) ==> (r matches Ok(m) && m.well_formed()
                && m.buffer().tag() == cell_type && m.buffer()@ == all_widened(
                self.buffer()@,
                cell_type,
            ) && m.mask()@ == self.mask()@),
            !self.buffer().tag().fits_into(cell_type) ==> r == Err::<Self, Error>(
                narrowing(self.buffer().tag(), cell_type),
            ),
    {
        match self.0.convert(cell_type) {
            Ok(converted) => {
                Ok(Self::new(converted, self.1.clone()))
            },
            Err(e) => Err(e),
        }
    }

    /// Compute the minimum and maximum of the valid cells.
    ///
    /// The greatest and the least value of the encoding seed the search, so
    /// that a buffer without a valid cell gives that inverted pair.
    pub fn min_max(&self) -> (r: (CellValue, CellValue))
        requires
            self.well_formed(),
        ensures
            is_least_valid(
                r.0,
                self.buffer()@,
                self.mask()@,
                self.buffer().tag().max_cell(),
            ),
            is_greatest_valid(
                r.1,
                self.buffer()@,
                self.mask()@,
                self.buffer().tag().min_cell(),
            ),
    {
        let ghost cells = self.buffer()@;
        let ghost valid = self.mask()@;
        let ghost tag = self.buffer().tag();
        let mut amin = self.0.cell_type().max();
        let mut amax = self.0.cell_type().min();
        let n = self.0.len();
        let mut i: usize = 0;
        while i < n
            invariant
                i <= n,
                n == cells.len(),
                cells == self.buffer()@,
                valid == self.mask()@,
                valid.len() == cells.len(),
                tag == self.buffer().tag(),
                amin.tag() == tag,
                amax.tag() == tag,
                amin == tag.max_cell() || exists|j: int|
                    0 <= j < i && valid[j] && #[trigger] cells[j] == amin,
                amax == tag.min_cell() || exists|j: int|
                    0 <= j < i && valid[j] && #[trigger] cells[j] == amax,
                amin.order_key() <= tag.max_cell().order_key(),
                amax.order_key() >= tag.min_cell().order_key(),
                forall|j: int|
                    0 <= j < i && valid[j] ==> amin.order_key() <= (#[trigger] cells[j]).order_key(),
                forall|j: int|
                    0 <= j < i && valid[j] ==> amax.order_key() >= (#[trigger] cells[j]).order_key(),
            decreases n - i,
        {
            let v = self.0.get(i);
            if self.1.get(i) {
                proof {
                    self.buffer().lemma_homogeneous();
                }
                amin = amin.min(v);
                amax = amax.max(v);
            }
            i = i + 1;
        }
        (amin, amax)
    }

    /// Converts `self` to `Vec<T>`, ignoring the `mask` values.
    ///
    /// Returns the narrowing error if the encoding of the buffer does not
    /// fit into that of `T`.
    pub fn to_vec<T: CellEncoding>(self) -> (r: Result<Vec<T>, Error>)
        ensures
            self.buffer().tag().fits_into(T::tag()) ==> (r matches Ok(v) && cells_of(v@)
                == all_widened(self.buffer()@, T::tag())),
            !self.buffer().tag().fits_into(T::tag()) ==> r == Err::<Vec<T>, Error>(
                narrowing(self.buffer().tag(), T::tag()),
            ),
    {
        self.0.to_vec()
    }

    /// Combines two masked buffers cell by cell with a binary64 operation.
    ///
    /// The cells are combined as those of plain buffers are. A cell of the
    /// result is valid where both cells that went into it are.
    pub fn zip_with<F: Fn(Binary64, Binary64) -> Binary64>(&self, rhs: &Self, op: &F) -> (r: Self)
        requires
            self.well_formed(),
            rhs.well_formed(),
            forall|a: Binary64, b: Binary64| call_requires(op, (a, b)),
        ensures
            r.well_formed(),
            r.mask()@ == both(self.mask()@, rhs.mask()@),
            r.buffer().tag() == (if r.buffer()@.len() == 0 {
                CellType::UInt8
            } else {
                CellType::Float64
            }),
            combined(self.buffer()@, rhs.buffer()@, op, r.buffer()@),
    {
        let new_buf = self.0.zip_with(&rhs.0, op);
        let new_mask = self.1.and(&rhs.1);
        Self::new(new_buf, new_mask)
    }

    /// Combines each cell of the masked buffer with one scalar by a
    /// binary64 operation.
    ///
    /// The cells are combined as those of a plain buffer are. The mask
    /// stays as it is.
    pub fn map_with<F: Fn(Binary64, Binary64) -> Binary64>(&self, rhs: CellValue, op: &F) -> (r:
        Self)
        requires
            self.well_formed(),
            forall|a: Binary64, b: Binary64| call_requires(op, (a, b)),
        ensures
            r.well_formed(),
            r.mask()@ == self.mask()@,
            r.buffer().tag() == (if r.buffer()@.len() == 0 {
                CellType::UInt8
            } else {
                CellType::Float64
            }),
            combined(
                self.buffer()@,
                Seq::new(self.buffer()@.len(), |i: int| rhs),
                op,
                r.buffer()@,
            ),
    {
        let new_buf = self.0.map_with(rhs, op);
        Self::new(new_buf, self.1.clone())
    }

    /// The masked buffer with every cell negated and the mask as it is.
    pub fn negated(&self) -> (r: Self)
        requires
            self.well_formed(),
            all_negatable(self.buffer()@),
        ensures
            r.well_formed(),
            r.mask()@ == self.mask()@,
            r.buffer()@ == all_negated(self.buffer()@),
            self.buffer()@.len() == 0 ==> r.buffer().tag() == CellType::UInt8,
            self.buffer()@.len() > 0 ==> r.buffer().tag() == self.buffer()@[0].negation().tag(),
    {
        let new_buf = self.0.negated();
        Self::new(new_buf, self.1.clone())
    }
}

/// The cells of the native values of a sequence of value-and-flag pairs.
pub open spec fn pair_cells<C: CellEncoding>(s: Seq<(C, bool)>) -> Seq<CellValue> {
    Seq::new(s.len(), |i: int| s[i].0.cell())
}

/// The flags of a sequence of value-and-flag pairs.
pub open spec fn pair_flags<C: CellEncoding>(s: Seq<(C, bool)>) -> Seq<bool> {
    Seq::new(s.len(), |i: int| s[i].1)
}

impl MaskedCellBuffer {
    /// Appends native values with their validity flags; each value is
    /// converted by its value into the encoding that the buffer has.
    ///
    /// Every value has to have a counterpart there: an integer encoding
    /// takes what lies in its range once rounded toward zero.
    pub fn extend<C: CellEncoding>(&mut self, items: Vec<(C, bool)>)
        requires
            old(self).well_formed(),
            all_castable(pair_cells(items@), old(self).buffer().tag()),
        ensures
            final(self).well_formed(),
            final(self).buffer().tag() == old(self).buffer().tag(),
            final(self).buffer()@ == old(self).buffer()@ + all_cast(
                pair_cells(items@),
                old(self).buffer().tag(),
            ),
            final(self).mask()@ == old(self).mask()@ + pair_flags(items@),
    {
        let ct = self.0.cell_type();
        let ghost incoming = pair_cells(items@);
        let ghost flags = pair_flags(items@);
        let mut i: usize = 0;
        while i < items.len()
            invariant
                i <= items@.len(),
                ct == old(self).buffer().tag(),
                self.buffer().tag() == ct,
                incoming == pair_cells(items@),
                flags == pair_flags(items@),
                all_castable(incoming, ct),
                self.buffer()@ == old(self).buffer()@ + all_cast(incoming, ct).take(i as int),
                self.mask()@ == old(self).mask()@ + flags.take(i as int),
                old(self).well_formed(),
            decreases items@.len() - i,
        {
            assert(incoming[i as int] == items@[i as int].0.cell());
            let pair = items[i];
            let c = pair.0.into_cell_value().cast(ct).unwrap();
            self.0.push(c);
            self.1.push(pair.1);
            i = i + 1;
        }
    }

    /// Makes a masked buffer of the encoding of `C` out of native values
    /// with their validity flags.
    pub fn from_iter<C: CellEncoding>(items: Vec<(C, bool)>) -> (r: Self)
        ensures
            r.well_formed(),
            r.buffer().tag() == C::tag(),
            r.buffer()@ == pair_cells(items@),
            r.mask()@ == pair_flags(items@),
    {
        let mut r = Self::new(CellBuffer::with_defaults(0, C::cell_type()), Mask::default());
        proof {
            assert forall|i: int| 0 <= i < items@.len() implies (#[trigger] pair_cells(
                items@,
            )[i]).cast_to(C::tag()) is Some by {
                C::lemma_cell(items@[i].0, items@[i].0);
            }
        }
        r.extend(items);
        proof {
            assert forall|i: int| 0 <= i < items@.len() implies #[trigger] all_cast(
                pair_cells(items@),
                C::tag(),
            )[i] == pair_cells(items@)[i] by {
                C::lemma_cell(items@[i].0, items@[i].0);
            }
        }
        r
    }
}

impl MaskedCellBuffer {
    /// Renders the masked buffer for diagnostics, with `show` giving the
    /// text of a cell: the name of the encoding, the word
    /// `MaskedCellBuffer` and, in parentheses, the renderings of the
    /// buffer and of the mask.
    pub fn debug_with<F: Fn(CellValue) -> String>(&self, show: &F) -> (r: String)
        requires
            forall|c: CellValue| call_requires(show, (c,)),
        ensures
            exists|texts: Seq<String>|
                #[trigger] shows(self.buffer()@, show, texts) && r@ == self.buffer().tag().name()
                    + "MaskedCellBuffer("@ + buffer_text(
                    self.buffer().tag(),
                    texts,
                    self.buffer()@.len(),
                ) + ", "@ + ("Mask("@ + elided_text(flag_texts(self.mask()@)) + ")"@) + ")"@,
    {
        let mut out = self.0.cell_type().to_string();
        out.append("MaskedCellBuffer(");
        out.append(self.0.debug_with(show).as_str());
        out.append(", ");
        out.append(self.1.debug_string().as_str());
        out.append(")");
        out
    }
}

impl Clone for MaskedCellBuffer {
    fn clone(&self) -> (r: Self)
        ensures
            r.buffer()@ == self.buffer()@,
            r.buffer().tag() == self.buffer().tag(),
            r.mask()@ == self.mask()@,
    {
        MaskedCellBuffer(self.0.clone(), self.1.clone())
    }
}

impl PartialEq for MaskedCellBuffer {
    /// Two masked buffers are equal where their buffers are and their
    /// masks are.
    fn eq(&self, other: &Self) -> (r: bool) {
        self.0 == other.0 && self.1 == other.1
    }
}

impl vstd::std_specs::cmp::PartialEqSpecImpl for MaskedCellBuffer {
    open spec fn obeys_eq_spec() -> bool {
        true
    }

    open spec fn eq_spec(&self, other: &Self) -> bool {
        self.buffer().ordering(other.buffer()) is Equal && self.mask()@ == other.mask()@
    }
}

impl MaskedCellBuffer {
    /// How `self` compares to `other`: as their buffers do, and where those
    /// compare equal, as their masks do.
    pub open spec fn ordering(&self, other: &MaskedCellBuffer) -> Ordering {
        if self.buffer().ordering(other.buffer()) is Equal {
            self.mask().ordering(other.mask())
        } else {
            self.buffer().ordering(other.buffer())
        }
    }

    /// Computes the ordering of two masked buffers.
    pub fn cmp(&self, other: &Self) -> (r: Ordering)
        ensures
            r == self.ordering(other),
    {
        match self.0.cmp(&other.0) {
            Ordering::Equal => self.1.cmp(&other.1),
            unequal => unequal,
        }
    }
}

impl PartialOrd for MaskedCellBuffer {
    fn partial_cmp(&self, other: &Self) -> (r: Option<Ordering>) {
        Some(self.cmp(other))
    }
}

impl vstd::std_specs::cmp::PartialOrdSpecImpl for MaskedCellBuffer {
    open spec fn obeys_partial_cmp_spec() -> bool {
        true
    }

    open spec fn partial_cmp_spec(&self, other: &Self) -> Option<Ordering> {
        Some(self.ordering(other))
    }
}

impl core::ops::Neg for &MaskedCellBuffer {
    type Output = MaskedCellBuffer;

    /// Negates every cell of the buffer; the mask stays as it is.
    fn neg(self) -> (r: MaskedCellBuffer)
        ensures
            r.well_formed(),
            r.mask()@ == self.mask()@,
            r.buffer()@ == all_negated(self.buffer()@),
    {
        self.negated()
    }
}

/// What `neg` returns is stated on `neg` itself, over the cells of the
/// result: no spec function can build the buffer that comes back.
impl vstd::std_specs::ops::NegSpecImpl for &MaskedCellBuffer {
    open spec fn obeys_neg_spec() -> bool {
        false
    }

    open spec fn neg_req(self) -> bool {
        self.well_formed() && all_negatable(self.buffer()@)
    }

    open spec fn neg_spec(self) -> MaskedCellBuffer {
        *self
    }
}

impl core::ops::Neg for MaskedCellBuffer {
    type Output = MaskedCellBuffer;

    /// Negates every cell of the buffer; the mask stays as it is.
    fn neg(self) -> (r: MaskedCellBuffer)
        ensures
            r.well_formed(),
            r.mask()@ == self.mask()@,
            r.buffer()@ == all_negated(self.buffer()@),
    {
        self.negated()
    }
}

/// What `neg` returns is stated on `neg` itself, over the cells of the
/// result: no spec function can build the buffer that comes back.
impl vstd::std_specs::ops::NegSpecImpl for MaskedCellBuffer {
    open spec fn obeys_neg_spec() -> bool {
        false
    }

    open spec fn neg_req(self) -> bool {
        self.well_formed() && all_negatable(self.buffer()@)
    }

    open spec fn neg_spec(self) -> MaskedCellBuffer {
        self
    }
}

/// Converts a [`CellBuffer`] into a [`MaskedCellBuffer`] with an all-true mask.
impl From<CellBuffer> for MaskedCellBuffer {
    fn from(value: CellBuffer) -> (r: Self)
        ensures
            r.well_formed(),
            *r.buffer() == value,
            r.mask()@ == Seq::new(value@.len(), |i: int| true),
    {
        let len = value.len();
        Self::new(value, Mask::fill(len, true))
    }
}

/// What `from` returns is stated on `from` itself, over the cells of the
/// result: no spec function can build the buffer that comes back.
impl vstd::std_specs::convert::FromSpecImpl<CellBuffer> for MaskedCellBuffer {
    open spec fn obeys_from_spec() -> bool {
        false
    }

    open spec fn from_spec(value: CellBuffer) -> MaskedCellBuffer {
        arbitrary()
    }
}

/// Iterator over ([`CellValue`], `bool`) elements in a [`MaskedCellBuffer`].
pub struct MaskedCellBufferIterator<'buf> {
    buf: &'buf MaskedCellBuffer,
    idx: usize,
    len: usize,
}

impl<'buf> MaskedCellBufferIterator<'buf> {
    #[verifier::type_invariant]
    spec fn well_formed(self) -> bool {
        &&& self.len == self.buf.buffer()@.len()
        &&& self.len == self.buf.mask()@.len()
        &&& self.idx <= self.len
    }

    /// The cells that are still to come, each with its validity.
    pub closed spec fn remaining(self) -> Seq<(CellValue, bool)> {
        Seq::new(
            (self.len - self.idx) as nat,
            |i: int| (self.buf.buffer()@[self.idx + i], self.buf.mask()@[self.idx + i]),
        )
    }

    /// The next cell of the buffer and its validity, or `None` at the end.
    pub fn next(&mut self) -> (r: Option<(CellValue, bool)>)
        ensures
            old(self).remaining().len() == 0 ==> r is None && final(self).remaining().len() == 0,
            old(self).remaining().len() > 0 ==> r == Some(old(self).remaining()[0])
                && final(self).remaining() == old(self).remaining().skip(1),
    {
        proof {
            use_type_invariant(&*self);
        }
        if self.idx >= self.len {
            None
        } else {
            let r = self.buf.get_with_mask(self.idx);
            self.idx = self.idx + 1;
            Some(r)
        }
    }
}

impl MaskedCellBuffer {
    /// An iterator over the cells of the buffer, each with its validity.
    pub fn iter(&self) -> (r: MaskedCellBufferIterator<'_>)
        requires
            self.well_formed(),
        ensures
            r.remaining() == Seq::new(
                self.buffer()@.len(),
                |i: int| (self.buffer()@[i], self.mask()@[i]),
            ),
    {
        let r = MaskedCellBufferIterator { buf: self, idx: 0, len: self.len() };
        assert(r.remaining() =~= Seq::new(
            self.buffer()@.len(),
            |i: int| (self.buffer()@[i], self.mask()@[i]),
        ));
        r
    }
}

/// The least valid cell does not depend on what the invalid cells hold.
pub proof fn lemma_min_ignores_invalid(
    c: CellValue,
    cells: Seq<CellValue>,
    other: Seq<CellValue>,
    valid: Seq<bool>,
    seed: CellValue,
)
    requires
        cells.len() == other.len(),
        forall|i: int| 0 <= i < cells.len() && valid[i] ==> cells[i] == other[i],
        is_least_valid(c, cells, valid, seed),
    ensures
        is_least_valid(c, other, valid, seed),
{
}

/// The greatest valid cell does not depend on what the invalid cells hold.
pub proof fn lemma_max_ignores_invalid(
    c: CellValue,
    cells: Seq<CellValue>,
    other: Seq<CellValue>,
    valid: Seq<bool>,
    seed: CellValue,
)
    requires
        cells.len() == other.len(),
        forall|i: int| 0 <= i < cells.len() && valid[i] ==> cells[i] == other[i],
        is_greatest_valid(c, cells, valid, seed),
    ensures
        is_greatest_valid(c, other, valid, seed),
{
}

} // verus!
