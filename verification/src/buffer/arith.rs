//! Arithmetic on buffers: cell by cell with another buffer or with one
//! scalar, and negation.

use vstd::prelude::*;
use crate::buffer::CellBuffer;
use crate::ctype::{lemma_fits_into, CellType};
use crate::ieee::Binary64;
use crate::value::CellValue;

verus! {

/// Whether `out` holds, position by position, a `Float64` cell that `op`
/// can return for the operands that stand for the cells of `left` and of
/// `right`.
pub open spec fn combined<F: Fn(Binary64, Binary64) -> Binary64>(
    left: Seq<CellValue>,
    right: Seq<CellValue>,
    op: &F,
    out: Seq<CellValue>,
) -> bool {
    forall|i: int|
        0 <= i < out.len() ==> (#[trigger] out[i] matches CellValue::Float64(x) && call_ensures(
            op,
            (left[i].operand(right[i]), right[i].operand(left[i])),
            x,
        ))
}

/// Whether every cell can be negated.
pub open spec fn all_negatable(s: Seq<CellValue>) -> bool {
    forall|i: int| 0 <= i < s.len() ==> (#[trigger] s[i]).negatable()
}

/// The cells negated, each one.
pub open spec fn all_negated(s: Seq<CellValue>) -> Seq<CellValue> {
    Seq::new(s.len(), |i: int| s[i].negation())
}

impl CellBuffer {
    /// Combines two buffers cell by cell with a binary64 operation.
    ///
    /// The result is as long as the shorter of the two. Each pair of cells
    /// is unified on its own and handed to `op` as binary64 values; the
    /// results make a `Float64` buffer (an empty `UInt8` buffer where there
    /// is no pair).
    pub fn zip_with<F: Fn(Binary64, Binary64) -> Binary64>(&self, rhs: &Self, op: &F) -> (r: Self)
        requires
            forall|a: Binary64, b: Binary64| call_requires(op, (a, b)),
        ensures
            r@.len() == (if self@.len() <= rhs@.len() {
                self@.len()
            } else {
                rhs@.len()
            }),
            r.tag() == (if r@.len() == 0 {
                CellType::UInt8
            } else {
                CellType::Float64
            }),
            combined(self@, rhs@, op, r@),
    {
        let n = if self.len() <= rhs.len() {
            self.len()
        } else {
            rhs.len()
        };
        let mut out: Vec<CellValue> = Vec::new();
        let mut i: usize = 0;
        while i < n
            invariant
                i <= n,
                n <= self@.len(),
                n <= rhs@.len(),
                out.len() == i,
                forall|a: Binary64, b: Binary64| call_requires(op, (a, b)),
                combined(self@, rhs@, op, out@),
            decreases n - i,
        {
            let c = self.get(i).combine(&rhs.get(i), op);
            out.push(c);
            i = i + 1;
        }
        Self::from_iter(out)
    }

    /// Combines each cell of the buffer with one scalar by a binary64
    /// operation.
    ///
    /// Each cell is unified with `rhs` and the two are handed to `op` as
    /// binary64 values; the results make a `Float64` buffer (an empty
    /// `UInt8` buffer where `self` is empty).
    pub fn map_with<F: Fn(Binary64, Binary64) -> Binary64>(&self, rhs: CellValue, op: &F) -> (r:
        Self)
        requires
            forall|a: Binary64, b: Binary64| call_requires(op, (a, b)),
        ensures
            r@.len() == self@.len(),
            r.tag() == (if r@.len() == 0 {
                CellType::UInt8
            } else {
                CellType::Float64
            }),
            combined(self@, Seq::new(self@.len(), |i: int| rhs), op, r@),
    {
        let n = self.len();
        let ghost scalars = Seq::new(self@.len(), |i: int| rhs);
        let mut out: Vec<CellValue> = Vec::new();
        let mut i: usize = 0;
        while i < n
            invariant
                i <= n,
                n == self@.len(),
                out.len() == i,
                scalars == Seq::new(self@.len(), |i: int| rhs),
                forall|a: Binary64, b: Binary64| call_requires(op, (a, b)),
                combined(self@, scalars, op, out@),
            decreases n - i,
        {
            let c = self.get(i).combine(&rhs, op);
            out.push(c);
            i = i + 1;
        }
        Self::from_iter(out)
    }

    /// The buffer with every cell negated.
    ///
    /// The cells keep their places; their encoding is that of a negated
    /// cell of the buffer's encoding. An empty buffer gives an empty
    /// `UInt8` buffer.
    pub fn negated(&self) -> (r: Self)
        requires
            all_negatable(self@),
        ensures
            r@ == all_negated(self@),
            self@.len() == 0 ==> r.tag() == CellType::UInt8,
            self@.len() > 0 ==> r.tag() == self@[0].negation().tag(),
    {
        let n = self.len();
        let mut out: Vec<CellValue> = Vec::new();
        let mut i: usize = 0;
        while i < n
            invariant
                i <= n,
                n == self@.len(),
                out.len() == i,
                all_negatable(self@),
                forall|j: int| 0 <= j < i ==> #[trigger] out@[j] == self@[j].negation(),
                forall|j: int| 0 <= j < i ==> (#[trigger] out@[j]).tag() == out@[0].tag(),
            decreases n - i,
        {
            let c = core::ops::Neg::neg(self.get(i));
            out.push(c);
            i = i + 1;
        }
        proof {
            if n > 0 {
                lemma_fits_into(out@[0].tag(), out@[0].tag());
            }
        }
        Self::from_iter(out)
    }
}

impl core::ops::Neg for &CellBuffer {
    type Output = CellBuffer;

    /// Negates every cell of the buffer.
    fn neg(self) -> (r: CellBuffer)
        ensures
            r@ == all_negated(self@),
            self@.len() == 0 ==> r.tag() == CellType::UInt8,
            self@.len() > 0 ==> r.tag() == self@[0].negation().tag(),
    {
        self.negated()
    }
}

/// What `neg` returns is stated on `neg` itself, over the cells of the
/// result: no spec function can build the buffer that comes back.
impl vstd::std_specs::ops::NegSpecImpl for &CellBuffer {
    open spec fn obeys_neg_spec() -> bool {
        false
    }

    open spec fn neg_req(self) -> bool {
        all_negatable(self@)
    }

    open spec fn neg_spec(self) -> CellBuffer {
        *self
    }
}

impl core::ops::Neg for CellBuffer {
    type Output = CellBuffer;

    /// Negates every cell of the buffer.
    fn neg(self) -> (r: CellBuffer)
        ensures
            r@ == all_negated(self@),
            self@.len() == 0 ==> r.tag() == CellType::UInt8,
            self@.len() > 0 ==> r.tag() == self@[0].negation().tag(),
    {
        self.negated()
    }
}

/// What `neg` returns is stated on `neg` itself, over the cells of the
/// result: no spec function can build the buffer that comes back.
impl vstd::std_specs::ops::NegSpecImpl for CellBuffer {
    open spec fn obeys_neg_spec() -> bool {
        false
    }

    open spec fn neg_req(self) -> bool {
        all_negatable(self@)
    }

    open spec fn neg_spec(self) -> CellBuffer {
        self
    }
}

} // verus!
