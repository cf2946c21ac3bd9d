//! The order of buffers, and the least and the greatest of their cells.

use vstd::prelude::*;
use std::cmp::Ordering;
use crate::buffer::CellBuffer;
use crate::ieee::int_ordering;
use crate::value::{lemma_ordering_in_one_encoding, lemma_ordering_is_total, CellValue};

verus! {

/// Whether `c` is one of `s` and ranks no higher than any of `s`.
pub open spec fn is_least(c: CellValue, s: Seq<CellValue>) -> bool {
    &&& s.contains(c)
    &&& forall|i: int| 0 <= i < s.len() ==> c.order_key() <= (#[trigger] s[i]).order_key()
}

/// Whether `c` is one of `s` and ranks no lower than any of `s`.
pub open spec fn is_greatest(c: CellValue, s: Seq<CellValue>) -> bool {
    &&& s.contains(c)
    &&& forall|i: int| 0 <= i < s.len() ==> c.order_key() >= (#[trigger] s[i]).order_key()
}

/// The number of leading positions at which two sequences hold cells that
/// compare equal.
pub open spec fn common_prefix(a: Seq<CellValue>, b: Seq<CellValue>) -> nat
    decreases a.len(),
{
    if a.len() > 0 && b.len() > 0 && a[0].same_rank(b[0]) {
        1 + common_prefix(a.skip(1), b.skip(1))
    } else {
        0
    }
}

/// The first position at which two sequences hold cells that do not
/// compare equal, or the length of the shorter one.
pub open spec fn first_difference(a: Seq<CellValue>, b: Seq<CellValue>) -> int {
    common_prefix(a, b) as int
}

/// The length of a sequence of cells.
pub open spec fn length(s: Seq<CellValue>) -> int {
    s.len() as int
}

/// The common prefix of two sequences is the common prefix of what follows
/// a stretch of cells that compare equal, and that stretch.
proof fn lemma_common_prefix_step(a: Seq<CellValue>, b: Seq<CellValue>, i: int)
    requires
        0 <= i < a.len(),
        i < b.len(),
        a[i].same_rank(b[i]),
    ensures
        common_prefix(a.skip(i), b.skip(i)) == 1 + common_prefix(a.skip(i + 1), b.skip(i + 1)),
{
    assert(a.skip(i).skip(1) =~= a.skip(i + 1));
    assert(b.skip(i).skip(1) =~= b.skip(i + 1));
}

impl CellBuffer {
    /// Compute the minimum and maximum values of the buffer.
    ///
    /// The greatest and the least value of the encoding seed the search, so
    /// that an empty buffer gives that inverted pair.
    pub fn min_max(&self) -> (r: (CellValue, CellValue))
        ensures
            is_least(r.0, self@.push(self.tag().max_cell())),
            is_greatest(r.1, self@.push(self.tag().min_cell())),
    {
        let ghost low = self@.push(self.tag().max_cell());
        let ghost high = self@.push(self.tag().min_cell());
        let mut amin = self.cell_type().max();
        let mut amax = self.cell_type().min();
        let mut i: usize = 0;
        let n = self.len();
        assert(low[n as int] == amin);
        assert(high[n as int] == amax);
        while i < n
            invariant
                i <= n,
                n == self@.len(),
                low == self@.push(self.tag().max_cell()),
                high == self@.push(self.tag().min_cell()),
                amin.tag() == self.tag(),
                amax.tag() == self.tag(),
                low.contains(amin),
                high.contains(amax),
                amin.order_key() <= self.tag().max_cell().order_key(),
                amax.order_key() >= self.tag().min_cell().order_key(),
                forall|j: int| 0 <= j < i ==> amin.order_key() <= (#[trigger] self@[j]).order_key(),
                forall|j: int| 0 <= j < i ==> amax.order_key() >= (#[trigger] self@[j]).order_key(),
            decreases n - i,
        {
            let v = self.get(i);
            assert(low[i as int] == v);
            assert(high[i as int] == v);
            amin = amin.min(v);
            amax = amax.max(v);
            i = i + 1;
        }
        (amin, amax)
    }

    /// The length of the stretch at the start of both buffers on which
    /// their cells compare equal.
    fn matching_prefix(&self, other: &Self) -> (k: usize)
        ensures
            k == common_prefix(self@, other@),
            k <= self@.len(),
            k <= other@.len(),
            k < self@.len() && k < other@.len() ==> !self@[k as int].same_rank(other@[k as int]),
    {
        let n = if self.len() <= other.len() {
            self.len()
        } else {
            other.len()
        };
        let mut i: usize = 0;
        assert(self@.skip(0) =~= self@);
        assert(other@.skip(0) =~= other@);
        while i < n
            invariant
                i <= n,
                n <= self@.len(),
                n <= other@.len(),
                n == self@.len() || n == other@.len(),
                common_prefix(self@, other@) == i + common_prefix(
                    self@.skip(i as int),
                    other@.skip(i as int),
                ),
            decreases n - i,
        {
            if self.get(i) == other.get(i) {
                proof {
                    lemma_common_prefix_step(self@, other@, i as int);
                }
                i = i + 1;
            } else {
                return i;
            }
        }
        i
    }

    /// How `self` compares to `other`.
    ///
    /// Buffers of different encodings compare as their encodings do in the
    /// canonical order. Buffers of one encoding compare by the first
    /// position at which their cells differ; where one is a prefix of the
    /// other, the shorter one is the lesser.
    pub open spec fn ordering(&self, other: &CellBuffer) -> Ordering {
        let k = first_difference(self@, other@);
        if self.tag() != other.tag() {
            int_ordering(self.tag().rank(), other.tag().rank())
        } else if k < self@.len() && k < other@.len() {
            self@[k].ordering(other@[k])
        } else {
            int_ordering(length(self@), length(other@))
        }
    }

    /// Computes the ordering of two buffers. Floating-point cells are
    /// compared in the IEEE 754 total order.
    pub fn cmp(&self, other: &Self) -> (r: Ordering)
        ensures
            r == self.ordering(other),
    {
        let lct = self.cell_type().index();
        let rct = other.cell_type().index();
        if lct < rct {
            return Ordering::Less;
        }
        if lct > rct {
            return Ordering::Greater;
        }
        let k = self.matching_prefix(other);
        if k < self.len() && k < other.len() {
            self.get(k).cmp(&other.get(k))
        } else if self.len() < other.len() {
            Ordering::Less
        } else if self.len() == other.len() {
            Ordering::Equal
        } else {
            Ordering::Greater
        }
    }
}

impl PartialEq for CellBuffer {
    /// Two buffers are equal where they are of one encoding and one length
    /// and hold cells that compare equal.
    fn eq(&self, other: &Self) -> (r: bool) {
        match self.cmp(other) {
            Ordering::Equal => true,
            _ => false,
        }
    }
}

impl vstd::std_specs::cmp::PartialEqSpecImpl for CellBuffer {
    open spec fn obeys_eq_spec() -> bool {
        true
    }

    open spec fn eq_spec(&self, other: &Self) -> bool {
        self.ordering(other) is Equal
    }
}

impl Eq for CellBuffer {

}

impl PartialOrd for CellBuffer {
    fn partial_cmp(&self, other: &Self) -> (r: Option<Ordering>) {
        Some(self.cmp(other))
    }
}

impl vstd::std_specs::cmp::PartialOrdSpecImpl for CellBuffer {
    open spec fn obeys_partial_cmp_spec() -> bool {
        true
    }

    open spec fn partial_cmp_spec(&self, other: &Self) -> Option<Ordering> {
        Some(self.ordering(other))
    }
}

/// Up to their first difference two sequences hold cells that compare
/// equal; the first difference lies within both.
pub proof fn lemma_common_prefix_holds(a: Seq<CellValue>, b: Seq<CellValue>)
    ensures
        0 <= first_difference(a, b) <= a.len(),
        first_difference(a, b) <= b.len(),
        forall|i: int| 0 <= i < first_difference(a, b) ==> (#[trigger] a[i]).same_rank(b[i]),
        first_difference(a, b) < a.len() && first_difference(a, b) < b.len() ==> !a[first_difference(
            a,
            b,
        )].same_rank(b[first_difference(a, b)]),
    decreases a.len(),
{
    if a.len() > 0 && b.len() > 0 && a[0].same_rank(b[0]) {
        let ra = a.skip(1);
        let rb = b.skip(1);
        lemma_common_prefix_holds(ra, rb);
        let k = first_difference(ra, rb);
        assert forall|i: int| 0 <= i < k + 1 implies (#[trigger] a[i]).same_rank(b[i]) by {
            if i > 0 {
                assert(ra[i - 1].same_rank(rb[i - 1]));
            }
        }
    }
}

/// Where two sequences hold cells that compare equal up to position `k`,
/// and end or differ there, `k` is their first difference.
pub proof fn lemma_first_difference(a: Seq<CellValue>, b: Seq<CellValue>, k: int)
    requires
        0 <= k <= a.len(),
        k <= b.len(),
        forall|i: int| 0 <= i < k ==> (#[trigger] a[i]).same_rank(b[i]),
        k == a.len() || k == b.len() || !a[k].same_rank(b[k]),
    ensures
        first_difference(a, b) == k,
    decreases k,
{
    if k > 0 {
        let ra = a.skip(1);
        let rb = b.skip(1);
        lemma_first_difference(ra, rb, k - 1);
    }
}

/// A buffer that is a strict prefix of another buffer of its encoding is
/// the lesser of the two.
pub proof fn lemma_prefix_is_less(a: &CellBuffer, b: &CellBuffer)
    requires
        a.tag() == b.tag(),
        a@.len() < b@.len(),
        forall|i: int| 0 <= i < a@.len() ==> a@[i] == b@[i],
    ensures
        a.ordering(b) is Less,
        b.ordering(a) is Greater,
{
    a.lemma_homogeneous();
    b.lemma_homogeneous();
    assert forall|i: int| 0 <= i < a@.len() implies (#[trigger] a@[i]).same_rank(b@[i]) by {
        lemma_ordering_in_one_encoding(a@[i], b@[i]);
    }
    assert forall|i: int| 0 <= i < a@.len() implies (#[trigger] b@[i]).same_rank(a@[i]) by {
        lemma_ordering_in_one_encoding(b@[i], a@[i]);
    }
    lemma_first_difference(a@, b@, length(a@));
    lemma_first_difference(b@, a@, length(a@));
}

/// Where two buffers of one encoding hold the same cells up to a position
/// at which they differ, they compare as the cells at that position do,
/// whatever their lengths.
pub proof fn lemma_difference_decides(a: &CellBuffer, b: &CellBuffer, k: int)
    requires
        a.tag() == b.tag(),
        0 <= k < a@.len(),
        k < b@.len(),
        forall|i: int| 0 <= i < k ==> a@[i] == b@[i],
        a@[k] != b@[k],
    ensures
        a.ordering(b) == a@[k].ordering(b@[k]),
        !(a.ordering(b) is Equal),
{
    a.lemma_homogeneous();
    b.lemma_homogeneous();
    assert forall|i: int| 0 <= i < k implies (#[trigger] a@[i]).same_rank(b@[i]) by {
        lemma_ordering_in_one_encoding(a@[i], b@[i]);
    }
    lemma_ordering_in_one_encoding(a@[k], b@[k]);
    lemma_first_difference(a@, b@, k);
}

/// Two buffers compare equal exactly when they are of one encoding and
/// hold the same cells.
pub proof fn lemma_equal_buffers(a: &CellBuffer, b: &CellBuffer)
    ensures
        a.ordering(b) is Equal <==> a.tag() == b.tag() && a@ == b@,
{
    a.lemma_homogeneous();
    b.lemma_homogeneous();
    if a.tag() == b.tag() {
        if a@ == b@ {
            assert forall|i: int| 0 <= i < a@.len() implies (#[trigger] a@[i]).same_rank(b@[i]) by {
                lemma_ordering_in_one_encoding(a@[i], b@[i]);
            }
            lemma_first_difference(a@, b@, length(a@));
        }
        if a.ordering(b) is Equal {
            lemma_common_prefix_holds(a@, b@);
            let k = first_difference(a@, b@);
            if k < a@.len() && k < b@.len() {
                lemma_ordering_in_one_encoding(a@[k], b@[k]);
            }
            assert forall|i: int| 0 <= i < a@.len() implies a@[i] == b@[i] by {
                lemma_ordering_in_one_encoding(a@[i], b@[i]);
            }
            assert(a@ =~= b@);
        }
    }
}

/// Within sequences of cells of one encoding, the first difference does
/// not depend on the order of the two sequences.
pub proof fn lemma_first_difference_symmetric(a: &CellBuffer, b: &CellBuffer)
    requires
        a.tag() == b.tag(),
    ensures
        first_difference(a@, b@) == first_difference(b@, a@),
{
    a.lemma_homogeneous();
    b.lemma_homogeneous();
    lemma_common_prefix_holds(a@, b@);
    let k = first_difference(a@, b@);
    assert forall|i: int| 0 <= i < k implies (#[trigger] b@[i]).same_rank(a@[i]) by {
        lemma_ordering_in_one_encoding(a@[i], b@[i]);
        lemma_ordering_in_one_encoding(b@[i], a@[i]);
    }
    if k < a@.len() && k < b@.len() {
        lemma_ordering_in_one_encoding(a@[k], b@[k]);
        lemma_ordering_in_one_encoding(b@[k], a@[k]);
    }
    lemma_first_difference(b@, a@, k);
}

/// The order of buffers turns round with its operands: one buffer is less
/// than another exactly when the other is greater than the one, and two
/// buffers compare equal from both sides or from none.
pub proof fn lemma_ordering_reverses(a: &CellBuffer, b: &CellBuffer)
    ensures
        a.ordering(b) is Less <==> b.ordering(a) is Greater,
        a.ordering(b) is Equal <==> b.ordering(a) is Equal,
        a.ordering(b) is Greater <==> b.ordering(a) is Less,
{
    if a.tag() == b.tag() {
        a.lemma_homogeneous();
        b.lemma_homogeneous();
        lemma_first_difference_symmetric(a, b);
        lemma_common_prefix_holds(a@, b@);
        let k = first_difference(a@, b@);
        if k < a@.len() && k < b@.len() {
            lemma_ordering_is_total(a@[k], b@[k], a@[k]);
        }
    }
}

/// The order of buffers passes on: what is less than a buffer is less than
/// whatever that buffer is less than.
pub proof fn lemma_ordering_passes_on(a: &CellBuffer, b: &CellBuffer, c: &CellBuffer)
    requires
        a.ordering(b) is Less,
        b.ordering(c) is Less,
    ensures
        a.ordering(c) is Less,
{
    if a.tag() == b.tag() && b.tag() == c.tag() {
        a.lemma_homogeneous();
        b.lemma_homogeneous();
        c.lemma_homogeneous();
        lemma_common_prefix_holds(a@, b@);
        lemma_common_prefix_holds(b@, c@);
        let k1 = first_difference(a@, b@);
        let k2 = first_difference(b@, c@);
        let k = if k1 <= k2 {
            k1
        } else {
            k2
        };
        assert forall|i: int| 0 <= i < k implies (#[trigger] a@[i]).same_rank(c@[i]) by {
            lemma_ordering_is_total(a@[i], b@[i], c@[i]);
        }
        if k < a@.len() && k < c@.len() {
            lemma_ordering_is_total(a@[k], b@[k], c@[k]);
            lemma_ordering_in_one_encoding(a@[k], b@[k]);
            lemma_ordering_in_one_encoding(b@[k], c@[k]);
            lemma_ordering_in_one_encoding(a@[k], c@[k]);
        }
        lemma_first_difference(a@, c@, k);
    }
}

} // verus!
