//! The validity mask that runs parallel to a buffer.

use vstd::prelude::*;
use vstd::string::StringExecFns;
use std::cmp::Ordering;
use crate::ieee::int_ordering;
use crate::render::{
    elide_shown,
    elided_text,
    lemma_elided_shown,
    shown,
    shown_of,
    shown_positions,
    views,
};

verus! {

/// Encodes the bit-mask for a masked cell buffer: `true` marks a valid
/// cell.
#[derive(Debug)]
pub struct Mask(Vec<bool>);

/// How many of `s` are `true`.
pub open spec fn count_valid(s: Seq<bool>) -> nat
    decreases s.len(),
{
    if s.len() == 0 {
        0
    } else {
        count_valid(s.drop_last()) + if s.last() {
            1nat
        } else {
            0nat
        }
    }
}

/// The flags of `s`, each inverted.
pub open spec fn inverted(s: Seq<bool>) -> Seq<bool> {
    Seq::new(s.len(), |i: int| !s[i])
}

/// The shorter of two lengths.
pub open spec fn shorter(a: nat, b: nat) -> nat {
    if a <= b {
        a
    } else {
        b
    }
}

/// The conjunction of two sequences of flags, position by position, as
/// long as the shorter one.
pub open spec fn both(a: Seq<bool>, b: Seq<bool>) -> Seq<bool> {
    Seq::new(shorter(a.len(), b.len()), |i: int| a[i] && b[i])
}

/// The disjunction of two sequences of flags, position by position, as
/// long as the shorter one.
pub open spec fn either(a: Seq<bool>, b: Seq<bool>) -> Seq<bool> {
    Seq::new(shorter(a.len(), b.len()), |i: int| a[i] || b[i])
}

/// `a` with its leading flags replaced by their conjunction with those of
/// `b`; what `a` has beyond the length of `b` stays.
pub open spec fn both_onto(a: Seq<bool>, b: Seq<bool>) -> Seq<bool> {
    Seq::new(
        a.len(),
        |i: int|
            if i < b.len() {
                a[i] && b[i]
            } else {
                a[i]
            },
    )
}

/// `a` with its leading flags replaced by their disjunction with those of
/// `b`; what `a` has beyond the length of `b` stays.
pub open spec fn either_onto(a: Seq<bool>, b: Seq<bool>) -> Seq<bool> {
    Seq::new(
        a.len(),
        |i: int|
            if i < b.len() {
                a[i] || b[i]
            } else {
                a[i]
            },
    )
}

impl View for Mask {
    type V = Seq<bool>;

    /// The flags of the mask, in order.
    closed spec fn view(&self) -> Seq<bool> {
        self.0@
    }
}

impl Mask {
    /// Create a new mask containing `values`.
    pub fn new(values: Vec<bool>) -> (r: Self)
        ensures
            r@ == values@,
    {
        Mask(values)
    }

    /// Create a mask of size `len` with all values set to `value`.
    pub fn fill(len: usize, value: bool) -> (r: Self)
        ensures
            r@ == Seq::new(len as nat, |i: int| value),
    {
        Mask(vec![value; len])
    }

    /// Create a mask of size `len` where each value is determined by
    /// the value returned by `f`, which is called with the index position as an
    /// argument.
    pub fn fill_via<F: Fn(usize) -> bool>(len: usize, f: F) -> (r: Self)
        requires
            forall|i: usize| i < len ==> call_requires(f, (i,)),
        ensures
            r@.len() == len,
            forall|i: usize| i < len ==> call_ensures(f, (i,), #[trigger] r@[i as int]),
    {
        let mut values: Vec<bool> = Vec::new();
        let mut i: usize = 0;
        while i < len
            invariant
                i <= len,
                values.len() == i,
                forall|j: usize| j < len ==> call_requires(f, (j,)),
                forall|j: usize| j < i ==> call_ensures(f, (j,), #[trigger] values@[j as int]),
            decreases len - i,
        {
            let b = f(i);
            values.push(b);
            i = i + 1;
        }
        Mask(values)
    }

    /// Get the number of mask elements.
    pub fn len(&self) -> (r: usize)
        ensures
            r == self@.len(),
    {
        self.0.len()
    }

    /// Returns `true` if `self.len() == 0`.
    pub fn is_empty(&self) -> (r: bool)
        ensures
            r == (self@.len() == 0),
    {
        self.len() == 0
    }

    /// Set the mask value at position `index` to `value`.
    pub fn put(&mut self, index: usize, value: bool)
        requires
            index < old(self)@.len(),
        ensures
            final(self)@ == old(self)@.update(index as int, value),
    {
        self.0.set(index, value);
    }

    /// Get the mask value at position `index`.
    pub fn get(&self, index: usize) -> (r: bool)
        requires
            index < self@.len(),
        ensures
            r == self@[index as int],
    {
        self.0[index]
    }

    /// Gets a mutable reference to the mask value at position `index`.
    pub fn get_mut(&mut self, index: usize) -> (r: &mut bool)
        requires
            index < old(self)@.len(),
        ensures
            *r == old(self)@[index as int],
            final(self)@ == old(self)@.update(index as int, *final(r)),
    {
        &mut self.0[index]
    }

    /// Determine if all mask values equal `value`.
    pub fn all(&self, value: bool) -> (r: bool)
        ensures
            r == (forall|i: int| 0 <= i < self@.len() ==> self@[i] == value),
    {
        let mut i: usize = 0;
        while i < self.0.len()
            invariant
                i <= self@.len(),
                forall|j: int| 0 <= j < i ==> self@[j] == value,
            decreases self@.len() - i,
        {
            if self.0[i] != value {
                return false;
            }
            i = i + 1;
        }
        true
    }

    /// Returns the counts of valid and of invalid cells, as `(data, nodata)`.
    pub fn counts(&self) -> (r: (usize, usize))
        ensures
            r.0 == count_valid(self@),
            r.1 == self@.len() - count_valid(self@),
    {
        let mut data: usize = 0;
        let mut nodata: usize = 0;
        let mut i: usize = 0;
        while i < self.0.len()
            invariant
                i <= self@.len(),
                data == count_valid(self@.take(i as int)),
                data + nodata == i,
            decreases self@.len() - i,
        {
            assert(self@.take(i + 1).drop_last() =~= self@.take(i as int));
            if self.0[i] {
                data = data + 1;
            } else {
                nodata = nodata + 1;
            }
            i = i + 1;
        }
        assert(self@.take(self@.len() as int) =~= self@);
        (data, nodata)
    }

    /// Appends one flag to the mask.
    pub fn push(&mut self, value: bool)
        ensures
            final(self)@ == old(self)@.push(value),
    {
        self.0.push(value);
    }

    /// Appends `values` to the mask.
    pub fn extend(&mut self, values: Vec<bool>)
        ensures
            final(self)@ == old(self)@ + values@,
    {
        let mut values = values;
        self.0.append(&mut values);
    }

    /// The flags of the mask, in order.
    pub fn into_vec(self) -> (r: Vec<bool>)
        ensures
            r@ == self@,
    {
        self.0
    }

    /// The mask with every flag inverted.
    pub fn inverse(&self) -> (r: Self)
        ensures
            r@ == inverted(self@),
    {
        let mut values: Vec<bool> = Vec::new();
        let mut i: usize = 0;
        while i < self.0.len()
            invariant
                i <= self@.len(),
                values.len() == i,
                forall|j: int| 0 <= j < i ==> values@[j] == !self@[j],
            decreases self@.len() - i,
        {
            values.push(!self.0[i]);
            i = i + 1;
        }
        Mask(values)
    }

    /// The conjunction of two masks, as long as the shorter one.
    pub fn and(&self, rhs: &Self) -> (r: Self)
        ensures
            r@ == both(self@, rhs@),
    {
        let n = if self.0.len() <= rhs.0.len() {
            self.0.len()
        } else {
            rhs.0.len()
        };
        let mut values: Vec<bool> = Vec::new();
        let mut i: usize = 0;
        while i < n
            invariant
                i <= n,
                n == shorter(self@.len(), rhs@.len()),
                values.len() == i,
                forall|j: int| 0 <= j < i ==> values@[j] == (self@[j] && rhs@[j]),
            decreases n - i,
        {
            values.push(self.0[i] && rhs.0[i]);
            i = i + 1;
        }
        Mask(values)
    }

    /// The disjunction of two masks, as long as the shorter one.
    pub fn or(&self, rhs: &Self) -> (r: Self)
        ensures
            r@ == either(self@, rhs@),
    {
        let n = if self.0.len() <= rhs.0.len() {
            self.0.len()
        } else {
            rhs.0.len()
        };
        let mut values: Vec<bool> = Vec::new();
        let mut i: usize = 0;
        while i < n
            invariant
                i <= n,
                n == shorter(self@.len(), rhs@.len()),
                values.len() == i,
                forall|j: int| 0 <= j < i ==> values@[j] == (self@[j] || rhs@[j]),
            decreases n - i,
        {
            values.push(self.0[i] || rhs.0[i]);
            i = i + 1;
        }
        Mask(values)
    }
}

/// The texts of the flags: `true` or `false`.
pub open spec fn flag_texts(s: Seq<bool>) -> Seq<Seq<char>> {
    Seq::new(
        s.len(),
        |i: int|
            if s[i] {
                "true"@
            } else {
                "false"@
            },
    )
}

impl Mask {
    /// Renders the mask for diagnostics: the word `Mask` and, in
    /// parentheses, the flags, elided where there are more than ten.
    pub fn debug_string(&self) -> (r: String)
        ensures
            r@ == "Mask("@ + elided_text(flag_texts(self@)) + ")"@,
    {
        let n = self.0.len();
        let positions = shown_positions(n);
        let mut texts: Vec<String> = Vec::new();
        let mut k: usize = 0;
        while k < positions.len()
            invariant
                k <= positions@.len(),
                n == self@.len(),
                positions@.len() == shown(n as nat).len(),
                forall|j: int| 0 <= j < positions@.len() ==> #[trigger] positions@[j] == shown(
                    n as nat,
                )[j],
                forall|j: int| 0 <= j < positions@.len() ==> #[trigger] positions@[j] < n,
                texts@.len() == k,
                forall|j: int|
                    0 <= j < k ==> (#[trigger] texts@[j])@ == flag_texts(self@)[positions@[j] as int],
            decreases positions@.len() - k,
        {
            let flag = self.0[positions[k]];
            if flag {
                texts.push(String::from_str("true"));
            } else {
                texts.push(String::from_str("false"));
            }
            k = k + 1;
        }
        proof {
            lemma_elided_shown(flag_texts(self@));
            assert(views(texts@) =~= shown_of(flag_texts(self@)));
        }
        let mut out = String::from_str("Mask(");
        out.append(elide_shown(&texts, n).as_str());
        out.append(")");
        out
    }
}

impl Clone for Mask {
    fn clone(&self) -> (r: Self)
        ensures
            r@ == self@,
    {
        Mask(self.0.clone())
    }
}

impl Default for Mask {
    /// The empty mask.
    fn default() -> (r: Self)
        ensures
            r@.len() == 0,
    {
        Mask(Vec::new())
    }
}


impl PartialEq for Mask {
    /// Two masks are equal where they hold the same flags.
    fn eq(&self, other: &Self) -> (r: bool) {
        if self.0.len() != other.0.len() {
            return false;
        }
        let mut i: usize = 0;
        while i < self.0.len()
            invariant
                i <= self@.len(),
                self@.len() == other@.len(),
                forall|j: int| 0 <= j < i ==> self@[j] == other@[j],
            decreases self@.len() - i,
        {
            if self.0[i] != other.0[i] {
                return false;
            }
            i = i + 1;
        }
        assert(self@ =~= other@);
        true
    }
}

impl vstd::std_specs::cmp::PartialEqSpecImpl for Mask {
    open spec fn obeys_eq_spec() -> bool {
        true
    }

    open spec fn eq_spec(&self, other: &Self) -> bool {
        self@ == other@
    }
}

impl Eq for Mask {

}

/// The number of leading positions at which two sequences of flags agree.
pub open spec fn agreeing_prefix(a: Seq<bool>, b: Seq<bool>) -> nat
    decreases a.len(),
{
    if a.len() > 0 && b.len() > 0 && a[0] == b[0] {
        1 + agreeing_prefix(a.skip(1), b.skip(1))
    } else {
        0
    }
}

/// The first position at which two sequences of flags differ, or the
/// length of the shorter one.
pub open spec fn first_disagreement(a: Seq<bool>, b: Seq<bool>) -> int {
    agreeing_prefix(a, b) as int
}

/// The rank of a flag: invalid before valid.
pub open spec fn flag_rank(b: bool) -> int {
    if b {
        1
    } else {
        0
    }
}

/// The number of flags.
pub open spec fn flag_count(s: Seq<bool>) -> int {
    s.len() as int
}

/// The agreeing prefix of two sequences is that of what follows a
/// position at which they agree, and one more.
proof fn lemma_agreeing_prefix_step(a: Seq<bool>, b: Seq<bool>, i: int)
    requires
        0 <= i < a.len(),
        i < b.len(),
        a[i] == b[i],
    ensures
        agreeing_prefix(a.skip(i), b.skip(i)) == 1 + agreeing_prefix(a.skip(i + 1), b.skip(i + 1)),
{
    assert(a.skip(i).skip(1) =~= a.skip(i + 1));
    assert(b.skip(i).skip(1) =~= b.skip(i + 1));
}

impl Mask {
    /// The length of the stretch at the start of both masks on which they
    /// agree.
    fn matching_prefix(&self, other: &Self) -> (k: usize)
        ensures
            k == agreeing_prefix(self@, other@),
            k <= self@.len(),
            k <= other@.len(),
            k < self@.len() && k < other@.len() ==> self@[k as int] != other@[k as int],
    {
        let n = if self.0.len() <= other.0.len() {
            self.0.len()
        } else {
            other.0.len()
        };
        let mut i: usize = 0;
        assert(self@.skip(0) =~= self@);
        assert(other@.skip(0) =~= other@);
        while i < n
            invariant
                i <= n,
                n <= self@.len(),
                n <= other@.len(),
                n == self@.len() || n == other@.len(),
                agreeing_prefix(self@, other@) == i + agreeing_prefix(
                    self@.skip(i as int),
                    other@.skip(i as int),
                ),
            decreases n - i,
        {
            if self.0[i] == other.0[i] {
                proof {
                    lemma_agreeing_prefix_step(self@, other@, i as int);
                }
                i = i + 1;
            } else {
                return i;
            }
        }
        i
    }

    /// How `self` compares to `other`: by the first position at which they
    /// differ, invalid before valid; where one is a prefix of the other, the
    /// shorter one is the lesser.
    pub open spec fn ordering(&self, other: &Mask) -> Ordering {
        let k = first_disagreement(self@, other@);
        if k < self@.len() && k < other@.len() {
            int_ordering(flag_rank(self@[k]), flag_rank(other@[k]))
        } else {
            int_ordering(flag_count(self@), flag_count(other@))
        }
    }

    /// Computes the ordering of two masks.
    pub fn cmp(&self, other: &Self) -> (r: Ordering)
        ensures
            r == self.ordering(other),
    {
        let k = self.matching_prefix(other);
        if k < self.0.len() && k < other.0.len() {
            if self.0[k] {
                Ordering::Greater
            } else {
                Ordering::Less
            }
        } else if self.0.len() < other.0.len() {
            Ordering::Less
        } else if self.0.len() == other.0.len() {
            Ordering::Equal
        } else {
            Ordering::Greater
        }
    }
}

impl PartialOrd for Mask {
    fn partial_cmp(&self, other: &Self) -> (r: Option<Ordering>) {
        Some(self.cmp(other))
    }
}

impl vstd::std_specs::cmp::PartialOrdSpecImpl for Mask {
    open spec fn obeys_partial_cmp_spec() -> bool {
        true
    }

    open spec fn partial_cmp_spec(&self, other: &Self) -> Option<Ordering> {
        Some(self.ordering(other))
    }
}

impl core::ops::Index<usize> for Mask {
    type Output = bool;

    /// The flag at position `index`.
    fn index(&self, index: usize) -> (r: &bool)
        ensures
            *r == self@[index as int],
    {
        &self.0[index]
    }
}

impl vstd::std_specs::core::IndexSpecImpl<usize> for Mask {
    open spec fn index_req(&self, index: &usize) -> bool {
        *index < self@.len()
    }
}

impl core::ops::IndexMut<usize> for Mask {
    /// The flag at position `index`, to be changed in place.
    fn index_mut(&mut self, index: usize) -> (r: &mut bool)
        requires
            index < old(self)@.len(),
        ensures
            *r == old(self)@[index as int],
            final(self)@ == old(self)@.update(index as int, *final(r)),
    {
        &mut self.0[index]
    }
}

impl core::ops::Not for &Mask {
    type Output = Mask;

    /// Inverts every flag.
    fn not(self) -> (r: Mask)
        ensures
            r@ == inverted(self@),
    {
        self.inverse()
    }
}

/// What `not` returns is stated on `not` itself, over the flags of the
/// result: no spec function can build the mask that comes back.
impl vstd::std_specs::ops::NotSpecImpl for &Mask {
    open spec fn obeys_not_spec() -> bool {
        false
    }

    open spec fn not_req(self) -> bool {
        true
    }

    open spec fn not_spec(self) -> Mask {
        *self
    }
}

impl core::ops::Not for Mask {
    type Output = Mask;

    /// Inverts every flag.
    fn not(self) -> (r: Mask)
        ensures
            r@ == inverted(self@),
    {
        self.inverse()
    }
}

/// What `not` returns is stated on `not` itself, over the flags of the
/// result: no spec function can build the mask that comes back.
impl vstd::std_specs::ops::NotSpecImpl for Mask {
    open spec fn obeys_not_spec() -> bool {
        false
    }

    open spec fn not_req(self) -> bool {
        true
    }

    open spec fn not_spec(self) -> Mask {
        self
    }
}

impl core::ops::BitAnd for &Mask {
    type Output = Mask;

    /// The conjunction of two masks, as long as the shorter one.
    fn bitand(self, rhs: Self) -> (r: Mask)
        ensures
            r@ == both(self@, rhs@),
    {
        self.and(rhs)
    }
}

/// What `bitand` returns is stated on `bitand` itself, over the flags of
/// the result: no spec function can build the mask that comes back.
impl vstd::std_specs::ops::BitAndSpecImpl for &Mask {
    open spec fn obeys_bitand_spec() -> bool {
        false
    }

    open spec fn bitand_req(self, rhs: Self) -> bool {
        true
    }

    open spec fn bitand_spec(self, rhs: Self) -> Mask {
        *self
    }
}

impl core::ops::BitAnd for Mask {
    type Output = Mask;

    /// The conjunction of `rhs` onto `self`: the result is as long as
    /// `self`, and keeps what `self` has beyond the length of `rhs`.
    fn bitand(self, rhs: Self) -> (r: Mask)
        ensures
            r@ == both_onto(self@, rhs@),
    {
        let mut out = self;
        let mut i: usize = 0;
        while i < out.0.len() && i < rhs.0.len()
            invariant
                out@.len() == self@.len(),
                i <= out@.len(),
                i <= rhs@.len(),
                forall|j: int| 0 <= j < i ==> out@[j] == (self@[j] && rhs@[j]),
                forall|j: int| i <= j < out@.len() ==> out@[j] == self@[j],
            decreases out@.len() - i,
        {
            let b = out.0[i] && rhs.0[i];
            out.0.set(i, b);
            i = i + 1;
        }
        out
    }
}

/// What `bitand` returns is stated on `bitand` itself, over the flags of
/// the result: no spec function can build the mask that comes back.
impl vstd::std_specs::ops::BitAndSpecImpl for Mask {
    open spec fn obeys_bitand_spec() -> bool {
        false
    }

    open spec fn bitand_req(self, rhs: Self) -> bool {
        true
    }

    open spec fn bitand_spec(self, rhs: Self) -> Mask {
        self
    }
}

impl core::ops::BitOr for &Mask {
    type Output = Mask;

    /// The disjunction of two masks, as long as the shorter one.
    fn bitor(self, rhs: Self) -> (r: Mask)
        ensures
            r@ == either(self@, rhs@),
    {
        self.or(rhs)
    }
}

/// What `bitor` returns is stated on `bitor` itself, over the flags of
/// the result: no spec function can build the mask that comes back.
impl vstd::std_specs::ops::BitOrSpecImpl for &Mask {
    open spec fn obeys_bitor_spec() -> bool {
        false
    }

    open spec fn bitor_req(self, rhs: Self) -> bool {
        true
    }

    open spec fn bitor_spec(self, rhs: Self) -> Mask {
        *self
    }
}

impl core::ops::BitOr for Mask {
    type Output = Mask;

    /// The disjunction of `rhs` onto `self`: the result is as long as
    /// `self`, and keeps what `self` has beyond the length of `rhs`.
    fn bitor(self, rhs: Self) -> (r: Mask)
        ensures
            r@ == either_onto(self@, rhs@),
    {
        let mut out = self;
        let mut i: usize = 0;
        while i < out.0.len() && i < rhs.0.len()
            invariant
                out@.len() == self@.len(),
                i <= out@.len(),
                i <= rhs@.len(),
                forall|j: int| 0 <= j < i ==> out@[j] == (self@[j] || rhs@[j]),
                forall|j: int| i <= j < out@.len() ==> out@[j] == self@[j],
            decreases out@.len() - i,
        {
            let b = out.0[i] || rhs.0[i];
            out.0.set(i, b);
            i = i + 1;
        }
        out
    }
}

/// What `bitor` returns is stated on `bitor` itself, over the flags of
/// the result: no spec function can build the mask that comes back.
impl vstd::std_specs::ops::BitOrSpecImpl for Mask {
    open spec fn obeys_bitor_spec() -> bool {
        false
    }

    open spec fn bitor_req(self, rhs: Self) -> bool {
        true
    }

    open spec fn bitor_spec(self, rhs: Self) -> Mask {
        self
    }
}

/// A mask that was filled with one flag counts all its cells on one side.
pub proof fn lemma_counts_of_fill(len: nat, value: bool)
    ensures
        count_valid(Seq::new(len, |i: int| value)) == (if value {
            len
        } else {
            0
        }),
    decreases len,
{
    let s = Seq::new(len, |i: int| value);
    if len > 0 {
        assert(s.drop_last() =~= Seq::new((len - 1) as nat, |i: int| value));
        lemma_counts_of_fill((len - 1) as nat, value);
    }
}

/// The conjunction with a mask that is valid throughout and no shorter
/// leaves a mask as it is, and so its counts.
pub proof fn lemma_both_with_valid(a: Seq<bool>, b: Seq<bool>)
    requires
        a.len() <= b.len(),
        forall|i: int| 0 <= i < b.len() ==> b[i],
    ensures
        both(a, b) == a,
        both(b, a) == a,
        count_valid(both(a, b)) == count_valid(a),
{
}

/// The conjunction of two masks does not depend on their order.
pub proof fn lemma_both_commutative(a: Seq<bool>, b: Seq<bool>)
    ensures
        both(a, b) == both(b, a),
{
}

} // verus!
