//! The closed set of cell encodings and the widening rule between them.

use vstd::prelude::*;
use vstd::string::StringExecFns;
use crate::error::Error;
use crate::ieee::{Binary32, Binary64};
use crate::value::CellValue;

verus! {

/// One of the ten supported cell encodings.
///
/// The declaration order is the canonical order of the encodings.
#[derive(Debug, Copy, Clone, PartialEq, Eq, PartialOrd, Hash, Structural)]
pub enum CellType {
    UInt8,
    UInt16,
    UInt32,
    UInt64,
    Int8,
    Int16,
    Int32,
    Int64,
    Float32,
    Float64,
}

/// All encodings, in canonical order.
pub open spec fn all_cell_types() -> Seq<CellType> {
    seq![
        CellType::UInt8,
        CellType::UInt16,
        CellType::UInt32,
        CellType::UInt64,
        CellType::Int8,
        CellType::Int16,
        CellType::Int32,
        CellType::Int64,
        CellType::Float32,
        CellType::Float64,
    ]
}

/// The larger of two widths.
pub open spec fn wider(a: nat, b: nat) -> nat {
    if a >= b {
        a
    } else {
        b
    }
}

impl CellType {
    /// Position of the encoding in the canonical order.
    pub open spec fn ordinal(self) -> nat {
        match self {
            CellType::UInt8 => 0,
            CellType::UInt16 => 1,
            CellType::UInt32 => 2,
            CellType::UInt64 => 3,
            CellType::Int8 => 4,
            CellType::Int16 => 5,
            CellType::Int32 => 6,
            CellType::Int64 => 7,
            CellType::Float32 => 8,
            CellType::Float64 => 9,
        }
    }

    /// Position of the encoding in the canonical order, as an integer.
    pub open spec fn rank(self) -> int {
        self.ordinal() as int
    }

    /// Whether the encoding holds integers.
    pub open spec fn integral(self) -> bool {
        !(self is Float32 || self is Float64)
    }

    /// Whether the encoding can hold negative values.
    pub open spec fn signed(self) -> bool {
        !(self is UInt8 || self is UInt16 || self is UInt32 || self is UInt64)
    }

    /// Width of one cell in bytes.
    pub open spec fn bytes(self) -> nat {
        match self {
            CellType::UInt8 | CellType::Int8 => 1,
            CellType::UInt16 | CellType::Int16 => 2,
            CellType::UInt32 | CellType::Int32 | CellType::Float32 => 4,
            CellType::UInt64 | CellType::Int64 | CellType::Float64 => 8,
        }
    }

    /// Bytes that an encoding needs in order to hold every value of both
    /// `self` and `other`.
    ///
    /// An integer absorbed by a float, and an unsigned integer absorbed by a
    /// signed one, count twice their own width.
    pub open spec fn bytes_to_hold(self, other: CellType) -> nat {
        if self.integral() && !other.integral() {
            wider(other.bytes(), 2 * self.bytes())
        } else if !self.integral() && other.integral() {
            wider(self.bytes(), 2 * other.bytes())
        } else if self.signed() && !other.signed() {
            wider(self.bytes(), 2 * other.bytes())
        } else if !self.signed() && other.signed() {
            wider(other.bytes(), 2 * self.bytes())
        } else {
            wider(self.bytes(), other.bytes())
        }
    }

    /// The encoding with the given width, signedness and integrality.
    ///
    /// Whatever needs more than eight bytes is held as `Float64`.
    pub open spec fn with_shape(bytes: nat, signed: bool, integral: bool) -> CellType {
        if !integral {
            if bytes <= 4 {
                CellType::Float32
            } else {
                CellType::Float64
            }
        } else if bytes > 8 {
            CellType::Float64
        } else if bytes > 4 {
            if signed {
                CellType::Int64
            } else {
                CellType::UInt64
            }
        } else if bytes > 2 {
            if signed {
                CellType::Int32
            } else {
                CellType::UInt32
            }
        } else if bytes > 1 {
            if signed {
                CellType::Int16
            } else {
                CellType::UInt16
            }
        } else {
            if signed {
                CellType::Int8
            } else {
                CellType::UInt8
            }
        }
    }

    /// The smallest encoding that holds every value of `self` and of `other`.
    pub open spec fn spec_union(self, other: CellType) -> CellType {
        Self::with_shape(
            self.bytes_to_hold(other),
            self.signed() || other.signed(),
            self.integral() && other.integral(),
        )
    }

    /// Whether every value of `self` can be held by `target`.
    pub open spec fn fits_into(self, target: CellType) -> bool {
        self.spec_union(target) == target
    }

    /// The least value of the encoding; for a floating-point encoding the
    /// least finite one.
    pub open spec fn min_cell(self) -> CellValue {
        match self {
            CellType::UInt8 => CellValue::UInt8(u8::MIN),
            CellType::UInt16 => CellValue::UInt16(u16::MIN),
            CellType::UInt32 => CellValue::UInt32(u32::MIN),
            CellType::UInt64 => CellValue::UInt64(u64::MIN),
            CellType::Int8 => CellValue::Int8(i8::MIN),
            CellType::Int16 => CellValue::Int16(i16::MIN),
            CellType::Int32 => CellValue::Int32(i32::MIN),
            CellType::Int64 => CellValue::Int64(i64::MIN),
            CellType::Float32 => CellValue::Float32(Binary32 { bits: 0xff7f_ffff }),
            CellType::Float64 => CellValue::Float64(Binary64 { bits: 0xffef_ffff_ffff_ffff }),
        }
    }

    /// The greatest value of the encoding; for a floating-point encoding
    /// the greatest finite one.
    pub open spec fn max_cell(self) -> CellValue {
        match self {
            CellType::UInt8 => CellValue::UInt8(u8::MAX),
            CellType::UInt16 => CellValue::UInt16(u16::MAX),
            CellType::UInt32 => CellValue::UInt32(u32::MAX),
            CellType::UInt64 => CellValue::UInt64(u64::MAX),
            CellType::Int8 => CellValue::Int8(i8::MAX),
            CellType::Int16 => CellValue::Int16(i16::MAX),
            CellType::Int32 => CellValue::Int32(i32::MAX),
            CellType::Int64 => CellValue::Int64(i64::MAX),
            CellType::Float32 => CellValue::Float32(Binary32 { bits: 0x7f7f_ffff }),
            CellType::Float64 => CellValue::Float64(Binary64 { bits: 0x7fef_ffff_ffff_ffff }),
        }
    }

    /// The value zero in the encoding, which is its default value.
    pub open spec fn zero_cell(self) -> CellValue {
        match self {
            CellType::UInt8 => CellValue::UInt8(0),
            CellType::UInt16 => CellValue::UInt16(0),
            CellType::UInt32 => CellValue::UInt32(0),
            CellType::UInt64 => CellValue::UInt64(0),
            CellType::Int8 => CellValue::Int8(0),
            CellType::Int16 => CellValue::Int16(0),
            CellType::Int32 => CellValue::Int32(0),
            CellType::Int64 => CellValue::Int64(0),
            CellType::Float32 => CellValue::Float32(Binary32 { bits: 0 }),
            CellType::Float64 => CellValue::Float64(Binary64 { bits: 0 }),
        }
    }

    /// The value one in the encoding.
    pub open spec fn one_cell(self) -> CellValue {
        match self {
            CellType::UInt8 => CellValue::UInt8(1),
            CellType::UInt16 => CellValue::UInt16(1),
            CellType::UInt32 => CellValue::UInt32(1),
            CellType::UInt64 => CellValue::UInt64(1),
            CellType::Int8 => CellValue::Int8(1),
            CellType::Int16 => CellValue::Int16(1),
            CellType::Int32 => CellValue::Int32(1),
            CellType::Int64 => CellValue::Int64(1),
            CellType::Float32 => CellValue::Float32(Binary32 { bits: 0x3f80_0000 }),
            CellType::Float64 => CellValue::Float64(Binary64 { bits: 0x3ff0_0000_0000_0000 }),
        }
    }

    /// The minimum value of the encoding.
    pub fn min(&self) -> (r: CellValue)
        ensures
            r == self.min_cell(),
    {
        match self {
            CellType::UInt8 => CellValue::UInt8(u8::MIN),
            CellType::UInt16 => CellValue::UInt16(u16::MIN),
            CellType::UInt32 => CellValue::UInt32(u32::MIN),
            CellType::UInt64 => CellValue::UInt64(u64::MIN),
            CellType::Int8 => CellValue::Int8(i8::MIN),
            CellType::Int16 => CellValue::Int16(i16::MIN),
            CellType::Int32 => CellValue::Int32(i32::MIN),
            CellType::Int64 => CellValue::Int64(i64::MIN),
            CellType::Float32 => CellValue::Float32(Binary32::min_value()),
            CellType::Float64 => CellValue::Float64(Binary64::min_value()),
        }
    }

    /// The maximum value of the encoding.
    pub fn max(&self) -> (r: CellValue)
        ensures
            r == self.max_cell(),
    {
        match self {
            CellType::UInt8 => CellValue::UInt8(u8::MAX),
            CellType::UInt16 => CellValue::UInt16(u16::MAX),
            CellType::UInt32 => CellValue::UInt32(u32::MAX),
            CellType::UInt64 => CellValue::UInt64(u64::MAX),
            CellType::Int8 => CellValue::Int8(i8::MAX),
            CellType::Int16 => CellValue::Int16(i16::MAX),
            CellType::Int32 => CellValue::Int32(i32::MAX),
            CellType::Int64 => CellValue::Int64(i64::MAX),
            CellType::Float32 => CellValue::Float32(Binary32::max_value()),
            CellType::Float64 => CellValue::Float64(Binary64::max_value()),
        }
    }

    /// The value zero of the encoding.
    pub fn zero(&self) -> (r: CellValue)
        ensures
            r == self.zero_cell(),
    {
        match self {
            CellType::UInt8 => CellValue::UInt8(0),
            CellType::UInt16 => CellValue::UInt16(0),
            CellType::UInt32 => CellValue::UInt32(0),
            CellType::UInt64 => CellValue::UInt64(0),
            CellType::Int8 => CellValue::Int8(0),
            CellType::Int16 => CellValue::Int16(0),
            CellType::Int32 => CellValue::Int32(0),
            CellType::Int64 => CellValue::Int64(0),
            CellType::Float32 => CellValue::Float32(Binary32::zero_value()),
            CellType::Float64 => CellValue::Float64(Binary64::zero_value()),
        }
    }

    /// The value one of the encoding.
    pub fn one(&self) -> (r: CellValue)
        ensures
            r == self.one_cell(),
    {
        match self {
            CellType::UInt8 => CellValue::UInt8(1),
            CellType::UInt16 => CellValue::UInt16(1),
            CellType::UInt32 => CellValue::UInt32(1),
            CellType::UInt64 => CellValue::UInt64(1),
            CellType::Int8 => CellValue::Int8(1),
            CellType::Int16 => CellValue::Int16(1),
            CellType::Int32 => CellValue::Int32(1),
            CellType::Int64 => CellValue::Int64(1),
            CellType::Float32 => CellValue::Float32(Binary32::one_value()),
            CellType::Float64 => CellValue::Float64(Binary64::one_value()),
        }
    }

    /// The name of the encoding.
    pub open spec fn name(self) -> Seq<char> {
        match self {
            CellType::UInt8 => "UInt8"@,
            CellType::UInt16 => "UInt16"@,
            CellType::UInt32 => "UInt32"@,
            CellType::UInt64 => "UInt64"@,
            CellType::Int8 => "Int8"@,
            CellType::Int16 => "Int16"@,
            CellType::Int32 => "Int32"@,
            CellType::Int64 => "Int64"@,
            CellType::Float32 => "Float32"@,
            CellType::Float64 => "Float64"@,
        }
    }

    /// The name of the encoding.
    pub fn to_string(&self) -> (r: String)
        ensures
            r@ == self.name(),
    {
        match self {
            CellType::UInt8 => String::from_str("UInt8"),
            CellType::UInt16 => String::from_str("UInt16"),
            CellType::UInt32 => String::from_str("UInt32"),
            CellType::UInt64 => String::from_str("UInt64"),
            CellType::Int8 => String::from_str("Int8"),
            CellType::Int16 => String::from_str("Int16"),
            CellType::Int32 => String::from_str("Int32"),
            CellType::Int64 => String::from_str("Int64"),
            CellType::Float32 => String::from_str("Float32"),
            CellType::Float64 => String::from_str("Float64"),
        }
    }

    /// Reads the name of an encoding.
    ///
    /// Returns the encoding that has the name `s`, and the parse error,
    /// with the text that was given, where no encoding has that name.
    pub fn from_str(s: &str) -> (r: Result<Self, Error>)
        ensures
            match r {
                Ok(ct) => s@ == ct.name(),
                Err(e) => {
                    &&& forall|ct: CellType| s@ != ct.name()
                    &&& e matches Error::ParseError(text, kind)
                    &&& text@ == s@
                    &&& kind@ == "CellType"@
                },
            },
            forall|ct: CellType| s@ == ct.name() ==> (r matches Ok(found) && found == ct),
    {
        let all = Self::iter();
        let wanted = String::from_str(s);
        let mut i: usize = 0;
        while i < all.len()
            invariant
                i <= all@.len(),
                all@ == all_cell_types(),
                wanted@ == s@,
                forall|j: int| 0 <= j < i ==> s@ != (#[trigger] all@[j]).name(),
            decreases all@.len() - i,
        {
            let ct = all[i];
            if wanted == ct.to_string() {
                proof {
                    assert forall|other: CellType| s@ == other.name() implies other == ct by {
                        lemma_names_differ(other, ct);
                    }
                }
                return Ok(ct);
            }
            i = i + 1;
        }
        assert forall|ct: CellType| s@ != ct.name() by {
            assert(all@[ct.ordinal() as int] == ct);
        }
        Err(Error::ParseError(wanted, "CellType"))
    }

    /// All encodings, in canonical order.
    pub fn iter() -> (all: Vec<CellType>)
        ensures
            all@ == all_cell_types(),
    {
        vec![
            CellType::UInt8,
            CellType::UInt16,
            CellType::UInt32,
            CellType::UInt64,
            CellType::Int8,
            CellType::Int16,
            CellType::Int32,
            CellType::Int64,
            CellType::Float32,
            CellType::Float64,
        ]
    }

    /// Determine if `self` is integral or floating-point.
    pub fn is_integral(&self) -> (r: bool)
        ensures
            r == self.integral(),
    {
        match self {
            CellType::Float32 | CellType::Float64 => false,
            _ => true,
        }
    }

    /// Determine if `self` is signed or unsigned.
    pub fn is_signed(&self) -> (r: bool)
        ensures
            r == self.signed(),
    {
        match self {
            CellType::UInt8 | CellType::UInt16 | CellType::UInt32 | CellType::UInt64 => false,
            _ => true,
        }
    }

    /// Number of bytes needed to encode one cell of `self`.
    pub fn size_of(&self) -> (r: usize)
        ensures
            r == self.bytes(),
    {
        match self {
            CellType::UInt8 | CellType::Int8 => 1,
            CellType::UInt16 | CellType::Int16 => 2,
            CellType::UInt32 | CellType::Int32 | CellType::Float32 => 4,
            CellType::UInt64 | CellType::Int64 | CellType::Float64 => 8,
        }
    }

    /// Position of `self` in the canonical order.
    pub fn index(&self) -> (r: u8)
        ensures
            r == self.ordinal(),
    {
        match self {
            CellType::UInt8 => 0,
            CellType::UInt16 => 1,
            CellType::UInt32 => 2,
            CellType::UInt64 => 3,
            CellType::Int8 => 4,
            CellType::Int16 => 5,
            CellType::Int32 => 6,
            CellType::Int64 => 7,
            CellType::Float32 => 8,
            CellType::Float64 => 9,
        }
    }

    /// Select the `CellType` that can numerically contain both `self` and `other`.
    pub fn union(self, other: Self) -> (r: Self)
        ensures
            r == self.spec_union(other),
    {
        let min_bytes: usize = if self.is_integral() && !other.is_integral() {
            larger(other.size_of(), 2 * self.size_of())
        } else if !self.is_integral() && other.is_integral() {
            larger(self.size_of(), 2 * other.size_of())
        } else if self.is_signed() && !other.is_signed() {
            larger(self.size_of(), 2 * other.size_of())
        } else if !self.is_signed() && other.is_signed() {
            larger(other.size_of(), 2 * self.size_of())
        } else {
            larger(self.size_of(), other.size_of())
        };
        let signed = self.is_signed() || other.is_signed();
        let integral = self.is_integral() && other.is_integral();
        if !integral {
            if min_bytes <= 4 {
                CellType::Float32
            } else {
                CellType::Float64
            }
        } else if min_bytes > 8 {
            CellType::Float64
        } else {
            match (min_bytes, signed) {
                (8, true) => CellType::Int64,
                (8, false) => CellType::UInt64,
                (4, true) => CellType::Int32,
                (4, false) => CellType::UInt32,
                (2, true) => CellType::Int16,
                (2, false) => CellType::UInt16,
                (_, true) => CellType::Int8,
                (_, false) => CellType::UInt8,
            }
        }
    }

    /// Determine if every value of `self` can be converted to `target`
    /// without narrowing.
    pub fn can_fit_into(self, target: Self) -> (r: bool)
        ensures
            r == self.fits_into(target),
    {
        self.union(target) == target
    }
}

impl core::str::FromStr for CellType {
    type Err = Error;

    /// Reads the name of an encoding.
    ///
    /// Returns the encoding that has the name `s`, and the parse error,
    /// with the text that was given, where no encoding has that name.
    fn from_str(s: &str) -> (r: Result<Self, Error>)
        ensures
            match r {
                Ok(ct) => s@ == ct.name(),
                Err(e) => {
                    &&& forall|ct: CellType| s@ != ct.name()
                    &&& e matches Error::ParseError(text, kind)
                    &&& text@ == s@
                    &&& kind@ == "CellType"@
                },
            },
            forall|ct: CellType| s@ == ct.name() ==> (r matches Ok(found) && found == ct),
    {
        CellType::from_str(s)
    }
}

/// The larger of two sizes.
fn larger(a: usize, b: usize) -> (r: usize)
    ensures
        r == wider(a as nat, b as nat),
{
    if a >= b {
        a
    } else {
        b
    }
}

/// No two encodings share a name: an encoding is known by its name.
pub proof fn lemma_names_differ(a: CellType, b: CellType)
    ensures
        a.name() == b.name() <==> a == b,
{
    reveal_strlit("UInt8");
    reveal_strlit("UInt16");
    reveal_strlit("UInt32");
    reveal_strlit("UInt64");
    reveal_strlit("Int8");
    reveal_strlit("Int16");
    reveal_strlit("Int32");
    reveal_strlit("Int64");
    reveal_strlit("Float32");
    reveal_strlit("Float64");
    if a != b && a.name() == b.name() {
        let x = a.name();
        let y = b.name();
        assert(x.len() == y.len());
        assert(x[0] == y[0]);
        assert(x[1] == y[1]);
        assert(x[3] == y[3]);
        if x.len() > 4 {
            assert(x[4] == y[4]);
        }
        if x.len() > 5 {
            assert(x[5] == y[5]);
        }
        if x.len() > 6 {
            assert(x[6] == y[6]);
        }
    }
}

/// Widening does not depend on the order of the two encodings.
pub proof fn lemma_union_commutative(a: CellType, b: CellType)
    ensures
        a.spec_union(b) == b.spec_union(a),
{
}

/// Widening an encoding with itself gives that encoding.
pub proof fn lemma_union_idempotent(a: CellType)
    ensures
        a.spec_union(a) == a,
{
}

/// The union of two encodings is at least as wide as either of them.
pub proof fn lemma_union_widens(a: CellType, b: CellType)
    ensures
        a.spec_union(b).bytes() >= wider(a.bytes(), b.bytes()),
        a.spec_union(b).bytes() >= a.bytes(),
        a.spec_union(b).bytes() >= b.bytes(),
{
}

/// An encoding fits into a target exactly when their union is the target;
/// it then fits into itself, and whatever fits is no wider than the target.
pub proof fn lemma_fits_into(a: CellType, b: CellType)
    ensures
        a.fits_into(a),
        a.fits_into(a.spec_union(b)),
        b.fits_into(a.spec_union(b)),
        a.fits_into(b) ==> a.bytes() <= b.bytes(),
        a.fits_into(b) && b.fits_into(a) ==> a == b,
{
}

} // verus!
