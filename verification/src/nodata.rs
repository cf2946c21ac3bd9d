//! The sentinel that stands for an invalid cell in a plain array.

use vstd::prelude::*;
use crate::ctype::CellType;
use crate::encoding::CellEncoding;
use crate::error::Error;
use crate::ieee::{Binary32, Binary64};
use crate::value::CellValue;

verus! {

/// Encodes a no-data value for cells that should be considered invalid
/// or masked-out of a result.
#[derive(Debug)]
pub enum NoData<T: CellEncoding> {
    /// Case where there is no no-data value.
    Absent,
    /// Case where the default no-data value should be used.
    Default,
    /// Case where a specific no-data value is specified.
    Value(T),
}

/// The canonical sentinel of an encoding: its least value for an integer
/// encoding, the canonical quiet NaN for a floating-point one.
pub open spec fn default_sentinel(t: CellType) -> CellValue {
    match t {
        CellType::Float32 => CellValue::Float32(Binary32 { bits: 0x7fc0_0000 }),
        CellType::Float64 => CellValue::Float64(Binary64 { bits: 0x7ff8_0000_0000_0000 }),
        _ => t.min_cell(),
    }
}

/// The canonical sentinel of an encoding.
pub fn default_sentinel_of(t: CellType) -> (r: CellValue)
    ensures
        r == default_sentinel(t),
        r.tag() == t,
{
    match t {
        CellType::Float32 => CellValue::Float32(Binary32::nan_value()),
        CellType::Float64 => CellValue::Float64(Binary64::nan_value()),
        _ => t.min(),
    }
}

impl<T: CellEncoding> NoData<T> {
    /// The cell that holds the sentinel, if there is one.
    pub open spec fn sentinel(self) -> Option<CellValue> {
        match self {
            NoData::Absent => None,
            NoData::Default => Some(default_sentinel(T::tag())),
            NoData::Value(v) => Some(v.cell()),
        }
    }

    /// Whether `value` is the sentinel: there is a sentinel, and `value`
    /// compares equal to it.
    pub open spec fn marks(self, value: CellValue) -> bool {
        match self.sentinel() {
            Some(s) => s.same_rank(value),
            None => false,
        }
    }

    /// The policy with the sentinel `value`.
    pub fn new(value: T) -> (r: Self)
        ensures
            r == NoData::Value(value),
    {
        NoData::Value(value)
    }

    /// The sentinel, if there is one.
    ///
    /// `Absent` has none, `Value` has the value it was given, and `Default`
    /// has the canonical sentinel of the encoding of `T`.
    pub fn value(&self) -> (r: Option<T>)
        ensures
            self.sentinel() is None ==> r is None,
            self.sentinel() matches Some(s) ==> (r matches Some(x) && x.cell() == s),
            *self matches NoData::Value(v) ==> r == Some(v),
    {
        match self {
            NoData::Absent => None,
            NoData::Value(v) => Some(*v),
            NoData::Default => T::from_cell_value(default_sentinel_of(T::cell_type())),
        }
    }

    /// The policy for a sentinel that comes as a binary64, the way raster
    /// formats report it, or for none.
    ///
    /// The sentinel is converted by value into the encoding of `T`.
    /// Returns the error that a value was expected where the sentinel has
    /// no counterpart there, with the name of the encoding.
    pub fn from_sentinel(sentinel: Option<Binary64>) -> (r: Result<Self, Error>)
        ensures
            sentinel is None ==> r matches Ok(NoData::Absent),
            sentinel matches Some(nd) ==> match CellValue::Float64(nd).cast_to(T::tag()) {
                Some(c) => r matches Ok(NoData::Value(x)) && x.cell() == c,
                None => r matches Err(Error::ExpectedError(what)) && what@ == T::tag().name(),
            },
    {
        match sentinel {
            None => Ok(NoData::Absent),
            Some(nd) => match CellValue::Float64(nd).cast(T::cell_type()) {
                Some(c) => match T::from_cell_value(c) {
                    Some(x) => Ok(NoData::Value(x)),
                    None => Err(Error::ExpectedError(T::cell_type().to_string())),
                },
                None => Err(Error::ExpectedError(T::cell_type().to_string())),
            },
        }
    }

    /// Determines if `value` is the no-data value.
    pub fn is(&self, value: &CellValue) -> (r: bool)
        ensures
            r == self.marks(*value),
    {
        match self.value() {
            Some(nd_val) => {
                let nd_val2 = nd_val.into_cell_value();
                nd_val2 == *value
            },
            None => false,
        }
    }
}

impl<T: CellEncoding> Clone for NoData<T> {
    fn clone(&self) -> (r: Self)
        ensures
            r == *self,
    {
        *self
    }
}

impl<T: CellEncoding> Copy for NoData<T> {

}

impl<T: CellEncoding> Default for NoData<T> {
    /// The policy that uses the canonical sentinel.
    fn default() -> (r: Self)
        ensures
            r == NoData::<T>::Default,
    {
        NoData::Default
    }
}


/// Values that can be held against a no-data policy.
pub trait IsNodata {
    /// The cell that stands for `self`.
    spec fn as_cell(&self) -> CellValue;

    /// Determines if the `self` matches given `NoData` value.
    fn is<N: CellEncoding>(&self, no_data: NoData<N>) -> (r: bool)
        ensures
            r == no_data.marks(self.as_cell()),
    ;
}

impl IsNodata for CellValue {
    open spec fn as_cell(&self) -> CellValue {
        *self
    }

    fn is<N: CellEncoding>(&self, no_data: NoData<N>) -> (r: bool) {
        no_data.is(self)
    }
}

impl<T: CellEncoding> IsNodata for T {
    open spec fn as_cell(&self) -> CellValue {
        self.cell()
    }

    fn is<N: CellEncoding>(&self, no_data: NoData<N>) -> (r: bool) {
        no_data.is(&self.into_cell_value())
    }
}

} // verus!
