//! Range-checked narrowing of wide integers into the integer encodings.
//!
//! The narrowing is that of `num_traits::ToPrimitive`. Verus does not read
//! that crate: each contract below says what the crate's conversion does,
//! and is taken on trust by every proof that rests on it.

use vstd::prelude::*;

verus! {

/// `num_traits::ToPrimitive::to_u8` on an `i128`: the same number as a `u8`
/// where it lies within the range of `u8`, and nothing where it does not.
#[verifier::external_body]
pub(crate) fn narrow_to_u8(v: i128) -> (r: Option<u8>)
    ensures
        r == (if u8::MIN <= v <= u8::MAX {
            Some(v as u8)
        } else {
            None
        }),
{
    num_traits::ToPrimitive::to_u8(&v)
}

/// `num_traits::ToPrimitive::to_u16` on an `i128`: the same number as a
/// `u16` where it lies within the range of `u16`, and nothing where it does
/// not.
#[verifier::external_body]
pub(crate) fn narrow_to_u16(v: i128) -> (r: Option<u16>)
    ensures
        r == (if u16::MIN <= v <= u16::MAX {
            Some(v as u16)
        } else {
            None
        }),
{
    num_traits::ToPrimitive::to_u16(&v)
}

/// `num_traits::ToPrimitive::to_u32` on an `i128`: the same number as a
/// `u32` where it lies within the range of `u32`, and nothing where it does
/// not.
#[verifier::external_body]
pub(crate) fn narrow_to_u32(v: i128) -> (r: Option<u32>)
    ensures
        r == (if u32::MIN <= v <= u32::MAX {
            Some(v as u32)
        } else {
            None
        }),
{
    num_traits::ToPrimitive::to_u32(&v)
}

/// `num_traits::ToPrimitive::to_u64` on an `i128`: the same number as a
/// `u64` where it lies within the range of `u64`, and nothing where it does
/// not.
#[verifier::external_body]
pub(crate) fn narrow_to_u64(v: i128) -> (r: Option<u64>)
    ensures
        r == (if u64::MIN <= v <= u64::MAX {
            Some(v as u64)
        } else {
            None
        }),
{
    num_traits::ToPrimitive::to_u64(&v)
}

/// `num_traits::ToPrimitive::to_i8` on an `i128`: the same number as an
/// `i8` where it lies within the range of `i8`, and nothing where it does
/// not.
#[verifier::external_body]
pub(crate) fn narrow_to_i8(v: i128) -> (r: Option<i8>)
    ensures
        r == (if i8::MIN <= v <= i8::MAX {
            Some(v as i8)
        } else {
            None
        }),
{
    num_traits::ToPrimitive::to_i8(&v)
}

/// `num_traits::ToPrimitive::to_i16` on an `i128`: the same number as an
/// `i16` where it lies within the range of `i16`, and nothing where it does
/// not.
#[verifier::external_body]
pub(crate) fn narrow_to_i16(v: i128) -> (r: Option<i16>)
    ensures
        r == (if i16::MIN <= v <= i16::MAX {
            Some(v as i16)
        } else {
            None
        }),
{
    num_traits::ToPrimitive::to_i16(&v)
}

/// `num_traits::ToPrimitive::to_i32` on an `i128`: the same number as an
/// `i32` where it lies within the range of `i32`, and nothing where it does
/// not.
#[verifier::external_body]
pub(crate) fn narrow_to_i32(v: i128) -> (r: Option<i32>)
    ensures
        r == (if i32::MIN <= v <= i32::MAX {
            Some(v as i32)
        } else {
            None
        }),
{
    num_traits::ToPrimitive::to_i32(&v)
}

/// `num_traits::ToPrimitive::to_i64` on an `i128`: the same number as an
/// `i64` where it lies within the range of `i64`, and nothing where it does
/// not.
#[verifier::external_body]
pub(crate) fn narrow_to_i64(v: i128) -> (r: Option<i64>)
    ensures
        r == (if i64::MIN <= v <= i64::MAX {
            Some(v as i64)
        } else {
            None
        }),
{
    num_traits::ToPrimitive::to_i64(&v)
}

} // verus!
