//! Runtime-tagged numeric cells: scalars and flat buffers whose element
//! encoding is chosen at run time, with an optional per-cell validity mask.
//!
//! There are three core enums:
//!
//! * [`CellType`]: an enumeration of each supported encoding.
//! * [`CellValue`]: a scalar stored as a [`CellType`] associated variant.
//! * [`CellBuffer`]: a `Vec<_>` of values stored as a [`CellType`]
//!   associated variant.
//!
//! and three constructs for data with gaps:
//!
//! * [`Mask`]: the validity of each cell of a buffer.
//! * [`MaskedCellBuffer`]: the combination of [`CellBuffer`] and [`Mask`].
//! * [`NoData`]: the sentinel that stands for an invalid cell in a plain
//!   array.
//!
//! Floating-point cells are carried as IEEE 754 bit patterns
//! ([`Binary32`], [`Binary64`]), so that every rule of the library
//! (widening, conversion, ordering, sentinel matching, masking) is a
//! statement about integers. Arithmetic on cells goes through
//! [`CellValue::combine`] and its counterparts on buffers, which prepare
//! the operands and store the results of an operation on binary64 values
//! that the caller hands in.

pub mod buffer;
pub mod buffer_ops;
mod cast;
pub mod ctype;
pub mod encoding;
pub mod error;
pub mod ieee;
pub mod mask;
pub mod masked_buffer;
pub mod nodata;
pub mod render;
pub mod value;

pub use buffer::{CellBuffer, CellBufferIterator};
pub use buffer_ops::BufferOps;
pub use ctype::CellType;
pub use encoding::{static_cast, CellEncoding};
pub use error::Error;
pub use ieee::{Binary32, Binary64};
pub use mask::Mask;
pub use masked_buffer::{MaskedCellBuffer, MaskedCellBufferIterator};
pub use nodata::{IsNodata, NoData};
pub use render::elided;
pub use value::CellValue;
