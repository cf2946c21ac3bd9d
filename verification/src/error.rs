//! The errors that the library reports.

use vstd::prelude::*;
use vstd::string::StringExecFns;
use crate::ctype::CellType;

verus! {

/// Enumeration of error kinds.
#[derive(Debug)]
pub enum Error {
    /// A value of encoding `src` was asked to become one of `dst`, which
    /// cannot hold every value of `src`.
    NarrowingError { src: CellType, dst: CellType },
    /// A foreign encoding has no counterpart among the cell types.
    UnsupportedCellTypeError(String),
    /// A value was expected and none was there.
    ExpectedError(String),
    /// A text could not be read as the named kind of item.
    ParseError(String, &'static str),
}

/// The error of a conversion from `src` to `dst` that would narrow.
pub open spec fn narrowing(src: CellType, dst: CellType) -> Error {
    Error::NarrowingError { src, dst }
}


impl Error {
    /// What the error says.
    pub open spec fn message(&self) -> Seq<char> {
        match self {
            Error::NarrowingError { src, dst } => "Invalid narrowing from cell type "@ + src.name()
                + " to "@ + dst.name(),
            Error::UnsupportedCellTypeError(what) => "Unsupported cell type "@ + what@,
            Error::ExpectedError(what) => "Expected a value but received `None`: "@ + what@,
            Error::ParseError(text, kind) => "Unable to parse "@ + text@ + " as a "@ + kind@,
        }
    }

    /// What the error says.
    pub fn to_string(&self) -> (r: String)
        ensures
            r@ == self.message(),
    {
        match self {
            Error::NarrowingError { src, dst } => {
                let mut out = String::from_str("Invalid narrowing from cell type ");
                out.append(src.to_string().as_str());
                out.append(" to ");
                out.append(dst.to_string().as_str());
                out
            },
            Error::UnsupportedCellTypeError(what) => {
                let mut out = String::from_str("Unsupported cell type ");
                out.append(what.as_str());
                out
            },
            Error::ExpectedError(what) => {
                let mut out = String::from_str("Expected a value but received `None`: ");
                out.append(what.as_str());
                out
            },
            Error::ParseError(text, kind) => {
                let mut out = String::from_str("Unable to parse ");
                out.append(text.as_str());
                out.append(" as a ");
                out.append(kind);
                out
            },
        }
    }
}

} // verus!
