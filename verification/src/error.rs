//! The ways in which reading a database file can fail.

use crate::sqlite_varint_processing::VarintError;
use vstd::prelude::*;

verus! {

#[derive(Debug, Clone, Copy, PartialEq, Eq, Structural)]
pub enum DbError {
    /// There is no file to read from.
    IoFailure,
    /// The file is shorter than its 100-byte header.
    TruncatedHeader,
    /// The file ends before the bytes that a page or a cell should hold.
    TruncatedPage,
    /// The page size is not a power of two from 512 to 65536.
    InvalidPageSize,
    /// A variable-length integer is cut short or runs past nine bytes.
    IncompleteVarint,
    /// A page is of another type than the operation supports.
    UnexpectedPageType,
    /// A column's type code is reserved or otherwise not a type.
    InvalidSerialType,
    /// Text is not UTF-8, or the file declares another encoding.
    Utf8DecodeFailure,
}

impl DbError {
    /// The error that a failed integer read becomes inside a larger decode.
    pub open spec fn spec_from_varint(e: VarintError) -> DbError {
        DbError::IncompleteVarint
    }

    pub fn from_varint(e: VarintError) -> (r: DbError)
        ensures
            r == Self::spec_from_varint(e),
    {
        match e {
            VarintError::IncompleteVarint => DbError::IncompleteVarint,
        }
    }
}

} // verus!
