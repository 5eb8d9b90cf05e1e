//! The fixed 100-byte header at the start of the file.

use crate::error::DbError;
use crate::util::{spec_be_u16, spec_be_u32, ByteCursor};
use vstd::prelude::*;

verus! {

/// Length of the file header, and so the offset of the first page's own header.
pub const FILE_HEADER_LEN: usize = 100;

/// Offset of the two-byte page size.
pub const PAGE_SIZE_OFFSET: usize = 16;

/// Offset of the four-byte size of the database in pages.
pub const PAGE_COUNT_OFFSET: usize = 28;

/// Offset of the four-byte number of the first freelist trunk page.
pub const FIRST_FREELIST_OFFSET: usize = 32;

/// Offset of the four-byte count of freelist pages.
pub const FREELIST_COUNT_OFFSET: usize = 36;

/// Offset of the four-byte text encoding.
pub const TEXT_ENCODING_OFFSET: usize = 56;

/// The text encoding value that stands for UTF-8.
pub const TEXT_ENCODING_UTF8: u32 = 1;

/// What the file header says of the file as a whole.
#[derive(Debug, Clone, Copy, PartialEq, Eq, Structural)]
pub struct DbFile {
    /// Page size in bytes, with the stored value 1 already read as 65536.
    pub database_page_size: u32,
    pub db_size_in_pages: u32,
    pub page_number_first_freelist_trunk: u32,
    pub number_freelist_pages: u32,
    /// 1 for UTF-8, 2 for UTF-16 little-endian, 3 for UTF-16 big-endian.
    pub db_text_encoding: u32,
}

/// The page size that a stored two-byte value stands for.
pub open spec fn spec_page_size(stored: int) -> int {
    if stored == 1 {
        0x1_0000
    } else {
        stored
    }
}

/// A power of two from 512 to 65536.
pub open spec fn spec_valid_page_size(size: int) -> bool {
    size == 0x200 || size == 0x400 || size == 0x800 || size == 0x1000 || size == 0x2000 || size
        == 0x4000 || size == 0x8000 || size == 0x1_0000
}

/// The header that the first 100 bytes of `s` hold, or why there is none.
pub open spec fn spec_parse_header(s: Seq<u8>) -> Result<DbFile, DbError> {
    if s.len() < FILE_HEADER_LEN {
        Err(DbError::TruncatedHeader)
    } else if !spec_valid_page_size(spec_page_size(spec_be_u16(s, PAGE_SIZE_OFFSET as int))) {
        Err(DbError::InvalidPageSize)
    } else {
        Ok(
            DbFile {
                database_page_size: spec_page_size(spec_be_u16(s, PAGE_SIZE_OFFSET as int)) as u32,
                db_size_in_pages: spec_be_u32(s, PAGE_COUNT_OFFSET as int) as u32,
                page_number_first_freelist_trunk: spec_be_u32(
                    s,
                    FIRST_FREELIST_OFFSET as int,
                ) as u32,
                number_freelist_pages: spec_be_u32(s, FREELIST_COUNT_OFFSET as int) as u32,
                db_text_encoding: spec_be_u32(s, TEXT_ENCODING_OFFSET as int) as u32,
            },
        )
    }
}

impl DbFile {
    /// The page size is one that the format allows.
    pub open spec fn wf(&self) -> bool {
        spec_valid_page_size(self.database_page_size as int)
    }

    /// Reads the header from the bytes of a file.
    pub fn process_file(data: &[u8]) -> (r: Result<DbFile, DbError>)
        ensures
            r == spec_parse_header(data@),
            data@.len() < FILE_HEADER_LEN ==> r == Err::<DbFile, DbError>(DbError::TruncatedHeader),
            r matches Ok(header) ==> header.wf(),
    {
        if data.len() < FILE_HEADER_LEN {
            return Err(DbError::TruncatedHeader);
        }
        let mut cursor = ByteCursor::new(data, PAGE_SIZE_OFFSET);
        let stored = match cursor.read_u16() {
            Some(v) => v,
            None => {
                return Err(DbError::TruncatedHeader);
            },
        };
        let page_size: u32 = if stored == 1 {
            0x1_0000
        } else {
            stored as u32
        };
        if page_size < 0x200 || page_size > 0x1_0000 {
            return Err(DbError::InvalidPageSize);
        }
        let below: u32 = page_size - 1;
        assert(page_size & below == 0 <==> spec_valid_page_size(page_size as int))
            by (bit_vector)
            requires
                0x200 <= page_size <= 0x1_0000,
                below == page_size - 1,
        ;
        if page_size & below != 0 {
            return Err(DbError::InvalidPageSize);
        }
        cursor.seek(PAGE_COUNT_OFFSET);
        let page_count = match cursor.read_u32() {
            Some(v) => v,
            None => {
                return Err(DbError::TruncatedHeader);
            },
        };
        cursor.seek(FIRST_FREELIST_OFFSET);
        let first_freelist = match cursor.read_u32() {
            Some(v) => v,
            None => {
                return Err(DbError::TruncatedHeader);
            },
        };
        cursor.seek(FREELIST_COUNT_OFFSET);
        let freelist_count = match cursor.read_u32() {
            Some(v) => v,
            None => {
                return Err(DbError::TruncatedHeader);
            },
        };
        cursor.seek(TEXT_ENCODING_OFFSET);
        let text_encoding = match cursor.read_u32() {
            Some(v) => v,
            None => {
                return Err(DbError::TruncatedHeader);
            },
        };
        Ok(
            DbFile {
                database_page_size: page_size,
                db_size_in_pages: page_count,
                page_number_first_freelist_trunk: first_freelist,
                number_freelist_pages: freelist_count,
                db_text_encoding: text_encoding,
            },
        )
    }
}

} // verus!
