//! Pages: where each one lies in the file, what type its leading byte gives
//! it, and the B-tree page header with the cell pointers that follow it.

use crate::db_file::{DbFile, FILE_HEADER_LEN};
use crate::error::DbError;
use crate::util::{spec_be_u16, spec_be_u32, ByteCursor};
use vstd::prelude::*;

verus! {

/// Length of the header of a leaf page, type byte included.
pub const LEAF_HEADER_LEN: u64 = 8;

/// Length of the header of an interior page, type byte included.
pub const INTERIOR_HEADER_LEN: u64 = 12;

#[derive(Debug, Clone, Copy, PartialEq, Eq, Structural)]
pub enum BTreePageType {
    InteriorIndex,
    InteriorTable,
    LeafIndex,
    LeafTable,
    /// The leading byte is none of the four B-tree type bytes, as on an
    /// overflow or a freelist page.
    Unknown,
}

/// One page of the file: its type, the offset of its type byte and the
/// offset of its last byte. The first page's type byte follows the file header.
#[derive(Debug, Clone, Copy, PartialEq, Eq, Structural)]
pub struct Page {
    pub page_type: BTreePageType,
    pub page_hdr_idx: u64,
    pub page_end_idx: u64,
}

/// The header of a B-tree page, which follows its type byte.
#[derive(Debug, Clone, Copy, PartialEq, Eq, Structural)]
pub struct BTreePageHeader {
    pub first_freeblock_offset: u16,
    pub cell_count: u16,
    /// As stored: 0 stands for 65536.
    pub cell_content_start_offset: u16,
    pub fragmented_free_bytes: u8,
    /// Present on interior pages only.
    pub right_most_pointer: Option<u32>,
}

/// The page type that a leading byte stands for.
pub open spec fn spec_page_type(b: u8) -> BTreePageType {
    if b == 0x02 {
        BTreePageType::InteriorIndex
    } else if b == 0x05 {
        BTreePageType::InteriorTable
    } else if b == 0x0a {
        BTreePageType::LeafIndex
    } else if b == 0x0d {
        BTreePageType::LeafTable
    } else {
        BTreePageType::Unknown
    }
}

/// Offset of the type byte of the page with index `index`.
pub open spec fn spec_page_start(page_size: int, index: int) -> int {
    if index == 0 {
        FILE_HEADER_LEN as int
    } else {
        index * page_size
    }
}

/// Offset of the last byte of the page with index `index`.
pub open spec fn spec_page_end(page_size: int, index: int) -> int {
    (index + 1) * page_size - 1
}

/// The page with index `index` of the file `s`, or `TruncatedPage` where
/// the file ends before its type byte.
pub open spec fn spec_describe_page(s: Seq<u8>, header: DbFile, index: int) -> Result<
    Page,
    DbError,
> {
    let start = spec_page_start(header.database_page_size as int, index);
    if start >= s.len() {
        Err(DbError::TruncatedPage)
    } else {
        Ok(
            Page {
                page_type: spec_page_type(s[start]),
                page_hdr_idx: start as u64,
                page_end_idx: spec_page_end(header.database_page_size as int, index) as u64,
            },
        )
    }
}

/// The header of the B-tree page `page` of the file `s`: `UnexpectedPageType`
/// where the page is no B-tree page, `TruncatedPage` where the file ends
/// before the header does.
pub open spec fn spec_read_page_header(s: Seq<u8>, page: Page) -> Result<BTreePageHeader, DbError> {
    let at = page.page_hdr_idx as int;
    if page.page_type is Unknown {
        Err(DbError::UnexpectedPageType)
    } else if at + page.page_type.spec_header_len() > s.len() {
        Err(DbError::TruncatedPage)
    } else {
        Ok(
            BTreePageHeader {
                first_freeblock_offset: spec_be_u16(s, at + 1) as u16,
                cell_count: spec_be_u16(s, at + 3) as u16,
                cell_content_start_offset: spec_be_u16(s, at + 5) as u16,
                fragmented_free_bytes: s[at + 7],
                right_most_pointer: if page.page_type.spec_is_interior() {
                    Some(spec_be_u32(s, at + 8) as u32)
                } else {
                    None
                },
            },
        )
    }
}

/// The `count` two-byte cell pointers that start at offset `at` of `s`, in
/// the order in which they are stored.
pub open spec fn spec_cell_pointers(s: Seq<u8>, at: int, count: int) -> Result<Seq<u16>, DbError> {
    if at + 2 * count > s.len() {
        Err(DbError::TruncatedPage)
    } else {
        Ok(Seq::new(count as nat, |i: int| spec_be_u16(s, at + 2 * i) as u16))
    }
}

/// Header and cell pointers of the schema page, the first page of the file:
/// the errors of describing the page and of reading its header, and
/// `UnexpectedPageType` where it is not a leaf table page.
pub open spec fn spec_read_schema_page(s: Seq<u8>, header: DbFile) -> Result<
    (BTreePageHeader, Seq<u16>),
    DbError,
> {
    match spec_describe_page(s, header, 0) {
        Err(e) => Err(e),
        Ok(page) => if !(page.page_type is LeafTable) {
            Err(DbError::UnexpectedPageType)
        } else {
            match spec_read_page_header(s, page) {
                Err(e) => Err(e),
                Ok(h) => match spec_cell_pointers(
                    s,
                    page.page_hdr_idx + LEAF_HEADER_LEN,
                    h.cell_count as int,
                ) {
                    Err(e) => Err(e),
                    Ok(pointers) => Ok((h, pointers)),
                },
            }
        },
    }
}

/// Pages do not overlap: each one ends before the next one starts.
pub proof fn lemma_page_ranges_disjoint(page_size: int, i: int, j: int)
    requires
        FILE_HEADER_LEN < page_size,
        0 <= i < j,
    ensures
        spec_page_start(page_size, i) <= spec_page_end(page_size, i),
        spec_page_end(page_size, i) < spec_page_start(page_size, j),
{
    assert((i + 1) * page_size <= j * page_size) by (nonlinear_arith)
        requires
            i + 1 <= j,
            0 < page_size,
    ;
    assert(i * page_size + page_size == (i + 1) * page_size) by (nonlinear_arith);
    assert(0 <= i * page_size) by (nonlinear_arith)
        requires
            0 <= i,
            0 < page_size,
    ;
}

impl BTreePageType {
    pub fn from_byte(b: u8) -> (t: BTreePageType)
        ensures
            t == spec_page_type(b),
            b == 0x0d ==> t == BTreePageType::LeafTable,
            b != 0x02 && b != 0x05 && b != 0x0a && b != 0x0d ==> t == BTreePageType::Unknown,
    {
        if b == 0x02 {
            BTreePageType::InteriorIndex
        } else if b == 0x05 {
            BTreePageType::InteriorTable
        } else if b == 0x0a {
            BTreePageType::LeafIndex
        } else if b == 0x0d {
            BTreePageType::LeafTable
        } else {
            BTreePageType::Unknown
        }
    }

    /// Length of the page header of this type, type byte included; 0 where
    /// the page is no B-tree page.
    pub open spec fn spec_header_len(self) -> int {
        match self {
            BTreePageType::InteriorIndex | BTreePageType::InteriorTable => INTERIOR_HEADER_LEN as int,
            BTreePageType::LeafIndex | BTreePageType::LeafTable => LEAF_HEADER_LEN as int,
            BTreePageType::Unknown => 0,
        }
    }

    pub open spec fn spec_is_interior(self) -> bool {
        self is InteriorIndex || self is InteriorTable
    }
}

impl BTreePageHeader {
    /// Offset, within the page, at which the cell content starts.
    pub fn cell_content_start(&self) -> (r: u32)
        ensures
            r == if self.cell_content_start_offset == 0 {
                0x1_0000
            } else {
                self.cell_content_start_offset as int
            },
    {
        if self.cell_content_start_offset == 0 {
            0x1_0000
        } else {
            self.cell_content_start_offset as u32
        }
    }
}

/// Classifies the page with index `page_index` and gives its byte range.
/// The file is read, never written.
pub fn describe_page(data: &[u8], header: &DbFile, page_index: u32) -> (r: Result<Page, DbError>)
    requires
        header.wf(),
    ensures
        r == spec_describe_page(data@, *header, page_index as int),
{
    let page_size = header.database_page_size as u64;
    let index = page_index as u64;
    assert(index * page_size + page_size <= 0xffff_ffff * 0x1_0000 + 0x1_0000) by (nonlinear_arith)
        requires
            0 <= index <= 0xffff_ffff,
            0 < page_size <= 0x1_0000,
    ;
    assert((index + 1) * page_size == index * page_size + page_size) by (nonlinear_arith);
    let start: u64 = if page_index == 0 {
        FILE_HEADER_LEN as u64
    } else {
        index * page_size
    };
    let end: u64 = (index + 1) * page_size - 1;
    if start >= data.len() as u64 {
        return Err(DbError::TruncatedPage);
    }
    let page_type = BTreePageType::from_byte(data[start as usize]);
    Ok(Page { page_type, page_hdr_idx: start, page_end_idx: end })
}

/// Reads the header of a B-tree page: eight bytes on a leaf page, twelve on
/// an interior page, the type byte counted in.
pub fn read_btree_page_header(data: &[u8], page: &Page) -> (r: Result<BTreePageHeader, DbError>)
    ensures
        r == spec_read_page_header(data@, *page),
{
    let interior = match page.page_type {
        BTreePageType::InteriorIndex | BTreePageType::InteriorTable => true,
        BTreePageType::LeafIndex | BTreePageType::LeafTable => false,
        BTreePageType::Unknown => {
            return Err(DbError::UnexpectedPageType);
        },
    };
    let header_len = if interior {
        INTERIOR_HEADER_LEN
    } else {
        LEAF_HEADER_LEN
    };
    let len = data.len() as u64;
    if page.page_hdr_idx > len || len - page.page_hdr_idx < header_len {
        return Err(DbError::TruncatedPage);
    }
    let at = page.page_hdr_idx as usize;
    let mut cursor = ByteCursor::new(data, at + 1);
    let first_freeblock_offset = match cursor.read_u16() {
        Some(v) => v,
        None => {
            return Err(DbError::TruncatedPage);
        },
    };
    let cell_count = match cursor.read_u16() {
        Some(v) => v,
        None => {
            return Err(DbError::TruncatedPage);
        },
    };
    let cell_content_start_offset = match cursor.read_u16() {
        Some(v) => v,
        None => {
            return Err(DbError::TruncatedPage);
        },
    };
    let fragmented_free_bytes = match cursor.read_u8() {
        Some(v) => v,
        None => {
            return Err(DbError::TruncatedPage);
        },
    };
    let right_most_pointer = if interior {
        match cursor.read_u32() {
            Some(v) => Some(v),
            None => {
                return Err(DbError::TruncatedPage);
            },
        }
    } else {
        None
    };
    Ok(
        BTreePageHeader {
            first_freeblock_offset,
            cell_count,
            cell_content_start_offset,
            fragmented_free_bytes,
            right_most_pointer,
        },
    )
}

/// Reads `count` cell pointers from offset `at` on, keeping their order.
pub fn read_cell_pointers(data: &[u8], at: usize, count: u16) -> (r: Result<Vec<u16>, DbError>)
    ensures
        match spec_cell_pointers(data@, at as int, count as int) {
            Ok(pointers) => r matches Ok(v) && v@ == pointers,
            Err(e) => r matches Err(re) && re == e,
        },
{
    let len = data.len();
    if at > len || len - at < 2 * (count as usize) {
        return Err(DbError::TruncatedPage);
    }
    let mut cursor = ByteCursor::new(data, at);
    let mut pointers: Vec<u16> = Vec::new();
    let mut i: u16 = 0;
    while i < count
        invariant
            i <= count,
            at + 2 * count <= data@.len(),
            cursor.spec_bytes() == data@,
            cursor.spec_position() == at + 2 * i,
            pointers@.len() == i,
            forall|j: int| 0 <= j < i ==> pointers@[j] == spec_be_u16(data@, at + 2 * j) as u16,
        decreases count - i,
    {
        match cursor.read_u16() {
            Some(v) => {
                pointers.push(v);
            },
            None => {
                return Err(DbError::TruncatedPage);
            },
        }
        i += 1;
    }
    assert(pointers@ =~= spec_cell_pointers(data@, at as int, count as int).unwrap());
    Ok(pointers)
}

/// Reads the header of the schema page and the cell pointers that follow it.
/// The pointers count from the start of the page, which for this page is the
/// start of the file.
pub fn read_schema_page(data: &[u8], header: &DbFile) -> (r: Result<
    (BTreePageHeader, Vec<u16>),
    DbError,
>)
    requires
        header.wf(),
    ensures
        match spec_read_schema_page(data@, *header) {
            Ok((h, pointers)) => r matches Ok((rh, rp)) && rh == h && rp@ == pointers,
            Err(e) => r matches Err(re) && re == e,
        },
{
    let page = match describe_page(data, header, 0) {
        Ok(p) => p,
        Err(e) => {
            return Err(e);
        },
    };
    match page.page_type {
        BTreePageType::LeafTable => {},
        _ => {
            return Err(DbError::UnexpectedPageType);
        },
    }
    let page_header = match read_btree_page_header(data, &page) {
        Ok(h) => h,
        Err(e) => {
            return Err(e);
        },
    };
    let at = page.page_hdr_idx as usize + LEAF_HEADER_LEN as usize;
    match read_cell_pointers(data, at, page_header.cell_count) {
        Ok(pointers) => Ok((page_header, pointers)),
        Err(e) => Err(e),
    }
}

} // verus!
