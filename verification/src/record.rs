//! Cells of a leaf table page: the record header with its column types, and
//! the column values that follow it.

use crate::error::DbError;
use crate::sqlite_varint_processing::{as_unsigned, spec_as_unsigned};
use crate::util::{
    lemma_varint_at_bounds, spec_bytes_from, spec_varint_at, ByteCursor,
    ReadSQLiteBigEndianVarint,
};
use vstd::prelude::*;

verus! {

/// The type of one column of a record, which fixes how many bytes its value
/// takes and how they are to be read.
#[derive(Debug, Clone, Copy, PartialEq, Eq, Structural)]
pub enum ColumnType {
    Null,
    Int8,
    Int16,
    Int24,
    Int32,
    Int48,
    Int64,
    Float64,
    /// The integer 0, stored in no bytes.
    ZeroAsInt,
    /// The integer 1, stored in no bytes.
    OneAsInt,
    /// Set aside by the format; no record holds it.
    Reserved,
    /// Raw bytes, of the given length.
    Blob(u64),
    /// Text, of the given length in bytes.
    Text(u64),
}

/// One decoded row of a table.
#[derive(Debug, Clone, PartialEq, Eq)]
pub struct Record {
    /// Length of the record in bytes, header and values together.
    pub payload_length: u64,
    pub row_id: u64,
    /// Length of the record header in bytes, its own length field counted in.
    pub header_length: u64,
    pub column_types: Vec<ColumnType>,
    /// The bytes of each column as stored, one entry for each column type.
    pub column_values: Vec<Vec<u8>>,
}

/// What a `Record` holds, as mathematical values.
pub struct RecordView {
    pub payload_length: u64,
    pub row_id: u64,
    pub header_length: u64,
    pub column_types: Seq<ColumnType>,
    pub column_values: Seq<Seq<u8>>,
}

/// The header of a record: its declared length, the column types it lists
/// and the number of bytes it was read from.
#[derive(Debug, Clone, PartialEq, Eq)]
pub struct RecordHeader {
    pub header_length: u64,
    pub column_types: Vec<ColumnType>,
    pub bytes_read: usize,
}

/// The contents of a list of byte buffers.
pub open spec fn spec_buffers(v: Seq<Vec<u8>>) -> Seq<Seq<u8>> {
    Seq::new(v.len(), |i: int| v[i]@)
}

impl View for Record {
    type V = RecordView;

    open spec fn view(&self) -> RecordView {
        RecordView {
            payload_length: self.payload_length,
            row_id: self.row_id,
            header_length: self.header_length,
            column_types: self.column_types@,
            column_values: spec_buffers(self.column_values@),
        }
    }
}

/// `rest` with `done` put in front of it, where `rest` is no error.
pub open spec fn spec_after<T>(done: Seq<T>, rest: Result<Seq<T>, DbError>) -> Result<
    Seq<T>,
    DbError,
> {
    match rest {
        Ok(r) => Ok(done + r),
        Err(e) => Err(e),
    }
}

/// The column types listed from offset `pos` on, where `read` bytes of a
/// header of `length` bytes lie before `pos`. A type code that is cut short
/// or runs past the end of the header is `IncompleteVarint`; one that stands
/// for no type is `InvalidSerialType`; the first fault met decides.
pub open spec fn spec_column_types(s: Seq<u8>, pos: int, read: int, length: int) -> Result<
    Seq<ColumnType>,
    DbError,
>
    decreases s.len() - pos,
    via spec_column_types_decreases
{
    if read == length {
        Ok(Seq::empty())
    } else if read > length {
        Err(DbError::IncompleteVarint)
    } else {
        match spec_varint_at(s, pos) {
            None => Err(DbError::IncompleteVarint),
            Some((code, n)) => match spec_column_type(code) {
                None => Err(DbError::InvalidSerialType),
                Some(t) => spec_after(seq![t], spec_column_types(s, pos + n, read + n, length)),
            },
        }
    }
}

#[via_fn]
proof fn spec_column_types_decreases(s: Seq<u8>, pos: int, read: int, length: int) {
    lemma_varint_at_bounds(s, pos);
}

/// The record header that starts at offset `start`: its declared length and
/// its column types.
pub open spec fn spec_record_header(s: Seq<u8>, start: int) -> Result<
    (int, Seq<ColumnType>),
    DbError,
> {
    match spec_varint_at(s, start) {
        None => Err(DbError::IncompleteVarint),
        Some((length, n)) => match spec_column_types(
            s,
            start + n,
            n,
            spec_as_unsigned(length),
        ) {
            Err(e) => Err(e),
            Ok(types) => Ok((spec_as_unsigned(length), types)),
        },
    }
}

/// Number of bytes that the values of the first `n` columns take together.
pub open spec fn spec_values_end(types: Seq<ColumnType>, n: int) -> int
    decreases n,
{
    if n <= 0 {
        0
    } else {
        spec_values_end(types, n - 1) + types[n - 1].spec_width()
    }
}

/// The values of the columns `types`, stored one after the other from
/// offset `pos` on; `TruncatedPage` where `s` ends before the last of them.
pub open spec fn spec_column_values(s: Seq<u8>, pos: int, types: Seq<ColumnType>) -> Result<
    Seq<Seq<u8>>,
    DbError,
> {
    if pos + spec_values_end(types, types.len() as int) > s.len() {
        Err(DbError::TruncatedPage)
    } else {
        Ok(
            Seq::new(
                types.len(),
                |i: int|
                    s.subrange(pos + spec_values_end(types, i), pos + spec_values_end(types, i + 1)),
            ),
        )
    }
}

/// The record in the cell at offset `pointer`: the payload length, the row
/// id, the record header and then the values, which follow the header.
pub open spec fn spec_decode_cell(s: Seq<u8>, pointer: int) -> Result<RecordView, DbError> {
    match spec_varint_at(s, pointer) {
        None => Err(DbError::IncompleteVarint),
        Some((payload_length, n1)) => match spec_varint_at(s, pointer + n1) {
            None => Err(DbError::IncompleteVarint),
            Some((row_id, n2)) => match spec_record_header(s, pointer + n1 + n2) {
                Err(e) => Err(e),
                Ok((header_length, types)) => match spec_column_values(
                    s,
                    pointer + n1 + n2 + header_length,
                    types,
                ) {
                    Err(e) => Err(e),
                    Ok(values) => Ok(
                        RecordView {
                            payload_length: spec_as_unsigned(payload_length) as u64,
                            row_id: spec_as_unsigned(row_id) as u64,
                            header_length: header_length as u64,
                            column_types: types,
                            column_values: values,
                        },
                    ),
                },
            },
        },
    }
}

/// `256` to the power `n`.
pub open spec fn spec_byte_limit(n: int) -> int
    decreases n,
{
    if n <= 0 {
        1
    } else {
        256 * spec_byte_limit(n - 1)
    }
}

/// The first `n` bytes of `s` as an unsigned big-endian number.
pub open spec fn spec_be_unsigned(s: Seq<u8>, n: int) -> int
    decreases n,
{
    if n <= 0 {
        0
    } else {
        spec_be_unsigned(s, n - 1) * 256 + s[n - 1] as int
    }
}

/// The bytes of `s` as a big-endian two's-complement number of their width.
pub open spec fn spec_be_signed(s: Seq<u8>) -> int {
    if s.len() > 0 && s[0] >= 0x80 {
        spec_be_unsigned(s, s.len() as int) - spec_byte_limit(s.len() as int)
    } else {
        spec_be_unsigned(s, s.len() as int)
    }
}

/// The integer that a column holds: for the integer types the stored bytes
/// as a signed number, for the two constant types the constant. `None` for
/// the other types and for a value of the wrong width.
pub open spec fn spec_int_value(t: ColumnType, bytes: Seq<u8>) -> Option<int> {
    match t {
        ColumnType::Int8
        | ColumnType::Int16
        | ColumnType::Int24
        | ColumnType::Int32
        | ColumnType::Int48
        | ColumnType::Int64 => if bytes.len() == t.spec_width() {
            Some(spec_be_signed(bytes))
        } else {
            None
        },
        ColumnType::ZeroAsInt => Some(0),
        ColumnType::OneAsInt => Some(1),
        _ => None,
    }
}

/// The 64 bits of a floating-point column, most significant byte first:
/// `None` for the other types and for a value of the wrong width.
pub open spec fn spec_float_bits(t: ColumnType, bytes: Seq<u8>) -> Option<int> {
    if t is Float64 && bytes.len() == 8 {
        Some(spec_be_unsigned(bytes, 8))
    } else {
        None
    }
}

/// The column type that a type code stands for, if it stands for one.
pub open spec fn spec_column_type(code: int) -> Option<ColumnType> {
    if code < 0 || code == 10 || code == 11 {
        None
    } else if code == 0 {
        Some(ColumnType::Null)
    } else if code == 1 {
        Some(ColumnType::Int8)
    } else if code == 2 {
        Some(ColumnType::Int16)
    } else if code == 3 {
        Some(ColumnType::Int24)
    } else if code == 4 {
        Some(ColumnType::Int32)
    } else if code == 5 {
        Some(ColumnType::Int48)
    } else if code == 6 {
        Some(ColumnType::Int64)
    } else if code == 7 {
        Some(ColumnType::Float64)
    } else if code == 8 {
        Some(ColumnType::ZeroAsInt)
    } else if code == 9 {
        Some(ColumnType::OneAsInt)
    } else if code % 2 == 0 {
        Some(ColumnType::Blob(((code - 12) / 2) as u64))
    } else {
        Some(ColumnType::Text(((code - 13) / 2) as u64))
    }
}

impl ColumnType {
    /// Number of bytes that a value of this type takes in a record.
    pub open spec fn spec_width(self) -> int {
        match self {
            ColumnType::Null => 0,
            ColumnType::Int8 => 1,
            ColumnType::Int16 => 2,
            ColumnType::Int24 => 3,
            ColumnType::Int32 => 4,
            ColumnType::Int48 => 6,
            ColumnType::Int64 => 8,
            ColumnType::Float64 => 8,
            ColumnType::ZeroAsInt => 0,
            ColumnType::OneAsInt => 0,
            ColumnType::Reserved => 0,
            ColumnType::Blob(n) => n as int,
            ColumnType::Text(n) => n as int,
        }
    }

    /// The column type for a type code. Codes 10 and 11 are reserved and
    /// negative codes stand for nothing: both are `InvalidSerialType`.
    pub fn from_code(code: i64) -> (r: Result<ColumnType, DbError>)
        ensures
            match spec_column_type(code as int) {
                Some(t) => r == Ok::<ColumnType, DbError>(t),
                None => r == Err::<ColumnType, DbError>(DbError::InvalidSerialType),
            },
            code == 12 ==> r == Ok::<ColumnType, DbError>(ColumnType::Blob(0)),
            code == 13 ==> r == Ok::<ColumnType, DbError>(ColumnType::Text(0)),
            code == 10 || code == 11 ==> r == Err::<ColumnType, DbError>(
                DbError::InvalidSerialType,
            ),
            r matches Ok(t) ==> !(t is Reserved),
    {
        if code < 0 || code == 10 || code == 11 {
            Err(DbError::InvalidSerialType)
        } else if code == 0 {
            Ok(ColumnType::Null)
        } else if code == 1 {
            Ok(ColumnType::Int8)
        } else if code == 2 {
            Ok(ColumnType::Int16)
        } else if code == 3 {
            Ok(ColumnType::Int24)
        } else if code == 4 {
            Ok(ColumnType::Int32)
        } else if code == 5 {
            Ok(ColumnType::Int48)
        } else if code == 6 {
            Ok(ColumnType::Int64)
        } else if code == 7 {
            Ok(ColumnType::Float64)
        } else if code == 8 {
            Ok(ColumnType::ZeroAsInt)
        } else if code == 9 {
            Ok(ColumnType::OneAsInt)
        } else {
            let c = code as u64;
            if c % 2 == 0 {
                Ok(ColumnType::Blob((c - 12) / 2))
            } else {
                Ok(ColumnType::Text((c - 13) / 2))
            }
        }
    }

    pub fn width(&self) -> (w: u64)
        ensures
            w == self.spec_width(),
    {
        match self {
            ColumnType::Null => 0,
            ColumnType::Int8 => 1,
            ColumnType::Int16 => 2,
            ColumnType::Int24 => 3,
            ColumnType::Int32 => 4,
            ColumnType::Int48 => 6,
            ColumnType::Int64 => 8,
            ColumnType::Float64 => 8,
            ColumnType::ZeroAsInt => 0,
            ColumnType::OneAsInt => 0,
            ColumnType::Reserved => 0,
            ColumnType::Blob(n) => *n,
            ColumnType::Text(n) => *n,
        }
    }
}

pub proof fn lemma_byte_limit_values()
    ensures
        spec_byte_limit(0) == 1,
        spec_byte_limit(1) == 0x100,
        spec_byte_limit(2) == 0x1_0000,
        spec_byte_limit(3) == 0x100_0000,
        spec_byte_limit(4) == 0x1_0000_0000,
        spec_byte_limit(5) == 0x100_0000_0000,
        spec_byte_limit(6) == 0x1_0000_0000_0000,
        spec_byte_limit(7) == 0x100_0000_0000_0000,
        spec_byte_limit(8) == 0x1_0000_0000_0000_0000,
{
    reveal_with_fuel(spec_byte_limit, 9);
}

pub proof fn lemma_be_unsigned_bound(s: Seq<u8>, n: int)
    requires
        0 <= n,
    ensures
        0 <= spec_be_unsigned(s, n) < spec_byte_limit(n),
    decreases n,
{
    if n > 0 {
        lemma_be_unsigned_bound(s, n - 1);
    }
}

/// A signed number of `n` bytes lies in the range of `n` bytes.
pub proof fn lemma_be_signed_range(s: Seq<u8>)
    requires
        s.len() > 0,
    ensures
        -spec_byte_limit(s.len() as int) <= 2 * spec_be_signed(s) < spec_byte_limit(
            s.len() as int,
        ),
{
    lemma_be_signed_prefix_range(s, s.len() as int);
}

/// The first `n` bytes of `s`, less `256` to the `n` where the first byte
/// has its high bit set, stay in the signed range of `n` bytes.
proof fn lemma_be_signed_prefix_range(s: Seq<u8>, n: int)
    requires
        1 <= n <= s.len(),
    ensures
        -spec_byte_limit(n) <= 2 * (spec_be_unsigned(s, n) - if s[0] >= 0x80 {
            spec_byte_limit(n)
        } else {
            0
        }) < spec_byte_limit(n),
    decreases n,
{
    if n > 1 {
        lemma_be_signed_prefix_range(s, n - 1);
    } else {
        reveal_with_fuel(spec_byte_limit, 2);
        reveal_with_fuel(spec_be_unsigned, 2);
    }
}

/// Reads the value of an integer column, extending the sign from the width
/// of the column type to 64 bits.
pub fn int_value(column_type: &ColumnType, bytes: &[u8]) -> (r: Option<i64>)
    ensures
        match spec_int_value(*column_type, bytes@) {
            Some(v) => r == Some(v as i64) && i64::MIN <= v <= i64::MAX,
            None => r is None,
        },
{
    match column_type {
        ColumnType::ZeroAsInt => {
            return Some(0);
        },
        ColumnType::OneAsInt => {
            return Some(1);
        },
        ColumnType::Int8
        | ColumnType::Int16
        | ColumnType::Int24
        | ColumnType::Int32
        | ColumnType::Int48
        | ColumnType::Int64 => {},
        _ => {
            return None;
        },
    }
    let width = column_type.width();
    let len = bytes.len();
    if len as u64 != width {
        return None;
    }
    let first = bytes[0];
    let mut value: i64 = if first >= 0x80 {
        first as i64 - 0x100
    } else {
        first as i64
    };
    let mut i: usize = 1;
    proof {
        reveal_with_fuel(spec_byte_limit, 2);
        reveal_with_fuel(spec_be_unsigned, 2);
    }
    while i < len
        invariant
            1 <= i <= len <= 8,
            len == bytes@.len(),
            value == spec_be_unsigned(bytes@, i as int) - if bytes@[0] >= 0x80 {
                spec_byte_limit(i as int)
            } else {
                0
            },
        decreases len - i,
    {
        proof {
            lemma_be_signed_prefix_range(bytes@, i as int);
            lemma_be_signed_prefix_range(bytes@, i + 1);
            lemma_byte_limit_values();
        }
        value = value * 0x100 + bytes[i] as i64;
        i += 1;
    }
    proof {
        lemma_be_signed_range(bytes@);
        lemma_byte_limit_values();
    }
    Some(value)
}

/// Reads the 64 bits of a floating-point column.
pub fn float_bits(column_type: &ColumnType, bytes: &[u8]) -> (r: Option<u64>)
    ensures
        match spec_float_bits(*column_type, bytes@) {
            Some(v) => r == Some(v as u64) && 0 <= v <= u64::MAX,
            None => r is None,
        },
{
    match column_type {
        ColumnType::Float64 => {},
        _ => {
            return None;
        },
    }
    if bytes.len() != 8 {
        return None;
    }
    let mut bits: u64 = 0;
    let mut i: usize = 0;
    while i < 8
        invariant
            i <= 8,
            bytes@.len() == 8,
            bits == spec_be_unsigned(bytes@, i as int),
        decreases 8 - i,
    {
        proof {
            lemma_be_unsigned_bound(bytes@, i as int);
            lemma_be_unsigned_bound(bytes@, i + 1);
            lemma_byte_limit_values();
        }
        bits = bits * 0x100 + bytes[i] as u64;
        i += 1;
    }
    proof {
        lemma_be_unsigned_bound(bytes@, 8);
        lemma_byte_limit_values();
    }
    Some(bits)
}

pub proof fn lemma_values_end_monotonic(types: Seq<ColumnType>, m: int, n: int)
    requires
        0 <= m <= n,
    ensures
        0 <= spec_values_end(types, m) <= spec_values_end(types, n),
    decreases n,
{
    if m < n {
        lemma_values_end_monotonic(types, m, n - 1);
    } else if n > 0 {
        lemma_values_end_monotonic(types, m - 1, n - 1);
    }
}

/// Reads the record header that starts at offset `start`. On success the
/// number of bytes read is the length that the header declares.
pub fn decode_record_header(data: &[u8], start: usize) -> (r: Result<RecordHeader, DbError>)
    ensures
        match spec_record_header(data@, start as int) {
            Ok((length, types)) => {
                &&& r matches Ok(h)
                &&& h.header_length == length
                &&& h.column_types@ == types
                &&& h.bytes_read == length
                &&& start + length <= data@.len()
            },
            Err(e) => r matches Err(re) && re == e,
        },
{
    let len = data.len();
    let mut cursor = ByteCursor::new(data, start);
    proof {
        lemma_varint_at_bounds(data@, start as int);
    }
    let (length, first) = match cursor.read_sqlite_be_varint() {
        Ok(vn) => vn,
        Err(e) => {
            return Err(DbError::from_varint(e));
        },
    };
    let header_length = as_unsigned(length);
    let mut read: usize = first;
    let mut column_types: Vec<ColumnType> = Vec::new();
    assert(spec_after(
        column_types@,
        spec_column_types(data@, start + read, read as int, header_length as int),
    ) == spec_column_types(data@, start + first, first as int, header_length as int)) by {
        let rest = spec_column_types(data@, start + read, read as int, header_length as int);
        if let Ok(r) = rest {
            assert(column_types@ + r =~= r);
        }
    }
    while (read as u64) < header_length
        invariant
            cursor.spec_bytes() == data@,
            cursor.spec_position() == start + read,
            start + read <= len == data@.len(),
            spec_varint_at(data@, start as int) == Some((length as int, first as int)),
            header_length == spec_as_unsigned(length as int),
            spec_after(
                column_types@,
                spec_column_types(data@, start + read, read as int, header_length as int),
            ) == spec_column_types(data@, start + first, first as int, header_length as int),
        decreases data@.len() - (start + read),
    {
        proof {
            lemma_varint_at_bounds(data@, start + read);
        }
        let (code, n) = match cursor.read_sqlite_be_varint() {
            Ok(vn) => vn,
            Err(e) => {
                return Err(DbError::from_varint(e));
            },
        };
        let column_type = match ColumnType::from_code(code) {
            Ok(t) => t,
            Err(e) => {
                return Err(e);
            },
        };
        proof {
            let rest = spec_column_types(
                data@,
                start + read + n,
                read + n,
                header_length as int,
            );
            if let Ok(r) = rest {
                assert(column_types@ + (seq![column_type] + r) =~= column_types@.push(column_type)
                    + r);
            }
        }
        column_types.push(column_type);
        read = read + n;
    }
    if read as u64 != header_length {
        return Err(DbError::IncompleteVarint);
    }
    assert(column_types@ + Seq::<ColumnType>::empty() =~= column_types@);
    Ok(RecordHeader { header_length, column_types, bytes_read: read })
}

/// Reads the values of the columns `types`, which lie one after the other
/// from offset `pos` on.
pub fn read_column_values(data: &[u8], pos: usize, types: &Vec<ColumnType>) -> (r: Result<
    Vec<Vec<u8>>,
    DbError,
>)
    ensures
        match spec_column_values(data@, pos as int, types@) {
            Ok(values) => r matches Ok(v) && spec_buffers(v@) == values,
            Err(e) => r matches Err(re) && re == e,
        },
{
    let len = data.len();
    proof {
        lemma_values_end_monotonic(types@, 0, types@.len() as int);
    }
    if pos > len {
        return Err(DbError::TruncatedPage);
    }
    let mut cursor = ByteCursor::new(data, pos);
    let mut values: Vec<Vec<u8>> = Vec::new();
    let mut i: usize = 0;
    while i < types.len()
        invariant
            i <= types@.len(),
            len == data@.len(),
            cursor.spec_bytes() == data@,
            cursor.spec_position() == pos + spec_values_end(types@, i as int),
            cursor.spec_position() <= len,
            values@.len() == i,
            forall|j: int|
                0 <= j < i ==> (#[trigger] values@[j])@ == data@.subrange(
                    pos + spec_values_end(types@, j),
                    pos + spec_values_end(types@, j + 1),
                ),
        decreases types@.len() - i,
    {
        let width = types[i].width();
        let at = cursor.position();
        proof {
            lemma_values_end_monotonic(types@, i + 1, types@.len() as int);
        }
        if width > (len - at) as u64 {
            return Err(DbError::TruncatedPage);
        }
        match cursor.read_bytes(width as usize) {
            Some(bytes) => {
                values.push(bytes);
            },
            None => {
                return Err(DbError::TruncatedPage);
            },
        }
        i += 1;
    }
    assert(spec_buffers(values@) =~= spec_column_values(data@, pos as int, types@).unwrap());
    Ok(values)
}

/// Decodes the cell at offset `pointer`: payload length, row id, record
/// header, then one value for each column type in the header.
pub fn decode_cell(data: &[u8], pointer: usize) -> (r: Result<Record, DbError>)
    ensures
        match spec_decode_cell(data@, pointer as int) {
            Ok(record) => r matches Ok(rec) && rec@ == record,
            Err(e) => r matches Err(re) && re == e,
        },
{
    let len = data.len();
    let mut cursor = ByteCursor::new(data, pointer);
    proof {
        lemma_varint_at_bounds(data@, pointer as int);
    }
    let (payload_length, n1) = match cursor.read_sqlite_be_varint() {
        Ok(vn) => vn,
        Err(e) => {
            return Err(DbError::from_varint(e));
        },
    };
    proof {
        lemma_varint_at_bounds(data@, pointer + n1);
    }
    let (row_id, n2) = match cursor.read_sqlite_be_varint() {
        Ok(vn) => vn,
        Err(e) => {
            return Err(DbError::from_varint(e));
        },
    };
    let header_start = cursor.position();
    assert(header_start <= len);
    let header = match decode_record_header(data, header_start) {
        Ok(h) => h,
        Err(e) => {
            return Err(e);
        },
    };
    let values = match read_column_values(
        data,
        header_start + header.bytes_read,
        &header.column_types,
    ) {
        Ok(v) => v,
        Err(e) => {
            return Err(e);
        },
    };
    Ok(
        Record {
            payload_length: as_unsigned(payload_length),
            row_id: as_unsigned(row_id),
            header_length: header.header_length,
            column_types: header.column_types,
            column_values: values,
        },
    )
}

} // verus!
