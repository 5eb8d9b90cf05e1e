//! A read cursor over the bytes of a file, with the fixed-width big-endian
//! reads and the variable-length integer read that the decoders are built on.

use crate::sqlite_varint_processing::{
    lemma_decode_window, lemma_group_limit_monotonic, lemma_group_limit_values,
    lemma_seven_bit_groups_bound, lemma_varint_last_bounds, process_sqlite_varint,
    spec_decode_varint, spec_varint_last, VarintError, MAX_VARINT_LEN,
};
use byteorder::{BigEndian, ByteOrder};
use vstd::prelude::*;
use vstd::slice::{slice_subrange, slice_to_vec};
use vstd::utf8::{decode_utf8, valid_utf8};

verus! {

/// The two bytes of `s` from `at` on as a big-endian number.
pub open spec fn spec_be_u16(s: Seq<u8>, at: int) -> int {
    s[at] as int * 0x100 + s[at + 1] as int
}

/// The four bytes of `s` from `at` on as a big-endian number.
pub open spec fn spec_be_u32(s: Seq<u8>, at: int) -> int {
    s[at] as int * 0x100_0000 + s[at + 1] as int * 0x1_0000 + s[at + 2] as int * 0x100 + s[at
        + 3] as int
}

/// What of `s` lies at and after `pos`: nothing where `pos` is outside `s`.
pub open spec fn spec_bytes_from(s: Seq<u8>, pos: int) -> Seq<u8> {
    if 0 <= pos <= s.len() {
        s.skip(pos)
    } else {
        Seq::empty()
    }
}

/// Value and length of the variable-length integer that starts at `pos` in `s`.
pub open spec fn spec_varint_at(s: Seq<u8>, pos: int) -> Option<(int, int)> {
    spec_decode_varint(spec_bytes_from(s, pos))
}

/// An integer that starts at `pos` lies inside `s`, is one to nine bytes
/// long and fits 64 bits.
pub proof fn lemma_varint_at_bounds(s: Seq<u8>, pos: int)
    ensures
        spec_varint_at(s, pos) matches Some((value, len)) ==> {
            &&& 0 <= pos
            &&& 1 <= len <= 9
            &&& pos + len <= s.len()
            &&& i64::MIN <= value <= i64::MAX
        },
{
    let rest = spec_bytes_from(s, pos);
    lemma_varint_last_bounds(rest, 0);
    match spec_varint_last(rest, 0) {
        Some(last) => {
            lemma_group_limit_values();
            if last + 1 <= 8 {
                lemma_seven_bit_groups_bound(rest, last + 1);
                lemma_group_limit_monotonic(last + 1, 8);
            } else {
                lemma_seven_bit_groups_bound(rest, 8);
            }
        },
        None => {},
    }
}

/// `byteorder::BigEndian::read_u16`: the number that the first two bytes of
/// `buf` hold, most significant byte first. It panics on a shorter `buf`.
#[verifier::external_body]
fn be_read_u16(buf: &[u8]) -> (r: u16)
    requires
        buf@.len() >= 2,
    ensures
        r as int == spec_be_u16(buf@, 0),
{
    BigEndian::read_u16(buf)
}

/// `byteorder::BigEndian::read_u32`: the number that the first four bytes of
/// `buf` hold, most significant byte first. It panics on a shorter `buf`.
#[verifier::external_body]
fn be_read_u32(buf: &[u8]) -> (r: u32)
    requires
        buf@.len() >= 4,
    ensures
        r as int == spec_be_u32(buf@, 0),
{
    BigEndian::read_u32(buf)
}

/// `String::from_utf8`: the text that `bytes` encode in UTF-8, or `None`
/// where they are not valid UTF-8.
#[verifier::external_body]
pub(crate) fn string_from_utf8(bytes: Vec<u8>) -> (r: Option<String>)
    ensures
        r is Some <==> valid_utf8(bytes@),
        r matches Some(text) ==> text@ == decode_utf8(bytes@),
{
    match String::from_utf8(bytes) {
        Ok(text) => Some(text),
        Err(_) => None,
    }
}

/// A position in a borrowed run of bytes. Reads start at the position and
/// move it past what they read; a read that fails leaves it where it was.
pub struct ByteCursor<'a> {
    data: &'a [u8],
    pos: usize,
}

/// Reading one variable-length integer from a byte source.
pub trait ReadSQLiteBigEndianVarint {
    /// The bytes that are still to be read.
    spec fn spec_remaining(&self) -> Seq<u8>;

    /// Reads the integer at the front of the source and returns it with the
    /// number of bytes it took, which the source then has behind it.
    fn read_sqlite_be_varint(&mut self) -> (r: Result<(i64, usize), VarintError>)
        ensures
            match spec_decode_varint(old(self).spec_remaining()) {
                Some((value, len)) => {
                    &&& r matches Ok((v, n))
                    &&& v == value
                    &&& n == len
                    &&& final(self).spec_remaining() == old(self).spec_remaining().skip(len)
                },
                None => {
                    &&& r == Err::<(i64, usize), VarintError>(VarintError::IncompleteVarint)
                    &&& final(self).spec_remaining() == old(self).spec_remaining()
                },
            },
    ;
}

impl<'a> ByteCursor<'a> {
    /// All the bytes under the cursor, read or not.
    pub closed spec fn spec_bytes(&self) -> Seq<u8> {
        self.data@
    }

    /// The offset of the next byte to be read.
    pub closed spec fn spec_position(&self) -> int {
        self.pos as int
    }

    /// A cursor over `data` that stands at `pos`, which may lie past the end.
    pub fn new(data: &'a [u8], pos: usize) -> (c: Self)
        ensures
            c.spec_bytes() == data@,
            c.spec_position() == pos,
    {
        ByteCursor { data, pos }
    }

    pub fn position(&self) -> (p: usize)
        ensures
            p == self.spec_position(),
    {
        self.pos
    }

    /// Moves the cursor to `pos`.
    pub fn seek(&mut self, pos: usize)
        ensures
            final(self).spec_bytes() == old(self).spec_bytes(),
            final(self).spec_position() == pos,
    {
        self.pos = pos;
    }

    /// The next byte, or `None` at or past the end.
    pub fn read_u8(&mut self) -> (r: Option<u8>)
        ensures
            final(self).spec_bytes() == old(self).spec_bytes(),
            match r {
                Some(b) => {
                    &&& old(self).spec_position() < old(self).spec_bytes().len()
                    &&& b == old(self).spec_bytes()[old(self).spec_position()]
                    &&& final(self).spec_position() == old(self).spec_position() + 1
                },
                None => {
                    &&& old(self).spec_position() >= old(self).spec_bytes().len()
                    &&& final(self).spec_position() == old(self).spec_position()
                },
            },
    {
        if self.pos < self.data.len() {
            let b = self.data[self.pos];
            self.pos = self.pos + 1;
            Some(b)
        } else {
            None
        }
    }

    /// The next two bytes as a big-endian number, or `None` where fewer are left.
    pub fn read_u16(&mut self) -> (r: Option<u16>)
        ensures
            final(self).spec_bytes() == old(self).spec_bytes(),
            match r {
                Some(v) => {
                    &&& old(self).spec_position() + 2 <= old(self).spec_bytes().len()
                    &&& v == spec_be_u16(old(self).spec_bytes(), old(self).spec_position())
                    &&& final(self).spec_position() == old(self).spec_position() + 2
                },
                None => {
                    &&& old(self).spec_position() + 2 > old(self).spec_bytes().len()
                    &&& final(self).spec_position() == old(self).spec_position()
                },
            },
    {
        let len = self.data.len();
        if self.pos <= len && len - self.pos >= 2 {
            let v = be_read_u16(slice_subrange(self.data, self.pos, self.pos + 2));
            self.pos = self.pos + 2;
            Some(v)
        } else {
            None
        }
    }

    /// The next four bytes as a big-endian number, or `None` where fewer are left.
    pub fn read_u32(&mut self) -> (r: Option<u32>)
        ensures
            final(self).spec_bytes() == old(self).spec_bytes(),
            match r {
                Some(v) => {
                    &&& old(self).spec_position() + 4 <= old(self).spec_bytes().len()
                    &&& v == spec_be_u32(old(self).spec_bytes(), old(self).spec_position())
                    &&& final(self).spec_position() == old(self).spec_position() + 4
                },
                None => {
                    &&& old(self).spec_position() + 4 > old(self).spec_bytes().len()
                    &&& final(self).spec_position() == old(self).spec_position()
                },
            },
    {
        let len = self.data.len();
        if self.pos <= len && len - self.pos >= 4 {
            let v = be_read_u32(slice_subrange(self.data, self.pos, self.pos + 4));
            self.pos = self.pos + 4;
            Some(v)
        } else {
            None
        }
    }

    /// The next `n` bytes, or `None` where fewer are left.
    pub fn read_bytes(&mut self, n: usize) -> (r: Option<Vec<u8>>)
        ensures
            final(self).spec_bytes() == old(self).spec_bytes(),
            match r {
                Some(v) => {
                    &&& old(self).spec_position() + n <= old(self).spec_bytes().len()
                    &&& v@ == old(self).spec_bytes().subrange(
                        old(self).spec_position(),
                        old(self).spec_position() + n,
                    )
                    &&& final(self).spec_position() == old(self).spec_position() + n
                },
                None => {
                    &&& old(self).spec_position() + n > old(self).spec_bytes().len()
                    &&& final(self).spec_position() == old(self).spec_position()
                },
            },
    {
        let len = self.data.len();
        if self.pos <= len && len - self.pos >= n {
            let v = slice_to_vec(slice_subrange(self.data, self.pos, self.pos + n));
            self.pos = self.pos + n;
            Some(v)
        } else {
            None
        }
    }
}

impl<'a> ReadSQLiteBigEndianVarint for ByteCursor<'a> {
    open spec fn spec_remaining(&self) -> Seq<u8> {
        spec_bytes_from(self.spec_bytes(), self.spec_position())
    }

    fn read_sqlite_be_varint(&mut self) -> (r: Result<(i64, usize), VarintError>)
        ensures
            final(self).spec_bytes() == old(self).spec_bytes(),
            match r {
                Ok((_, n)) => final(self).spec_position() == old(self).spec_position() + n,
                Err(_) => final(self).spec_position() == old(self).spec_position(),
            },
    {
        let len = self.data.len();
        let start = if self.pos <= len { self.pos } else { len };
        let end = if len - start > MAX_VARINT_LEN { start + MAX_VARINT_LEN } else { len };
        let window = slice_to_vec(slice_subrange(self.data, start, end));
        proof {
            lemma_decode_window(self.spec_remaining(), window@);
            lemma_varint_last_bounds(window@, 0);
        }
        match process_sqlite_varint(window) {
            Ok((value, n)) => {
                self.pos = self.pos + n;
                assert(self.spec_remaining() =~= old(self).spec_remaining().skip(n as int));
                Ok((value, n))
            },
            Err(e) => Err(e),
        }
    }
}

} // verus!
