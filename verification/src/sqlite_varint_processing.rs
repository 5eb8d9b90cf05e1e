//! The variable-length integer codec: one to nine bytes, big-endian, seven
//! payload bits in each of the first eight bytes and eight in the ninth.

use vstd::arithmetic::div_mod::lemma_div_denominator;
use vstd::prelude::*;

verus! {

#[derive(Debug, Clone, Copy, PartialEq, Eq, Structural)]
pub enum VarintError {
    /// The bytes end before the integer does, or the ninth byte asks for a tenth.
    IncompleteVarint,
}

/// The longest encoding, in bytes.
pub const MAX_VARINT_LEN: usize = 9;

/// Index of the byte that ends the integer starting at `s[0]`, searched from
/// `i` on: the first byte among the leading nine whose high bit is clear.
pub open spec fn spec_varint_last(s: Seq<u8>, i: int) -> Option<int>
    decreases 9 - i,
{
    if i < 0 || i >= 9 || i >= s.len() {
        None
    } else if s[i] < 0x80 {
        Some(i)
    } else {
        spec_varint_last(s, i + 1)
    }
}

/// The low seven bits of each of `s[0..n]`, read as one big-endian number.
pub open spec fn spec_seven_bit_groups(s: Seq<u8>, n: int) -> int
    decreases n,
{
    if n <= 0 {
        0
    } else {
        spec_seven_bit_groups(s, n - 1) * 128 + (s[n - 1] as int) % 128
    }
}

/// `128` to the power `n`: one more than the largest value of `n` groups.
pub open spec fn spec_group_limit(n: int) -> int
    decreases n,
{
    if n <= 0 {
        1
    } else {
        128 * spec_group_limit(n - 1)
    }
}

/// The unsigned 64-bit value that the first `len` bytes of `s` encode.
pub open spec fn spec_varint_value(s: Seq<u8>, len: int) -> int {
    if len <= 8 {
        spec_seven_bit_groups(s, len)
    } else {
        spec_seven_bit_groups(s, 8) * 256 + s[8] as int
    }
}

/// A 64-bit pattern read as a two's-complement signed number.
pub open spec fn spec_as_signed(v: int) -> int {
    if v >= 0x8000_0000_0000_0000 {
        v - 0x1_0000_0000_0000_0000
    } else {
        v
    }
}

/// A signed 64-bit number read as the unsigned number with the same bits.
pub open spec fn spec_as_unsigned(v: int) -> int {
    if v < 0 {
        v + 0x1_0000_0000_0000_0000
    } else {
        v
    }
}

/// Value and length of the integer at the start of `s`, if one is complete there.
pub open spec fn spec_decode_varint(s: Seq<u8>) -> Option<(int, int)> {
    match spec_varint_last(s, 0) {
        Some(last) => Some((spec_as_signed(spec_varint_value(s, last + 1)), last + 1)),
        None => None,
    }
}

/// Number of bytes in the encoding of `n`, for `0 <= n < 2^64`.
pub open spec fn spec_varint_size(n: int) -> int {
    if n < 0x80 {
        1
    } else if n < 0x4000 {
        2
    } else if n < 0x20_0000 {
        3
    } else if n < 0x1000_0000 {
        4
    } else if n < 0x8_0000_0000 {
        5
    } else if n < 0x400_0000_0000 {
        6
    } else if n < 0x2_0000_0000_0000 {
        7
    } else if n < 0x100_0000_0000_0000 {
        8
    } else {
        9
    }
}

/// `k` bytes with the high bit set that carry the low `7 * k` bits of `n`,
/// most significant group first.
pub open spec fn spec_continued_groups(n: int, k: int) -> Seq<u8>
    decreases k,
{
    if k <= 0 {
        Seq::empty()
    } else {
        spec_continued_groups(n / 128, k - 1).push((0x80 + n % 128) as u8)
    }
}

/// The encoding of `n`, for `0 <= n < 2^64`: seven bits to a byte up to
/// eight bytes, and beyond that eight such bytes followed by the low eight
/// bits of `n` in a ninth.
pub open spec fn spec_encode_varint(n: int) -> Seq<u8> {
    let size = spec_varint_size(n);
    if size <= 8 {
        spec_continued_groups(n / 128, size - 1).push((n % 128) as u8)
    } else {
        spec_continued_groups(n / 256, 8).push((n % 256) as u8)
    }
}

/// Whether the decoder accepts the encoding of `n`: it refuses a ninth byte
/// with its high bit set.
pub open spec fn spec_encodes_validly(n: int) -> bool {
    0 <= n < 0x1_0000_0000_0000_0000 && (n < 0x100_0000_0000_0000 || n % 256 < 128)
}

/// Decodes the integer at the start of `data`, and says how many bytes it
/// takes. What follows those bytes is not looked at.
pub fn process_sqlite_varint(data: Vec<u8>) -> (r: Result<(i64, usize), VarintError>)
    ensures
        match spec_decode_varint(data@) {
            Some((value, len)) => r matches Ok((v, n)) && v == value && n == len,
            None => r == Err::<(i64, usize), VarintError>(VarintError::IncompleteVarint),
        },
        r is Err <==> forall|i: int| 0 <= i < data@.len() && i < 9 ==> data@[i] >= 0x80,
        data@.len() == 0 ==> r is Err,
        r matches Ok((v, n)) ==> 1 <= n <= 9 && n <= data@.len(),
{
    proof {
        lemma_decode_fails_iff(data@);
        lemma_varint_last_bounds(data@, 0);
    }
    let mut result: u64 = 0;
    let mut i: usize = 0;
    while i < 9
        invariant
            i <= 8,
            i <= data@.len(),
            result == spec_seven_bit_groups(data@, i as int),
            spec_varint_last(data@, 0) == spec_varint_last(data@, i as int),
        decreases 9 - i,
    {
        proof {
            lemma_decode_fails_iff(data@);
            lemma_varint_last_bounds(data@, 0);
        }
        if i >= data.len() {
            return Err(VarintError::IncompleteVarint);
        }
        let byte = data[i];
        proof {
            lemma_seven_bit_groups_bound(data@, i as int);
            lemma_group_limit_values();
        }
        if i < 8 {
            let payload = byte & 0x7f;
            let prev = result;
            assert(prev < 0x2_0000_0000_0000);
            result = (result << 7) | (payload as u64);
            assert(result == prev * 128 + (byte as int) % 128) by (bit_vector)
                requires
                    prev < 0x2_0000_0000_0000u64,
                    payload == byte & 0x7f,
                    result == (prev << 7) | (payload as u64),
            ;
            assert((byte & 0x80 == 0) <==> byte < 0x80) by (bit_vector);
            if (byte & 0x80) == 0 {
                proof {
                    lemma_seven_bit_groups_bound(data@, i + 1);
                }
                let v = result as i64;
                assert(v == spec_as_signed(result as int)) by (bit_vector)
                    requires
                        v == result as i64,
                        result < 0x100_0000_0000_0000u64,
                ;
                return Ok((v, i + 1));
            }
        } else {
            if byte >= 0x80 {
                assert(spec_varint_last(data@, 9) is None);
                return Err(VarintError::IncompleteVarint);
            }
            let prev = result;
            result = (result << 8) | (byte as u64);
            assert(result == prev * 256 + byte) by (bit_vector)
                requires
                    prev < 0x100_0000_0000_0000u64,
                    result == (prev << 8) | (byte as u64),
            ;
            let v = #[verifier::truncate] (result as i64);
            assert(v == spec_as_signed(result as int)) by (bit_vector)
                requires
                    v == result as i64,
            ;
            return Ok((v, i + 1));
        }
        i += 1;
    }
    Err(VarintError::IncompleteVarint)
}

/// The unsigned number with the bits of `v`.
pub fn as_unsigned(v: i64) -> (u: u64)
    ensures
        u == spec_as_unsigned(v as int),
{
    let u = #[verifier::truncate] (v as u64);
    assert(u == spec_as_unsigned(v as int)) by (bit_vector)
        requires
            u == v as u64,
    ;
    u
}

/// Number of bytes in the encoding of `n`.
pub fn varint_size(n: u64) -> (size: usize)
    ensures
        size == spec_varint_size(n as int),
        1 <= size <= 9,
{
    if n < 0x80 {
        1
    } else if n < 0x4000 {
        2
    } else if n < 0x20_0000 {
        3
    } else if n < 0x1000_0000 {
        4
    } else if n < 0x8_0000_0000 {
        5
    } else if n < 0x400_0000_0000 {
        6
    } else if n < 0x2_0000_0000_0000 {
        7
    } else if n < 0x100_0000_0000_0000 {
        8
    } else {
        9
    }
}

/// `128` to the power `n`.
fn group_limit(n: usize) -> (r: u64)
    requires
        n <= 8,
    ensures
        r == spec_group_limit(n as int),
{
    let mut r: u64 = 1;
    let mut i: usize = 0;
    while i < n
        invariant
            i <= n <= 8,
            r == spec_group_limit(i as int),
        decreases n - i,
    {
        proof {
            lemma_group_limit_values();
        }
        r = r * 128;
        i += 1;
    }
    r
}

/// Encodes the 64 bits of `value`. The decoder gives `value` back from the
/// result unless it is nine bytes long and the last of them has its high
/// bit set.
pub fn encode_sqlite_varint(value: i64) -> (r: Vec<u8>)
    ensures
        r@ == spec_encode_varint(spec_as_unsigned(value as int)),
        r@.len() == spec_varint_size(spec_as_unsigned(value as int)),
        spec_encodes_validly(spec_as_unsigned(value as int)) ==> spec_decode_varint(r@) == Some(
            (value as int, r@.len() as int),
        ),
{
    let n = as_unsigned(value);
    let size = varint_size(n);
    let (rest, last) = if size <= 8 {
        (n / 128, (n % 128) as u8)
    } else {
        (n / 256, (n % 256) as u8)
    };
    let count = size - 1;
    proof {
        lemma_group_limit_values();
        lemma_continued_groups_shape(rest as int, count as int);
        if spec_encodes_validly(n as int) {
            lemma_decode_encode_any(n as int);
        }
    }
    let mut out: Vec<u8> = Vec::new();
    let mut j: usize = 0;
    assert(rest as int / spec_group_limit(count as int) == 0);
    while j < count
        invariant
            j <= count <= 8,
            rest < spec_group_limit(count as int),
            out@ == spec_continued_groups(rest as int / spec_group_limit(count - j), j as int),
        decreases count - j,
    {
        let divisor = group_limit(count - 1 - j);
        proof {
            lemma_group_limit_monotonic(0, count - 1 - j);
            lemma_div_denominator(rest as int, divisor as int, 128);
            assert(spec_group_limit(count - j) == 128 * spec_group_limit(count - 1 - j));
        }
        let group = (rest / divisor) % 128;
        out.push(0x80 + group as u8);
        j += 1;
    }
    out.push(last);
    out
}

/// Decoding the encoding of a number from `0` to `i64::MAX` gives the number
/// back with the encoding's length, whenever the encoding is one that the
/// decoder accepts.
pub proof fn lemma_decode_encode(n: int)
    requires
        0 <= n <= i64::MAX,
        spec_encodes_validly(n),
    ensures
        1 <= spec_encode_varint(n).len() <= 9,
        spec_decode_varint(spec_encode_varint(n)) == Some(
            (n, spec_encode_varint(n).len() as int),
        ),
{
    lemma_decode_encode_any(n);
}

/// Decoding the encoding of `n` gives `n` back, as a signed 64-bit number,
/// together with the length of the encoding, which is one to nine bytes.
pub proof fn lemma_decode_encode_any(n: int)
    requires
        spec_encodes_validly(n),
    ensures
        1 <= spec_encode_varint(n).len() <= 9,
        spec_encode_varint(n).len() == spec_varint_size(n),
        spec_decode_varint(spec_encode_varint(n)) == Some(
            (spec_as_signed(n), spec_encode_varint(n).len() as int),
        ),
{
    let size = spec_varint_size(n);
    let e = spec_encode_varint(n);
    let k = size - 1;
    lemma_group_limit_values();
    if size <= 8 {
        let head = spec_continued_groups(n / 128, k);
        lemma_continued_groups_shape(n / 128, k);
        lemma_continued_groups_value(n / 128, k);
        lemma_seven_bit_groups_prefix(head, e, k);
        assert(e[k] == (n % 128) as u8);
        assert forall|j: int| 0 <= j < k implies e[j] >= 0x80 by {
            assert(e[j] == head[j]);
        }
        lemma_varint_last_skips(e, 0, k);
        assert(spec_varint_last(e, k) == Some(k));
        assert(spec_seven_bit_groups(e, k + 1) == n);
    } else {
        let head = spec_continued_groups(n / 256, 8);
        lemma_continued_groups_shape(n / 256, 8);
        lemma_continued_groups_value(n / 256, 8);
        lemma_seven_bit_groups_prefix(head, e, 8);
        assert(e[8] == (n % 256) as u8);
        assert forall|j: int| 0 <= j < 8 implies e[j] >= 0x80 by {
            assert(e[j] == head[j]);
        }
        lemma_varint_last_skips(e, 0, 8);
        assert(spec_varint_last(e, 8) == Some(8int));
    }
}

/// Decoding fails exactly when none of the leading nine bytes, or of all the
/// bytes where there are fewer, has its high bit clear.
pub proof fn lemma_decode_fails_iff(s: Seq<u8>)
    ensures
        spec_decode_varint(s) is None <==> forall|i: int|
            0 <= i < s.len() && i < 9 ==> s[i] >= 0x80,
{
    if forall|i: int| 0 <= i < s.len() && i < 9 ==> s[i] >= 0x80 {
        let k = if s.len() < 9 { s.len() as int } else { 9 };
        lemma_varint_last_skips(s, 0, k);
    } else {
        let i = choose|i: int| 0 <= i < s.len() && i < 9 && s[i] < 0x80;
        lemma_varint_last_found(s, 0, i);
    }
}

/// Nothing is decoded from no bytes, nor from bytes whose last has its high
/// bit set where no byte before it, among the leading nine, has it clear.
pub proof fn lemma_unfinished_input_fails(s: Seq<u8>)
    requires
        s.len() == 0 || (s.last() >= 0x80 && forall|i: int|
            0 <= i < s.len() - 1 && i < 9 ==> s[i] >= 0x80),
    ensures
        spec_decode_varint(s) is None,
{
    lemma_decode_fails_iff(s);
}

/// Decoding reads no further than the ninth byte: cutting `s` off after it,
/// or anywhere later, changes nothing.
pub proof fn lemma_decode_window(s: Seq<u8>, t: Seq<u8>)
    requires
        t.len() <= s.len(),
        t.len() == s.len() || t.len() >= 9,
        forall|j: int| 0 <= j < t.len() ==> s[j] == t[j],
    ensures
        spec_decode_varint(s) == spec_decode_varint(t),
{
    lemma_varint_last_window(s, t, 0);
    match spec_varint_last(t, 0) {
        Some(last) => {
            lemma_varint_last_bounds(t, 0);
            if last + 1 <= 8 {
                lemma_seven_bit_groups_prefix(t, s, last + 1);
            } else {
                lemma_seven_bit_groups_prefix(t, s, 8);
            }
        },
        None => {},
    }
}

/// The byte that ends the integer lies among the leading nine, has its high
/// bit clear, and follows only bytes that have it set.
pub proof fn lemma_varint_last_bounds(s: Seq<u8>, i: int)
    requires
        0 <= i,
    ensures
        spec_varint_last(s, i) matches Some(last) ==> {
            &&& i <= last < 9
            &&& last < s.len()
            &&& s[last] < 0x80
            &&& forall|j: int| i <= j < last ==> s[j] >= 0x80
        },
    decreases 9 - i,
{
    if i < 9 && i < s.len() && s[i] >= 0x80 {
        lemma_varint_last_bounds(s, i + 1);
    }
}

/// Bytes that all carry the high bit put off the end of the integer.
pub proof fn lemma_varint_last_skips(s: Seq<u8>, i: int, k: int)
    requires
        0 <= i <= k,
        forall|j: int| i <= j < k ==> s[j] >= 0x80,
    ensures
        spec_varint_last(s, i) == spec_varint_last(s, k),
    decreases k - i,
{
    if i < k {
        lemma_varint_last_skips(s, i + 1, k);
        if i >= 9 || i >= s.len() {
            assert(spec_varint_last(s, k) is None);
        }
    }
}

/// A byte with its high bit clear among the leading nine ends the search at
/// or before its place.
pub proof fn lemma_varint_last_found(s: Seq<u8>, from: int, i: int)
    requires
        0 <= from <= i < s.len(),
        i < 9,
        s[i] < 0x80,
    ensures
        spec_varint_last(s, from) is Some,
        from <= spec_varint_last(s, from).unwrap() <= i,
    decreases i - from,
{
    if from < i && s[from] >= 0x80 {
        lemma_varint_last_found(s, from + 1, i);
    }
}

/// Where the integer ends depends on the leading nine bytes alone.
pub proof fn lemma_varint_last_window(s: Seq<u8>, t: Seq<u8>, i: int)
    requires
        0 <= i,
        t.len() <= s.len(),
        t.len() == s.len() || t.len() >= 9,
        forall|j: int| 0 <= j < t.len() ==> s[j] == t[j],
    ensures
        spec_varint_last(s, i) == spec_varint_last(t, i),
    decreases 9 - i,
{
    if i < 9 && i < t.len() && s[i] >= 0x80 {
        lemma_varint_last_window(s, t, i + 1);
    }
}

/// The powers of `128` up to the eighth.
pub proof fn lemma_group_limit_values()
    ensures
        spec_group_limit(0) == 1,
        spec_group_limit(1) == 0x80,
        spec_group_limit(2) == 0x4000,
        spec_group_limit(3) == 0x20_0000,
        spec_group_limit(4) == 0x1000_0000,
        spec_group_limit(5) == 0x8_0000_0000,
        spec_group_limit(6) == 0x400_0000_0000,
        spec_group_limit(7) == 0x2_0000_0000_0000,
        spec_group_limit(8) == 0x100_0000_0000_0000,
{
    reveal_with_fuel(spec_group_limit, 9);
}

/// The powers of `128` are positive and grow.
pub proof fn lemma_group_limit_monotonic(m: int, n: int)
    requires
        0 <= m <= n,
    ensures
        0 < spec_group_limit(m) <= spec_group_limit(n),
    decreases n,
{
    if m < n {
        lemma_group_limit_monotonic(m, n - 1);
    } else if n > 0 {
        lemma_group_limit_monotonic(m - 1, n - 1);
    }
}

/// `n` groups make a number below `128` to the power `n`.
pub proof fn lemma_seven_bit_groups_bound(s: Seq<u8>, n: int)
    requires
        0 <= n,
    ensures
        0 <= spec_seven_bit_groups(s, n) < spec_group_limit(n),
    decreases n,
{
    if n > 0 {
        lemma_seven_bit_groups_bound(s, n - 1);
    }
}

/// The groups of a sequence do not depend on what follows them.
pub proof fn lemma_seven_bit_groups_prefix(s: Seq<u8>, t: Seq<u8>, n: int)
    requires
        0 <= n <= s.len(),
        n <= t.len(),
        forall|i: int| 0 <= i < n ==> s[i] == t[i],
    ensures
        spec_seven_bit_groups(s, n) == spec_seven_bit_groups(t, n),
    decreases n,
{
    if n > 0 {
        lemma_seven_bit_groups_prefix(s, t, n - 1);
    }
}

/// `k` continued groups are `k` bytes, each with its high bit set.
pub proof fn lemma_continued_groups_shape(n: int, k: int)
    requires
        0 <= n,
        0 <= k,
    ensures
        spec_continued_groups(n, k).len() == k,
        forall|i: int| 0 <= i < k ==> #[trigger] spec_continued_groups(n, k)[i] >= 0x80,
    decreases k,
{
    if k > 0 {
        lemma_continued_groups_shape(n / 128, k - 1);
    }
}

/// The continued groups of a number that fits them hold that number.
pub proof fn lemma_continued_groups_value(n: int, k: int)
    requires
        0 <= k,
        0 <= n < spec_group_limit(k),
    ensures
        spec_seven_bit_groups(spec_continued_groups(n, k), k) == n,
    decreases k,
{
    if k > 0 {
        let inner = spec_continued_groups(n / 128, k - 1);
        let all = spec_continued_groups(n, k);
        lemma_continued_groups_shape(n / 128, k - 1);
        lemma_continued_groups_value(n / 128, k - 1);
        lemma_seven_bit_groups_prefix(inner, all, k - 1);
        assert(all[k - 1] == (0x80 + n % 128) as u8);
    }
}

} // verus!
