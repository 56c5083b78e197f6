//! Byte-level building blocks of the NSQ wire format: big-endian integers,
//! decimal numerals and byte strings.

use byteorder::{BigEndian, ByteOrder};
use vstd::prelude::*;
use vstd::utf8::{decode_utf8, valid_utf8};

verus! {

/// Big-endian value of the first two bytes of `s`.
pub open spec fn be_u16(s: Seq<u8>) -> u16 {
    ((s[0] as u16) << 8u16) | (s[1] as u16)
}

/// Big-endian value of the first four bytes of `s`.
pub open spec fn be_u32(s: Seq<u8>) -> u32 {
    ((s[0] as u32) << 24u32) | ((s[1] as u32) << 16u32) | ((s[2] as u32) << 8u32) | (s[3] as u32)
}

/// Big-endian value of the first eight bytes of `s`.
pub open spec fn be_u64(s: Seq<u8>) -> u64 {
    ((be_u32(s) as u64) << 32u64) | (be_u32(s.subrange(4, 8)) as u64)
}

/// The two bytes of `x`, most significant first.
pub open spec fn u16_be_bytes(x: u16) -> Seq<u8> {
    seq![((x >> 8u16) & 0xffu16) as u8, (x & 0xffu16) as u8]
}

/// The four bytes of `x`, most significant first.
pub open spec fn u32_be_bytes(x: u32) -> Seq<u8> {
    seq![
        ((x >> 24u32) & 0xffu32) as u8,
        ((x >> 16u32) & 0xffu32) as u8,
        ((x >> 8u32) & 0xffu32) as u8,
        (x & 0xffu32) as u8,
    ]
}

/// The eight bytes of `x`, most significant first.
pub open spec fn u64_be_bytes(x: u64) -> Seq<u8> {
    u32_be_bytes((x >> 32u64) as u32) + u32_be_bytes((x & 0xffff_ffffu64) as u32)
}

/// Decoding the encoding of a 16-bit integer gives it back.
pub proof fn lemma_u16_roundtrip(x: u16)
    ensures
        u16_be_bytes(x).len() == 2,
        be_u16(u16_be_bytes(x)) == x,
{
    let b0 = ((x >> 8u16) & 0xffu16) as u8;
    let b1 = (x & 0xffu16) as u8;
    assert(((b0 as u16) << 8u16) | (b1 as u16) == x) by (bit_vector)
        requires
            b0 == ((x >> 8u16) & 0xffu16) as u8,
            b1 == (x & 0xffu16) as u8,
    ;
}

/// Decoding the encoding of a 32-bit integer gives it back.
pub proof fn lemma_u32_roundtrip(x: u32)
    ensures
        u32_be_bytes(x).len() == 4,
        be_u32(u32_be_bytes(x)) == x,
{
    let b0 = ((x >> 24u32) & 0xffu32) as u8;
    let b1 = ((x >> 16u32) & 0xffu32) as u8;
    let b2 = ((x >> 8u32) & 0xffu32) as u8;
    let b3 = (x & 0xffu32) as u8;
    assert(((b0 as u32) << 24u32) | ((b1 as u32) << 16u32) | ((b2 as u32) << 8u32) | (b3 as u32)
        == x) by (bit_vector)
        requires
            b0 == ((x >> 24u32) & 0xffu32) as u8,
            b1 == ((x >> 16u32) & 0xffu32) as u8,
            b2 == ((x >> 8u32) & 0xffu32) as u8,
            b3 == (x & 0xffu32) as u8,
    ;
}

/// Decoding the encoding of a 64-bit integer gives it back.
pub proof fn lemma_u64_roundtrip(x: u64)
    ensures
        u64_be_bytes(x).len() == 8,
        be_u64(u64_be_bytes(x)) == x,
{
    let hi = (x >> 32u64) as u32;
    let lo = (x & 0xffff_ffffu64) as u32;
    lemma_u32_roundtrip(hi);
    lemma_u32_roundtrip(lo);
    let s = u64_be_bytes(x);
    assert(s.subrange(0, 4) =~= u32_be_bytes(hi));
    assert(s.subrange(4, 8) =~= u32_be_bytes(lo));
    assert(be_u32(s) == be_u32(s.subrange(0, 4)));
    assert(((hi as u64) << 32u64) | (lo as u64) == x) by (bit_vector)
        requires
            hi == (x >> 32u64) as u32,
            lo == (x & 0xffff_ffffu64) as u32,
    ;
}

/// The value `be_u32` reads depends on the first four bytes only.
pub proof fn lemma_be_u32_prefix(s: Seq<u8>, t: Seq<u8>)
    requires
        s.len() >= 4,
        t.len() >= 4,
        s.subrange(0, 4) == t.subrange(0, 4),
    ensures
        be_u32(s) == be_u32(t),
{
    assert(s[0] == s.subrange(0, 4)[0]);
    assert(s[1] == s.subrange(0, 4)[1]);
    assert(s[2] == s.subrange(0, 4)[2]);
    assert(s[3] == s.subrange(0, 4)[3]);
    assert(t[0] == t.subrange(0, 4)[0]);
    assert(t[1] == t.subrange(0, 4)[1]);
    assert(t[2] == t.subrange(0, 4)[2]);
    assert(t[3] == t.subrange(0, 4)[3]);
}

/// Big-endian means most significant byte first: the value of two, four or
/// eight bytes is the sum of each byte times 256 to the power of the number
/// of bytes after it.
pub proof fn law_big_endian_values(s: Seq<u8>)
    requires
        s.len() >= 8,
    ensures
        be_u16(s) == s[0] * 256 + s[1],
        be_u32(s) == s[0] * 16777216 + s[1] * 65536 + s[2] * 256 + s[3],
        be_u64(s) == be_u32(s) * 4294967296 + be_u32(s.subrange(4, 8)),
{
    let (b0, b1, b2, b3) = (s[0], s[1], s[2], s[3]);
    assert(((b0 as u16) << 8u16) | (b1 as u16) == b0 * 256 + b1) by (bit_vector);
    assert(((b0 as u32) << 24u32) | ((b1 as u32) << 16u32) | ((b2 as u32) << 8u32) | (b3 as u32)
        == b0 * 16777216 + b1 * 65536 + b2 * 256 + b3) by (bit_vector);
    let hi = be_u32(s);
    let lo = be_u32(s.subrange(4, 8));
    assert(((hi as u64) << 32u64) | (lo as u64) == hi * 4294967296 + lo) by (bit_vector);
}

/// Reads a big-endian `u16` from the start of `buf` with
/// `byteorder::BigEndian::read_u16`, which assembles `buf[0..2]` most
/// significant byte first and panics on a shorter buffer.
#[verifier::external_body]
pub(crate) fn read_be_u16(buf: &[u8]) -> (r: u16)
    requires
        buf@.len() >= 2,
    ensures
        r == be_u16(buf@),
{
    BigEndian::read_u16(buf)
}

/// Reads a big-endian `u32` from the start of `buf` with
/// `byteorder::BigEndian::read_u32`, which assembles `buf[0..4]` most
/// significant byte first and panics on a shorter buffer.
#[verifier::external_body]
pub(crate) fn read_be_u32(buf: &[u8]) -> (r: u32)
    requires
        buf@.len() >= 4,
    ensures
        r == be_u32(buf@),
{
    BigEndian::read_u32(buf)
}

/// Reads a big-endian `i32` from the start of `buf` with
/// `byteorder::BigEndian::read_i32`, which is `read_u32` reinterpreted as a
/// two's complement `i32`, and panics on a buffer shorter than four bytes.
#[verifier::external_body]
pub(crate) fn read_be_i32(buf: &[u8]) -> (r: i32)
    requires
        buf@.len() >= 4,
    ensures
        r == be_u32(buf@) as i32,
{
    BigEndian::read_i32(buf)
}

/// Reads a big-endian `u64` from the start of `buf` with
/// `byteorder::BigEndian::read_u64`, which assembles `buf[0..8]` most
/// significant byte first and panics on a shorter buffer.
#[verifier::external_body]
pub(crate) fn read_be_u64(buf: &[u8]) -> (r: u64)
    requires
        buf@.len() >= 8,
    ensures
        r == be_u64(buf@),
{
    BigEndian::read_u64(buf)
}

/// The four big-endian bytes of `n`, written by
/// `byteorder::BigEndian::write_u32` into a four-byte array.
#[verifier::external_body]
pub(crate) fn write_be_u32(n: u32) -> (r: [u8; 4])
    ensures
        r@ == u32_be_bytes(n),
{
    let mut out = [0u8; 4];
    BigEndian::write_u32(&mut out, n);
    out
}

/// Appends the four big-endian bytes of `n` to `buf`.
pub fn push_be_u32(buf: &mut Vec<u8>, n: u32)
    ensures
        final(buf)@ == old(buf)@ + u32_be_bytes(n),
{
    let bytes = write_be_u32(n);
    buf.push(bytes[0]);
    buf.push(bytes[1]);
    buf.push(bytes[2]);
    buf.push(bytes[3]);
    assert(final(buf)@ =~= old(buf)@ + u32_be_bytes(n));
}

/// Appends all of `bytes` to `buf`.
pub fn push_all(buf: &mut Vec<u8>, bytes: &[u8])
    ensures
        final(buf)@ == old(buf)@ + bytes@,
{
    let mut i: usize = 0;
    while i < bytes.len()
        invariant
            i <= bytes@.len(),
            buf@ == old(buf)@ + bytes@.subrange(0, i as int),
        decreases bytes@.len() - i,
    {
        buf.push(bytes[i]);
        i = i + 1;
        assert(buf@ =~= old(buf)@ + bytes@.subrange(0, i as int));
    }
    assert(bytes@.subrange(0, i as int) =~= bytes@);
}

/// The decimal numeral of `n`, as ASCII digits, without leading zeros.
pub open spec fn decimal(n: nat) -> Seq<u8>
    decreases n,
{
    if n < 10 {
        seq![(48 + n) as u8]
    } else {
        decimal(n / 10).push((48 + n % 10) as u8)
    }
}

/// The number a string of ASCII digits spells, most significant first.
pub open spec fn digits_value(s: Seq<u8>) -> int
    decreases s.len(),
{
    if s.len() == 0 {
        0
    } else {
        digits_value(s.drop_last()) * 10 + (s.last() - 48)
    }
}

/// The decimal numeral of `n` is made of ASCII digits, spells `n`, and has
/// no leading zero except for zero itself.
pub proof fn law_decimal_spells_the_number(n: nat)
    ensures
        decimal(n).len() >= 1,
        forall|i: int| 0 <= i < decimal(n).len() ==> 48 <= #[trigger] decimal(n)[i] <= 57,
        digits_value(decimal(n)) == n,
        n > 0 ==> decimal(n)[0] != 48,
    decreases n,
{
    if n >= 10 {
        law_decimal_spells_the_number(n / 10);
        let s = decimal(n);
        assert(s.drop_last() =~= decimal(n / 10));
        assert(s[0] == decimal(n / 10)[0]);
        assert((n / 10) * 10 + n % 10 == n) by (nonlinear_arith);
        assert(n % 10 < 10);
        assert(s.last() == (48 + n % 10) as u8);
        assert(s.last() - 48 == n % 10);
        assert(digits_value(s) == digits_value(s.drop_last()) * 10 + (s.last() - 48));
    } else {
        let s = decimal(n);
        assert(s.drop_last() =~= Seq::<u8>::empty());
        assert(s.last() - 48 == n);
        assert(digits_value(s) == digits_value(s.drop_last()) * 10 + (s.last() - 48));
    }
}

/// The decimal numeral of a signed integer: a minus sign before the digits of
/// a negative one.
pub open spec fn signed_decimal(n: int) -> Seq<u8> {
    if n < 0 {
        seq![45u8] + decimal((-n) as nat)
    } else {
        decimal(n as nat)
    }
}

/// Appends the decimal numeral of `n` to `buf`.
pub fn push_decimal(buf: &mut Vec<u8>, n: u64)
    ensures
        final(buf)@ == old(buf)@ + decimal(n as nat),
    decreases n,
{
    if n >= 10 {
        push_decimal(buf, n / 10);
    }
    let digit = (48 + n % 10) as u8;
    buf.push(digit);
    assert(final(buf)@ =~= old(buf)@ + decimal(n as nat));
}

/// Appends the decimal numeral of the signed `n` to `buf`.
pub fn push_signed_decimal(buf: &mut Vec<u8>, n: i32)
    ensures
        final(buf)@ == old(buf)@ + signed_decimal(n as int),
{
    if n < 0 {
        buf.push(45u8);
        let magnitude: u64 = (0i64 - n as i64) as u64;
        push_decimal(buf, magnitude);
        assert(final(buf)@ =~= old(buf)@ + signed_decimal(n as int));
    } else {
        push_decimal(buf, n as u64);
    }
}

/// Whether `pat` occurs in `s` as a contiguous run.
pub open spec fn contains_run(s: Seq<u8>, pat: Seq<u8>) -> bool {
    exists|i: int| 0 <= i && i + pat.len() <= s.len() && #[trigger] s.subrange(i, i + pat.len()) == pat
}

/// Whether `pat` occurs in `s` starting at position `at`.
fn run_at(s: &[u8], pat: &[u8], at: usize) -> (r: bool)
    requires
        at + pat@.len() <= s@.len(),
    ensures
        r == (s@.subrange(at as int, at + pat@.len()) == pat@),
{
    let n = s.len();
    let mut j: usize = 0;
    while j < pat.len()
        invariant
            n == s@.len(),
            j <= pat@.len(),
            at + pat@.len() <= s@.len(),
            forall|k: int| 0 <= k < j ==> s@[at + k] == pat@[k],
        decreases pat@.len() - j,
    {
        assert(at + j < s@.len());
        if s[at + j] != pat[j] {
            assert(s@.subrange(at as int, at + pat@.len())[j as int] != pat@[j as int]);
            return false;
        }
        j = j + 1;
    }
    assert(s@.subrange(at as int, at + pat@.len()) =~= pat@);
    true
}

/// Whether `pat` occurs in `s` as a contiguous run.
pub fn contains_bytes(s: &[u8], pat: &[u8]) -> (r: bool)
    ensures
        r == contains_run(s@, pat@),
{
    if pat.len() > s.len() {
        return false;
    }
    let last = s.len() - pat.len();
    let mut i: usize = 0;
    while i < last
        invariant
            last + pat@.len() == s@.len(),
            i <= last,
            forall|k: int| 0 <= k < i ==> #[trigger] s@.subrange(k, k + pat@.len()) != pat@,
        decreases last - i,
    {
        if run_at(s, pat, i) {
            return true;
        }
        i = i + 1;
    }
    if run_at(s, pat, last) {
        return true;
    }
    assert forall|k: int| 0 <= k && k + pat@.len() <= s@.len() implies #[trigger] s@.subrange(
        k,
        k + pat@.len(),
    ) != pat@ by {}
    false
}

/// The text `String::from_utf8_lossy` makes of `bytes`.
pub uninterp spec fn utf8_lossy(bytes: Seq<u8>) -> Seq<char>;

/// The text of `bytes`, by `String::from_utf8_lossy`: the decoded characters
/// when `bytes` is valid UTF-8; otherwise each invalid sequence is replaced by
/// U+FFFD, which is left unsaid beyond the name `utf8_lossy`.
#[verifier::external_body]
pub(crate) fn lossy_text(bytes: &[u8]) -> (r: String)
    ensures
        r@ == utf8_lossy(bytes@),
        valid_utf8(bytes@) ==> r@ == decode_utf8(bytes@),
{
    String::from_utf8_lossy(bytes).into_owned()
}

} // verus!
