//! Little-endian integers and length-prefixed text inside a byte buffer.
use vstd::prelude::*;

verus! {

/// The 32-bit little-endian value of the four bytes that start at index `pos` (0-based).
pub open spec fn le_u32_of(b: Seq<u8>, pos: int) -> int {
    b[pos] as int + 256 * (b[pos + 1] as int) + 65536 * (b[pos + 2] as int) + 16777216 * (
    b[pos + 3] as int)
}

/// The text that a run of bytes encodes as UTF-8, or `None` where the bytes are not UTF-8.
pub uninterp spec fn utf8_text(b: Seq<u8>) -> Option<Seq<char>>;

/// The 128-bit value whose 32-bit words, least significant first, are `a`, `b`, `c`, `d`.
pub open spec fn words_to_u128(a: int, b: int, c: int, d: int) -> int {
    a + b * 0x1_0000_0000 + c * 0x1_0000_0000_0000_0000 + d * 0x1_0000_0000_0000_0000_0000_0000
}

/// Relies on byteorder's `LittleEndian::read_u32`: it decodes the first four bytes of
/// the slice it is given, least significant first, and panics on fewer than four.
#[verifier::external_body]
pub(crate) fn le_u32_at(buf: &[u8], pos: usize) -> (r: u32)
    requires
        pos + 4 <= buf@.len(),
    ensures
        r as int == le_u32_of(buf@, pos as int),
{
    <byteorder::LittleEndian as byteorder::ByteOrder>::read_u32(&buf[pos..])
}

/// Relies on `String::from_utf8`: it succeeds exactly on valid UTF-8, with the text encoded.
#[verifier::external_body]
pub(crate) fn string_from_utf8(bytes: Vec<u8>) -> (r: Option<String>)
    ensures
        match r {
            Some(s) => utf8_text(bytes@) == Some(s@),
            None => utf8_text(bytes@).is_none(),
        },
{
    String::from_utf8(bytes).ok()
}

/// Puts four 32-bit words together into one 128-bit value, `a` the least significant.
pub fn compose_ipv6(a: u32, b: u32, c: u32, d: u32) -> (r: u128)
    ensures
        r as int == words_to_u128(a as int, b as int, c as int, d as int),
{
    let a128 = a as u128;
    let b128 = b as u128;
    let c128 = c as u128;
    let d128 = d as u128;
    let r = (d128 << 96u128) | (c128 << 64u128) | (b128 << 32u128) | a128;
    assert(r == a128 + b128 * 0x1_0000_0000u128 + c128 * 0x1_0000_0000_0000_0000u128 + d128
        * 0x1_0000_0000_0000_0000_0000_0000u128) by (bit_vector)
        requires
            a128 < 0x1_0000_0000u128,
            b128 < 0x1_0000_0000u128,
            c128 < 0x1_0000_0000u128,
            d128 < 0x1_0000_0000u128,
            r == (d128 << 96u128) | (c128 << 64u128) | (b128 << 32u128) | a128,
    ;
    r
}

/// Copies `len` bytes of `buf` that start at index `start` (0-based) into a new vector.
pub fn copy_bytes(buf: &[u8], start: usize, len: usize) -> (r: Vec<u8>)
    requires
        start + len <= buf@.len(),
    ensures
        r@ == buf@.subrange(start as int, start + len),
{
    let n: usize = buf.len();
    let mut out: Vec<u8> = Vec::new();
    let mut i: usize = 0;
    while i < len
        invariant
            i <= len,
            start + len <= n,
            n == buf@.len(),
            out@ == buf@.subrange(start as int, start + i),
        decreases len - i,
    {
        out.push(buf[start + i]);
        i = i + 1;
        assert(out@ =~= buf@.subrange(start as int, start + i));
    }
    out
}

} // verus!
