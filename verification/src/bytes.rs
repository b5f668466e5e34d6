//! Byte-order helpers: the little- and big-endian layouts used on the wire and
//! in capture files, stated over plain arithmetic.

use vstd::prelude::*;

verus! {

/// The 16-bit value of two little-endian bytes.
pub open spec fn u16_le(lo: u8, hi: u8) -> u16 {
    (lo + 256 * hi) as u16
}

/// The two little-endian bytes of `x`.
pub open spec fn le16(x: u16) -> Seq<u8> {
    seq![(x % 256) as u8, (x / 256) as u8]
}

/// The two big-endian bytes of `x`.
pub open spec fn be16(x: u16) -> Seq<u8> {
    seq![(x / 256) as u8, (x % 256) as u8]
}

/// The 32-bit value of four little-endian bytes.
#[verifier::opaque]
pub open spec fn u32_le(b0: u8, b1: u8, b2: u8, b3: u8) -> u32 {
    (b0 + 256 * b1 + 65536 * b2 + 16777216 * b3) as u32
}

/// The four little-endian bytes of `x`.
#[verifier::opaque]
pub open spec fn le32(x: u32) -> Seq<u8> {
    seq![
        (x % 256) as u8,
        ((x / 256) % 256) as u8,
        ((x / 65536) % 256) as u8,
        (x / 16777216) as u8,
    ]
}

/// Reading back two little-endian bytes gives the value that was laid out.
pub broadcast proof fn lemma_le16_round_trip(x: u16)
    ensures
        #[trigger] le16(x).len() == 2,
        u16_le(le16(x)[0], le16(x)[1]) == x,
{
}

/// A 32-bit value is laid out in four bytes.
pub broadcast proof fn lemma_le32_len(x: u32)
    ensures
        #[trigger] le32(x).len() == 4,
{
    reveal(le32);
}

/// Reading back four little-endian bytes gives the value that was laid out.
pub proof fn lemma_le32_round_trip(x: u32)
    ensures
        le32(x).len() == 4,
        u32_le(le32(x)[0], le32(x)[1], le32(x)[2], le32(x)[3]) == x,
{
    reveal(le32);
    reveal(u32_le);
}

/// Laying out the value of two little-endian bytes gives those bytes.
pub proof fn lemma_u16_le_bytes(lo: u8, hi: u8)
    ensures
        le16(u16_le(lo, hi)) == seq![lo, hi],
{
    assert(le16(u16_le(lo, hi)) =~= seq![lo, hi]);
}

/// Laying out the value of four little-endian bytes gives those bytes.
pub proof fn lemma_u32_le_bytes(b0: u8, b1: u8, b2: u8, b3: u8)
    ensures
        le32(u32_le(b0, b1, b2, b3)) == seq![b0, b1, b2, b3],
{
    reveal(le32);
    reveal(u32_le);
    let x = b0 + 256 * b1 + 65536 * b2 + 16777216 * b3;
    let (x1, x2) = (b1 + 256 * b2 + 65536 * b3, b2 + 256 * b3);
    assert(x == 256 * x1 + b0);
    assert(x / 256 == x1 && x % 256 == b0);
    assert(x1 == 256 * x2 + b1);
    assert(x1 % 256 == b1);
    assert(x == 65536 * x2 + (b0 + 256 * b1));
    assert(x / 65536 == x2 && x2 % 256 == b2);
    assert(x / 16777216 == b3);
    assert(le32(u32_le(b0, b1, b2, b3)) =~= seq![b0, b1, b2, b3]);
}

/// The byte orders are what they are called: little-endian puts the byte of least
/// weight first, big-endian last, and reading weighs each byte by its place.
pub proof fn byte_orders(x: u16, y: u32, b0: u8, b1: u8, b2: u8, b3: u8)
    ensures
        le16(x).len() == 2 && le16(x)[0] + 256 * le16(x)[1] == x,
        be16(x).len() == 2 && 256 * be16(x)[0] + be16(x)[1] == x,
        le32(y).len() == 4 && le32(y)[0] + 256 * le32(y)[1] + 65536 * le32(y)[2] + 16777216
            * le32(y)[3] == y,
        u16_le(b0, b1) == b0 + 256 * b1,
        u32_le(b0, b1, b2, b3) == b0 + 256 * b1 + 65536 * b2 + 16777216 * b3,
{
    reveal(le32);
    reveal(u32_le);
}

/// Concatenation may be grouped either way.
pub proof fn lemma_regroup(a: Seq<u8>, b: Seq<u8>, c: Seq<u8>)
    ensures
        (a + b) + c == a + (b + c),
{
    assert((a + b) + c =~= a + (b + c));
}

/// Combine two little-endian bytes.
pub(crate) fn read_u16_le(lo: u8, hi: u8) -> (x: u16)
    ensures
        x == u16_le(lo, hi),
{
    lo as u16 + 256 * (hi as u16)
}

/// Combine four little-endian bytes.
pub(crate) fn read_u32_le(b0: u8, b1: u8, b2: u8, b3: u8) -> (x: u32)
    ensures
        x == u32_le(b0, b1, b2, b3),
{
    proof {
        reveal(u32_le);
    }
    b0 as u32 + 256 * (b1 as u32) + 65536 * (b2 as u32) + 16777216 * (b3 as u32)
}

/// Append the two little-endian bytes of `x`.
pub(crate) fn push_le16(out: &mut Vec<u8>, x: u16)
    ensures
        final(out)@ == old(out)@ + le16(x),
{
    out.push((x % 256) as u8);
    out.push((x / 256) as u8);
    assert(out@ =~= old(out)@ + le16(x));
}

/// Append the four little-endian bytes of `x`.
pub(crate) fn push_le32(out: &mut Vec<u8>, x: u32)
    ensures
        final(out)@ == old(out)@ + le32(x),
{
    proof {
        reveal(le32);
    }
    out.push((x % 256) as u8);
    out.push(((x / 256) % 256) as u8);
    out.push(((x / 65536) % 256) as u8);
    out.push((x / 16777216) as u8);
    assert(out@ =~= old(out)@ + le32(x));
}

/// Append `data` byte for byte.
pub(crate) fn push_bytes(out: &mut Vec<u8>, data: &[u8])
    ensures
        final(out)@ == old(out)@ + data@,
{
    out.extend_from_slice(data);
    assert(out@ =~= old(out)@ + data@);
}

} // verus!
