//! The primitive codec: fixed-width integers to and from little-endian bytes.
//!
//! Each width has a spec-level encoding into a byte sequence and a spec-level
//! decoding back; the lemmas here show that the two invert each other.  The
//! executable writers append to a `Vec<u8>` buffer and are proved against the
//! spec encodings.

use vstd::prelude::*;

use crate::desc::IntWidth;

verus! {

/// The little-endian encoding of a 16-bit integer: low byte first.
pub open spec fn le16(v: u16) -> Seq<u8> {
    seq![(v & 0xff) as u8, ((v >> 8) & 0xff) as u8]
}

/// The little-endian encoding of a 32-bit integer: low byte first.
pub open spec fn le32(v: u32) -> Seq<u8> {
    seq![
        (v & 0xff) as u8,
        ((v >> 8) & 0xff) as u8,
        ((v >> 16) & 0xff) as u8,
        ((v >> 24) & 0xff) as u8,
    ]
}

/// The 16-bit integer encoded little-endian by the bytes `b0`, `b1`.
pub open spec fn dec16(b0: u8, b1: u8) -> u16 {
    (b0 as u16) | ((b1 as u16) << 8)
}

/// The 32-bit integer encoded little-endian by the bytes `b0` .. `b3`.
pub open spec fn dec32(b0: u8, b1: u8, b2: u8, b3: u8) -> u32 {
    (b0 as u32) | ((b1 as u32) << 8) | ((b2 as u32) << 16) | ((b3 as u32) << 24)
}

/// Decoding the little-endian encoding of a 16-bit integer gives it back.
pub proof fn lemma_le16_roundtrip(v: u16)
    ensures
        dec16(le16(v)[0], le16(v)[1]) == v,
{
    assert(((v & 0xff) as u8 as u16) | ((((v >> 8) & 0xff) as u8 as u16) << 8) == v)
        by (bit_vector);
}

/// Encoding the 16-bit integer decoded from two bytes gives the bytes back.
pub proof fn lemma_dec16_roundtrip(b0: u8, b1: u8)
    ensures
        le16(dec16(b0, b1)) == seq![b0, b1],
{
    let v = dec16(b0, b1);
    assert((((b0 as u16) | ((b1 as u16) << 8)) & 0xff) as u8 == b0) by (bit_vector);
    assert(((((b0 as u16) | ((b1 as u16) << 8)) >> 8) & 0xff) as u8 == b1) by (bit_vector);
    assert(le16(v) =~= seq![b0, b1]);
}

/// Decoding the little-endian encoding of a 32-bit integer gives it back.
pub proof fn lemma_le32_roundtrip(v: u32)
    ensures
        dec32(le32(v)[0], le32(v)[1], le32(v)[2], le32(v)[3]) == v,
{
    assert(((v & 0xff) as u8 as u32) | ((((v >> 8) & 0xff) as u8 as u32) << 8)
        | ((((v >> 16) & 0xff) as u8 as u32) << 16) | ((((v >> 24) & 0xff) as u8 as u32) << 24)
        == v) by (bit_vector);
}

/// Encoding the 32-bit integer decoded from four bytes gives the bytes back.
pub proof fn lemma_dec32_roundtrip(b0: u8, b1: u8, b2: u8, b3: u8)
    ensures
        le32(dec32(b0, b1, b2, b3)) == seq![b0, b1, b2, b3],
{
    let v = dec32(b0, b1, b2, b3);
    assert((((b0 as u32) | ((b1 as u32) << 8) | ((b2 as u32) << 16) | ((b3 as u32) << 24))
        & 0xff) as u8 == b0) by (bit_vector);
    assert(((((b0 as u32) | ((b1 as u32) << 8) | ((b2 as u32) << 16) | ((b3 as u32) << 24))
        >> 8) & 0xff) as u8 == b1) by (bit_vector);
    assert(((((b0 as u32) | ((b1 as u32) << 8) | ((b2 as u32) << 16) | ((b3 as u32) << 24))
        >> 16) & 0xff) as u8 == b2) by (bit_vector);
    assert(((((b0 as u32) | ((b1 as u32) << 8) | ((b2 as u32) << 16) | ((b3 as u32) << 24))
        >> 24) & 0xff) as u8 == b3) by (bit_vector);
    assert(le32(v) =~= seq![b0, b1, b2, b3]);
}

/// The little-endian bytes of `v` at the given width.
pub open spec fn enc_int(w: IntWidth, v: u32) -> Seq<u8> {
    match w {
        IntWidth::W8 => seq![v as u8],
        IntWidth::W16 => le16(v as u16),
        IntWidth::W32 => le32(v),
    }
}

/// The integer read at position `p` with the given width, little-endian.
pub open spec fn dec_int(w: IntWidth, bytes: Seq<u8>, p: int) -> u32 {
    match w {
        IntWidth::W8 => bytes[p] as u32,
        IntWidth::W16 => dec16(bytes[p], bytes[p + 1]) as u32,
        IntWidth::W32 => dec32(bytes[p], bytes[p + 1], bytes[p + 2], bytes[p + 3]),
    }
}

/// Appends one byte to the output buffer.
pub fn write_u8(buf: &mut Vec<u8>, v: u8)
    ensures
        final(buf)@ == old(buf)@ + seq![v],
{
    buf.push(v);
    assert(buf@ =~= old(buf)@ + seq![v]);
}

/// Appends the two little-endian bytes of `v` to the output buffer.
pub fn write_u16(buf: &mut Vec<u8>, v: u16)
    ensures
        final(buf)@ == old(buf)@ + le16(v),
{
    buf.push((v & 0xff) as u8);
    buf.push(((v >> 8) & 0xff) as u8);
    assert(buf@ =~= old(buf)@ + le16(v));
}

/// Appends the four little-endian bytes of `v` to the output buffer.
pub fn write_u32(buf: &mut Vec<u8>, v: u32)
    ensures
        final(buf)@ == old(buf)@ + le32(v),
{
    buf.push((v & 0xff) as u8);
    buf.push(((v >> 8) & 0xff) as u8);
    buf.push(((v >> 16) & 0xff) as u8);
    buf.push(((v >> 24) & 0xff) as u8);
    assert(buf@ =~= old(buf)@ + le32(v));
}

/// Appends a copy of all of `b` to the output buffer.
pub fn write_bytes(buf: &mut Vec<u8>, b: &Vec<u8>)
    ensures
        final(buf)@ == old(buf)@ + b@,
{
    let ghost orig = buf@;
    let mut i: usize = 0;
    while i < b.len()
        invariant
            i <= b@.len(),
            buf@ == orig + b@.take(i as int),
        decreases b@.len() - i,
    {
        buf.push(b[i]);
        i = i + 1;
        assert(buf@ =~= orig + b@.take(i as int));
    }
    assert(buf@ =~= orig + b@);
}

} // verus!
