//! Little-endian 16-bit words inside byte buffers.
//!
//! Hardware-native sample layouts store each sample as a two-byte
//! little-endian word; these are the only two places the crate touches raw
//! byte order, both through `byteorder`.

use vstd::prelude::*;

verus! {

/// The value of the little-endian 16-bit word whose bytes sit at offsets
/// `i` and `i + 1` of `buf`.
pub open spec fn spec_word_at(buf: Seq<u8>, i: int) -> u16 {
    (buf[i] + 256 * buf[i + 1]) as u16
}

/// Relies on byteorder's `LittleEndian::read_u16`: the first two bytes of
/// the slice, least-significant byte first.
#[verifier::external_body]
pub(crate) fn le_read_u16(buf: &[u8], i: usize) -> (r: u16)
    requires
        i + 2 <= buf.len(),
    ensures
        r == spec_word_at(buf@, i as int),
{
    <byteorder::LittleEndian as byteorder::ByteOrder>::read_u16(&buf[i..i + 2])
}

/// The value of the little-endian 32-bit word whose bytes sit at offsets
/// `i` through `i + 3` of `buf`.
pub open spec fn spec_dword_at(buf: Seq<u8>, i: int) -> u32 {
    (buf[i] + 256 * buf[i + 1] + 65536 * buf[i + 2] + 16777216 * buf[i + 3]) as u32
}

/// Relies on byteorder's `LittleEndian::read_u32`: the first four bytes of
/// the slice, least-significant byte first.
#[verifier::external_body]
pub(crate) fn le_read_u32(buf: &[u8], i: usize) -> (r: u32)
    requires
        i + 4 <= buf.len(),
    ensures
        r == spec_dword_at(buf@, i as int),
{
    <byteorder::LittleEndian as byteorder::ByteOrder>::read_u32(&buf[i..i + 4])
}

/// Relies on byteorder's `LittleEndian::write_u16`: two bytes,
/// least-significant byte first.
#[verifier::external_body]
fn le_write_u16(buf: &mut Vec<u8>, i: usize, v: u16)
    requires
        i + 2 <= old(buf).len(),
    ensures
        final(buf)@ == old(buf)@.update(i as int, (v % 256) as u8).update(
            i as int + 1,
            (v / 256) as u8,
        ),
{
    <byteorder::LittleEndian as byteorder::ByteOrder>::write_u16(&mut buf[i..i + 2], v)
}

/// Writes the little-endian word `v` at byte offset `i`, touching nothing
/// else.
pub(crate) fn write_word(dst: &mut Vec<u8>, i: usize, v: u16)
    requires
        i + 2 <= old(dst).len(),
    ensures
        final(dst)@.len() == old(dst)@.len(),
        spec_word_at(final(dst)@, i as int) == v,
        forall|p: int|
            0 <= p < old(dst)@.len() && p != i && p != i + 1 ==> final(dst)@[p] == old(dst)@[p],
{
    le_write_u16(dst, i, v);
    proof {
        vstd::arithmetic::div_mod::lemma_fundamental_div_mod(v as int, 256);
        assert(spec_word_at(dst@, i as int) == ((v % 256) + 256 * (v / 256)) as u16);
    }
}

} // verus!
