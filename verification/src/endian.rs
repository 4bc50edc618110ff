//! Big-endian 16-bit words in byte buffers, read and written by `byteorder`.

use byteorder::{BigEndian, ByteOrder};
use vstd::prelude::*;

verus! {

/// The word whose most significant byte is `hi` and whose least significant
/// byte is `lo`.
pub open spec fn be16(hi: u8, lo: u8) -> u16 {
    (hi * 256 + lo) as u16
}

/// The most significant byte of `word`.
pub open spec fn hi_byte(word: u16) -> u8 {
    (word / 256) as u8
}

/// The least significant byte of `word`.
pub open spec fn lo_byte(word: u16) -> u8 {
    (word % 256) as u8
}

/// The two bytes of `word`, most significant first.
pub open spec fn be_bytes(word: u16) -> Seq<u8> {
    seq![hi_byte(word), lo_byte(word)]
}

/// `byteorder::BigEndian::read_u16`: the big-endian word in the first two
/// bytes of `buf`. It panics on a shorter buffer, which `requires` excludes.
#[verifier::external_body]
pub(crate) fn read_u16_be(buf: &[u8]) -> (word: u16)
    requires
        buf@.len() >= 2,
    ensures
        word == be16(buf@[0], buf@[1]),
{
    BigEndian::read_u16(buf)
}

/// `byteorder::BigEndian::write_u16`: stores `word` big-endian in the first
/// two bytes of `buf` and touches no other byte. It panics on a shorter
/// buffer, which `requires` excludes.
#[verifier::external_body]
pub(crate) fn write_u16_be(buf: &mut [u8], word: u16)
    requires
        old(buf)@.len() >= 2,
    ensures
        final(buf)@ == old(buf)@.update(0, hi_byte(word)).update(1, lo_byte(word)),
{
    BigEndian::write_u16(buf, word)
}

} // verus!
