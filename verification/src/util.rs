//! Common helpers

pub use crate::frame::coils::{bool_to_u16_coil, u16_coil_to_bool, unpack_coils};

use crate::error::Error;
use crate::frame::coils::{coil_at, is_packed_into, set_coil, spec_packed_len, Coil};
use vstd::prelude::*;

verus! {

/// Calculate the number of bytes required for a given number of coils.
pub fn packed_coils_len(bitcount: usize) -> (len: usize)
    ensures
        len == spec_packed_len(bitcount as int),
{
    if bitcount % 8 == 0 {
        bitcount / 8
    } else {
        bitcount / 8 + 1
    }
}

/// Pack coils into a byte array.
///
/// It returns the number of bytes used to pack the coils: coil `i` of the
/// buffer is then `coils[i]`, whatever the buffer held before. A buffer that
/// is too small for them is left as it was.
pub fn pack_coils(coils: &[Coil], bytes: &mut [u8]) -> (r: Result<usize, Error>)
    ensures
        old(bytes)@.len() < spec_packed_len(coils@.len() as int) ==> r == Err::<usize, Error>(
            Error::BufferSize,
        ) && final(bytes)@ == old(bytes)@,
        old(bytes)@.len() >= spec_packed_len(coils@.len() as int) ==> r == Ok::<usize, Error>(
            spec_packed_len(coils@.len() as int) as usize,
        ) && is_packed_into(old(bytes)@, coils@, final(bytes)@),
        r is Ok ==> forall|i: int|
            0 <= i < coils@.len() ==> coil_at(final(bytes)@, i) == coils@[i],
{
    let packed_size = packed_coils_len(coils.len());
    if bytes.len() < packed_size {
        return Err(Error::BufferSize);
    }
    let mut i: usize = 0;
    while i < coils.len()
        invariant
            i <= coils@.len(),
            packed_size == spec_packed_len(coils@.len() as int),
            bytes@.len() >= packed_size,
            is_packed_into(old(bytes)@, coils@.take(i as int), bytes@),
        decreases coils@.len() - i,
    {
        set_coil(bytes, i, coils[i]);
        i = i + 1;
    }
    proof {
        assert(coils@.take(i as int) =~= coils@);
    }
    Ok(packed_size)
}

} // verus!
