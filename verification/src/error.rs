//! The errors of the codec.

use vstd::prelude::*;

verus! {

/// Why a frame or a PDU could not be decoded or encoded.
#[derive(Debug, Clone, Copy, PartialEq, Eq)]
pub enum Error {
    /// A single-coil value that is neither `0xFF00` nor `0x0000`.
    CoilValue(u16),
    /// The source is too short for a fixed-length field, or the destination
    /// too small for the serialized bytes.
    BufferSize,
    /// A function code byte that cannot be classified.
    FnCode(u8),
    /// An exception code that is not one of the defined values.
    ExceptionCode(u8),
    /// The first byte of a supposed exception response has its high bit clear.
    ExceptionFnCode(u8),
    /// The CRC read from an RTU frame (first) differs from the one computed
    /// over its bytes (second).
    Crc(u16, u16),
    /// A declared byte count that exceeds the bytes that follow it.
    ByteCount(u8),
    /// The MBAP length field (first) contradicts the PDU length derived from
    /// the function code, plus one (second).
    LengthMismatch(usize, usize),
    /// The MBAP protocol identifier is not zero.
    ProtocolNotModbus(u16),
}

} // verus!
