//! Modbus TCP: frames behind an MBAP header.

pub mod client;
pub mod laws;
pub mod server;

use crate::codec::{in_u16, word_from, word_in, word_into, DecoderType, Encode};
use crate::endian::be_bytes;
use crate::error::Error;
pub use crate::frame::tcp::{
    Header, RequestAdu, RequestAduView, ResponseAdu, ResponseAduView, TransactionId, UnitId,
};
pub use crate::frame::FrameLocation;
use vstd::prelude::*;

verus! {

/// The number of bytes after which the search for a frame is given up.
pub const MAX_FRAME_LEN: usize = 256;

/// The model of [`DecodedFrame`]: what the header carries and the bytes of
/// the PDU.
pub struct FrameView {
    pub transaction_id: u16,
    pub unit_id: u8,
    pub pdu: Seq<u8>,
}

/// An extracted TCP PDU frame.
#[derive(Debug, Clone, Copy, PartialEq, Eq)]
pub struct DecodedFrame<'a> {
    pub transaction_id: TransactionId,
    pub unit_id: UnitId,
    pub pdu: &'a [u8],
}

impl<'a> View for DecodedFrame<'a> {
    type V = FrameView;

    open spec fn view(&self) -> FrameView {
        FrameView { transaction_id: self.transaction_id, unit_id: self.unit_id, pdu: self.pdu@ }
    }
}

/// The length of the request PDU that starts at byte 7 of `adu`: nothing
/// where the prefix is too short to tell, an error for a function code
/// whose length is not known.
pub open spec fn spec_request_pdu_len(adu: Seq<u8>) -> Result<Option<usize>, Error> {
    if adu.len() < 8 {
        Ok(None)
    } else {
        let fn_code = adu[7];
        if 0x01 <= fn_code <= 0x06 {
            Ok(Some(5))
        } else if fn_code == 0x07 || fn_code == 0x0B || fn_code == 0x0C || fn_code == 0x11 {
            Ok(Some(1))
        } else if fn_code == 0x0F || fn_code == 0x10 {
            if adu.len() > 12 {
                Ok(Some((6 + adu[12]) as usize))
            } else {
                Ok(None)
            }
        } else if fn_code == 0x16 {
            Ok(Some(7))
        } else if fn_code == 0x18 {
            Ok(Some(3))
        } else if fn_code == 0x17 {
            if adu.len() > 16 {
                Ok(Some((10 + adu[16]) as usize))
            } else {
                Ok(None)
            }
        } else {
            Err(Error::FnCode(fn_code))
        }
    }
}

/// The length of the response PDU that starts at byte 7 of `adu`: nothing
/// where the prefix is too short to tell, an error for a function code
/// whose length is not known.
pub open spec fn spec_response_pdu_len(adu: Seq<u8>) -> Result<Option<usize>, Error> {
    if adu.len() < 8 {
        Ok(None)
    } else {
        let fn_code = adu[7];
        if 0x01 <= fn_code <= 0x04 || fn_code == 0x0C || fn_code == 0x17 {
            if adu.len() > 8 {
                Ok(Some((2 + adu[8]) as usize))
            } else {
                Ok(None)
            }
        } else if fn_code == 0x05 {
            Ok(Some(3))
        } else if fn_code == 0x06 || fn_code == 0x0B || fn_code == 0x0F || fn_code == 0x10 {
            Ok(Some(5))
        } else if fn_code == 0x07 || 0x81 <= fn_code <= 0xAB {
            Ok(Some(2))
        } else if fn_code == 0x16 {
            Ok(Some(7))
        } else if fn_code == 0x18 {
            if adu.len() > 9 {
                Ok(Some((3 + word_in(adu, 8)) as usize))
            } else {
                Ok(None)
            }
        } else {
            Err(Error::FnCode(fn_code))
        }
    }
}

/// The length that the framer of the given kind reads from `adu`.
pub open spec fn spec_pdu_len(kind: DecoderType, adu: Seq<u8>) -> Result<Option<usize>, Error> {
    match kind {
        DecoderType::Request => spec_request_pdu_len(adu),
        DecoderType::Response => spec_response_pdu_len(adu),
    }
}

/// The frame at the front of `buf` whose PDU has `pdu_len` bytes: nothing
/// while the buffer is shorter than the frame, an error where the protocol
/// identifier is not zero or the length field is not one more than
/// `pdu_len`.
pub open spec fn spec_extract_frame(buf: Seq<u8>, pdu_len: int) -> Result<Option<FrameView>, Error> {
    if buf.len() < 7 + pdu_len {
        Ok(None)
    } else if word_in(buf, 2) != 0 {
        Err(Error::ProtocolNotModbus(word_in(buf, 2)))
    } else if word_in(buf, 4) != pdu_len + 1 {
        Err(Error::LengthMismatch(word_in(buf, 4) as usize, (pdu_len + 1) as usize))
    } else {
        Ok(
            Some(
                FrameView {
                    transaction_id: word_in(buf, 0),
                    unit_id: buf[6],
                    pdu: buf.subrange(7, 7 + pdu_len),
                },
            ),
        )
    }
}

/// What the attempt to read a frame at byte `at` of `buf` gives: the frame
/// and its location, nothing where more bytes are needed, or the error that
/// makes the decoder drop a byte.
pub open spec fn spec_attempt(kind: DecoderType, buf: Seq<u8>, at: int) -> Result<
    Option<(FrameView, FrameLocation)>,
    Error,
> {
    if at + 1 >= buf.len() {
        Ok(None)
    } else {
        match spec_pdu_len(kind, buf.skip(at)) {
            Err(e) => Err(e),
            Ok(None) => Ok(None),
            Ok(Some(pdu_len)) => match spec_extract_frame(buf.skip(at), pdu_len as int) {
                Err(e) => Err(e),
                Ok(None) => Ok(None),
                Ok(Some(frame)) => Ok(
                    Some(
                        (frame, FrameLocation { start: at as usize, size: (pdu_len + 7) as usize }),
                    ),
                ),
            },
        }
    }
}

/// What decoding gives once the bytes before `at` have been dropped: the
/// outcome of the first attempt that is no error, or the error of the
/// attempt at byte `MAX_FRAME_LEN - 1`.
pub open spec fn spec_decode_from(kind: DecoderType, buf: Seq<u8>, at: int) -> Result<
    Option<(FrameView, FrameLocation)>,
    Error,
>
    decreases MAX_FRAME_LEN - at,
{
    match spec_attempt(kind, buf, at) {
        Err(e) => if at + 1 >= MAX_FRAME_LEN {
            Err(e)
        } else {
            spec_decode_from(kind, buf, at + 1)
        },
        outcome => outcome,
    }
}

/// What decoding `buf` gives.
pub open spec fn spec_decode(kind: DecoderType, buf: Seq<u8>) -> Result<
    Option<(FrameView, FrameLocation)>,
    Error,
> {
    spec_decode_from(kind, buf, 0)
}

/// The model of the outcome of extracting a frame.
pub open spec fn frame_outcome(r: Result<Option<DecodedFrame<'_>>, Error>) -> Result<
    Option<FrameView>,
    Error,
> {
    match r {
        Ok(Some(frame)) => Ok(Some(frame@)),
        Ok(None) => Ok(None),
        Err(e) => Err(e),
    }
}

/// The model of the outcome of decoding.
pub open spec fn decode_outcome(
    r: Result<Option<(DecodedFrame<'_>, FrameLocation)>, Error>,
) -> Result<Option<(FrameView, FrameLocation)>, Error> {
    match r {
        Ok(Some((frame, location))) => Ok(Some((frame@, location))),
        Ok(None) => Ok(None),
        Err(e) => Err(e),
    }
}

/// The seven bytes of an MBAP header.
pub open spec fn spec_mbap(hdr: Header, length: u16) -> Seq<u8> {
    be_bytes(hdr.transaction_id) + be_bytes(0) + be_bytes(length) + seq![hdr.unit_id]
}

/// The bytes of the frame that carries a PDU: the MBAP header, whose length
/// field counts the unit identifier and the PDU, and the PDU.
pub open spec fn spec_frame(hdr: Header, pdu: Seq<u8>) -> Seq<u8> {
    spec_mbap(hdr, in_u16(pdu.len() + 1)) + pdu
}

/// What encoding a frame returns, and what it leaves in a buffer that held
/// `buf`, where the PDU is written before the header: the frame at the
/// front where the buffer has room for it, and the buffer as it was
/// otherwise.
pub open spec fn spec_encode_adu(hdr: Header, pdu: Seq<u8>, buf: Seq<u8>) -> (
    Result<usize, Error>,
    Seq<u8>,
) {
    if buf.len() < 7 + pdu.len() {
        (Err(Error::BufferSize), buf)
    } else {
        (Ok((pdu.len() + 7) as usize), spec_frame(hdr, pdu) + buf.skip(pdu.len() as int + 7))
    }
}

/// What encoding a frame returns, and what it leaves in a buffer that held
/// `buf`, where the header is written before the PDU: a buffer with room
/// for the header and not for the PDU holds the header without its length
/// field after the error.
pub open spec fn spec_encode_adu_header_first(hdr: Header, pdu: Seq<u8>, buf: Seq<u8>) -> (
    Result<usize, Error>,
    Seq<u8>,
) {
    if buf.len() < 7 {
        (Err(Error::BufferSize), buf)
    } else if buf.len() < 7 + pdu.len() {
        (
            Err(Error::BufferSize),
            be_bytes(hdr.transaction_id) + be_bytes(0) + buf.subrange(4, 6) + seq![hdr.unit_id]
                + buf.skip(7),
        )
    } else {
        (Ok((pdu.len() + 7) as usize), spec_frame(hdr, pdu) + buf.skip(pdu.len() as int + 7))
    }
}

/// Writes the frame that carries `pdu` to the front of `buf`, the PDU
/// first, and returns its length.
pub(crate) fn encode_adu<P: Encode>(hdr: Header, pdu: &P, buf: &mut [u8]) -> (r: Result<
    usize,
    Error,
>)
    requires
        pdu.encodable(),
    ensures
        (r, final(buf)@) == spec_encode_adu(hdr, pdu.encoding(), old(buf)@),
{
    if buf.len() < 7 {
        return Err(Error::BufferSize);
    }
    let (_, rest) = buf.split_at_mut(7);
    let len = match pdu.encode(rest) {
        Ok(len) => len,
        Err(e) => {
            assert(buf@ =~= old(buf)@);
            return Err(e);
        },
    };
    assert(buf@ =~= old(buf)@.take(7) + pdu.encoding() + old(buf)@.skip(7 + len));
    word_into(buf, 0, hdr.transaction_id);
    word_into(buf, 2, 0);
    word_into(buf, 4, ((len + 1) % 0x1_0000) as u16);
    buf[6] = hdr.unit_id;
    assert(buf@ =~= spec_frame(hdr, pdu.encoding()) + old(buf)@.skip(len + 7));
    Ok(len + 7)
}

/// Writes the frame that carries `pdu` to the front of `buf`, the header
/// first, and returns its length.
pub(crate) fn encode_adu_header_first<P: Encode>(hdr: Header, pdu: &P, buf: &mut [u8]) -> (r:
    Result<usize, Error>)
    requires
        pdu.encodable(),
    ensures
        (r, final(buf)@) == spec_encode_adu_header_first(hdr, pdu.encoding(), old(buf)@),
{
    if buf.len() < 7 {
        return Err(Error::BufferSize);
    }
    word_into(buf, 0, hdr.transaction_id);
    word_into(buf, 2, 0);
    buf[6] = hdr.unit_id;
    let ghost head = be_bytes(hdr.transaction_id) + be_bytes(0) + old(buf)@.subrange(4, 6)
        + seq![hdr.unit_id];
    assert(buf@ =~= head + old(buf)@.skip(7));
    let (_, rest) = buf.split_at_mut(7);
    let len = match pdu.encode(rest) {
        Ok(len) => len,
        Err(e) => {
            assert(buf@ =~= head + old(buf)@.skip(7));
            return Err(e);
        },
    };
    assert(buf@ =~= head + pdu.encoding() + old(buf)@.skip(7 + len));
    word_into(buf, 4, ((len + 1) % 0x1_0000) as u16);
    assert(buf@ =~= spec_frame(hdr, pdu.encoding()) + old(buf)@.skip(len + 7));
    Ok(len + 7)
}

/// Decode TCP PDU frames from a buffer.
///
/// Bytes that start no frame are dropped one by one: an unknown function
/// code, a protocol identifier that is not zero and a length field that
/// does not fit cost one byte each. After `MAX_FRAME_LEN` such bytes the
/// last error is returned.
pub fn decode(decoder_type: DecoderType, buf: &[u8]) -> (r: Result<
    Option<(DecodedFrame<'_>, FrameLocation)>,
    Error,
>)
    ensures
        decode_outcome(r) == spec_decode(decoder_type, buf@),
{
    let mut drop_cnt: usize = 0;
    loop
        invariant
            drop_cnt < MAX_FRAME_LEN,
            spec_decode(decoder_type, buf@) == spec_decode_from(
                decoder_type,
                buf@,
                drop_cnt as int,
            ),
        decreases MAX_FRAME_LEN - drop_cnt,
    {
        if drop_cnt + 1 >= buf.len() {
            return Ok(None);
        }
        let raw_frame = &buf[drop_cnt..buf.len()];
        let pdu_len = match decoder_type {
            DecoderType::Request => request_pdu_len(raw_frame),
            DecoderType::Response => response_pdu_len(raw_frame),
        };
        let res = match pdu_len {
            Ok(Some(pdu_len)) => match extract_frame(raw_frame, pdu_len) {
                Ok(Some(frame)) => {
                    let location = FrameLocation { start: drop_cnt, size: pdu_len + 7 };
                    return Ok(Some((frame, location)));
                },
                Ok(None) => {
                    return Ok(None);
                },
                Err(err) => err,
            },
            Ok(None) => {
                return Ok(None);
            },
            Err(err) => err,
        };
        if drop_cnt + 1 >= MAX_FRAME_LEN {
            return Err(res);
        }
        drop_cnt = drop_cnt + 1;
    }
}

/// Extract a PDU frame out of a buffer.
pub fn extract_frame(buf: &[u8], pdu_len: usize) -> (r: Result<Option<DecodedFrame<'_>>, Error>)
    ensures
        frame_outcome(r) == spec_extract_frame(buf@, pdu_len as int),
{
    if buf.len() < 7 || buf.len() - 7 < pdu_len {
        // Incomplete frame
        return Ok(None);
    }
    let protocol_id = word_from(buf, 2);
    if protocol_id != 0 {
        return Err(Error::ProtocolNotModbus(protocol_id));
    }
    let transaction = word_from(buf, 0);
    let m_length = word_from(buf, 4) as usize;
    let unit = buf[6];
    if m_length != pdu_len + 1 {
        return Err(Error::LengthMismatch(m_length, pdu_len + 1));
    }
    let pdu_data = &buf[7..7 + pdu_len];
    Ok(Some(DecodedFrame { transaction_id: transaction, unit_id: unit, pdu: pdu_data }))
}

/// Extract the PDU length out of the ADU request buffer.
pub fn request_pdu_len(adu_buf: &[u8]) -> (r: Result<Option<usize>, Error>)
    ensures
        r == spec_request_pdu_len(adu_buf@),
{
    if adu_buf.len() < 8 {
        return Ok(None);
    }
    let fn_code = adu_buf[7];
    let len = match fn_code {
        0x01..=0x06 => Some(5),
        0x07 | 0x0B | 0x0C | 0x11 => Some(1),
        0x0F | 0x10 => {
            if adu_buf.len() > 12 {
                Some(6 + adu_buf[12] as usize)
            } else {
                // incomplete frame
                None
            }
        },
        0x16 => Some(7),
        0x18 => Some(3),
        0x17 => {
            if adu_buf.len() > 16 {
                Some(10 + adu_buf[16] as usize)
            } else {
                // incomplete frame
                None
            }
        },
        _ => {
            return Err(Error::FnCode(fn_code));
        },
    };
    Ok(len)
}

/// Extract the PDU length out of the ADU response buffer.
pub fn response_pdu_len(adu_buf: &[u8]) -> (r: Result<Option<usize>, Error>)
    ensures
        r == spec_response_pdu_len(adu_buf@),
{
    if adu_buf.len() < 8 {
        return Ok(None);
    }
    let fn_code = adu_buf[7];
    let len = match fn_code {
        0x01..=0x04 | 0x0C | 0x17 => {
            if adu_buf.len() > 8 {
                Some(2 + adu_buf[8] as usize)
            } else {
                // incomplete frame
                None
            }
        },
        0x05 => Some(3),
        0x06 | 0x0B | 0x0F | 0x10 => Some(5),
        0x07 | 0x81..=0xAB => Some(2),
        0x16 => Some(7),
        0x18 => {
            if adu_buf.len() > 9 {
                Some(3 + word_from(adu_buf, 8) as usize)
            } else {
                // incomplete frame
                None
            }
        },
        _ => {
            return Err(Error::FnCode(fn_code));
        },
    };
    Ok(len)
}

} // verus!
