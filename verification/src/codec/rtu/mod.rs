//! Modbus RTU: frames on a serial line, each closed by a CRC.

pub mod client;
pub mod laws;
pub mod server;

use crate::codec::{word_in, word_into, DecoderType, Encode};
use crate::endian::{be_bytes, read_u16_be};
use crate::error::Error;
pub use crate::frame::rtu::{
    Header, RequestAdu, RequestAduView, ResponseAdu, ResponseAduView, SlaveId,
};
pub use crate::frame::FrameLocation;
use vstd::prelude::*;

verus! {

/// The maximum size of a Modbus RTU frame, and the number of bytes after
/// which the search for a frame is given up.
pub const MAX_FRAME_LEN: usize = 256;

/// The model of [`DecodedFrame`]: the slave and the bytes of the PDU.
pub struct FrameView {
    pub slave: u8,
    pub pdu: Seq<u8>,
}

/// An extracted RTU PDU frame.
#[derive(Debug, Clone, Copy, PartialEq, Eq)]
pub struct DecodedFrame<'a> {
    pub slave: SlaveId,
    pub pdu: &'a [u8],
}

impl<'a> View for DecodedFrame<'a> {
    type V = FrameView;

    open spec fn view(&self) -> FrameView {
        FrameView { slave: self.slave, pdu: self.pdu@ }
    }
}

/// One step of the CRC register: a shift to the right, and the polynomial
/// `0xA001` where a one was shifted out.
pub open spec fn crc_shift(crc: u16) -> u16 {
    if crc & 1 != 0 {
        (crc >> 1) ^ 0xA001
    } else {
        crc >> 1
    }
}

/// `n` steps of the CRC register.
pub open spec fn crc_shifts(crc: u16, n: nat) -> u16
    decreases n,
{
    if n == 0 {
        crc
    } else {
        crc_shift(crc_shifts(crc, (n - 1) as nat))
    }
}

/// The CRC register after one more byte.
pub open spec fn crc_update(crc: u16, byte: u8) -> u16 {
    crc_shifts(crc ^ (byte as u16), 8)
}

/// The CRC register after the bytes of `data`, from the seed `0xFFFF`.
pub open spec fn crc_register(data: Seq<u8>) -> u16
    decreases data.len(),
{
    if data.len() == 0 {
        0xFFFF
    } else {
        crc_update(crc_register(data.drop_last()), data.last())
    }
}

/// A word with its two bytes exchanged.
pub open spec fn swap_bytes(word: u16) -> u16 {
    (word << 8) | (word >> 8)
}

/// The Modbus CRC of `data`, with its bytes exchanged: written big-endian,
/// its low byte comes first, as the wire wants it.
pub open spec fn spec_crc16(data: Seq<u8>) -> u16 {
    swap_bytes(crc_register(data))
}

/// The length of the request PDU that starts at byte 1 of `adu`: nothing
/// where the prefix is too short to tell, an error for a function code
/// whose length is not known.
pub open spec fn spec_request_pdu_len(adu: Seq<u8>) -> Result<Option<usize>, Error> {
    if adu.len() < 2 {
        Ok(None)
    } else {
        let fn_code = adu[1];
        if 0x01 <= fn_code <= 0x06 {
            Ok(Some(5))
        } else if fn_code == 0x07 || fn_code == 0x0B || fn_code == 0x0C || fn_code == 0x11 {
            Ok(Some(1))
        } else if fn_code == 0x0F || fn_code == 0x10 {
            if adu.len() > 4 {
                Ok(Some((6 + adu[4]) as usize))
            } else {
                Ok(None)
            }
        } else if fn_code == 0x16 {
            Ok(Some(7))
        } else if fn_code == 0x18 {
            Ok(Some(3))
        } else if fn_code == 0x17 {
            if adu.len() > 10 {
                Ok(Some((10 + adu[10]) as usize))
            } else {
                Ok(None)
            }
        } else {
            Err(Error::FnCode(fn_code))
        }
    }
}

/// The length of the response PDU that starts at byte 1 of `adu`: nothing
/// where the prefix is too short to tell, an error for a function code
/// whose length is not known.
pub open spec fn spec_response_pdu_len(adu: Seq<u8>) -> Result<Option<usize>, Error> {
    if adu.len() < 2 {
        Ok(None)
    } else {
        let fn_code = adu[1];
        if 0x01 <= fn_code <= 0x04 || fn_code == 0x0C || fn_code == 0x17 {
            if adu.len() > 2 {
                Ok(Some((2 + adu[2]) as usize))
            } else {
                Ok(None)
            }
        } else if fn_code == 0x05 {
            Ok(Some(3))
        } else if fn_code == 0x06 || fn_code == 0x0B || fn_code == 0x0F || fn_code == 0x10 {
            Ok(Some(5))
        } else if fn_code == 0x07 || 0x81 <= fn_code <= 0xAB {
            Ok(Some(2))
        } else if fn_code == 0x16 {
            Ok(Some(7))
        } else if fn_code == 0x18 {
            if adu.len() > 3 {
                Ok(Some((3 + word_in(adu, 2)) as usize))
            } else {
                Ok(None)
            }
        } else {
            Err(Error::FnCode(fn_code))
        }
    }
}

/// The length that the framer of the given kind reads from `adu`.
pub open spec fn spec_pdu_len(kind: DecoderType, adu: Seq<u8>) -> Result<Option<usize>, Error> {
    match kind {
        DecoderType::Request => spec_request_pdu_len(adu),
        DecoderType::Response => spec_response_pdu_len(adu),
    }
}

/// The frame at the front of `buf` whose PDU has `pdu_len` bytes: nothing
/// while the buffer is shorter than the frame, an error where the CRC that
/// closes the frame is not the one of its bytes.
pub open spec fn spec_extract_frame(buf: Seq<u8>, pdu_len: int) -> Result<Option<FrameView>, Error> {
    if buf.len() < pdu_len + 3 {
        Ok(None)
    } else {
        let expected = word_in(buf, 1 + pdu_len);
        let actual = spec_crc16(buf.take(1 + pdu_len));
        if expected != actual {
            Err(Error::Crc(expected, actual))
        } else {
            Ok(Some(FrameView { slave: buf[0], pdu: buf.subrange(1, 1 + pdu_len) }))
        }
    }
}

/// What the attempt to read a frame at byte `at` of `buf` gives: the frame
/// and its location, nothing where more bytes are needed, or the error that
/// makes the decoder drop a byte.
pub open spec fn spec_attempt(kind: DecoderType, buf: Seq<u8>, at: int) -> Result<
    Option<(FrameView, FrameLocation)>,
    Error,
> {
    if at + 1 >= buf.len() {
        Ok(None)
    } else {
        match spec_pdu_len(kind, buf.skip(at)) {
            Err(e) => Err(e),
            Ok(None) => Ok(None),
            Ok(Some(pdu_len)) => match spec_extract_frame(buf.skip(at), pdu_len as int) {
                Err(e) => Err(e),
                Ok(None) => Ok(None),
                Ok(Some(frame)) => Ok(
                    Some(
                        (frame, FrameLocation { start: at as usize, size: (pdu_len + 3) as usize }),
                    ),
                ),
            },
        }
    }
}

/// What decoding gives once the bytes before `at` have been dropped: the
/// outcome of the first attempt that is no error, or the error of the
/// attempt at byte `MAX_FRAME_LEN - 1`.
pub open spec fn spec_decode_from(kind: DecoderType, buf: Seq<u8>, at: int) -> Result<
    Option<(FrameView, FrameLocation)>,
    Error,
>
    decreases MAX_FRAME_LEN - at,
{
    match spec_attempt(kind, buf, at) {
        Err(e) => if at + 1 >= MAX_FRAME_LEN {
            Err(e)
        } else {
            spec_decode_from(kind, buf, at + 1)
        },
        outcome => outcome,
    }
}

/// What decoding `buf` gives.
pub open spec fn spec_decode(kind: DecoderType, buf: Seq<u8>) -> Result<
    Option<(FrameView, FrameLocation)>,
    Error,
> {
    spec_decode_from(kind, buf, 0)
}

/// The model of the outcome of extracting a frame.
pub open spec fn frame_outcome(r: Result<Option<DecodedFrame<'_>>, Error>) -> Result<
    Option<FrameView>,
    Error,
> {
    match r {
        Ok(Some(frame)) => Ok(Some(frame@)),
        Ok(None) => Ok(None),
        Err(e) => Err(e),
    }
}

/// The model of the outcome of decoding.
pub open spec fn decode_outcome(
    r: Result<Option<(DecodedFrame<'_>, FrameLocation)>, Error>,
) -> Result<Option<(FrameView, FrameLocation)>, Error> {
    match r {
        Ok(Some((frame, location))) => Ok(Some((frame@, location))),
        Ok(None) => Ok(None),
        Err(e) => Err(e),
    }
}

/// Decode RTU PDU frames from a buffer.
///
/// Bytes that start no frame are dropped one by one: an unknown function
/// code and a CRC that does not fit cost one byte each. After
/// `MAX_FRAME_LEN` such bytes the last error is returned.
pub fn decode(decoder_type: DecoderType, buf: &[u8]) -> (r: Result<
    Option<(DecodedFrame<'_>, FrameLocation)>,
    Error,
>)
    ensures
        decode_outcome(r) == spec_decode(decoder_type, buf@),
{
    let mut drop_cnt: usize = 0;
    loop
        invariant
            drop_cnt < MAX_FRAME_LEN,
            spec_decode(decoder_type, buf@) == spec_decode_from(
                decoder_type,
                buf@,
                drop_cnt as int,
            ),
        decreases MAX_FRAME_LEN - drop_cnt,
    {
        if drop_cnt + 1 >= buf.len() {
            return Ok(None);
        }
        let raw_frame = &buf[drop_cnt..buf.len()];
        let pdu_len = match decoder_type {
            DecoderType::Request => request_pdu_len(raw_frame),
            DecoderType::Response => response_pdu_len(raw_frame),
        };
        let res = match pdu_len {
            Ok(Some(pdu_len)) => match extract_frame(raw_frame, pdu_len) {
                Ok(Some(frame)) => {
                    let location = FrameLocation { start: drop_cnt, size: pdu_len + 3 };
                    return Ok(Some((frame, location)));
                },
                Ok(None) => {
                    return Ok(None);
                },
                Err(err) => err,
            },
            Ok(None) => {
                return Ok(None);
            },
            Err(err) => err,
        };
        if drop_cnt + 1 >= MAX_FRAME_LEN {
            return Err(res);
        }
        drop_cnt = drop_cnt + 1;
    }
}

/// Extract a PDU frame out of a buffer.
pub fn extract_frame(buf: &[u8], pdu_len: usize) -> (r: Result<Option<DecodedFrame<'_>>, Error>)
    ensures
        frame_outcome(r) == spec_extract_frame(buf@, pdu_len as int),
{
    if buf.len() < 3 || buf.len() - 3 < pdu_len {
        // Incomplete frame
        return Ok(None);
    }
    let adu_len = 1 + pdu_len;
    let adu_buf = &buf[0..adu_len];
    let crc_buf = &buf[adu_len..adu_len + 2];
    // Read trailing CRC and verify ADU
    let expected_crc = read_u16_be(crc_buf);
    let actual_crc = crc16(adu_buf);
    if expected_crc != actual_crc {
        return Err(Error::Crc(expected_crc, actual_crc));
    }
    let slave_id = adu_buf[0];
    let pdu_data = &adu_buf[1..adu_len];
    proof {
        assert(adu_buf@ =~= buf@.take(1 + pdu_len));
        assert(pdu_data@ =~= buf@.subrange(1, 1 + pdu_len));
    }
    Ok(Some(DecodedFrame { slave: slave_id, pdu: pdu_data }))
}

/// Calculate the CRC (Cyclic Redundancy Check) sum.
pub fn crc16(data: &[u8]) -> (crc: u16)
    ensures
        crc == spec_crc16(data@),
{
    let mut crc: u16 = 0xFFFF;
    let mut i: usize = 0;
    while i < data.len()
        invariant
            i <= data@.len(),
            crc == crc_register(data@.take(i as int)),
        decreases data@.len() - i,
    {
        crc = crc ^ (data[i] as u16);
        let ghost start = crc;
        let mut round: u8 = 0;
        while round < 8
            invariant
                round <= 8,
                crc == crc_shifts(start, round as nat),
            decreases 8 - round,
        {
            if (crc & 0x0001) != 0 {
                crc = (crc >> 1) ^ 0xA001;
            } else {
                crc = crc >> 1;
            }
            round = round + 1;
        }
        proof {
            assert(data@.take(i + 1).drop_last() =~= data@.take(i as int));
            assert(data@.take(i + 1).last() == data@[i as int]);
        }
        i = i + 1;
    }
    proof {
        assert(data@.take(i as int) =~= data@);
    }
    (crc << 8) | (crc >> 8)
}

/// The bytes of the frame that carries a PDU to or from a slave: the slave,
/// the PDU, and the CRC of both.
pub open spec fn spec_frame(slave: u8, pdu: Seq<u8>) -> Seq<u8> {
    seq![slave] + pdu + be_bytes(spec_crc16(seq![slave] + pdu))
}

/// What encoding a frame returns, and what it leaves in a buffer that held
/// `buf`: the frame at the front where the buffer has room for it. The PDU
/// is written before the room for the CRC is known, so a buffer that only
/// lacks that room holds the PDU after the error.
pub open spec fn spec_encode_adu(slave: u8, pdu: Seq<u8>, buf: Seq<u8>) -> (
    Result<usize, Error>,
    Seq<u8>,
) {
    if buf.len() < 1 + pdu.len() {
        (Err(Error::BufferSize), buf)
    } else if buf.len() < pdu.len() + 3 {
        (Err(Error::BufferSize), buf.take(1) + pdu + buf.skip(1 + pdu.len() as int))
    } else {
        (Ok((pdu.len() + 3) as usize), spec_frame(slave, pdu) + buf.skip(pdu.len() as int + 3))
    }
}

/// Writes the frame that carries `pdu` to or from `slave` to the front of
/// `buf`, and returns its length.
pub(crate) fn encode_adu<P: Encode>(slave: SlaveId, pdu: &P, buf: &mut [u8]) -> (r: Result<
    usize,
    Error,
>)
    requires
        pdu.encodable(),
    ensures
        (r, final(buf)@) == spec_encode_adu(slave, pdu.encoding(), old(buf)@),
{
    if buf.is_empty() {
        return Err(Error::BufferSize);
    }
    let room = buf.len();
    let (_, rest) = buf.split_at_mut(1);
    let len = match pdu.encode(rest) {
        Ok(len) => len,
        Err(e) => {
            assert(buf@ =~= old(buf)@);
            return Err(e);
        },
    };
    assert(buf@ =~= old(buf)@.take(1) + pdu.encoding() + old(buf)@.skip(1 + len));
    if room - 1 - len < 2 {
        return Err(Error::BufferSize);
    }
    buf[0] = slave;
    let crc = crc16(&buf[0..len + 1]);
    assert(buf@.subrange(0, len + 1) =~= seq![slave] + pdu.encoding());
    word_into(buf, len + 1, crc);
    assert(buf@ =~= spec_frame(slave, pdu.encoding()) + old(buf)@.skip(len + 3));
    Ok(len + 3)
}

/// Extract the PDU length out of the ADU request buffer.
pub fn request_pdu_len(adu_buf: &[u8]) -> (r: Result<Option<usize>, Error>)
    ensures
        r == spec_request_pdu_len(adu_buf@),
{
    if adu_buf.len() < 2 {
        return Ok(None);
    }
    let fn_code = adu_buf[1];
    let len = match fn_code {
        0x01..=0x06 => Some(5),
        0x07 | 0x0B | 0x0C | 0x11 => Some(1),
        0x0F | 0x10 => {
            if adu_buf.len() > 4 {
                Some(6 + adu_buf[4] as usize)
            } else {
                // incomplete frame
                None
            }
        },
        0x16 => Some(7),
        0x18 => Some(3),
        0x17 => {
            if adu_buf.len() > 10 {
                Some(10 + adu_buf[10] as usize)
            } else {
                // incomplete frame
                None
            }
        },
        _ => {
            return Err(Error::FnCode(fn_code));
        },
    };
    Ok(len)
}

/// Extract the PDU length out of the ADU response buffer.
pub fn response_pdu_len(adu_buf: &[u8]) -> (r: Result<Option<usize>, Error>)
    ensures
        r == spec_response_pdu_len(adu_buf@),
{
    if adu_buf.len() < 2 {
        return Ok(None);
    }
    let fn_code = adu_buf[1];
    let len = match fn_code {
        0x01..=0x04 | 0x0C | 0x17 => {
            if adu_buf.len() > 2 {
                Some(2 + adu_buf[2] as usize)
            } else {
                // incomplete frame
                None
            }
        },
        0x05 => Some(3),
        0x06 | 0x0B | 0x0F | 0x10 => Some(5),
        0x07 | 0x81..=0xAB => Some(2),
        0x16 => Some(7),
        0x18 => {
            if adu_buf.len() > 3 {
                Some(3 + read_u16_be(&adu_buf[2..4]) as usize)
            } else {
                // incomplete frame
                None
            }
        },
        _ => {
            return Err(Error::FnCode(fn_code));
        },
    };
    Ok(len)
}

} // verus!
