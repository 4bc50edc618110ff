//! What the TCP framer finds, and what it never lets through.

use super::client::spec_decode_response_adu;
use super::server::spec_decode_request_adu;
use super::{
    spec_attempt, spec_decode, spec_decode_from, spec_extract_frame, spec_frame, spec_pdu_len,
    FrameLocation, FrameView, Header, RequestAduView, ResponseAduView, MAX_FRAME_LEN,
};
use crate::codec::laws::{
    is_plain_request, is_plain_response_pdu, lemma_plain_response_pdu_round_trips,
    lemma_request_round_trip, lemma_response_pdu_head, lemma_response_pdu_round_trip, moved,
    request_as_received, request_fits_wire, response_length_is_read, response_pdu_as_received,
    response_pdu_round_trips,
};
use crate::codec::{
    in_u16, spec_encode_request, spec_encode_response_pdu, word_in, DecoderType,
};
use crate::endian::{hi_byte, lo_byte};
use crate::error::Error;
use crate::frame::{ExceptionResponse, RequestView, ResponseView};
use vstd::prelude::*;

verus! {

/// The framer reads `len` as the length of the PDU of the frame at the
/// front of `buf`.
pub open spec fn predicts(kind: DecoderType, buf: Seq<u8>, len: nat) -> bool {
    spec_pdu_len(kind, buf) matches Ok(Some(n)) && n == len
}

/// Every attempt to read a frame before byte `upto` of `buf` is an error:
/// the bytes before `upto` are noise that the decoder drops.
pub open spec fn is_noise(kind: DecoderType, buf: Seq<u8>, upto: int) -> bool {
    forall|j: int| 0 <= j < upto ==> (#[trigger] spec_attempt(kind, buf, j)) is Err
}

/// The frame that the header and the PDU make.
pub open spec fn frame_of(hdr: Header, pdu: Seq<u8>) -> FrameView {
    FrameView { transaction_id: hdr.transaction_id, unit_id: hdr.unit_id, pdu }
}

/// The attempt at byte 0 of a buffer whose front is a frame, where the
/// framer reads the length of its PDU and the length field can hold it,
/// gives that frame.
pub proof fn lemma_frame_is_read(kind: DecoderType, hdr: Header, pdu: Seq<u8>, tail: Seq<u8>)
    requires
        pdu.len() + 1 <= 0xFFFF,
        predicts(kind, spec_frame(hdr, pdu) + tail, pdu.len()),
    ensures
        spec_attempt(kind, spec_frame(hdr, pdu) + tail, 0) == Ok::<
            Option<(FrameView, FrameLocation)>,
            Error,
        >(Some((frame_of(hdr, pdu), FrameLocation { start: 0, size: (pdu.len() + 7) as usize }))),
{
    let buf = spec_frame(hdr, pdu) + tail;
    let len = pdu.len() as int;
    let length = in_u16(pdu.len() + 1);
    assert(buf.skip(0) =~= buf);
    assert(buf.subrange(7, 7 + len) =~= pdu);
    assert(buf[0] == hi_byte(hdr.transaction_id));
    assert(buf[1] == lo_byte(hdr.transaction_id));
    assert(buf[2] == hi_byte(0));
    assert(buf[3] == lo_byte(0));
    assert(buf[4] == hi_byte(length));
    assert(buf[5] == lo_byte(length));
    assert(buf[6] == hdr.unit_id);
    assert(word_in(buf, 0) == hdr.transaction_id);
    assert(word_in(buf, 2) == 0);
    assert(word_in(buf, 4) == length);
}

/// Decoding drops noise: where every attempt before byte `upto` is an
/// error, decoding goes on at byte `upto`.
pub proof fn lemma_noise_is_dropped(kind: DecoderType, buf: Seq<u8>, upto: int)
    requires
        0 <= upto < MAX_FRAME_LEN,
        is_noise(kind, buf, upto),
    ensures
        spec_decode(kind, buf) == spec_decode_from(kind, buf, upto),
    decreases upto,
{
    if upto > 0 {
        lemma_noise_is_dropped(kind, buf, upto - 1);
        assert(spec_attempt(kind, buf, upto - 1) is Err);
    }
}

/// An attempt reads only the bytes from its position on: behind a prefix it
/// gives what it gives at the front of the rest, moved by the prefix.
pub proof fn lemma_attempt_behind_prefix(kind: DecoderType, prefix: Seq<u8>, rest: Seq<u8>)
    requires
        prefix.len() < MAX_FRAME_LEN,
    ensures
        spec_attempt(kind, prefix + rest, prefix.len() as int) == moved(
            spec_attempt(kind, rest, 0),
            prefix.len(),
        ),
{
    assert((prefix + rest).skip(prefix.len() as int) =~= rest);
    assert(rest.skip(0) =~= rest);
}

/// A frame behind fewer than `MAX_FRAME_LEN` bytes of noise is found where
/// it starts: decoding gives the frame, and the number of bytes of noise as
/// its start.
pub proof fn lemma_frame_is_found_behind_noise(
    kind: DecoderType,
    noise: Seq<u8>,
    hdr: Header,
    pdu: Seq<u8>,
    tail: Seq<u8>,
)
    requires
        noise.len() < MAX_FRAME_LEN,
        pdu.len() + 1 <= 0xFFFF,
        predicts(kind, spec_frame(hdr, pdu) + tail, pdu.len()),
        is_noise(kind, noise + (spec_frame(hdr, pdu) + tail), noise.len() as int),
    ensures
        spec_decode(kind, noise + (spec_frame(hdr, pdu) + tail)) == Ok::<
            Option<(FrameView, FrameLocation)>,
            Error,
        >(
            Some(
                (
                    frame_of(hdr, pdu),
                    FrameLocation { start: noise.len() as usize, size: (pdu.len() + 7) as usize },
                ),
            ),
        ),
{
    let rest = spec_frame(hdr, pdu) + tail;
    lemma_noise_is_dropped(kind, noise + rest, noise.len() as int);
    lemma_attempt_behind_prefix(kind, noise, rest);
    lemma_frame_is_read(kind, hdr, pdu, tail);
}

/// Decoding a buffer whose front is a frame gives that frame, at start 0.
pub proof fn lemma_frame_round_trip(kind: DecoderType, hdr: Header, pdu: Seq<u8>, tail: Seq<u8>)
    requires
        pdu.len() + 1 <= 0xFFFF,
        predicts(kind, spec_frame(hdr, pdu) + tail, pdu.len()),
    ensures
        spec_decode(kind, spec_frame(hdr, pdu) + tail) == Ok::<
            Option<(FrameView, FrameLocation)>,
            Error,
        >(Some((frame_of(hdr, pdu), FrameLocation { start: 0, size: (pdu.len() + 7) as usize }))),
{
    lemma_frame_is_read(kind, hdr, pdu, tail);
}

/// Decoding the encoding of a request ADU gives it back, header and all,
/// the request as received. This holds of a request as in
/// `lemma_request_round_trip` of whose frame the framer reads the length.
pub proof fn lemma_request_adu_round_trip(adu: RequestAduView, tail: Seq<u8>)
    requires
        adu.pdu.wf(),
        request_fits_wire(adu.pdu),
        adu.pdu.pdu_len() + 1 <= 0xFFFF,
        predicts(
            DecoderType::Request,
            spec_frame(adu.hdr, spec_encode_request(adu.pdu)) + tail,
            adu.pdu.pdu_len(),
        ),
    ensures
        spec_decode_request_adu(spec_frame(adu.hdr, spec_encode_request(adu.pdu)) + tail) == Ok::<
            Option<RequestAduView>,
            Error,
        >(Some(RequestAduView { hdr: adu.hdr, pdu: request_as_received(adu.pdu) })),
{
    lemma_request_round_trip(adu.pdu);
    lemma_frame_round_trip(DecoderType::Request, adu.hdr, spec_encode_request(adu.pdu), tail);
}

/// Decoding the encoding of a response ADU gives it back, header and all,
/// the response as received. This holds of a response PDU as in
/// `lemma_response_pdu_round_trip` of whose frame the framer reads the
/// length.
pub proof fn lemma_response_adu_round_trip(adu: ResponseAduView, tail: Seq<u8>)
    requires
        response_pdu_round_trips(adu.pdu),
        spec_encode_response_pdu(adu.pdu).len() + 1 <= 0xFFFF,
        predicts(
            DecoderType::Response,
            spec_frame(adu.hdr, spec_encode_response_pdu(adu.pdu)) + tail,
            spec_encode_response_pdu(adu.pdu).len(),
        ),
    ensures
        spec_decode_response_adu(spec_frame(adu.hdr, spec_encode_response_pdu(adu.pdu)) + tail)
            == Ok::<Option<ResponseAduView>, Error>(
            Some(ResponseAduView { hdr: adu.hdr, pdu: response_pdu_as_received(adu.pdu) }),
        ),
{
    lemma_response_pdu_round_trip(adu.pdu);
    lemma_frame_round_trip(
        DecoderType::Response,
        adu.hdr,
        spec_encode_response_pdu(adu.pdu),
        tail,
    );
}

/// Of the frame of a plain request the framer reads the length, whatever
/// follows the frame.
pub proof fn lemma_request_length_is_read(hdr: Header, r: RequestView, tail: Seq<u8>)
    requires
        is_plain_request(r),
    ensures
        r.pdu_len() <= 265,
        predicts(DecoderType::Request, spec_frame(hdr, spec_encode_request(r)) + tail, r.pdu_len()),
{
    lemma_request_round_trip(r);
}

/// Decoding the encoding of a request ADU gives it back, header and all,
/// the request as received, for every plain request.
pub proof fn lemma_plain_request_adu_round_trip(adu: RequestAduView, tail: Seq<u8>)
    requires
        is_plain_request(adu.pdu),
    ensures
        spec_decode_request_adu(spec_frame(adu.hdr, spec_encode_request(adu.pdu)) + tail) == Ok::<
            Option<RequestAduView>,
            Error,
        >(Some(RequestAduView { hdr: adu.hdr, pdu: request_as_received(adu.pdu) })),
{
    lemma_request_length_is_read(adu.hdr, adu.pdu, tail);
    lemma_request_adu_round_trip(adu, tail);
}

/// Of the frame of a response with a variant of its own, and of that of an
/// exception response to a function code from `0x01` to `0x2B`, the framer
/// reads the length, whatever follows the frame.
pub proof fn lemma_response_length_is_read(
    hdr: Header,
    pdu: Result<ResponseView, ExceptionResponse>,
    tail: Seq<u8>,
)
    requires
        response_length_is_read(pdu),
    ensures
        spec_encode_response_pdu(pdu).len() <= 257,
        predicts(
            DecoderType::Response,
            spec_frame(hdr, spec_encode_response_pdu(pdu)) + tail,
            spec_encode_response_pdu(pdu).len(),
        ),
{
    lemma_response_pdu_head(pdu);
}

/// Decoding the encoding of a response ADU gives it back, header and all,
/// the response as received, for every response with a variant of its own
/// and every exception response to a function code from `0x01` to `0x2B`.
pub proof fn lemma_plain_response_adu_round_trip(adu: ResponseAduView, tail: Seq<u8>)
    requires
        is_plain_response_pdu(adu.pdu),
    ensures
        spec_decode_response_adu(spec_frame(adu.hdr, spec_encode_response_pdu(adu.pdu)) + tail)
            == Ok::<Option<ResponseAduView>, Error>(
            Some(ResponseAduView { hdr: adu.hdr, pdu: response_pdu_as_received(adu.pdu) }),
        ),
{
    lemma_plain_response_pdu_round_trips(adu.pdu);
    lemma_response_length_is_read(adu.hdr, adu.pdu, tail);
    lemma_response_adu_round_trip(adu, tail);
}

/// A buffer that holds a whole frame is refused where its protocol
/// identifier is not zero, and else where its length field is not one more
/// than the length of the PDU.
pub proof fn lemma_extract_frame_rejects(buf: Seq<u8>, pdu_len: int)
    requires
        0 <= pdu_len,
        buf.len() >= 7 + pdu_len,
    ensures
        word_in(buf, 2) != 0 ==> spec_extract_frame(buf, pdu_len) == Err::<
            Option<FrameView>,
            Error,
        >(Error::ProtocolNotModbus(word_in(buf, 2))),
        word_in(buf, 2) == 0 && word_in(buf, 4) != pdu_len + 1 ==> spec_extract_frame(
            buf,
            pdu_len,
        ) == Err::<Option<FrameView>, Error>(
            Error::LengthMismatch(word_in(buf, 4) as usize, (pdu_len + 1) as usize),
        ),
        word_in(buf, 2) == 0 && word_in(buf, 4) == pdu_len + 1 ==> spec_extract_frame(
            buf,
            pdu_len,
        ) is Ok,
{
}

/// The frame is in `buf` at its location, behind a header whose protocol
/// identifier is zero and whose length field is one more than the length of
/// the PDU.
pub open spec fn is_checked_frame(
    kind: DecoderType,
    buf: Seq<u8>,
    frame: FrameView,
    location: FrameLocation,
) -> bool {
    let start = location.start as int;
    let len = frame.pdu.len() as int;
    &&& start < MAX_FRAME_LEN
    &&& location.size == len + 7
    &&& start + len + 7 <= buf.len()
    &&& predicts(kind, buf.skip(start), frame.pdu.len())
    &&& frame.transaction_id == word_in(buf, start)
    &&& word_in(buf, start + 2) == 0
    &&& word_in(buf, start + 4) == len + 1
    &&& frame.unit_id == buf[start + 6]
    &&& frame.pdu == buf.subrange(start + 7, start + 7 + len)
}

proof fn lemma_decode_from_is_checked(kind: DecoderType, buf: Seq<u8>, at: int)
    requires
        0 <= at < MAX_FRAME_LEN,
    ensures
        spec_decode_from(kind, buf, at) matches Ok(Some((frame, location))) ==> location.start
            >= at && is_checked_frame(kind, buf, frame, location),
    decreases MAX_FRAME_LEN - at,
{
    match spec_attempt(kind, buf, at) {
        Err(_) => {
            if at + 1 < MAX_FRAME_LEN {
                lemma_decode_from_is_checked(kind, buf, at + 1);
            }
        },
        Ok(None) => {},
        Ok(Some((frame, location))) => {
            let raw = buf.skip(at);
            let len = frame.pdu.len() as int;
            assert(raw.subrange(7, 7 + len) =~= buf.subrange(at + 7, at + 7 + len));
            assert(word_in(raw, 0) == word_in(buf, at));
            assert(word_in(raw, 2) == word_in(buf, at + 2));
            assert(word_in(raw, 4) == word_in(buf, at + 4));
        },
    }
}

/// Decoding never makes up a frame: a frame that it gives is in the buffer
/// at the location it gives, starts before byte `MAX_FRAME_LEN`, has the
/// length that the framer reads, and stands behind a header that passed
/// both checks.
pub proof fn lemma_decoded_frame_is_checked(kind: DecoderType, buf: Seq<u8>)
    ensures
        spec_decode(kind, buf) matches Ok(Some((frame, location))) ==> is_checked_frame(
            kind,
            buf,
            frame,
            location,
        ),
{
    lemma_decode_from_is_checked(kind, buf, 0);
}

} // verus!
