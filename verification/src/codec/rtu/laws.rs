//! What the RTU framer finds, and what it never lets through.

use super::client::spec_decode_response_adu;
use super::server::spec_decode_request_adu;
use super::{
    crc_register, crc_shifts, crc_update, spec_attempt, spec_crc16, spec_decode,
    spec_decode_from, spec_extract_frame, spec_frame, spec_pdu_len, FrameLocation, FrameView,
    RequestAduView, ResponseAduView, MAX_FRAME_LEN,
};
use crate::codec::laws::{
    is_plain_request, is_plain_response_pdu, lemma_plain_response_pdu_round_trips,
    lemma_request_round_trip, lemma_response_pdu_head, lemma_response_pdu_round_trip, moved,
    request_as_received, request_fits_wire, response_length_is_read, response_pdu_as_received,
    response_pdu_round_trips,
};
use crate::codec::{spec_encode_request, spec_encode_response_pdu, word_in, DecoderType};
use crate::endian::{hi_byte, lo_byte};
use crate::error::Error;
use crate::frame::{ExceptionResponse, RequestView, ResponseView};
use vstd::prelude::*;

verus! {

/// The framer reads `len` as the length of the PDU of the frame at the
/// front of `buf`.
pub open spec fn predicts(kind: DecoderType, buf: Seq<u8>, len: nat) -> bool {
    spec_pdu_len(kind, buf) matches Ok(Some(n)) && n == len
}

/// Every attempt to read a frame before byte `upto` of `buf` is an error:
/// the bytes before `upto` are noise that the decoder drops.
pub open spec fn is_noise(kind: DecoderType, buf: Seq<u8>, upto: int) -> bool {
    forall|j: int| 0 <= j < upto ==> (#[trigger] spec_attempt(kind, buf, j)) is Err
}

/// The attempt at byte 0 of a buffer whose front is a frame, where the
/// framer reads the length of its PDU, gives that frame.
pub proof fn lemma_frame_is_read(kind: DecoderType, slave: u8, pdu: Seq<u8>, tail: Seq<u8>)
    requires
        pdu.len() + 3 <= usize::MAX,
        predicts(kind, spec_frame(slave, pdu) + tail, pdu.len()),
    ensures
        spec_attempt(kind, spec_frame(slave, pdu) + tail, 0) == Ok::<
            Option<(FrameView, FrameLocation)>,
            Error,
        >(
            Some(
                (
                    FrameView { slave, pdu },
                    FrameLocation { start: 0, size: (pdu.len() + 3) as usize },
                ),
            ),
        ),
{
    let buf = spec_frame(slave, pdu) + tail;
    let len = pdu.len() as int;
    let crc = spec_crc16(seq![slave] + pdu);
    assert(buf.skip(0) =~= buf);
    assert(buf.take(1 + len) =~= seq![slave] + pdu);
    assert(buf.subrange(1, 1 + len) =~= pdu);
    assert(buf[1 + len] == hi_byte(crc));
    assert(buf[2 + len] == lo_byte(crc));
    assert(word_in(buf, 1 + len) == crc);
}

/// Decoding drops noise: where every attempt before byte `upto` is an
/// error, decoding goes on at byte `upto`.
pub proof fn lemma_noise_is_dropped(kind: DecoderType, buf: Seq<u8>, upto: int)
    requires
        0 <= upto < MAX_FRAME_LEN,
        is_noise(kind, buf, upto),
    ensures
        spec_decode(kind, buf) == spec_decode_from(kind, buf, upto),
    decreases upto,
{
    if upto > 0 {
        lemma_noise_is_dropped(kind, buf, upto - 1);
        assert(spec_attempt(kind, buf, upto - 1) is Err);
    }
}

/// An attempt reads only the bytes from its position on: behind a prefix it
/// gives what it gives at the front of the rest, moved by the prefix.
pub proof fn lemma_attempt_behind_prefix(kind: DecoderType, prefix: Seq<u8>, rest: Seq<u8>)
    requires
        prefix.len() < MAX_FRAME_LEN,
    ensures
        spec_attempt(kind, prefix + rest, prefix.len() as int) == moved(
            spec_attempt(kind, rest, 0),
            prefix.len(),
        ),
{
    assert((prefix + rest).skip(prefix.len() as int) =~= rest);
    assert(rest.skip(0) =~= rest);
}

/// A frame behind fewer than `MAX_FRAME_LEN` bytes of noise is found where
/// it starts: decoding gives the frame, and the number of bytes of noise as
/// its start.
pub proof fn lemma_frame_is_found_behind_noise(
    kind: DecoderType,
    noise: Seq<u8>,
    slave: u8,
    pdu: Seq<u8>,
    tail: Seq<u8>,
)
    requires
        noise.len() < MAX_FRAME_LEN,
        pdu.len() + 3 <= usize::MAX,
        predicts(kind, spec_frame(slave, pdu) + tail, pdu.len()),
        is_noise(kind, noise + (spec_frame(slave, pdu) + tail), noise.len() as int),
    ensures
        spec_decode(kind, noise + (spec_frame(slave, pdu) + tail)) == Ok::<
            Option<(FrameView, FrameLocation)>,
            Error,
        >(
            Some(
                (
                    FrameView { slave, pdu },
                    FrameLocation { start: noise.len() as usize, size: (pdu.len() + 3) as usize },
                ),
            ),
        ),
{
    let rest = spec_frame(slave, pdu) + tail;
    lemma_noise_is_dropped(kind, noise + rest, noise.len() as int);
    lemma_attempt_behind_prefix(kind, noise, rest);
    lemma_frame_is_read(kind, slave, pdu, tail);
}

/// Decoding a buffer whose front is a frame gives that frame, at start 0.
pub proof fn lemma_frame_round_trip(kind: DecoderType, slave: u8, pdu: Seq<u8>, tail: Seq<u8>)
    requires
        pdu.len() + 3 <= usize::MAX,
        predicts(kind, spec_frame(slave, pdu) + tail, pdu.len()),
    ensures
        spec_decode(kind, spec_frame(slave, pdu) + tail) == Ok::<
            Option<(FrameView, FrameLocation)>,
            Error,
        >(
            Some(
                (
                    FrameView { slave, pdu },
                    FrameLocation { start: 0, size: (pdu.len() + 3) as usize },
                ),
            ),
        ),
{
    lemma_frame_is_read(kind, slave, pdu, tail);
}

/// Decoding the encoding of a request ADU gives it back, header and all,
/// the request as received. This holds of a request as in
/// `lemma_request_round_trip` of whose frame the framer reads the length.
pub proof fn lemma_request_adu_round_trip(adu: RequestAduView, tail: Seq<u8>)
    requires
        adu.pdu.wf(),
        request_fits_wire(adu.pdu),
        adu.pdu.pdu_len() + 3 <= usize::MAX,
        predicts(
            DecoderType::Request,
            spec_frame(adu.hdr.slave, spec_encode_request(adu.pdu)) + tail,
            adu.pdu.pdu_len(),
        ),
    ensures
        spec_decode_request_adu(spec_frame(adu.hdr.slave, spec_encode_request(adu.pdu)) + tail)
            == Ok::<Option<RequestAduView>, Error>(
            Some(RequestAduView { hdr: adu.hdr, pdu: request_as_received(adu.pdu) }),
        ),
{
    lemma_request_round_trip(adu.pdu);
    lemma_frame_round_trip(
        DecoderType::Request,
        adu.hdr.slave,
        spec_encode_request(adu.pdu),
        tail,
    );
}

/// Decoding the encoding of a response ADU gives it back, header and all,
/// the response as received. This holds of a response PDU as in
/// `lemma_response_pdu_round_trip` of whose frame the framer reads the
/// length.
pub proof fn lemma_response_adu_round_trip(adu: ResponseAduView, tail: Seq<u8>)
    requires
        response_pdu_round_trips(adu.pdu),
        spec_encode_response_pdu(adu.pdu).len() + 3 <= usize::MAX,
        predicts(
            DecoderType::Response,
            spec_frame(adu.hdr.slave, spec_encode_response_pdu(adu.pdu)) + tail,
            spec_encode_response_pdu(adu.pdu).len(),
        ),
    ensures
        spec_decode_response_adu(
            spec_frame(adu.hdr.slave, spec_encode_response_pdu(adu.pdu)) + tail,
        ) == Ok::<Option<ResponseAduView>, Error>(
            Some(ResponseAduView { hdr: adu.hdr, pdu: response_pdu_as_received(adu.pdu) }),
        ),
{
    lemma_response_pdu_round_trip(adu.pdu);
    lemma_frame_round_trip(
        DecoderType::Response,
        adu.hdr.slave,
        spec_encode_response_pdu(adu.pdu),
        tail,
    );
}

/// The request is one of whose frame the framer reads the length. It takes
/// byte 4 of the frame for the byte count of a request that writes several
/// coils or registers; that byte is the high byte of their quantity, and
/// the two agree only where the request writes none. Every other plain
/// request is such a request.
pub open spec fn request_length_is_read(r: RequestView) -> bool {
    &&& is_plain_request(r)
    &&& r matches RequestView::WriteMultipleCoils(_, coils) ==> coils.quantity == 0
    &&& r matches RequestView::WriteMultipleRegisters(_, words) ==> words.quantity == 0
}

/// Of the frame of a request as in `request_length_is_read` the framer
/// reads the length, whatever follows the frame.
pub proof fn lemma_request_length_is_read(slave: u8, r: RequestView, tail: Seq<u8>)
    requires
        request_length_is_read(r),
    ensures
        r.pdu_len() <= 265,
        predicts(
            DecoderType::Request,
            spec_frame(slave, spec_encode_request(r)) + tail,
            r.pdu_len(),
        ),
{
    lemma_request_round_trip(r);
}

/// Decoding the encoding of a request ADU gives it back, header and all,
/// the request as received, for every request as in
/// `request_length_is_read`.
pub proof fn lemma_plain_request_adu_round_trip(adu: RequestAduView, tail: Seq<u8>)
    requires
        request_length_is_read(adu.pdu),
    ensures
        spec_decode_request_adu(spec_frame(adu.hdr.slave, spec_encode_request(adu.pdu)) + tail)
            == Ok::<Option<RequestAduView>, Error>(
            Some(RequestAduView { hdr: adu.hdr, pdu: request_as_received(adu.pdu) }),
        ),
{
    lemma_request_length_is_read(adu.hdr.slave, adu.pdu, tail);
    lemma_request_adu_round_trip(adu, tail);
}

/// Of the frame of a response with a variant of its own, and of that of an
/// exception response to a function code from `0x01` to `0x2B`, the framer
/// reads the length, whatever follows the frame.
pub proof fn lemma_response_length_is_read(
    slave: u8,
    pdu: Result<ResponseView, ExceptionResponse>,
    tail: Seq<u8>,
)
    requires
        response_length_is_read(pdu),
    ensures
        spec_encode_response_pdu(pdu).len() <= 257,
        predicts(
            DecoderType::Response,
            spec_frame(slave, spec_encode_response_pdu(pdu)) + tail,
            spec_encode_response_pdu(pdu).len(),
        ),
{
    lemma_response_pdu_head(pdu);
}

/// Decoding the encoding of a response ADU gives it back, header and all,
/// the response as received, for every response with a variant of its own
/// and every exception response to a function code from `0x01` to `0x2B`.
pub proof fn lemma_plain_response_adu_round_trip(adu: ResponseAduView, tail: Seq<u8>)
    requires
        is_plain_response_pdu(adu.pdu),
    ensures
        spec_decode_response_adu(
            spec_frame(adu.hdr.slave, spec_encode_response_pdu(adu.pdu)) + tail,
        ) == Ok::<Option<ResponseAduView>, Error>(
            Some(ResponseAduView { hdr: adu.hdr, pdu: response_pdu_as_received(adu.pdu) }),
        ),
{
    lemma_plain_response_pdu_round_trips(adu.pdu);
    lemma_response_length_is_read(adu.hdr.slave, adu.pdu, tail);
    lemma_response_adu_round_trip(adu, tail);
}

/// A request ADU behind fewer than `MAX_FRAME_LEN` bytes of noise is still
/// decoded, header and all, the request as received.
pub proof fn lemma_request_adu_is_found_behind_noise(
    noise: Seq<u8>,
    adu: RequestAduView,
    tail: Seq<u8>,
)
    requires
        noise.len() < MAX_FRAME_LEN,
        adu.pdu.wf(),
        request_fits_wire(adu.pdu),
        adu.pdu.pdu_len() + 3 <= usize::MAX,
        predicts(
            DecoderType::Request,
            spec_frame(adu.hdr.slave, spec_encode_request(adu.pdu)) + tail,
            adu.pdu.pdu_len(),
        ),
        is_noise(
            DecoderType::Request,
            noise + (spec_frame(adu.hdr.slave, spec_encode_request(adu.pdu)) + tail),
            noise.len() as int,
        ),
    ensures
        spec_decode_request_adu(
            noise + (spec_frame(adu.hdr.slave, spec_encode_request(adu.pdu)) + tail),
        ) == Ok::<Option<RequestAduView>, Error>(
            Some(RequestAduView { hdr: adu.hdr, pdu: request_as_received(adu.pdu) }),
        ),
{
    lemma_request_round_trip(adu.pdu);
    lemma_frame_is_found_behind_noise(
        DecoderType::Request,
        noise,
        adu.hdr.slave,
        spec_encode_request(adu.pdu),
        tail,
    );
}

/// A response ADU behind fewer than `MAX_FRAME_LEN` bytes of noise is still
/// decoded, header and all, the response as received.
pub proof fn lemma_response_adu_is_found_behind_noise(
    noise: Seq<u8>,
    adu: ResponseAduView,
    tail: Seq<u8>,
)
    requires
        noise.len() < MAX_FRAME_LEN,
        response_pdu_round_trips(adu.pdu),
        spec_encode_response_pdu(adu.pdu).len() + 3 <= usize::MAX,
        predicts(
            DecoderType::Response,
            spec_frame(adu.hdr.slave, spec_encode_response_pdu(adu.pdu)) + tail,
            spec_encode_response_pdu(adu.pdu).len(),
        ),
        is_noise(
            DecoderType::Response,
            noise + (spec_frame(adu.hdr.slave, spec_encode_response_pdu(adu.pdu)) + tail),
            noise.len() as int,
        ),
    ensures
        spec_decode_response_adu(
            noise + (spec_frame(adu.hdr.slave, spec_encode_response_pdu(adu.pdu)) + tail),
        ) == Ok::<Option<ResponseAduView>, Error>(
            Some(ResponseAduView { hdr: adu.hdr, pdu: response_pdu_as_received(adu.pdu) }),
        ),
{
    lemma_response_pdu_round_trip(adu.pdu);
    lemma_frame_is_found_behind_noise(
        DecoderType::Response,
        noise,
        adu.hdr.slave,
        spec_encode_response_pdu(adu.pdu),
        tail,
    );
}

/// A request ADU as in `request_length_is_read` behind fewer than
/// `MAX_FRAME_LEN` bytes of noise is still decoded, header and all, the
/// request as received.
pub proof fn lemma_plain_request_adu_is_found_behind_noise(
    noise: Seq<u8>,
    adu: RequestAduView,
    tail: Seq<u8>,
)
    requires
        noise.len() < MAX_FRAME_LEN,
        request_length_is_read(adu.pdu),
        is_noise(
            DecoderType::Request,
            noise + (spec_frame(adu.hdr.slave, spec_encode_request(adu.pdu)) + tail),
            noise.len() as int,
        ),
    ensures
        spec_decode_request_adu(
            noise + (spec_frame(adu.hdr.slave, spec_encode_request(adu.pdu)) + tail),
        ) == Ok::<Option<RequestAduView>, Error>(
            Some(RequestAduView { hdr: adu.hdr, pdu: request_as_received(adu.pdu) }),
        ),
{
    lemma_request_length_is_read(adu.hdr.slave, adu.pdu, tail);
    lemma_request_adu_is_found_behind_noise(noise, adu, tail);
}

/// A plain response ADU behind fewer than `MAX_FRAME_LEN` bytes of noise is
/// still decoded, header and all, the response as received.
pub proof fn lemma_plain_response_adu_is_found_behind_noise(
    noise: Seq<u8>,
    adu: ResponseAduView,
    tail: Seq<u8>,
)
    requires
        noise.len() < MAX_FRAME_LEN,
        is_plain_response_pdu(adu.pdu),
        is_noise(
            DecoderType::Response,
            noise + (spec_frame(adu.hdr.slave, spec_encode_response_pdu(adu.pdu)) + tail),
            noise.len() as int,
        ),
    ensures
        spec_decode_response_adu(
            noise + (spec_frame(adu.hdr.slave, spec_encode_response_pdu(adu.pdu)) + tail),
        ) == Ok::<Option<ResponseAduView>, Error>(
            Some(ResponseAduView { hdr: adu.hdr, pdu: response_pdu_as_received(adu.pdu) }),
        ),
{
    lemma_plain_response_pdu_round_trips(adu.pdu);
    lemma_response_length_is_read(adu.hdr.slave, adu.pdu, tail);
    lemma_response_adu_is_found_behind_noise(noise, adu, tail);
}

/// The frame is in `buf` at its location, closed by the CRC of its bytes.
pub open spec fn is_checked_frame(
    kind: DecoderType,
    buf: Seq<u8>,
    frame: FrameView,
    location: FrameLocation,
) -> bool {
    let start = location.start as int;
    let len = frame.pdu.len() as int;
    &&& start < MAX_FRAME_LEN
    &&& location.size == len + 3
    &&& start + len + 3 <= buf.len()
    &&& predicts(kind, buf.skip(start), frame.pdu.len())
    &&& frame.slave == buf[start]
    &&& frame.pdu == buf.subrange(start + 1, start + 1 + len)
    &&& word_in(buf, start + 1 + len) == spec_crc16(buf.subrange(start, start + 1 + len))
}

proof fn lemma_decode_from_is_checked(kind: DecoderType, buf: Seq<u8>, at: int)
    requires
        0 <= at < MAX_FRAME_LEN,
    ensures
        spec_decode_from(kind, buf, at) matches Ok(Some((frame, location))) ==> location.start
            >= at && is_checked_frame(kind, buf, frame, location),
    decreases MAX_FRAME_LEN - at,
{
    match spec_attempt(kind, buf, at) {
        Err(_) => {
            if at + 1 < MAX_FRAME_LEN {
                lemma_decode_from_is_checked(kind, buf, at + 1);
            }
        },
        Ok(None) => {},
        Ok(Some((frame, location))) => {
            let raw = buf.skip(at);
            let len = frame.pdu.len() as int;
            assert(raw.subrange(1, 1 + len) =~= buf.subrange(at + 1, at + 1 + len));
            assert(raw.take(1 + len) =~= buf.subrange(at, at + 1 + len));
            assert(word_in(raw, 1 + len) == word_in(buf, at + 1 + len));
        },
    }
}

/// Decoding never makes up a frame: a frame that it gives is in the buffer
/// at the location it gives, starts before byte `MAX_FRAME_LEN`, has the
/// length that the framer reads, and is closed by the CRC of its bytes.
pub proof fn lemma_decoded_frame_is_checked(kind: DecoderType, buf: Seq<u8>)
    ensures
        spec_decode(kind, buf) matches Ok(Some((frame, location))) ==> is_checked_frame(
            kind,
            buf,
            frame,
            location,
        ),
{
    lemma_decode_from_is_checked(kind, buf, 0);
}

proof fn lemma_crc_shift_injective(a: u16, b: u16)
    by (bit_vector)
    requires
        (if a & 1 != 0 {
            (a >> 1) ^ 0xA001
        } else {
            a >> 1
        }) == (if b & 1 != 0 {
            (b >> 1) ^ 0xA001
        } else {
            b >> 1
        }),
    ensures
        a == b,
{
}

proof fn lemma_crc_shifts_injective(a: u16, b: u16, n: nat)
    requires
        crc_shifts(a, n) == crc_shifts(b, n),
    ensures
        a == b,
    decreases n,
{
    if n > 0 {
        lemma_crc_shift_injective(crc_shifts(a, (n - 1) as nat), crc_shifts(b, (n - 1) as nat));
        lemma_crc_shifts_injective(a, b, (n - 1) as nat);
    }
}

proof fn lemma_xor_injective(c: u16, d: u16, x: u8, y: u8)
    by (bit_vector)
    requires
        c ^ (x as u16) == d ^ (y as u16),
    ensures
        c == d ==> x == y,
        x == y ==> c == d,
{
}

proof fn lemma_swap_bytes_injective(a: u16, b: u16)
    by (bit_vector)
    requires
        (a << 8) | (a >> 8) == (b << 8) | (b >> 8),
    ensures
        a == b,
{
}

proof fn lemma_crc_update_injective(c: u16, d: u16, x: u8, y: u8)
    requires
        crc_update(c, x) == crc_update(d, y),
    ensures
        c == d ==> x == y,
        x == y ==> c == d,
{
    lemma_crc_shifts_injective(c ^ (x as u16), d ^ (y as u16), 8);
    lemma_xor_injective(c, d, x, y);
}

proof fn lemma_crc_register_tells_apart(a: Seq<u8>, b: Seq<u8>, k: int)
    requires
        a.len() == b.len(),
        0 <= k < a.len(),
        a[k] != b[k],
        forall|i: int| 0 <= i < a.len() && i != k ==> a[i] == b[i],
    ensures
        crc_register(a) != crc_register(b),
    decreases a.len(),
{
    if k == a.len() - 1 {
        assert(a.drop_last() =~= b.drop_last());
        if crc_register(a) == crc_register(b) {
            lemma_crc_update_injective(
                crc_register(a.drop_last()),
                crc_register(b.drop_last()),
                a.last(),
                b.last(),
            );
        }
    } else {
        lemma_crc_register_tells_apart(a.drop_last(), b.drop_last(), k);
        if crc_register(a) == crc_register(b) {
            lemma_crc_update_injective(
                crc_register(a.drop_last()),
                crc_register(b.drop_last()),
                a.last(),
                b.last(),
            );
        }
    }
}

/// The CRC tells apart any two runs of bytes of one length that differ in
/// exactly one byte: no change within one byte, of one bit or of more,
/// keeps the CRC.
pub proof fn lemma_crc16_detects_changed_byte(a: Seq<u8>, b: Seq<u8>, k: int)
    requires
        a.len() == b.len(),
        0 <= k < a.len(),
        a[k] != b[k],
        forall|i: int| 0 <= i < a.len() && i != k ==> a[i] == b[i],
    ensures
        spec_crc16(a) != spec_crc16(b),
{
    lemma_crc_register_tells_apart(a, b, k);
    if spec_crc16(a) == spec_crc16(b) {
        lemma_swap_bytes_injective(crc_register(a), crc_register(b));
    }
}

/// A frame with one byte changed is refused: where the framer still reads
/// the same length, the attempt at the frame fails with a CRC error, and
/// whatever decoding then gives, it is no frame at the place of the changed
/// one.
pub proof fn lemma_changed_frame_is_refused(
    kind: DecoderType,
    slave: u8,
    pdu: Seq<u8>,
    tail: Seq<u8>,
    k: int,
    byte: u8,
)
    requires
        pdu.len() + 3 <= usize::MAX,
        0 <= k < pdu.len() + 3,
        byte != (spec_frame(slave, pdu) + tail)[k],
        predicts(kind, spec_frame(slave, pdu) + tail, pdu.len()),
        predicts(kind, (spec_frame(slave, pdu) + tail).update(k, byte), pdu.len()),
    ensures
        spec_attempt(kind, (spec_frame(slave, pdu) + tail).update(k, byte), 0) matches Err(
            Error::Crc(_, _),
        ),
        !(spec_decode(kind, (spec_frame(slave, pdu) + tail).update(k, byte)) matches Ok(
            Some((_, location)),
        ) && location.start == 0),
{
    let good = spec_frame(slave, pdu) + tail;
    let bad = good.update(k, byte);
    let len = pdu.len() as int;
    let crc = spec_crc16(seq![slave] + pdu);
    assert(bad.skip(0) =~= bad);
    assert(good.take(1 + len) =~= seq![slave] + pdu);
    assert(good[1 + len] == hi_byte(crc));
    assert(good[2 + len] == lo_byte(crc));
    assert(word_in(good, 1 + len) == crc);
    if k < 1 + len {
        lemma_crc16_detects_changed_byte(good.take(1 + len), bad.take(1 + len), k);
        assert(word_in(bad, 1 + len) == crc);
    } else {
        assert(bad.take(1 + len) =~= good.take(1 + len));
        assert(word_in(bad, 1 + len) != word_in(good, 1 + len));
    }
    assert(spec_extract_frame(bad, len) is Err);
    if 1 < MAX_FRAME_LEN {
        lemma_decode_from_is_checked(kind, bad, 1);
    }
}

} // verus!
