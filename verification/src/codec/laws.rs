//! What decoding gives back of what encoding wrote.

use crate::codec::{
    in_u16, in_u8, spec_decode_exception_response, spec_decode_request, spec_decode_response,
    spec_decode_response_pdu, spec_encode_exception_response, spec_encode_request,
    spec_encode_response, spec_encode_response_pdu, spec_min_response_pdu_len, word_in,
};
use crate::endian::{hi_byte, lo_byte};
use crate::error::Error;
use crate::frame::coils::{spec_bool_to_u16_coil, CoilsView};
use crate::frame::{ExceptionResponse, FrameLocation, FunctionCode, RequestView, ResponseView};
use vstd::prelude::*;

verus! {

/// The outcome of a framer with the location of its frame moved by `by`
/// bytes.
pub open spec fn moved<F>(outcome: Result<Option<(F, FrameLocation)>, Error>, by: nat) -> Result<
    Option<(F, FrameLocation)>,
    Error,
> {
    match outcome {
        Ok(Some((frame, location))) => Ok(
            Some(
                (
                    frame,
                    FrameLocation { start: (location.start + by) as usize, size: location.size },
                ),
            ),
        ),
        other => other,
    }
}

/// The function code bytes that a request decodes to a variant of its own.
pub open spec fn is_request_code(code: u8) -> bool {
    0x01 <= code <= 0x06 || code == 0x0F || code == 0x10 || code == 0x17
}

/// The function code bytes that a response decodes to a variant of its own.
pub open spec fn is_response_code(code: u8) -> bool {
    0x01 <= code <= 0x06 || code == 0x0F || code == 0x10 || code == 0x17
}

/// The request is one that its encoding stands for: the counts of its
/// payload fit the fields that carry them, and a custom request has a
/// function code that is `Custom`, below `0x80` and not the code of another
/// variant.
pub open spec fn request_fits_wire(r: RequestView) -> bool {
    match r {
        RequestView::WriteMultipleCoils(_, coils) => coils.quantity <= 0xFFFF
            && coils.packed_len() <= 0xFF,
        RequestView::WriteMultipleRegisters(_, words) => 2 * words.quantity <= 0xFF,
        RequestView::ReadWriteMultipleRegisters(_, _, _, words) => 2 * words.quantity <= 0xFF,
        RequestView::Custom(code, _) => code matches FunctionCode::Custom(c) && c < 0x80
            && !is_request_code(c),
        _ => true,
    }
}

/// The request as a decoder gets it: the payload without the bytes behind
/// those that carry it.
pub open spec fn request_as_received(r: RequestView) -> RequestView {
    match r {
        RequestView::WriteMultipleCoils(address, coils) => RequestView::WriteMultipleCoils(
            address,
            coils.trimmed(),
        ),
        RequestView::WriteMultipleRegisters(address, words) => RequestView::WriteMultipleRegisters(
            address,
            words.trimmed(),
        ),
        RequestView::ReadWriteMultipleRegisters(read_address, quantity, write_address, words) => {
            RequestView::ReadWriteMultipleRegisters(
                read_address,
                quantity,
                write_address,
                words.trimmed(),
            )
        },
        _ => r,
    }
}

/// The payload of the request, where there is one, has no bytes behind
/// those that carry it.
pub open spec fn request_is_exact(r: RequestView) -> bool {
    match r {
        RequestView::WriteMultipleCoils(_, coils) => coils.is_exact(),
        RequestView::WriteMultipleRegisters(_, words) => words.is_exact(),
        RequestView::ReadWriteMultipleRegisters(_, _, _, words) => words.is_exact(),
        _ => true,
    }
}

/// The response is one that its encoding stands for: the byte count of its
/// payload fits its field, and a custom response has a function code that
/// is the one its byte denotes and not the code of another variant, and no
/// fewer bytes than a response with that code must have.
pub open spec fn response_fits_wire(r: ResponseView) -> bool {
    match r {
        ResponseView::ReadCoils(coils) | ResponseView::ReadDiscreteInputs(coils) => {
            coils.packed_len() <= 0xFF
        },
        ResponseView::ReadInputRegisters(words)
        | ResponseView::ReadHoldingRegisters(words)
        | ResponseView::ReadWriteMultipleRegisters(words) => 2 * words.quantity <= 0xFF,
        ResponseView::Custom(code, data) => code.is_canonical() && !is_response_code(
            code.spec_value(),
        ) && 1 + data.len() >= spec_min_response_pdu_len(code),
        _ => true,
    }
}

/// The response as a decoder gets it: the payload without the bytes behind
/// those that carry it, and every bit of the bytes of coils counted as a
/// coil, since the number of coils asked for is not in the response.
pub open spec fn response_as_received(r: ResponseView) -> ResponseView {
    match r {
        ResponseView::ReadCoils(coils) => ResponseView::ReadCoils(
            CoilsView { data: coils.packed(), quantity: 8 * coils.packed_len() },
        ),
        ResponseView::ReadDiscreteInputs(coils) => ResponseView::ReadDiscreteInputs(
            CoilsView { data: coils.packed(), quantity: 8 * coils.packed_len() },
        ),
        ResponseView::ReadInputRegisters(words) => ResponseView::ReadInputRegisters(
            words.trimmed(),
        ),
        ResponseView::ReadHoldingRegisters(words) => ResponseView::ReadHoldingRegisters(
            words.trimmed(),
        ),
        ResponseView::ReadWriteMultipleRegisters(words) => {
            ResponseView::ReadWriteMultipleRegisters(words.trimmed())
        },
        _ => r,
    }
}

/// The payload of the response, where there is one, has no bytes behind
/// those that carry it, and coils fill their bytes.
pub open spec fn response_is_exact(r: ResponseView) -> bool {
    match r {
        ResponseView::ReadCoils(coils) | ResponseView::ReadDiscreteInputs(coils) => {
            coils.is_exact() && coils.quantity == 8 * coils.packed_len()
        },
        ResponseView::ReadInputRegisters(words)
        | ResponseView::ReadHoldingRegisters(words)
        | ResponseView::ReadWriteMultipleRegisters(words) => words.is_exact(),
        _ => true,
    }
}

proof fn lemma_word_in_be_bytes(s: Seq<u8>, at: int, word: u16)
    requires
        0 <= at,
        at + 2 <= s.len(),
        s[at] == hi_byte(word),
        s[at + 1] == lo_byte(word),
    ensures
        word_in(s, at) == word,
{
}

proof fn lemma_or_high_bit(v: u8)
    by (bit_vector)
    ensures
        v | 0x80 >= 0x80,
        v < 0x80 ==> (v | 0x80) - 0x80 == v,
{
}

/// What `lemma_request_round_trip` states of a request.
spec fn request_round_trips(r: RequestView) -> bool {
    &&& spec_encode_request(r).len() == r.pdu_len()
    &&& spec_decode_request(spec_encode_request(r)) == Ok::<RequestView, Error>(
        request_as_received(r),
    )
    &&& request_is_exact(r) ==> request_as_received(r) == r
}

proof fn lemma_fixed_request_round_trip(r: RequestView)
    requires
        r is ReadCoils || r is ReadDiscreteInputs || r is ReadInputRegisters
            || r is ReadHoldingRegisters || r is WriteSingleRegister || r is WriteSingleCoil,
    ensures
        request_round_trips(r),
{
    let bytes = spec_encode_request(r);
    match r {
        RequestView::ReadCoils(address, payload)
        | RequestView::ReadDiscreteInputs(address, payload)
        | RequestView::ReadInputRegisters(address, payload)
        | RequestView::ReadHoldingRegisters(address, payload)
        | RequestView::WriteSingleRegister(address, payload) => {
            lemma_word_in_be_bytes(bytes, 1, address);
            lemma_word_in_be_bytes(bytes, 3, payload);
        },
        RequestView::WriteSingleCoil(address, state) => {
            lemma_word_in_be_bytes(bytes, 1, address);
            lemma_word_in_be_bytes(bytes, 3, spec_bool_to_u16_coil(state));
        },
        _ => {},
    }
}

proof fn lemma_counted_request_round_trip(r: RequestView)
    requires
        r.wf(),
        request_fits_wire(r),
        r is WriteMultipleCoils || r is WriteMultipleRegisters,
    ensures
        request_round_trips(r),
{
    let bytes = spec_encode_request(r);
    match r {
        RequestView::WriteMultipleCoils(address, coils) => {
            lemma_word_in_be_bytes(bytes, 1, address);
            lemma_word_in_be_bytes(bytes, 3, in_u16(coils.quantity));
            assert(bytes[5] == in_u8(coils.packed_len()));
            assert(bytes.subrange(6, 6 + bytes[5]) =~= coils.packed());
            assert(coils.is_exact() ==> coils.packed() =~= coils.data);
        },
        RequestView::WriteMultipleRegisters(address, words) => {
            lemma_word_in_be_bytes(bytes, 1, address);
            lemma_word_in_be_bytes(bytes, 3, in_u16(words.quantity));
            assert(bytes[5] == in_u8(2 * words.quantity));
            assert(bytes.subrange(6, 6 + bytes[5]) =~= words.packed());
            assert(words.is_exact() ==> words.packed() =~= words.data);
        },
        _ => {},
    }
}

proof fn lemma_read_write_request_round_trip(r: RequestView)
    requires
        r.wf(),
        request_fits_wire(r),
        r is ReadWriteMultipleRegisters,
    ensures
        request_round_trips(r),
{
    let bytes = spec_encode_request(r);
    if let RequestView::ReadWriteMultipleRegisters(read_address, quantity, write_address, words) =
        r {
        lemma_word_in_be_bytes(bytes, 1, read_address);
        lemma_word_in_be_bytes(bytes, 3, quantity);
        lemma_word_in_be_bytes(bytes, 5, write_address);
        lemma_word_in_be_bytes(bytes, 7, in_u16(words.quantity));
        assert(bytes[9] == in_u8(2 * words.quantity));
        assert(bytes.subrange(10, 10 + bytes[9]) =~= words.packed());
        assert(words.is_exact() ==> words.packed() =~= words.data);
    }
}

proof fn lemma_custom_request_round_trip(r: RequestView)
    requires
        request_fits_wire(r),
        r is Custom,
    ensures
        request_round_trips(r),
{
    if let RequestView::Custom(code, data) = r {
        assert(spec_encode_request(r).skip(1) =~= data);
    }
}

/// Decoding the encoding of a request gives the request back, as received:
/// with an exact payload, the request itself. This holds of a request whose
/// payload holds what it declares and that fits the wire.
pub proof fn lemma_request_round_trip(r: RequestView)
    requires
        r.wf(),
        request_fits_wire(r),
    ensures
        spec_encode_request(r).len() == r.pdu_len(),
        spec_decode_request(spec_encode_request(r)) == Ok::<RequestView, Error>(
            request_as_received(r),
        ),
        request_is_exact(r) ==> request_as_received(r) == r,
{
    match r {
        RequestView::WriteMultipleCoils(_, _) | RequestView::WriteMultipleRegisters(_, _) => {
            lemma_counted_request_round_trip(r);
        },
        RequestView::ReadWriteMultipleRegisters(_, _, _, _) => {
            lemma_read_write_request_round_trip(r);
        },
        RequestView::Custom(_, _) => {
            lemma_custom_request_round_trip(r);
        },
        _ => {
            lemma_fixed_request_round_trip(r);
        },
    }
}

/// Decoding the encoding of a response as a response gives the response
/// back, as received: with an exact payload, the response itself. This
/// holds of a response whose payload holds what it declares and that fits
/// the wire.
pub proof fn lemma_response_round_trip(r: ResponseView)
    requires
        r.wf(),
        response_fits_wire(r),
    ensures
        spec_encode_response(r).len() == r.pdu_len(),
        spec_decode_response(spec_encode_response(r)) == Ok::<ResponseView, Error>(
            response_as_received(r),
        ),
        response_is_exact(r) ==> response_as_received(r) == r,
{
    let bytes = spec_encode_response(r);
    match r {
        ResponseView::ReadCoils(coils) | ResponseView::ReadDiscreteInputs(coils) => {
            assert(bytes[1] == in_u8(coils.packed_len()));
            assert(bytes.subrange(2, 2 + bytes[1]) =~= coils.packed());
            assert(coils.is_exact() ==> coils.packed() =~= coils.data);
        },
        ResponseView::ReadInputRegisters(words)
        | ResponseView::ReadHoldingRegisters(words)
        | ResponseView::ReadWriteMultipleRegisters(words) => {
            assert(bytes[1] == in_u8(2 * words.quantity));
            assert(bytes.subrange(2, 2 + bytes[1]) =~= words.packed());
            assert(words.is_exact() ==> words.packed() =~= words.data);
        },
        ResponseView::WriteSingleCoil(address) => {
            lemma_word_in_be_bytes(bytes, 1, address);
        },
        ResponseView::WriteMultipleCoils(address, payload)
        | ResponseView::WriteMultipleRegisters(address, payload)
        | ResponseView::WriteSingleRegister(address, payload) => {
            lemma_word_in_be_bytes(bytes, 1, address);
            lemma_word_in_be_bytes(bytes, 3, payload);
        },
        ResponseView::Custom(code, data) => {
            assert(bytes.skip(1) =~= data);
        },
    }
}

/// Decoding the encoding of an exception response gives it back. This holds
/// of an exception response whose function code is below `0x80` and is the
/// one that its byte denotes.
pub proof fn lemma_exception_round_trip(ex: ExceptionResponse)
    requires
        ex.wf(),
        ex.function.is_canonical(),
    ensures
        spec_encode_exception_response(ex).len() == 2,
        spec_decode_exception_response(spec_encode_exception_response(ex)) == Ok::<
            ExceptionResponse,
            Error,
        >(ex),
{
    lemma_or_high_bit(ex.function.spec_value());
}

/// The bytes are not those of an exception response.
pub open spec fn is_no_exception(bytes: Seq<u8>) -> bool {
    spec_decode_exception_response(bytes) is Err
}

/// What a response PDU is as received: a response as received, an exception
/// response as it is.
pub open spec fn response_pdu_as_received(
    pdu: Result<ResponseView, ExceptionResponse>,
) -> Result<ResponseView, ExceptionResponse> {
    match pdu {
        Ok(response) => Ok(response_as_received(response)),
        Err(exception) => Err(exception),
    }
}

/// The response PDU is an exception response as in
/// `lemma_exception_round_trip`, or a response as in
/// `lemma_response_round_trip` whose encoding is not that of an exception
/// response.
pub open spec fn response_pdu_round_trips(pdu: Result<ResponseView, ExceptionResponse>) -> bool {
    match pdu {
        Ok(response) => response.wf() && response_fits_wire(response) && is_no_exception(
            spec_encode_response(response),
        ),
        Err(exception) => exception.wf() && exception.function.is_canonical(),
    }
}

/// Decoding the encoding of a response PDU gives it back: an exception
/// response as it is, a response as received.
pub proof fn lemma_response_pdu_round_trip(pdu: Result<ResponseView, ExceptionResponse>)
    requires
        response_pdu_round_trips(pdu),
    ensures
        spec_decode_response_pdu(spec_encode_response_pdu(pdu)) == Ok::<
            Result<ResponseView, ExceptionResponse>,
            Error,
        >(response_pdu_as_received(pdu)),
{
    match pdu {
        Ok(response) => {
            lemma_response_round_trip(response);
        },
        Err(exception) => {
            lemma_exception_round_trip(exception);
        },
    }
}

/// A response with a function code below `0x80` is never taken for an
/// exception response.
pub proof fn lemma_response_is_no_exception(r: ResponseView)
    requires
        r.function_code().spec_value() < 0x80,
    ensures
        is_no_exception(spec_encode_response(r)),
{
}

/// The request is one of a variant of its own whose payload holds what it
/// declares and fits the wire.
pub open spec fn is_plain_request(r: RequestView) -> bool {
    r.wf() && request_fits_wire(r) && !(r is Custom)
}

/// The response PDU is one whose length a framer reads from its first
/// bytes: a response of a variant of its own whose payload holds what it
/// declares and fits the wire, or an exception response to a function code
/// from `0x01` to `0x2B`.
pub open spec fn response_length_is_read(pdu: Result<ResponseView, ExceptionResponse>) -> bool {
    match pdu {
        Ok(response) => response.wf() && response_fits_wire(response) && !(response is Custom),
        Err(exception) => 0x01 <= exception.function.spec_value() <= 0x2B,
    }
}

/// The response PDU is one whose length a framer reads, and an exception
/// response names its function code as its byte denotes it.
pub open spec fn is_plain_response_pdu(pdu: Result<ResponseView, ExceptionResponse>) -> bool {
    &&& response_length_is_read(pdu)
    &&& pdu matches Err(exception) ==> exception.function.is_canonical()
}

proof fn lemma_exception_code_byte(v: u8)
    by (bit_vector)
    requires
        0x01 <= v <= 0x2B,
    ensures
        0x81 <= v | 0x80 <= 0xAB,
{
}

/// The encoding of a response PDU whose length a framer reads: a response
/// has as many bytes as it declares and starts with the byte of its
/// function code, an exception response has two bytes and starts with a
/// byte from `0x81` to `0xAB`.
pub proof fn lemma_response_pdu_head(pdu: Result<ResponseView, ExceptionResponse>)
    requires
        response_length_is_read(pdu),
    ensures
        match pdu {
            Ok(response) => {
                &&& spec_encode_response_pdu(pdu).len() == response.pdu_len()
                &&& spec_encode_response_pdu(pdu)[0] == response.function_code().spec_value()
            },
            Err(exception) => {
                &&& spec_encode_response_pdu(pdu).len() == 2
                &&& 0x81 <= spec_encode_response_pdu(pdu)[0] <= 0xAB
            },
        },
        2 <= spec_encode_response_pdu(pdu).len() <= 257,
{
    match pdu {
        Ok(response) => {
            lemma_response_round_trip(response);
        },
        Err(exception) => {
            lemma_exception_code_byte(exception.function.spec_value());
        },
    }
}

/// A plain response PDU is one that `lemma_response_pdu_round_trip` speaks
/// of: no response with a variant of its own is taken for an exception
/// response.
pub proof fn lemma_plain_response_pdu_round_trips(pdu: Result<ResponseView, ExceptionResponse>)
    requires
        is_plain_response_pdu(pdu),
    ensures
        response_pdu_round_trips(pdu),
{
    if let Ok(response) = pdu {
        lemma_response_is_no_exception(response);
    }
}

} // verus!
