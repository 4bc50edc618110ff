//! Decoding and encoding of protocol data units.

pub mod laws;
pub mod rtu;
pub mod tcp;

use crate::endian::{be16, be_bytes, read_u16_be, write_u16_be};
use crate::error::Error;
use crate::frame::coils::{
    bool_to_u16_coil, spec_bool_to_u16_coil, spec_u16_coil_to_bool, u16_coil_to_bool,
    CoilQuantity, Coils, CoilsView,
};
use crate::frame::data::{Data, DataView};
use crate::frame::{
    Exception, ExceptionResponse, FunctionCode, Request, RequestPdu, RequestView, Response,
    ResponsePdu, ResponseView,
};
use vstd::prelude::*;
use vstd::std_specs::convert::{FromSpecImpl, TryFromSpecImpl};

verus! {

/// The type of decoding
#[derive(Debug, Clone, Copy, PartialEq, Eq)]
pub enum DecoderType {
    Request,
    Response,
}

/// The exception that a byte denotes, if it denotes one.
pub open spec fn spec_exception(code: u8) -> Result<Exception, Error> {
    match code {
        0x01 => Ok(Exception::IllegalFunction),
        0x02 => Ok(Exception::IllegalDataAddress),
        0x03 => Ok(Exception::IllegalDataValue),
        0x04 => Ok(Exception::ServerDeviceFailure),
        0x05 => Ok(Exception::Acknowledge),
        0x06 => Ok(Exception::ServerDeviceBusy),
        0x08 => Ok(Exception::MemoryParityError),
        0x0A => Ok(Exception::GatewayPathUnavailable),
        0x0B => Ok(Exception::GatewayTargetDevice),
        _ => Err(Error::ExceptionCode(code)),
    }
}

/// The least number of bytes of a request PDU with the given function code.
pub open spec fn spec_min_request_pdu_len(fn_code: FunctionCode) -> nat {
    match fn_code {
        FunctionCode::ReadCoils
        | FunctionCode::ReadDiscreteInputs
        | FunctionCode::ReadInputRegisters
        | FunctionCode::WriteSingleCoil
        | FunctionCode::ReadHoldingRegisters
        | FunctionCode::WriteSingleRegister => 5,
        FunctionCode::WriteMultipleCoils | FunctionCode::WriteMultipleRegisters => 6,
        FunctionCode::ReadWriteMultipleRegisters => 10,
        _ => 1,
    }
}

/// The least number of bytes of a response PDU with the given function code.
pub open spec fn spec_min_response_pdu_len(fn_code: FunctionCode) -> nat {
    match fn_code {
        FunctionCode::ReadCoils
        | FunctionCode::ReadDiscreteInputs
        | FunctionCode::ReadInputRegisters
        | FunctionCode::ReadHoldingRegisters
        | FunctionCode::ReadWriteMultipleRegisters => 2,
        FunctionCode::WriteSingleCoil => 3,
        FunctionCode::WriteMultipleCoils
        | FunctionCode::WriteSingleRegister
        | FunctionCode::WriteMultipleRegisters
        | FunctionCode::GetCommEventCounter => 5,
        _ => 1,
    }
}

/// The big-endian word at bytes `at` and `at + 1`.
pub open spec fn word_in(bytes: Seq<u8>, at: int) -> u16 {
    be16(bytes[at], bytes[at + 1])
}

/// What the bytes of an exception response PDU decode to.
pub open spec fn spec_decode_exception_response(bytes: Seq<u8>) -> Result<ExceptionResponse, Error> {
    if bytes.len() == 0 {
        Err(Error::BufferSize)
    } else if bytes[0] < 0x80 {
        Err(Error::ExceptionFnCode(bytes[0]))
    } else if bytes.len() < 2 {
        Err(Error::BufferSize)
    } else {
        match spec_exception(bytes[1]) {
            Ok(exception) => Ok(
                ExceptionResponse {
                    function: FunctionCode::spec_new((bytes[0] - 0x80) as u8),
                    exception,
                },
            ),
            Err(e) => Err(e),
        }
    }
}

/// The two bytes of an exception response PDU.
pub open spec fn spec_encode_exception_response(ex: ExceptionResponse) -> Seq<u8> {
    seq![ex.function.spec_value() | 0x80, ex.exception.spec_code()]
}

/// What the bytes of a request PDU decode to.
pub open spec fn spec_decode_request(bytes: Seq<u8>) -> Result<RequestView, Error> {
    if bytes.len() == 0 {
        Err(Error::BufferSize)
    } else if bytes.len() < spec_min_request_pdu_len(FunctionCode::spec_new(bytes[0])) {
        Err(Error::BufferSize)
    } else {
        match bytes[0] {
            0x01 => Ok(RequestView::ReadCoils(word_in(bytes, 1), word_in(bytes, 3))),
            0x02 => Ok(RequestView::ReadDiscreteInputs(word_in(bytes, 1), word_in(bytes, 3))),
            0x04 => Ok(RequestView::ReadInputRegisters(word_in(bytes, 1), word_in(bytes, 3))),
            0x03 => Ok(RequestView::ReadHoldingRegisters(word_in(bytes, 1), word_in(bytes, 3))),
            0x06 => Ok(RequestView::WriteSingleRegister(word_in(bytes, 1), word_in(bytes, 3))),
            0x05 => match spec_u16_coil_to_bool(word_in(bytes, 3)) {
                Ok(state) => Ok(RequestView::WriteSingleCoil(word_in(bytes, 1), state)),
                Err(e) => Err(e),
            },
            0x0F => if bytes.len() < 6 + bytes[5] {
                Err(Error::ByteCount(bytes[5]))
            } else {
                Ok(
                    RequestView::WriteMultipleCoils(
                        word_in(bytes, 1),
                        CoilsView {
                            data: bytes.subrange(6, 6 + bytes[5]),
                            quantity: word_in(bytes, 3) as nat,
                        },
                    ),
                )
            },
            0x10 => if bytes.len() < 6 + bytes[5] {
                Err(Error::ByteCount(bytes[5]))
            } else {
                Ok(
                    RequestView::WriteMultipleRegisters(
                        word_in(bytes, 1),
                        DataView {
                            data: bytes.subrange(6, 6 + bytes[5]),
                            quantity: word_in(bytes, 3) as nat,
                        },
                    ),
                )
            },
            0x17 => if bytes.len() < 10 + bytes[9] {
                Err(Error::ByteCount(bytes[9]))
            } else {
                Ok(
                    RequestView::ReadWriteMultipleRegisters(
                        word_in(bytes, 1),
                        word_in(bytes, 3),
                        word_in(bytes, 5),
                        DataView {
                            data: bytes.subrange(10, 10 + bytes[9]),
                            quantity: word_in(bytes, 7) as nat,
                        },
                    ),
                )
            },
            code => if code < 0x80 {
                Ok(RequestView::Custom(FunctionCode::Custom(code), bytes.skip(1)))
            } else {
                Err(Error::FnCode(code))
            },
        }
    }
}

/// The byte that a count leaves in a one-byte field.
pub open spec fn in_u8(count: nat) -> u8 {
    (count % 0x100) as u8
}

/// The word that a count leaves in a two-byte field.
pub open spec fn in_u16(count: nat) -> u16 {
    (count % 0x1_0000) as u16
}

/// The bytes of a request PDU.
pub open spec fn spec_encode_request(r: RequestView) -> Seq<u8> {
    match r {
        RequestView::ReadCoils(address, payload)
        | RequestView::ReadDiscreteInputs(address, payload)
        | RequestView::ReadInputRegisters(address, payload)
        | RequestView::ReadHoldingRegisters(address, payload)
        | RequestView::WriteSingleRegister(address, payload) => seq![r.function_code().spec_value()]
            + be_bytes(address) + be_bytes(payload),
        RequestView::WriteSingleCoil(address, state) => seq![0x05u8] + be_bytes(address) + be_bytes(
            spec_bool_to_u16_coil(state),
        ),
        RequestView::WriteMultipleCoils(address, coils) => seq![0x0Fu8] + be_bytes(address)
            + be_bytes(in_u16(coils.quantity)) + seq![in_u8(coils.packed_len())] + coils.packed(),
        RequestView::WriteMultipleRegisters(address, words) => seq![0x10u8] + be_bytes(address)
            + be_bytes(in_u16(words.quantity)) + seq![in_u8(2 * words.quantity)] + words.packed(),
        RequestView::ReadWriteMultipleRegisters(read_address, quantity, write_address, words) => {
            seq![0x17u8] + be_bytes(read_address) + be_bytes(quantity) + be_bytes(write_address)
                + be_bytes(in_u16(words.quantity)) + seq![in_u8(2 * words.quantity)]
                + words.packed()
        },
        RequestView::Custom(code, data) => seq![code.spec_value()] + data,
    }
}

/// What the bytes of a response PDU decode to, read as a response.
pub open spec fn spec_decode_response(bytes: Seq<u8>) -> Result<ResponseView, Error> {
    if bytes.len() == 0 {
        Err(Error::BufferSize)
    } else if bytes.len() < spec_min_response_pdu_len(FunctionCode::spec_new(bytes[0])) {
        Err(Error::BufferSize)
    } else {
        match bytes[0] {
            0x01 | 0x02 => if bytes[1] + 2 > bytes.len() {
                Err(Error::BufferSize)
            } else {
                let coils = CoilsView {
                    data: bytes.subrange(2, 2 + bytes[1]),
                    quantity: (bytes[1] * 8) as nat,
                };
                if bytes[0] == 0x01 {
                    Ok(ResponseView::ReadCoils(coils))
                } else {
                    Ok(ResponseView::ReadDiscreteInputs(coils))
                }
            },
            0x05 => Ok(ResponseView::WriteSingleCoil(word_in(bytes, 1))),
            0x0F => Ok(ResponseView::WriteMultipleCoils(word_in(bytes, 1), word_in(bytes, 3))),
            0x06 => Ok(ResponseView::WriteSingleRegister(word_in(bytes, 1), word_in(bytes, 3))),
            0x10 => Ok(ResponseView::WriteMultipleRegisters(word_in(bytes, 1), word_in(bytes, 3))),
            0x04 | 0x03 | 0x17 => if bytes[1] + 2 > bytes.len() {
                Err(Error::BufferSize)
            } else {
                let words = DataView {
                    data: bytes.subrange(2, 2 + bytes[1]),
                    quantity: (bytes[1] / 2) as nat,
                };
                if bytes[0] == 0x04 {
                    Ok(ResponseView::ReadInputRegisters(words))
                } else if bytes[0] == 0x03 {
                    Ok(ResponseView::ReadHoldingRegisters(words))
                } else {
                    Ok(ResponseView::ReadWriteMultipleRegisters(words))
                }
            },
            code => Ok(ResponseView::Custom(FunctionCode::spec_new(code), bytes.skip(1))),
        }
    }
}

/// The bytes of a response PDU.
pub open spec fn spec_encode_response(r: ResponseView) -> Seq<u8> {
    match r {
        ResponseView::ReadCoils(coils) | ResponseView::ReadDiscreteInputs(coils) => seq![
            r.function_code().spec_value(),
            in_u8(coils.packed_len()),
        ] + coils.packed(),
        ResponseView::ReadInputRegisters(words)
        | ResponseView::ReadHoldingRegisters(words)
        | ResponseView::ReadWriteMultipleRegisters(words) => seq![
            r.function_code().spec_value(),
            in_u8(2 * words.quantity),
        ] + words.packed(),
        ResponseView::WriteSingleCoil(address) => seq![0x05u8] + be_bytes(address),
        ResponseView::WriteMultipleCoils(address, payload)
        | ResponseView::WriteMultipleRegisters(address, payload)
        | ResponseView::WriteSingleRegister(address, payload) => seq![
            r.function_code().spec_value(),
        ] + be_bytes(address) + be_bytes(payload),
        ResponseView::Custom(code, data) => seq![code.spec_value()] + data,
    }
}

/// What the bytes of a response PDU decode to: an exception response where
/// they are one, and a response otherwise.
pub open spec fn spec_decode_response_pdu(bytes: Seq<u8>) -> Result<
    Result<ResponseView, ExceptionResponse>,
    Error,
> {
    match spec_decode_exception_response(bytes) {
        Ok(exception) => Ok(Err(exception)),
        Err(_) => match spec_decode_response(bytes) {
            Ok(response) => Ok(Ok(response)),
            Err(e) => Err(e),
        },
    }
}

/// The bytes of a response PDU, be it a response or an exception response.
pub open spec fn spec_encode_response_pdu(pdu: Result<ResponseView, ExceptionResponse>) -> Seq<u8> {
    match pdu {
        Ok(response) => spec_encode_response(response),
        Err(exception) => spec_encode_exception_response(exception),
    }
}

/// The big-endian word at bytes `at` and `at + 1` of `bytes`.
pub(crate) fn word_from(bytes: &[u8], at: usize) -> (word: u16)
    requires
        at + 2 <= bytes@.len(),
    ensures
        word == word_in(bytes@, at as int),
{
    let len = bytes.len();
    read_u16_be(&bytes[at..at + 2])
}

/// Stores `word` big-endian at bytes `at` and `at + 1` of `buf`.
pub(crate) fn word_into(buf: &mut [u8], at: usize, word: u16)
    requires
        at + 2 <= old(buf)@.len(),
    ensures
        final(buf)@ =~= old(buf)@.take(at as int) + be_bytes(word) + old(buf)@.skip(at + 2),
{
    let (_, rest) = buf.split_at_mut(at);
    write_u16_be(rest, word);
}

/// Copies `src` to `buf`, from byte `at` on.
fn bytes_into(buf: &mut [u8], at: usize, src: &[u8])
    requires
        at + src@.len() <= old(buf)@.len(),
    ensures
        final(buf)@ =~= old(buf)@.take(at as int) + src@ + old(buf)@.skip(at + src@.len()),
{
    let n = src.len();
    let room = buf.len();
    let mut idx: usize = 0;
    while idx < n
        invariant
            idx <= n,
            n == src@.len(),
            at + n <= buf@.len(),
            buf@.len() == old(buf)@.len(),
            buf@.len() == room,
            buf@ =~= old(buf)@.take(at as int) + src@.take(idx as int) + old(buf)@.skip(
                at + idx,
            ),
        decreases n - idx,
    {
        buf[at + idx] = src[idx];
        idx = idx + 1;
    }
}

impl TryFrom<u8> for Exception {
    type Error = Error;

    fn try_from(code: u8) -> (r: Result<Self, Error>) {
        let ex = match code {
            0x01 => Self::IllegalFunction,
            0x02 => Self::IllegalDataAddress,
            0x03 => Self::IllegalDataValue,
            0x04 => Self::ServerDeviceFailure,
            0x05 => Self::Acknowledge,
            0x06 => Self::ServerDeviceBusy,
            0x08 => Self::MemoryParityError,
            0x0A => Self::GatewayPathUnavailable,
            0x0B => Self::GatewayTargetDevice,
            _ => {
                return Err(Error::ExceptionCode(code));
            },
        };
        Ok(ex)
    }
}

impl TryFromSpecImpl<u8> for Exception {
    open spec fn obeys_try_from_spec() -> bool {
        true
    }

    open spec fn try_from_spec(code: u8) -> Result<Self, Error> {
        spec_exception(code)
    }
}

impl From<ExceptionResponse> for [u8; 2] {
    fn from(ex: ExceptionResponse) -> (bytes: [u8; 2]) {
        let fn_code: u8 = ex.function.value();
        [fn_code | 0x80, ex.exception.code()]
    }
}

impl FromSpecImpl<ExceptionResponse> for [u8; 2] {
    open spec fn obeys_from_spec() -> bool {
        true
    }

    open spec fn from_spec(ex: ExceptionResponse) -> [u8; 2] {
        [ex.function.spec_value() | 0x80, ex.exception.spec_code()]
    }
}

impl<'r> TryFrom<&'r [u8]> for ExceptionResponse {
    type Error = Error;

    fn try_from(bytes: &'r [u8]) -> (r: Result<Self, Error>) {
        if bytes.is_empty() {
            return Err(Error::BufferSize);
        }
        let fn_err_code = bytes[0];
        if fn_err_code < 0x80 {
            return Err(Error::ExceptionFnCode(fn_err_code));
        }
        if bytes.len() < 2 {
            return Err(Error::BufferSize);
        }
        let function = FunctionCode::new(fn_err_code - 0x80);
        match Exception::try_from(bytes[1]) {
            Ok(exception) => Ok(ExceptionResponse { function, exception }),
            Err(e) => Err(e),
        }
    }
}

impl<'r> TryFromSpecImpl<&'r [u8]> for ExceptionResponse {
    open spec fn obeys_try_from_spec() -> bool {
        true
    }

    open spec fn try_from_spec(bytes: &'r [u8]) -> Result<Self, Error> {
        spec_decode_exception_response(bytes@)
    }
}

/// The model of the outcome of decoding a request.
pub open spec fn request_outcome(r: Result<Request<'_>, Error>) -> Result<RequestView, Error> {
    match r {
        Ok(request) => Ok(request@),
        Err(e) => Err(e),
    }
}

/// The model of the outcome of decoding a response.
pub open spec fn response_outcome(r: Result<Response<'_>, Error>) -> Result<ResponseView, Error> {
    match r {
        Ok(response) => Ok(response@),
        Err(e) => Err(e),
    }
}

/// The model of the outcome of decoding a response PDU.
pub open spec fn response_pdu_outcome(r: Result<ResponsePdu<'_>, Error>) -> Result<
    Result<ResponseView, ExceptionResponse>,
    Error,
> {
    match r {
        Ok(pdu) => Ok(pdu@),
        Err(e) => Err(e),
    }
}

impl<'r> Request<'r> {
    /// Decodes the bytes of a request PDU. The payload of the request
    /// refers to `bytes`.
    pub fn try_from(bytes: &'r [u8]) -> (r: Result<Self, Error>)
        ensures
            request_outcome(r) == spec_decode_request(bytes@),
    {
        if bytes.is_empty() {
            return Err(Error::BufferSize);
        }
        let fn_code = bytes[0];
        if bytes.len() < min_request_pdu_len(FunctionCode::new(fn_code)) {
            return Err(Error::BufferSize);
        }
        let req = match fn_code {
            0x01 | 0x02 | 0x04 | 0x03 | 0x06 => {
                let addr = word_from(bytes, 1);
                let quantity = word_from(bytes, 3);
                match fn_code {
                    0x01 => Self::ReadCoils(addr, quantity),
                    0x02 => Self::ReadDiscreteInputs(addr, quantity),
                    0x04 => Self::ReadInputRegisters(addr, quantity),
                    0x03 => Self::ReadHoldingRegisters(addr, quantity),
                    _ => Self::WriteSingleRegister(addr, quantity),
                }
            },
            0x05 => {
                let address = word_from(bytes, 1);
                match u16_coil_to_bool(word_from(bytes, 3)) {
                    Ok(state) => Self::WriteSingleCoil(address, state),
                    Err(e) => {
                        return Err(e);
                    },
                }
            },
            0x0F => {
                let address = word_from(bytes, 1);
                let quantity = word_from(bytes, 3) as usize;
                let byte_count = bytes[5];
                if bytes.len() < 6 + byte_count as usize {
                    return Err(Error::ByteCount(byte_count));
                }
                let data = &bytes[6..6 + byte_count as usize];
                let coils = Coils { data, quantity: CoilQuantity { quantity } };
                Self::WriteMultipleCoils(address, coils)
            },
            0x10 => {
                let address = word_from(bytes, 1);
                let quantity = word_from(bytes, 3) as usize;
                let byte_count = bytes[5];
                if bytes.len() < 6 + byte_count as usize {
                    return Err(Error::ByteCount(byte_count));
                }
                let data = Data { quantity, data: &bytes[6..6 + byte_count as usize] };
                Self::WriteMultipleRegisters(address, data)
            },
            0x17 => {
                let read_address = word_from(bytes, 1);
                let read_quantity = word_from(bytes, 3);
                let write_address = word_from(bytes, 5);
                let write_quantity = word_from(bytes, 7) as usize;
                let write_count = bytes[9];
                if bytes.len() < 10 + write_count as usize {
                    return Err(Error::ByteCount(write_count));
                }
                let data = Data {
                    quantity: write_quantity,
                    data: &bytes[10..10 + write_count as usize],
                };
                Self::ReadWriteMultipleRegisters(read_address, read_quantity, write_address, data)
            },
            _ => {
                if fn_code < 0x80 {
                    let data = &bytes[1..bytes.len()];
                    Self::Custom(FunctionCode::Custom(fn_code), data)
                } else {
                    return Err(Error::FnCode(fn_code));
                }
            },
        };
        Ok(req)
    }
}

impl<'r> Response<'r> {
    /// Decodes the bytes of a response PDU as a response. The payload of
    /// the response refers to `bytes`.
    pub fn try_from(bytes: &'r [u8]) -> (r: Result<Self, Error>)
        ensures
            response_outcome(r) == spec_decode_response(bytes@),
    {
        if bytes.is_empty() {
            return Err(Error::BufferSize);
        }
        let fn_code = bytes[0];
        if bytes.len() < min_response_pdu_len(FunctionCode::new(fn_code)) {
            return Err(Error::BufferSize);
        }
        let rsp = match fn_code {
            0x01 | 0x02 => {
                let byte_count = bytes[1] as usize;
                if byte_count + 2 > bytes.len() {
                    return Err(Error::BufferSize);
                }
                let data = &bytes[2..byte_count + 2];
                // The requested quantity is not in the response: every bit of
                // every byte counts as a coil.
                let quantity = CoilQuantity { quantity: byte_count * 8 };
                match fn_code {
                    0x01 => Self::ReadCoils(Coils { data, quantity }),
                    _ => Self::ReadDiscreteInputs(Coils { data, quantity }),
                }
            },
            0x05 => Self::WriteSingleCoil(word_from(bytes, 1)),
            0x0F | 0x06 | 0x10 => {
                let addr = word_from(bytes, 1);
                let payload = word_from(bytes, 3);
                match fn_code {
                    0x0F => Self::WriteMultipleCoils(addr, payload),
                    0x06 => Self::WriteSingleRegister(addr, payload),
                    _ => Self::WriteMultipleRegisters(addr, payload),
                }
            },
            0x04 | 0x03 | 0x17 => {
                let byte_count = bytes[1] as usize;
                let quantity = byte_count / 2;
                if byte_count + 2 > bytes.len() {
                    return Err(Error::BufferSize);
                }
                let data = &bytes[2..2 + byte_count];
                let data = Data { data, quantity };
                match fn_code {
                    0x04 => Self::ReadInputRegisters(data),
                    0x03 => Self::ReadHoldingRegisters(data),
                    _ => Self::ReadWriteMultipleRegisters(data),
                }
            },
            _ => Self::Custom(FunctionCode::new(fn_code), &bytes[1..bytes.len()]),
        };
        Ok(rsp)
    }
}

impl<'r> ResponsePdu<'r> {
    /// Decodes the bytes of a response PDU: as an exception response where
    /// they are one, and as a response otherwise.
    pub fn try_from(bytes: &'r [u8]) -> (r: Result<Self, Error>)
        ensures
            response_pdu_outcome(r) == spec_decode_response_pdu(bytes@),
    {
        match ExceptionResponse::try_from(bytes) {
            Ok(exception) => Ok(ResponsePdu(Err(exception))),
            Err(_) => match Response::try_from(bytes) {
                Ok(response) => Ok(ResponsePdu(Ok(response))),
                Err(e) => Err(e),
            },
        }
    }
}

/// Encode a struct into a buffer.
pub trait Encode {
    /// The bytes that stand for the value.
    spec fn encoding(&self) -> Seq<u8>;

    /// The value can be encoded: what it refers to is there, and the
    /// length of its encoding is one that a buffer can have.
    spec fn encodable(&self) -> bool;

    /// Writes the encoding to the front of `buf` and returns its length. A
    /// buffer shorter than the encoding is refused and left as it was.
    fn encode(&self, buf: &mut [u8]) -> (r: Result<usize, Error>)
        requires
            self.encodable(),
        ensures
            old(buf)@.len() < self.encoding().len() ==> r == Err::<usize, Error>(
                Error::BufferSize,
            ) && final(buf)@ == old(buf)@,
            old(buf)@.len() >= self.encoding().len() ==> r == Ok::<usize, Error>(
                self.encoding().len() as usize,
            ) && final(buf)@ == self.encoding() + old(buf)@.skip(self.encoding().len() as int),
    ;
}

/// Writes a function code and one word to the front of `buf`.
fn put_code_word(buf: &mut [u8], code: u8, word: u16)
    requires
        old(buf)@.len() >= 3,
    ensures
        final(buf)@ == seq![code] + be_bytes(word) + old(buf)@.skip(3),
{
    buf[0] = code;
    word_into(buf, 1, word);
    assert(buf@ =~= seq![code] + be_bytes(word) + old(buf)@.skip(3));
}

/// Writes a function code and two words to the front of `buf`.
fn put_code_words(buf: &mut [u8], code: u8, first: u16, second: u16)
    requires
        old(buf)@.len() >= 5,
    ensures
        final(buf)@ == seq![code] + be_bytes(first) + be_bytes(second) + old(buf)@.skip(5),
{
    put_code_word(buf, code, first);
    word_into(buf, 3, second);
    assert(buf@ =~= seq![code] + be_bytes(first) + be_bytes(second) + old(buf)@.skip(5));
}

/// Writes a function code, two words and a byte count to the front of `buf`.
fn put_counted_head(buf: &mut [u8], code: u8, first: u16, second: u16, count: u8)
    requires
        old(buf)@.len() >= 6,
    ensures
        final(buf)@ == seq![code] + be_bytes(first) + be_bytes(second) + seq![count] + old(
            buf,
        )@.skip(6),
{
    put_code_words(buf, code, first, second);
    buf[5] = count;
    assert(buf@ =~= seq![code] + be_bytes(first) + be_bytes(second) + seq![count] + old(
        buf,
    )@.skip(6));
}

/// Writes a function code, four words and a byte count to the front of `buf`.
fn put_read_write_head(
    buf: &mut [u8],
    code: u8,
    read_address: u16,
    quantity: u16,
    write_address: u16,
    write_quantity: u16,
    count: u8,
)
    requires
        old(buf)@.len() >= 10,
    ensures
        final(buf)@ == seq![code] + be_bytes(read_address) + be_bytes(quantity) + be_bytes(
            write_address,
        ) + be_bytes(write_quantity) + seq![count] + old(buf)@.skip(10),
{
    put_code_words(buf, code, read_address, quantity);
    word_into(buf, 5, write_address);
    assert(buf@ =~= seq![code] + be_bytes(read_address) + be_bytes(quantity) + be_bytes(
        write_address,
    ) + old(buf)@.skip(7));
    word_into(buf, 7, write_quantity);
    assert(buf@ =~= seq![code] + be_bytes(read_address) + be_bytes(quantity) + be_bytes(
        write_address,
    ) + be_bytes(write_quantity) + old(buf)@.skip(9));
    buf[9] = count;
    assert(buf@ =~= seq![code] + be_bytes(read_address) + be_bytes(quantity) + be_bytes(
        write_address,
    ) + be_bytes(write_quantity) + seq![count] + old(buf)@.skip(10));
}

/// Writes a function code and a byte count to the front of `buf`.
fn put_code_count(buf: &mut [u8], code: u8, count: u8)
    requires
        old(buf)@.len() >= 2,
    ensures
        final(buf)@ == seq![code, count] + old(buf)@.skip(2),
{
    buf[0] = code;
    buf[1] = count;
    assert(buf@ =~= seq![code, count] + old(buf)@.skip(2));
}

/// Writes the packed bytes of coils to `buf`, from byte `at` on.
fn put_coils(buf: &mut [u8], at: usize, coils: &Coils<'_>)
    requires
        coils.wf(),
        at + coils@.packed_len() <= old(buf)@.len(),
    ensures
        final(buf)@ == old(buf)@.take(at as int) + coils@.packed() + old(buf)@.skip(
            at + coils@.packed_len(),
        ),
{
    let (_, rest) = buf.split_at_mut(at);
    coils.copy_to(rest);
    assert(buf@ =~= old(buf)@.take(at as int) + coils@.packed() + old(buf)@.skip(
        at + coils@.packed_len(),
    ));
}

/// Writes the bytes of words to `buf`, from byte `at` on.
fn put_words(buf: &mut [u8], at: usize, words: &Data<'_>)
    requires
        words.wf(),
        at + 2 * words@.quantity <= old(buf)@.len(),
    ensures
        final(buf)@ == old(buf)@.take(at as int) + words@.packed() + old(buf)@.skip(
            at + 2 * words@.quantity,
        ),
{
    let (_, rest) = buf.split_at_mut(at);
    words.copy_to(rest);
    assert(buf@ =~= old(buf)@.take(at as int) + words@.packed() + old(buf)@.skip(
        at + 2 * words@.quantity,
    ));
}

impl Encode for Request<'_> {
    open spec fn encoding(&self) -> Seq<u8> {
        spec_encode_request(self@)
    }

    open spec fn encodable(&self) -> bool {
        self@.wf() && self@.pdu_len() <= usize::MAX
    }

    fn encode(&self, buf: &mut [u8]) -> (r: Result<usize, Error>) {
        let len = self.pdu_len();
        if buf.len() < len {
            return Err(Error::BufferSize);
        }
        let ghost orig = buf@;
        let code = self.function_code().value();
        match self {
            Self::ReadCoils(address, payload)
            | Self::ReadDiscreteInputs(address, payload)
            | Self::ReadInputRegisters(address, payload)
            | Self::ReadHoldingRegisters(address, payload)
            | Self::WriteSingleRegister(address, payload) => {
                put_code_words(buf, code, *address, *payload);
            },
            Self::WriteSingleCoil(address, state) => {
                put_code_words(buf, code, *address, bool_to_u16_coil(*state));
            },
            Self::WriteMultipleCoils(address, coils) => {
                let quantity = (coils.len() % 0x1_0000) as u16;
                let byte_count = (coils.packed_len() % 0x100) as u8;
                put_counted_head(buf, code, *address, quantity, byte_count);
                let ghost head = buf@.take(6);
                put_coils(buf, 6, coils);
                assert(buf@ =~= head + coils@.packed() + orig.skip(len as int));
            },
            Self::WriteMultipleRegisters(address, words) => {
                let quantity = (words.len() % 0x1_0000) as u16;
                let byte_count = ((words.len() * 2) % 0x100) as u8;
                put_counted_head(buf, code, *address, quantity, byte_count);
                let ghost head = buf@.take(6);
                put_words(buf, 6, words);
                assert(buf@ =~= head + words@.packed() + orig.skip(len as int));
            },
            Self::ReadWriteMultipleRegisters(read_address, quantity, write_address, words) => {
                let write_quantity = (words.len() % 0x1_0000) as u16;
                let byte_count = ((words.len() * 2) % 0x100) as u8;
                put_read_write_head(
                    buf,
                    code,
                    *read_address,
                    *quantity,
                    *write_address,
                    write_quantity,
                    byte_count,
                );
                let ghost head = buf@.take(10);
                put_words(buf, 10, words);
                assert(buf@ =~= head + words@.packed() + orig.skip(len as int));
            },
            Self::Custom(_, custom_data) => {
                buf[0] = code;
                bytes_into(buf, 1, custom_data);
                assert(buf@ =~= seq![code] + custom_data@ + orig.skip(len as int));
            },
        }
        assert(buf@ =~= self.encoding() + orig.skip(len as int));
        Ok(len)
    }
}

impl Encode for Response<'_> {
    open spec fn encoding(&self) -> Seq<u8> {
        spec_encode_response(self@)
    }

    open spec fn encodable(&self) -> bool {
        self@.wf() && self@.pdu_len() <= usize::MAX
    }

    fn encode(&self, buf: &mut [u8]) -> (r: Result<usize, Error>) {
        let len = self.pdu_len();
        if buf.len() < len {
            return Err(Error::BufferSize);
        }
        let ghost orig = buf@;
        let code = self.function_code().value();
        match self {
            Self::ReadCoils(coils) | Self::ReadDiscreteInputs(coils) => {
                let byte_count = (coils.packed_len() % 0x100) as u8;
                put_code_count(buf, code, byte_count);
                put_coils(buf, 2, coils);
                assert(buf@ =~= seq![code, byte_count] + coils@.packed() + orig.skip(len as int));
            },
            Self::ReadInputRegisters(registers)
            | Self::ReadHoldingRegisters(registers)
            | Self::ReadWriteMultipleRegisters(registers) => {
                let byte_count = ((registers.len() * 2) % 0x100) as u8;
                put_code_count(buf, code, byte_count);
                put_words(buf, 2, registers);
                assert(buf@ =~= seq![code, byte_count] + registers@.packed() + orig.skip(
                    len as int,
                ));
            },
            Self::WriteSingleCoil(address) => {
                put_code_word(buf, code, *address);
            },
            Self::WriteMultipleCoils(address, payload)
            | Self::WriteMultipleRegisters(address, payload)
            | Self::WriteSingleRegister(address, payload) => {
                put_code_words(buf, code, *address, *payload);
            },
            Self::Custom(_, custom_data) => {
                buf[0] = code;
                bytes_into(buf, 1, custom_data);
                assert(buf@ =~= seq![code] + custom_data@ + orig.skip(len as int));
            },
        }
        assert(buf@ =~= self.encoding() + orig.skip(len as int));
        Ok(len)
    }
}

impl Encode for RequestPdu<'_> {
    open spec fn encoding(&self) -> Seq<u8> {
        self.0.encoding()
    }

    open spec fn encodable(&self) -> bool {
        self.0.encodable()
    }

    fn encode(&self, buf: &mut [u8]) -> (r: Result<usize, Error>) {
        self.0.encode(buf)
    }
}

impl Encode for ExceptionResponse {
    open spec fn encoding(&self) -> Seq<u8> {
        spec_encode_exception_response(*self)
    }

    open spec fn encodable(&self) -> bool {
        true
    }

    fn encode(&self, buf: &mut [u8]) -> (r: Result<usize, Error>) {
        if buf.len() < 2 {
            return Err(Error::BufferSize);
        }
        let bytes: [u8; 2] = <[u8; 2]>::from(*self);
        buf[0] = bytes[0];
        buf[1] = bytes[1];
        proof {
            assert(buf@ =~= self.encoding() + old(buf)@.skip(2));
        }
        Ok(2)
    }
}

impl Encode for ResponsePdu<'_> {
    open spec fn encoding(&self) -> Seq<u8> {
        spec_encode_response_pdu(self@)
    }

    open spec fn encodable(&self) -> bool {
        match self.0 {
            Ok(response) => response.encodable(),
            Err(exception) => exception.encodable(),
        }
    }

    fn encode(&self, buf: &mut [u8]) -> (r: Result<usize, Error>) {
        match self.0 {
            Ok(res) => res.encode(buf),
            Err(e) => e.encode(buf),
        }
    }
}

/// The least number of bytes of a request PDU with the given function code.
pub fn min_request_pdu_len(fn_code: FunctionCode) -> (len: usize)
    ensures
        len == spec_min_request_pdu_len(fn_code),
{
    match fn_code {
        FunctionCode::ReadCoils
        | FunctionCode::ReadDiscreteInputs
        | FunctionCode::ReadInputRegisters
        | FunctionCode::WriteSingleCoil
        | FunctionCode::ReadHoldingRegisters
        | FunctionCode::WriteSingleRegister => 5,
        FunctionCode::WriteMultipleCoils | FunctionCode::WriteMultipleRegisters => 6,
        FunctionCode::ReadWriteMultipleRegisters => 10,
        _ => 1,
    }
}

/// The least number of bytes of a response PDU with the given function code.
pub fn min_response_pdu_len(fn_code: FunctionCode) -> (len: usize)
    ensures
        len == spec_min_response_pdu_len(fn_code),
{
    match fn_code {
        FunctionCode::ReadCoils
        | FunctionCode::ReadDiscreteInputs
        | FunctionCode::ReadInputRegisters
        | FunctionCode::ReadHoldingRegisters
        | FunctionCode::ReadWriteMultipleRegisters => 2,
        FunctionCode::WriteSingleCoil => 3,
        FunctionCode::WriteMultipleCoils
        | FunctionCode::WriteSingleRegister
        | FunctionCode::WriteMultipleRegisters
        | FunctionCode::GetCommEventCounter => 5,
        _ => 1,
    }
}

} // verus!
