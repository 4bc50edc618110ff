//! The protocol data units: function codes, exceptions, requests and
//! responses, and their models.

pub mod coils;
pub mod data;
pub mod rtu;
pub mod tcp;

use self::coils::{Coil, Coils, CoilsView};
use self::data::{Data, DataView, Word};
use vstd::prelude::*;
use vstd::std_specs::convert::FromSpecImpl;

verus! {

/// A Modbus address is represented by 16 bit (from `0` to `65535`).
pub type Address = u16;

/// Number of items to process (`0` - `65535`).
pub type Quantity = u16;

/// The location of all bytes that belong to a frame.
#[derive(Debug, Clone, Copy, PartialEq, Eq)]
pub struct FrameLocation {
    /// The index where the frame starts
    pub start: usize,
    /// Number of bytes that belong to the frame
    pub size: usize,
}

impl FrameLocation {
    /// One past the last byte of the frame.
    pub fn end(&self) -> (end: usize)
        requires
            self.start + self.size <= usize::MAX,
        ensures
            end == self.start + self.size,
    {
        self.start + self.size
    }
}

/// A Modbus function code.
///
/// It is represented by an unsigned 8 bit integer.
#[derive(Debug, Clone, Copy, PartialEq, Eq)]
pub enum FunctionCode {
    /// Modbus Function Code: `01` (`0x01`).
    ReadCoils,
    /// Modbus Function Code: `02` (`0x02`).
    ReadDiscreteInputs,
    /// Modbus Function Code: `05` (`0x05`).
    WriteSingleCoil,
    /// Modbus Function Code: `06` (`0x06`).
    WriteSingleRegister,
    /// Modbus Function Code: `03` (`0x03`).
    ReadHoldingRegisters,
    /// Modbus Function Code: `04` (`0x04`).
    ReadInputRegisters,
    /// Modbus Function Code: `15` (`0x0F`).
    WriteMultipleCoils,
    /// Modbus Function Code: `16` (`0x10`).
    WriteMultipleRegisters,
    /// Modbus Function Code: `22` (`0x16`).
    MaskWriteRegister,
    /// Modbus Function Code: `23` (`0x17`).
    ReadWriteMultipleRegisters,
    /// Modbus Function Code: `07` (`0x07`), serial line only.
    ReadExceptionStatus,
    /// Modbus Function Code: `08` (`0x08`), serial line only.
    Diagnostics,
    /// Modbus Function Code: `11` (`0x0B`), serial line only.
    GetCommEventCounter,
    /// Modbus Function Code: `12` (`0x0C`), serial line only.
    GetCommEventLog,
    /// Modbus Function Code: `17` (`0x11`), serial line only.
    ReportServerId,
    /// Custom Modbus Function Code.
    Custom(u8),
}

impl FunctionCode {
    /// The function code that a byte denotes: its name where it has one,
    /// `Custom` otherwise.
    pub open spec fn spec_new(value: u8) -> FunctionCode {
        match value {
            0x01 => FunctionCode::ReadCoils,
            0x02 => FunctionCode::ReadDiscreteInputs,
            0x05 => FunctionCode::WriteSingleCoil,
            0x06 => FunctionCode::WriteSingleRegister,
            0x03 => FunctionCode::ReadHoldingRegisters,
            0x04 => FunctionCode::ReadInputRegisters,
            0x0F => FunctionCode::WriteMultipleCoils,
            0x10 => FunctionCode::WriteMultipleRegisters,
            0x16 => FunctionCode::MaskWriteRegister,
            0x17 => FunctionCode::ReadWriteMultipleRegisters,
            0x07 => FunctionCode::ReadExceptionStatus,
            0x08 => FunctionCode::Diagnostics,
            0x0B => FunctionCode::GetCommEventCounter,
            0x0C => FunctionCode::GetCommEventLog,
            0x11 => FunctionCode::ReportServerId,
            code => FunctionCode::Custom(code),
        }
    }

    /// The byte of a function code.
    pub open spec fn spec_value(self) -> u8 {
        match self {
            FunctionCode::ReadCoils => 0x01,
            FunctionCode::ReadDiscreteInputs => 0x02,
            FunctionCode::WriteSingleCoil => 0x05,
            FunctionCode::WriteSingleRegister => 0x06,
            FunctionCode::ReadHoldingRegisters => 0x03,
            FunctionCode::ReadInputRegisters => 0x04,
            FunctionCode::WriteMultipleCoils => 0x0F,
            FunctionCode::WriteMultipleRegisters => 0x10,
            FunctionCode::MaskWriteRegister => 0x16,
            FunctionCode::ReadWriteMultipleRegisters => 0x17,
            FunctionCode::ReadExceptionStatus => 0x07,
            FunctionCode::Diagnostics => 0x08,
            FunctionCode::GetCommEventCounter => 0x0B,
            FunctionCode::GetCommEventLog => 0x0C,
            FunctionCode::ReportServerId => 0x11,
            FunctionCode::Custom(code) => code,
        }
    }

    /// The function code is not `Custom` with the byte of a named code.
    pub open spec fn is_canonical(self) -> bool {
        FunctionCode::spec_new(self.spec_value()) == self
    }

    /// Create a new [`FunctionCode`] with `value`.
    #[verifier::when_used_as_spec(spec_new)]
    pub fn new(value: u8) -> (code: Self)
        ensures
            code == FunctionCode::spec_new(value),
    {
        match value {
            0x01 => Self::ReadCoils,
            0x02 => Self::ReadDiscreteInputs,
            0x05 => Self::WriteSingleCoil,
            0x06 => Self::WriteSingleRegister,
            0x03 => Self::ReadHoldingRegisters,
            0x04 => Self::ReadInputRegisters,
            0x0F => Self::WriteMultipleCoils,
            0x10 => Self::WriteMultipleRegisters,
            0x16 => Self::MaskWriteRegister,
            0x17 => Self::ReadWriteMultipleRegisters,
            0x07 => Self::ReadExceptionStatus,
            0x08 => Self::Diagnostics,
            0x0B => Self::GetCommEventCounter,
            0x0C => Self::GetCommEventLog,
            0x11 => Self::ReportServerId,
            code => FunctionCode::Custom(code),
        }
    }

    /// Get the [`u8`] value of the current [`FunctionCode`].
    #[verifier::when_used_as_spec(spec_value)]
    pub fn value(self) -> (value: u8)
        ensures
            value == self.spec_value(),
    {
        match self {
            Self::ReadCoils => 0x01,
            Self::ReadDiscreteInputs => 0x02,
            Self::WriteSingleCoil => 0x05,
            Self::WriteSingleRegister => 0x06,
            Self::ReadHoldingRegisters => 0x03,
            Self::ReadInputRegisters => 0x04,
            Self::WriteMultipleCoils => 0x0F,
            Self::WriteMultipleRegisters => 0x10,
            Self::MaskWriteRegister => 0x16,
            Self::ReadWriteMultipleRegisters => 0x17,
            Self::ReadExceptionStatus => 0x07,
            Self::Diagnostics => 0x08,
            Self::GetCommEventCounter => 0x0B,
            Self::GetCommEventLog => 0x0C,
            Self::ReportServerId => 0x11,
            Self::Custom(code) => code,
        }
    }
}

/// Every byte is the value of the function code that it denotes, and a
/// function code is the one that its value denotes unless it is `Custom`
/// with the byte of a named code.
pub proof fn lemma_function_code_round_trip(value: u8, code: FunctionCode)
    ensures
        FunctionCode::spec_new(value).spec_value() == value,
        FunctionCode::spec_new(value).is_canonical(),
        !(code is Custom) ==> code.is_canonical(),
        code matches FunctionCode::Custom(c) ==> (code.is_canonical() <==> FunctionCode::spec_new(
            c,
        ) is Custom),
{
}

/// A server (slave) exception.
#[derive(Debug, Clone, Copy, PartialEq, Eq)]
pub enum Exception {
    IllegalFunction,
    IllegalDataAddress,
    IllegalDataValue,
    ServerDeviceFailure,
    Acknowledge,
    ServerDeviceBusy,
    MemoryParityError,
    GatewayPathUnavailable,
    GatewayTargetDevice,
}

impl Exception {
    /// The byte of an exception.
    pub open spec fn spec_code(self) -> u8 {
        match self {
            Exception::IllegalFunction => 0x01,
            Exception::IllegalDataAddress => 0x02,
            Exception::IllegalDataValue => 0x03,
            Exception::ServerDeviceFailure => 0x04,
            Exception::Acknowledge => 0x05,
            Exception::ServerDeviceBusy => 0x06,
            Exception::MemoryParityError => 0x08,
            Exception::GatewayPathUnavailable => 0x0A,
            Exception::GatewayTargetDevice => 0x0B,
        }
    }

    /// What an exception is called.
    pub open spec fn spec_get_name(self) -> Seq<char> {
        match self {
            Exception::IllegalFunction => "Illegal function"@,
            Exception::IllegalDataAddress => "Illegal data address"@,
            Exception::IllegalDataValue => "Illegal data value"@,
            Exception::ServerDeviceFailure => "Server device failure"@,
            Exception::Acknowledge => "Acknowledge"@,
            Exception::ServerDeviceBusy => "Server device busy"@,
            Exception::MemoryParityError => "Memory parity error"@,
            Exception::GatewayPathUnavailable => "Gateway path unavailable"@,
            Exception::GatewayTargetDevice => "Gateway target device failed to respond"@,
        }
    }

    /// The byte that stands for the exception on the wire.
    #[verifier::when_used_as_spec(spec_code)]
    pub fn code(self) -> (code: u8)
        ensures
            code == self.spec_code(),
    {
        match self {
            Self::IllegalFunction => 0x01,
            Self::IllegalDataAddress => 0x02,
            Self::IllegalDataValue => 0x03,
            Self::ServerDeviceFailure => 0x04,
            Self::Acknowledge => 0x05,
            Self::ServerDeviceBusy => 0x06,
            Self::MemoryParityError => 0x08,
            Self::GatewayPathUnavailable => 0x0A,
            Self::GatewayTargetDevice => 0x0B,
        }
    }

    /// What the exception is called.
    pub fn get_name(self) -> (name: &'static str)
        ensures
            name@ == self.spec_get_name(),
    {
        match self {
            Self::IllegalFunction => "Illegal function",
            Self::IllegalDataAddress => "Illegal data address",
            Self::IllegalDataValue => "Illegal data value",
            Self::ServerDeviceFailure => "Server device failure",
            Self::Acknowledge => "Acknowledge",
            Self::ServerDeviceBusy => "Server device busy",
            Self::MemoryParityError => "Memory parity error",
            Self::GatewayPathUnavailable => "Gateway path unavailable",
            Self::GatewayTargetDevice => "Gateway target device failed to respond",
        }
    }
}

/// A server (slave) exception response.
#[derive(Debug, Clone, Copy, PartialEq, Eq)]
pub struct ExceptionResponse {
    pub function: FunctionCode,
    pub exception: Exception,
}

impl ExceptionResponse {
    /// The function code is one that a request can carry: below `0x80`.
    pub open spec fn wf(self) -> bool {
        self.function.spec_value() < 0x80
    }
}

/// The model of [`Request`]: the same variants, with the models of the
/// payloads in place of views of a buffer.
pub enum RequestView {
    ReadCoils(u16, u16),
    ReadDiscreteInputs(u16, u16),
    WriteSingleCoil(u16, bool),
    WriteMultipleCoils(u16, CoilsView),
    ReadInputRegisters(u16, u16),
    ReadHoldingRegisters(u16, u16),
    WriteSingleRegister(u16, u16),
    WriteMultipleRegisters(u16, DataView),
    ReadWriteMultipleRegisters(u16, u16, u16, DataView),
    Custom(FunctionCode, Seq<u8>),
}

impl RequestView {
    /// The function code of the request.
    pub open spec fn function_code(self) -> FunctionCode {
        match self {
            RequestView::ReadCoils(_, _) => FunctionCode::ReadCoils,
            RequestView::ReadDiscreteInputs(_, _) => FunctionCode::ReadDiscreteInputs,
            RequestView::WriteSingleCoil(_, _) => FunctionCode::WriteSingleCoil,
            RequestView::WriteMultipleCoils(_, _) => FunctionCode::WriteMultipleCoils,
            RequestView::ReadInputRegisters(_, _) => FunctionCode::ReadInputRegisters,
            RequestView::ReadHoldingRegisters(_, _) => FunctionCode::ReadHoldingRegisters,
            RequestView::WriteSingleRegister(_, _) => FunctionCode::WriteSingleRegister,
            RequestView::WriteMultipleRegisters(_, _) => FunctionCode::WriteMultipleRegisters,
            RequestView::ReadWriteMultipleRegisters(_, _, _, _) => {
                FunctionCode::ReadWriteMultipleRegisters
            },
            RequestView::Custom(code, _) => code,
        }
    }

    /// The number of bytes of the serialized PDU.
    pub open spec fn pdu_len(self) -> nat {
        match self {
            RequestView::ReadCoils(_, _)
            | RequestView::ReadDiscreteInputs(_, _)
            | RequestView::ReadInputRegisters(_, _)
            | RequestView::ReadHoldingRegisters(_, _)
            | RequestView::WriteSingleRegister(_, _)
            | RequestView::WriteSingleCoil(_, _) => 5,
            RequestView::WriteMultipleCoils(_, coils) => 6 + coils.packed_len(),
            RequestView::WriteMultipleRegisters(_, words) => 6 + 2 * words.quantity,
            RequestView::ReadWriteMultipleRegisters(_, _, _, words) => 10 + 2 * words.quantity,
            RequestView::Custom(_, data) => 1 + data.len(),
        }
    }

    /// The payload, where there is one, holds what it declares.
    pub open spec fn wf(self) -> bool {
        match self {
            RequestView::WriteMultipleCoils(_, coils) => coils.wf(),
            RequestView::WriteMultipleRegisters(_, words) => words.wf(),
            RequestView::ReadWriteMultipleRegisters(_, _, _, words) => words.wf(),
            _ => true,
        }
    }
}

/// A request represents a message from the client (master) to the server (slave).
#[derive(Debug, Clone, Copy, PartialEq, Eq)]
pub enum Request<'r> {
    ReadCoils(Address, Quantity),
    ReadDiscreteInputs(Address, Quantity),
    WriteSingleCoil(Address, Coil),
    WriteMultipleCoils(Address, Coils<'r>),
    ReadInputRegisters(Address, Quantity),
    ReadHoldingRegisters(Address, Quantity),
    WriteSingleRegister(Address, Word),
    WriteMultipleRegisters(Address, Data<'r>),
    ReadWriteMultipleRegisters(Address, Quantity, Address, Data<'r>),
    Custom(FunctionCode, &'r [u8]),
}

impl<'r> View for Request<'r> {
    type V = RequestView;

    open spec fn view(&self) -> RequestView {
        match *self {
            Request::ReadCoils(a, q) => RequestView::ReadCoils(a, q),
            Request::ReadDiscreteInputs(a, q) => RequestView::ReadDiscreteInputs(a, q),
            Request::WriteSingleCoil(a, c) => RequestView::WriteSingleCoil(a, c),
            Request::WriteMultipleCoils(a, coils) => RequestView::WriteMultipleCoils(a, coils@),
            Request::ReadInputRegisters(a, q) => RequestView::ReadInputRegisters(a, q),
            Request::ReadHoldingRegisters(a, q) => RequestView::ReadHoldingRegisters(a, q),
            Request::WriteSingleRegister(a, w) => RequestView::WriteSingleRegister(a, w),
            Request::WriteMultipleRegisters(a, words) => RequestView::WriteMultipleRegisters(
                a,
                words@,
            ),
            Request::ReadWriteMultipleRegisters(ra, q, wa, words) => {
                RequestView::ReadWriteMultipleRegisters(ra, q, wa, words@)
            },
            Request::Custom(code, data) => RequestView::Custom(code, data@),
        }
    }
}

impl<'r> Request<'r> {
    /// The payload, where there is one, holds what it declares.
    pub open spec fn wf(&self) -> bool {
        self@.wf()
    }

    /// The function code of the request.
    pub open spec fn spec_function_code(self) -> FunctionCode {
        self@.function_code()
    }

    /// The function code of the request.
    #[verifier::when_used_as_spec(spec_function_code)]
    pub fn function_code(self) -> (code: FunctionCode)
        ensures
            code == self@.function_code(),
    {
        match self {
            Request::ReadCoils(_, _) => FunctionCode::ReadCoils,
            Request::ReadDiscreteInputs(_, _) => FunctionCode::ReadDiscreteInputs,
            Request::WriteSingleCoil(_, _) => FunctionCode::WriteSingleCoil,
            Request::WriteMultipleCoils(_, _) => FunctionCode::WriteMultipleCoils,
            Request::ReadInputRegisters(_, _) => FunctionCode::ReadInputRegisters,
            Request::ReadHoldingRegisters(_, _) => FunctionCode::ReadHoldingRegisters,
            Request::WriteSingleRegister(_, _) => FunctionCode::WriteSingleRegister,
            Request::WriteMultipleRegisters(_, _) => FunctionCode::WriteMultipleRegisters,
            Request::ReadWriteMultipleRegisters(_, _, _, _) => {
                FunctionCode::ReadWriteMultipleRegisters
            },
            Request::Custom(code, _) => code,
        }
    }

    /// Number of bytes required for a serialized PDU frame.
    pub fn pdu_len(&self) -> (len: usize)
        requires
            self@.pdu_len() <= usize::MAX,
        ensures
            len == self@.pdu_len(),
    {
        match *self {
            Self::ReadCoils(_, _)
            | Self::ReadDiscreteInputs(_, _)
            | Self::ReadInputRegisters(_, _)
            | Self::ReadHoldingRegisters(_, _)
            | Self::WriteSingleRegister(_, _)
            | Self::WriteSingleCoil(_, _) => 5,
            Self::WriteMultipleCoils(_, coils) => 6 + coils.packed_len(),
            Self::WriteMultipleRegisters(_, words) => 6 + words.len() * 2,
            Self::ReadWriteMultipleRegisters(_, _, _, words) => 10 + words.len() * 2,
            Self::Custom(_, data) => 1 + data.len(),
        }
    }
}

/// The model of [`Response`]: the same variants, with the models of the
/// payloads in place of views of a buffer.
pub enum ResponseView {
    ReadCoils(CoilsView),
    ReadDiscreteInputs(CoilsView),
    WriteSingleCoil(u16),
    WriteMultipleCoils(u16, u16),
    ReadInputRegisters(DataView),
    ReadHoldingRegisters(DataView),
    WriteSingleRegister(u16, u16),
    WriteMultipleRegisters(u16, u16),
    ReadWriteMultipleRegisters(DataView),
    Custom(FunctionCode, Seq<u8>),
}

impl ResponseView {
    /// The function code of the response.
    pub open spec fn function_code(self) -> FunctionCode {
        match self {
            ResponseView::ReadCoils(_) => FunctionCode::ReadCoils,
            ResponseView::ReadDiscreteInputs(_) => FunctionCode::ReadDiscreteInputs,
            ResponseView::WriteSingleCoil(_) => FunctionCode::WriteSingleCoil,
            ResponseView::WriteMultipleCoils(_, _) => FunctionCode::WriteMultipleCoils,
            ResponseView::ReadInputRegisters(_) => FunctionCode::ReadInputRegisters,
            ResponseView::ReadHoldingRegisters(_) => FunctionCode::ReadHoldingRegisters,
            ResponseView::WriteSingleRegister(_, _) => FunctionCode::WriteSingleRegister,
            ResponseView::WriteMultipleRegisters(_, _) => FunctionCode::WriteMultipleRegisters,
            ResponseView::ReadWriteMultipleRegisters(_) => {
                FunctionCode::ReadWriteMultipleRegisters
            },
            ResponseView::Custom(code, _) => code,
        }
    }

    /// The number of bytes of the serialized PDU.
    pub open spec fn pdu_len(self) -> nat {
        match self {
            ResponseView::ReadCoils(coils) | ResponseView::ReadDiscreteInputs(coils) => 2
                + coils.packed_len(),
            ResponseView::WriteSingleCoil(_) => 3,
            ResponseView::WriteMultipleCoils(_, _)
            | ResponseView::WriteMultipleRegisters(_, _)
            | ResponseView::WriteSingleRegister(_, _) => 5,
            ResponseView::ReadInputRegisters(words)
            | ResponseView::ReadHoldingRegisters(words)
            | ResponseView::ReadWriteMultipleRegisters(words) => 2 + 2 * words.quantity,
            ResponseView::Custom(_, data) => 1 + data.len(),
        }
    }

    /// The payload, where there is one, holds what it declares.
    pub open spec fn wf(self) -> bool {
        match self {
            ResponseView::ReadCoils(coils) | ResponseView::ReadDiscreteInputs(coils) => {
                coils.wf()
            },
            ResponseView::ReadInputRegisters(words)
            | ResponseView::ReadHoldingRegisters(words)
            | ResponseView::ReadWriteMultipleRegisters(words) => words.wf(),
            _ => true,
        }
    }
}

/// The response data of a successful request.
#[derive(Debug, Clone, Copy, PartialEq, Eq)]
pub enum Response<'r> {
    ReadCoils(Coils<'r>),
    ReadDiscreteInputs(Coils<'r>),
    /// The echo of a single-coil request, as one raw word.
    WriteSingleCoil(Address),
    WriteMultipleCoils(Address, Quantity),
    ReadInputRegisters(Data<'r>),
    ReadHoldingRegisters(Data<'r>),
    WriteSingleRegister(Address, Word),
    WriteMultipleRegisters(Address, Quantity),
    ReadWriteMultipleRegisters(Data<'r>),
    Custom(FunctionCode, &'r [u8]),
}

impl<'r> View for Response<'r> {
    type V = ResponseView;

    open spec fn view(&self) -> ResponseView {
        match *self {
            Response::ReadCoils(coils) => ResponseView::ReadCoils(coils@),
            Response::ReadDiscreteInputs(coils) => ResponseView::ReadDiscreteInputs(coils@),
            Response::WriteSingleCoil(a) => ResponseView::WriteSingleCoil(a),
            Response::WriteMultipleCoils(a, q) => ResponseView::WriteMultipleCoils(a, q),
            Response::ReadInputRegisters(words) => ResponseView::ReadInputRegisters(words@),
            Response::ReadHoldingRegisters(words) => ResponseView::ReadHoldingRegisters(words@),
            Response::WriteSingleRegister(a, w) => ResponseView::WriteSingleRegister(a, w),
            Response::WriteMultipleRegisters(a, q) => ResponseView::WriteMultipleRegisters(a, q),
            Response::ReadWriteMultipleRegisters(words) => {
                ResponseView::ReadWriteMultipleRegisters(words@)
            },
            Response::Custom(code, data) => ResponseView::Custom(code, data@),
        }
    }
}

impl<'r> Response<'r> {
    /// The payload, where there is one, holds what it declares.
    pub open spec fn wf(&self) -> bool {
        self@.wf()
    }

    /// The function code of the response.
    pub open spec fn spec_function_code(self) -> FunctionCode {
        self@.function_code()
    }

    /// The function code of the response.
    #[verifier::when_used_as_spec(spec_function_code)]
    pub fn function_code(self) -> (code: FunctionCode)
        ensures
            code == self@.function_code(),
    {
        match self {
            Response::ReadCoils(_) => FunctionCode::ReadCoils,
            Response::ReadDiscreteInputs(_) => FunctionCode::ReadDiscreteInputs,
            Response::WriteSingleCoil(_) => FunctionCode::WriteSingleCoil,
            Response::WriteMultipleCoils(_, _) => FunctionCode::WriteMultipleCoils,
            Response::ReadInputRegisters(_) => FunctionCode::ReadInputRegisters,
            Response::ReadHoldingRegisters(_) => FunctionCode::ReadHoldingRegisters,
            Response::WriteSingleRegister(_, _) => FunctionCode::WriteSingleRegister,
            Response::WriteMultipleRegisters(_, _) => FunctionCode::WriteMultipleRegisters,
            Response::ReadWriteMultipleRegisters(_) => FunctionCode::ReadWriteMultipleRegisters,
            Response::Custom(code, _) => code,
        }
    }

    /// Number of bytes required for a serialized PDU frame.
    pub fn pdu_len(&self) -> (len: usize)
        requires
            self@.pdu_len() <= usize::MAX,
        ensures
            len == self@.pdu_len(),
    {
        match *self {
            Self::ReadCoils(coils) | Self::ReadDiscreteInputs(coils) => 2 + coils.packed_len(),
            Self::WriteSingleCoil(_) => 3,
            Self::WriteMultipleCoils(_, _)
            | Self::WriteMultipleRegisters(_, _)
            | Self::WriteSingleRegister(_, _) => 5,
            Self::ReadInputRegisters(words)
            | Self::ReadHoldingRegisters(words)
            | Self::ReadWriteMultipleRegisters(words) => 2 + words.len() * 2,
            Self::Custom(_, data) => 1 + data.len(),
        }
    }
}

/// Represents a message from the client (slave) to the server (master).
#[derive(Debug, Clone, Copy, PartialEq, Eq)]
pub struct RequestPdu<'r>(pub Request<'r>);

impl<'r> View for RequestPdu<'r> {
    type V = RequestView;

    open spec fn view(&self) -> RequestView {
        self.0@
    }
}

/// Represents a message from the server (slave) to the client (master):
/// the response to a request, or the exception that refuses it.
#[derive(Debug, Clone, Copy, PartialEq, Eq)]
pub struct ResponsePdu<'r>(pub Result<Response<'r>, ExceptionResponse>);

impl<'r> View for ResponsePdu<'r> {
    type V = Result<ResponseView, ExceptionResponse>;

    open spec fn view(&self) -> Result<ResponseView, ExceptionResponse> {
        match self.0 {
            Ok(response) => Ok(response@),
            Err(exception) => Err(exception),
        }
    }
}

impl<'r> From<Request<'r>> for FunctionCode {
    fn from(r: Request<'r>) -> (code: Self) {
        r.function_code()
    }
}

impl<'r> FromSpecImpl<Request<'r>> for FunctionCode {
    open spec fn obeys_from_spec() -> bool {
        true
    }

    open spec fn from_spec(r: Request<'r>) -> Self {
        r@.function_code()
    }
}

impl<'r> From<Response<'r>> for FunctionCode {
    fn from(r: Response<'r>) -> (code: Self) {
        r.function_code()
    }
}

impl<'r> FromSpecImpl<Response<'r>> for FunctionCode {
    open spec fn obeys_from_spec() -> bool {
        true
    }

    open spec fn from_spec(r: Response<'r>) -> Self {
        r@.function_code()
    }
}

} // verus!
