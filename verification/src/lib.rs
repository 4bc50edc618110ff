//! A Modbus codec for the RTU and TCP transports.
//!
//! Requests and responses are typed values that borrow their payload from the
//! caller's buffer. Decoding never copies and never writes; encoding writes
//! into a buffer the caller owns and reports the number of bytes written.

pub mod codec;
pub mod endian;
pub mod error;
pub mod frame;
pub mod util;

pub use codec::rtu;
pub use codec::tcp;
pub use codec::{min_request_pdu_len, min_response_pdu_len, DecoderType, Encode};
pub use error::Error;
pub use frame::coils::{
    bool_to_u16_coil, pack_coils, u16_coil_to_bool, unpack_coils, CoilQuantity, Coils, CoilsIter,
};
pub use frame::data::{Data, DataFromBufferError, DataIter};
pub use frame::{
    Exception, ExceptionResponse, FrameLocation, FunctionCode, Request, RequestPdu, Response,
    ResponsePdu,
};
