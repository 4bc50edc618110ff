//! The TCP application data unit: a PDU behind an MBAP header.

use crate::frame::{ExceptionResponse, RequestPdu, RequestView, ResponsePdu, ResponseView};
use vstd::prelude::*;

verus! {

/// The number by which a client pairs a response with its request.
pub type TransactionId = u16;

/// The address of a unit behind a gateway.
pub type UnitId = u8;

/// What an MBAP header carries besides the protocol identifier and the
/// length.
#[derive(Debug, Clone, Copy, PartialEq, Eq)]
pub struct Header {
    pub transaction_id: TransactionId,
    pub unit_id: UnitId,
}

/// TCP Request ADU
#[derive(Debug, Clone, Copy, PartialEq, Eq)]
pub struct RequestAdu<'r> {
    pub hdr: Header,
    pub pdu: RequestPdu<'r>,
}

/// TCP Response ADU
#[derive(Debug, Clone, Copy, PartialEq, Eq)]
pub struct ResponseAdu<'r> {
    pub hdr: Header,
    pub pdu: ResponsePdu<'r>,
}

/// The model of [`RequestAdu`]: the header and the model of the request.
pub struct RequestAduView {
    pub hdr: Header,
    pub pdu: RequestView,
}

impl<'r> View for RequestAdu<'r> {
    type V = RequestAduView;

    open spec fn view(&self) -> RequestAduView {
        RequestAduView { hdr: self.hdr, pdu: self.pdu@ }
    }
}

/// The model of [`ResponseAdu`]: the header and the model of the response
/// or the exception.
pub struct ResponseAduView {
    pub hdr: Header,
    pub pdu: Result<ResponseView, ExceptionResponse>,
}

impl<'r> View for ResponseAdu<'r> {
    type V = ResponseAduView;

    open spec fn view(&self) -> ResponseAduView {
        ResponseAduView { hdr: self.hdr, pdu: self.pdu@ }
    }
}

} // verus!
