//! The RTU application data unit: a PDU addressed to one slave.

use crate::frame::{ExceptionResponse, RequestPdu, RequestView, ResponsePdu, ResponseView};
use vstd::prelude::*;

verus! {

/// The address of a slave on the serial line.
pub type SlaveId = u8;

/// RTU header
#[derive(Debug, Clone, Copy, PartialEq, Eq)]
pub struct Header {
    pub slave: SlaveId,
}

/// RTU Request ADU
#[derive(Debug, Clone, Copy, PartialEq, Eq)]
pub struct RequestAdu<'r> {
    pub hdr: Header,
    pub pdu: RequestPdu<'r>,
}

/// RTU Response ADU
#[derive(Debug, Clone, Copy, PartialEq, Eq)]
pub struct ResponseAdu<'r> {
    pub hdr: Header,
    pub pdu: ResponsePdu<'r>,
}

/// The model of [`RequestAdu`]: the header and the model of the request.
pub struct RequestAduView {
    pub hdr: Header,
    pub pdu: RequestView,
}

impl<'r> View for RequestAdu<'r> {
    type V = RequestAduView;

    open spec fn view(&self) -> RequestAduView {
        RequestAduView { hdr: self.hdr, pdu: self.pdu@ }
    }
}

/// The model of [`ResponseAdu`]: the header and the model of the response
/// or the exception.
pub struct ResponseAduView {
    pub hdr: Header,
    pub pdu: Result<ResponseView, ExceptionResponse>,
}

impl<'r> View for ResponseAdu<'r> {
    type V = ResponseAduView;

    open spec fn view(&self) -> ResponseAduView {
        ResponseAduView { hdr: self.hdr, pdu: self.pdu@ }
    }
}

} // verus!
