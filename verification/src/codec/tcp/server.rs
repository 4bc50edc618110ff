//! Modbus TCP server (slave) specific functions.

use super::client::{response_adu_outcome, spec_decode_response_adu};
use super::{
    decode, encode_adu_header_first, spec_decode, spec_encode_adu_header_first, Header,
    RequestAdu, RequestAduView, ResponseAdu,
};
use crate::codec::{spec_decode_request, DecoderType, Encode};
use crate::error::Error;
use crate::frame::{Request, RequestPdu, ResponsePdu};
use vstd::prelude::*;

verus! {

/// What decoding a request from `buf` gives: the first frame in the buffer,
/// read as a request; nothing where more bytes are needed.
pub open spec fn spec_decode_request_adu(buf: Seq<u8>) -> Result<Option<RequestAduView>, Error> {
    match spec_decode(DecoderType::Request, buf) {
        Err(e) => Err(e),
        Ok(None) => Ok(None),
        Ok(Some((frame, _))) => match spec_decode_request(frame.pdu) {
            Ok(pdu) => Ok(
                Some(
                    RequestAduView {
                        hdr: Header {
                            transaction_id: frame.transaction_id,
                            unit_id: frame.unit_id,
                        },
                        pdu,
                    },
                ),
            ),
            Err(e) => Err(e),
        },
    }
}

/// The model of the outcome of decoding a request.
pub open spec fn request_adu_outcome(r: Result<Option<RequestAdu<'_>>, Error>) -> Result<
    Option<RequestAduView>,
    Error,
> {
    match r {
        Ok(Some(adu)) => Ok(Some(adu@)),
        Ok(None) => Ok(None),
        Err(e) => Err(e),
    }
}

/// Decode a TCP request.
pub fn decode_request(buf: &[u8]) -> (r: Result<Option<RequestAdu<'_>>, Error>)
    ensures
        request_adu_outcome(r) == spec_decode_request_adu(buf@),
{
    match decode(DecoderType::Request, buf) {
        Err(e) => Err(e),
        Ok(None) => Ok(None),
        Ok(Some((frame, _))) => {
            let hdr = Header { transaction_id: frame.transaction_id, unit_id: frame.unit_id };
            match Request::try_from(frame.pdu) {
                Ok(request) => Ok(Some(RequestAdu { hdr, pdu: RequestPdu(request) })),
                Err(e) => Err(e),
            }
        },
    }
}

/// Decode a TCP response.
pub fn decode_response(buf: &[u8]) -> (r: Result<Option<ResponseAdu<'_>>, Error>)
    ensures
        response_adu_outcome(r) == spec_decode_response_adu(buf@),
{
    match decode(DecoderType::Response, buf) {
        Err(e) => Err(e),
        Ok(None) => Ok(None),
        Ok(Some((frame, _))) => {
            let hdr = Header { transaction_id: frame.transaction_id, unit_id: frame.unit_id };
            match ResponsePdu::try_from(frame.pdu) {
                Ok(pdu) => Ok(Some(ResponseAdu { hdr, pdu })),
                Err(e) => Err(e),
            }
        },
    }
}

/// Encode a TCP response. The header is written first: a buffer with room
/// for it and not for the PDU holds the header, without its length field,
/// after the error.
pub fn encode_response(adu: ResponseAdu<'_>, buf: &mut [u8]) -> (r: Result<usize, Error>)
    requires
        adu.pdu.encodable(),
    ensures
        (r, final(buf)@) == spec_encode_adu_header_first(
            adu.hdr,
            adu.pdu.encoding(),
            old(buf)@,
        ),
        r is Err <==> old(buf)@.len() < adu.pdu.encoding().len() + 7,
        r is Err ==> r == Err::<usize, Error>(Error::BufferSize),
{
    let ResponseAdu { hdr, pdu } = adu;
    encode_adu_header_first(hdr, &pdu, buf)
}

/// Encode a TCP request. The header is written first: a buffer with room
/// for it and not for the PDU holds the header, without its length field,
/// after the error.
pub fn encode_request(adu: RequestAdu<'_>, buf: &mut [u8]) -> (r: Result<usize, Error>)
    requires
        adu.pdu.encodable(),
    ensures
        (r, final(buf)@) == spec_encode_adu_header_first(
            adu.hdr,
            adu.pdu.encoding(),
            old(buf)@,
        ),
        r is Err <==> old(buf)@.len() < adu.pdu.encoding().len() + 7,
        r is Err ==> r == Err::<usize, Error>(Error::BufferSize),
{
    let RequestAdu { hdr, pdu } = adu;
    encode_adu_header_first(hdr, &pdu, buf)
}

} // verus!
