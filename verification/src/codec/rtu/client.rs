//! Modbus RTU client (master) specific functions.

use super::{
    decode, encode_adu, spec_decode, spec_encode_adu, Header, RequestAdu, ResponseAdu,
    ResponseAduView,
};
use crate::codec::{spec_decode_response_pdu, DecoderType, Encode};
use crate::error::Error;
use crate::frame::ResponsePdu;
use vstd::prelude::*;

verus! {

/// What decoding a response from `buf` gives: the first frame in the
/// buffer, read as an exception response where it is one and as a response
/// otherwise; nothing where more bytes are needed.
pub open spec fn spec_decode_response_adu(buf: Seq<u8>) -> Result<Option<ResponseAduView>, Error> {
    match spec_decode(DecoderType::Response, buf) {
        Err(e) => Err(e),
        Ok(None) => Ok(None),
        Ok(Some((frame, _))) => match spec_decode_response_pdu(frame.pdu) {
            Ok(pdu) => Ok(Some(ResponseAduView { hdr: Header { slave: frame.slave }, pdu })),
            Err(e) => Err(e),
        },
    }
}

/// The model of the outcome of decoding a response.
pub open spec fn response_adu_outcome(r: Result<Option<ResponseAdu<'_>>, Error>) -> Result<
    Option<ResponseAduView>,
    Error,
> {
    match r {
        Ok(Some(adu)) => Ok(Some(adu@)),
        Ok(None) => Ok(None),
        Err(e) => Err(e),
    }
}

/// Encode an RTU request.
pub fn encode_request(adu: RequestAdu<'_>, buf: &mut [u8]) -> (r: Result<usize, Error>)
    requires
        adu.pdu.encodable(),
    ensures
        (r, final(buf)@) == spec_encode_adu(adu.hdr.slave, adu.pdu.encoding(), old(buf)@),
        r is Err <==> old(buf)@.len() < adu.pdu.encoding().len() + 3,
        r is Err ==> r == Err::<usize, Error>(Error::BufferSize),
{
    let RequestAdu { hdr, pdu } = adu;
    encode_adu(hdr.slave, &pdu, buf)
}

/// Decode an RTU response.
pub fn decode_response(buf: &[u8]) -> (r: Result<Option<ResponseAdu<'_>>, Error>)
    ensures
        response_adu_outcome(r) == spec_decode_response_adu(buf@),
{
    match decode(DecoderType::Response, buf) {
        Err(e) => Err(e),
        Ok(None) => Ok(None),
        Ok(Some((frame, _))) => {
            let hdr = Header { slave: frame.slave };
            match ResponsePdu::try_from(frame.pdu) {
                Ok(pdu) => Ok(Some(ResponseAdu { hdr, pdu })),
                Err(e) => Err(e),
            }
        },
    }
}

} // verus!
