//! Modbus RTU server (slave) specific functions.

use super::{
    decode, encode_adu, spec_decode, spec_encode_adu, Header, RequestAdu, RequestAduView,
    ResponseAdu,
};
use crate::codec::{spec_decode_request, DecoderType, Encode};
use crate::error::Error;
use crate::frame::{Request, RequestPdu};
use vstd::prelude::*;

verus! {

/// What decoding a request from `buf` gives: the first frame in the buffer,
/// read as a request; nothing where more bytes are needed.
pub open spec fn spec_decode_request_adu(buf: Seq<u8>) -> Result<Option<RequestAduView>, Error> {
    match spec_decode(DecoderType::Request, buf) {
        Err(e) => Err(e),
        Ok(None) => Ok(None),
        Ok(Some((frame, _))) => match spec_decode_request(frame.pdu) {
            Ok(pdu) => Ok(Some(RequestAduView { hdr: Header { slave: frame.slave }, pdu })),
            Err(e) => Err(e),
        },
    }
}

/// The model of the outcome of decoding a request.
pub open spec fn request_adu_outcome(r: Result<Option<RequestAdu<'_>>, Error>) -> Result<
    Option<RequestAduView>,
    Error,
> {
    match r {
        Ok(Some(adu)) => Ok(Some(adu@)),
        Ok(None) => Ok(None),
        Err(e) => Err(e),
    }
}

/// Decode an RTU request.
pub fn decode_request(buf: &[u8]) -> (r: Result<Option<RequestAdu<'_>>, Error>)
    ensures
        request_adu_outcome(r) == spec_decode_request_adu(buf@),
{
    match decode(DecoderType::Request, buf) {
        Err(e) => Err(e),
        Ok(None) => Ok(None),
        Ok(Some((frame, _))) => {
            let hdr = Header { slave: frame.slave };
            match Request::try_from(frame.pdu) {
                Ok(request) => Ok(Some(RequestAdu { hdr, pdu: RequestPdu(request) })),
                Err(e) => Err(e),
            }
        },
    }
}

/// Encode an RTU response.
pub fn encode_response(adu: ResponseAdu<'_>, buf: &mut [u8]) -> (r: Result<usize, Error>)
    requires
        adu.pdu.encodable(),
    ensures
        (r, final(buf)@) == spec_encode_adu(adu.hdr.slave, adu.pdu.encoding(), old(buf)@),
        r is Err <==> old(buf)@.len() < adu.pdu.encoding().len() + 3,
        r is Err ==> r == Err::<usize, Error>(Error::BufferSize),
{
    let ResponseAdu { hdr, pdu } = adu;
    encode_adu(hdr.slave, &pdu, buf)
}

} // verus!
