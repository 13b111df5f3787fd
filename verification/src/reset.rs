//! The default-group reset command.

use vstd::prelude::*;

use crate::cbor::push_cbor_map_hdr;
use crate::errors::SmpError;
use crate::nmp_hdr::{NmpGroup, NmpIdDef, NmpOp};
use crate::response::{check_answer, parse_rsp_fields};
use crate::transport::{seq_next, SmpTransport, SmpTransportImpl};

verus! {

/// Resets the target: `Write/Default/Reset` with an empty CBOR map, then
/// the envelope and result-code checks. The sequence id advances for every
/// request that may have reached the wire.
pub fn reset<T: SmpTransportImpl>(transport: &mut SmpTransport<T>) -> (r: Result<(), SmpError>)
    ensures
        (match r {
            Err(SmpError::TooLargeChunk(_)) => final(transport).seq_spec() == old(
                transport,
            ).seq_spec(),
            _ => final(transport).seq_spec() == seq_next(old(transport).seq_spec()),
        }),
        (match r {
            Err(SmpError::DeviceError(rc)) => rc != 0,
            _ => true,
        }),
{
    let mut body: Vec<u8> = Vec::new();
    push_cbor_map_hdr(&mut body, 0);
    let (req_hdr, rsp_hdr, rsp_body) = match transport.transceive(
        NmpOp::Write,
        NmpGroup::Default,
        NmpIdDef::Reset,
        &body,
    ) {
        Ok(t) => t,
        Err(e) => {
            return Err(e);
        },
    };
    if !check_answer(&req_hdr, &rsp_hdr) {
        return Err(SmpError::WrongAnswerTypes);
    }
    let fields = match parse_rsp_fields(&rsp_body) {
        Ok(f) => f,
        Err(SmpError::WrongAnswerTypes) => {
            return Err(SmpError::WrongAnswerTypes);
        },
        Err(_) => {
            return Err(SmpError::ProtocolFraming);
        },
    };
    match fields.rc {
        Some(rc) => {
            if rc != 0 {
                Err(SmpError::DeviceError(rc))
            } else {
                Ok(())
            }
        },
        None => Ok(()),
    }
}

} // verus!
