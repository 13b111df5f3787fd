//! The transport abstraction and the SMP client around it: frame assembly,
//! the sequence-id discipline, and response splitting.

use vstd::prelude::*;

use crate::bytes::push_range;
use crate::cbor::{cbor_skip, cbor_skip_spec};
use crate::errors::{ErrTooLargeChunk, SmpError};
use crate::nmp_hdr::{NmpGroup, NmpHdr, NmpId, NmpOp};

verus! {

/// A byte-oriented SMP transport: it carries one request frame to the
/// device and hands back one response frame.
///
/// Implementations own the port or peripheral; nothing is assumed of what
/// the device answers. A `TooLargeChunk` rejection promises only that the
/// frame was never sent and that at least one byte must go.
pub trait SmpTransportImpl: Sized {
    /// The maximum request frame length in bytes, after any encoding
    /// expansion the transport itself adds.
    spec fn mtu_spec(&self) -> usize;

    /// Sends the request frame and blocks until a complete response frame
    /// arrives or a failure surfaces.
    fn transceive_raw(&mut self, req_frame: &Vec<u8>) -> (r: Result<Vec<u8>, SmpError>)
        ensures
            (match r {
                Err(SmpError::TooLargeChunk(reduce)) => reduce.0 >= 1,
                Err(e) => e == SmpError::Timeout || e == SmpError::Io || e
                    == SmpError::ProtocolFraming,
                Ok(_) => true,
            }),
    ;

    /// The maximum request frame length in bytes.
    fn mtu(&self) -> (r: usize)
        ensures
            r == self.mtu_spec(),
    ;

    /// Bounds the wait for each response.
    fn set_timeout(&mut self, timeout_ms: u64) -> (r: Result<(), SmpError>);
}

/// Relies on `rand::random::<u8>`: an arbitrary 8-bit value; nothing is
/// assumed of it, any starting sequence id is acceptable.
#[verifier::external_body]
fn random_u8() -> u8 {
    rand::random::<u8>()
}

/// The successor of a sequence id: one more, wrapping at 256.
pub open spec fn seq_next(s: u8) -> u8 {
    ((s as int + 1) % 256) as u8
}

/// The sequence id after `n` sends.
pub open spec fn seq_after(s: u8, n: nat) -> u8
    decreases n,
{
    if n == 0 {
        s
    } else {
        seq_next(seq_after(s, (n - 1) as nat))
    }
}

/// Sequence monotonicity: after `n` sends that reached the wire, the
/// sequence id has advanced by exactly `n`, modulo 256.
pub proof fn lemma_seq_monotonic(s: u8, n: nat)
    ensures
        seq_after(s, n) == ((s + n) % 256) as u8,
    decreases n,
{
    if n > 0 {
        lemma_seq_monotonic(s, (n - 1) as nat);
    }
}

/// An SMP client: a transport together with the sequence counter.
pub struct SmpTransport<T: SmpTransportImpl> {
    transport_impl: T,
    seq_id: u8,
}

impl<T: SmpTransportImpl> SmpTransport<T> {
    /// The sequence id the next request will carry.
    pub closed spec fn seq_spec(&self) -> u8 {
        self.seq_id
    }

    /// The transport's maximum request frame length.
    pub closed spec fn mtu_spec(&self) -> usize {
        self.transport_impl.mtu_spec()
    }

    /// Wraps a transport; the first sequence id is arbitrary.
    pub fn new(transport_impl: T) -> (r: Self) {
        SmpTransport { transport_impl, seq_id: random_u8() }
    }

    /// The transport's maximum request frame length.
    pub fn mtu(&self) -> (r: usize)
        ensures
            r == self.mtu_spec(),
    {
        self.transport_impl.mtu()
    }

    /// Bounds the wait for each response.
    pub fn set_timeout(&mut self, timeout_ms: u64) -> (r: Result<(), SmpError>)
        ensures
            final(self).seq_spec() == old(self).seq_spec(),
    {
        self.transport_impl.set_timeout(timeout_ms)
    }

    /// Sends one request and receives its response.
    ///
    /// The request frame is the 8-byte header followed by the CBOR body;
    /// the header carries the current sequence id and the body's length.
    /// The sequence id advances by one, wrapping, for every send the wire
    /// may have seen, and stays put when an MTU rejection means the frame
    /// was never sent. On success the response splits into its header and
    /// a body holding one well-formed CBOR item.
    pub fn transceive<I: NmpId>(&mut self, op: NmpOp, group: NmpGroup, id: I, req_body: &Vec<u8>)
        -> (r: Result<(NmpHdr, NmpHdr, Vec<u8>), SmpError>)
        requires
            req_body@.len() <= 0xffff,
        ensures
            (match r {
                Err(SmpError::TooLargeChunk(_)) => final(self).seq_spec() == old(self).seq_spec(),
                _ => final(self).seq_spec() == seq_next(old(self).seq_spec()),
            }),
            (match r {
                Err(SmpError::TooLargeChunk(reduce)) => reduce.0 >= 1,
                Err(e) => e == SmpError::Timeout || e == SmpError::Io || e
                    == SmpError::ProtocolFraming || e == SmpError::MalformedHeader,
                Ok(_) => true,
            }),
            (match r {
                Ok((req_hdr, rsp_hdr, rsp_body)) => {
                    &&& req_hdr == (NmpHdr {
                        op,
                        flags: 0,
                        len: req_body@.len() as u16,
                        group,
                        seq: old(self).seq_spec(),
                        id: id.id_spec(),
                    })
                    &&& cbor_skip_spec(rsp_body@, 0) is Some
                },
                _ => true,
            }),
    {
        // build the request frame: header, then CBOR body
        let mut req_header = NmpHdr::new_req(op, group, id);
        req_header.seq = self.seq_id;
        req_header.len = req_body.len() as u16;
        let mut req_frame = req_header.serialize();
        push_range(&mut req_frame, req_body, 0, req_body.len());

        let rsp = match self.transport_impl.transceive_raw(&req_frame) {
            Err(e) => {
                match e {
                    SmpError::TooLargeChunk(_) => {
                        // the frame was never sent: the device saw nothing,
                        // so the sequence id must not move
                        return Err(e);
                    },
                    _ => {
                        self.seq_id = if self.seq_id == 255 {
                            0
                        } else {
                            self.seq_id + 1
                        };
                        return Err(e);
                    },
                }
            },
            Ok(rsp) => {
                self.seq_id = if self.seq_id == 255 {
                    0
                } else {
                    self.seq_id + 1
                };
                rsp
            },
        };

        // split the response into header and body
        let rsp_header = match NmpHdr::deserialize(&rsp) {
            Ok(h) => h,
            Err(e) => {
                return Err(e);
            },
        };
        let mut rsp_body: Vec<u8> = Vec::new();
        push_range(&mut rsp_body, &rsp, 8, rsp.len());
        match cbor_skip(&rsp_body, 0) {
            Some(_) => Ok((req_header, rsp_header, rsp_body)),
            None => Err(SmpError::ProtocolFraming),
        }
    }
}

} // verus!
