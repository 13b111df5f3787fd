//! The error taxonomy of the client.

use vstd::prelude::*;

verus! {

/// A chunk that is too large to be sent on the transport; the payload carries
/// the number of body bytes the caller should shave off the next attempt.
#[derive(Clone, Copy, Debug, PartialEq, Eq, Structural)]
pub struct ErrTooLargeChunk(pub usize);

/// Everything that can go wrong between building a request and accepting a
/// response.
#[derive(Clone, Copy, Debug, PartialEq, Eq, Structural)]
pub enum SmpError {
    /// The underlying port or GATT handle failed.
    Io,
    /// No response arrived within the configured bound.
    Timeout,
    /// The request frame exceeds the transport MTU; it was never sent.
    TooLargeChunk(ErrTooLargeChunk),
    /// An MTU correction asked for more bytes than a chunk holds.
    MtuTooSmall,
    /// The response envelope does not match the request, or a required
    /// response field has the wrong type.
    WrongAnswerTypes,
    /// A serial frame's length prefix disagrees with its actual length.
    WrongChunkLength,
    /// A serial frame's trailing CRC disagrees with its body.
    WrongChecksum,
    /// A response frame is shorter than a header, or its op byte is invalid.
    MalformedHeader,
    /// A transport frame or CBOR body violates the wire grammar.
    ProtocolFraming,
    /// The device answered with a non-zero result code.
    DeviceError(u64),
    /// A successful upload reply did not advance the offset.
    NoProgress,
}

} // verus!
