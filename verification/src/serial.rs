//! The serial wire codec: CRC16/XMODEM over the SMP frame, a big-endian
//! length prefix, base64, and line chunking behind two start markers.

use vstd::prelude::*;

use crate::b64::{
    b64_decode, b64_decode_bytes, b64_encode, b64_encode_bytes, is_b64_symbol,
    lemma_b64_encode_symbols, lemma_b64_roundtrip,
};
use crate::bytes::{be16_spec, be16_value, lemma_be16_roundtrip, push_be16, push_range, read_be16};
use crate::errors::SmpError;

verus! {

/// Configuration of a serial transport.
pub struct SerialSpecs {
    /// The port's device path.
    pub device: String,
    /// Seconds to wait for the first response (the device may erase flash).
    pub initial_timeout_s: u32,
    /// Milliseconds to wait for later responses.
    pub subsequent_timeout_ms: u32,
    /// Timeouts each upload chunk may absorb.
    pub nb_retry: u32,
    /// The wire line length, markers and newline included.
    pub linelength: usize,
    /// The bound on a transmitted transport-encoded block.
    pub mtu: usize,
    /// The port's baud rate.
    pub baudrate: u32,
}

/// First byte of the marker opening the first line of a frame.
pub const MARKER_INIT_0: u8 = 6;

/// Second byte of the marker opening the first line of a frame.
pub const MARKER_INIT_1: u8 = 9;

/// First byte of the marker opening every continuation line.
pub const MARKER_CONT_0: u8 = 4;

/// Second byte of the marker opening every continuation line.
pub const MARKER_CONT_1: u8 = 20;

/// The line terminator.
pub const LINE_END: u8 = 0x0a;

/// The CRC16/XMODEM checksum of a byte sequence (polynomial 0x1021, initial
/// value 0, no reflection, no final xor).
pub uninterp spec fn crc16_of(data: Seq<u8>) -> u16;

/// Relies on `crc16::State::<XMODEM>::calculate`: the CRC16/XMODEM checksum
/// of the bytes, a function of the bytes alone.
#[verifier::external_body]
pub fn crc16_xmodem(data: &Vec<u8>) -> (r: u16)
    ensures
        r == crc16_of(data@),
{
    crc16::State::<crc16::XMODEM>::calculate(data.as_slice())
}

/// The framed block that is base64-encoded onto the wire: a big-endian
/// length prefix counting everything after itself, the SMP frame, and its
/// big-endian CRC.
pub open spec fn serial_framed_spec(req: Seq<u8>) -> Seq<u8>
    recommends
        req.len() + 2 <= 0xffff,
{
    be16_spec((req.len() + 2) as u16) + req + be16_spec(crc16_of(req))
}

/// The line image of a base64 text `b`: each line opens with its marker,
/// carries at most `payload` characters, and closes with a newline.
pub open spec fn chunk_lines_spec(b: Seq<u8>, payload: int, first: bool) -> Seq<u8>
    recommends
        payload >= 1,
    decreases b.len(),
{
    if b.len() == 0 {
        Seq::empty()
    } else {
        let marker = if first {
            seq![MARKER_INIT_0, MARKER_INIT_1]
        } else {
            seq![MARKER_CONT_0, MARKER_CONT_1]
        };
        let n = if payload < 1 || b.len() < payload {
            b.len() as int
        } else {
            payload
        };
        marker + b.take(n) + seq![LINE_END] + chunk_lines_spec(b.skip(n), payload, false)
    }
}

/// The full serial encoding of an SMP frame `req` at a given line length.
pub open spec fn encode_serial_spec(req: Seq<u8>, linelength: int) -> Seq<u8>
    recommends
        linelength >= 5,
        req.len() + 2 <= 0xffff,
{
    chunk_lines_spec(b64_encode(serial_framed_spec(req)), linelength - 4, true)
}

/// The index of the first newline in `s`, if any.
pub open spec fn first_nl(s: Seq<u8>) -> Option<int>
    decreases s.len(),
{
    if s.len() == 0 {
        None
    } else if s[0] == LINE_END {
        Some(0)
    } else {
        match first_nl(s.skip(1)) {
            Some(j) => Some(j + 1),
            None => None,
        }
    }
}

pub proof fn lemma_first_nl_props(s: Seq<u8>)
    ensures
        match first_nl(s) {
            Some(j) => 0 <= j < s.len() && s[j] == LINE_END && (forall|i: int|
                0 <= i < j ==> s[i] != LINE_END),
            None => forall|i: int| 0 <= i < s.len() ==> s[i] != LINE_END,
        },
    decreases s.len(),
{
    if s.len() > 0 && s[0] != LINE_END {
        let t = s.skip(1);
        lemma_first_nl_props(t);
        assert(forall|i: int| 1 <= i < s.len() ==> s[i] == t[i - 1]);
        match first_nl(t) {
            Some(j) => {
                assert(first_nl(s) == Some(j + 1));
                assert(forall|i: int| 0 <= i < j + 1 ==> s[i] != LINE_END);
            },
            None => {
                assert(forall|i: int| 0 <= i < s.len() ==> s[i] != LINE_END);
            },
        }
    }
}

/// If the bytes before position `k` are not newlines and the byte at `k`
/// is one, then `k` is the first newline.
pub proof fn lemma_first_nl_at(s: Seq<u8>, k: int)
    requires
        0 <= k < s.len(),
        s[k] == LINE_END,
        forall|i: int| 0 <= i < k ==> s[i] != LINE_END,
    ensures
        first_nl(s) == Some(k),
    decreases k,
{
    if k > 0 {
        lemma_first_nl_at(s.skip(1), k - 1);
    }
}

/// The base64 text carried by a line-chunked wire image: each line must
/// open with the marker its position demands and close with a newline.
pub open spec fn unchunk_spec(wire: Seq<u8>, first: bool) -> Option<Seq<u8>>
    decreases wire.len(),
{
    if wire.len() == 0 {
        Some(Seq::empty())
    } else if wire.len() < 3 {
        None
    } else if wire[0] != (if first {
        MARKER_INIT_0
    } else {
        MARKER_CONT_0
    }) || wire[1] != (if first {
        MARKER_INIT_1
    } else {
        MARKER_CONT_1
    }) {
        None
    } else {
        let body = wire.skip(2);
        match first_nl(body) {
            None => None,
            Some(j) => {
                proof {
                    lemma_first_nl_props(body);
                }
                match unchunk_spec(body.skip(j + 1), false) {
                    Some(rest) => Some(body.take(j) + rest),
                    None => None,
                }
            },
        }
    }
}

/// Splitting into lines and joining them again is the identity, for any
/// text free of newlines and any positive per-line payload.
pub proof fn lemma_unchunk_roundtrip(b: Seq<u8>, payload: int, first: bool)
    requires
        payload >= 1,
        forall|i: int| 0 <= i < b.len() ==> b[i] != LINE_END,
    ensures
        unchunk_spec(chunk_lines_spec(b, payload, first), first) == Some(b),
    decreases b.len(),
{
    if b.len() == 0 {
    } else {
        let n = if payload < 1 || b.len() < payload {
            b.len() as int
        } else {
            payload
        };
        let marker = if first {
            seq![MARKER_INIT_0, MARKER_INIT_1]
        } else {
            seq![MARKER_CONT_0, MARKER_CONT_1]
        };
        let rest_chunks = chunk_lines_spec(b.skip(n), payload, false);
        let wire = chunk_lines_spec(b, payload, first);
        assert(wire == marker + b.take(n) + seq![LINE_END] + rest_chunks);
        assert(wire.len() >= 3);
        let body = wire.skip(2);
        assert(body =~= b.take(n) + seq![LINE_END] + rest_chunks);
        assert(forall|i: int| 0 <= i < n ==> body[i] == b[i] && body[i] != LINE_END);
        assert(body[n] == LINE_END);
        lemma_first_nl_at(body, n);
        assert(body.take(n) =~= b.take(n));
        assert(body.skip(n + 1) =~= rest_chunks);
        assert(forall|i: int| 0 <= i < b.skip(n).len() ==> b.skip(n)[i] != LINE_END);
        lemma_unchunk_roundtrip(b.skip(n), payload, false);
        assert(b.take(n) + b.skip(n) =~= b);
    }
}

/// What the framed block denotes: its length prefix must count everything
/// after itself and its trailing CRC must match the bytes between.
pub open spec fn decode_frame_spec(decoded: Seq<u8>) -> Result<Seq<u8>, SmpError> {
    if decoded.len() < 2 {
        Err(SmpError::WrongChunkLength)
    } else {
        let len = be16_value(decoded[0], decoded[1]) as int;
        if len != decoded.len() - 2 || len < 2 {
            Err(SmpError::WrongChunkLength)
        } else {
            let inner = decoded.subrange(2, decoded.len() - 2);
            let stored = be16_value(decoded[decoded.len() - 2], decoded[decoded.len() - 1]);
            if stored != crc16_of(inner) {
                Err(SmpError::WrongChecksum)
            } else {
                Ok(inner)
            }
        }
    }
}

/// Tamper rejection, the checked half: a well-framed block whose stored
/// checksum is not the CRC of the bytes it covers decodes to
/// `WrongChecksum`. That a bit flip in those bytes changes their CRC is a
/// property of the polynomial itself, exercised by tests rather than
/// stated here.
pub proof fn lemma_checksum_rejection(decoded: Seq<u8>)
    requires
        decoded.len() >= 4,
        be16_value(decoded[0], decoded[1]) == decoded.len() - 2,
        be16_value(decoded[decoded.len() - 2], decoded[decoded.len() - 1]) != crc16_of(
            decoded.subrange(2, decoded.len() - 2),
        ),
    ensures
        decode_frame_spec(decoded) == Err::<Seq<u8>, SmpError>(SmpError::WrongChecksum),
{
}

/// Everything a received serial wire image denotes: line joining, base64,
/// then the length and CRC checks.
pub open spec fn decode_serial_spec(wire: Seq<u8>) -> Result<Seq<u8>, SmpError> {
    match unchunk_spec(wire, true) {
        None => Err(SmpError::ProtocolFraming),
        Some(b) => match b64_decode(b) {
            None => Err(SmpError::ProtocolFraming),
            Some(decoded) => decode_frame_spec(decoded),
        },
    }
}

/// Encodes an SMP frame for the serial wire: CRC and length prefix, base64,
/// then lines of at most `linelength` bytes (marker and newline included).
pub fn encode_request(linelength: usize, req: &Vec<u8>) -> (r: Vec<u8>)
    requires
        linelength >= 5,
        req@.len() + 2 <= 0xffff,
    ensures
        r@ == encode_serial_spec(req@, linelength as int),
{
    // length prefix, frame, CRC
    let mut framed: Vec<u8> = Vec::new();
    push_be16(&mut framed, (req.len() + 2) as u16);
    push_range(&mut framed, req, 0, req.len());
    let crc = crc16_xmodem(req);
    push_be16(&mut framed, crc);
    proof {
        assert(req@.subrange(0, req@.len() as int) =~= req@);
        assert(framed@ =~= serial_framed_spec(req@));
    }

    // base64
    let b64 = b64_encode_bytes(&framed);

    // lines
    let payload = linelength - 4;
    let mut data: Vec<u8> = Vec::new();
    let mut written: usize = 0;
    proof {
        assert(b64@.skip(0) =~= b64@);
    }
    while written < b64.len()
        invariant
            written <= b64@.len(),
            payload >= 1,
            b64@ == b64_encode(serial_framed_spec(req@)),
            chunk_lines_spec(b64@, payload as int, true) == data@ + chunk_lines_spec(
                b64@.skip(written as int),
                payload as int,
                written == 0,
            ),
        decreases b64@.len() - written,
    {
        let ghost pre = b64@.skip(written as int);
        let ghost data0 = data@;
        let ghost fst = written == 0;
        if written == 0 {
            data.push(MARKER_INIT_0);
            data.push(MARKER_INIT_1);
        } else {
            data.push(MARKER_CONT_0);
            data.push(MARKER_CONT_1);
        }
        let n = if b64.len() - written < payload {
            b64.len() - written
        } else {
            payload
        };
        push_range(&mut data, &b64, written, written + n);
        data.push(LINE_END);
        proof {
            let ghost marker = if fst {
                seq![MARKER_INIT_0, MARKER_INIT_1]
            } else {
                seq![MARKER_CONT_0, MARKER_CONT_1]
            };
            let m = if pre.len() < payload as int {
                pre.len() as int
            } else {
                payload as int
            };
            assert(m == n as int);
            assert(pre.take(m) =~= b64@.subrange(written as int, written as int + n));
            assert(pre.skip(m) =~= b64@.skip(written as int + n));
            assert(chunk_lines_spec(pre, payload as int, fst) == marker + pre.take(m) + seq![
                LINE_END,
            ] + chunk_lines_spec(pre.skip(m), payload as int, false));
            assert(data@ =~= data0 + marker + pre.take(m) + seq![LINE_END]);
            assert(data@ + chunk_lines_spec(b64@.skip(written as int + n), payload as int, false)
                =~= data0 + chunk_lines_spec(pre, payload as int, fst));
        }
        written = written + n;
        proof {
            // a line is never empty, so the flag for later lines is settled
            assert(written > 0);
        }
    }
    proof {
        assert(b64@.skip(written as int) =~= Seq::<u8>::empty());
        assert(chunk_lines_spec(Seq::<u8>::empty(), payload as int, written == 0)
            =~= Seq::<u8>::empty());
        assert(data@ + Seq::<u8>::empty() =~= data@);
    }
    data
}

/// Decodes a full serial wire image back to the SMP frame it carries.
pub fn decode_serial(wire: &Vec<u8>) -> (r: Result<Vec<u8>, SmpError>)
    ensures
        match r {
            Ok(v) => decode_serial_spec(wire@) == Ok::<Seq<u8>, SmpError>(v@),
            Err(e) => decode_serial_spec(wire@) == Err::<Seq<u8>, SmpError>(e),
        },
{
    // join the lines
    let mut b64: Vec<u8> = Vec::new();
    let mut pos: usize = 0;
    proof {
        assert(wire@.skip(0) =~= wire@);
    }
    while pos < wire.len()
        invariant
            pos <= wire@.len(),
            unchunk_spec(wire@, true) == (match unchunk_spec(wire@.skip(pos as int), pos == 0) {
                Some(t) => Some(b64@ + t),
                None => None::<Seq<u8>>,
            }),
        decreases wire@.len() - pos,
    {
        let ghost pre = wire@.skip(pos as int);
        let ghost b0 = b64@;
        let ghost fst = pos == 0;
        if wire.len() - pos < 3 {
            return Err(SmpError::ProtocolFraming);
        }
        let m0 = if pos == 0 {
            MARKER_INIT_0
        } else {
            MARKER_CONT_0
        };
        let m1 = if pos == 0 {
            MARKER_INIT_1
        } else {
            MARKER_CONT_1
        };
        if wire[pos] != m0 || wire[pos + 1] != m1 {
            return Err(SmpError::ProtocolFraming);
        }
        let ghost body = pre.skip(2);
        // scan for the newline that closes this line
        let mut j: usize = pos + 2;
        while j < wire.len() && wire[j] != LINE_END
            invariant
                pos + 2 <= j <= wire@.len(),
                pos + 2 < wire@.len(),
                forall|i: int| pos + 2 <= i < j ==> wire@[i] != LINE_END,
            decreases wire@.len() - j,
        {
            j = j + 1;
        }
        if j == wire.len() {
            proof {
                assert(forall|i: int| 0 <= i < body.len() ==> body[i] == wire@[pos + 2 + i]);
                lemma_first_nl_props(body);
                if first_nl(body) is Some {
                    let k = first_nl(body)->Some_0;
                    assert(body[k] == LINE_END);
                }
            }
            return Err(SmpError::ProtocolFraming);
        }
        proof {
            assert(wire@[j as int] == LINE_END);
            assert(forall|i: int| 0 <= i < j - pos - 2 ==> body[i] == wire@[pos + 2 + i] && body[i]
                != LINE_END);
            assert(body[j - pos - 2] == LINE_END);
            lemma_first_nl_at(body, j - pos - 2);
        }
        push_range(&mut b64, wire, pos + 2, j);
        proof {
            let k = j - pos - 2;
            assert(body.take(k) =~= wire@.subrange(pos as int + 2, j as int));
            assert(body.skip(k + 1) =~= wire@.skip(j as int + 1));
            assert(b64@ =~= b0 + body.take(k));
            match unchunk_spec(wire@.skip(j as int + 1), false) {
                Some(t) => {
                    assert(unchunk_spec(pre, fst) == Some(body.take(k) + t));
                    assert(b0 + (body.take(k) + t) =~= b64@ + t);
                },
                None => {
                    assert(unchunk_spec(pre, fst) is None);
                },
            }
        }
        pos = j + 1;
    }
    proof {
        assert(wire@.skip(pos as int) =~= Seq::<u8>::empty());
        assert(b64@ + Seq::<u8>::empty() =~= b64@);
        assert(unchunk_spec(wire@, true) == Some(b64@));
    }

    // base64
    let decoded = match b64_decode_bytes(&b64) {
        Some(d) => d,
        None => {
            return Err(SmpError::ProtocolFraming);
        },
    };

    // length prefix
    if decoded.len() < 2 {
        return Err(SmpError::WrongChunkLength);
    }
    let len = read_be16(decoded[0], decoded[1]) as usize;
    if len != decoded.len() - 2 || len < 2 {
        return Err(SmpError::WrongChunkLength);
    }

    // CRC
    let mut inner: Vec<u8> = Vec::new();
    push_range(&mut inner, &decoded, 2, decoded.len() - 2);
    let stored = read_be16(decoded[decoded.len() - 2], decoded[decoded.len() - 1]);
    let computed = crc16_xmodem(&inner);
    if stored != computed {
        return Err(SmpError::WrongChecksum);
    }
    Ok(inner)
}

/// Round trip of the serial codec: decoding an encoded SMP frame gives the
/// frame back, for every line length of at least five bytes.
#[verifier::rlimit(50)]
pub proof fn lemma_serial_roundtrip(req: Seq<u8>, linelength: int)
    requires
        linelength >= 5,
        req.len() + 2 <= 0xffff,
    ensures
        decode_serial_spec(encode_serial_spec(req, linelength)) == Ok::<Seq<u8>, SmpError>(req),
{
    let framed = serial_framed_spec(req);
    let b = b64_encode(framed);
    lemma_b64_encode_symbols(framed);
    assert forall|i: int| 0 <= i < b.len() implies b[i] != LINE_END by {
        assert(is_b64_symbol(b[i]));
    }
    lemma_unchunk_roundtrip(b, linelength - 4, true);
    lemma_b64_roundtrip(framed);
    // the frame checks pass on a well-formed framed block
    lemma_be16_roundtrip((req.len() + 2) as u16);
    assert(framed[0] == be16_spec((req.len() + 2) as u16)[0]);
    assert(framed[1] == be16_spec((req.len() + 2) as u16)[1]);
    assert(be16_value(framed[0], framed[1]) == req.len() + 2);
    assert(framed.len() == req.len() + 4);
    let inner = framed.subrange(2, framed.len() - 2);
    assert(inner =~= req);
    lemma_be16_roundtrip(crc16_of(req));
    assert(framed[framed.len() - 2] == be16_spec(crc16_of(req))[0]);
    assert(framed[framed.len() - 1] == be16_spec(crc16_of(req))[1]);
    assert(decode_frame_spec(framed) == Ok::<Seq<u8>, SmpError>(req));
}

/// The MTU a serial transport advertises: the pre-base64 budget of its
/// configured transport-level `mtu`.
pub open spec fn serial_mtu_spec(mtu: int) -> int {
    mtu * 3 / 4
}

/// Computes the advertised serial MTU.
pub fn serial_mtu(mtu: usize) -> (r: usize)
    requires
        mtu * 3 <= usize::MAX,
    ensures
        r == serial_mtu_spec(mtu as int),
{
    mtu * 3 / 4
}

/// The body-byte reduction a serial sender asks for when an encoded block
/// overflows the transport MTU: the overflow scaled back to pre-base64
/// bytes, plus a margin for padding and rounding.
pub open spec fn serial_reduce_spec(frame_len: int, mtu: int) -> int {
    (frame_len - mtu) * 3 / 4 + 3
}

/// Computes the reduction for an overflowing encoded block.
pub fn serial_reduce(frame_len: usize, mtu: usize) -> (r: usize)
    requires
        frame_len > mtu,
        frame_len * 3 <= usize::MAX,
    ensures
        r == serial_reduce_spec(frame_len as int, mtu as int),
        r >= 3,
{
    (frame_len - mtu) * 3 / 4 + 3
}

/// Whether an accumulated base64 text already carries a complete frame:
/// it must decode, and the decoded length must reach what the leading
/// length field declares.
pub open spec fn serial_rx_complete_spec(b64_text: Seq<u8>) -> bool {
    match b64_decode(b64_text) {
        None => false,
        Some(d) => d.len() >= 2 && d.len() - 2 >= be16_value(d[0], d[1]),
    }
}

/// Decides, after each received line, whether reading is done.
pub fn serial_rx_complete(b64_text: &Vec<u8>) -> (r: bool)
    ensures
        r == serial_rx_complete_spec(b64_text@),
{
    match b64_decode_bytes(b64_text) {
        None => false,
        Some(d) => {
            if d.len() < 2 {
                false
            } else {
                let declared = read_be16(d[0], d[1]) as usize;
                d.len() - 2 >= declared
            }
        },
    }
}

} // verus!
