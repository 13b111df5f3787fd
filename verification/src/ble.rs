//! The BLE transport's pure logic: configuration, GATT write chunking, the
//! notification-reassembly completeness rule, and the MTU overflow policy.
//! The GATT calls themselves live outside the library, driven by these
//! decisions.

use vstd::prelude::*;

use crate::bytes::{be16_value, read_be16};

verus! {

/// Configuration of a BLE transport. `mtu` bounds the SMP frame; `chrc_mtu`
/// bounds a single GATT write and may be smaller.
pub struct BluetoothSpecs {
    /// The peripheral's stable platform id, or its advertised local name.
    pub device: String,
    /// The maximum SMP frame length.
    pub mtu: usize,
    /// The maximum bytes of one write-without-response.
    pub chrc_mtu: usize,
    /// The per-notification wait bound, in milliseconds.
    pub timeout_ms: u64,
}

/// Whether a candidate peripheral is the one asked for: its stable id or
/// its advertised local name equals the caller's string.
pub open spec fn peripheral_matches_spec(id: Seq<u8>, name: Seq<u8>, wanted: Seq<u8>) -> bool {
    id == wanted || name == wanted
}

/// Exact byte equality of two buffers.
fn bytes_eq(a: &Vec<u8>, b: &Vec<u8>) -> (r: bool)
    ensures
        r == (a@ == b@),
{
    if a.len() != b.len() {
        proof {
            assert(a@.len() != b@.len());
        }
        return false;
    }
    let mut i: usize = 0;
    while i < a.len()
        invariant
            a@.len() == b@.len(),
            i <= a@.len(),
            forall|x: int| 0 <= x < i ==> a@[x] == b@[x],
        decreases a@.len() - i,
    {
        if a[i] != b[i] {
            return false;
        }
        i = i + 1;
    }
    proof {
        assert(a@ =~= b@);
    }
    true
}

/// Decides whether a scanned peripheral matches the caller's id-or-name
/// string (both rendered as UTF-8 bytes).
pub fn peripheral_matches(id: &Vec<u8>, name: &Vec<u8>, wanted: &Vec<u8>) -> (r: bool)
    ensures
        r == peripheral_matches_spec(id@, name@, wanted@),
{
    if bytes_eq(id, wanted) {
        true
    } else {
        bytes_eq(name, wanted)
    }
}

/// Whether the notification bytes gathered so far already hold a whole SMP
/// frame: at least a header, and at least as many payload bytes as the
/// header's big-endian length field declares.
pub open spec fn ble_rx_complete_spec(buf: Seq<u8>) -> bool {
    buf.len() >= 8 && buf.len() >= 8 + be16_value(buf[2], buf[3])
}

/// Decides, after each notification, whether reassembly is done.
pub fn ble_rx_complete(buf: &Vec<u8>) -> (r: bool)
    ensures
        r == ble_rx_complete_spec(buf@),
{
    if buf.len() < 8 {
        return false;
    }
    let declared = read_be16(buf[2], buf[3]) as usize;
    buf.len() - 8 >= declared
}

/// The reduction a BLE sender reports when a frame overflows the MTU: the
/// overflow itself, no encoding adjustment.
pub open spec fn ble_reduce_spec(frame_len: int, mtu: int) -> int {
    frame_len - mtu
}

/// Computes the overflow of a too-large frame.
pub fn ble_reduce(frame_len: usize, mtu: usize) -> (r: usize)
    requires
        frame_len > mtu,
    ensures
        r == ble_reduce_spec(frame_len as int, mtu as int),
        r >= 1,
{
    frame_len - mtu
}

/// Splits a frame into the GATT writes that carry it: every slice holds
/// `chrc_mtu` bytes except a shorter last one, in order, and together they
/// are exactly the frame.
pub fn gatt_write_chunks(frame: &Vec<u8>, chrc_mtu: usize) -> (r: Vec<Vec<u8>>)
    requires
        chrc_mtu >= 1,
    ensures
        forall|i: int|
            0 <= i < r@.len() ==> (#[trigger] r@[i])@ == frame@.subrange(
                i * chrc_mtu,
                if (i + 1) * chrc_mtu <= frame@.len() {
                    (i + 1) * chrc_mtu
                } else {
                    frame@.len() as int
                },
            ),
        r@.len() * chrc_mtu >= frame@.len(),
        frame@.len() == 0 ==> r@.len() == 0,
        frame@.len() >= 1 ==> (r@.len() - 1) * chrc_mtu < frame@.len(),
{
    let mut out: Vec<Vec<u8>> = Vec::new();
    let mut pos: usize = 0;
    while pos < frame.len()
        invariant
            chrc_mtu >= 1,
            pos <= frame@.len(),
            pos < frame@.len() ==> pos == out@.len() * chrc_mtu,
            pos == frame@.len() ==> out@.len() * chrc_mtu >= pos,
            pos == frame@.len() && frame@.len() >= 1 ==> out@.len() >= 1 && (out@.len() - 1)
                * chrc_mtu < pos,
            frame@.len() == 0 ==> out@.len() == 0,
            forall|i: int|
                0 <= i < out@.len() ==> (#[trigger] out@[i])@ == frame@.subrange(
                    i * chrc_mtu,
                    if (i + 1) * chrc_mtu <= frame@.len() {
                        (i + 1) * chrc_mtu
                    } else {
                        frame@.len() as int
                    },
                ),
        decreases frame@.len() - pos,
    {
        let end = if frame.len() - pos < chrc_mtu {
            frame.len()
        } else {
            pos + chrc_mtu
        };
        let mut piece: Vec<u8> = Vec::new();
        crate::bytes::push_range(&mut piece, frame, pos, end);
        let ghost out0 = out@;
        out.push(piece);
        proof {
            let n = out0.len() as int;
            assert((n + 1) * chrc_mtu == n * chrc_mtu + chrc_mtu) by (nonlinear_arith);
            assert(out@[n]@ == frame@.subrange(n * chrc_mtu, end as int));
            assert(forall|i: int| 0 <= i < n ==> out@[i] == out0[i]);
        }
        pos = end;
    }
    out
}

} // verus!
