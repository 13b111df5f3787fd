//! The CBOR subset the SMP bodies use: definite-length unsigned integers,
//! byte strings, text strings, booleans and maps on the encoding side, and
//! a total reader that can step over any well-formed definite-length item
//! so that unknown response keys are ignored.

use vstd::prelude::*;

use crate::errors::SmpError;

verus! {

/// Base byte of an unsigned-integer item.
pub const MAJOR_UINT: u8 = 0x00;

/// Base byte of a byte-string item.
pub const MAJOR_BYTES: u8 = 0x40;

/// Base byte of a text-string item.
pub const MAJOR_TEXT: u8 = 0x60;

/// Base byte of a map item.
pub const MAJOR_MAP: u8 = 0xa0;

/// Encoding of `false`.
pub const CBOR_FALSE: u8 = 0xf4;

/// Encoding of `true`.
pub const CBOR_TRUE: u8 = 0xf5;

/// The shortest-form header of an item: its major's base byte plus the
/// argument, carried inline below 24 and in 1, 2, 4 or 8 following bytes
/// otherwise.
pub open spec fn cbor_hdr_spec(base: u8, n: u64) -> Seq<u8>
    recommends
        base == MAJOR_UINT || base == MAJOR_BYTES || base == MAJOR_TEXT || base == MAJOR_MAP,
{
    if n < 24 {
        seq![(base + n) as u8]
    } else if n < 0x100 {
        seq![(base + 24) as u8, n as u8]
    } else if n < 0x10000 {
        seq![(base + 25) as u8, (n >> 8) as u8, n as u8]
    } else if n < 0x100000000 {
        seq![(base + 26) as u8, (n >> 24) as u8, (n >> 16) as u8, (n >> 8) as u8, n as u8]
    } else {
        seq![
            (base + 27) as u8,
            (n >> 56) as u8,
            (n >> 48) as u8,
            (n >> 40) as u8,
            (n >> 32) as u8,
            (n >> 24) as u8,
            (n >> 16) as u8,
            (n >> 8) as u8,
            n as u8,
        ]
    }
}

/// An item header is one to nine bytes long.
pub proof fn lemma_cbor_hdr_len(base: u8, n: u64)
    ensures
        1 <= cbor_hdr_spec(base, n).len() <= 9,
{
}

/// An unsigned integer item.
pub open spec fn cbor_uint_spec(n: u64) -> Seq<u8> {
    cbor_hdr_spec(MAJOR_UINT, n)
}

/// A byte-string item.
pub open spec fn cbor_bytes_spec(b: Seq<u8>) -> Seq<u8>
    recommends
        b.len() <= u64::MAX,
{
    cbor_hdr_spec(MAJOR_BYTES, b.len() as u64) + b
}

/// A text-string item, given as its UTF-8 bytes.
pub open spec fn cbor_text_spec(t: Seq<u8>) -> Seq<u8>
    recommends
        t.len() <= u64::MAX,
{
    cbor_hdr_spec(MAJOR_TEXT, t.len() as u64) + t
}

/// A boolean item.
pub open spec fn cbor_bool_spec(v: bool) -> Seq<u8> {
    if v {
        seq![CBOR_TRUE]
    } else {
        seq![CBOR_FALSE]
    }
}

/// The header of a map of `n` pairs.
pub open spec fn cbor_map_hdr_spec(n: u64) -> Seq<u8> {
    cbor_hdr_spec(MAJOR_MAP, n)
}

/// Appends the shortest-form header of an item to `out`.
pub fn push_cbor_hdr(out: &mut Vec<u8>, base: u8, n: u64)
    requires
        base == MAJOR_UINT || base == MAJOR_BYTES || base == MAJOR_TEXT || base == MAJOR_MAP,
    ensures
        final(out)@ == old(out)@ + cbor_hdr_spec(base, n),
{
    let ghost out0 = out@;
    if n < 24 {
        out.push(base + (n as u8));
    } else if n < 0x100 {
        out.push(base + 24);
        out.push(n as u8);
    } else if n < 0x10000 {
        out.push(base + 25);
        out.push((n >> 8) as u8);
        out.push(n as u8);
    } else if n < 0x100000000 {
        out.push(base + 26);
        out.push((n >> 24) as u8);
        out.push((n >> 16) as u8);
        out.push((n >> 8) as u8);
        out.push(n as u8);
    } else {
        out.push(base + 27);
        out.push((n >> 56) as u8);
        out.push((n >> 48) as u8);
        out.push((n >> 40) as u8);
        out.push((n >> 32) as u8);
        out.push((n >> 24) as u8);
        out.push((n >> 16) as u8);
        out.push((n >> 8) as u8);
        out.push(n as u8);
    }
    proof {
        assert(out@ =~= out0 + cbor_hdr_spec(base, n));
    }
}

/// Appends an unsigned integer item.
pub fn push_cbor_uint(out: &mut Vec<u8>, n: u64)
    ensures
        final(out)@ == old(out)@ + cbor_uint_spec(n),
{
    push_cbor_hdr(out, MAJOR_UINT, n);
}

/// Appends a byte-string item.
pub fn push_cbor_bytes(out: &mut Vec<u8>, b: &Vec<u8>)
    ensures
        final(out)@ == old(out)@ + cbor_bytes_spec(b@),
{
    let ghost out0 = out@;
    let n = b.len();
    push_cbor_hdr(out, MAJOR_BYTES, n as u64);
    crate::bytes::push_range(out, b, 0, b.len());
    proof {
        assert(b@.subrange(0, b@.len() as int) =~= b@);
        assert(out@ =~= out0 + cbor_bytes_spec(b@));
    }
}

/// Appends a text-string item given as its UTF-8 bytes.
pub fn push_cbor_text(out: &mut Vec<u8>, t: &Vec<u8>)
    ensures
        final(out)@ == old(out)@ + cbor_text_spec(t@),
{
    let ghost out0 = out@;
    let n = t.len();
    push_cbor_hdr(out, MAJOR_TEXT, n as u64);
    crate::bytes::push_range(out, t, 0, t.len());
    proof {
        assert(t@.subrange(0, t@.len() as int) =~= t@);
        assert(out@ =~= out0 + cbor_text_spec(t@));
    }
}

/// Appends a boolean item.
pub fn push_cbor_bool(out: &mut Vec<u8>, v: bool)
    ensures
        final(out)@ == old(out)@ + cbor_bool_spec(v),
{
    if v {
        out.push(CBOR_TRUE);
    } else {
        out.push(CBOR_FALSE);
    }
    proof {
        assert(out@ =~= old(out)@ + cbor_bool_spec(v));
    }
}

/// Appends the header of a map of `n` pairs.
pub fn push_cbor_map_hdr(out: &mut Vec<u8>, n: u64)
    ensures
        final(out)@ == old(out)@ + cbor_map_hdr_spec(n),
{
    push_cbor_hdr(out, MAJOR_MAP, n);
}

/// Reads the argument of the item at `pos`: the inline or following-bytes
/// number, and the position just past the header. `None` on a truncated
/// header or an indefinite-length or reserved form.
pub open spec fn cbor_arg_spec(data: Seq<u8>, pos: int) -> Option<(u64, int)> {
    if 0 <= pos < data.len() {
        let info = data[pos] as int % 32;
        if info < 24 {
            Some(((info as u64), pos + 1))
        } else if info == 24 {
            if pos + 2 <= data.len() {
                Some(((data[pos + 1] as u64), pos + 2))
            } else {
                None
            }
        } else if info == 25 {
            if pos + 3 <= data.len() {
                Some(
                    ((((data[pos + 1] as u64) * 0x100 + (data[pos + 2] as u64)) as u64), pos + 3),
                )
            } else {
                None
            }
        } else if info == 26 {
            if pos + 5 <= data.len() {
                Some(
                    ((((data[pos + 1] as u64) * 0x1000000 + (data[pos + 2] as u64) * 0x10000 + (
                    data[pos + 3] as u64) * 0x100 + (data[pos + 4] as u64)) as u64), pos + 5),
                )
            } else {
                None
            }
        } else if info == 27 {
            if pos + 9 <= data.len() {
                Some(
                    ((((data[pos + 1] as u64) * 0x100000000000000 + (data[pos + 2] as u64)
                        * 0x1000000000000 + (data[pos + 3] as u64) * 0x10000000000 + (data[pos
                        + 4] as u64) * 0x100000000 + (data[pos + 5] as u64) * 0x1000000 + (data[pos
                        + 6] as u64) * 0x10000 + (data[pos + 7] as u64) * 0x100 + (data[pos
                        + 8] as u64)) as u64), pos + 9),
                )
            } else {
                None
            }
        } else {
            None
        }
    } else {
        None
    }
}

/// Reads the argument of the item at `pos`.
pub fn cbor_arg(data: &Vec<u8>, pos: usize) -> (r: Option<(u64, usize)>)
    ensures
        match r {
            Some((n, p)) => cbor_arg_spec(data@, pos as int) == Some((n, p as int)) && pos < p
                <= data@.len(),
            None => cbor_arg_spec(data@, pos as int) is None,
        },
{
    if pos >= data.len() {
        return None;
    }
    let info = data[pos] % 32;
    if info < 24 {
        Some(((info as u64), pos + 1))
    } else if info == 24 {
        if data.len() - pos >= 2 {
            Some(((data[pos + 1] as u64), pos + 2))
        } else {
            None
        }
    } else if info == 25 {
        if data.len() - pos >= 3 {
            Some(((data[pos + 1] as u64) * 0x100 + (data[pos + 2] as u64), pos + 3))
        } else {
            None
        }
    } else if info == 26 {
        if data.len() - pos >= 5 {
            Some(
                ((data[pos + 1] as u64) * 0x1000000 + (data[pos + 2] as u64) * 0x10000 + (data[pos
                    + 3] as u64) * 0x100 + (data[pos + 4] as u64), pos + 5),
            )
        } else {
            None
        }
    } else if info == 27 {
        if data.len() - pos >= 9 {
            Some(
                ((data[pos + 1] as u64) * 0x100000000000000 + (data[pos + 2] as u64)
                    * 0x1000000000000 + (data[pos + 3] as u64) * 0x10000000000 + (data[pos
                    + 4] as u64) * 0x100000000 + (data[pos + 5] as u64) * 0x1000000 + (data[pos
                    + 6] as u64) * 0x10000 + (data[pos + 7] as u64) * 0x100 + (data[pos + 8] as u64),
                pos + 9),
            )
        } else {
            None
        }
    } else {
        None
    }
}

/// The position just past the item at `pos`, `None` when no well-formed
/// definite-length item starts there.
pub open spec fn cbor_skip_spec(data: Seq<u8>, pos: int) -> Option<int>
    decreases data.len() - pos, 0int,
{
    if 0 <= pos < data.len() {
        let major = data[pos] as int / 32;
        match cbor_arg_spec(data, pos) {
            None => None,
            Some((n, p)) => {
                if major == 0 || major == 1 || major == 7 {
                    Some(p)
                } else if major == 2 || major == 3 {
                    if p + n <= data.len() {
                        Some(p + n)
                    } else {
                        None
                    }
                } else if major == 4 {
                    cbor_skip_n_spec(data, p, n as int)
                } else if major == 5 {
                    cbor_skip_n_spec(data, p, 2 * (n as int))
                } else {
                    // a tag wraps one further item
                    cbor_skip_n_spec(data, p, 1)
                }
            },
        }
    } else {
        None
    }
}

/// The position just past `count` consecutive items starting at `pos`.
pub open spec fn cbor_skip_n_spec(data: Seq<u8>, pos: int, count: int) -> Option<int>
    decreases data.len() - pos, count,
{
    if count <= 0 {
        Some(pos)
    } else if !(0 <= pos < data.len()) {
        None
    } else {
        match cbor_skip_spec(data, pos) {
            None => None,
            Some(p) => {
                // a well-formed item consumes at least one byte and stays
                // inside the data
                let next = if pos < p <= data.len() {
                    p
                } else {
                    pos + 1
                };
                cbor_skip_n_spec(data, next, count - 1)
            },
        }
    }
}

/// A skipped item always advances and stays inside the data.
pub proof fn lemma_cbor_skip_bounds(data: Seq<u8>, pos: int)
    ensures
        match cbor_skip_spec(data, pos) {
            Some(p) => pos < p <= data.len(),
            None => true,
        },
    decreases data.len() - pos, 0int,
{
    if 0 <= pos < data.len() {
        match cbor_arg_spec(data, pos) {
            None => {},
            Some((n, p)) => {
                lemma_cbor_skip_n_bounds(data, p, n as int);
                lemma_cbor_skip_n_bounds(data, p, 2 * (n as int));
                lemma_cbor_skip_n_bounds(data, p, 1);
            },
        }
    }
}

/// Skipping `count` items advances by at least `count` bytes.
pub proof fn lemma_cbor_skip_n_bounds(data: Seq<u8>, pos: int, count: int)
    requires
        pos <= data.len(),
    ensures
        match cbor_skip_n_spec(data, pos, count) {
            Some(p) => pos <= p <= data.len() && p - pos >= count,
            None => true,
        },
    decreases data.len() - pos, count,
{
    if count <= 0 {
    } else if 0 <= pos < data.len() {
        lemma_cbor_skip_bounds(data, pos);
        match cbor_skip_spec(data, pos) {
            None => {},
            Some(p) => {
                lemma_cbor_skip_n_bounds(data, p, count - 1);
            },
        }
    }
}

/// Steps over the item at `pos`.
pub fn cbor_skip(data: &Vec<u8>, pos: usize) -> (r: Option<usize>)
    ensures
        match r {
            Some(p) => cbor_skip_spec(data@, pos as int) == Some(p as int) && pos < p
                <= data@.len(),
            None => cbor_skip_spec(data@, pos as int) is None,
        },
    decreases data@.len() - pos, 0int,
{
    if pos >= data.len() {
        return None;
    }
    let major = data[pos] / 32;
    let arg = cbor_arg(data, pos);
    match arg {
        None => None,
        Some((n, p)) => {
            if major == 0 || major == 1 || major == 7 {
                Some(p)
            } else if major == 2 || major == 3 {
                if n <= (data.len() - p) as u64 {
                    Some(p + (n as usize))
                } else {
                    None
                }
            } else if major == 4 {
                proof {
                    lemma_cbor_skip_n_bounds(data@, p as int, n as int);
                }
                cbor_skip_n(data, p, n)
            } else if major == 5 {
                proof {
                    lemma_cbor_skip_n_bounds(data@, p as int, 2 * (n as int));
                }
                if n <= u64::MAX / 2 {
                    cbor_skip_n(data, p, 2 * n)
                } else {
                    // more pairs than bytes could ever hold
                    proof {
                        if cbor_skip_n_spec(data@, p as int, 2 * (n as int)) is Some {
                            assert(2 * (n as int) <= data@.len());
                        }
                    }
                    None
                }
            } else {
                proof {
                    lemma_cbor_skip_n_bounds(data@, p as int, 1);
                }
                cbor_skip_n(data, p, 1)
            }
        },
    }
}

/// Steps over `count` consecutive items starting at `pos`.
pub fn cbor_skip_n(data: &Vec<u8>, pos: usize, count: u64) -> (r: Option<usize>)
    requires
        pos <= data@.len(),
    ensures
        match r {
            Some(p) => cbor_skip_n_spec(data@, pos as int, count as int) == Some(p as int) && pos
                <= p <= data@.len(),
            None => cbor_skip_n_spec(data@, pos as int, count as int) is None,
        },
    decreases data@.len() - pos, count,
{
    if count == 0 {
        return Some(pos);
    }
    if count > (data.len() - pos) as u64 {
        proof {
            lemma_cbor_skip_n_bounds(data@, pos as int, count as int);
        }
        return None;
    }
    if pos >= data.len() {
        return None;
    }
    match cbor_skip(data, pos) {
        None => None,
        Some(p) => cbor_skip_n(data, p, count - 1),
    }
}

} // verus!
