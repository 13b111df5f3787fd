//! Big-endian byte-order helpers shared by the header and serial codecs.

use vstd::prelude::*;

verus! {

/// The two-byte big-endian encoding of a `u16`.
pub open spec fn be16_spec(x: u16) -> Seq<u8> {
    seq![((x >> 8) & 0xff) as u8, (x & 0xff) as u8]
}

/// The `u16` denoted by two bytes in big-endian order.
pub open spec fn be16_value(hi: u8, lo: u8) -> u16 {
    (((hi as u16) << 8) | (lo as u16)) as u16
}

pub proof fn lemma_be16_roundtrip(x: u16)
    ensures
        be16_value(be16_spec(x)[0], be16_spec(x)[1]) == x,
{
    assert(((((((x >> 8) & 0xff) as u8) as u16) << 8) | (((x & 0xff) as u8) as u16)) == x)
        by (bit_vector);
}

/// Appends the big-endian encoding of `x` to `out`.
pub fn push_be16(out: &mut Vec<u8>, x: u16)
    ensures
        final(out)@ == old(out)@ + be16_spec(x),
{
    let hi: u8 = ((x >> 8) & 0xff) as u8;
    let lo: u8 = (x & 0xff) as u8;
    out.push(hi);
    out.push(lo);
    assert(out@ =~= old(out)@ + be16_spec(x));
}

/// Appends `src[start .. end]` to `out`.
pub fn push_range(out: &mut Vec<u8>, src: &Vec<u8>, start: usize, end: usize)
    requires
        start <= end <= src@.len(),
    ensures
        final(out)@ == old(out)@ + src@.subrange(start as int, end as int),
{
    let ghost out0 = out@;
    let mut k: usize = start;
    while k < end
        invariant
            start <= k <= end <= src@.len(),
            out@ == out0 + src@.subrange(start as int, k as int),
        decreases end - k,
    {
        out.push(src[k]);
        proof {
            assert(out@ =~= out0 + src@.subrange(start as int, k as int + 1));
        }
        k = k + 1;
    }
    proof {
        assert(out@ =~= out0 + src@.subrange(start as int, end as int));
    }
}

/// Reads a big-endian `u16` from two bytes.
pub fn read_be16(hi: u8, lo: u8) -> (r: u16)
    ensures
        r == be16_value(hi, lo),
{
    ((hi as u16) << 8) | (lo as u16)
}

} // verus!
