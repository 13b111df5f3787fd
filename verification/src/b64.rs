//! Base64 with the standard alphabet and padding, over raw bytes: the
//! encoding layer of the serial wire format, with a proved round trip.

use vstd::prelude::*;

verus! {

/// The padding character `=`.
pub const B64_PAD: u8 = 0x3d;

/// The alphabet character for a six-bit value.
pub open spec fn b64_char_of(v: u8) -> u8
    recommends
        v < 64,
{
    if v < 26 {
        (v + 0x41) as u8  // 'A'..='Z'
    } else if v < 52 {
        (v + 0x47) as u8  // 'a'..='z'
    } else if v < 62 {
        (v - 4) as u8  // '0'..='9'
    } else if v == 62 {
        0x2b  // '+'
    } else {
        0x2f  // '/'
    }
}

/// The six-bit value of an alphabet character, `None` off the alphabet.
pub open spec fn b64_val_of(c: u8) -> Option<u8> {
    if 0x41 <= c && c <= 0x5a {
        Some((c - 0x41) as u8)
    } else if 0x61 <= c && c <= 0x7a {
        Some((c - 0x47) as u8)
    } else if 0x30 <= c && c <= 0x39 {
        Some((c + 4) as u8)
    } else if c == 0x2b {
        Some(62)
    } else if c == 0x2f {
        Some(63)
    } else {
        None
    }
}

/// A byte that may appear in encoded output: an alphabet character or `=`.
pub open spec fn is_b64_symbol(c: u8) -> bool {
    b64_val_of(c) is Some || c == B64_PAD
}

pub proof fn lemma_b64_char_val(v: u8)
    requires
        v < 64,
    ensures
        b64_val_of(b64_char_of(v)) == Some(v),
        b64_char_of(v) != B64_PAD,
{
}

/// The four characters encoding one full three-byte group.
pub open spec fn b64_enc3(b0: u8, b1: u8, b2: u8) -> Seq<u8> {
    seq![
        b64_char_of(b0 >> 2),
        b64_char_of((((b0 & 3) << 4) | (b1 >> 4)) as u8),
        b64_char_of((((b1 & 0xf) << 2) | (b2 >> 6)) as u8),
        b64_char_of(b2 & 0x3f),
    ]
}

/// The base64 encoding of a byte sequence, standard alphabet, padded.
pub open spec fn b64_encode(s: Seq<u8>) -> Seq<u8>
    decreases s.len(),
{
    if s.len() == 0 {
        Seq::empty()
    } else if s.len() == 1 {
        seq![
            b64_char_of(s[0] >> 2),
            b64_char_of(((s[0] & 3) << 4) as u8),
            B64_PAD,
            B64_PAD,
        ]
    } else if s.len() == 2 {
        seq![
            b64_char_of(s[0] >> 2),
            b64_char_of((((s[0] & 3) << 4) | (s[1] >> 4)) as u8),
            b64_char_of(((s[1] & 0xf) << 2) as u8),
            B64_PAD,
        ]
    } else {
        b64_enc3(s[0], s[1], s[2]) + b64_encode(s.skip(3))
    }
}

/// The three bytes denoted by four six-bit values.
pub open spec fn b64_dec3(v0: u8, v1: u8, v2: u8, v3: u8) -> Seq<u8>
    recommends
        v0 < 64 && v1 < 64 && v2 < 64 && v3 < 64,
{
    seq![
        (((v0 << 2) | (v1 >> 4)) as u8),
        ((((v1 & 0xf) << 4) | (v2 >> 2)) as u8),
        ((((v2 & 3) << 6) | v3) as u8),
    ]
}

/// The bytes denoted by a padded base64 text, `None` when the text is not
/// one: its length must be a multiple of four, `=` may stand only in the
/// last one or two positions, and bits beyond the encoded length must be
/// zero.
pub open spec fn b64_decode(s: Seq<u8>) -> Option<Seq<u8>>
    decreases s.len(),
{
    if s.len() == 0 {
        Some(Seq::empty())
    } else if s.len() < 4 {
        None
    } else {
        match (b64_val_of(s[0]), b64_val_of(s[1])) {
            (Some(v0), Some(v1)) => {
                if s.len() == 4 && s[3] == B64_PAD {
                    if s[2] == B64_PAD {
                        if v1 & 0xf == 0 {
                            Some(seq![(((v0 << 2) | (v1 >> 4)) as u8)])
                        } else {
                            None
                        }
                    } else {
                        match b64_val_of(s[2]) {
                            Some(v2) => if v2 & 3 == 0 {
                                Some(
                                    seq![
                                        (((v0 << 2) | (v1 >> 4)) as u8),
                                        ((((v1 & 0xf) << 4) | (v2 >> 2)) as u8),
                                    ],
                                )
                            } else {
                                None
                            },
                            None => None,
                        }
                    }
                } else {
                    match (b64_val_of(s[2]), b64_val_of(s[3])) {
                        (Some(v2), Some(v3)) => match b64_decode(s.skip(4)) {
                            Some(rest) => Some(b64_dec3(v0, v1, v2, v3) + rest),
                            None => None,
                        },
                        _ => None,
                    }
                }
            },
            _ => None,
        }
    }
}

/// Every byte of an encoding is an alphabet character or padding; in
/// particular none is a newline or a start-marker byte.
pub proof fn lemma_b64_encode_symbols(s: Seq<u8>)
    ensures
        forall|i: int| 0 <= i < b64_encode(s).len() ==> is_b64_symbol(#[trigger] b64_encode(s)[i]),
    decreases s.len(),
{
    if s.len() == 0 {
    } else if s.len() == 1 {
        let b0 = s[0];
        assert(b0 >> 2 < 64 && ((b0 & 3) << 4) < 64) by (bit_vector);
    } else if s.len() == 2 {
        let b0 = s[0];
        let b1 = s[1];
        assert(b0 >> 2 < 64 && (((b0 & 3) << 4) | (b1 >> 4)) < 64 && ((b1 & 0xf) << 2) < 64)
            by (bit_vector);
    } else {
        let b0 = s[0];
        let b1 = s[1];
        let b2 = s[2];
        assert(b0 >> 2 < 64 && (((b0 & 3) << 4) | (b1 >> 4)) < 64 && (((b1 & 0xf) << 2) | (b2
            >> 6)) < 64 && (b2 & 0x3f) < 64) by (bit_vector);
        lemma_b64_encode_symbols(s.skip(3));
        assert forall|i: int| 0 <= i < b64_encode(s).len() implies is_b64_symbol(
            #[trigger] b64_encode(s)[i],
        ) by {
            if i >= 4 {
                assert(b64_encode(s)[i] == b64_encode(s.skip(3))[i - 4]);
            }
        }
    }
}

/// The length of an encoding is a multiple of four.
pub proof fn lemma_b64_encode_len(s: Seq<u8>)
    ensures
        b64_encode(s).len() % 4 == 0,
        b64_encode(s).len() == 4 * ((s.len() + 2) / 3),
    decreases s.len(),
{
    if s.len() >= 3 {
        lemma_b64_encode_len(s.skip(3));
    }
}

/// Encoding splits at any group boundary.
pub proof fn lemma_b64_encode_append(s: Seq<u8>, k: int)
    requires
        0 <= k <= s.len(),
        k % 3 == 0,
    ensures
        b64_encode(s) == b64_encode(s.take(k)) + b64_encode(s.skip(k)),
    decreases k,
{
    if k == 0 {
        assert(s.take(0) =~= Seq::<u8>::empty());
        assert(s.skip(0) =~= s);
        assert(b64_encode(s) =~= b64_encode(s.take(0)) + b64_encode(s.skip(0)));
    } else {
        lemma_b64_encode_append(s.skip(3), k - 3);
        assert(s.skip(3).take(k - 3) =~= s.take(k).skip(3));
        assert(s.skip(3).skip(k - 3) =~= s.skip(k));
        assert(s.take(k)[0] == s[0] && s.take(k)[1] == s[1] && s.take(k)[2] == s[2]);
        assert(b64_encode(s.take(k)) == b64_enc3(s[0], s[1], s[2]) + b64_encode(
            s.take(k).skip(3),
        ));
        assert(b64_encode(s) =~= b64_encode(s.take(k)) + b64_encode(s.skip(k)));
    }
}

/// Decoding inverts encoding: the round trip of the serial codec's base64
/// layer.
pub proof fn lemma_b64_roundtrip(s: Seq<u8>)
    ensures
        b64_decode(b64_encode(s)) == Some(s),
    decreases s.len(),
{
    let e = b64_encode(s);
    if s.len() == 0 {
    } else if s.len() == 1 {
        let b0 = s[0];
        let v0 = (b0 >> 2) as u8;
        let v1 = ((b0 & 3) << 4) as u8;
        assert(b0 >> 2 < 64 && ((b0 & 3) << 4) < 64 && (((b0 & 3) << 4) & 0xf) == 0 && (((b0 >> 2)
            << 2) | (((b0 & 3) << 4) >> 4)) == b0) by (bit_vector);
        lemma_b64_char_val(v0);
        lemma_b64_char_val(v1);
        assert(b64_decode(e) =~= Some(seq![b0]));
        assert(seq![b0] =~= s);
    } else if s.len() == 2 {
        let b0 = s[0];
        let b1 = s[1];
        let v0 = (b0 >> 2) as u8;
        let v1 = (((b0 & 3) << 4) | (b1 >> 4)) as u8;
        let v2 = ((b1 & 0xf) << 2) as u8;
        assert(b0 >> 2 < 64 && (((b0 & 3) << 4) | (b1 >> 4)) < 64 && ((b1 & 0xf) << 2) < 64 && ((((
        b1 & 0xf) << 2) & 3) == 0) && (((b0 >> 2) << 2) | (((((b0 & 3) << 4) | (b1 >> 4))) >> 4))
            == b0 && ((((((b0 & 3) << 4) | (b1 >> 4)) & 0xf) << 4) | (((b1 & 0xf) << 2) >> 2))
            == b1) by (bit_vector);
        lemma_b64_char_val(v0);
        lemma_b64_char_val(v1);
        lemma_b64_char_val(v2);
        assert(b64_decode(e) =~= Some(seq![b0, b1]));
        assert(seq![b0, b1] =~= s);
    } else {
        let b0 = s[0];
        let b1 = s[1];
        let b2 = s[2];
        let v0 = (b0 >> 2) as u8;
        let v1 = (((b0 & 3) << 4) | (b1 >> 4)) as u8;
        let v2 = (((b1 & 0xf) << 2) | (b2 >> 6)) as u8;
        let v3 = (b2 & 0x3f) as u8;
        assert(b0 >> 2 < 64 && (((b0 & 3) << 4) | (b1 >> 4)) < 64 && ((((b1 & 0xf) << 2) | (b2
            >> 6))) < 64 && (b2 & 0x3f) < 64 && (((b0 >> 2) << 2) | ((((b0 & 3) << 4) | (b1 >> 4))
            >> 4)) == b0 && ((((((b0 & 3) << 4) | (b1 >> 4)) & 0xf) << 4) | (((((b1 & 0xf) << 2)
            | (b2 >> 6))) >> 2)) == b1 && (((((((b1 & 0xf) << 2) | (b2 >> 6))) & 3) << 6) | (b2
            & 0x3f)) == b2) by (bit_vector);
        lemma_b64_char_val(v0);
        lemma_b64_char_val(v1);
        lemma_b64_char_val(v2);
        lemma_b64_char_val(v3);
        lemma_b64_roundtrip(s.skip(3));
        let rest = b64_encode(s.skip(3));
        lemma_b64_encode_len(s.skip(3));
        assert(e == b64_enc3(b0, b1, b2) + rest);
        assert(e.len() == 4 + rest.len());
        assert(e[0] == b64_char_of(v0) && e[1] == b64_char_of(v1) && e[2] == b64_char_of(v2) && e[3]
            == b64_char_of(v3));
        assert(e.skip(4) =~= rest);
        if rest.len() == 0 {
            // a final unpadded group of four characters
            assert(e.len() == 4 && e[3] != B64_PAD);
            assert(b64_decode(e) =~= Some(b64_dec3(v0, v1, v2, v3) + Seq::<u8>::empty()));
            assert(b64_dec3(v0, v1, v2, v3) + Seq::<u8>::empty() =~= s);
        } else {
            assert(b64_decode(e) =~= Some(b64_dec3(v0, v1, v2, v3) + s.skip(3)));
            assert(b64_dec3(v0, v1, v2, v3) + s.skip(3) =~= s);
        }
    }
}

/// A text whose length is not a multiple of four decodes to nothing.
pub proof fn lemma_b64_decode_len(s: Seq<u8>)
    requires
        s.len() % 4 != 0,
    ensures
        b64_decode(s) is None,
    decreases s.len(),
{
    if s.len() >= 4 {
        lemma_b64_decode_len(s.skip(4));
    }
}

/// The alphabet character for a six-bit value.
pub fn b64_char(v: u8) -> (r: u8)
    requires
        v < 64,
    ensures
        r == b64_char_of(v),
{
    if v < 26 {
        v + 0x41
    } else if v < 52 {
        v + 0x47
    } else if v < 62 {
        v - 4
    } else if v == 62 {
        0x2b
    } else {
        0x2f
    }
}

/// The six-bit value of an alphabet character.
pub fn b64_val(c: u8) -> (r: Option<u8>)
    ensures
        r == b64_val_of(c),
{
    if 0x41 <= c && c <= 0x5a {
        Some(c - 0x41)
    } else if 0x61 <= c && c <= 0x7a {
        Some(c - 0x47)
    } else if 0x30 <= c && c <= 0x39 {
        Some(c + 4)
    } else if c == 0x2b {
        Some(62)
    } else if c == 0x2f {
        Some(63)
    } else {
        None
    }
}

/// Encodes `data` as padded base64 text.
pub fn b64_encode_bytes(data: &Vec<u8>) -> (r: Vec<u8>)
    ensures
        r@ == b64_encode(data@),
{
    let mut out: Vec<u8> = Vec::new();
    let mut i: usize = 0;
    proof {
        assert(data@.take(0) =~= Seq::<u8>::empty());
    }
    while data.len() - i >= 3
        invariant
            i <= data.len(),
            i % 3 == 0,
            out@ == b64_encode(data@.take(i as int)),
        decreases data.len() - i,
    {
        let b0 = data[i];
        let b1 = data[i + 1];
        let b2 = data[i + 2];
        proof {
            assert(b0 >> 2 < 64 && (((b0 & 3) << 4) | (b1 >> 4)) < 64 && (((b1 & 0xf) << 2) | (b2
                >> 6)) < 64 && (b2 & 0x3f) < 64) by (bit_vector);
        }
        out.push(b64_char(b0 >> 2));
        out.push(b64_char(((b0 & 3) << 4) | (b1 >> 4)));
        out.push(b64_char(((b1 & 0xf) << 2) | (b2 >> 6)));
        out.push(b64_char(b2 & 0x3f));
        proof {
            let pre = data@.take(i as int);
            let full = data@.take(i as int + 3);
            lemma_b64_encode_append(full, i as int);
            assert(full.take(i as int) =~= pre);
            let grp = full.skip(i as int);
            assert(grp =~= seq![b0, b1, b2]);
            assert(grp.skip(3) =~= Seq::<u8>::empty());
            assert(b64_encode(Seq::<u8>::empty()) =~= Seq::<u8>::empty());
            assert(b64_encode(grp) == b64_enc3(grp[0], grp[1], grp[2]) + b64_encode(grp.skip(3)));
            assert(b64_encode(grp) =~= b64_enc3(b0, b1, b2));
            assert(out@ =~= b64_encode(full));
        }
        i = i + 3;
    }
    proof {
        lemma_b64_encode_append(data@, i as int);
    }
    if i == data.len() {
        proof {
            assert(data@.take(i as int) =~= data@);
        }
    } else if data.len() - i == 1 {
        let b0 = data[i];
        proof {
            assert(b0 >> 2 < 64 && ((b0 & 3) << 4) < 64) by (bit_vector);
            assert(data@.skip(i as int) =~= seq![b0]);
        }
        out.push(b64_char(b0 >> 2));
        out.push(b64_char((b0 & 3) << 4));
        out.push(B64_PAD);
        out.push(B64_PAD);
        proof {
            assert(out@ =~= b64_encode(data@.take(i as int)) + b64_encode(data@.skip(i as int)));
        }
    } else {
        let b0 = data[i];
        let b1 = data[i + 1];
        proof {
            assert(b0 >> 2 < 64 && (((b0 & 3) << 4) | (b1 >> 4)) < 64 && ((b1 & 0xf) << 2) < 64)
                by (bit_vector);
            assert(data@.skip(i as int) =~= seq![b0, b1]);
        }
        out.push(b64_char(b0 >> 2));
        out.push(b64_char(((b0 & 3) << 4) | (b1 >> 4)));
        out.push(b64_char((b1 & 0xf) << 2));
        out.push(B64_PAD);
        proof {
            assert(out@ =~= b64_encode(data@.take(i as int)) + b64_encode(data@.skip(i as int)));
        }
    }
    out
}

/// Decodes padded base64 text, rejecting exactly what the wire grammar
/// rejects.
pub fn b64_decode_bytes(data: &Vec<u8>) -> (r: Option<Vec<u8>>)
    ensures
        match r {
            Some(v) => b64_decode(data@) == Some(v@),
            None => b64_decode(data@) is None,
        },
{
    if data.len() % 4 != 0 {
        proof {
            lemma_b64_decode_len(data@);
        }
        return None;
    }
    let mut out: Vec<u8> = Vec::new();
    let mut i: usize = 0;
    proof {
        assert(data@.skip(0) =~= data@);
    }
    while data.len() - i > 4
        invariant
            i <= data.len(),
            i % 4 == 0,
            data@.len() % 4 == 0,
            b64_decode(data@) == (match b64_decode(data@.skip(i as int)) {
                Some(t) => Some(out@ + t),
                None => None::<Seq<u8>>,
            }),
        decreases data.len() - i,
    {
        let ghost pre = data@.skip(i as int);
        let ghost out0 = out@;
        let c0 = b64_val(data[i]);
        let c1 = b64_val(data[i + 1]);
        let c2 = b64_val(data[i + 2]);
        let c3 = b64_val(data[i + 3]);
        proof {
            assert(pre.len() >= 8);
            assert(pre[0] == data@[i as int] && pre[1] == data@[i as int + 1] && pre[2]
                == data@[i as int + 2] && pre[3] == data@[i as int + 3]);
        }
        match (c0, c1, c2, c3) {
            (Some(v0), Some(v1), Some(v2), Some(v3)) => {
                out.push((v0 << 2) | (v1 >> 4));
                out.push(((v1 & 0xf) << 4) | (v2 >> 2));
                out.push(((v2 & 3) << 6) | v3);
                proof {
                    assert(pre.skip(4) =~= data@.skip(i as int + 4));
                    assert(out@ =~= out0 + b64_dec3(v0, v1, v2, v3));
                    match b64_decode(data@.skip(i as int + 4)) {
                        Some(t) => {
                            assert(b64_decode(pre) == Some(b64_dec3(v0, v1, v2, v3) + t));
                            assert(out0 + (b64_dec3(v0, v1, v2, v3) + t) =~= out@ + t);
                        },
                        None => {
                            assert(b64_decode(pre) is None);
                        },
                    }
                }
                i = i + 4;
            },
            _ => {
                proof {
                    assert(b64_decode(pre) is None);
                }
                return None;
            },
        }
    }
    if i == data.len() {
        proof {
            assert(data@.skip(i as int) =~= Seq::<u8>::empty());
            assert(b64_decode(data@) == Some(out@ + Seq::<u8>::empty()));
            assert(out@ + Seq::<u8>::empty() =~= out@);
        }
        return Some(out);
    }
    // the final group of four characters, possibly padded
    let ghost pre = data@.skip(i as int);
    let ghost out0 = out@;
    proof {
        assert(pre.len() == 4);
        assert(pre[0] == data@[i as int] && pre[1] == data@[i as int + 1] && pre[2] == data@[i
            as int + 2] && pre[3] == data@[i as int + 3]);
    }
    let c0 = b64_val(data[i]);
    let c1 = b64_val(data[i + 1]);
    let (v0, v1) = match (c0, c1) {
        (Some(v0), Some(v1)) => (v0, v1),
        _ => {
            proof {
                assert(b64_decode(pre) is None);
            }
            return None;
        },
    };
    if data[i + 3] == B64_PAD {
        if data[i + 2] == B64_PAD {
            if v1 & 0xf == 0 {
                out.push((v0 << 2) | (v1 >> 4));
                proof {
                    assert(b64_decode(pre) == Some(seq![(((v0 << 2) | (v1 >> 4)) as u8)]));
                    assert(out0 + seq![(((v0 << 2) | (v1 >> 4)) as u8)] =~= out@);
                }
                Some(out)
            } else {
                proof {
                    assert(b64_decode(pre) is None);
                }
                None
            }
        } else {
            match b64_val(data[i + 2]) {
                Some(v2) => {
                    if v2 & 3 == 0 {
                        out.push((v0 << 2) | (v1 >> 4));
                        out.push(((v1 & 0xf) << 4) | (v2 >> 2));
                        proof {
                            let two = seq![
                                (((v0 << 2) | (v1 >> 4)) as u8),
                                ((((v1 & 0xf) << 4) | (v2 >> 2)) as u8),
                            ];
                            assert(b64_decode(pre) == Some(two));
                            assert(out0 + two =~= out@);
                        }
                        Some(out)
                    } else {
                        proof {
                            assert(b64_decode(pre) is None);
                        }
                        None
                    }
                },
                None => {
                    proof {
                        assert(b64_decode(pre) is None);
                    }
                    None
                },
            }
        }
    } else {
        match (b64_val(data[i + 2]), b64_val(data[i + 3])) {
            (Some(v2), Some(v3)) => {
                out.push((v0 << 2) | (v1 >> 4));
                out.push(((v1 & 0xf) << 4) | (v2 >> 2));
                out.push(((v2 & 3) << 6) | v3);
                proof {
                    assert(pre.skip(4) =~= Seq::<u8>::empty());
                    assert(b64_decode(Seq::<u8>::empty()) == Some(Seq::<u8>::empty()));
                    assert(b64_decode(pre) == Some(b64_dec3(v0, v1, v2, v3) + Seq::<u8>::empty()));
                    assert(out0 + (b64_dec3(v0, v1, v2, v3) + Seq::<u8>::empty()) =~= out@);
                }
                Some(out)
            },
            _ => {
                proof {
                    assert(b64_decode(pre) is None);
                }
                None
            },
        }
    }
}

} // verus!
