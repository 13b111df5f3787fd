use base64::Engine as _;
use serde_cbor::Value;
use std::collections::BTreeMap;

use smp_client::{
    b64_decode_bytes, b64_encode_bytes, crc16_xmodem, decode_serial, encode_request,
    parse_image_state, parse_rsp_fields, serial_mtu, serial_reduce, serial_rx_complete, sha256,
    ImageEraseReq, ImageStateReq, ImageUploadReq, NmpGroup, NmpHdr, NmpOp, SmpError,
};

fn crc_be(data: &[u8]) -> [u8; 2] {
    let c = crc16::State::<crc16::XMODEM>::calculate(data);
    [(c >> 8) as u8, (c & 0xff) as u8]
}

#[test]
fn header_serialize_exact_bytes() {
    let h = NmpHdr {
        op: NmpOp::Write,
        flags: 0,
        len: 1,
        group: NmpGroup::Default,
        seq: 0x42,
        id: 0,
    };
    assert_eq!(h.serialize(), vec![0x02, 0x00, 0x00, 0x01, 0x00, 0x00, 0x42, 0x00]);
}

#[test]
fn header_roundtrip_all_ops_and_groups() {
    let ops = [NmpOp::Read, NmpOp::ReadRsp, NmpOp::Write, NmpOp::WriteRsp];
    let groups = [NmpGroup::Default, NmpGroup::Image];
    for &op in ops.iter() {
        for &group in groups.iter() {
            let h = NmpHdr { op, flags: 7, len: 0xabcd, group, seq: 255, id: 5 };
            let bytes = h.serialize();
            assert_eq!(bytes.len(), 8);
            assert_eq!(NmpHdr::deserialize(&bytes), Ok(h));
        }
    }
}

#[test]
fn header_rejects_bad_op_and_short_input() {
    let bad_op = vec![0x04, 0, 0, 0, 0, 0, 0, 0];
    assert_eq!(NmpHdr::deserialize(&bad_op), Err(SmpError::MalformedHeader));
    let short = vec![0x02, 0, 0];
    assert_eq!(NmpHdr::deserialize(&short), Err(SmpError::MalformedHeader));
    let bad_group = vec![0x02, 0, 0, 0, 0, 9, 0, 0];
    assert_eq!(NmpHdr::deserialize(&bad_group), Err(SmpError::MalformedHeader));
}

#[test]
fn base64_matches_reference_crate() {
    let cases: &[&[u8]] = &[b"", b"f", b"fo", b"foo", b"foob", b"fooba", b"foobar", &[0, 255, 7]];
    for &c in cases {
        let mine = b64_encode_bytes(&c.to_vec());
        let theirs = base64::engine::general_purpose::STANDARD.encode(c).into_bytes();
        assert_eq!(mine, theirs);
        assert_eq!(b64_decode_bytes(&mine), Some(c.to_vec()));
    }
}

#[test]
fn base64_decode_rejects_bad_text() {
    assert_eq!(b64_decode_bytes(&b"Zg=".to_vec()), None);
    assert_eq!(b64_decode_bytes(&b"Z!==".to_vec()), None);
    assert_eq!(b64_decode_bytes(&b"====".to_vec()), None);
    // non-zero trailing bits, which the standard engine also rejects
    assert_eq!(b64_decode_bytes(&b"Zh==".to_vec()), None);
}

#[test]
fn crc16_known_vector() {
    assert_eq!(crc16_xmodem(&b"123456789".to_vec()), 0x31c3);
}

#[test]
fn serial_frame_single_line() {
    // one write of the reset shape through the serial codec
    let r: Vec<u8> = vec![0x02, 0x00, 0x00, 0x02, 0x00, 0x00, 0x05, 0x00, 0xa0];
    let wire = encode_request(128, &r);
    assert_eq!(wire[0], 0x06);
    assert_eq!(wire[1], 0x09);
    assert_eq!(*wire.last().unwrap(), 0x0a);
    // exactly one line
    assert_eq!(wire.iter().filter(|&&b| b == 0x0a).count(), 1);
    let decoded = base64::engine::general_purpose::STANDARD
        .decode(&wire[2..wire.len() - 1])
        .unwrap();
    let mut expected = vec![0x00, 0x0b];
    expected.extend_from_slice(&r);
    expected.extend_from_slice(&crc_be(&r));
    assert_eq!(decoded, expected);
}

#[test]
fn serial_roundtrip_various_lengths() {
    for &ll in &[32usize, 33, 128, 4096] {
        for &n in &[0usize, 1, 2, 3, 9, 100, 300] {
            let r: Vec<u8> = (0..n).map(|i| (i * 7 + 3) as u8).collect();
            let wire = encode_request(ll, &r);
            assert_eq!(decode_serial(&wire), Ok(r.clone()), "ll={} n={}", ll, n);
        }
    }
}

#[test]
fn serial_multi_line_markers() {
    let r: Vec<u8> = (0..200).map(|i| i as u8).collect();
    let wire = encode_request(32, &r);
    // first line opens 06 09, every later line opens 04 14
    assert_eq!(&wire[0..2], &[6, 9]);
    let mut pos = 0;
    let mut lines = 0;
    while pos < wire.len() {
        if lines == 0 {
            assert_eq!(&wire[pos..pos + 2], &[6, 9]);
        } else {
            assert_eq!(&wire[pos..pos + 2], &[4, 20]);
        }
        // payload of at most linelength - 4 bytes, then the newline
        let nl = wire[pos..].iter().position(|&b| b == 0x0a).unwrap();
        assert!(nl - 2 <= 28);
        pos += nl + 1;
        lines += 1;
    }
    assert!(lines > 1);
    assert_eq!(decode_serial(&wire), Ok(r));
}

#[test]
fn serial_tamper_any_bit_of_body_fails_checksum() {
    // frame the body by hand, flip one bit of the SMP frame region, and
    // keep the untampered checksum: every flip must be caught
    let r: Vec<u8> = vec![0x03, 0x00, 0x00, 0x05, 0x00, 0x00, 0x11, 0x00, 0xa1, 0x62, 0x72, 0x63,
        0x00];
    let crc = crc_be(&r);
    for byte in 0..r.len() {
        for bit in 0..8 {
            let mut tampered = r.clone();
            tampered[byte] ^= 1 << bit;
            let mut framed = vec![0x00, (r.len() + 2) as u8];
            framed.extend_from_slice(&tampered);
            framed.extend_from_slice(&crc);
            let b64 = base64::engine::general_purpose::STANDARD.encode(&framed);
            let mut wire = vec![0x06, 0x09];
            wire.extend_from_slice(b64.as_bytes());
            wire.push(0x0a);
            assert_eq!(decode_serial(&wire), Err(SmpError::WrongChecksum));
        }
    }
}

#[test]
fn serial_wrong_length_prefix_rejected() {
    let r: Vec<u8> = vec![1, 2, 3];
    let crc = crc_be(&r);
    let mut framed = vec![0x00, 0x09];  // claims 9, actual is 5
    framed.extend_from_slice(&r);
    framed.extend_from_slice(&crc);
    let b64 = base64::engine::general_purpose::STANDARD.encode(&framed);
    let mut wire = vec![0x06, 0x09];
    wire.extend_from_slice(b64.as_bytes());
    wire.push(0x0a);
    assert_eq!(decode_serial(&wire), Err(SmpError::WrongChunkLength));
}

#[test]
fn serial_bad_marker_rejected() {
    let r: Vec<u8> = vec![1, 2, 3];
    let mut wire = encode_request(128, &r);
    wire[0] = 0x04;
    assert_eq!(decode_serial(&wire), Err(SmpError::ProtocolFraming));
}

#[test]
fn serial_mtu_and_reduce_policy() {
    assert_eq!(serial_mtu(512), 384);
    assert_eq!(serial_mtu(1024), 768);
    // overflow of 100 encoded bytes scales back to 78 body bytes
    assert_eq!(serial_reduce(612, 512), 78);
    assert_eq!(serial_reduce(513, 512), 3);
}

#[test]
fn serial_rx_complete_tracks_length_field() {
    let r: Vec<u8> = (0..40).map(|i| i as u8).collect();
    let wire = encode_request(32, &r);
    // feed the accumulated base64 payload line by line
    let mut acc: Vec<u8> = Vec::new();
    let mut pos = 0;
    let mut verdicts = Vec::new();
    while pos < wire.len() {
        let nl = wire[pos..].iter().position(|&b| b == 0x0a).unwrap();
        acc.extend_from_slice(&wire[pos + 2..pos + nl]);
        verdicts.push(serial_rx_complete(&acc));
        pos += nl + 1;
    }
    assert!(verdicts.len() > 1);
    assert!(!verdicts[0]);
    assert!(*verdicts.last().unwrap());
}

#[test]
fn erase_request_body_bytes() {
    assert_eq!(ImageEraseReq { slot: None }.encode(), vec![0xa0]);
    assert_eq!(
        ImageEraseReq { slot: Some(1) }.encode(),
        vec![0xa1, 0x64, 0x73, 0x6c, 0x6f, 0x74, 0x01]
    );
}

#[test]
fn erase_request_matches_serde_cbor() {
    let mut m = BTreeMap::new();
    m.insert(Value::Text("slot".to_string()), Value::Integer(3));
    let theirs = serde_cbor::to_vec(&Value::Map(m)).unwrap();
    assert_eq!(ImageEraseReq { slot: Some(3) }.encode(), theirs);
}

#[test]
fn state_request_body_bytes() {
    let req = ImageStateReq { hash: vec![0xaa, 0xbb], confirm: Some(true) };
    let mut expected = vec![0xa2];
    expected.extend_from_slice(&[0x64, 0x68, 0x61, 0x73, 0x68]);  // "hash"
    expected.extend_from_slice(&[0x42, 0xaa, 0xbb]);
    expected.extend_from_slice(&[0x67, 0x63, 0x6f, 0x6e, 0x66, 0x69, 0x72, 0x6d]);  // "confirm"
    expected.push(0xf5);
    assert_eq!(req.encode(), expected);
    let bare = ImageStateReq { hash: vec![0xaa, 0xbb], confirm: None };
    assert_eq!(bare.encode(), vec![0xa1, 0x64, 0x68, 0x61, 0x73, 0x68, 0x42, 0xaa, 0xbb]);
}

#[test]
fn uint_encoding_matches_serde_cbor() {
    // drive the shortest-form integer encoder through the erase body at
    // each width boundary
    for &v in &[0u32, 23, 24, 255, 256, 65535, 65536, 0xffffffff] {
        let mine = ImageEraseReq { slot: Some(v) }.encode();
        let mut m = BTreeMap::new();
        m.insert(Value::Text("slot".to_string()), Value::Integer(v as i128));
        let theirs = serde_cbor::to_vec(&Value::Map(m)).unwrap();
        assert_eq!(mine, theirs, "v={}", v);
    }
}

#[test]
fn upload_request_first_chunk_carries_len_and_sha() {
    let req = ImageUploadReq {
        image_num: 0,
        off: 0,
        len: Some(10),
        data_sha: Some(vec![0x01, 0x02]),
        upgrade: None,
        data: vec![9, 9, 9],
    };
    let mut expected = vec![0xa5];
    expected.extend_from_slice(&[0x65, 0x69, 0x6d, 0x61, 0x67, 0x65, 0x00]);  // "image": 0
    expected.extend_from_slice(&[0x63, 0x6f, 0x66, 0x66, 0x00]);  // "off": 0
    expected.extend_from_slice(&[0x63, 0x6c, 0x65, 0x6e, 0x0a]);  // "len": 10
    expected.extend_from_slice(&[0x63, 0x73, 0x68, 0x61, 0x42, 0x01, 0x02]);  // "sha"
    expected.extend_from_slice(&[0x64, 0x64, 0x61, 0x74, 0x61, 0x43, 9, 9, 9]);  // "data"
    assert_eq!(req.encode(), expected);
}

#[test]
fn upload_request_later_chunk_has_no_metadata() {
    let req = ImageUploadReq {
        image_num: 1,
        off: 768,
        len: None,
        data_sha: None,
        upgrade: None,
        data: vec![5],
    };
    let mut expected = vec![0xa3];
    expected.extend_from_slice(&[0x65, 0x69, 0x6d, 0x61, 0x67, 0x65, 0x01]);
    expected.extend_from_slice(&[0x63, 0x6f, 0x66, 0x66, 0x19, 0x03, 0x00]);  // "off": 768
    expected.extend_from_slice(&[0x64, 0x64, 0x61, 0x74, 0x61, 0x41, 5]);
    assert_eq!(req.encode(), expected);
}

#[test]
fn rsp_fields_reads_rc_and_off() {
    let mut m = BTreeMap::new();
    m.insert(Value::Text("rc".to_string()), Value::Integer(0));
    m.insert(Value::Text("off".to_string()), Value::Integer(1024));
    m.insert(Value::Text("noise".to_string()), Value::Array(vec![
        Value::Integer(1),
        Value::Text("x".to_string()),
    ]));
    let body = serde_cbor::to_vec(&Value::Map(m)).unwrap();
    let fields = parse_rsp_fields(&body).unwrap();
    assert_eq!(fields.rc, Some(0));
    assert_eq!(fields.off, Some(1024));
}

#[test]
fn rsp_fields_tolerates_missing_keys_and_non_maps() {
    // an empty map has neither field
    let fields = parse_rsp_fields(&vec![0xa0]).unwrap();
    assert_eq!(fields.rc, None);
    assert_eq!(fields.off, None);
    // a well-formed non-map body carries no fields
    let fields = parse_rsp_fields(&vec![0x05]).unwrap();
    assert_eq!(fields.rc, None);
    // an empty body is a framing error
    assert_eq!(parse_rsp_fields(&Vec::new()), Err(SmpError::ProtocolFraming));
}

#[test]
fn rsp_fields_rejects_non_integer_rc() {
    let mut m = BTreeMap::new();
    m.insert(Value::Text("rc".to_string()), Value::Text("ok".to_string()));
    let body = serde_cbor::to_vec(&Value::Map(m)).unwrap();
    assert_eq!(parse_rsp_fields(&body), Err(SmpError::WrongAnswerTypes));
}

#[test]
fn rsp_fields_truncated_body_is_framing_error() {
    // a required key whose value is cut off: the type check fails first
    let body = vec![0xa1, 0x62, 0x72, 0x63];
    assert_eq!(parse_rsp_fields(&body), Err(SmpError::WrongAnswerTypes));
    // an unknown key whose value is cut off cannot be stepped over
    let body = vec![0xa1, 0x62, 0x7a, 0x7a];
    assert_eq!(parse_rsp_fields(&body), Err(SmpError::ProtocolFraming));
}

#[test]
fn image_state_response_parses() {
    let mut img = BTreeMap::new();
    img.insert(Value::Text("slot".to_string()), Value::Integer(0));
    img.insert(Value::Text("version".to_string()), Value::Text("1.2.3".to_string()));
    img.insert(Value::Text("hash".to_string()), Value::Bytes(vec![0xde, 0xad]));
    img.insert(Value::Text("bootable".to_string()), Value::Bool(true));
    img.insert(Value::Text("pending".to_string()), Value::Bool(false));
    img.insert(Value::Text("confirmed".to_string()), Value::Bool(true));
    img.insert(Value::Text("active".to_string()), Value::Bool(true));
    img.insert(Value::Text("permanent".to_string()), Value::Bool(false));
    img.insert(Value::Text("mystery".to_string()), Value::Integer(7));
    let mut top = BTreeMap::new();
    top.insert(Value::Text("images".to_string()), Value::Array(vec![Value::Map(img)]));
    top.insert(Value::Text("splitStatus".to_string()), Value::Integer(0));
    let body = serde_cbor::to_vec(&Value::Map(top)).unwrap();
    let rsp = parse_image_state(&body).unwrap();
    assert_eq!(rsp.images.len(), 1);
    let e = &rsp.images[0];
    assert_eq!(e.slot, 0);
    assert_eq!(e.version, b"1.2.3".to_vec());
    assert_eq!(e.hash, vec![0xde, 0xad]);
    assert!(e.bootable && e.confirmed && e.active);
    assert!(!e.pending && !e.permanent);
    assert_eq!(rsp.split_status, Some(0));
}

#[test]
fn sha256_known_digest() {
    let d = sha256(&b"abc".to_vec());
    let expected: [u8; 32] = [
        0xba, 0x78, 0x16, 0xbf, 0x8f, 0x01, 0xcf, 0xea, 0x41, 0x41, 0x40, 0xde, 0x5d, 0xae, 0x22,
        0x23, 0xb0, 0x03, 0x61, 0xa3, 0x96, 0x17, 0x7a, 0x9c, 0xb4, 0x10, 0xff, 0x61, 0xf2, 0x00,
        0x15, 0xad,
    ];
    assert_eq!(d, expected.to_vec());
}

#[test]
fn rsp_fields_last_duplicate_key_wins() {
    // a map declaring "rc" twice: the later value stands, as a reader that
    // walks every pair leaves it
    let body = vec![0xa2, 0x62, 0x72, 0x63, 0x01, 0x62, 0x72, 0x63, 0x00];
    let fields = parse_rsp_fields(&body).unwrap();
    assert_eq!(fields.rc, Some(0));
}
