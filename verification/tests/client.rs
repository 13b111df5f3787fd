use std::cell::RefCell;
use std::collections::BTreeMap;
use std::rc::Rc;

use serde_cbor::Value;
use smp_client::image;
use smp_client::transport::SmpTransportImpl;
use smp_client::{
    ble_reduce, ble_rx_complete, effective_slot, erase, gatt_write_chunks, list, loss_percent,
    peripheral_matches, reset, upload, upload_step, ErrTooLargeChunk, ImageStateRsp, ProgressCb,
    SilentProgress, SmpError, SmpTransport, UploadEvent, UploadProgress, UploadStep,
};

/// What the scripted device does with one request.
enum Script {
    /// Answer with a map holding the given `rc` and `off` fields.
    Fields { rc: Option<u64>, off: Option<u64> },
    /// Answer with this CBOR body.
    Body(Vec<u8>),
    /// Answer correctly except for the sequence id.
    BadSeq,
    /// Fail the exchange.
    Fail(SmpError),
}

struct Mock {
    script: Vec<Script>,
    sent: Rc<RefCell<Vec<Vec<u8>>>>,
    mtu: usize,
}

fn fields_body(rc: Option<u64>, off: Option<u64>) -> Vec<u8> {
    let mut m = BTreeMap::new();
    if let Some(rc) = rc {
        m.insert(Value::Text("rc".to_string()), Value::Integer(rc as i128));
    }
    if let Some(off) = off {
        m.insert(Value::Text("off".to_string()), Value::Integer(off as i128));
    }
    serde_cbor::to_vec(&Value::Map(m)).unwrap()
}

fn reply_frame(req: &[u8], body: &[u8], seq: u8) -> Vec<u8> {
    let mut f = vec![
        req[0] + 1,
        0,
        (body.len() >> 8) as u8,
        body.len() as u8,
        req[4],
        req[5],
        seq,
        req[7],
    ];
    f.extend_from_slice(body);
    f
}

impl SmpTransportImpl for Mock {
    // the compiled trait keeps an erased stub of the spec-level MTU;
    // nothing ever calls it
    fn mtu_spec(&self) -> usize {
        unreachable!()
    }

    fn transceive_raw(&mut self, req_frame: &Vec<u8>) -> Result<Vec<u8>, SmpError> {
        self.sent.borrow_mut().push(req_frame.clone());
        match self.script.remove(0) {
            Script::Fail(e) => Err(e),
            Script::Fields { rc, off } => {
                let body = fields_body(rc, off);
                Ok(reply_frame(req_frame, &body, req_frame[6]))
            }
            Script::Body(body) => Ok(reply_frame(req_frame, &body, req_frame[6])),
            Script::BadSeq => {
                let body = fields_body(Some(0), None);
                Ok(reply_frame(req_frame, &body, req_frame[6].wrapping_add(1)))
            }
        }
    }

    fn mtu(&self) -> usize {
        self.mtu
    }

    fn set_timeout(&mut self, _timeout_ms: u64) -> Result<(), SmpError> {
        Ok(())
    }
}

fn client(script: Vec<Script>, mtu: usize) -> (SmpTransport<Mock>, Rc<RefCell<Vec<Vec<u8>>>>) {
    let sent = Rc::new(RefCell::new(Vec::new()));
    let mock = Mock { script, sent: sent.clone(), mtu };
    (SmpTransport::new(mock), sent)
}

fn contains(haystack: &[u8], needle: &[u8]) -> bool {
    haystack.windows(needle.len()).any(|w| w == needle)
}

struct CountProgress {
    calls: Vec<(u64, u64)>,
}

impl ProgressCb for CountProgress {
    fn on_progress(&mut self, off: u64, total: u64) {
        self.calls.push((off, total));
    }
}

#[test]
fn reset_success_shape() {
    let (mut c, sent) = client(vec![Script::Fields { rc: Some(0), off: None }], 512);
    assert_eq!(reset(&mut c), Ok(()));
    let frames = sent.borrow();
    assert_eq!(frames.len(), 1);
    let f = &frames[0];
    // write, default group, reset id, one-byte empty-map body
    let seq = f[6];
    assert_eq!(*f, vec![0x02, 0x00, 0x00, 0x01, 0x00, 0x00, seq, 0x00, 0xa0]);
}

#[test]
fn reset_device_error() {
    let (mut c, _) = client(vec![Script::Fields { rc: Some(7), off: None }], 512);
    assert_eq!(reset(&mut c), Err(SmpError::DeviceError(7)));
}

#[test]
fn reset_missing_rc_is_success() {
    let (mut c, _) = client(vec![Script::Fields { rc: None, off: None }], 512);
    assert_eq!(reset(&mut c), Ok(()));
}

#[test]
fn erase_rc_one_is_device_error() {
    let (mut c, sent) = client(vec![Script::Fields { rc: Some(1), off: None }], 512);
    assert_eq!(erase(&mut c, Some(1)), Err(SmpError::DeviceError(1)));
    let frames = sent.borrow();
    let f = &frames[0];
    let seq = f[6];
    // write, image group, erase id, {"slot": 1} body
    assert_eq!(&f[0..8], &[0x02, 0x00, 0x00, 0x07, 0x00, 0x01, seq, 0x05]);
    assert_eq!(&f[8..], &[0xa1, 0x64, 0x73, 0x6c, 0x6f, 0x74, 0x01]);
}

#[test]
fn erase_without_slot_sends_empty_map() {
    let (mut c, sent) = client(vec![Script::Fields { rc: Some(0), off: None }], 512);
    assert_eq!(erase(&mut c, None), Ok(()));
    let frames = sent.borrow();
    assert_eq!(&frames[0][8..], &[0xa0]);
}

#[test]
fn test_op_sends_hash_and_confirm() {
    let (mut c, sent) = client(vec![Script::Fields { rc: None, off: None }], 512);
    assert_eq!(image::test(&mut c, vec![0xde, 0xad], Some(true)), Ok(()));
    let frames = sent.borrow();
    let f = &frames[0];
    // write, image group, state id
    assert_eq!(f[7], 0x00);
    assert_eq!(&f[4..6], &[0x00, 0x01]);
    assert!(contains(f, &[0x64, 0x68, 0x61, 0x73, 0x68, 0x42, 0xde, 0xad]));
    assert!(contains(f, &[0x67, 0x63, 0x6f, 0x6e, 0x66, 0x69, 0x72, 0x6d, 0xf5]));
}

#[test]
fn envelope_mismatch_is_wrong_answer_types() {
    let (mut c, _) = client(vec![Script::BadSeq], 512);
    assert_eq!(reset(&mut c), Err(SmpError::WrongAnswerTypes));
}

#[test]
fn list_parses_state_response() {
    let mut img = BTreeMap::new();
    img.insert(Value::Text("slot".to_string()), Value::Integer(1));
    img.insert(Value::Text("version".to_string()), Value::Text("2.0.0".to_string()));
    img.insert(Value::Text("hash".to_string()), Value::Bytes(vec![1, 2, 3]));
    img.insert(Value::Text("pending".to_string()), Value::Bool(true));
    let mut top = BTreeMap::new();
    top.insert(Value::Text("images".to_string()), Value::Array(vec![Value::Map(img)]));
    let body = serde_cbor::to_vec(&Value::Map(top)).unwrap();
    let (mut c, sent) = client(vec![Script::Body(body)], 512);
    let rsp: ImageStateRsp = list(&mut c).unwrap();
    assert_eq!(rsp.images.len(), 1);
    assert_eq!(rsp.images[0].slot, 1);
    assert_eq!(rsp.images[0].version, b"2.0.0".to_vec());
    assert_eq!(rsp.images[0].hash, vec![1, 2, 3]);
    assert!(rsp.images[0].pending);
    assert!(!rsp.images[0].active);
    assert_eq!(rsp.split_status, None);
    // read, image group, state id, empty map body
    let frames = sent.borrow();
    let f = &frames[0];
    assert_eq!(f[0], 0x00);
    assert_eq!(&f[4..6], &[0x00, 0x01]);
    assert_eq!(f[7], 0x00);
    assert_eq!(&f[8..], &[0xa0]);
}

#[test]
fn sequence_advances_once_per_exchange() {
    let script = (0..5).map(|_| Script::Fields { rc: Some(0), off: None }).collect();
    let (mut c, sent) = client(script, 512);
    for _ in 0..5 {
        assert_eq!(reset(&mut c), Ok(()));
    }
    let frames = sent.borrow();
    let s0 = frames[0][6];
    for (i, f) in frames.iter().enumerate() {
        assert_eq!(f[6], s0.wrapping_add(i as u8));
    }
}

#[test]
fn sequence_survives_failed_exchanges() {
    let script = vec![
        Script::Fail(SmpError::Timeout),
        Script::Fields { rc: Some(0), off: None },
    ];
    let (mut c, sent) = client(script, 512);
    assert_eq!(reset(&mut c), Err(SmpError::Timeout));
    assert_eq!(reset(&mut c), Ok(()));
    let frames = sent.borrow();
    // the timed-out request reached the wire, so the id advanced past it
    assert_eq!(frames[1][6], frames[0][6].wrapping_add(1));
}

#[test]
fn sequence_unchanged_after_mtu_rejection() {
    let script = vec![
        Script::Fail(SmpError::TooLargeChunk(ErrTooLargeChunk(10))),
        Script::Fields { rc: Some(0), off: None },
    ];
    let (mut c, sent) = client(script, 512);
    assert!(matches!(reset(&mut c), Err(SmpError::TooLargeChunk(_))));
    assert_eq!(reset(&mut c), Ok(()));
    let frames = sent.borrow();
    // the rejected frame was never sent: the same id goes out again
    assert_eq!(frames[1][6], frames[0][6]);
}

#[test]
fn upload_chunks_whole_image() {
    // a 10000-byte image with a 768-byte body budget: thirteen full
    // chunks and a 16-byte tail
    let data = vec![0u8; 10000];
    let mut script: Vec<Script> = (1..=13)
        .map(|k| Script::Fields { rc: Some(0), off: Some(768 * k) })
        .collect();
    script.push(Script::Fields { rc: Some(0), off: Some(10000) });
    let (mut c, sent) = client(script, 768);
    let mut progress = CountProgress { calls: Vec::new() };
    let stats = upload(&mut c, &b"app.bin".to_vec(), &data, 0, 3, &mut progress).unwrap();
    assert_eq!(stats.sent_blocks, 14);
    assert_eq!(stats.confirmed_blocks, 14);
    assert_eq!(stats.offset, 10000);
    assert_eq!(progress.calls.len(), 14);
    assert_eq!(*progress.calls.last().unwrap(), (10000, 10000));
    let frames = sent.borrow();
    assert_eq!(frames.len(), 14);
    // first-chunk metadata: len and sha keys exactly on the first frame
    assert!(contains(&frames[0], &[0x63, 0x6c, 0x65, 0x6e]));
    assert!(contains(&frames[0], &[0x63, 0x73, 0x68, 0x61]));
    for f in frames.iter().skip(1) {
        assert!(!contains(f, &[0x63, 0x73, 0x68, 0x61]));
        assert!(!contains(f, &[0x63, 0x6c, 0x65, 0x6e]));
    }
    // the announced sha is the real digest
    let digest = smp_client::sha256(&data);
    assert!(contains(&frames[0], &digest));
}

#[test]
fn upload_shrinks_chunk_after_mtu_rejection() {
    let data = vec![0u8; 1000];
    let script = vec![
        Script::Fail(SmpError::TooLargeChunk(ErrTooLargeChunk(200))),
        Script::Fields { rc: Some(0), off: Some(568) },
        Script::Fields { rc: Some(0), off: Some(1000) },
    ];
    let (mut c, sent) = client(script, 768);
    let mut progress = SilentProgress;
    let stats = upload(&mut c, &b"app.bin".to_vec(), &data, 0, 3, &mut progress).unwrap();
    assert_eq!(stats.confirmed_blocks, stats.sent_blocks);
    assert_eq!(stats.offset, 1000);
    let frames = sent.borrow();
    assert_eq!(frames.len(), 3);
    // the rejected frame was never sent, so its sequence id is reused
    assert_eq!(frames[1][6], frames[0][6]);
    // the chunk gave up exactly the 200 bytes the transport asked for
    assert_eq!(frames[1].len(), frames[0].len() - 200);
}

#[test]
fn upload_retries_same_chunk_after_timeout() {
    let data = vec![0u8; 1000];
    let script = vec![
        Script::Fail(SmpError::Timeout),
        Script::Fields { rc: Some(0), off: Some(400) },
        Script::Fail(SmpError::Timeout),
        Script::Fields { rc: Some(0), off: Some(800) },
        Script::Fail(SmpError::Timeout),
        Script::Fields { rc: Some(0), off: Some(1000) },
    ];
    let (mut c, sent) = client(script, 400);
    let mut progress = SilentProgress;
    let stats = upload(&mut c, &b"app.bin".to_vec(), &data, 0, 1, &mut progress).unwrap();
    // one injected timeout per chunk leaves the outcome of a no-loss run
    assert_eq!(stats.offset, 1000);
    assert_eq!(stats.confirmed_blocks, stats.sent_blocks);
    assert_eq!(stats.confirmed_blocks, 3);
    let frames = sent.borrow();
    assert_eq!(frames.len(), 6);
    // every resend carries byte-for-byte the body that timed out, under a
    // fresh sequence id: the timed-out send did reach the wire
    for k in [0usize, 2, 4] {
        assert_eq!(frames[k][8..], frames[k + 1][8..]);
        assert_eq!(frames[k + 1][6], frames[k][6].wrapping_add(1));
    }
}

#[test]
fn upload_timeout_without_retries_fails() {
    let data = vec![0u8; 100];
    let script = vec![Script::Fail(SmpError::Timeout)];
    let (mut c, _) = client(script, 400);
    let mut progress = SilentProgress;
    assert_eq!(
        upload(&mut c, &b"app.bin".to_vec(), &data, 0, 0, &mut progress),
        Err(SmpError::Timeout)
    );
}

#[test]
fn upload_follows_device_offset() {
    let data: Vec<u8> = (0..1000).map(|i| i as u8).collect();
    let script = vec![
        Script::Fields { rc: Some(0), off: Some(700) },
        Script::Fields { rc: Some(0), off: Some(1000) },
    ];
    let (mut c, sent) = client(script, 100);
    let mut progress = SilentProgress;
    let stats = upload(&mut c, &b"app.bin".to_vec(), &data, 0, 3, &mut progress).unwrap();
    assert_eq!(stats.offset, 1000);
    let frames = sent.borrow();
    // the second request uses the device's offset 700 exactly
    assert!(contains(&frames[1], &[0x63, 0x6f, 0x66, 0x66, 0x19, 0x02, 0xbc]));
    // and carries the bytes from there
    assert!(contains(&frames[1], &data[700..800]));
}

#[test]
fn upload_stalled_offset_is_no_progress() {
    let data = vec![0u8; 100];
    let script = vec![Script::Fields { rc: Some(0), off: Some(0) }];
    let (mut c, _) = client(script, 400);
    let mut progress = SilentProgress;
    assert_eq!(
        upload(&mut c, &b"app.bin".to_vec(), &data, 0, 3, &mut progress),
        Err(SmpError::NoProgress)
    );
}

#[test]
fn upload_missing_offset_is_no_progress() {
    let data = vec![0u8; 100];
    let script = vec![Script::Fields { rc: Some(0), off: None }];
    let (mut c, _) = client(script, 400);
    let mut progress = SilentProgress;
    assert_eq!(
        upload(&mut c, &b"app.bin".to_vec(), &data, 0, 3, &mut progress),
        Err(SmpError::NoProgress)
    );
}

#[test]
fn upload_oversized_reduction_is_mtu_too_small() {
    let data = vec![0u8; 100];
    let script = vec![Script::Fail(SmpError::TooLargeChunk(ErrTooLargeChunk(500)))];
    let (mut c, _) = client(script, 400);
    let mut progress = SilentProgress;
    assert_eq!(
        upload(&mut c, &b"app.bin".to_vec(), &data, 0, 3, &mut progress),
        Err(SmpError::MtuTooSmall)
    );
}

#[test]
fn upload_device_error_is_fatal() {
    let data = vec![0u8; 100];
    let script = vec![Script::Fields { rc: Some(3), off: Some(100) }];
    let (mut c, _) = client(script, 400);
    let mut progress = SilentProgress;
    assert_eq!(
        upload(&mut c, &b"app.bin".to_vec(), &data, 0, 3, &mut progress),
        Err(SmpError::DeviceError(3))
    );
}

#[test]
fn upload_filename_overrides_slot() {
    let data = vec![0u8; 10];
    let script = vec![Script::Fields { rc: Some(0), off: Some(10) }];
    let (mut c, sent) = client(script, 400);
    let mut progress = SilentProgress;
    upload(&mut c, &b"firmware_slot1.bin".to_vec(), &data, 0, 3, &mut progress).unwrap();
    let frames = sent.borrow();
    // "image": 1 despite the slot 0 argument
    assert!(contains(&frames[0], &[0x65, 0x69, 0x6d, 0x61, 0x67, 0x65, 0x01]));
}

#[test]
fn effective_slot_convention() {
    assert_eq!(effective_slot(&b"firmware_slot1.bin".to_vec(), 0), 1);
    assert_eq!(effective_slot(&b"FIRMWARE_SLOT3.BIN".to_vec(), 0), 3);
    assert_eq!(effective_slot(&b"sLoT1".to_vec(), 2), 1);
    assert_eq!(effective_slot(&b"slot1_and_slot3".to_vec(), 0), 3);
    assert_eq!(effective_slot(&b"firmware.bin".to_vec(), 2), 2);
    assert_eq!(effective_slot(&b"slot".to_vec(), 2), 2);
}

#[test]
fn upload_step_transitions() {
    let st = UploadProgress {
        off: 100,
        try_length: 400,
        retries_left: 2,
        sent_blocks: 1,
        confirmed_blocks: 1,
    };
    match upload_step(st, UploadEvent::TimedOut, 1000) {
        UploadStep::Resend { next } => {
            assert_eq!(next, UploadProgress { retries_left: 1, ..st });
        }
        _ => panic!("timeout with retries left must resend"),
    }
    match upload_step(UploadProgress { retries_left: 0, ..st }, UploadEvent::TimedOut, 1000) {
        UploadStep::Fail { err } => assert_eq!(err, SmpError::Timeout),
        _ => panic!("timeout without retries must fail"),
    }
    match upload_step(st, UploadEvent::TooLarge { reduce: 150 }, 1000) {
        UploadStep::Resend { next } => {
            assert_eq!(next, UploadProgress { try_length: 250, ..st });
        }
        _ => panic!("a small enough reduction must resend"),
    }
    match upload_step(st, UploadEvent::TooLarge { reduce: 401 }, 1000) {
        UploadStep::Fail { err } => assert_eq!(err, SmpError::MtuTooSmall),
        _ => panic!("an oversized reduction must fail"),
    }
    match upload_step(st, UploadEvent::Accepted { rsp_off: Some(500) }, 1000) {
        UploadStep::Advance { next } => {
            assert_eq!(next.off, 500);
            assert_eq!(next.sent_blocks, 2);
            assert_eq!(next.confirmed_blocks, 2);
        }
        _ => panic!("an advancing offset must advance"),
    }
    match upload_step(st, UploadEvent::Accepted { rsp_off: Some(100) }, 1000) {
        UploadStep::Fail { err } => assert_eq!(err, SmpError::NoProgress),
        _ => panic!("a stalled offset must fail"),
    }
    match upload_step(st, UploadEvent::Accepted { rsp_off: Some(2000) }, 1000) {
        UploadStep::Fail { err } => assert_eq!(err, SmpError::NoProgress),
        _ => panic!("an offset past the image must fail"),
    }
    match upload_step(st, UploadEvent::Rejected { rc: 9 }, 1000) {
        UploadStep::Fail { err } => assert_eq!(err, SmpError::DeviceError(9)),
        _ => panic!("a device error must fail"),
    }
}

#[test]
fn loss_percent_formula() {
    assert_eq!(loss_percent(10, 10), 0);
    assert_eq!(loss_percent(9, 10), 10);
    assert_eq!(loss_percent(0, 4), 100);
    assert_eq!(loss_percent(2, 3), 34);
}

#[test]
fn ble_reassembly_completeness() {
    // header only, zero payload declared: complete
    assert!(ble_rx_complete(&vec![3, 0, 0, 0, 0, 0, 1, 0]));
    // 5 declared, 4 present
    let mut buf = vec![3, 0, 0, 5, 0, 0, 1, 0, 0xa1, 0x62, 0x72, 0x63];
    assert!(!ble_rx_complete(&buf));
    buf.push(0x00);
    assert!(ble_rx_complete(&buf));
    // shorter than a header
    assert!(!ble_rx_complete(&vec![3, 0, 0]));
}

#[test]
fn ble_write_chunking() {
    let frame: Vec<u8> = (0..23).collect();
    let chunks = gatt_write_chunks(&frame, 10);
    assert_eq!(chunks.len(), 3);
    assert_eq!(chunks[0], (0..10).collect::<Vec<u8>>());
    assert_eq!(chunks[1], (10..20).collect::<Vec<u8>>());
    assert_eq!(chunks[2], (20..23).collect::<Vec<u8>>());
    assert_eq!(gatt_write_chunks(&Vec::new(), 10).len(), 0);
}

#[test]
fn ble_overflow_policy() {
    assert_eq!(ble_reduce(500, 498), 2);
}

#[test]
fn ble_peripheral_matching() {
    let id = b"hci0:01:02".to_vec();
    let name = b"my-device".to_vec();
    assert!(peripheral_matches(&id, &name, &b"hci0:01:02".to_vec()));
    assert!(peripheral_matches(&id, &name, &b"my-device".to_vec()));
    assert!(!peripheral_matches(&id, &name, &b"other".to_vec()));
}

#[test]
fn upload_empty_image_makes_no_progress() {
    // even an empty image sends one announcing chunk; a device that then
    // reports offset zero has not advanced
    let data: Vec<u8> = Vec::new();
    let script = vec![Script::Fields { rc: Some(0), off: Some(0) }];
    let (mut c, sent) = client(script, 400);
    let mut progress = SilentProgress;
    assert_eq!(
        upload(&mut c, &b"app.bin".to_vec(), &data, 0, 3, &mut progress),
        Err(SmpError::NoProgress)
    );
    let frames = sent.borrow();
    assert_eq!(frames.len(), 1);
    // the single request still announces len and sha
    assert!(contains(&frames[0], &[0x63, 0x6c, 0x65, 0x6e, 0x00]));
    assert!(contains(&frames[0], &[0x63, 0x73, 0x68, 0x61]));
}

#[test]
fn upload_caps_chunk_for_the_length_field() {
    // a transport MTU beyond what the header's 16-bit length field can
    // carry is capped; the transfer still completes
    let data = vec![0u8; 70000];
    let script = vec![
        Script::Fields { rc: Some(0), off: Some(65000) },
        Script::Fields { rc: Some(0), off: Some(70000) },
    ];
    let (mut c, sent) = client(script, 1_000_000);
    let mut progress = SilentProgress;
    let stats = upload(&mut c, &b"app.bin".to_vec(), &data, 0, 3, &mut progress).unwrap();
    assert_eq!(stats.offset, 70000);
    let frames = sent.borrow();
    assert_eq!(frames.len(), 2);
    // the first chunk carries exactly the capped 65000 data bytes:
    // a byte string of that length has a three-byte header
    assert!(contains(&frames[0], &[0x64, 0x64, 0x61, 0x74, 0x61, 0x59, 0xfd, 0xe8]));
}

#[test]
fn sequence_wraps_after_a_full_cycle() {
    let script = (0..257).map(|_| Script::Fields { rc: Some(0), off: None }).collect();
    let (mut c, sent) = client(script, 512);
    for _ in 0..257 {
        assert_eq!(reset(&mut c), Ok(()));
    }
    let frames = sent.borrow();
    let ids: Vec<u8> = frames.iter().map(|f| f[6]).collect();
    // the first 256 ids are all distinct, and the cycle then repeats
    for i in 0..256 {
        for j in 0..i {
            assert_ne!(ids[i], ids[j]);
        }
    }
    assert_eq!(ids[256], ids[0]);
}
