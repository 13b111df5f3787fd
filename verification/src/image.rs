//! Image-group operations: erase, test/confirm, and the chunked upload
//! pipeline with MTU adaptation, retry on timeout, and offset-driven
//! recovery.

use vstd::prelude::*;

use crate::bytes::push_range;
use crate::cbor::{
    cbor_bool_spec, cbor_bytes_spec, cbor_map_hdr_spec, cbor_text_spec, cbor_uint_spec,
    lemma_cbor_hdr_len, push_cbor_bool, push_cbor_bytes, push_cbor_map_hdr, push_cbor_text,
    push_cbor_uint,
};
use crate::errors::{ErrTooLargeChunk, SmpError};
use crate::nmp_hdr::{NmpGroup, NmpIdImage, NmpOp};
use crate::response::{check_answer, parse_rsp_fields};
use crate::transport::{seq_next, SmpTransport, SmpTransportImpl};

verus! {

/// The UTF-8 bytes of the `slot` key.
pub open spec fn key_slot() -> Seq<u8> {
    seq![0x73u8, 0x6cu8, 0x6fu8, 0x74u8]
}

/// The UTF-8 bytes of the `hash` key.
pub open spec fn key_hash() -> Seq<u8> {
    seq![0x68u8, 0x61u8, 0x73u8, 0x68u8]
}

/// The UTF-8 bytes of the `confirm` key.
pub open spec fn key_confirm() -> Seq<u8> {
    seq![0x63u8, 0x6fu8, 0x6eu8, 0x66u8, 0x69u8, 0x72u8, 0x6du8]
}

/// The UTF-8 bytes of the `image` key.
pub open spec fn key_image() -> Seq<u8> {
    seq![0x69u8, 0x6du8, 0x61u8, 0x67u8, 0x65u8]
}

/// The UTF-8 bytes of the `off` key.
pub open spec fn key_off() -> Seq<u8> {
    seq![0x6fu8, 0x66u8, 0x66u8]
}

/// The UTF-8 bytes of the `len` key.
pub open spec fn key_len() -> Seq<u8> {
    seq![0x6cu8, 0x65u8, 0x6eu8]
}

/// The UTF-8 bytes of the `sha` key.
pub open spec fn key_sha() -> Seq<u8> {
    seq![0x73u8, 0x68u8, 0x61u8]
}

/// The UTF-8 bytes of the `upgrade` key.
pub open spec fn key_upgrade() -> Seq<u8> {
    seq![0x75u8, 0x70u8, 0x67u8, 0x72u8, 0x61u8, 0x64u8, 0x65u8]
}

/// The UTF-8 bytes of the `data` key.
pub open spec fn key_data() -> Seq<u8> {
    seq![0x64u8, 0x61u8, 0x74u8, 0x61u8]
}

/// The SHA-256 digest of a byte sequence.
pub uninterp spec fn sha256_of(data: Seq<u8>) -> Seq<u8>;

/// Relies on `sha2::Sha256` through the `Digest` trait: the 32-byte
/// SHA-256 digest of the bytes, a function of the bytes alone.
#[verifier::external_body]
pub fn sha256(data: &Vec<u8>) -> (r: Vec<u8>)
    ensures
        r@ == sha256_of(data@),
        r@.len() == 32,
{
    <sha2::Sha256 as sha2::Digest>::digest(data.as_slice()).to_vec()
}

/// The request body of an erase: an empty map, or `{"slot": n}`.
pub open spec fn erase_req_bytes(slot: Option<u32>) -> Seq<u8> {
    match slot {
        None => cbor_map_hdr_spec(0),
        Some(s) => cbor_map_hdr_spec(1) + cbor_text_spec(key_slot()) + cbor_uint_spec(s as u64),
    }
}

/// An erase request: the slot to wipe, or the device's default when absent.
pub struct ImageEraseReq {
    pub slot: Option<u32>,
}

impl ImageEraseReq {
    /// Encodes the request body.
    pub fn encode(&self) -> (r: Vec<u8>)
        ensures
            r@ == erase_req_bytes(self.slot),
            r@.len() <= 15,
    {
        let mut out: Vec<u8> = Vec::new();
        match self.slot {
            None => {
                push_cbor_map_hdr(&mut out, 0);
            },
            Some(s) => {
                push_cbor_map_hdr(&mut out, 1);
                let key = vec![0x73u8, 0x6cu8, 0x6fu8, 0x74u8];
                push_cbor_text(&mut out, &key);
                push_cbor_uint(&mut out, s as u64);
                proof {
                    assert(key@ =~= key_slot());
                    lemma_cbor_hdr_len(crate::cbor::MAJOR_UINT, s as u64);
                }
            },
        }
        proof {
            assert(out@ =~= erase_req_bytes(self.slot));
        }
        out
    }
}

/// The request body of a state change: `{"hash": h}` with an optional
/// `"confirm": b`.
pub open spec fn state_req_bytes(hash: Seq<u8>, confirm: Option<bool>) -> Seq<u8> {
    let head = cbor_map_hdr_spec(
        match confirm {
            None => 1,
            Some(_) => 2,
        },
    ) + cbor_text_spec(key_hash()) + cbor_bytes_spec(hash);
    match confirm {
        None => head,
        Some(c) => head + cbor_text_spec(key_confirm()) + cbor_bool_spec(c),
    }
}

/// A state request: mark the image with this hash pending, or confirm it.
pub struct ImageStateReq {
    pub hash: Vec<u8>,
    pub confirm: Option<bool>,
}

impl ImageStateReq {
    /// Encodes the request body.
    pub fn encode(&self) -> (r: Vec<u8>)
        ensures
            r@ == state_req_bytes(self.hash@, self.confirm),
            r@.len() <= 30 + self.hash@.len(),
    {
        let mut out: Vec<u8> = Vec::new();
        match self.confirm {
            None => push_cbor_map_hdr(&mut out, 1),
            Some(_) => push_cbor_map_hdr(&mut out, 2),
        }
        let key = vec![0x68u8, 0x61u8, 0x73u8, 0x68u8];
        push_cbor_text(&mut out, &key);
        push_cbor_bytes(&mut out, &self.hash);
        proof {
            assert(key@ =~= key_hash());
            lemma_cbor_hdr_len(crate::cbor::MAJOR_BYTES, self.hash@.len() as u64);
        }
        match self.confirm {
            None => {},
            Some(c) => {
                let ckey = vec![0x63u8, 0x6fu8, 0x6eu8, 0x66u8, 0x69u8, 0x72u8, 0x6du8];
                push_cbor_text(&mut out, &ckey);
                push_cbor_bool(&mut out, c);
                proof {
                    assert(ckey@ =~= key_confirm());
                }
            },
        }
        proof {
            assert(out@ =~= state_req_bytes(self.hash@, self.confirm));
        }
        out
    }
}

/// The request body of one upload chunk. `len` and `sha` announce the whole
/// image and appear only on the first chunk.
pub open spec fn upload_req_bytes(
    image_num: u8,
    off: u32,
    len: Option<u32>,
    sha: Option<Seq<u8>>,
    upgrade: Option<bool>,
    data: Seq<u8>,
) -> Seq<u8> {
    let count = (3 + (if len is Some {
        1int
    } else {
        0int
    }) + (if sha is Some {
        1int
    } else {
        0int
    }) + (if upgrade is Some {
        1int
    } else {
        0int
    })) as u64;
    cbor_map_hdr_spec(count) + cbor_text_spec(key_image()) + cbor_uint_spec(image_num as u64)
        + cbor_text_spec(key_off()) + cbor_uint_spec(off as u64) + (match len {
        Some(l) => cbor_text_spec(key_len()) + cbor_uint_spec(l as u64),
        None => Seq::empty(),
    }) + (match sha {
        Some(s) => cbor_text_spec(key_sha()) + cbor_bytes_spec(s),
        None => Seq::empty(),
    }) + (match upgrade {
        Some(u) => cbor_text_spec(key_upgrade()) + cbor_bool_spec(u),
        None => Seq::empty(),
    }) + cbor_text_spec(key_data()) + cbor_bytes_spec(data)
}

/// One chunk of an image upload.
pub struct ImageUploadReq {
    pub image_num: u8,
    pub off: u32,
    pub len: Option<u32>,
    pub data_sha: Option<Vec<u8>>,
    pub upgrade: Option<bool>,
    pub data: Vec<u8>,
}

impl ImageUploadReq {
    /// The spec-level view of the optional digest.
    pub open spec fn sha_view(&self) -> Option<Seq<u8>> {
        match self.data_sha {
            Some(s) => Some(s@),
            None => None,
        }
    }

    /// The number of bytes the optional digest adds.
    pub open spec fn sha_len(&self) -> int {
        match self.data_sha {
            Some(s) => s@.len() as int,
            None => 0,
        }
    }

    /// Encodes the request body.
    pub fn encode(&self) -> (r: Vec<u8>)
        ensures
            r@ == upload_req_bytes(
                self.image_num,
                self.off,
                self.len,
                self.sha_view(),
                self.upgrade,
                self.data@,
            ),
            r@.len() <= 96 + self.sha_len() + self.data@.len(),
    {
        let mut out: Vec<u8> = Vec::new();
        let mut count: u64 = 3;
        if self.len.is_some() {
            count = count + 1;
        }
        if self.data_sha.is_some() {
            count = count + 1;
        }
        if self.upgrade.is_some() {
            count = count + 1;
        }
        push_cbor_map_hdr(&mut out, count);
        proof {
            lemma_cbor_hdr_len(crate::cbor::MAJOR_MAP, count);
        }

        let ikey = vec![0x69u8, 0x6du8, 0x61u8, 0x67u8, 0x65u8];
        push_cbor_text(&mut out, &ikey);
        push_cbor_uint(&mut out, self.image_num as u64);
        proof {
            assert(ikey@ =~= key_image());
            lemma_cbor_hdr_len(crate::cbor::MAJOR_UINT, self.image_num as u64);
        }

        let okey = vec![0x6fu8, 0x66u8, 0x66u8];
        push_cbor_text(&mut out, &okey);
        push_cbor_uint(&mut out, self.off as u64);
        proof {
            assert(okey@ =~= key_off());
            lemma_cbor_hdr_len(crate::cbor::MAJOR_UINT, self.off as u64);
        }

        match self.len {
            Some(l) => {
                let lkey = vec![0x6cu8, 0x65u8, 0x6eu8];
                push_cbor_text(&mut out, &lkey);
                push_cbor_uint(&mut out, l as u64);
                proof {
                    assert(lkey@ =~= key_len());
                    lemma_cbor_hdr_len(crate::cbor::MAJOR_UINT, l as u64);
                }
            },
            None => {},
        }

        match &self.data_sha {
            Some(s) => {
                let skey = vec![0x73u8, 0x68u8, 0x61u8];
                push_cbor_text(&mut out, &skey);
                push_cbor_bytes(&mut out, s);
                proof {
                    assert(skey@ =~= key_sha());
                    lemma_cbor_hdr_len(crate::cbor::MAJOR_BYTES, s@.len() as u64);
                }
            },
            None => {},
        }

        match self.upgrade {
            Some(u) => {
                let ukey = vec![0x75u8, 0x70u8, 0x67u8, 0x72u8, 0x61u8, 0x64u8, 0x65u8];
                push_cbor_text(&mut out, &ukey);
                push_cbor_bool(&mut out, u);
                proof {
                    assert(ukey@ =~= key_upgrade());
                }
            },
            None => {},
        }

        let dkey = vec![0x64u8, 0x61u8, 0x74u8, 0x61u8];
        push_cbor_text(&mut out, &dkey);
        push_cbor_bytes(&mut out, &self.data);
        proof {
            assert(dkey@ =~= key_data());
            lemma_cbor_hdr_len(crate::cbor::MAJOR_BYTES, self.data@.len() as u64);
            assert(out@ =~= upload_req_bytes(
                self.image_num,
                self.off,
                self.len,
                self.sha_view(),
                self.upgrade,
                self.data@,
            ));
        }
        out
    }
}

/// An ASCII letter folded to lower case; other bytes stand as they are.
pub open spec fn ascii_lower(c: u8) -> u8 {
    if 0x41 <= c && c <= 0x5a {
        (c + 0x20) as u8
    } else {
        c
    }
}

/// Whether `pat` occurs in `name` at position `i`, comparing ASCII
/// case-insensitively (`pat` is given in lower case).
pub open spec fn matches_ci_at(name: Seq<u8>, i: int, pat: Seq<u8>) -> bool {
    forall|k: int| 0 <= k < pat.len() ==> ascii_lower(name[i + k]) == pat[k]
}

/// Whether `pat` occurs anywhere in `name`, ASCII case-insensitively.
pub open spec fn contains_ci(name: Seq<u8>, pat: Seq<u8>) -> bool {
    exists|i: int| 0 <= i <= name.len() - pat.len() && matches_ci_at(name, i, pat)
}

/// Folds an ASCII letter to lower case.
pub fn to_ascii_lower(c: u8) -> (r: u8)
    ensures
        r == ascii_lower(c),
{
    if 0x41 <= c && c <= 0x5a {
        c + 0x20
    } else {
        c
    }
}

/// Scans `name` for `pat`, ASCII case-insensitively.
pub fn contains_ci_exec(name: &Vec<u8>, pat: &Vec<u8>) -> (r: bool)
    requires
        pat@.len() >= 1,
    ensures
        r == contains_ci(name@, pat@),
{
    if name.len() < pat.len() {
        return false;
    }
    let last = name.len() - pat.len();
    let mut i: usize = 0;
    while i <= last
        invariant
            name@.len() <= usize::MAX,
            name@.len() >= pat@.len() >= 1,
            last == name@.len() - pat@.len(),
            i <= last + 1,
            forall|x: int| 0 <= x < i ==> !matches_ci_at(name@, x, pat@),
        decreases last + 1 - i,
    {
        let mut k: usize = 0;
        let mut hit = true;
        while hit && k < pat.len()
            invariant
                name@.len() <= usize::MAX,
                name@.len() >= pat@.len() >= 1,
                i + pat@.len() <= name@.len(),
                k <= pat@.len(),
                hit ==> (forall|x: int| 0 <= x < k ==> ascii_lower(name@[i + x]) == pat@[x]),
                !hit ==> !matches_ci_at(name@, i as int, pat@),
            decreases pat@.len() - k + (if hit {
                1int
            } else {
                0int
            }),
        {
            if to_ascii_lower(name[i + k]) != pat[k] {
                proof {
                    assert(ascii_lower(name@[i + k]) != pat@[k as int]);
                }
                hit = false;
            } else {
                k = k + 1;
            }
        }
        if hit {
            assert(matches_ci_at(name@, i as int, pat@));
            return true;
        }
        i = i + 1;
    }
    assert(forall|x: int| 0 <= x <= name@.len() - pat@.len() ==> !matches_ci_at(name@, x, pat@));
    false
}

/// The slot an upload actually writes: a filename containing `slot1` or
/// `slot3` (any case) overrides the argument, `slot3` taking precedence.
pub open spec fn effective_slot_spec(name: Seq<u8>, slot: u8) -> u8 {
    if contains_ci(name, seq![0x73u8, 0x6cu8, 0x6fu8, 0x74u8, 0x33u8]) {
        3
    } else if contains_ci(name, seq![0x73u8, 0x6cu8, 0x6fu8, 0x74u8, 0x31u8]) {
        1
    } else {
        slot
    }
}

/// Applies the filename slot-override convention.
pub fn effective_slot(name: &Vec<u8>, slot: u8) -> (r: u8)
    ensures
        r == effective_slot_spec(name@, slot),
{
    let pat3 = vec![0x73u8, 0x6cu8, 0x6fu8, 0x74u8, 0x33u8];
    let pat1 = vec![0x73u8, 0x6cu8, 0x6fu8, 0x74u8, 0x31u8];
    proof {
        assert(pat3@ =~= seq![0x73u8, 0x6cu8, 0x6fu8, 0x74u8, 0x33u8]);
        assert(pat1@ =~= seq![0x73u8, 0x6cu8, 0x6fu8, 0x74u8, 0x31u8]);
    }
    if contains_ci_exec(name, &pat3) {
        3
    } else if contains_ci_exec(name, &pat1) {
        1
    } else {
        slot
    }
}

/// The state the upload pipeline carries from attempt to attempt.
#[derive(Clone, Copy, Debug, PartialEq, Eq, Structural)]
pub struct UploadProgress {
    /// The next offset to send, as the device confirmed it.
    pub off: usize,
    /// The soft cap on body bytes per chunk.
    pub try_length: usize,
    /// Timeouts this chunk may still absorb.
    pub retries_left: u32,
    /// Attempts that reached the wire and were not retried.
    pub sent_blocks: u32,
    /// Chunks the device acknowledged.
    pub confirmed_blocks: u32,
}

/// What one transceive attempt came to, reduced to what the pipeline
/// dispatches on.
pub enum UploadEvent {
    /// Envelope valid and `rc` zero or absent; `rsp_off` is the device's
    /// next expected offset, if it sent one.
    Accepted { rsp_off: Option<u64> },
    /// Envelope valid but the device reported a non-zero result code.
    Rejected { rc: u64 },
    /// The response envelope did not match the request.
    BadEnvelope,
    /// No response within the bound.
    TimedOut,
    /// The frame never left the host: shrink by `reduce` body bytes.
    TooLarge { reduce: usize },
    /// Any other failure.
    Failed { err: SmpError },
}

/// What the pipeline does next.
pub enum UploadStep {
    /// Try the chunk again (after a consumed retry or a shrink).
    Resend { next: UploadProgress },
    /// The chunk is confirmed; continue from the device's offset.
    Advance { next: UploadProgress },
    /// Give up with this error.
    Fail { err: SmpError },
}

/// The upload transition function: how one attempt's outcome moves the
/// pipeline, with `total` the full image length.
///
/// A timeout with retries left resends the same chunk and consumes one
/// retry; an MTU rejection shrinks `try_length` by the named amount or is
/// fatal when the chunk cannot give that much; an accepted reply advances
/// to exactly the offset the device named, which must make progress and
/// stay inside the image.
pub open spec fn upload_step_spec(st: UploadProgress, ev: UploadEvent, total: usize) -> UploadStep {
    match ev {
        UploadEvent::TimedOut => {
            if st.retries_left == 0 {
                UploadStep::Fail { err: SmpError::Timeout }
            } else {
                UploadStep::Resend {
                    next: UploadProgress {
                        retries_left: (st.retries_left - 1) as u32,
                        ..st
                    },
                }
            }
        },
        UploadEvent::TooLarge { reduce } => {
            if reduce > st.try_length {
                UploadStep::Fail { err: SmpError::MtuTooSmall }
            } else {
                UploadStep::Resend {
                    next: UploadProgress { try_length: (st.try_length - reduce) as usize, ..st },
                }
            }
        },
        UploadEvent::Failed { err } => UploadStep::Fail { err },
        UploadEvent::BadEnvelope => UploadStep::Fail { err: SmpError::WrongAnswerTypes },
        UploadEvent::Rejected { rc } => UploadStep::Fail { err: SmpError::DeviceError(rc) },
        UploadEvent::Accepted { rsp_off } => {
            match rsp_off {
                None => UploadStep::Fail { err: SmpError::NoProgress },
                Some(k) => {
                    if k <= st.off as u64 || k > total as u64 {
                        UploadStep::Fail { err: SmpError::NoProgress }
                    } else {
                        UploadStep::Advance {
                            next: UploadProgress {
                                off: k as usize,
                                try_length: st.try_length,
                                retries_left: st.retries_left,
                                sent_blocks: (st.sent_blocks + 1) as u32,
                                confirmed_blocks: (st.confirmed_blocks + 1) as u32,
                            },
                        }
                    }
                },
            }
        },
    }
}

/// Computes the upload transition.
pub fn upload_step(st: UploadProgress, ev: UploadEvent, total: usize) -> (r: UploadStep)
    requires
        st.sent_blocks < u32::MAX,
        st.confirmed_blocks < u32::MAX,
    ensures
        r == upload_step_spec(st, ev, total),
{
    match ev {
        UploadEvent::TimedOut => {
            if st.retries_left == 0 {
                UploadStep::Fail { err: SmpError::Timeout }
            } else {
                UploadStep::Resend {
                    next: UploadProgress { retries_left: st.retries_left - 1, ..st },
                }
            }
        },
        UploadEvent::TooLarge { reduce } => {
            if reduce > st.try_length {
                UploadStep::Fail { err: SmpError::MtuTooSmall }
            } else {
                UploadStep::Resend {
                    next: UploadProgress { try_length: st.try_length - reduce, ..st },
                }
            }
        },
        UploadEvent::Failed { err } => UploadStep::Fail { err },
        UploadEvent::BadEnvelope => UploadStep::Fail { err: SmpError::WrongAnswerTypes },
        UploadEvent::Rejected { rc } => UploadStep::Fail { err: SmpError::DeviceError(rc) },
        UploadEvent::Accepted { rsp_off } => {
            match rsp_off {
                None => UploadStep::Fail { err: SmpError::NoProgress },
                Some(k) => {
                    if k <= st.off as u64 || k > total as u64 {
                        UploadStep::Fail { err: SmpError::NoProgress }
                    } else {
                        UploadStep::Advance {
                            next: UploadProgress {
                                off: k as usize,
                                try_length: st.try_length,
                                retries_left: st.retries_left,
                                sent_blocks: st.sent_blocks + 1,
                                confirmed_blocks: st.confirmed_blocks + 1,
                            },
                        }
                    }
                },
            }
        },
    }
}

/// The exact body bytes of the chunk the pipeline sends from state
/// `(off, try_length)`: the whole-image `len` and `sha` announcements
/// appear exactly on the first chunk.
pub open spec fn upload_chunk_bytes(
    data: Seq<u8>,
    slot: u8,
    sha: Seq<u8>,
    off: int,
    try_length: int,
) -> Seq<u8> {
    let rem = data.len() - off;
    let clen = if try_length > rem {
        rem
    } else {
        try_length
    };
    let chunk = data.subrange(off, off + clen);
    if off == 0 {
        upload_req_bytes(slot, 0, Some(data.len() as u32), Some(sha), None, chunk)
    } else {
        upload_req_bytes(slot, off as u32, None, None, None, chunk)
    }
}

/// MTU adaptation: a rejection asking for more bytes than the chunk holds
/// is fatal; any other strictly shrinks `try_length` (a rejection names at
/// least one byte) and touches nothing else, so the next attempt reuses
/// the same offset.
pub proof fn lemma_mtu_adaptation(st: UploadProgress, reduce: usize, total: usize)
    requires
        reduce >= 1,
    ensures
        (match upload_step_spec(st, UploadEvent::TooLarge { reduce }, total) {
            UploadStep::Resend { next } => {
                &&& reduce <= st.try_length
                &&& next.try_length == st.try_length - reduce
                &&& next.try_length < st.try_length
                &&& next.off == st.off
                &&& next.retries_left == st.retries_left
                &&& next.sent_blocks == st.sent_blocks
                &&& next.confirmed_blocks == st.confirmed_blocks
            },
            UploadStep::Fail { err } => reduce > st.try_length && err == SmpError::MtuTooSmall,
            _ => false,
        }),
{
}

/// Offset authority: when the device acknowledges with offset `k`, the
/// pipeline continues from exactly `k` — the host never substitutes its
/// own chunk arithmetic.
pub proof fn lemma_offset_authority(st: UploadProgress, k: u64, total: usize)
    requires
        st.off < k <= total as u64,
        st.sent_blocks < u32::MAX,
        st.confirmed_blocks < u32::MAX,
    ensures
        (match upload_step_spec(st, UploadEvent::Accepted { rsp_off: Some(k) }, total) {
            UploadStep::Advance { next } => next.off == k,
            _ => false,
        }),
{
}

/// Retry idempotence: a timeout with retries left consumes one retry and
/// changes nothing else, so the resent chunk is byte-for-byte the one that
/// timed out; with no retries left the timeout is fatal.
pub proof fn lemma_timeout_retry(
    st: UploadProgress,
    total: usize,
    data: Seq<u8>,
    slot: u8,
    sha: Seq<u8>,
)
    ensures
        (match upload_step_spec(st, UploadEvent::TimedOut, total) {
            UploadStep::Resend { next } => {
                &&& st.retries_left >= 1
                &&& next.retries_left == st.retries_left - 1
                &&& next.off == st.off
                &&& next.try_length == st.try_length
                &&& next.sent_blocks == st.sent_blocks
                &&& next.confirmed_blocks == st.confirmed_blocks
                &&& upload_chunk_bytes(data, slot, sha, next.off as int, next.try_length as int)
                    == upload_chunk_bytes(data, slot, sha, st.off as int, st.try_length as int)
            },
            UploadStep::Fail { err } => st.retries_left == 0 && err == SmpError::Timeout,
            _ => false,
        }),
{
}

/// First-chunk metadata: the encoded chunk carries the `len` and `sha`
/// announcements exactly when it starts at offset zero.
pub proof fn lemma_first_chunk_metadata(
    data: Seq<u8>,
    slot: u8,
    sha: Seq<u8>,
    off: int,
    try_length: int,
)
    requires
        0 <= off <= data.len(),
        0 <= try_length,
    ensures
        off == 0 ==> upload_chunk_bytes(data, slot, sha, off, try_length) == upload_req_bytes(
            slot,
            0,
            Some(data.len() as u32),
            Some(sha),
            None,
            data.subrange(0, if try_length > data.len() { data.len() as int } else { try_length }),
        ),
        off != 0 ==> upload_chunk_bytes(data, slot, sha, off, try_length) == upload_req_bytes(
            slot,
            off as u32,
            None,
            None,
            None,
            data.subrange(
                off,
                off + (if try_length > data.len() - off {
                    data.len() - off
                } else {
                    try_length
                }),
            ),
        ),
{
}

/// What an upload reports on success.
#[derive(Clone, Copy, Debug, PartialEq, Eq, Structural)]
pub struct UploadStats {
    /// Attempts that reached the wire and were not retried.
    pub sent_blocks: u32,
    /// Chunks the device acknowledged.
    pub confirmed_blocks: u32,
    /// The final confirmed offset.
    pub offset: usize,
}

/// The loss figure the caller may warn with when not every sent block was
/// confirmed.
pub fn loss_percent(confirmed: u32, sent: u32) -> (r: u32)
    requires
        1 <= sent,
        confirmed <= sent,
    ensures
        r as int == 100 - 100 * (confirmed as int) / (sent as int),
{
    let q: u64 = 100u64 * (confirmed as u64) / (sent as u64);
    proof {
        assert(0 <= 100 * (confirmed as int) / (sent as int) <= 100) by (nonlinear_arith)
            requires
                1 <= sent,
                confirmed <= sent,
        ;
    }
    100 - (q as u32)
}

/// A per-chunk progress observer.
pub trait ProgressCb {
    /// Called after each confirmed chunk with the new offset and the total.
    fn on_progress(&mut self, off: u64, total: u64);
}

/// A progress observer that reports nothing.
pub struct SilentProgress;

impl ProgressCb for SilentProgress {
    #[allow(unused_variables)]
    fn on_progress(&mut self, off: u64, total: u64) {
    }
}

/// The largest body-byte cap a chunk may use, so that a request body
/// always fits the header's 16-bit length field.
pub const MAX_CHUNK_CAP: usize = 65000;

/// Uploads an image: chunked transfer with per-chunk offset feedback from
/// the device, MTU shrink on overflow, retry on timeout, and the SHA-256
/// announcement on the first chunk. A filename containing `slot1` or
/// `slot3` overrides the slot argument.
///
/// On success every sent block was confirmed and the confirmed offset is
/// the image length. The loop terminates: every attempt either advances
/// the offset, consumes a retry, strictly shrinks the chunk cap, or fails.
pub fn upload<T: SmpTransportImpl, P: ProgressCb>(
    port: &mut SmpTransport<T>,
    filename: &Vec<u8>,
    data: &Vec<u8>,
    slot: u8,
    nb_retry: u32,
    progress: &mut P,
) -> (r: Result<UploadStats, SmpError>)
    requires
        data@.len() <= 0xffffffff,
    ensures
        (match r {
            Ok(stats) => stats.confirmed_blocks == stats.sent_blocks && stats.offset
                == data@.len(),
            Err(_) => true,
        }),
{
    let slot_eff = effective_slot(filename, slot);
    let sha = sha256(data);

    let mut cap = port.mtu();
    if cap > MAX_CHUNK_CAP {
        cap = MAX_CHUNK_CAP;
    }
    let mut st = UploadProgress {
        off: 0,
        try_length: cap,
        retries_left: nb_retry,
        sent_blocks: 0,
        confirmed_blocks: 0,
    };

    loop
        invariant
            data@.len() <= 0xffffffff,
            st.off <= data@.len(),
            st.try_length <= MAX_CHUNK_CAP,
            st.sent_blocks == st.confirmed_blocks,
            st.confirmed_blocks <= st.off,
            st.off < data@.len() || st.confirmed_blocks == 0,
            sha@.len() == 32,
        decreases data@.len() - st.off, st.retries_left, st.try_length,
    {
        // the chunk: at most try_length bytes from the confirmed offset
        let mut chunk_len = st.try_length;
        if chunk_len > data.len() - st.off {
            chunk_len = data.len() - st.off;
        }
        let mut chunk: Vec<u8> = Vec::new();
        push_range(&mut chunk, data, st.off, st.off + chunk_len);

        let req = if st.off == 0 {
            ImageUploadReq {
                image_num: slot_eff,
                off: 0,
                len: Some(data.len() as u32),
                data_sha: Some(sha.clone()),
                upgrade: None,
                data: chunk,
            }
        } else {
            ImageUploadReq {
                image_num: slot_eff,
                off: st.off as u32,
                len: None,
                data_sha: None,
                upgrade: None,
                data: chunk,
            }
        };
        let body = req.encode();
        proof {
            assert(body@ == upload_chunk_bytes(
                data@,
                slot_eff,
                sha@,
                st.off as int,
                st.try_length as int,
            ));
        }

        // one attempt, reduced to an event
        let ev: UploadEvent = match port.transceive(
            NmpOp::Write,
            NmpGroup::Image,
            NmpIdImage::Upload,
            &body,
        ) {
            Ok((req_hdr, rsp_hdr, rsp_body)) => {
                if !check_answer(&req_hdr, &rsp_hdr) {
                    UploadEvent::BadEnvelope
                } else {
                    match parse_rsp_fields(&rsp_body) {
                        Err(e) => UploadEvent::Failed { err: e },
                        Ok(fields) => {
                            match fields.rc {
                                Some(rc) => {
                                    if rc != 0 {
                                        UploadEvent::Rejected { rc }
                                    } else {
                                        UploadEvent::Accepted { rsp_off: fields.off }
                                    }
                                },
                                None => UploadEvent::Accepted { rsp_off: fields.off },
                            }
                        },
                    }
                }
            },
            Err(SmpError::Timeout) => UploadEvent::TimedOut,
            Err(SmpError::TooLargeChunk(reduce)) => UploadEvent::TooLarge { reduce: reduce.0 },
            Err(e) => UploadEvent::Failed { err: e },
        };

        match upload_step(st, ev, data.len()) {
            UploadStep::Fail { err } => {
                return Err(err);
            },
            UploadStep::Resend { next } => {
                st = next;
            },
            UploadStep::Advance { next } => {
                st = next;
                progress.on_progress(st.off as u64, data.len() as u64);
                if st.off == data.len() {
                    return Ok(
                        UploadStats {
                            sent_blocks: st.sent_blocks,
                            confirmed_blocks: st.confirmed_blocks,
                            offset: st.off,
                        },
                    );
                }
                // the next chunk starts fresh: full retry budget, cap back
                // at the transport's MTU
                let mut cap2 = port.mtu();
                if cap2 > MAX_CHUNK_CAP {
                    cap2 = MAX_CHUNK_CAP;
                }
                st = UploadProgress { try_length: cap2, retries_left: nb_retry, ..st };
            },
        }
    }
}

/// Erases an image slot: `Write/Image/Erase` with an optional slot, then
/// the envelope and result-code checks. The sequence id advances for every
/// request that may have reached the wire.
pub fn erase<T: SmpTransportImpl>(port: &mut SmpTransport<T>, slot: Option<u32>) -> (r: Result<
    (),
    SmpError,
>)
    ensures
        (match r {
            Err(SmpError::TooLargeChunk(_)) => final(port).seq_spec() == old(port).seq_spec(),
            _ => final(port).seq_spec() == seq_next(old(port).seq_spec()),
        }),
        (match r {
            Err(SmpError::DeviceError(rc)) => rc != 0,
            _ => true,
        }),
{
    let req = ImageEraseReq { slot };
    let body = req.encode();
    let (req_hdr, rsp_hdr, rsp_body) = match port.transceive(
        NmpOp::Write,
        NmpGroup::Image,
        NmpIdImage::Erase,
        &body,
    ) {
        Ok(t) => t,
        Err(e) => {
            return Err(e);
        },
    };
    if !check_answer(&req_hdr, &rsp_hdr) {
        return Err(SmpError::WrongAnswerTypes);
    }
    let fields = match parse_rsp_fields(&rsp_body) {
        Ok(f) => f,
        Err(SmpError::WrongAnswerTypes) => {
            return Err(SmpError::WrongAnswerTypes);
        },
        Err(_) => {
            return Err(SmpError::ProtocolFraming);
        },
    };
    match fields.rc {
        Some(rc) => {
            if rc != 0 {
                Err(SmpError::DeviceError(rc))
            } else {
                Ok(())
            }
        },
        None => Ok(()),
    }
}

/// Lists the image slots: `Read/Image/State` with an empty map, then the
/// envelope check and the state-response parse.
pub fn list<T: SmpTransportImpl>(port: &mut SmpTransport<T>) -> (r: Result<
    crate::response::ImageStateRsp,
    SmpError,
>)
    ensures
        (match r {
            Err(SmpError::TooLargeChunk(_)) => final(port).seq_spec() == old(port).seq_spec(),
            _ => final(port).seq_spec() == seq_next(old(port).seq_spec()),
        }),
        (match r {
            Ok(rsp) => rsp@.images.len() == rsp.images@.len(),
            _ => true,
        }),
{
    let mut body: Vec<u8> = Vec::new();
    crate::cbor::push_cbor_map_hdr(&mut body, 0);
    let (req_hdr, rsp_hdr, rsp_body) = match port.transceive(
        NmpOp::Read,
        NmpGroup::Image,
        NmpIdImage::State,
        &body,
    ) {
        Ok(t) => t,
        Err(e) => {
            return Err(e);
        },
    };
    if !check_answer(&req_hdr, &rsp_hdr) {
        return Err(SmpError::WrongAnswerTypes);
    }
    match crate::response::parse_image_state(&rsp_body) {
        Ok(rsp) => Ok(rsp),
        Err(SmpError::WrongAnswerTypes) => Err(SmpError::WrongAnswerTypes),
        Err(_) => Err(SmpError::ProtocolFraming),
    }
}

/// Marks the image with `hash` pending (swap on next reset), or permanent
/// when `confirm` is true: `Write/Image/State`, then the envelope and
/// result-code checks.
pub fn test<T: SmpTransportImpl>(
    port: &mut SmpTransport<T>,
    hash: Vec<u8>,
    confirm: Option<bool>,
) -> (r: Result<(), SmpError>)
    requires
        hash@.len() <= 65000,
    ensures
        (match r {
            Err(SmpError::TooLargeChunk(_)) => final(port).seq_spec() == old(port).seq_spec(),
            _ => final(port).seq_spec() == seq_next(old(port).seq_spec()),
        }),
        (match r {
            Err(SmpError::DeviceError(rc)) => rc != 0,
            _ => true,
        }),
{
    let req = ImageStateReq { hash, confirm };
    let body = req.encode();
    let (req_hdr, rsp_hdr, rsp_body) = match port.transceive(
        NmpOp::Write,
        NmpGroup::Image,
        NmpIdImage::State,
        &body,
    ) {
        Ok(t) => t,
        Err(e) => {
            return Err(e);
        },
    };
    if !check_answer(&req_hdr, &rsp_hdr) {
        return Err(SmpError::WrongAnswerTypes);
    }
    let fields = match parse_rsp_fields(&rsp_body) {
        Ok(f) => f,
        Err(SmpError::WrongAnswerTypes) => {
            return Err(SmpError::WrongAnswerTypes);
        },
        Err(_) => {
            return Err(SmpError::ProtocolFraming);
        },
    };
    match fields.rc {
        Some(rc) => {
            if rc != 0 {
                Err(SmpError::DeviceError(rc))
            } else {
                Ok(())
            }
        },
        None => Ok(()),
    }
}

} // verus!
