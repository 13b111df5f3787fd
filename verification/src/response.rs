//! Response validation: the envelope rules and the dynamic CBOR map
//! readers that pull the required fields out of a reply while ignoring
//! unknown keys.

use vstd::prelude::*;

use crate::bytes::push_range;
use crate::cbor::{cbor_arg, cbor_arg_spec, cbor_skip, cbor_skip_spec};
use crate::errors::SmpError;
use crate::nmp_hdr::{NmpHdr, NmpOp};

verus! {

/// Whether a response envelope answers a request: same sequence id, same
/// group, and the response op of the request's op.
pub open spec fn answer_matches(req: NmpHdr, rsp: NmpHdr) -> bool {
    &&& rsp.seq == req.seq
    &&& (match req.op {
        NmpOp::Read => rsp.op == NmpOp::ReadRsp,
        NmpOp::Write => rsp.op == NmpOp::WriteRsp,
        _ => false,
    })
    &&& rsp.group == req.group
}

/// Checks a response envelope against its request.
pub fn check_answer(request_header: &NmpHdr, response_header: &NmpHdr) -> (r: bool)
    ensures
        r == answer_matches(*request_header, *response_header),
{
    if response_header.seq != request_header.seq {
        return false;
    }
    let expected_op = match request_header.op {
        NmpOp::Read => NmpOp::ReadRsp,
        NmpOp::Write => NmpOp::WriteRsp,
        _ => {
            return false;
        },
    };
    if response_header.op != expected_op || response_header.group != request_header.group {
        return false;
    }
    true
}

/// The two integer fields an SMP reply may carry at its top level.
#[derive(Clone, Copy, Debug, PartialEq, Eq)]
pub struct RspFields {
    pub rc: Option<u64>,
    pub off: Option<u64>,
}

/// Walks `count` remaining key-value pairs of the top-level response map,
/// collecting `rc` and `off` (their values must be unsigned integers,
/// later occurrences win) and stepping over everything else.
pub open spec fn rsp_fields_loop(data: Seq<u8>, pos: int, count: int, acc: RspFields) -> Result<
    RspFields,
    SmpError,
>
    decreases count,
{
    if count <= 0 {
        Ok(acc)
    } else {
        match cbor_arg_spec(data, pos) {
            None => Err(SmpError::ProtocolFraming),
            Some((klen, kp)) => {
                if data[pos] as int / 32 == 3 {
                    // a text key
                    if kp + klen <= data.len() {
                        let vpos = kp + klen;
                        if klen == 2 && data[kp] == 0x72 && data[kp + 1] == 0x63 {
                            // "rc": the value must be an unsigned integer
                            if vpos < data.len() && data[vpos] as int / 32 == 0 {
                                match cbor_arg_spec(data, vpos) {
                                    Some((v, vnext)) => rsp_fields_loop(
                                        data,
                                        vnext,
                                        count - 1,
                                        RspFields { rc: Some(v), off: acc.off },
                                    ),
                                    None => Err(SmpError::ProtocolFraming),
                                }
                            } else {
                                Err(SmpError::WrongAnswerTypes)
                            }
                        } else if klen == 3 && data[kp] == 0x6f && data[kp + 1] == 0x66 && data[kp
                            + 2] == 0x66 {
                            // "off": the value must be an unsigned integer
                            if vpos < data.len() && data[vpos] as int / 32 == 0 {
                                match cbor_arg_spec(data, vpos) {
                                    Some((v, vnext)) => rsp_fields_loop(
                                        data,
                                        vnext,
                                        count - 1,
                                        RspFields { rc: acc.rc, off: Some(v) },
                                    ),
                                    None => Err(SmpError::ProtocolFraming),
                                }
                            } else {
                                Err(SmpError::WrongAnswerTypes)
                            }
                        } else {
                            // an unknown key: ignore its value
                            match cbor_skip_spec(data, vpos) {
                                Some(vnext) => rsp_fields_loop(data, vnext, count - 1, acc),
                                None => Err(SmpError::ProtocolFraming),
                            }
                        }
                    } else {
                        Err(SmpError::ProtocolFraming)
                    }
                } else {
                    // a non-text key: ignore the pair
                    match cbor_skip_spec(data, pos) {
                        Some(vpos) => match cbor_skip_spec(data, vpos) {
                            Some(vnext) => rsp_fields_loop(data, vnext, count - 1, acc),
                            None => Err(SmpError::ProtocolFraming),
                        },
                        None => Err(SmpError::ProtocolFraming),
                    }
                }
            },
        }
    }
}

/// What a response body denotes to the envelope logic: the `rc` and `off`
/// fields of the top-level map. A well-formed body that is no map carries
/// neither; a body that is not one well-formed item is a framing error.
pub open spec fn rsp_fields_spec(body: Seq<u8>) -> Result<RspFields, SmpError> {
    if body.len() == 0 {
        Err(SmpError::ProtocolFraming)
    } else if body[0] as int / 32 == 5 {
        match cbor_arg_spec(body, 0) {
            Some((n, p)) => rsp_fields_loop(
                body,
                p,
                n as int,
                RspFields { rc: None, off: None },
            ),
            None => Err(SmpError::ProtocolFraming),
        }
    } else {
        match cbor_skip_spec(body, 0) {
            Some(_) => Ok(RspFields { rc: None, off: None }),
            None => Err(SmpError::ProtocolFraming),
        }
    }
}

/// One image slot descriptor of a state response, as parsed values.
pub struct ImageStateEntryView {
    pub slot: u64,
    pub version: Seq<u8>,
    pub hash: Seq<u8>,
    pub bootable: bool,
    pub pending: bool,
    pub confirmed: bool,
    pub active: bool,
    pub permanent: bool,
}

/// One image slot descriptor of a state response: the slot number, the
/// version text and hash bytes as sent, and the state flags. Fields a
/// device omits keep their zero values.
pub struct ImageStateEntry {
    pub slot: u64,
    pub version: Vec<u8>,
    pub hash: Vec<u8>,
    pub bootable: bool,
    pub pending: bool,
    pub confirmed: bool,
    pub active: bool,
    pub permanent: bool,
}

impl View for ImageStateEntry {
    type V = ImageStateEntryView;

    open spec fn view(&self) -> ImageStateEntryView {
        ImageStateEntryView {
            slot: self.slot,
            version: self.version@,
            hash: self.hash@,
            bootable: self.bootable,
            pending: self.pending,
            confirmed: self.confirmed,
            active: self.active,
            permanent: self.permanent,
        }
    }
}

/// A state response, as parsed values.
pub struct ImageStateRspView {
    pub images: Seq<ImageStateEntryView>,
    pub split_status: Option<u64>,
}

/// A state response: the image slot descriptors, with unknown keys
/// ignored, and the split status if the device sent one.
pub struct ImageStateRsp {
    pub images: Vec<ImageStateEntry>,
    pub split_status: Option<u64>,
}

impl View for ImageStateRsp {
    type V = ImageStateRspView;

    open spec fn view(&self) -> ImageStateRspView {
        ImageStateRspView {
            images: self.images@.map_values(|e: ImageStateEntry| e@),
            split_status: self.split_status,
        }
    }
}

/// Whether the text at `kp` (length `klen`) is exactly the key `key`.
pub open spec fn key_at(data: Seq<u8>, kp: int, klen: int, key: Seq<u8>) -> bool {
    klen == key.len() && data.subrange(kp, kp + klen) == key
}

/// Compares the text at `kp` against a key.
fn key_is(data: &Vec<u8>, kp: usize, klen: usize, key: &Vec<u8>) -> (r: bool)
    requires
        kp + klen <= data@.len(),
    ensures
        r == key_at(data@, kp as int, klen as int, key@),
{
    if klen != key.len() {
        proof {
            assert(!key_at(data@, kp as int, klen as int, key@));
        }
        return false;
    }
    let dl = data.len();
    let mut i: usize = 0;
    while i < klen
        invariant
            data@.len() <= usize::MAX,
            kp + klen <= data@.len(),
            klen == key@.len(),
            i <= klen,
            forall|x: int| 0 <= x < i ==> data@[kp + x] == key@[x],
        decreases klen - i,
    {
        if data[kp + i] != key[i] {
            proof {
                assert(data@.subrange(kp as int, kp + klen as int)[i as int] != key@[i as int]);
            }
            return false;
        }
        i = i + 1;
    }
    proof {
        assert(data@.subrange(kp as int, kp + klen as int) =~= key@);
    }
    true
}

/// The UTF-8 bytes of the `images` key.
pub open spec fn key_images() -> Seq<u8> {
    seq![0x69u8, 0x6du8, 0x61u8, 0x67u8, 0x65u8, 0x73u8]
}

/// The UTF-8 bytes of the `splitStatus` key.
pub open spec fn key_split_status() -> Seq<u8> {
    seq![0x73u8, 0x70u8, 0x6cu8, 0x69u8, 0x74u8, 0x53u8, 0x74u8, 0x61u8, 0x74u8, 0x75u8, 0x73u8]
}

/// The UTF-8 bytes of the `slot` key.
pub open spec fn key_ent_slot() -> Seq<u8> {
    seq![0x73u8, 0x6cu8, 0x6fu8, 0x74u8]
}

/// The UTF-8 bytes of the `version` key.
pub open spec fn key_version() -> Seq<u8> {
    seq![0x76u8, 0x65u8, 0x72u8, 0x73u8, 0x69u8, 0x6fu8, 0x6eu8]
}

/// The UTF-8 bytes of the `hash` key.
pub open spec fn key_ent_hash() -> Seq<u8> {
    seq![0x68u8, 0x61u8, 0x73u8, 0x68u8]
}

/// The UTF-8 bytes of the `bootable` key.
pub open spec fn key_bootable() -> Seq<u8> {
    seq![0x62u8, 0x6fu8, 0x6fu8, 0x74u8, 0x61u8, 0x62u8, 0x6cu8, 0x65u8]
}

/// The UTF-8 bytes of the `pending` key.
pub open spec fn key_pending() -> Seq<u8> {
    seq![0x70u8, 0x65u8, 0x6eu8, 0x64u8, 0x69u8, 0x6eu8, 0x67u8]
}

/// The UTF-8 bytes of the `confirmed` key.
pub open spec fn key_confirmed() -> Seq<u8> {
    seq![0x63u8, 0x6fu8, 0x6eu8, 0x66u8, 0x69u8, 0x72u8, 0x6du8, 0x65u8, 0x64u8]
}

/// The UTF-8 bytes of the `active` key.
pub open spec fn key_active() -> Seq<u8> {
    seq![0x61u8, 0x63u8, 0x74u8, 0x69u8, 0x76u8, 0x65u8]
}

/// The UTF-8 bytes of the `permanent` key.
pub open spec fn key_permanent() -> Seq<u8> {
    seq![0x70u8, 0x65u8, 0x72u8, 0x6du8, 0x61u8, 0x6eu8, 0x65u8, 0x6eu8, 0x74u8]
}

/// An entry field with no value yet.
pub open spec fn empty_entry() -> ImageStateEntryView {
    ImageStateEntryView {
        slot: 0,
        version: Seq::empty(),
        hash: Seq::empty(),
        bootable: false,
        pending: false,
        confirmed: false,
        active: false,
        permanent: false,
    }
}

/// A boolean item at `pos`: `0xf4` or `0xf5`.
pub open spec fn bool_item_spec(data: Seq<u8>, pos: int) -> Option<(bool, int)> {
    if 0 <= pos < data.len() {
        if data[pos] == 0xf4 {
            Some((false, pos + 1))
        } else if data[pos] == 0xf5 {
            Some((true, pos + 1))
        } else {
            None
        }
    } else {
        None
    }
}

/// Walks `count` remaining pairs of one image slot descriptor map.
pub open spec fn image_entry_loop(
    data: Seq<u8>,
    pos: int,
    count: int,
    acc: ImageStateEntryView,
) -> Result<(ImageStateEntryView, int), SmpError>
    decreases count,
{
    if count <= 0 {
        Ok((acc, pos))
    } else {
        match cbor_arg_spec(data, pos) {
            None => Err(SmpError::ProtocolFraming),
            Some((klen, kp)) => {
                if data[pos] as int / 32 == 3 && kp + klen <= data.len() {
                    let vpos = kp + klen;
                    if key_at(data, kp, klen as int, key_ent_slot()) {
                        if vpos < data.len() && data[vpos] as int / 32 == 0 {
                            match cbor_arg_spec(data, vpos) {
                                Some((v, vnext)) => image_entry_loop(
                                    data,
                                    vnext,
                                    count - 1,
                                    ImageStateEntryView { slot: v, ..acc },
                                ),
                                None => Err(SmpError::ProtocolFraming),
                            }
                        } else {
                            Err(SmpError::WrongAnswerTypes)
                        }
                    } else if key_at(data, kp, klen as int, key_version()) {
                        if vpos < data.len() && data[vpos] as int / 32 == 3 {
                            match cbor_arg_spec(data, vpos) {
                                Some((n, p)) => {
                                    if p + n <= data.len() {
                                        image_entry_loop(
                                            data,
                                            p + n,
                                            count - 1,
                                            ImageStateEntryView {
                                                version: data.subrange(p, p + n),
                                                ..acc
                                            },
                                        )
                                    } else {
                                        Err(SmpError::ProtocolFraming)
                                    }
                                },
                                None => Err(SmpError::ProtocolFraming),
                            }
                        } else {
                            Err(SmpError::WrongAnswerTypes)
                        }
                    } else if key_at(data, kp, klen as int, key_ent_hash()) {
                        if vpos < data.len() && data[vpos] as int / 32 == 2 {
                            match cbor_arg_spec(data, vpos) {
                                Some((n, p)) => {
                                    if p + n <= data.len() {
                                        image_entry_loop(
                                            data,
                                            p + n,
                                            count - 1,
                                            ImageStateEntryView {
                                                hash: data.subrange(p, p + n),
                                                ..acc
                                            },
                                        )
                                    } else {
                                        Err(SmpError::ProtocolFraming)
                                    }
                                },
                                None => Err(SmpError::ProtocolFraming),
                            }
                        } else {
                            Err(SmpError::WrongAnswerTypes)
                        }
                    } else if key_at(data, kp, klen as int, key_bootable()) {
                        match bool_item_spec(data, vpos) {
                            Some((v, vnext)) => image_entry_loop(
                                data,
                                vnext,
                                count - 1,
                                ImageStateEntryView { bootable: v, ..acc },
                            ),
                            None => Err(SmpError::WrongAnswerTypes),
                        }
                    } else if key_at(data, kp, klen as int, key_pending()) {
                        match bool_item_spec(data, vpos) {
                            Some((v, vnext)) => image_entry_loop(
                                data,
                                vnext,
                                count - 1,
                                ImageStateEntryView { pending: v, ..acc },
                            ),
                            None => Err(SmpError::WrongAnswerTypes),
                        }
                    } else if key_at(data, kp, klen as int, key_confirmed()) {
                        match bool_item_spec(data, vpos) {
                            Some((v, vnext)) => image_entry_loop(
                                data,
                                vnext,
                                count - 1,
                                ImageStateEntryView { confirmed: v, ..acc },
                            ),
                            None => Err(SmpError::WrongAnswerTypes),
                        }
                    } else if key_at(data, kp, klen as int, key_active()) {
                        match bool_item_spec(data, vpos) {
                            Some((v, vnext)) => image_entry_loop(
                                data,
                                vnext,
                                count - 1,
                                ImageStateEntryView { active: v, ..acc },
                            ),
                            None => Err(SmpError::WrongAnswerTypes),
                        }
                    } else if key_at(data, kp, klen as int, key_permanent()) {
                        match bool_item_spec(data, vpos) {
                            Some((v, vnext)) => image_entry_loop(
                                data,
                                vnext,
                                count - 1,
                                ImageStateEntryView { permanent: v, ..acc },
                            ),
                            None => Err(SmpError::WrongAnswerTypes),
                        }
                    } else {
                        match cbor_skip_spec(data, vpos) {
                            Some(vnext) => image_entry_loop(data, vnext, count - 1, acc),
                            None => Err(SmpError::ProtocolFraming),
                        }
                    }
                } else {
                    match cbor_skip_spec(data, pos) {
                        Some(vpos) => match cbor_skip_spec(data, vpos) {
                            Some(vnext) => image_entry_loop(data, vnext, count - 1, acc),
                            None => Err(SmpError::ProtocolFraming),
                        },
                        None => Err(SmpError::ProtocolFraming),
                    }
                }
            },
        }
    }
}

/// One image slot descriptor: a map at `pos`.
pub open spec fn image_entry_spec(data: Seq<u8>, pos: int) -> Result<
    (ImageStateEntryView, int),
    SmpError,
> {
    if 0 <= pos < data.len() && data[pos] as int / 32 == 5 {
        match cbor_arg_spec(data, pos) {
            Some((n, p)) => image_entry_loop(data, p, n as int, empty_entry()),
            None => Err(SmpError::ProtocolFraming),
        }
    } else {
        Err(SmpError::WrongAnswerTypes)
    }
}

/// Walks `count` remaining elements of the `images` array.
pub open spec fn images_loop(
    data: Seq<u8>,
    pos: int,
    count: int,
    acc: Seq<ImageStateEntryView>,
) -> Result<(Seq<ImageStateEntryView>, int), SmpError>
    decreases count,
{
    if count <= 0 {
        Ok((acc, pos))
    } else {
        match image_entry_spec(data, pos) {
            Ok((entry, next)) => images_loop(data, next, count - 1, acc.push(entry)),
            Err(e) => Err(e),
        }
    }
}

/// Walks `count` remaining pairs of the top-level state-response map.
pub open spec fn state_rsp_loop(
    data: Seq<u8>,
    pos: int,
    count: int,
    acc: ImageStateRspView,
) -> Result<ImageStateRspView, SmpError>
    decreases count,
{
    if count <= 0 {
        Ok(acc)
    } else {
        match cbor_arg_spec(data, pos) {
            None => Err(SmpError::ProtocolFraming),
            Some((klen, kp)) => {
                if data[pos] as int / 32 == 3 && kp + klen <= data.len() {
                    let vpos = kp + klen;
                    if key_at(data, kp, klen as int, key_images()) {
                        if vpos < data.len() && data[vpos] as int / 32 == 4 {
                            match cbor_arg_spec(data, vpos) {
                                Some((n, p)) => match images_loop(data, p, n as int, Seq::empty()) {
                                    Ok((entries, next)) => state_rsp_loop(
                                        data,
                                        next,
                                        count - 1,
                                        ImageStateRspView { images: entries, ..acc },
                                    ),
                                    Err(e) => Err(e),
                                },
                                None => Err(SmpError::ProtocolFraming),
                            }
                        } else {
                            Err(SmpError::WrongAnswerTypes)
                        }
                    } else if key_at(data, kp, klen as int, key_split_status()) {
                        if vpos < data.len() && data[vpos] as int / 32 == 0 {
                            match cbor_arg_spec(data, vpos) {
                                Some((v, vnext)) => state_rsp_loop(
                                    data,
                                    vnext,
                                    count - 1,
                                    ImageStateRspView { split_status: Some(v), ..acc },
                                ),
                                None => Err(SmpError::ProtocolFraming),
                            }
                        } else {
                            Err(SmpError::WrongAnswerTypes)
                        }
                    } else {
                        match cbor_skip_spec(data, vpos) {
                            Some(vnext) => state_rsp_loop(data, vnext, count - 1, acc),
                            None => Err(SmpError::ProtocolFraming),
                        }
                    }
                } else {
                    match cbor_skip_spec(data, pos) {
                        Some(vpos) => match cbor_skip_spec(data, vpos) {
                            Some(vnext) => state_rsp_loop(data, vnext, count - 1, acc),
                            None => Err(SmpError::ProtocolFraming),
                        },
                        None => Err(SmpError::ProtocolFraming),
                    }
                }
            },
        }
    }
}

/// What a state-response body denotes: the image descriptors under the
/// `images` key and the optional `splitStatus`, everything else ignored.
pub open spec fn state_rsp_spec(body: Seq<u8>) -> Result<ImageStateRspView, SmpError> {
    if body.len() == 0 {
        Err(SmpError::ProtocolFraming)
    } else if body[0] as int / 32 == 5 {
        match cbor_arg_spec(body, 0) {
            Some((n, p)) => state_rsp_loop(
                body,
                p,
                n as int,
                ImageStateRspView { images: Seq::empty(), split_status: None },
            ),
            None => Err(SmpError::ProtocolFraming),
        }
    } else {
        Err(SmpError::WrongAnswerTypes)
    }
}

/// Reads the `rc` and `off` fields out of a response body.
pub fn parse_rsp_fields(body: &Vec<u8>) -> (r: Result<RspFields, SmpError>)
    ensures
        r == rsp_fields_spec(body@),
{
    if body.len() == 0 {
        return Err(SmpError::ProtocolFraming);
    }
    if body[0] / 32 != 5 {
        return match cbor_skip(body, 0) {
            Some(_) => Ok(RspFields { rc: None, off: None }),
            None => Err(SmpError::ProtocolFraming),
        };
    }
    let (count, start) = match cbor_arg(body, 0) {
        Some((n, p)) => (n, p),
        None => {
            return Err(SmpError::ProtocolFraming);
        },
    };
    let mut acc = RspFields { rc: None, off: None };
    let mut pos: usize = start;
    let mut remaining: u64 = count;
    while remaining > 0
        invariant
            pos <= body@.len(),
            rsp_fields_spec(body@) == rsp_fields_loop(
                body@,
                pos as int,
                remaining as int,
                acc,
            ),
        decreases remaining,
    {
        let (klen, kp) = match cbor_arg(body, pos) {
            Some(a) => a,
            None => {
                return Err(SmpError::ProtocolFraming);
            },
        };
        if body[pos] / 32 == 3 {
            if klen <= (body.len() - kp) as u64 {
                let vpos = kp + (klen as usize);
                if klen == 2 && body[kp] == 0x72 && body[kp + 1] == 0x63 {
                    if vpos < body.len() && body[vpos] / 32 == 0 {
                        match cbor_arg(body, vpos) {
                            Some((v, vnext)) => {
                                acc = RspFields { rc: Some(v), off: acc.off };
                                pos = vnext;
                            },
                            None => {
                                return Err(SmpError::ProtocolFraming);
                            },
                        }
                    } else {
                        return Err(SmpError::WrongAnswerTypes);
                    }
                } else if klen == 3 && body[kp] == 0x6f && body[kp + 1] == 0x66 && body[kp + 2]
                    == 0x66 {
                    if vpos < body.len() && body[vpos] / 32 == 0 {
                        match cbor_arg(body, vpos) {
                            Some((v, vnext)) => {
                                acc = RspFields { rc: acc.rc, off: Some(v) };
                                pos = vnext;
                            },
                            None => {
                                return Err(SmpError::ProtocolFraming);
                            },
                        }
                    } else {
                        return Err(SmpError::WrongAnswerTypes);
                    }
                } else {
                    match cbor_skip(body, vpos) {
                        Some(vnext) => {
                            pos = vnext;
                        },
                        None => {
                            return Err(SmpError::ProtocolFraming);
                        },
                    }
                }
            } else {
                return Err(SmpError::ProtocolFraming);
            }
        } else {
            match cbor_skip(body, pos) {
                Some(vpos) => {
                    match cbor_skip(body, vpos) {
                        Some(vnext) => {
                            pos = vnext;
                        },
                        None => {
                            return Err(SmpError::ProtocolFraming);
                        },
                    }
                },
                None => {
                    return Err(SmpError::ProtocolFraming);
                },
            }
        }
        remaining = remaining - 1;
    }
    Ok(acc)
}

/// Reads one boolean item.
fn parse_bool_item(data: &Vec<u8>, pos: usize) -> (r: Option<(bool, usize)>)
    ensures
        match r {
            Some((v, p)) => bool_item_spec(data@, pos as int) == Some((v, p as int)) && pos < p
                <= data@.len(),
            None => bool_item_spec(data@, pos as int) is None,
        },
{
    if pos >= data.len() {
        return None;
    }
    if data[pos] == 0xf4 {
        Some((false, pos + 1))
    } else if data[pos] == 0xf5 {
        Some((true, pos + 1))
    } else {
        None
    }
}

/// Reads one image slot descriptor map.
fn parse_image_entry(data: &Vec<u8>, pos: usize) -> (r: Result<(ImageStateEntry, usize), SmpError>)
    requires
        pos <= data@.len(),
    ensures
        match r {
            Ok((e, p)) => image_entry_spec(data@, pos as int) == Ok::<
                (ImageStateEntryView, int),
                SmpError,
            >((e@, p as int)) && p <= data@.len(),
            Err(e) => image_entry_spec(data@, pos as int) == Err::<
                (ImageStateEntryView, int),
                SmpError,
            >(e),
        },
{
    if pos >= data.len() || data[pos] / 32 != 5 {
        return Err(SmpError::WrongAnswerTypes);
    }
    let (count, start) = match cbor_arg(data, pos) {
        Some(a) => a,
        None => {
            return Err(SmpError::ProtocolFraming);
        },
    };
    let mut acc = ImageStateEntry {
        slot: 0,
        version: Vec::new(),
        hash: Vec::new(),
        bootable: false,
        pending: false,
        confirmed: false,
        active: false,
        permanent: false,
    };
    let mut cur: usize = start;
    let mut remaining: u64 = count;
    proof {
        assert(acc@ == empty_entry());
    }
    while remaining > 0
        invariant
            cur <= data@.len(),
            image_entry_spec(data@, pos as int) == image_entry_loop(
                data@,
                cur as int,
                remaining as int,
                acc@,
            ),
        decreases remaining,
    {
        let (klen, kp) = match cbor_arg(data, cur) {
            Some(a) => a,
            None => {
                return Err(SmpError::ProtocolFraming);
            },
        };
        if data[cur] / 32 == 3 && klen <= (data.len() - kp) as u64 {
            let klen_us = klen as usize;
            let vpos = kp + klen_us;
            let k_slot = vec![0x73u8, 0x6cu8, 0x6fu8, 0x74u8];
            let k_version = vec![0x76u8, 0x65u8, 0x72u8, 0x73u8, 0x69u8, 0x6fu8, 0x6eu8];
            let k_hash = vec![0x68u8, 0x61u8, 0x73u8, 0x68u8];
            let k_bootable = vec![0x62u8, 0x6fu8, 0x6fu8, 0x74u8, 0x61u8, 0x62u8, 0x6cu8, 0x65u8];
            let k_pending = vec![0x70u8, 0x65u8, 0x6eu8, 0x64u8, 0x69u8, 0x6eu8, 0x67u8];
            let k_confirmed = vec![
                0x63u8,
                0x6fu8,
                0x6eu8,
                0x66u8,
                0x69u8,
                0x72u8,
                0x6du8,
                0x65u8,
                0x64u8,
            ];
            let k_active = vec![0x61u8, 0x63u8, 0x74u8, 0x69u8, 0x76u8, 0x65u8];
            let k_permanent = vec![
                0x70u8,
                0x65u8,
                0x72u8,
                0x6du8,
                0x61u8,
                0x6eu8,
                0x65u8,
                0x6eu8,
                0x74u8,
            ];
            proof {
                assert(k_slot@ =~= key_ent_slot());
                assert(k_version@ =~= key_version());
                assert(k_hash@ =~= key_ent_hash());
                assert(k_bootable@ =~= key_bootable());
                assert(k_pending@ =~= key_pending());
                assert(k_confirmed@ =~= key_confirmed());
                assert(k_active@ =~= key_active());
                assert(k_permanent@ =~= key_permanent());
            }
            if key_is(data, kp, klen_us, &k_slot) {
                if vpos < data.len() && data[vpos] / 32 == 0 {
                    match cbor_arg(data, vpos) {
                        Some((v, vnext)) => {
                            acc.slot = v;
                            cur = vnext;
                        },
                        None => {
                            return Err(SmpError::ProtocolFraming);
                        },
                    }
                } else {
                    return Err(SmpError::WrongAnswerTypes);
                }
            } else if key_is(data, kp, klen_us, &k_version) {
                if vpos < data.len() && data[vpos] / 32 == 3 {
                    match cbor_arg(data, vpos) {
                        Some((n, p)) => {
                            if n <= (data.len() - p) as u64 {
                                let mut text: Vec<u8> = Vec::new();
                                push_range(&mut text, data, p, p + (n as usize));
                                acc.version = text;
                                cur = p + (n as usize);
                            } else {
                                return Err(SmpError::ProtocolFraming);
                            }
                        },
                        None => {
                            return Err(SmpError::ProtocolFraming);
                        },
                    }
                } else {
                    return Err(SmpError::WrongAnswerTypes);
                }
            } else if key_is(data, kp, klen_us, &k_hash) {
                if vpos < data.len() && data[vpos] / 32 == 2 {
                    match cbor_arg(data, vpos) {
                        Some((n, p)) => {
                            if n <= (data.len() - p) as u64 {
                                let mut bytes: Vec<u8> = Vec::new();
                                push_range(&mut bytes, data, p, p + (n as usize));
                                acc.hash = bytes;
                                cur = p + (n as usize);
                            } else {
                                return Err(SmpError::ProtocolFraming);
                            }
                        },
                        None => {
                            return Err(SmpError::ProtocolFraming);
                        },
                    }
                } else {
                    return Err(SmpError::WrongAnswerTypes);
                }
            } else if key_is(data, kp, klen_us, &k_bootable) {
                match parse_bool_item(data, vpos) {
                    Some((v, vnext)) => {
                        acc.bootable = v;
                        cur = vnext;
                    },
                    None => {
                        return Err(SmpError::WrongAnswerTypes);
                    },
                }
            } else if key_is(data, kp, klen_us, &k_pending) {
                match parse_bool_item(data, vpos) {
                    Some((v, vnext)) => {
                        acc.pending = v;
                        cur = vnext;
                    },
                    None => {
                        return Err(SmpError::WrongAnswerTypes);
                    },
                }
            } else if key_is(data, kp, klen_us, &k_confirmed) {
                match parse_bool_item(data, vpos) {
                    Some((v, vnext)) => {
                        acc.confirmed = v;
                        cur = vnext;
                    },
                    None => {
                        return Err(SmpError::WrongAnswerTypes);
                    },
                }
            } else if key_is(data, kp, klen_us, &k_active) {
                match parse_bool_item(data, vpos) {
                    Some((v, vnext)) => {
                        acc.active = v;
                        cur = vnext;
                    },
                    None => {
                        return Err(SmpError::WrongAnswerTypes);
                    },
                }
            } else if key_is(data, kp, klen_us, &k_permanent) {
                match parse_bool_item(data, vpos) {
                    Some((v, vnext)) => {
                        acc.permanent = v;
                        cur = vnext;
                    },
                    None => {
                        return Err(SmpError::WrongAnswerTypes);
                    },
                }
            } else {
                match cbor_skip(data, vpos) {
                    Some(vnext) => {
                        cur = vnext;
                    },
                    None => {
                        return Err(SmpError::ProtocolFraming);
                    },
                }
            }
        } else {
            match cbor_skip(data, cur) {
                Some(vpos) => {
                    match cbor_skip(data, vpos) {
                        Some(vnext) => {
                            cur = vnext;
                        },
                        None => {
                            return Err(SmpError::ProtocolFraming);
                        },
                    }
                },
                None => {
                    return Err(SmpError::ProtocolFraming);
                },
            }
        }
        remaining = remaining - 1;
    }
    Ok((acc, cur))
}

/// Parses a state-response body into the image descriptors and the split
/// status, ignoring unknown keys.
pub fn parse_image_state(body: &Vec<u8>) -> (r: Result<ImageStateRsp, SmpError>)
    ensures
        match r {
            Ok(v) => state_rsp_spec(body@) == Ok::<ImageStateRspView, SmpError>(v@),
            Err(e) => state_rsp_spec(body@) == Err::<ImageStateRspView, SmpError>(e),
        },
{
    if body.len() == 0 {
        return Err(SmpError::ProtocolFraming);
    }
    if body[0] / 32 != 5 {
        return Err(SmpError::WrongAnswerTypes);
    }
    let (count, start) = match cbor_arg(body, 0) {
        Some(a) => a,
        None => {
            return Err(SmpError::ProtocolFraming);
        },
    };
    let mut acc = ImageStateRsp { images: Vec::new(), split_status: None };
    let mut cur: usize = start;
    let mut remaining: u64 = count;
    proof {
        assert(acc@.images =~= Seq::<ImageStateEntryView>::empty());
    }
    while remaining > 0
        invariant
            cur <= body@.len(),
            state_rsp_spec(body@) == state_rsp_loop(body@, cur as int, remaining as int, acc@),
        decreases remaining,
    {
        let (klen, kp) = match cbor_arg(body, cur) {
            Some(a) => a,
            None => {
                return Err(SmpError::ProtocolFraming);
            },
        };
        if body[cur] / 32 == 3 && klen <= (body.len() - kp) as u64 {
            let klen_us = klen as usize;
            let vpos = kp + klen_us;
            let k_images = vec![0x69u8, 0x6du8, 0x61u8, 0x67u8, 0x65u8, 0x73u8];
            let k_split = vec![
                0x73u8,
                0x70u8,
                0x6cu8,
                0x69u8,
                0x74u8,
                0x53u8,
                0x74u8,
                0x61u8,
                0x74u8,
                0x75u8,
                0x73u8,
            ];
            proof {
                assert(k_images@ =~= key_images());
                assert(k_split@ =~= key_split_status());
            }
            if key_is(body, kp, klen_us, &k_images) {
                if vpos < body.len() && body[vpos] / 32 == 4 {
                    let (n, p) = match cbor_arg(body, vpos) {
                        Some(a) => a,
                        None => {
                            return Err(SmpError::ProtocolFraming);
                        },
                    };
                    let mut entries: Vec<ImageStateEntry> = Vec::new();
                    let mut epos: usize = p;
                    let mut eleft: u64 = n;
                    proof {
                        assert(entries@.map_values(|e: ImageStateEntry| e@) =~= Seq::<
                            ImageStateEntryView,
                        >::empty());
                    }
                    while eleft > 0
                        invariant
                            epos <= body@.len(),
                            remaining >= 1,
                            state_rsp_spec(body@) == (match images_loop(
                                body@,
                                epos as int,
                                eleft as int,
                                entries@.map_values(|e: ImageStateEntry| e@),
                            ) {
                                Ok(pair) => state_rsp_loop(
                                    body@,
                                    pair.1,
                                    remaining - 1,
                                    ImageStateRspView {
                                        images: pair.0,
                                        split_status: acc@.split_status,
                                    },
                                ),
                                Err(e) => Err(e),
                            }),
                        decreases eleft,
                    {
                        let ghost before = entries@.map_values(|e: ImageStateEntry| e@);
                        match parse_image_entry(body, epos) {
                            Ok((entry, next)) => {
                                entries.push(entry);
                                epos = next;
                                proof {
                                    assert(entries@.map_values(|e: ImageStateEntry| e@)
                                        =~= before.push(entries@[entries@.len() - 1]@));
                                }
                            },
                            Err(e) => {
                                return Err(e);
                            },
                        }
                        eleft = eleft - 1;
                    }
                    acc.images = entries;
                    cur = epos;
                } else {
                    return Err(SmpError::WrongAnswerTypes);
                }
            } else if key_is(body, kp, klen_us, &k_split) {
                if vpos < body.len() && body[vpos] / 32 == 0 {
                    match cbor_arg(body, vpos) {
                        Some((v, vnext)) => {
                            acc.split_status = Some(v);
                            cur = vnext;
                        },
                        None => {
                            return Err(SmpError::ProtocolFraming);
                        },
                    }
                } else {
                    return Err(SmpError::WrongAnswerTypes);
                }
            } else {
                match cbor_skip(body, vpos) {
                    Some(vnext) => {
                        cur = vnext;
                    },
                    None => {
                        return Err(SmpError::ProtocolFraming);
                    },
                }
            }
        } else {
            match cbor_skip(body, cur) {
                Some(vpos) => {
                    match cbor_skip(body, vpos) {
                        Some(vnext) => {
                            cur = vnext;
                        },
                        None => {
                            return Err(SmpError::ProtocolFraming);
                        },
                    }
                },
                None => {
                    return Err(SmpError::ProtocolFraming);
                },
            }
        }
        remaining = remaining - 1;
    }
    Ok(acc)
}

} // verus!
