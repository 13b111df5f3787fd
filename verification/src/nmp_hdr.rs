//! The 8-byte SMP header: operations, groups, command ids, and the exact
//! wire encoding (big-endian multi-byte fields).

use vstd::prelude::*;

use crate::bytes::{be16_spec, be16_value, lemma_be16_roundtrip, push_be16, read_be16};
use crate::errors::SmpError;

verus! {

/// The operation carried in the low three bits of the first header byte.
#[derive(Clone, Copy, Debug, PartialEq, Eq, Structural)]
pub enum NmpOp {
    Read,
    ReadRsp,
    Write,
    WriteRsp,
}

impl NmpOp {
    /// The wire value of the operation.
    pub open spec fn to_u8_spec(self) -> u8 {
        match self {
            NmpOp::Read => 0,
            NmpOp::ReadRsp => 1,
            NmpOp::Write => 2,
            NmpOp::WriteRsp => 3,
        }
    }

    pub fn to_u8(self) -> (r: u8)
        ensures
            r == self.to_u8_spec(),
    {
        match self {
            NmpOp::Read => 0,
            NmpOp::ReadRsp => 1,
            NmpOp::Write => 2,
            NmpOp::WriteRsp => 3,
        }
    }
}

/// The operation denoted by a first header byte, if any: only the four wire
/// values 0 through 3 are valid.
pub open spec fn op_from_u8_spec(b: u8) -> Option<NmpOp> {
    if b == 0 {
        Some(NmpOp::Read)
    } else if b == 1 {
        Some(NmpOp::ReadRsp)
    } else if b == 2 {
        Some(NmpOp::Write)
    } else if b == 3 {
        Some(NmpOp::WriteRsp)
    } else {
        None
    }
}

pub fn op_from_u8(b: u8) -> (r: Option<NmpOp>)
    ensures
        r == op_from_u8_spec(b),
{
    if b == 0 {
        Some(NmpOp::Read)
    } else if b == 1 {
        Some(NmpOp::ReadRsp)
    } else if b == 2 {
        Some(NmpOp::Write)
    } else if b == 3 {
        Some(NmpOp::WriteRsp)
    } else {
        None
    }
}

/// The command group, a big-endian `u16` on the wire.
#[derive(Clone, Copy, Debug, PartialEq, Eq, Structural)]
pub enum NmpGroup {
    Default,
    Image,
}

impl NmpGroup {
    /// The wire value of the group.
    pub open spec fn to_u16_spec(self) -> u16 {
        match self {
            NmpGroup::Default => 0,
            NmpGroup::Image => 1,
        }
    }

    pub fn to_u16(self) -> (r: u16)
        ensures
            r == self.to_u16_spec(),
    {
        match self {
            NmpGroup::Default => 0,
            NmpGroup::Image => 1,
        }
    }
}

/// The group denoted by a wire value, if it is one this client speaks.
pub open spec fn group_from_u16_spec(v: u16) -> Option<NmpGroup> {
    if v == 0 {
        Some(NmpGroup::Default)
    } else if v == 1 {
        Some(NmpGroup::Image)
    } else {
        None
    }
}

pub fn group_from_u16(v: u16) -> (r: Option<NmpGroup>)
    ensures
        r == group_from_u16_spec(v),
{
    if v == 0 {
        Some(NmpGroup::Default)
    } else if v == 1 {
        Some(NmpGroup::Image)
    } else {
        None
    }
}

/// A command id within a group.
pub trait NmpId {
    /// The wire value of the command id.
    spec fn id_spec(&self) -> u8;

    fn to_u8(&self) -> (r: u8)
        ensures
            r == self.id_spec(),
    ;
}

/// Commands of the `Default` group.
#[derive(Clone, Copy, Debug, PartialEq, Eq, Structural)]
pub enum NmpIdDef {
    Reset,
}

impl NmpId for NmpIdDef {
    open spec fn id_spec(&self) -> u8 {
        0
    }

    fn to_u8(&self) -> (r: u8) {
        0
    }
}

/// Commands of the `Image` group.
#[derive(Clone, Copy, Debug, PartialEq, Eq, Structural)]
pub enum NmpIdImage {
    State,
    Upload,
    Erase,
}

impl NmpId for NmpIdImage {
    open spec fn id_spec(&self) -> u8 {
        match *self {
            NmpIdImage::State => 0,
            NmpIdImage::Upload => 1,
            NmpIdImage::Erase => 5,
        }
    }

    fn to_u8(&self) -> (r: u8) {
        match *self {
            NmpIdImage::State => 0,
            NmpIdImage::Upload => 1,
            NmpIdImage::Erase => 5,
        }
    }
}

/// A raw command id stands for itself.
impl NmpId for u8 {
    open spec fn id_spec(&self) -> u8 {
        *self
    }

    fn to_u8(&self) -> (r: u8) {
        *self
    }
}

/// The SMP header. Multi-byte fields are big-endian on the wire.
#[derive(Clone, Copy, Debug, PartialEq, Eq, Structural)]
pub struct NmpHdr {
    pub op: NmpOp,
    pub flags: u8,
    pub len: u16,
    pub group: NmpGroup,
    pub seq: u8,
    pub id: u8,
}

/// The exact 8-byte wire image of a header.
pub open spec fn hdr_bytes_spec(h: NmpHdr) -> Seq<u8> {
    seq![h.op.to_u8_spec(), h.flags] + be16_spec(h.len) + be16_spec(h.group.to_u16_spec())
        + seq![h.seq, h.id]
}

/// The header denoted by the first 8 bytes of `data`: fails when fewer than
/// 8 bytes are present, when the op byte is outside 0 through 3, or when the
/// group is not one this client speaks.
pub open spec fn hdr_parse_spec(data: Seq<u8>) -> Result<NmpHdr, SmpError> {
    if data.len() < 8 {
        Err(SmpError::MalformedHeader)
    } else {
        match (op_from_u8_spec(data[0]), group_from_u16_spec(be16_value(data[4], data[5]))) {
            (Some(op), Some(group)) => Ok(
                NmpHdr {
                    op,
                    flags: data[1],
                    len: be16_value(data[2], data[3]),
                    group,
                    seq: data[6],
                    id: data[7],
                },
            ),
            _ => Err(SmpError::MalformedHeader),
        }
    }
}

impl NmpHdr {
    /// A fresh request header: `len` and `seq` are zero until the client
    /// fills them in before serialization.
    pub fn new_req<I: NmpId>(op: NmpOp, group: NmpGroup, id: I) -> (r: NmpHdr)
        ensures
            r == (NmpHdr { op, flags: 0, len: 0, group, seq: 0, id: id.id_spec() }),
    {
        NmpHdr { op, flags: 0, len: 0, group, seq: 0, id: id.to_u8() }
    }

    /// Encodes the header into its 8 wire bytes.
    pub fn serialize(&self) -> (r: Vec<u8>)
        ensures
            r@ == hdr_bytes_spec(*self),
            r@.len() == 8,
    {
        let mut out: Vec<u8> = Vec::new();
        out.push(self.op.to_u8());
        out.push(self.flags);
        push_be16(&mut out, self.len);
        push_be16(&mut out, self.group.to_u16());
        out.push(self.seq);
        out.push(self.id);
        assert(out@ =~= hdr_bytes_spec(*self));
        out
    }

    /// Decodes a header from the first 8 bytes of `data`.
    pub fn deserialize(data: &Vec<u8>) -> (r: Result<NmpHdr, SmpError>)
        ensures
            r == hdr_parse_spec(data@),
    {
        if data.len() < 8 {
            return Err(SmpError::MalformedHeader);
        }
        let op = match op_from_u8(data[0]) {
            Some(op) => op,
            None => {
                return Err(SmpError::MalformedHeader);
            },
        };
        let group = match group_from_u16(read_be16(data[4], data[5])) {
            Some(group) => group,
            None => {
                return Err(SmpError::MalformedHeader);
            },
        };
        Ok(
            NmpHdr {
                op,
                flags: data[1],
                len: read_be16(data[2], data[3]),
                group,
                seq: data[6],
                id: data[7],
            },
        )
    }
}

/// Header round-trip: parsing the wire image of any header, whatever bytes
/// follow it, gives back that header.
pub proof fn lemma_hdr_roundtrip(h: NmpHdr, rest: Seq<u8>)
    ensures
        hdr_parse_spec(hdr_bytes_spec(h) + rest) == Ok::<NmpHdr, SmpError>(h),
{
    let data = hdr_bytes_spec(h) + rest;
    assert(data[0] == h.op.to_u8_spec());
    assert(data[1] == h.flags);
    assert(data[2] == be16_spec(h.len)[0] && data[3] == be16_spec(h.len)[1]);
    assert(data[4] == be16_spec(h.group.to_u16_spec())[0]);
    assert(data[5] == be16_spec(h.group.to_u16_spec())[1]);
    assert(data[6] == h.seq);
    assert(data[7] == h.id);
    lemma_be16_roundtrip(h.len);
    lemma_be16_roundtrip(h.group.to_u16_spec());
}

} // verus!
