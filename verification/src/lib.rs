//! Host-side client for the SMP ("simple management protocol") used to manage
//! MCU-class devices: the 8-byte header codec, the CBOR body codecs, the
//! serial wire framing (CRC16, length prefix, base64, line chunking), the
//! transport abstraction with its sequence-id discipline, and the chunked
//! image upload pipeline.

use vstd::prelude::*;

pub mod b64;
pub mod ble;
pub mod bytes;
pub mod cbor;
pub mod errors;
pub mod image;
pub mod nmp_hdr;
pub mod reset;
pub mod response;
pub mod serial;
pub mod transport;

pub use crate::b64::{b64_decode, b64_decode_bytes, b64_encode, b64_encode_bytes};
pub use crate::ble::{
    ble_reduce, ble_reduce_spec, ble_rx_complete, ble_rx_complete_spec, gatt_write_chunks,
    peripheral_matches, peripheral_matches_spec, BluetoothSpecs,
};
pub use crate::bytes::{be16_spec, be16_value};
pub use crate::cbor::{cbor_skip, cbor_skip_spec};
pub use crate::errors::{ErrTooLargeChunk, SmpError};
pub use crate::image::{
    effective_slot, effective_slot_spec, erase, erase_req_bytes, lemma_first_chunk_metadata,
    lemma_mtu_adaptation, lemma_offset_authority, lemma_timeout_retry, loss_percent, sha256,
    sha256_of, state_req_bytes, upload, upload_chunk_bytes, upload_req_bytes, upload_step,
    upload_step_spec, ImageEraseReq, ImageStateReq, ImageUploadReq, ProgressCb, SilentProgress,
    UploadEvent, UploadProgress, UploadStats, UploadStep, MAX_CHUNK_CAP,
};
pub use crate::nmp_hdr::{
    hdr_bytes_spec, hdr_parse_spec, lemma_hdr_roundtrip, NmpGroup, NmpHdr, NmpId, NmpIdDef,
    NmpIdImage, NmpOp,
};
pub use crate::image::list;
pub use crate::reset::reset;
pub use crate::response::{
    answer_matches, check_answer, parse_image_state, parse_rsp_fields, rsp_fields_spec,
    state_rsp_spec, ImageStateEntry, ImageStateEntryView, ImageStateRsp, ImageStateRspView,
    RspFields,
};
pub use crate::serial::{
    crc16_of, crc16_xmodem, decode_serial, decode_serial_spec, encode_request, encode_serial_spec,
    lemma_checksum_rejection, lemma_serial_roundtrip, serial_mtu, serial_mtu_spec, serial_reduce,
    serial_reduce_spec, serial_rx_complete, serial_rx_complete_spec, SerialSpecs,
};
pub use crate::transport::{
    lemma_seq_monotonic, seq_after, seq_next, SmpTransport, SmpTransportImpl,
};

verus! {

} // verus!
