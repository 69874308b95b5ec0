//! Client-side engine for the P50X binary serial protocol spoken by
//! model-railway central control units.
//!
//! The crate is organised around a `Device` handle that owns a
//! byte-oriented `Transport` and a read-ahead buffer.  Every command of
//! the protocol is a method of the `P50XBinary` trait; the bit-packed
//! wire encodings live in `codec` as pure functions, and `P50XReply`
//! classifies the reply bytes.

mod codec;
mod device;
mod mock;
mod protocol;
mod reply;
mod transport;
mod util;

pub use codec::{
    device_status_from_byte, device_status_to_byte, functions_decode, functions_encode,
    lemma_device_status_round_trip, lemma_lok_command_bits, lemma_lok_status_reencode,
    lemma_turnout_command_bits,
    lok_command_bytes, lok_config_decode, lok_status_decode,
    s88_param_encode, sensor_decode, spec_device_status_of_byte, spec_device_status_to_byte,
    spec_hi8, spec_i8_of_byte, spec_lo8, spec_lok_config_byte, spec_lok_speed,
    spec_lok_speed_byte, spec_lok_status_matches, spec_neg_wrap, spec_protocol_of_byte,
    spec_s88_param, spec_turnout_packed, spec_turnout_protocol_byte, turnout_command_bytes,
    turnout_group_decode, turnout_status_decode, DeviceStatus, XLokConfig, XLokOptions,
    XLokStatus, XProtocol, XTurnoutOptions, XTurnoutStatus,
};
pub use device::Device;
pub use mock::MockTransport;
pub use protocol::{
    lemma_chunks_dangling_not_stream, lemma_chunks_not_stream, lemma_u16_le_round_trip,
    spec_command_error, spec_consumed_at_most, spec_exchange, spec_partial_response,
    spec_frame_once, spec_protocol_reply_err, spec_u16_le, spec_u32_le_bytes,
    spec_version_chunks, spec_version_stream, P50XBinary,
};
pub use reply::{spec_reply_of_byte, P50XReply};
pub use transport::{Error, Transport, TransportError};
pub use util::{spec_lower_ascii, spec_truthy, str_to_bool};
