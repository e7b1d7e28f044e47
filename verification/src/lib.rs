//! A verified streaming frame engine for a lightweight telemetry wire
//! protocol: binary frame layout, incremental checksum, a resynchronizing
//! decoder that turns noisy byte streams into validated frames, and the
//! per-link sequencing that a connection layers on top.
use vstd::prelude::*;

pub mod byte_buf;
pub mod connection;
pub mod crc;
pub mod decoder;
pub mod errors;
pub mod message;
pub mod raw_frame;

verus! {

/// Marker byte that starts every frame of this protocol version.
pub const MAV_STX_V2: u8 = 0xFD;

/// The incompatibility-flag bits this engine understands; any other set
/// bit makes a frame invalid.
pub const MAVLINK_SUPPORTED_IFLAGS: u8 = 0x01;

/// The incompatibility-flag bit that marks a signed frame.
pub const MAVLINK_IFLAG_SIGNED: u8 = 0x01;

} // verus!
