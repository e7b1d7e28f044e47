//! Error taxonomy of the engine. Stream-level noise is never an error (the
//! decoder resynchronizes instead); these types cover message-level decode
//! failures and transport failures reported by the connection layer.
use vstd::prelude::*;

use crate::raw_frame::MAVLinkV2MessageRaw;

verus! {

/// A recoverable, per-message decode failure: the id is unknown to the
/// catalog, a field holds a value outside its valid set, or a frame's
/// checksum did not match (the offending frame is kept for diagnostics).
#[derive(Debug)]
pub enum ParserError {
    InvalidFlag { flag_type: &'static str, value: u32 },
    InvalidEnum { enum_type: &'static str, value: u32 },
    InvalidCRC { crc: u16, calculated_crc: u16, message: Box<MAVLinkV2MessageRaw> },
    UnknownMessage { id: u32 },
}

/// Why a receive failed: the transport, or the payload of an otherwise
/// valid frame.
#[derive(Debug)]
pub enum MessageReadError {
    Io,
    Parse(ParserError),
}

/// Why a send failed: only the transport can fail on the way out.
#[derive(Debug)]
pub enum MessageWriteError {
    Io,
}

impl From<ParserError> for MessageReadError {
    fn from(e: ParserError) -> (r: Self) {
        MessageReadError::Parse(e)
    }
}

impl vstd::std_specs::convert::FromSpecImpl<ParserError> for MessageReadError {
    open spec fn obeys_from_spec() -> bool {
        true
    }

    open spec fn from_spec(e: ParserError) -> Self {
        MessageReadError::Parse(e)
    }
}

} // verus!
