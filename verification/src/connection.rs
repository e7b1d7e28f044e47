//! The transport-agnostic connection logic: choosing a transport role
//! from an address string, stamping and advancing the per-link sequence
//! counter on send, and turning a validated frame into a typed message
//! on receive. The byte-moving halves live with the caller that owns
//! the sockets.
use vstd::prelude::*;
use vstd::string::StringSliceAdditionalSpecFns;

use crate::errors::MessageReadError;
use crate::message::{MavHeader, MavlinkVersion, Message};
use crate::raw_frame::{spec_crc_ok, spec_message_id, MAVLinkV2MessageRaw};
use crate::MAV_STX_V2;

verus! {

/// Which side of a TCP link an address string selects.
#[derive(Clone, Copy, PartialEq, Eq, Structural)]
pub enum TcpRole {
    Out,
    In,
}

/// A parsed connection address: the role and the host part that follows
/// the role prefix.
pub struct TcpEndpoint {
    pub role: TcpRole,
    pub address: String,
}

/// The bytes of the prefix selecting an outgoing TCP connection.
pub open spec fn spec_tcpout_prefix() -> Seq<u8> {
    seq![116u8, 99u8, 112u8, 111u8, 117u8, 116u8, 58u8]
}

/// The bytes of the prefix selecting a listening TCP connection.
pub open spec fn spec_tcpin_prefix() -> Seq<u8> {
    seq![116u8, 99u8, 112u8, 105u8, 110u8, 58u8]
}

pub open spec fn spec_has_prefix(s: Seq<u8>, p: Seq<u8>) -> bool {
    s.len() >= p.len() && s.subrange(0, p.len() as int) == p
}

/// Decides which transport an address string names: `tcpout:` selects an
/// outgoing connection, `tcpin:` a listening one, anything else is
/// unsupported and yields nothing. The returned address is what follows
/// the prefix. (The boundary conditions are vacuous for real strings:
/// after an ASCII prefix the next byte always starts a character.)
pub fn select_protocol(address: &str) -> (r: Option<TcpEndpoint>)
    ensures
        ({
            let sb = address.spec_bytes();
            let out = spec_has_prefix(sb, spec_tcpout_prefix()) && vstd::utf8::is_char_boundary(
                sb,
                7,
            );
            let inp = spec_has_prefix(sb, spec_tcpin_prefix()) && vstd::utf8::is_char_boundary(
                sb,
                6,
            );
            &&& (r is Some <==> out || inp)
            &&& (r matches Some(e) ==> (if out {
                e.role == TcpRole::Out && vstd::utf8::encode_utf8(e.address@) =~= sb.skip(7)
            } else {
                e.role == TcpRole::In && vstd::utf8::encode_utf8(e.address@) =~= sb.skip(6)
            }))
        }),
{
    let bytes = address.as_bytes();
    if bytes.len() >= 7 && bytes[0] == 116u8 && bytes[1] == 99u8 && bytes[2] == 112u8 && bytes[3]
        == 111u8 && bytes[4] == 117u8 && bytes[5] == 116u8 && bytes[6] == 58u8
        && address.is_char_boundary(7) {
        proof {
            assert(address.spec_bytes().subrange(0, 7) =~= spec_tcpout_prefix());
        }
        let (_, tail) = address.split_at(7);
        proof {
            assert(tail.spec_bytes() =~= address.spec_bytes().skip(7));
        }
        Some(TcpEndpoint { role: TcpRole::Out, address: tail.to_owned() })
    } else if bytes.len() >= 6 && bytes[0] == 116u8 && bytes[1] == 99u8 && bytes[2] == 112u8
        && bytes[3] == 105u8 && bytes[4] == 110u8 && bytes[5] == 58u8 && address.is_char_boundary(
        6,
    ) {
        proof {
            assert(address.spec_bytes().subrange(0, 6) =~= spec_tcpin_prefix());
            assert(!spec_has_prefix(address.spec_bytes(), spec_tcpout_prefix()) || !vstd::utf8::is_char_boundary(
                address.spec_bytes(),
                7,
            )) by {
                assert(address.spec_bytes()[3] == 105u8);
                assert(spec_tcpout_prefix()[3] == 111u8);
            };
        }
        let (_, tail) = address.split_at(6);
        proof {
            assert(tail.spec_bytes() =~= address.spec_bytes().skip(6));
        }
        Some(TcpEndpoint { role: TcpRole::In, address: tail.to_owned() })
    } else {
        None
    }
}

/// The compute half of a connection's send path: stamps the link's
/// current sequence counter and the caller's addressing into the
/// outgoing header, assembles the complete checksummed frame, and
/// advances the counter, wrapping from 255 back to 0 rather than
/// overflowing.
pub fn prepare_send<M: Message>(
    current_sequence: u8,
    header: &MavHeader,
    version: MavlinkVersion,
    data: &M,
) -> (r: (MAVLinkV2MessageRaw, u8))
    requires
        data.wf(),
    ensures
        r.0.wf(),
        r.0@[0] == MAV_STX_V2,
        r.0@[1] == data.spec_ser(version).len(),
        r.0@[2] == 0,
        r.0@[3] == 0,
        r.0@[4] == current_sequence,
        r.0@[5] == header.system_id,
        r.0@[6] == header.component_id,
        spec_message_id(r.0@) == data.spec_id(),
        r.0@.subrange(10, 10 + data.spec_ser(version).len() as int) == data.spec_ser(version),
        spec_crc_ok::<M>(r.0@),
        r.1 == (current_sequence + 1) % 256,
{
    let stamped = MavHeader {
        system_id: header.system_id,
        component_id: header.component_id,
        sequence: current_sequence,
    };
    let mut frame = MAVLinkV2MessageRaw::new();
    frame.serialize_message::<M>(version, &stamped, data);
    let next = current_sequence.wrapping_add(1);
    (frame, next)
}

/// The compute half of a connection's receive path: lifts a validated
/// frame into its logical header and the typed message parsed from its
/// payload; a payload the catalog rejects is reported as a parse error,
/// never as a partially decoded message.
pub fn message_from_frame<M: Message>(frame: &MAVLinkV2MessageRaw, version: MavlinkVersion) -> (r:
    Result<(MavHeader, M), MessageReadError>)
    requires
        frame.wf(),
    ensures
        ({
            let payload = frame@.subrange(10, 10 + frame@[1] as int);
            let id = spec_message_id(frame@);
            &&& (r is Ok <==> M::spec_parse_ok(version, id, payload))
            &&& (r matches Ok(p) ==> p.0.sequence == frame@[4] && p.0.system_id == frame@[5]
                && p.0.component_id == frame@[6] && p.1.wf() && p.1.spec_id() == id
                && p.1.spec_ser(version) == M::spec_parsed_ser(version, id, payload))
            &&& (r matches Err(e) ==> e == MessageReadError::Parse(
                M::spec_parse_err(version, id, payload),
            ))
        }),
{
    let payload = frame.payload();
    let id = frame.message_id();
    match M::parse(version, id, payload.as_slice()) {
        Ok(m) => Ok(
            (
                MavHeader {
                    system_id: frame.system_id(),
                    component_id: frame.component_id(),
                    sequence: frame.sequence(),
                },
                m,
            ),
        ),
        Err(e) => Err(MessageReadError::Parse(e)),
    }
}

} // verus!
