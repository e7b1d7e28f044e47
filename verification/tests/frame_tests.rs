use bytes::{BufMut, BytesMut};
use mavframe::connection::{message_from_frame, prepare_send, select_protocol, TcpRole};
use mavframe::crc::{crc_accumulate, crc_calculate_region};
use mavframe::decoder::MAVLinkV2Codec;
use mavframe::errors::{MessageReadError, ParserError};
use mavframe::message::{MavHeader, MavlinkVersion, Message, MockMessage};
use mavframe::raw_frame::MAVLinkV2MessageRaw;

fn command_long_truncated_v2() -> Vec<u8> {
    vec![
        0xFD, // magic
        30,   // payload length
        0,    // incompat flags
        0,    // compat flags
        0, 0, 50, // sequence, system id, component id
        76, 0, 0, // msg ID
        // truncated payload:
        0, 0, 230, 66, 0, 64, 156, 69, 0, 0, 0, 0, 0, 0, 0, 0, 0, 0, 0, 0, 0, 0, 0, 0, 0, 0, 0, 0,
        255, 1,
        // crc:
        188, 195,
    ]
}

fn frame_from_bytes(bytes: &[u8]) -> MAVLinkV2MessageRaw {
    let mut frame = MAVLinkV2MessageRaw::new();
    frame.0[..bytes.len()].copy_from_slice(bytes);
    frame
}

// The checksum of the reference frame, computed over header-after-magic
// plus payload plus the catalog seed, has the exact stored value.
#[test]
fn crc_exact_value() {
    let bytes = command_long_truncated_v2();
    let crc = crc_calculate_region(&bytes, 1, 40, 152);
    assert_eq!(crc, 0xC3BC);
}

#[test]
fn crc_single_step() {
    // One step from the all-ones accumulator over a zero byte.
    let acc = crc_accumulate(0, 0xFFFF);
    // tmp = 0xFF; tmp ^= tmp << 4 -> 0x0F; acc' = 0x00FF ^ 0x0F00 ^ 0x0078 ^ 0x0000
    assert_eq!(acc, 0x0F87);
}

// Flipping any single bit of the payload makes the stored checksum
// mismatch for this frame.
#[test]
fn payload_bit_flips_break_crc() {
    let bytes = command_long_truncated_v2();
    assert!(frame_from_bytes(&bytes).has_valid_crc::<MockMessage>());
    for byte_index in 10..40 {
        for bit in 0..8 {
            let mut flipped = bytes.clone();
            flipped[byte_index] ^= 1u8 << bit;
            let frame = frame_from_bytes(&flipped);
            assert!(
                !frame.has_valid_crc::<MockMessage>(),
                "flip of bit {} in byte {} went undetected",
                bit,
                byte_index
            );
        }
    }
}

#[test]
fn accessors_and_mutators() {
    let mut frame = MAVLinkV2MessageRaw::new();
    frame.set_payload_length(3);
    frame.set_incompatibility_flags(1);
    frame.set_compatibility_flags(7);
    frame.set_sequence(42);
    frame.set_system_id(9);
    frame.set_component_id(8);
    frame.set_message_id(0x010203);
    assert_eq!(frame.payload_length(), 3);
    assert_eq!(frame.incompatibility_flags(), 1);
    assert_eq!(frame.compatibility_flags(), 7);
    assert_eq!(frame.sequence(), 42);
    assert_eq!(frame.system_id(), 9);
    assert_eq!(frame.component_id(), 8);
    assert_eq!(frame.message_id(), 0x010203);
    assert_eq!(frame.signature_lenght(), 13);
    frame.set_incompatibility_flags(0);
    assert_eq!(frame.signature_lenght(), 0);

    let payload = vec![5u8, 6, 7, 8];
    frame.set_payload(&payload);
    assert_eq!(frame.payload_length(), 4);
    assert_eq!(frame.payload(), payload);
    frame.set_checksum(0xC3BC);
    assert_eq!(frame.checksum(), 0xC3BC);
    assert_eq!(frame.wire_length(), 16);
}

// Serializing a message, parsing it back and serializing again yields
// the same bytes.
#[test]
fn serialize_parse_serialize_roundtrip() {
    let message = MockMessage { id: 76, payload: vec![1, 2, 3, 4, 5] };
    let first = message.ser(MavlinkVersion::V2);
    let parsed = MockMessage::parse(MavlinkVersion::V2, message.message_id(), &first)
        .expect("parsing serialized bytes must succeed");
    let second = parsed.ser(MavlinkVersion::V2);
    assert_eq!(first, second);
    assert_eq!(parsed.message_id(), 76);
}

#[test]
fn parse_rejects_oversized_id() {
    let result = MockMessage::parse(MavlinkVersion::V2, 0x1000000, &[1, 2, 3]);
    match result {
        Err(ParserError::UnknownMessage { id }) => assert_eq!(id, 0x1000000),
        _ => panic!("an id beyond 24 bits must be rejected"),
    }
}

// A full send: the assembled frame carries the stamped header, a valid
// checksum, and decodes back to the same bytes on the receive side.
#[test]
fn send_assembles_decodable_frame() {
    let message = MockMessage { id: 331, payload: vec![9, 8, 7] };
    let header = MavHeader { system_id: 11, component_id: 22, sequence: 0 };
    let (frame, next) = prepare_send(5, &header, MavlinkVersion::V2, &message);
    assert_eq!(next, 6);
    assert_eq!(frame.sequence(), 5);
    assert_eq!(frame.system_id(), 11);
    assert_eq!(frame.component_id(), 22);
    assert_eq!(frame.message_id(), 331);
    assert_eq!(frame.payload_length(), 3);
    assert!(frame.has_valid_crc::<MockMessage>());

    let mut buf = BytesMut::with_capacity(280);
    buf.put_slice(&frame.0[..frame.wire_length()]);
    let mut codec = MAVLinkV2Codec::<MockMessage>::new();
    let decoded = codec.decode(&mut buf).expect("an assembled frame must decode");
    assert_eq!(decoded.0, frame.0);

    let (got_header, got_message) =
        message_from_frame::<MockMessage>(&decoded, MavlinkVersion::V2)
            .expect("a valid payload must parse");
    assert_eq!(got_header.system_id, 11);
    assert_eq!(got_header.component_id, 22);
    assert_eq!(got_header.sequence, 5);
    assert_eq!(got_message.message_id(), 331);
    assert_eq!(got_message.payload, vec![9, 8, 7]);
}

// The sequence counter wraps from 255 to 0 on the next send instead of
// overflowing.
#[test]
fn sequence_counter_wraps_at_255() {
    let message = MockMessage { id: 0, payload: vec![] };
    let header = MavHeader { system_id: 1, component_id: 1, sequence: 0 };
    let (frame, next) = prepare_send(255, &header, MavlinkVersion::V2, &message);
    assert_eq!(frame.sequence(), 255);
    assert_eq!(next, 0);
    let (frame2, next2) = prepare_send(next, &header, MavlinkVersion::V2, &message);
    assert_eq!(frame2.sequence(), 0);
    assert_eq!(next2, 1);
}

#[test]
fn message_from_frame_reads_reference_header() {
    let frame = frame_from_bytes(&command_long_truncated_v2());
    let (header, message) = message_from_frame::<MockMessage>(&frame, MavlinkVersion::V2)
        .expect("the reference payload must parse");
    assert_eq!(header.sequence, 0);
    assert_eq!(header.system_id, 0);
    assert_eq!(header.component_id, 50);
    assert_eq!(message.message_id(), 76);
    assert_eq!(message.payload.len(), 30);
}

#[test]
fn select_protocol_picks_role_from_prefix() {
    let out = select_protocol("tcpout:127.0.0.1:5760").expect("tcpout must be supported");
    assert!(matches!(out.role, TcpRole::Out));
    assert_eq!(out.address, "127.0.0.1:5760");

    let inp = select_protocol("tcpin:0.0.0.0:5760").expect("tcpin must be supported");
    assert!(matches!(inp.role, TcpRole::In));
    assert_eq!(inp.address, "0.0.0.0:5760");

    assert!(select_protocol("udpout:127.0.0.1:14550").is_none());
    assert!(select_protocol("tcp").is_none());
    assert!(select_protocol("").is_none());
}

#[test]
fn read_error_from_parse_error() {
    let error = MessageReadError::from(ParserError::UnknownMessage { id: 7 });
    match error {
        MessageReadError::Parse(ParserError::UnknownMessage { id }) => assert_eq!(id, 7),
        _ => panic!("conversion must keep the parse error"),
    }
}

#[test]
fn catalog_name_lookups() {
    let message = MockMessage { id: 3, payload: vec![] };
    assert_eq!(message.message_name(), "MOCK");
    assert!(MockMessage::message_id_from_name("MOCK").is_err());
    let default = MockMessage::default_message_from_id(3).expect("a 24-bit id must be accepted");
    assert_eq!(default.message_id(), 3);
    assert!(default.payload.is_empty());
    assert!(MockMessage::default_message_from_id(0x1000000).is_err());
}

#[test]
fn extra_crc_is_constant_seed() {
    assert_eq!(MockMessage::extra_crc(0), 152);
    assert_eq!(MockMessage::extra_crc(76), 152);
}

// The largest unsigned frame: a 255-byte payload assembles, stays within
// the fixed buffer, and decodes back bit-identical.
#[test]
fn largest_payload_roundtrip() {
    let message = MockMessage { id: 0xFFFFFF, payload: vec![0xAB; 255] };
    let header = MavHeader { system_id: 1, component_id: 2, sequence: 0 };
    let (frame, _) = prepare_send(9, &header, MavlinkVersion::V2, &message);
    assert_eq!(frame.payload_length(), 255);
    assert_eq!(frame.wire_length(), 267);
    assert!(frame.has_valid_crc::<MockMessage>());

    let mut buf = BytesMut::with_capacity(280);
    buf.put_slice(&frame.0[..frame.wire_length()]);
    let mut codec = MAVLinkV2Codec::<MockMessage>::new();
    let decoded = codec.decode(&mut buf).expect("the largest frame must decode");
    assert_eq!(decoded.0, frame.0);
    assert_eq!(decoded.message_id(), 0xFFFFFF);
}

// A frame with the signing incompatibility bit carries a 13-byte
// signature trailer that the decoder collects past the checksum.
#[test]
fn signed_frame_decodes_with_signature() {
    let mut bytes = vec![0xFD, 2, 1, 0, 5, 7, 9, 42, 0, 0, 0xDE, 0xAD];
    let crc = crc_calculate_region(&bytes, 1, 12, 152);
    bytes.push((crc % 256) as u8);
    bytes.push((crc / 256) as u8);
    for i in 0..13u8 {
        bytes.push(i);
    }
    assert_eq!(bytes.len(), 27);

    let mut buf = BytesMut::with_capacity(280);
    buf.put_slice(&bytes);
    let mut codec = MAVLinkV2Codec::<MockMessage>::new();
    let decoded = codec.decode(&mut buf).expect("a signed frame must decode");
    assert_eq!(decoded.signature_lenght(), 13);
    assert_eq!(decoded.wire_length(), 27);
    assert_eq!(decoded.payload_length(), 2);
    assert!(decoded.has_valid_crc::<MockMessage>());
    assert_eq!(&decoded.0[14..27], &[0, 1, 2, 3, 4, 5, 6, 7, 8, 9, 10, 11, 12]);
}
