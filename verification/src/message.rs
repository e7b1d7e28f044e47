//! The contract a concrete message catalog must satisfy so the engine
//! can validate and decode frame payloads: identification, a per-id
//! checksum seed, serialization and parsing, together with the laws that
//! make the send/receive round trip coherent.
use vstd::prelude::*;

use crate::errors::ParserError;

verus! {

/// Which framing generation a link speaks. Only serialization choices
/// depend on it; decoding always accepts the frame format it is built for.
#[derive(Clone, Copy, PartialEq, Eq, Structural)]
pub enum MavlinkVersion {
    V1,
    V2,
}

/// The logical addressing header of one message: link-local sequence
/// number and the sender's system and component ids.
#[derive(Clone, Copy, PartialEq, Eq, Structural)]
pub struct MavHeader {
    pub system_id: u8,
    pub component_id: u8,
    pub sequence: u8,
}

/// A message catalog entry. Implementations provide the numeric id, the
/// per-id checksum seed, and payload serialization and parsing; the laws
/// bind them together: a well-formed message has a 24-bit id and at most
/// 255 payload bytes, and parsing what was serialized succeeds and
/// re-serializes to the same bytes.
pub trait Message: Sized {
    /// Which values of the type the catalog can actually put on the wire.
    spec fn wf(&self) -> bool;

    /// The numeric message id, as a spec-level function of the value.
    spec fn spec_id(&self) -> u32;

    /// The payload bytes `ser` writes for this value.
    spec fn spec_ser(&self, version: MavlinkVersion) -> Seq<u8>;

    /// Whether `parse` accepts the given id and payload.
    spec fn spec_parse_ok(version: MavlinkVersion, msgid: u32, payload: Seq<u8>) -> bool;

    /// The bytes a successfully parsed message serializes back to.
    spec fn spec_parsed_ser(version: MavlinkVersion, msgid: u32, payload: Seq<u8>) -> Seq<u8>;

    /// The error `parse` reports when it rejects the given id and payload.
    spec fn spec_parse_err(version: MavlinkVersion, msgid: u32, payload: Seq<u8>) -> ParserError;

    /// The checksum seed byte for a given message id.
    spec fn spec_extra_crc(id: u32) -> u8;

    /// The catalog name of this message kind.
    spec fn spec_name(&self) -> Seq<char>;

    /// The id the catalog assigns to a given name, when it knows it.
    spec fn spec_id_from_name(name: Seq<char>) -> Option<u32>;

    fn message_id(&self) -> (r: u32)
        ensures
            r == self.spec_id(),
    ;

    fn message_name(&self) -> (r: &'static str)
        ensures
            r@ == self.spec_name(),
    ;

    /// Looks a message id up by its catalog name; fails exactly on names
    /// the catalog does not know.
    fn message_id_from_name(name: &str) -> (r: Result<u32, &'static str>)
        ensures
            r is Ok <==> Self::spec_id_from_name(name@) is Some,
            r matches Ok(id) ==> Self::spec_id_from_name(name@) == Some(id),
    ;

    /// A default-valued message carrying the given id, for ids the
    /// catalog knows.
    fn default_message_from_id(id: u32) -> (r: Result<Self, &'static str>)
        ensures
            r matches Ok(m) ==> m.wf() && m.spec_id() == id,
    ;

    fn extra_crc(id: u32) -> (r: u8)
        ensures
            r == Self::spec_extra_crc(id),
    ;

    /// Serializes the payload of this message for the given protocol
    /// version.
    fn ser(&self, version: MavlinkVersion) -> (r: Vec<u8>)
        requires
            self.wf(),
        ensures
            r@ == self.spec_ser(version),
    ;

    /// Parses a payload received under the given id; fails with a
    /// descriptive error exactly when the catalog rejects the input.
    fn parse(version: MavlinkVersion, msgid: u32, payload: &[u8]) -> (r: Result<Self, ParserError>)
        ensures
            r is Ok <==> Self::spec_parse_ok(version, msgid, payload@),
            r matches Ok(m) ==> m.wf() && m.spec_id() == msgid && m.spec_ser(version)
                == Self::spec_parsed_ser(version, msgid, payload@),
            r matches Err(e) ==> e == Self::spec_parse_err(version, msgid, payload@),
    ;

    /// A catalog message that can be framed has a 24-bit id and a payload
    /// that fits the one-byte length field.
    proof fn lemma_wf_bounds(&self, version: MavlinkVersion)
        requires
            self.wf(),
        ensures
            self.spec_ser(version).len() <= 255,
            self.spec_id() < 0x1000000,
    ;

    /// Parsing a serialized message succeeds and yields a message that
    /// serializes to the same bytes.
    proof fn lemma_parse_ser(&self, version: MavlinkVersion)
        requires
            self.wf(),
        ensures
            Self::spec_parse_ok(version, self.spec_id(), self.spec_ser(version)),
            Self::spec_parsed_ser(version, self.spec_id(), self.spec_ser(version))
                == self.spec_ser(version),
    ;
}

/// Round trip: for any catalog message, serializing it, parsing the
/// payload back under the same id and version, and serializing the parsed
/// message again yields the very bytes first produced.
pub proof fn lemma_serialize_parse_roundtrip<M: Message>(m: M, version: MavlinkVersion)
    requires
        m.wf(),
    ensures
        M::spec_parse_ok(version, m.spec_id(), m.spec_ser(version)),
        M::spec_parsed_ser(version, m.spec_id(), m.spec_ser(version)) == m.spec_ser(version),
{
    m.lemma_parse_ser(version);
}

/// A minimal pass-through catalog: one opaque message kind that carries
/// its id and payload bytes verbatim and reports the same seed byte for
/// every id. Useful for exercising the frame engine on its own.
pub struct MockMessage {
    pub id: u32,
    pub payload: Vec<u8>,
}

impl Message for MockMessage {
    open spec fn wf(&self) -> bool {
        self.payload@.len() <= 255 && self.id < 0x1000000
    }

    open spec fn spec_id(&self) -> u32 {
        self.id
    }

    open spec fn spec_ser(&self, version: MavlinkVersion) -> Seq<u8> {
        self.payload@
    }

    open spec fn spec_parse_ok(version: MavlinkVersion, msgid: u32, payload: Seq<u8>) -> bool {
        payload.len() <= 255 && msgid < 0x1000000
    }

    open spec fn spec_parsed_ser(version: MavlinkVersion, msgid: u32, payload: Seq<u8>) -> Seq<
        u8,
    > {
        payload
    }

    open spec fn spec_parse_err(version: MavlinkVersion, msgid: u32, payload: Seq<u8>) -> ParserError {
        ParserError::UnknownMessage { id: msgid }
    }

    open spec fn spec_extra_crc(id: u32) -> u8 {
        152
    }

    open spec fn spec_name(&self) -> Seq<char> {
        "MOCK"@
    }

    open spec fn spec_id_from_name(name: Seq<char>) -> Option<u32> {
        None
    }

    fn message_id(&self) -> (r: u32) {
        self.id
    }

    fn message_name(&self) -> (r: &'static str) {
        "MOCK"
    }

    fn message_id_from_name(name: &str) -> (r: Result<u32, &'static str>) {
        Err("Unknown message name")
    }

    fn default_message_from_id(id: u32) -> (r: Result<Self, &'static str>) {
        if id < 0x1000000 {
            Ok(MockMessage { id, payload: Vec::new() })
        } else {
            Err("Unknown message id")
        }
    }

    fn extra_crc(id: u32) -> (r: u8) {
        152
    }

    fn ser(&self, version: MavlinkVersion) -> (r: Vec<u8>) {
        let mut out: Vec<u8> = Vec::new();
        let mut i: usize = 0;
        let n = self.payload.len();
        while i < n
            invariant
                i <= n,
                n == self.payload@.len(),
                out@.len() == i,
                forall|j: int| 0 <= j < i ==> out@[j] == self.payload@[j],
            decreases n - i,
        {
            out.push(self.payload[i]);
            i = i + 1;
        }
        assert(out@ =~= self.payload@);
        out
    }

    fn parse(version: MavlinkVersion, msgid: u32, payload: &[u8]) -> (r: Result<
        Self,
        ParserError,
    >) {
        if payload.len() <= 255 && msgid < 0x1000000 {
            let mut own: Vec<u8> = Vec::new();
            let mut i: usize = 0;
            let n = payload.len();
            while i < n
                invariant
                    i <= n,
                    n == payload@.len(),
                    own@.len() == i,
                    forall|j: int| 0 <= j < i ==> own@[j] == payload@[j],
                decreases n - i,
            {
                own.push(payload[i]);
                i = i + 1;
            }
            assert(own@ =~= payload@);
            Ok(MockMessage { id: msgid, payload: own })
        } else {
            Err(ParserError::UnknownMessage { id: msgid })
        }
    }

    proof fn lemma_wf_bounds(&self, version: MavlinkVersion) {
    }

    proof fn lemma_parse_ser(&self, version: MavlinkVersion) {
    }
}

} // verus!
