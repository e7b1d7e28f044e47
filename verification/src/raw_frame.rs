//! The fixed-layout byte representation of one protocol frame: a
//! 280-byte buffer holding marker, header, payload, checksum and an
//! optional 13-byte signature, with typed accessors and mutators and
//! checksum validation.
use vstd::prelude::*;

use crate::crc::{crc_calculate_region, crc_compute};
use crate::message::{MavHeader, MavlinkVersion, Message};
use crate::{MAVLINK_IFLAG_SIGNED, MAV_STX_V2};

verus! {

/// Size of the frame header that follows the marker byte: payload length,
/// two flag bytes, sequence, system id, component id and a three-byte
/// message id. With the marker the full header is 10 bytes.
pub const MAVLINK_V2_HEADER_SIZE: usize = 9;

/// Largest frame this protocol can produce: 10 header bytes, up to 255
/// payload bytes, 2 checksum bytes and a 13-byte signature.
pub const MAVLINK_V2_MAX_FRAME_SIZE: usize = 280;

/// The all-zero contents of a freshly created frame buffer.
pub open spec fn frame_default() -> Seq<u8> {
    Seq::new(280, |i: int| 0u8)
}

/// Signature trailer length implied by the incompatibility flags: 13
/// bytes when the signing bit is set, none otherwise.
pub open spec fn spec_signature_len(iflags: u8) -> int {
    if iflags & MAVLINK_IFLAG_SIGNED == MAVLINK_IFLAG_SIGNED {
        13
    } else {
        0
    }
}

/// The three message-id bytes of a frame, assembled little-endian.
pub open spec fn spec_message_id(fr: Seq<u8>) -> u32 {
    (fr[7] + 0x100 * fr[8] + 0x10000 * fr[9]) as u32
}

/// The two checksum bytes stored at the end of the payload, read
/// little-endian, as a plain integer.
pub open spec fn spec_stored_checksum(fr: Seq<u8>) -> int {
    fr[10 + fr[1]] + 0x100 * fr[11 + fr[1]]
}

/// Whether the checksum stored in a frame matches the one recomputed
/// over the header (marker excluded) and payload plus the catalog's seed
/// byte for the frame's message id.
pub open spec fn spec_crc_ok<M: Message>(fr: Seq<u8>) -> bool {
    spec_stored_checksum(fr) == crc_compute(
        fr.subrange(1, 10 + fr[1] as int),
        M::spec_extra_crc(spec_message_id(fr)),
    ) as int
}

/// One raw frame, stored as its full fixed-capacity wire buffer.
#[derive(Debug)]
pub struct MAVLinkV2MessageRaw(pub Vec<u8>);

impl View for MAVLinkV2MessageRaw {
    type V = Seq<u8>;

    open spec fn view(&self) -> Seq<u8> {
        self.0@
    }
}

impl MAVLinkV2MessageRaw {
    /// A frame buffer is well-formed when it has the full fixed capacity.
    pub open spec fn wf(&self) -> bool {
        self@.len() == 280
    }

    /// A fresh, zeroed frame buffer.
    pub fn new() -> (r: Self)
        ensures
            r@ == frame_default(),
            r.wf(),
    {
        let mut buf: Vec<u8> = Vec::new();
        let mut i: usize = 0;
        while i < MAVLINK_V2_MAX_FRAME_SIZE
            invariant
                i <= 280,
                buf@.len() == i,
                forall|j: int| 0 <= j < i ==> buf@[j] == 0u8,
            decreases 280 - i,
        {
            buf.push(0u8);
            i = i + 1;
        }
        assert(buf@ =~= frame_default());
        MAVLinkV2MessageRaw(buf)
    }

    /// A byte-identical copy of this frame.
    pub fn clone_frame(&self) -> (r: Self)
        requires
            self.wf(),
        ensures
            r@ == self@,
            r.wf(),
    {
        let mut buf: Vec<u8> = Vec::new();
        let mut i: usize = 0;
        while i < MAVLINK_V2_MAX_FRAME_SIZE
            invariant
                i <= 280,
                self.wf(),
                buf@.len() == i,
                forall|j: int| 0 <= j < i ==> buf@[j] == self@[j],
            decreases 280 - i,
        {
            buf.push(self.0[i]);
            i = i + 1;
        }
        assert(buf@ =~= self@);
        MAVLinkV2MessageRaw(buf)
    }

    pub fn magic(&self) -> (r: u8)
        requires
            self.wf(),
        ensures
            r == self@[0],
    {
        self.0[0]
    }

    pub fn payload_length(&self) -> (r: u8)
        requires
            self.wf(),
        ensures
            r == self@[1],
    {
        self.0[1]
    }

    pub fn incompatibility_flags(&self) -> (r: u8)
        requires
            self.wf(),
        ensures
            r == self@[2],
    {
        self.0[2]
    }

    pub fn compatibility_flags(&self) -> (r: u8)
        requires
            self.wf(),
        ensures
            r == self@[3],
    {
        self.0[3]
    }

    pub fn sequence(&self) -> (r: u8)
        requires
            self.wf(),
        ensures
            r == self@[4],
    {
        self.0[4]
    }

    pub fn system_id(&self) -> (r: u8)
        requires
            self.wf(),
        ensures
            r == self@[5],
    {
        self.0[5]
    }

    pub fn component_id(&self) -> (r: u8)
        requires
            self.wf(),
        ensures
            r == self@[6],
    {
        self.0[6]
    }

    pub fn message_id(&self) -> (r: u32)
        requires
            self.wf(),
        ensures
            r == spec_message_id(self@),
            r < 0x1000000,
    {
        self.0[7] as u32 + 0x100 * (self.0[8] as u32) + 0x10000 * (self.0[9] as u32)
    }

    /// The length of the optional signature trailer: 13 bytes when the
    /// signing incompatibility bit is set, 0 otherwise.
    pub fn signature_lenght(&self) -> (r: usize)
        requires
            self.wf(),
        ensures
            r == spec_signature_len(self@[2]),
    {
        if self.0[2] & MAVLINK_IFLAG_SIGNED == MAVLINK_IFLAG_SIGNED {
            13
        } else {
            0
        }
    }

    /// How many bytes of the buffer actually go on the wire: header,
    /// payload, checksum and the signature when the signing bit is set.
    pub fn wire_length(&self) -> (r: usize)
        requires
            self.wf(),
        ensures
            r == 12 + self@[1] + spec_signature_len(self@[2]),
            r <= 280,
    {
        12 + self.0[1] as usize + self.signature_lenght()
    }

    /// The stored checksum, read little-endian from the two bytes that
    /// follow the payload.
    pub fn checksum(&self) -> (r: u16)
        requires
            self.wf(),
        ensures
            r as int == spec_stored_checksum(self@),
    {
        let pl = self.0[1] as usize;
        self.0[10 + pl] as u16 + 0x100 * (self.0[11 + pl] as u16)
    }

    /// A copy of the payload bytes; never reads past `payload_length`.
    pub fn payload(&self) -> (r: Vec<u8>)
        requires
            self.wf(),
        ensures
            r@ == self@.subrange(10, 10 + self@[1] as int),
    {
        let pl = self.0[1] as usize;
        let mut out: Vec<u8> = Vec::new();
        let mut i: usize = 0;
        while i < pl
            invariant
                i <= pl,
                pl == self@[1],
                self.wf(),
                out@.len() == i,
                forall|j: int| 0 <= j < i ==> out@[j] == self@[10 + j],
            decreases pl - i,
        {
            out.push(self.0[10 + i]);
            i = i + 1;
        }
        assert(out@ =~= self@.subrange(10, 10 + self@[1] as int));
        out
    }

    pub fn set_payload_length(&mut self, v: u8)
        requires
            old(self).wf(),
        ensures
            final(self)@ == old(self)@.update(1, v),
            final(self).wf(),
    {
        self.0.set(1, v);
    }

    pub fn set_incompatibility_flags(&mut self, v: u8)
        requires
            old(self).wf(),
        ensures
            final(self)@ == old(self)@.update(2, v),
            final(self).wf(),
    {
        self.0.set(2, v);
    }

    pub fn set_compatibility_flags(&mut self, v: u8)
        requires
            old(self).wf(),
        ensures
            final(self)@ == old(self)@.update(3, v),
            final(self).wf(),
    {
        self.0.set(3, v);
    }

    pub fn set_sequence(&mut self, v: u8)
        requires
            old(self).wf(),
        ensures
            final(self)@ == old(self)@.update(4, v),
            final(self).wf(),
    {
        self.0.set(4, v);
    }

    pub fn set_system_id(&mut self, v: u8)
        requires
            old(self).wf(),
        ensures
            final(self)@ == old(self)@.update(5, v),
            final(self).wf(),
    {
        self.0.set(5, v);
    }

    pub fn set_component_id(&mut self, v: u8)
        requires
            old(self).wf(),
        ensures
            final(self)@ == old(self)@.update(6, v),
            final(self).wf(),
    {
        self.0.set(6, v);
    }

    /// Stores a message id into the three little-endian id bytes.
    pub fn set_message_id(&mut self, id: u32)
        requires
            old(self).wf(),
            id < 0x1000000,
        ensures
            final(self).wf(),
            final(self)@ == old(self)@.update(7, (id % 0x100) as u8).update(
                8,
                ((id / 0x100) % 0x100) as u8,
            ).update(9, (id / 0x10000) as u8),
            spec_message_id(final(self)@) == id,
    {
        self.0.set(7, (id % 0x100) as u8);
        self.0.set(8, ((id / 0x100) % 0x100) as u8);
        self.0.set(9, (id / 0x10000) as u8);
        assert(spec_message_id(self@) == id) by {
            assert(self@[7] == id % 0x100 && self@[8] == (id / 0x100) % 0x100 && self@[9] == id
                / 0x10000);
        };
    }

    /// Copies a payload into the frame and records its length.
    pub fn set_payload(&mut self, payload: &Vec<u8>)
        requires
            old(self).wf(),
            payload@.len() <= 255,
        ensures
            final(self).wf(),
            final(self)@[1] == payload@.len(),
            final(self)@.subrange(10, 10 + payload@.len() as int) == payload@,
            forall|j: int|
                0 <= j < 280 && j != 1 && !(10 <= j < 10 + payload@.len()) ==> final(self)@[j]
                    == old(self)@[j],
    {
        let n = payload.len();
        self.0.set(1, n as u8);
        let mut i: usize = 0;
        while i < n
            invariant
                i <= n,
                n == payload@.len() <= 255,
                self.wf(),
                self@[1] == n,
                forall|j: int| 0 <= j < i ==> self@[10 + j] == payload@[j],
                forall|j: int|
                    0 <= j < 280 && j != 1 && !(10 <= j < 10 + i) ==> self@[j] == old(self)@[j],
            decreases n - i,
        {
            self.0.set(10 + i, payload[i]);
            i = i + 1;
        }
        assert(self@.subrange(10, 10 + payload@.len() as int) =~= payload@);
    }

    /// Stores a checksum little-endian into the two bytes that follow the
    /// payload.
    pub fn set_checksum(&mut self, v: u16)
        requires
            old(self).wf(),
        ensures
            final(self).wf(),
            final(self)@ == old(self)@.update(10 + old(self)@[1] as int, (v % 0x100) as u8).update(
                11 + old(self)@[1] as int,
                (v / 0x100) as u8,
            ),
            spec_stored_checksum(final(self)@) == v as int,
    {
        let pl = self.0[1] as usize;
        self.0.set(10 + pl, (v % 0x100) as u8);
        self.0.set(11 + pl, (v / 0x100) as u8);
    }

    /// Recomputes the frame's checksum from its current header and
    /// payload bytes, using the catalog's seed for the frame's message id.
    pub fn calculate_crc<M: Message>(&self) -> (r: u16)
        requires
            self.wf(),
        ensures
            r == crc_compute(
                self@.subrange(1, 10 + self@[1] as int),
                M::spec_extra_crc(spec_message_id(self@)),
            ),
    {
        let pl = self.0[1] as usize;
        let msgid = self.message_id();
        let seed = M::extra_crc(msgid);
        crc_calculate_region(&self.0, 1, 10 + pl, seed)
    }

    /// Recomputes the checksum and compares it to the stored one. Never
    /// mutates the frame and never fails; an unknown message id merely
    /// yields whatever seed the catalog reports for it.
    pub fn has_valid_crc<M: Message>(&self) -> (r: bool)
        requires
            self.wf(),
        ensures
            r == spec_crc_ok::<M>(self@),
    {
        let calculated = self.calculate_crc::<M>();
        let stored = self.checksum();
        calculated == stored
    }

    /// Assembles a complete outgoing frame: stamps the marker, clear
    /// flags, the caller's addressing header and the message's id,
    /// serializes the payload, and stores a freshly computed checksum.
    pub fn serialize_message<M: Message>(
        &mut self,
        version: MavlinkVersion,
        header: &MavHeader,
        data: &M,
    )
        requires
            old(self).wf(),
            data.wf(),
        ensures
            final(self).wf(),
            final(self)@[0] == MAV_STX_V2,
            final(self)@[1] == data.spec_ser(version).len(),
            final(self)@[2] == 0,
            final(self)@[3] == 0,
            final(self)@[4] == header.sequence,
            final(self)@[5] == header.system_id,
            final(self)@[6] == header.component_id,
            spec_message_id(final(self)@) == data.spec_id(),
            final(self)@.subrange(10, 10 + data.spec_ser(version).len() as int) == data.spec_ser(
                version,
            ),
            spec_crc_ok::<M>(final(self)@),
            final(self)@.skip(12 + data.spec_ser(version).len() as int) == old(self)@.skip(
                12 + data.spec_ser(version).len() as int,
            ),
    {
        proof {
            data.lemma_wf_bounds(version);
        }
        let payload = data.ser(version);
        self.0.set(0, MAV_STX_V2);
        self.0.set(2, 0u8);
        self.0.set(3, 0u8);
        self.0.set(4, header.sequence);
        self.0.set(5, header.system_id);
        self.0.set(6, header.component_id);
        self.set_message_id(data.message_id());
        self.set_payload(&payload);
        let crc = self.calculate_crc::<M>();
        let ghost before_checksum = self@;
        self.set_checksum(crc);
        proof {
            assert(self@.subrange(1, 10 + self@[1] as int) =~= before_checksum.subrange(
                1,
                10 + before_checksum[1] as int,
            ));
            assert(self@.skip(12 + data.spec_ser(version).len() as int) =~= old(self)@.skip(
                12 + data.spec_ser(version).len() as int,
            ));
            assert(self@.subrange(10, 10 + data.spec_ser(version).len() as int)
                =~= before_checksum.subrange(10, 10 + data.spec_ser(version).len() as int));
        }
    }
}

} // verus!
