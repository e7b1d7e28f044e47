//! The incremental, resynchronizing decoder: a four-state machine that
//! consumes bytes from a caller-owned buffer and produces at most one
//! validated frame per call. Corruption is never an error; the machine
//! drops bytes until the next marker and tries again.
use vstd::prelude::*;

use bytes::BytesMut;
use core::marker::PhantomData;

use crate::byte_buf::{buf_advance, buf_byte, buf_len, bytes_view};
use crate::message::Message;
use crate::raw_frame::{
    frame_default, spec_crc_ok, spec_message_id, spec_signature_len, spec_stored_checksum,
    MAVLinkV2MessageRaw, MAVLINK_V2_HEADER_SIZE,
};
use crate::{MAVLINK_SUPPORTED_IFLAGS, MAV_STX_V2};

verus! {

/// Where the machine stands between calls.
#[derive(Clone, Copy, PartialEq, Eq, Structural)]
pub enum DecoderState {
    SearchForMagicByte,
    ParseHeader,
    ParsePayload,
    CheckCRC,
}

/// Orders the states so that every transition that does not consume a
/// byte moves strictly downwards; used only for termination.
pub open spec fn state_rank(st: DecoderState) -> int {
    match st {
        DecoderState::SearchForMagicByte => 0,
        DecoderState::CheckCRC => 1,
        DecoderState::ParsePayload => 2,
        DecoderState::ParseHeader => 3,
    }
}

/// Bytes still owed after the header: payload, the two checksum bytes,
/// and the signature when the signing flag is set.
pub open spec fn spec_trailing_len(fr: Seq<u8>) -> int {
    fr[1] + 2 + spec_signature_len(fr[2])
}

/// `fr` with `data` written over the bytes starting at `at`.
pub open spec fn write_range(fr: Seq<u8>, at: int, data: Seq<u8>) -> Seq<u8>
    recommends
        0 <= at,
        at + data.len() <= fr.len(),
{
    fr.take(at) + data + fr.skip(at + data.len() as int)
}

/// Everything one `decode` call leaves behind: the machine's state, the
/// frame buffer, the unconsumed bytes, and the emitted frame if one was
/// validated.
#[verifier::ext_equal]
pub ghost struct DecodeOutcome {
    pub state: DecoderState,
    pub frame: Seq<u8>,
    pub buf: Seq<u8>,
    pub emit: Option<Seq<u8>>,
}

/// What one `decode` call does, as a function of the machine's state,
/// its frame buffer and the buffer contents. Searching consumes bytes up
/// to and including the next marker; header, payload and checksum steps
/// peek without consuming; a header with unsupported incompatibility
/// flags or a checksum mismatch sends the machine back to searching with
/// a cleared frame, the offending bytes left in place to be re-scanned.
pub open spec fn spec_decode<M: Message>(st: DecoderState, fr: Seq<u8>, b: Seq<u8>) -> DecodeOutcome
    decreases b.len(), state_rank(st),
{
    match st {
        DecoderState::SearchForMagicByte => {
            if b.len() == 0 {
                DecodeOutcome { state: st, frame: fr, buf: b, emit: None }
            } else if b[0] == MAV_STX_V2 {
                spec_decode::<M>(DecoderState::ParseHeader, fr.update(0, MAV_STX_V2), b.skip(1))
            } else {
                spec_decode::<M>(st, fr, b.skip(1))
            }
        },
        DecoderState::ParseHeader => {
            if b.len() >= 9 {
                let fr2 = write_range(fr, 1, b.take(9));
                if fr2[2] & !MAVLINK_SUPPORTED_IFLAGS != 0 {
                    spec_decode::<M>(DecoderState::SearchForMagicByte, frame_default(), b)
                } else {
                    spec_decode::<M>(DecoderState::ParsePayload, fr2, b)
                }
            } else {
                DecodeOutcome { state: st, frame: fr, buf: b, emit: None }
            }
        },
        DecoderState::ParsePayload => {
            if b.len() >= 9 + spec_trailing_len(fr) {
                spec_decode::<M>(
                    DecoderState::CheckCRC,
                    write_range(fr, 10, b.subrange(9, 9 + spec_trailing_len(fr))),
                    b,
                )
            } else {
                DecodeOutcome { state: st, frame: fr, buf: b, emit: None }
            }
        },
        DecoderState::CheckCRC => {
            if spec_crc_ok::<M>(fr) {
                DecodeOutcome { state: st, frame: fr, buf: b, emit: Some(fr) }
            } else {
                spec_decode::<M>(DecoderState::SearchForMagicByte, frame_default(), b)
            }
        },
    }
}

/// The streaming decoder for one logical byte stream, bound to the
/// message catalog whose seed bytes validate checksums.
pub struct MAVLinkV2Codec<M: Message> {
    pub _phantom: PhantomData<M>,
    pub state: DecoderState,
    pub message: MAVLinkV2MessageRaw,
}

impl<M: Message> MAVLinkV2Codec<M> {
    /// The in-progress frame buffer.
    pub open spec fn frame(&self) -> Seq<u8> {
        self.message@
    }

    pub open spec fn wf(&self) -> bool {
        self.message.wf()
    }

    /// A fresh decoder: searching for a marker, frame buffer zeroed.
    pub fn new() -> (r: Self)
        ensures
            r.wf(),
            r.state == DecoderState::SearchForMagicByte,
            r.frame() == frame_default(),
    {
        MAVLinkV2Codec {
            _phantom: PhantomData,
            state: DecoderState::SearchForMagicByte,
            message: MAVLinkV2MessageRaw::new(),
        }
    }

    /// Clears the machine back to searching with a zeroed frame buffer.
    /// Must be called after a successful decode before the next one;
    /// nothing is consumed from the caller's buffer here, so the next
    /// search pass is what skips the bytes of an already-emitted frame.
    pub fn reset(&mut self)
        ensures
            final(self).wf(),
            final(self).state == DecoderState::SearchForMagicByte,
            final(self).frame() == frame_default(),
    {
        self.state = DecoderState::SearchForMagicByte;
        self.message = MAVLinkV2MessageRaw::new();
    }

    /// Runs the machine over the bytes currently in `src`: returns a
    /// validated frame as soon as one is complete, or nothing when more
    /// bytes are needed. Never fails; `spec_decode` states exactly what
    /// is consumed, what the machine's state becomes and what is emitted.
    pub fn decode(&mut self, src: &mut BytesMut) -> (r: Option<MAVLinkV2MessageRaw>)
        requires
            old(self).wf(),
        ensures
            final(self).wf(),
            ({
                let o = spec_decode::<M>(
                    old(self).state,
                    old(self).frame(),
                    bytes_view(*old(src)),
                );
                &&& final(self).state == o.state
                &&& final(self).frame() == o.frame
                &&& bytes_view(*final(src)) == o.buf
                &&& (match r {
                    Some(m) => o.emit == Some(m@) && m.wf(),
                    None => o.emit is None,
                })
            }),
    {
        loop
            invariant
                self.wf(),
                spec_decode::<M>(self.state, self.frame(), bytes_view(*src)) == spec_decode::<M>(
                    old(self).state,
                    old(self).frame(),
                    bytes_view(*old(src)),
                ),
            decreases bytes_view(*src).len(), state_rank(self.state),
        {
            let ghost st_entry = self.state;
            let ghost fr_entry = self.frame();
            let ghost b_entry = bytes_view(*src);
            match self.state {
                DecoderState::SearchForMagicByte => {
                    if buf_len(src) == 0 {
                        return None;
                    }
                    let magic = buf_byte(src, 0);
                    buf_advance(src, 1);
                    if magic == MAV_STX_V2 {
                        self.message.0.set(0, MAV_STX_V2);
                        self.state = DecoderState::ParseHeader;
                        assert(self.frame() =~= fr_entry.update(0, MAV_STX_V2));
                    }
                },
                DecoderState::ParseHeader => {
                    if buf_len(src) >= MAVLINK_V2_HEADER_SIZE {
                        let mut i: usize = 0;
                        while i < MAVLINK_V2_HEADER_SIZE
                            invariant
                                i <= 9,
                                self.wf(),
                                self.state == st_entry,
                                bytes_view(*src) == b_entry,
                                b_entry.len() >= 9,
                                forall|j: int| 0 <= j < i ==> self.frame()[1 + j] == b_entry[j],
                                forall|j: int|
                                    0 <= j < 280 && !(1 <= j < 1 + i) ==> self.frame()[j]
                                        == fr_entry[j],
                            decreases 9 - i,
                        {
                            let v = buf_byte(src, i);
                            self.message.0.set(1 + i, v);
                            i = i + 1;
                        }
                        assert(self.frame() =~= write_range(fr_entry, 1, b_entry.take(9)));
                        if self.message.incompatibility_flags() & !MAVLINK_SUPPORTED_IFLAGS > 0 {
                            self.reset();
                        } else {
                            self.state = DecoderState::ParsePayload;
                        }
                    } else {
                        return None;
                    }
                },
                DecoderState::ParsePayload => {
                    let pl = self.message.payload_length() as usize;
                    let sig = self.message.signature_lenght();
                    let trailing = pl + 2 + sig;
                    assert(trailing == spec_trailing_len(fr_entry));
                    if buf_len(src) >= trailing + 9 {
                        let mut i: usize = 0;
                        while i < trailing
                            invariant
                                i <= trailing,
                                trailing <= 270,
                                trailing == spec_trailing_len(fr_entry),
                                self.wf(),
                                self.state == st_entry,
                                bytes_view(*src) == b_entry,
                                b_entry.len() >= 9 + trailing,
                                forall|j: int|
                                    0 <= j < i ==> #[trigger] self.frame()[10 + j] == b_entry[9
                                        + j],
                                forall|j: int|
                                    0 <= j < 280 && !(10 <= j < 10 + i) ==> self.frame()[j]
                                        == fr_entry[j],
                            decreases trailing - i,
                        {
                            let v = buf_byte(src, 9 + i);
                            self.message.0.set(10 + i, v);
                            i = i + 1;
                        }
                        assert forall|j: int| 10 <= j < 10 + trailing implies self.frame()[j]
                            == b_entry[j - 1] by {
                            assert(self.frame()[10 + (j - 10)] == b_entry[9 + (j - 10)]);
                        }
                        assert(self.frame() =~= write_range(
                            fr_entry,
                            10,
                            b_entry.subrange(9, 9 + trailing as int),
                        ));
                        self.state = DecoderState::CheckCRC;
                    } else {
                        return None;
                    }
                },
                DecoderState::CheckCRC => {
                    if !self.message.has_valid_crc::<M>() {
                        self.reset();
                    } else {
                        let out = self.message.clone_frame();
                        return Some(out);
                    }
                },
            }
        }
    }
}

impl<M: Message> Default for MAVLinkV2Codec<M> {
    fn default() -> (r: Self)
        ensures
            r.wf(),
            r.state == DecoderState::SearchForMagicByte,
            r.frame() == frame_default(),
    {
        Self::new()
    }
}

/// A complete well-formed wire frame: marker first, a length consistent
/// with its payload-length byte and signing flag, only supported
/// incompatibility flags, and a checksum that matches its contents.
pub open spec fn valid_frame<M: Message>(s: Seq<u8>) -> bool {
    &&& s.len() == 12 + s[1] + spec_signature_len(s[2])
    &&& s[0] == MAV_STX_V2
    &&& s[2] & !MAVLINK_SUPPORTED_IFLAGS == 0
    &&& spec_crc_ok::<M>(s)
}

/// A frame's wire bytes as they sit in the decoder's fixed buffer: the
/// frame itself followed by zeros up to the buffer's capacity.
pub open spec fn padded_frame(s: Seq<u8>) -> Seq<u8> {
    s + Seq::new((280 - s.len()) as nat, |i: int| 0u8)
}

/// A fresh decoder fed a valid frame (with anything after it) validates
/// and emits exactly that frame in one call, consuming only the marker
/// byte; the frame's own tail is left for the next search to skip.
pub proof fn lemma_decode_whole_frame<M: Message>(s: Seq<u8>, rest: Seq<u8>)
    requires
        valid_frame::<M>(s),
    ensures
        ({
            let o = spec_decode::<M>(
                DecoderState::SearchForMagicByte,
                frame_default(),
                s + rest,
            );
            &&& o.state == DecoderState::CheckCRC
            &&& o.frame == padded_frame(s)
            &&& o.buf == s.skip(1) + rest
            &&& o.emit == Some(padded_frame(s))
        }),
{
    let b = s + rest;
    let pl = s[1] as int;
    let sig = spec_signature_len(s[2]);
    let tl = pl + 2 + sig;
    assert(s.len() == 10 + tl);
    assert(b[0] == MAV_STX_V2);
    let fr1 = frame_default().update(0, MAV_STX_V2);
    let b1 = b.skip(1);
    assert(b1 =~= s.skip(1) + rest);
    assert(b1.len() >= 9 + tl);
    let fr2 = write_range(fr1, 1, b1.take(9));
    assert(fr2[1] == s[1] && fr2[2] == s[2]);
    assert(fr2[2] & !MAVLINK_SUPPORTED_IFLAGS == 0);
    assert(spec_trailing_len(fr2) == tl);
    let fr3 = write_range(fr2, 10, b1.subrange(9, 9 + tl));
    assert forall|j: int| 0 <= j < 280 implies fr3[j] == padded_frame(s)[j] by {
        if 1 <= j < 10 {
            assert(fr3[j] == b1[j - 1]);
            assert(b1[j - 1] == s[j]);
        } else if 10 <= j < 10 + tl {
            assert(fr3[j] == b1.subrange(9, 9 + tl)[j - 10]);
            assert(b1[9 + (j - 10)] == s[j]);
        }
    }
    assert(fr3 =~= padded_frame(s));
    assert(fr3.subrange(1, 10 + fr3[1] as int) =~= s.subrange(1, 10 + s[1] as int));
    assert(spec_crc_ok::<M>(fr3));
    assert(spec_decode::<M>(DecoderState::SearchForMagicByte, frame_default(), b)
        == spec_decode::<M>(DecoderState::ParseHeader, fr1, b1));
    assert(spec_decode::<M>(DecoderState::ParseHeader, fr1, b1) == spec_decode::<M>(
        DecoderState::ParsePayload,
        fr2,
        b1,
    ));
    assert(spec_decode::<M>(DecoderState::ParsePayload, fr2, b1) == spec_decode::<M>(
        DecoderState::CheckCRC,
        fr3,
        b1,
    ));
}

/// Bytes in front of the buffer that never match the marker are
/// discarded by the search without affecting anything that follows: a
/// stream that starts mid-frame loses only that partial prefix.
pub proof fn lemma_skip_junk<M: Message>(fr: Seq<u8>, junk: Seq<u8>, b: Seq<u8>)
    requires
        forall|i: int| 0 <= i < junk.len() ==> junk[i] != MAV_STX_V2,
    ensures
        spec_decode::<M>(DecoderState::SearchForMagicByte, fr, junk + b) == spec_decode::<M>(
            DecoderState::SearchForMagicByte,
            fr,
            b,
        ),
    decreases junk.len(),
{
    if junk.len() == 0 {
        assert(junk + b =~= b);
    } else {
        let jb = junk + b;
        assert(jb.len() > 0 && jb[0] == junk[0]);
        assert(jb.skip(1) =~= junk.skip(1) + b);
        lemma_skip_junk::<M>(fr, junk.skip(1), b);
    }
}

/// Chunked feeding changes nothing: when a call ends without emitting a
/// frame, appending more bytes and calling again behaves exactly as if
/// all the bytes had been present from the start.
pub proof fn lemma_decode_append<M: Message>(
    st: DecoderState,
    fr: Seq<u8>,
    b: Seq<u8>,
    more: Seq<u8>,
)
    requires
        spec_decode::<M>(st, fr, b).emit is None,
    ensures
        ({
            let o = spec_decode::<M>(st, fr, b);
            spec_decode::<M>(st, fr, b + more) == spec_decode::<M>(o.state, o.frame, o.buf + more)
        }),
    decreases b.len(), state_rank(st),
{
    let o = spec_decode::<M>(st, fr, b);
    let bm = b + more;
    match st {
        DecoderState::SearchForMagicByte => {
            if b.len() == 0 {
                assert(bm =~= o.buf + more);
            } else {
                assert(bm[0] == b[0]);
                assert(bm.skip(1) =~= b.skip(1) + more);
                if b[0] == MAV_STX_V2 {
                    lemma_decode_append::<M>(
                        DecoderState::ParseHeader,
                        fr.update(0, MAV_STX_V2),
                        b.skip(1),
                        more,
                    );
                } else {
                    lemma_decode_append::<M>(st, fr, b.skip(1), more);
                }
            }
        },
        DecoderState::ParseHeader => {
            if b.len() >= 9 {
                assert(bm.take(9) =~= b.take(9));
                let fr2 = write_range(fr, 1, b.take(9));
                if fr2[2] & !MAVLINK_SUPPORTED_IFLAGS != 0 {
                    lemma_decode_append::<M>(
                        DecoderState::SearchForMagicByte,
                        frame_default(),
                        b,
                        more,
                    );
                } else {
                    lemma_decode_append::<M>(DecoderState::ParsePayload, fr2, b, more);
                }
            }
        },
        DecoderState::ParsePayload => {
            if b.len() >= 9 + spec_trailing_len(fr) {
                assert(bm.subrange(9, 9 + spec_trailing_len(fr)) =~= b.subrange(
                    9,
                    9 + spec_trailing_len(fr),
                ));
                lemma_decode_append::<M>(
                    DecoderState::CheckCRC,
                    write_range(fr, 10, b.subrange(9, 9 + spec_trailing_len(fr))),
                    b,
                    more,
                );
            }
        },
        DecoderState::CheckCRC => {
            if !spec_crc_ok::<M>(fr) {
                lemma_decode_append::<M>(
                    DecoderState::SearchForMagicByte,
                    frame_default(),
                    b,
                    more,
                );
            }
        },
    }
}

/// A stray marker byte whose following bytes carry unsupported
/// incompatibility flags is rejected while parsing the header: the
/// machine returns to searching right after the stray marker, with
/// everything after it still in place.
pub proof fn lemma_reject_bad_header<M: Message>(fr: Seq<u8>, b: Seq<u8>)
    requires
        fr.len() == 280,
        b.len() >= 10,
        b[0] == MAV_STX_V2,
        b[2] & !MAVLINK_SUPPORTED_IFLAGS != 0,
    ensures
        spec_decode::<M>(DecoderState::SearchForMagicByte, fr, b) == spec_decode::<M>(
            DecoderState::SearchForMagicByte,
            frame_default(),
            b.skip(1),
        ),
{
    let b1 = b.skip(1);
    let fr1 = fr.update(0, MAV_STX_V2);
    assert(b1.len() >= 9);
    let fr2 = write_range(fr1, 1, b1.take(9));
    assert(fr2[2] == b1[1]);
    assert(fr2[2] & !MAVLINK_SUPPORTED_IFLAGS != 0);
    assert(spec_decode::<M>(DecoderState::SearchForMagicByte, fr, b) == spec_decode::<M>(
        DecoderState::ParseHeader,
        fr1,
        b1,
    ));
    assert(spec_decode::<M>(DecoderState::ParseHeader, fr1, b1) == spec_decode::<M>(
        DecoderState::SearchForMagicByte,
        frame_default(),
        b1,
    ));
}

/// A complete frame candidate whose checksum does not match is rejected
/// after the checksum step: the machine returns to searching right after
/// the candidate's marker byte, so a corrupted frame is never emitted
/// and decoding continues behind it.
pub proof fn lemma_reject_bad_crc<M: Message>(fr: Seq<u8>, b: Seq<u8>)
    requires
        fr.len() == 280,
        b.len() >= 12 + b[1] + spec_signature_len(b[2]),
        b[0] == MAV_STX_V2,
        b[2] & !MAVLINK_SUPPORTED_IFLAGS == 0,
        !spec_crc_ok::<M>(b.subrange(0, 12 + b[1] + spec_signature_len(b[2]))),
    ensures
        spec_decode::<M>(DecoderState::SearchForMagicByte, fr, b) == spec_decode::<M>(
            DecoderState::SearchForMagicByte,
            frame_default(),
            b.skip(1),
        ),
{
    let pl = b[1] as int;
    let sig = spec_signature_len(b[2]);
    let tl = pl + 2 + sig;
    let cand = b.subrange(0, 10 + tl);
    let b1 = b.skip(1);
    let fr1 = fr.update(0, MAV_STX_V2);
    assert(b1.len() >= 9 + tl);
    let fr2 = write_range(fr1, 1, b1.take(9));
    assert(fr2[1] == b[1] && fr2[2] == b[2]);
    assert(spec_trailing_len(fr2) == tl);
    let fr3 = write_range(fr2, 10, b1.subrange(9, 9 + tl));
    assert forall|j: int| 0 <= j < 10 + tl implies fr3[j] == cand[j] by {
        if 1 <= j < 10 {
            assert(fr3[j] == b1[j - 1]);
        } else if 10 <= j < 10 + tl {
            assert(fr3[j] == b1.subrange(9, 9 + tl)[j - 10]);
        }
    }
    assert(fr3[1] == cand[1]);
    assert(fr3.subrange(1, 10 + fr3[1] as int) =~= cand.subrange(1, 10 + cand[1] as int));
    assert(spec_message_id(fr3) == spec_message_id(cand));
    assert(spec_stored_checksum(fr3) == spec_stored_checksum(cand));
    assert(!spec_crc_ok::<M>(fr3));
    assert(spec_decode::<M>(DecoderState::SearchForMagicByte, fr, b) == spec_decode::<M>(
        DecoderState::ParseHeader,
        fr1,
        b1,
    ));
    assert(spec_decode::<M>(DecoderState::ParseHeader, fr1, b1) == spec_decode::<M>(
        DecoderState::ParsePayload,
        fr2,
        b1,
    ));
    assert(spec_decode::<M>(DecoderState::ParsePayload, fr2, b1) == spec_decode::<M>(
        DecoderState::CheckCRC,
        fr3,
        b1,
    ));
    assert(spec_decode::<M>(DecoderState::CheckCRC, fr3, b1) == spec_decode::<M>(
        DecoderState::SearchForMagicByte,
        frame_default(),
        b1,
    ));
}


/// A stray marker byte injected ahead of a real frame does not prevent
/// the real frame from being decoded: the false candidate's header is
/// rejected, the bytes behind the stray marker are re-scanned, and the
/// real frame is validated and emitted in the same call.
pub proof fn lemma_stray_marker_recovers<M: Message>(x: u8, y: u8, s: Seq<u8>, rest: Seq<u8>)
    requires
        valid_frame::<M>(s),
        y & !MAVLINK_SUPPORTED_IFLAGS != 0,
        x != MAV_STX_V2,
        y != MAV_STX_V2,
    ensures
        spec_decode::<M>(
            DecoderState::SearchForMagicByte,
            frame_default(),
            seq![MAV_STX_V2, x, y] + (s + rest),
        ).emit == Some(padded_frame(s)),
{
    let b = seq![MAV_STX_V2, x, y] + (s + rest);
    assert(b.len() >= 10 && b[0] == MAV_STX_V2 && b[2] == y);
    lemma_reject_bad_header::<M>(frame_default(), b);
    assert(b.skip(1) =~= seq![x, y] + (s + rest));
    lemma_skip_junk::<M>(frame_default(), seq![x, y], s + rest);
    lemma_decode_whole_frame::<M>(s, rest);
}


/// The step that consumes one frame from the stream: a fresh search on a
/// valid frame emits it, and after the caller's reset the machine on the
/// leftover bytes behaves exactly as a fresh decoder on the bytes that
/// followed the frame. Applying this once per frame yields N frames, in
/// order, from N concatenated frames, none skipped and none duplicated.
/// Holds whenever no byte of the frame's tail coincides with the marker.
pub proof fn lemma_frame_consumed_after_reset<M: Message>(s: Seq<u8>, rest: Seq<u8>)
    requires
        valid_frame::<M>(s),
        forall|i: int| 1 <= i < s.len() ==> s[i] != MAV_STX_V2,
    ensures
        spec_decode::<M>(DecoderState::SearchForMagicByte, frame_default(), s + rest).emit
            == Some(padded_frame(s)),
        spec_decode::<M>(
            DecoderState::SearchForMagicByte,
            frame_default(),
            spec_decode::<M>(DecoderState::SearchForMagicByte, frame_default(), s + rest).buf,
        ) == spec_decode::<M>(DecoderState::SearchForMagicByte, frame_default(), rest),
{
    lemma_decode_whole_frame::<M>(s, rest);
    lemma_skip_junk::<M>(frame_default(), s.skip(1), rest);
}

/// Frames arrive in order, none skipped and none duplicated: a fresh
/// decoder fed two concatenated valid frames emits the first; after the
/// caller's reset, the next call skips the first frame's remaining bytes
/// and emits the second. Holds whenever no byte inside the first frame's
/// tail coincides with the marker (a payload byte equal to the marker
/// would first be tried as a frame start and only rejected by the
/// header or checksum check).
pub proof fn lemma_frames_in_order<M: Message>(s1: Seq<u8>, s2: Seq<u8>, rest: Seq<u8>)
    requires
        valid_frame::<M>(s1),
        valid_frame::<M>(s2),
        forall|i: int| 1 <= i < s1.len() ==> s1[i] != MAV_STX_V2,
    ensures
        ({
            let o1 = spec_decode::<M>(
                DecoderState::SearchForMagicByte,
                frame_default(),
                s1 + (s2 + rest),
            );
            let o2 = spec_decode::<M>(DecoderState::SearchForMagicByte, frame_default(), o1.buf);
            &&& o1.emit == Some(padded_frame(s1))
            &&& o2.emit == Some(padded_frame(s2))
            &&& o2.buf == s2.skip(1) + rest
        }),
{
    lemma_decode_whole_frame::<M>(s1, s2 + rest);
    let junk = s1.skip(1);
    assert(forall|i: int| 0 <= i < junk.len() ==> junk[i] != MAV_STX_V2);
    lemma_skip_junk::<M>(frame_default(), junk, s2 + rest);
    lemma_decode_whole_frame::<M>(s2, rest);
}

} // verus!
