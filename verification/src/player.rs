//! The media side: RTP-shaped packet construction under the three
//! nonce schemes, the reusable in-place buffer, and the decisions the
//! real-time loop takes each frame.
//!
//! The loop itself — reading PCM, sending datagrams, sleeping to the
//! next deadline — lives with the embedding; everything it decides is a
//! function here with an exact contract.
use vstd::prelude::*;

use crate::crypto::{random_nonce24, seal, seal_of};
use crate::error::ProtocolError;
use crate::payloads::EncryptionMode;
use crate::protocol::DiscordVoiceProtocol;
use crate::state::LifecycleStage;
use crate::wire::{push_u16_be, push_u32_be, spec_u16_be, spec_u32_be};

verus! {

/// Samples per second.
pub const SAMPLING_RATE: u16 = 48000;

/// Audio channels.
pub const CHANNELS: u16 = 2;

/// Milliseconds of audio per frame.
pub const FRAME_LENGTH: u16 = 20;

/// Bytes per sample pair: 16 bits times two channels.
pub const SAMPLE_SIZE: u16 = 4;

/// Samples per 20 ms frame at 48 kHz.
pub const SAMPLES_PER_FRAME: u32 = 960;

/// Bytes per 20 ms PCM frame.
pub const FRAME_SIZE: u32 = 3840;

/// The scratch buffer size: 1275 bytes for an ideal encoded frame, plus
/// room for the header, both nonce layouts, the tag, and slack.
pub const MAX_BUFFER_SIZE: usize = 1275 + 24 + 12 + 24 + 16 + 12;

/// Where the encoded payload starts in the scratch buffer.
pub const BUFFER_OFFSET: usize = 12;

/// What kind of frames an audio source yields.
pub enum AudioType {
    /// Already encoded; passed through as-is.
    Opus,
    /// Raw 16-bit stereo PCM at 48 kHz, to be encoded.
    Pcm,
}

/// A source of 20 ms audio frames, implemented by the embedding.
/// `None` from a read means the source has terminated.
pub trait AudioSource {
    /// Which of the two read methods applies.
    fn get_type(&self) -> AudioType;

    /// One frame of 960 stereo samples, where the type is PCM.
    fn read_pcm_frame(&mut self) -> Option<Vec<i16>>;

    /// One already-encoded frame, where the type is Opus.
    fn read_opus_frame(&mut self) -> Option<Vec<u8>>;
}

// ---------------------------------------------------------------------------
// In-place buffer
// ---------------------------------------------------------------------------
/// A fixed-capacity byte buffer with a movable fill mark, for building
/// a packet in place: appends fail rather than grow the storage, and
/// shrinking zeroes the abandoned tail.
pub struct InPlaceBuffer {
    data: Vec<u8>,
    length: usize,
}

impl InPlaceBuffer {
    /// The fill mark never passes the capacity.
    pub closed spec fn wf(&self) -> bool {
        self.length <= self.data@.len()
    }

    /// The bytes up to the fill mark.
    pub closed spec fn view(&self) -> Seq<u8> {
        self.data@.take(self.length as int)
    }

    /// The fixed capacity.
    pub closed spec fn spec_capacity(&self) -> nat {
        self.data@.len()
    }

    /// Wraps storage whose first `length` bytes already count as
    /// content.
    pub fn new(data: Vec<u8>, length: usize) -> (r: Self)
        requires
            length <= data@.len(),
        ensures
            r.wf(),
            r@ == data@.take(length as int),
            r.spec_capacity() == data@.len(),
    {
        InPlaceBuffer { data, length }
    }

    /// Appends `other`, or fails (leaving everything unchanged) when
    /// the capacity cannot hold it.
    #[verifier::loop_isolation(false)]
    pub fn extend_from_slice(&mut self, other: &[u8]) -> (r: Result<(), ProtocolError>)
        requires
            old(self).wf(),
        ensures
            final(self).wf(),
            final(self).spec_capacity() == old(self).spec_capacity(),
            old(self)@.len() + other@.len() > old(self).spec_capacity() ==> (r is Err && final(self)@
                == old(self)@),
            old(self)@.len() + other@.len() <= old(self).spec_capacity() ==> (r is Ok && final(self)@
                == old(self)@ + other@),
    {
        if other.len() > self.data.len() - self.length {
            return Err(ProtocolError::Crypto);
        }
        let ghost orig = self.data@;
        let mut i: usize = 0;
        while i < other.len()
            invariant
                i <= other@.len(),
                self.length + other@.len() <= self.data@.len(),
                self.length == old(self).length,
                self.data@.len() == orig.len(),
                self.data@ =~= orig.subrange(0, self.length as int) + other@.take(i as int)
                    + orig.subrange(self.length + i, orig.len() as int),
            decreases other@.len() - i,
        {
            self.data.set(self.length + i, other[i]);
            proof {
                assert(self.data@ =~= orig.subrange(0, self.length as int) + other@.take(i + 1)
                    + orig.subrange(self.length + i + 1, orig.len() as int));
            }
            i = i + 1;
        }
        proof {
            assert(other@.take(other@.len() as int) =~= other@);
        }
        self.length = self.length + other.len();
        proof {
            assert(self.data@.take(self.length as int) =~= old(self)@ + other@);
        }
        Ok(())
    }

    /// Shrinks the content to `len` bytes, zeroing everything beyond,
    /// as wire scratch space should be; longer requests change nothing.
    #[verifier::loop_isolation(false)]
    pub fn truncate(&mut self, len: usize)
        requires
            old(self).wf(),
        ensures
            final(self).wf(),
            final(self).spec_capacity() == old(self).spec_capacity(),
            len < old(self)@.len() ==> final(self)@ == old(self)@.take(len as int),
            len >= old(self)@.len() ==> final(self)@ == old(self)@,
    {
        if len < self.length {
            let ghost orig = self.data@;
            let mut i: usize = len;
            while i < self.data.len()
                invariant
                    len <= i <= self.data@.len(),
                    self.length == old(self).length,
                    self.data@.len() == orig.len(),
                    self.data@ =~= orig.take(len as int) + Seq::new(
                        (i - len) as nat,
                        |j: int| 0u8,
                    ) + orig.subrange(i as int, orig.len() as int),
                decreases self.data@.len() - i,
            {
                self.data.set(i, 0);
                proof {
                    assert(self.data@ =~= orig.take(len as int) + Seq::new(
                        (i + 1 - len) as nat,
                        |j: int| 0u8,
                    ) + orig.subrange(i + 1, orig.len() as int));
                }
                i = i + 1;
            }
            self.length = len;
            proof {
                assert(self.data@.take(len as int) =~= old(self)@.take(len as int));
            }
        }
    }

    /// The current content length.
    pub fn len(&self) -> (r: usize)
        requires
            self.wf(),
        ensures
            r == self@.len(),
    {
        self.length
    }

    /// Whether the underlying storage is empty (note: the storage, not
    /// the content).
    pub fn is_empty(&self) -> (r: bool)
        ensures
            r == (self.spec_capacity() == 0),
    {
        self.data.len() == 0
    }
}

// ---------------------------------------------------------------------------
// Packet construction
// ---------------------------------------------------------------------------
/// The 12-byte RTP-shaped header: version 2, payload type 120, then the
/// sequence, timestamp and SSRC in big-endian.
pub open spec fn spec_rtp_header(seq: u16, ts: u32, ssrc: u32) -> Seq<u8> {
    seq![0x80u8, 0x78u8] + spec_u16_be(seq) + spec_u32_be(ts) + spec_u32_be(ssrc)
}

/// The Full-scheme nonce: the header zero-padded to 24 bytes.
pub open spec fn spec_full_nonce(header: Seq<u8>) -> Seq<u8> {
    header + Seq::new(12nat, |i: int| 0u8)
}

/// The Lite-scheme nonce: the big-endian counter zero-padded to 24
/// bytes.
pub open spec fn spec_lite_nonce24(counter: u32) -> Seq<u8> {
    spec_u32_be(counter) + Seq::new(20nat, |i: int| 0u8)
}

/// A sequence number one later, modulo 2^16.
pub open spec fn spec_inc16(x: u16) -> u16 {
    (((x as int) + 1) % 0x10000) as u16
}

/// A counter one later, modulo 2^32.
pub open spec fn spec_inc32(x: u32) -> u32 {
    (((x as int) + 1) % 0x100000000) as u32
}

/// A timestamp one frame later, modulo 2^32.
pub open spec fn spec_advance_ts(x: u32) -> u32 {
    (((x as int) + 960) % 0x100000000) as u32
}

/// Builds one outbound datagram per frame: keeps the rolling sequence,
/// timestamp and Lite counter, and seals each payload under the
/// session's key and mode.
pub struct PacketBuilder {
    pub sequence: u16,
    pub timestamp: u32,
    pub lite_nonce: u32,
    pub ssrc: u32,
    pub mode: EncryptionMode,
    /// The 32-byte session key.
    pub key: Vec<u8>,
}

impl PacketBuilder {
    /// The key is always exactly 32 bytes.
    pub open spec fn wf(&self) -> bool {
        self.key@.len() == 32
    }

    /// A fresh builder over the negotiated session: counters at zero,
    /// key, SSRC and mode snapshotted from the engine.
    pub fn from_protocol(proto: &DiscordVoiceProtocol) -> (r: Self)
        requires
            proto.wf(),
        ensures
            r.wf(),
            r.sequence == 0,
            r.timestamp == 0,
            r.lite_nonce == 0,
            r.ssrc == proto.ssrc,
            r.mode == proto.encryption,
            r.key@ == proto.secret_key@,
    {
        let mut key: Vec<u8> = Vec::new();
        key.extend_from_slice(proto.secret_key.as_slice());
        proof {
            assert(key@ =~= proto.secret_key@);
        }
        PacketBuilder {
            sequence: 0,
            timestamp: 0,
            lite_nonce: 0,
            ssrc: proto.ssrc,
            mode: proto.encryption,
            key,
        }
    }

    /// Builds the datagram for one sealed payload: the sequence steps
    /// first and stands in the header, the payload is sealed under the
    /// scheme's nonce, and the scheme's tail is appended. The Lite
    /// counter advances whatever the scheme; the timestamp does not
    /// move until [`Self::after_send`].
    pub fn build_packet(&mut self, payload: &[u8]) -> (r: Vec<u8>)
        requires
            old(self).wf(),
            payload@.len() <= 0x2000,
        ensures
            final(self).wf(),
            final(self).sequence == spec_inc16(old(self).sequence),
            final(self).lite_nonce == spec_inc32(old(self).lite_nonce),
            final(self).timestamp == old(self).timestamp,
            final(self).ssrc == old(self).ssrc,
            final(self).mode == old(self).mode,
            final(self).key == old(self).key,
            ({
                let hdr = spec_rtp_header(
                    spec_inc16(old(self).sequence),
                    old(self).timestamp,
                    old(self).ssrc,
                );
                &&& old(self).mode == EncryptionMode::XSalsa20Poly1305 ==> r@ == hdr + seal_of(
                    old(self).key@,
                    spec_full_nonce(hdr),
                    payload@,
                ) + spec_full_nonce(hdr)
                &&& old(self).mode == EncryptionMode::XSalsa20Poly1305Lite ==> r@ == hdr + seal_of(
                    old(self).key@,
                    spec_lite_nonce24(old(self).lite_nonce),
                    payload@,
                ) + spec_u32_be(old(self).lite_nonce)
                &&& old(self).mode == EncryptionMode::XSalsa20Poly1305Suffix ==> (exists|
                    n: Seq<u8>,
                |
                    n.len() == 24 && r@ == hdr + seal_of(old(self).key@, n, payload@) + n)
            }),
    {
        let new_seq: u16 = if self.sequence == 0xFFFF {
            0
        } else {
            self.sequence + 1
        };
        self.sequence = new_seq;
        let mut header: Vec<u8> = Vec::new();
        header.push(0x80);
        header.push(0x78);
        push_u16_be(&mut header, new_seq);
        push_u32_be(&mut header, self.timestamp);
        push_u32_be(&mut header, self.ssrc);
        proof {
            assert(header@ =~= spec_rtp_header(new_seq, self.timestamp, self.ssrc));
        }
        let mut nonce: Vec<u8> = Vec::new();
        match self.mode {
            EncryptionMode::XSalsa20Poly1305 => {
                nonce.extend_from_slice(header.as_slice());
                let mut i: usize = 0;
                while i < 12
                    invariant
                        i <= 12,
                        nonce@ =~= header@ + Seq::new(i as nat, |j: int| 0u8),
                    decreases 12 - i,
                {
                    nonce.push(0);
                    proof {
                        assert(nonce@ =~= header@ + Seq::new((i + 1) as nat, |j: int| 0u8));
                    }
                    i = i + 1;
                }
                proof {
                    assert(nonce@ =~= spec_full_nonce(header@));
                }
            },
            EncryptionMode::XSalsa20Poly1305Suffix => {
                nonce = random_nonce24();
            },
            EncryptionMode::XSalsa20Poly1305Lite => {
                push_u32_be(&mut nonce, self.lite_nonce);
                let mut i: usize = 0;
                while i < 20
                    invariant
                        i <= 20,
                        nonce@ =~= spec_u32_be(self.lite_nonce) + Seq::new(i as nat, |j: int| 0u8),
                    decreases 20 - i,
                {
                    nonce.push(0);
                    proof {
                        assert(nonce@ =~= spec_u32_be(self.lite_nonce) + Seq::new(
                            (i + 1) as nat,
                            |j: int| 0u8,
                        ));
                    }
                    i = i + 1;
                }
                proof {
                    assert(nonce@ =~= spec_lite_nonce24(self.lite_nonce));
                }
            },
        }
        let sealed = seal(self.key.as_slice(), nonce.as_slice(), payload);
        let mut out = header;
        out.extend_from_slice(sealed.as_slice());
        match self.mode {
            EncryptionMode::XSalsa20Poly1305Lite => {
                let tail = vstd::slice::slice_subrange(nonce.as_slice(), 0, 4);
                out.extend_from_slice(tail);
                proof {
                    assert(nonce@.subrange(0, 4) =~= spec_u32_be(self.lite_nonce));
                }
            },
            _ => {
                out.extend_from_slice(nonce.as_slice());
            },
        }
        self.lite_nonce = if self.lite_nonce == 0xFFFFFFFF {
            0
        } else {
            self.lite_nonce + 1
        };
        out
    }

    /// Accounts for one send attempt: the timestamp advances by one
    /// frame of samples only when the datagram actually left.
    pub fn after_send(&mut self, dropped: bool)
        ensures
            !dropped ==> *final(self) == (PacketBuilder {
                timestamp: spec_advance_ts(old(self).timestamp),
                ..*old(self)
            }),
            dropped ==> *final(self) == *old(self),
    {
        if !dropped {
            self.timestamp = if self.timestamp <= 0xFFFFFFFF - 960 {
                self.timestamp + 960
            } else {
                self.timestamp - (0xFFFFFFFF - 960) - 1
            };
        }
    }
}

/// What the media loop does at the top of an iteration, given the
/// lifecycle stage: exit when finished, park while paused, rebuild
/// after a disconnect, otherwise send the next frame.
pub enum PipelineDirective {
    Exit,
    WaitUntilNotPaused,
    Reconnect,
    Proceed,
}

/// The loop-top decision of the media pipeline.
pub fn pipeline_directive(stage: LifecycleStage) -> (r: PipelineDirective)
    ensures
        stage == LifecycleStage::Finished ==> r == PipelineDirective::Exit,
        stage == LifecycleStage::Paused ==> r == PipelineDirective::WaitUntilNotPaused,
        stage == LifecycleStage::Disconnected ==> r == PipelineDirective::Reconnect,
        (stage == LifecycleStage::Connected || stage == LifecycleStage::Playing) ==> r
            == PipelineDirective::Proceed,
{
    match stage {
        LifecycleStage::Finished => PipelineDirective::Exit,
        LifecycleStage::Paused => PipelineDirective::WaitUntilNotPaused,
        LifecycleStage::Disconnected => PipelineDirective::Reconnect,
        _ => PipelineDirective::Proceed,
    }
}

/// Whether a failed UDP send is a logged drop (the loop goes on,
/// without advancing the timestamp) or fatal to the pipeline.
pub fn send_failure_is_drop(would_block: bool, timed_out: bool) -> (r: bool)
    ensures
        r == (would_block || timed_out),
{
    would_block || timed_out
}


// ---------------------------------------------------------------------------
// Stream laws
// ---------------------------------------------------------------------------
/// The sequence value after `n` built packets, modulo 2^16.
pub open spec fn spec_seq_after(start: u16, n: nat) -> u16 {
    ((start + n) % 0x10000) as u16
}

/// The timestamp after `n` sent packets, modulo 2^32.
pub open spec fn spec_ts_after(start: u32, n: nat) -> u32 {
    ((start + 960 * n) % 0x100000000) as u32
}

/// Law: over a stream of built packets the sequence values form the
/// arithmetic progression `s+1, s+2, ...` modulo 2^16 — stepping the
/// builder once more (as `build_packet` does) lands exactly on the next
/// member of the progression.
pub proof fn lemma_sequence_progression(start: u16, n: nat)
    ensures
        spec_inc16(spec_seq_after(start, n)) == spec_seq_after(start, n + 1),
        spec_seq_after(start, 0) == start,
{
    vstd::arithmetic::div_mod::lemma_add_mod_noop(start + n, 1, 0x10000);
    assert(((start + n) % 0x10000 + 1int % 0x10000) % 0x10000 == (start + n + 1) % 0x10000);
}

/// Law: over a stream of sent (non-dropped) packets the timestamps
/// form the progression `t, t+960, t+1920, ...` modulo 2^32 — advancing
/// once more (as `after_send` does on a successful send) lands exactly
/// on the next member.
pub proof fn lemma_timestamp_progression(start: u32, n: nat)
    ensures
        spec_advance_ts(spec_ts_after(start, n)) == spec_ts_after(start, n + 1),
        spec_ts_after(start, 0) == start,
{
    vstd::arithmetic::div_mod::lemma_add_mod_noop(start + 960 * n, 960, 0x100000000);
    assert((((start + 960 * n) % 0x100000000) + 960int % 0x100000000) % 0x100000000 == (start + 960
        * n + 960) % 0x100000000);
    assert(960 * (n + 1) == 960 * n + 960) by (nonlinear_arith);
}

/// The nonce a receiver reconstructs from a datagram: the 24-byte tail
/// for the Full and Suffix schemes, the zero-padded 4-byte tail for
/// Lite.
pub open spec fn spec_nonce_from_packet(mode: EncryptionMode, pkt: Seq<u8>) -> Seq<u8> {
    match mode {
        EncryptionMode::XSalsa20Poly1305Lite => pkt.subrange(
            pkt.len() - 4,
            pkt.len() as int,
        ) + Seq::new(20nat, |i: int| 0u8),
        _ => pkt.subrange(pkt.len() - 24, pkt.len() as int),
    }
}

/// The sealed region of a datagram: everything between the header and
/// the nonce tail.
pub open spec fn spec_sealed_from_packet(mode: EncryptionMode, pkt: Seq<u8>) -> Seq<u8> {
    match mode {
        EncryptionMode::XSalsa20Poly1305Lite => pkt.subrange(12, pkt.len() - 4),
        _ => pkt.subrange(12, pkt.len() - 24),
    }
}

/// Law: a built datagram decomposes exactly: the sealed region is the
/// sealed box of the payload under the nonce the receiver
/// reconstructs from the tail, so decrypting with the same key yields
/// the payload back. For the Lite scheme the 4-byte tail is precisely
/// the leading 4 bytes of the reconstructed AEAD nonce.
pub proof fn lemma_packet_round_trip(
    mode: EncryptionMode,
    key: Seq<u8>,
    payload: Seq<u8>,
    hdr: Seq<u8>,
    nonce: Seq<u8>,
    pkt: Seq<u8>,
)
    requires
        hdr.len() == 12,
        nonce.len() == 24,
        seal_of(key, nonce, payload).len() == payload.len() + 16,
        mode == EncryptionMode::XSalsa20Poly1305 ==> nonce == spec_full_nonce(hdr),
        mode == EncryptionMode::XSalsa20Poly1305Lite ==> (exists|c: u32|
            nonce == spec_lite_nonce24(c)),
        (mode == EncryptionMode::XSalsa20Poly1305 || mode
            == EncryptionMode::XSalsa20Poly1305Suffix) ==> pkt == hdr + seal_of(
            key,
            nonce,
            payload,
        ) + nonce,
        mode == EncryptionMode::XSalsa20Poly1305Lite ==> pkt == hdr + seal_of(key, nonce, payload)
            + nonce.subrange(0, 4),
    ensures
        spec_nonce_from_packet(mode, pkt) == nonce,
        spec_sealed_from_packet(mode, pkt) == seal_of(key, nonce, payload),
        mode == EncryptionMode::XSalsa20Poly1305Lite ==> pkt.subrange(
            pkt.len() - 4,
            pkt.len() as int,
        ) == spec_nonce_from_packet(mode, pkt).subrange(0, 4),
{
    let sealed = seal_of(key, nonce, payload);
    match mode {
        EncryptionMode::XSalsa20Poly1305Lite => {
            assert(pkt.len() == 12 + sealed.len() + 4);
            assert(spec_sealed_from_packet(mode, pkt) =~= sealed);
            let c = choose|c: u32| nonce == spec_lite_nonce24(c);
            assert(spec_nonce_from_packet(mode, pkt) =~= nonce);
            assert(pkt.subrange(pkt.len() - 4, pkt.len() as int) =~= nonce.subrange(0, 4));
        },
        _ => {
            assert(pkt.len() == 12 + sealed.len() + 24);
            assert(spec_sealed_from_packet(mode, pkt) =~= sealed);
            assert(spec_nonce_from_packet(mode, pkt) =~= nonce);
        },
    }
}

} // verus!
