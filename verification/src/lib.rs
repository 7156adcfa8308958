use vstd::prelude::*;

pub mod crypto;
pub mod error;
pub mod json;
pub mod payloads;
pub mod player;
pub mod protocol;
pub mod state;
pub mod sys;
pub mod wire;

verus! {

/// A peer close code can be recovered from (by resuming the session) unless it
/// is one of the terminal codes: 1000 (normal closure), 4014 (channel gone),
/// 4015 (server crash).
pub fn code_can_be_handled(code: u16) -> (r: bool)
    ensures
        r == (code != 1000 && code != 4014 && code != 4015),
{
    code != 1000 && code != 4014 && code != 4015
}


/// A standalone packet laboratory: the Lite-counter packet preparation
/// over a caller-supplied key, kept apart from the live pipeline so a
/// host can inspect datagrams. Unlike the pipeline's builder it appends
/// the whole 24-byte nonce as the tail, and advances the timestamp as
/// soon as the packet is prepared.
pub struct Debugger {
    /// The 32-byte session key.
    pub key: Vec<u8>,
    pub sequence: u16,
    pub timestamp: u32,
    pub ssrc: u32,
    pub lite_nonce: u32,
}

impl Debugger {
    /// The key is always exactly 32 bytes.
    pub open spec fn wf(&self) -> bool {
        self.key@.len() == 32
    }

    /// The key bytes, for contracts.
    pub open spec fn spec_key(&self) -> Seq<u8> {
        self.key@
    }

    pub fn new(secret_key: Vec<u8>) -> (r: Self)
        requires
            secret_key@.len() == 32,
        ensures
            r.wf(),
            r.spec_key() == secret_key@,
            r.sequence == 0,
            r.timestamp == 0,
            r.ssrc == 0,
            r.lite_nonce == 0,
    {
        Debugger { key: secret_key, sequence: 0, timestamp: 0, ssrc: 0, lite_nonce: 0 }
    }

    /// Seals a buffer under an explicit 24-byte nonce.
    pub fn encrypt(&self, nonce: &[u8], buffer: &[u8]) -> (r: Vec<u8>)
        requires
            self.wf(),
            nonce@.len() == 24,
            buffer@.len() <= 0x10000,
        ensures
            r@ == crate::crypto::seal_of(self.spec_key(), nonce@, buffer@),
    {
        crate::crypto::seal(self.key.as_slice(), nonce, buffer)
    }

    /// Builds one Lite-counter datagram around an encoded payload: the
    /// sequence steps first and stands in the header, the payload is
    /// sealed under the zero-padded counter, and the full 24-byte nonce
    /// is appended. Both the counter and the timestamp advance.
    pub fn prepare_packet(&mut self, payload: &[u8]) -> (r: Vec<u8>)
        requires
            old(self).wf(),
            payload@.len() <= 0x2000,
        ensures
            final(self).wf(),
            final(self).spec_key() == old(self).spec_key(),
            final(self).sequence == crate::player::spec_inc16(old(self).sequence),
            final(self).lite_nonce == crate::player::spec_inc32(old(self).lite_nonce),
            final(self).timestamp == crate::player::spec_advance_ts(old(self).timestamp),
            final(self).ssrc == old(self).ssrc,
            ({
                let hdr = crate::player::spec_rtp_header(
                    crate::player::spec_inc16(old(self).sequence),
                    old(self).timestamp,
                    old(self).ssrc,
                );
                let nonce = crate::player::spec_lite_nonce24(old(self).lite_nonce);
                r@ == hdr + crate::crypto::seal_of(old(self).spec_key(), nonce, payload@) + nonce
            }),
    {
        let new_seq: u16 = if self.sequence == 0xFFFF {
            0
        } else {
            self.sequence + 1
        };
        self.sequence = new_seq;
        let mut header: Vec<u8> = Vec::new();
        header.push(0x80);
        header.push(0x78);
        crate::wire::push_u16_be(&mut header, new_seq);
        crate::wire::push_u32_be(&mut header, self.timestamp);
        crate::wire::push_u32_be(&mut header, self.ssrc);
        proof {
            assert(header@ =~= crate::player::spec_rtp_header(
                new_seq,
                self.timestamp,
                self.ssrc,
            ));
        }
        let mut nonce: Vec<u8> = Vec::new();
        crate::wire::push_u32_be(&mut nonce, self.lite_nonce);
        let mut i: usize = 0;
        while i < 20
            invariant
                i <= 20,
                nonce@ =~= crate::wire::spec_u32_be(self.lite_nonce) + Seq::new(
                    i as nat,
                    |j: int| 0u8,
                ),
            decreases 20 - i,
        {
            nonce.push(0);
            proof {
                assert(nonce@ =~= crate::wire::spec_u32_be(self.lite_nonce) + Seq::new(
                    (i + 1) as nat,
                    |j: int| 0u8,
                ));
            }
            i = i + 1;
        }
        proof {
            assert(nonce@ =~= crate::player::spec_lite_nonce24(self.lite_nonce));
        }
        let sealed = crate::crypto::seal(self.key.as_slice(), nonce.as_slice(), payload);
        let mut out = header;
        out.extend_from_slice(sealed.as_slice());
        out.extend_from_slice(nonce.as_slice());
        self.lite_nonce = if self.lite_nonce == 0xFFFFFFFF {
            0
        } else {
            self.lite_nonce + 1
        };
        self.timestamp = if self.timestamp <= 0xFFFFFFFF - 960 {
            self.timestamp + 960
        } else {
            self.timestamp - (0xFFFFFFFF - 960) - 1
        };
        out
    }
}

} // verus!
