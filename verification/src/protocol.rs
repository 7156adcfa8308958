//! The signalling engine: the state machine behind the control channel.
//!
//! The engine holds the negotiated session and decides; it performs no
//! transport work itself. The embedding reads frames from the WebSocket
//! and the UDP socket and feeds them in as events; every decision comes
//! back as a list of [`EngineAction`]s for the embedding to perform, so
//! each step of the protocol is a function from plain values to plain
//! values with an exact contract.
use vstd::prelude::*;
use vstd::string::*;

use crate::error::ProtocolError;
use crate::payloads::EncryptionMode;
use crate::state::LifecycleStage;
use crate::wire::{push_u16_be, push_u32_be, spec_u16_be, spec_u16_from_be, spec_u32_be, u16_from_be};

verus! {

/// Where the handshake stands.
#[derive(Clone, Copy, PartialEq, Eq, Structural, Debug)]
pub enum SignallingStage {
    /// Waiting for the peer's HELLO.
    AwaitingHello,
    /// HELLO seen; IDENTIFY or RESUME is owed.
    Identifying,
    /// IDENTIFY or RESUME sent; waiting for READY.
    AwaitingReady,
    /// READY seen; the UDP discovery exchange is running.
    Discovering,
    /// SELECT_PROTOCOL sent; waiting for the session descriptor.
    AwaitingSessionDescription,
    /// The secret key is in hand; media may flow.
    Established,
    /// A close frame ended the session.
    Closed,
}

/// One thing the embedding must do after an engine step.
#[derive(Debug)]
pub enum EngineAction {
    /// Send this text frame on the control channel.
    SendText(Vec<u8>),
    /// Send a close frame with this code and reason.
    SendClose { code: u16, reason: String },
    /// Set the control stream's read timeout to this many milliseconds.
    SetReadTimeout(u64),
    /// Open the UDP socket towards this remote address.
    OpenUdp { ip: String, port: u16 },
    /// Send this datagram on the UDP socket and await a reply.
    SendDiscovery(Vec<u8>),
    /// Move the shared lifecycle register to this stage.
    SetLifecycle(LifecycleStage),
}

/// The signalling engine and the negotiated session it guards.
pub struct DiscordVoiceProtocol {
    pub endpoint: String,
    pub endpoint_ip: String,
    pub user_id: String,
    pub server_id: String,
    pub session_id: String,
    pub token: String,
    /// Ring of the most recent heartbeat round trips, in milliseconds,
    /// capacity 20, oldest first.
    pub recent_acks: Vec<u64>,
    pub close_code: u16,
    pub port: u16,
    /// Milliseconds between heartbeats; capped at 5000 once HELLO
    /// arrives, `u64::MAX` (never due) before.
    pub heartbeat_interval: u64,
    /// Millisecond timestamp of the last heartbeat send.
    pub last_heartbeat: u64,
    pub ssrc: u32,
    pub encryption: EncryptionMode,
    /// 32 bytes; all zero until the handshake is established.
    pub secret_key: Vec<u8>,
    pub stage: SignallingStage,
    /// Failed discovery exchanges so far in this handshake.
    pub discovery_attempts: u8,
}

impl DiscordVoiceProtocol {
    /// Structural soundness: the key is always exactly 32 bytes and the
    /// ack ring never exceeds its capacity.
    pub open spec fn wf(&self) -> bool {
        &&& self.secret_key@.len() == 32
        &&& self.recent_acks@.len() <= 20
    }

    /// Whether the handshake has delivered a key: the secret key holds
    /// any non-zero byte.
    pub open spec fn spec_has_key(&self) -> bool {
        exists|i: int| 0 <= i < self.secret_key@.len() && self.secret_key@[i] != 0
    }

    /// True once the secret key is non-zero, i.e. a SESSION_DESCRIPTION
    /// has been absorbed. Callers must not send media before this.
    pub fn has_session_key(&self) -> (r: bool)
        ensures
            r == self.spec_has_key(),
    {
        let mut i: usize = 0;
        while i < self.secret_key.len()
            invariant
                i <= self.secret_key@.len(),
                forall|j: int| 0 <= j < i ==> self.secret_key@[j] == 0,
            decreases self.secret_key@.len() - i,
        {
            if self.secret_key[i] != 0 {
                return true;
            }
            i = i + 1;
        }
        false
    }
}

/// Collects the session parameters before the dial.
pub struct ProtocolBuilder {
    pub endpoint: String,
    pub user_id: String,
    pub server_id: String,
    pub session_id: String,
    pub token: String,
}

impl ProtocolBuilder {
    pub fn new(endpoint: String) -> (r: Self)
        ensures
            r.endpoint == endpoint,
            r.user_id@ == Seq::<char>::empty(),
            r.server_id@ == Seq::<char>::empty(),
            r.session_id@ == Seq::<char>::empty(),
            r.token@ == Seq::<char>::empty(),
    {
        ProtocolBuilder {
            endpoint,
            user_id: String::new(),
            server_id: String::new(),
            session_id: String::new(),
            token: String::new(),
        }
    }

    pub fn user(&mut self, user_id: String)
        ensures
            *final(self) == (ProtocolBuilder { user_id, ..*old(self) }),
    {
        self.user_id = user_id;
    }

    pub fn server(&mut self, server_id: String)
        ensures
            *final(self) == (ProtocolBuilder { server_id, ..*old(self) }),
    {
        self.server_id = server_id;
    }

    pub fn session(&mut self, session_id: String)
        ensures
            *final(self) == (ProtocolBuilder { session_id, ..*old(self) }),
    {
        self.session_id = session_id;
    }

    pub fn auth(&mut self, token: String)
        ensures
            *final(self) == (ProtocolBuilder { token, ..*old(self) }),
    {
        self.token = token;
    }

    /// The engine a fresh connection starts from: nothing negotiated, a
    /// zero key, heartbeats never due, awaiting HELLO.
    pub fn build(self) -> (r: DiscordVoiceProtocol)
        ensures
            r.endpoint == self.endpoint,
            r.user_id == self.user_id,
            r.server_id == self.server_id,
            r.session_id == self.session_id,
            r.token == self.token,
            r.endpoint_ip@ == Seq::<char>::empty(),
            r.recent_acks@ == Seq::<u64>::empty(),
            r.close_code == 0,
            r.port == 0,
            r.heartbeat_interval == u64::MAX,
            r.ssrc == 0,
            r.encryption == EncryptionMode::XSalsa20Poly1305,
            r.secret_key@ =~= Seq::new(32nat, |i: int| 0u8),
            r.stage == SignallingStage::AwaitingHello,
            r.discovery_attempts == 0,
            r.wf(),
            !r.spec_has_key(),
    {
        let mut key: Vec<u8> = Vec::new();
        let mut i: usize = 0;
        while i < 32
            invariant
                i <= 32,
                key@ =~= Seq::new(i as nat, |j: int| 0u8),
            decreases 32 - i,
        {
            key.push(0);
            proof {
                assert(key@ =~= Seq::new((i + 1) as nat, |j: int| 0u8));
            }
            i = i + 1;
        }
        DiscordVoiceProtocol {
            endpoint: self.endpoint,
            user_id: self.user_id,
            server_id: self.server_id,
            session_id: self.session_id,
            token: self.token,
            endpoint_ip: String::new(),
            recent_acks: Vec::new(),
            close_code: 0,
            port: 0,
            heartbeat_interval: u64::MAX,
            last_heartbeat: 0,
            ssrc: 0,
            encryption: EncryptionMode::XSalsa20Poly1305,
            secret_key: key,
            stage: SignallingStage::AwaitingHello,
            discovery_attempts: 0,
        }
    }
}

// ---------------------------------------------------------------------------
// IPv4 literals
// ---------------------------------------------------------------------------
/// One decimal octet at `i`: value, end index. Leading zeros are
/// refused (`0` itself is fine), as the platform's address parser does.
pub open spec fn spec_parse_octet(s: Seq<u8>, i: int) -> Option<(u8, int)> {
    let j = crate::json::spec_digits_end(s, i);
    if j == i || j - i > 3 {
        None
    } else if s[i] == 0x30 && j - i > 1 {
        None
    } else {
        let v = crate::json::spec_dec_val(s, i, j, 0);
        if v > 255 {
            None
        } else {
            Some((v as u8, j))
        }
    }
}

/// A dotted-quad IPv4 literal covering all of `s`.
pub open spec fn spec_parse_ipv4(s: Seq<u8>) -> Option<Seq<u8>> {
    match spec_parse_octet(s, 0) {
        None => None,
        Some((a, i1)) => {
            if !(i1 < s.len() && s[i1] == 0x2e) {
                None
            } else {
                match spec_parse_octet(s, i1 + 1) {
                    None => None,
                    Some((b, i2)) => {
                        if !(i2 < s.len() && s[i2] == 0x2e) {
                            None
                        } else {
                            match spec_parse_octet(s, i2 + 1) {
                                None => None,
                                Some((c, i3)) => {
                                    if !(i3 < s.len() && s[i3] == 0x2e) {
                                        None
                                    } else {
                                        match spec_parse_octet(s, i3 + 1) {
                                            None => None,
                                            Some((d, i4)) => {
                                                if i4 == s.len() {
                                                    Some(seq![a, b, c, d])
                                                } else {
                                                    None
                                                }
                                            },
                                        }
                                    }
                                },
                            }
                        }
                    },
                }
            }
        },
    }
}

/// Reads one octet as `spec_parse_octet` describes.
fn parse_octet(s: &[u8], i: usize) -> (r: Option<(u8, usize)>)
    requires
        i <= s@.len(),
    ensures
        (match r {
            None => None,
            Some((v, j)) => Some((v, j as int)),
        }) == spec_parse_octet(s@, i as int),
        r matches Some(p) ==> i < p.1 <= s@.len(),
{
    proof {
        crate::json::lemma_digits_end_bounds(s@, i as int);
    }
    let j = crate::json::digits_end(s, i);
    if j == i || j - i > 3 {
        return None;
    }
    if s[i] == 0x30 && j - i > 1 {
        return None;
    }
    let mut acc: u32 = 0;
    let mut p = i;
    while p < j
        invariant
            i <= p <= j <= s@.len(),
            j - i <= 3,
            j == crate::json::spec_digits_end(s@, i as int),
            forall|k: int| i <= k < j ==> crate::json::is_digit(s@[k]),
            p - i == 0 ==> acc == 0,
            p - i == 1 ==> acc <= 9,
            p - i == 2 ==> acc <= 99,
            p - i == 3 ==> acc <= 999,
            crate::json::spec_dec_val(s@, i as int, j as int, 0) == crate::json::spec_dec_val(
                s@,
                p as int,
                j as int,
                acc as nat,
            ),
        decreases j - p,
    {
        let d = s[p] - 0x30;
        acc = acc * 10 + d as u32;
        p = p + 1;
    }
    proof {
        assert(crate::json::spec_dec_val(s@, i as int, j as int, 0) == acc as nat);
    }
    if acc > 255 {
        None
    } else {
        Some((acc as u8, j))
    }
}

/// Reads a dotted-quad IPv4 literal as `spec_parse_ipv4` describes.
pub fn parse_ipv4(s: &[u8]) -> (r: Option<Vec<u8>>)
    ensures
        (match r {
            None => None,
            Some(v) => Some(v@),
        }) == spec_parse_ipv4(s@),
{
    match parse_octet(s, 0) {
        None => None,
        Some((a, i1)) => {
            if !(i1 < s.len() && s[i1] == 0x2e) {
                return None;
            }
            match parse_octet(s, i1 + 1) {
                None => None,
                Some((b, i2)) => {
                    if !(i2 < s.len() && s[i2] == 0x2e) {
                        return None;
                    }
                    match parse_octet(s, i2 + 1) {
                        None => None,
                        Some((c, i3)) => {
                            if !(i3 < s.len() && s[i3] == 0x2e) {
                                return None;
                            }
                            match parse_octet(s, i3 + 1) {
                                None => None,
                                Some((d, i4)) => {
                                    if i4 == s.len() {
                                        let mut out: Vec<u8> = Vec::new();
                                        out.push(a);
                                        out.push(b);
                                        out.push(c);
                                        out.push(d);
                                        proof {
                                            assert(out@ =~= seq![a, b, c, d]);
                                        }
                                        Some(out)
                                    } else {
                                        None
                                    }
                                },
                            }
                        },
                    }
                },
            }
        },
    }
}

// ---------------------------------------------------------------------------
// UDP discovery
// ---------------------------------------------------------------------------
/// The 70-byte discovery probe: type 1, length 70, the SSRC, zeros.
pub open spec fn spec_discovery_request(ssrc: u32) -> Seq<u8> {
    spec_u16_be(1) + spec_u16_be(70) + spec_u32_be(ssrc) + Seq::new(62nat, |i: int| 0u8)
}

/// Builds the discovery probe as `spec_discovery_request` describes.
pub fn discovery_request(ssrc: u32) -> (r: Vec<u8>)
    ensures
        r@ == spec_discovery_request(ssrc),
        r@.len() == 70,
{
    let mut out: Vec<u8> = Vec::new();
    push_u16_be(&mut out, 1);
    push_u16_be(&mut out, 70);
    push_u32_be(&mut out, ssrc);
    let ghost head = out@;
    let mut i: usize = 0;
    while i < 62
        invariant
            i <= 62,
            out@ =~= head + Seq::new(i as nat, |j: int| 0u8),
        decreases 62 - i,
    {
        out.push(0);
        proof {
            assert(out@ =~= head + Seq::new((i + 1) as nat, |j: int| 0u8));
        }
        i = i + 1;
    }
    proof {
        assert(out@ =~= spec_discovery_request(ssrc));
    }
    out
}

/// First index in `[from, to)` holding a zero byte, or `to`.
pub open spec fn spec_find_zero(s: Seq<u8>, from: int, to: int) -> int
    decreases to - from,
{
    if from >= to {
        to
    } else if 0 <= from < s.len() && s[from] == 0 {
        from
    } else {
        spec_find_zero(s, from + 1, to)
    }
}

/// What a 70-byte discovery response decodes to: the ASCII IP found
/// null-terminated from offset 4, and the big-endian port in the last
/// two bytes. `None` when no terminator sits inside `[4, 68)`.
pub open spec fn spec_discovery_reply(s: Seq<u8>) -> Option<(Seq<u8>, u16)> {
    let z = spec_find_zero(s, 4, 68);
    if z == 68 {
        None
    } else {
        Some((s.subrange(4, z), spec_u16_from_be(s[68], s[69])))
    }
}

/// The reply decodes and its IP bytes are valid UTF-8.
pub open spec fn spec_discovery_ok(s: Seq<u8>) -> bool {
    match spec_discovery_reply(s) {
        Some(q) => vstd::utf8::valid_utf8(q.0),
        None => false,
    }
}

/// Decodes a discovery response as `spec_discovery_reply` describes.
pub fn parse_discovery_reply(s: &[u8]) -> (r: Option<(Vec<u8>, u16)>)
    requires
        s@.len() == 70,
    ensures
        (match r {
            None => None,
            Some((ip, port)) => Some((ip@, port)),
        }) == spec_discovery_reply(s@),
{
    let mut z: usize = 4;
    while z < 68 && s[z] != 0
        invariant
            4 <= z <= 68,
            s@.len() == 70,
            spec_find_zero(s@, 4, 68) == spec_find_zero(s@, z as int, 68),
        decreases 68 - z,
    {
        z = z + 1;
    }
    if z == 68 {
        return None;
    }
    let mut ip: Vec<u8> = Vec::new();
    let mut i: usize = 4;
    while i < z
        invariant
            4 <= i <= z < 68,
            s@.len() == 70,
            ip@ =~= s@.subrange(4, i as int),
        decreases z - i,
    {
        ip.push(s[i]);
        proof {
            assert(ip@ =~= s@.subrange(4, i + 1));
        }
        i = i + 1;
    }
    let port = u16_from_be(s[68], s[69]);
    proof {
        assert(ip@ =~= s@.subrange(4, z as int));
    }
    Some((ip, port))
}


// ---------------------------------------------------------------------------
// Decoding received frames
// ---------------------------------------------------------------------------
/// A received control frame, reduced to what the engine reacts to.
#[derive(Debug)]
pub enum ControlEvent {
    /// HELLO: the advertised heartbeat interval.
    Hello(crate::payloads::Hello),
    /// READY: the session essentials and the peer's mode list.
    Ready(crate::payloads::Ready),
    /// The peer asked for an immediate heartbeat.
    HeartbeatRequested,
    /// The peer acknowledged our last heartbeat.
    HeartbeatAck,
    /// SESSION_DESCRIPTION: the chosen mode and the 32-byte key.
    SessionDescription(crate::payloads::SessionDescription),
    /// Any other opcode, tolerated silently.
    Ignored,
}

/// Every string of a READY mode list is valid UTF-8.
pub open spec fn spec_modes_utf8(modes: Seq<Seq<u8>>) -> bool {
    forall|k: int| 0 <= k < modes.len() ==> vstd::utf8::valid_utf8(#[trigger] modes[k])
}

/// The mode list `rd` carries, re-encoded, is exactly `modes`.
pub open spec fn spec_ready_matches(
    rd: crate::payloads::Ready,
    ssrc: u64,
    ipb: Seq<u8>,
    port: u64,
    modes: Seq<Seq<u8>>,
) -> bool {
    &&& rd.ssrc == ssrc
    &&& vstd::utf8::encode_utf8(rd.ip@) == ipb
    &&& rd.port == port
    &&& rd.modes.deep_view().len() == modes.len()
    &&& forall|k: int|
        0 <= k < modes.len() ==> vstd::utf8::encode_utf8(
            #[trigger] rd.modes.deep_view()[k],
        ) == modes[k]
}

/// Turns one received text frame into a [`ControlEvent`], exactly as the
/// frame and payload grammars describe: a malformed frame or payload is
/// a `Parse` error, unknown opcodes are `Ignored`.
#[verifier::loop_isolation(false)]
pub fn decode_control(text: &[u8]) -> (r: Result<ControlEvent, ProtocolError>)
    ensures
        crate::payloads::spec_parse_frame(text@) is None ==> (r matches Err(e) && e is Parse),
        crate::payloads::spec_parse_frame(text@) matches Some(f) ==> {
            &&& f.0 == 8 ==> (match crate::payloads::spec_parse_hello(text@, f.1) {
                Some(v) => (r matches Ok(ev) && ev matches ControlEvent::Hello(h)
                    && h.heartbeat_interval == v),
                None => (r matches Err(e) && e is Parse),
            })
            &&& f.0 == 2 ==> (match crate::payloads::spec_parse_ready(text@, f.1) {
                Some(q) => if vstd::utf8::valid_utf8(q.1) && spec_modes_utf8(q.3) {
                    (r matches Ok(ev) && ev matches ControlEvent::Ready(rd) && spec_ready_matches(
                        rd,
                        q.0,
                        q.1,
                        q.2,
                        q.3,
                    ))
                } else {
                    (r matches Err(e) && e is Parse)
                },
                None => (r matches Err(e) && e is Parse),
            })
            &&& f.0 == 4 ==> (match crate::payloads::spec_parse_sdesc(text@, f.1) {
                Some(q) => if vstd::utf8::valid_utf8(q.0) && q.1.len() == 32 {
                    (r matches Ok(ev) && ev matches ControlEvent::SessionDescription(sd)
                        && vstd::utf8::encode_utf8(sd.mode@) == q.0 && sd.secret_key@ == q.1)
                } else {
                    (r matches Err(e) && e is Parse)
                },
                None => (r matches Err(e) && e is Parse),
            })
            &&& f.0 == 3 ==> (r matches Ok(ev) && ev is HeartbeatRequested)
            &&& f.0 == 6 ==> (r matches Ok(ev) && ev is HeartbeatAck)
            &&& (f.0 != 8 && f.0 != 2 && f.0 != 4 && f.0 != 3 && f.0 != 6) ==> (r matches Ok(ev)
                && ev is Ignored)
        },
{
    match crate::payloads::parse_frame(text) {
        None => Err(ProtocolError::Parse("invalid control frame".to_owned())),
        Some((op, ds, _de)) => {
            if op == 8 {
                match crate::payloads::parse_hello(text, ds) {
                    Some(v) => Ok(
                        ControlEvent::Hello(crate::payloads::Hello { heartbeat_interval: v }),
                    ),
                    None => Err(ProtocolError::Parse("invalid HELLO payload".to_owned())),
                }
            } else if op == 2 {
                match crate::payloads::parse_ready(text, ds) {
                    None => Err(ProtocolError::Parse("invalid READY payload".to_owned())),
                    Some((ssrc, ipb, port, mut modesb)) => {
                        let ghost orig = modesb.deep_view();
                        match crate::sys::bytes_to_string(ipb) {
                            None => Err(
                                ProtocolError::Parse("invalid READY payload".to_owned()),
                            ),
                            Some(ip) => {
                                let mut modes: Vec<String> = Vec::new();
                                while modesb.len() > 0
                                    invariant
                                        modes.deep_view().len() + modesb.deep_view().len()
                                            == orig.len(),
                                        forall|k: int|
                                            0 <= k < modes.deep_view().len()
                                                ==> vstd::utf8::encode_utf8(
                                                #[trigger] modes.deep_view()[k],
                                            ) == orig[k],
                                        forall|k: int|
                                            0 <= k < modesb.deep_view().len()
                                                ==> #[trigger] modesb.deep_view()[k]
                                                == orig[modes.deep_view().len() + k],
                                    decreases modesb.deep_view().len(),
                                {
                                    let ghost nb = modes.deep_view().len() as int;
                                    let ghost old_dv = modesb.deep_view();
                                    let b = modesb.remove(0);
                                    proof {
                                        assert(b@ =~= old_dv[0]);
                                        assert(modesb.deep_view() =~~= old_dv.skip(1));
                                    }
                                    match crate::sys::bytes_to_string(b) {
                                        None => {
                                            return Err(
                                                ProtocolError::Parse(
                                                    "invalid READY payload".to_owned(),
                                                ),
                                            );
                                        },
                                        Some(m) => {
                                            let ghost before = modes.deep_view();
                                            modes.push(m);
                                            proof {
                                                assert(modes.deep_view() =~~= before.push(m@));
                                            }
                                        },
                                    }
                                }
                                proof {
                                    assert(modesb.deep_view().len() == 0);
                                    assert forall|k: int|
                                        0 <= k < orig.len() implies vstd::utf8::valid_utf8(
                                        #[trigger] orig[k],
                                    ) by {
                                        assert(orig[k] == vstd::utf8::encode_utf8(
                                            modes.deep_view()[k],
                                        ));
                                        vstd::utf8::encode_utf8_valid_utf8(modes.deep_view()[k]);
                                    }
                                }
                                Ok(
                                    ControlEvent::Ready(
                                        crate::payloads::Ready { ssrc, ip, port, modes },
                                    ),
                                )
                            },
                        }
                    },
                }
            } else if op == 4 {
                match crate::payloads::parse_sdesc(text, ds) {
                    None => Err(
                        ProtocolError::Parse("invalid SESSION_DESCRIPTION payload".to_owned()),
                    ),
                    Some((modeb, kb)) => {
                        if kb.len() != 32 {
                            return Err(
                                ProtocolError::Parse(
                                    "invalid SESSION_DESCRIPTION payload".to_owned(),
                                ),
                            );
                        }
                        match crate::sys::bytes_to_string(modeb) {
                            None => Err(
                                ProtocolError::Parse(
                                    "invalid SESSION_DESCRIPTION payload".to_owned(),
                                ),
                            ),
                            Some(mode) => Ok(
                                ControlEvent::SessionDescription(
                                    crate::payloads::SessionDescription { mode, secret_key: kb },
                                ),
                            ),
                        }
                    },
                }
            } else if op == 3 {
                Ok(ControlEvent::HeartbeatRequested)
            } else if op == 6 {
                Ok(ControlEvent::HeartbeatAck)
            } else {
                Ok(ControlEvent::Ignored)
            }
        },
    }
}


// ---------------------------------------------------------------------------
// Engine transitions
// ---------------------------------------------------------------------------
/// The advertised heartbeat interval, capped at 5000 ms.
pub open spec fn spec_min_interval(adv: u64) -> u64 {
    if adv <= 5000 {
        adv
    } else {
        5000
    }
}

/// Milliseconds elapsed from `last` to `now` (zero when the clock moved
/// backwards).
pub open spec fn spec_elapsed(now: u64, last: u64) -> u64 {
    if now >= last {
        (now - last) as u64
    } else {
        0
    }
}

/// The ack ring after one more sample: capacity 20, oldest dropped.
pub open spec fn spec_push_ack(acks: Seq<u64>, delta: u64) -> Seq<u64> {
    if acks.len() < 20 {
        acks.push(delta)
    } else {
        acks.subrange(1, acks.len() as int).push(delta)
    }
}

/// The engine after a HELLO: interval capped, heartbeat clock started,
/// an IDENTIFY or RESUME owed.
pub open spec fn spec_apply_hello(
    m: DiscordVoiceProtocol,
    interval: u64,
    now: u64,
) -> DiscordVoiceProtocol {
    DiscordVoiceProtocol {
        heartbeat_interval: spec_min_interval(interval),
        last_heartbeat: now,
        stage: SignallingStage::Identifying,
        ..m
    }
}

/// The engine after a READY: session essentials stored, the mode
/// negotiated, discovery about to start.
pub open spec fn spec_apply_ready(
    m: DiscordVoiceProtocol,
    ssrc: u32,
    port: u16,
    ip: String,
    mode: EncryptionMode,
) -> DiscordVoiceProtocol {
    DiscordVoiceProtocol {
        ssrc,
        port,
        encryption: mode,
        endpoint_ip: ip,
        stage: SignallingStage::Discovering,
        discovery_attempts: 0,
        ..m
    }
}

/// The engine after a SESSION_DESCRIPTION: key and mode in hand.
pub open spec fn spec_apply_sdesc(
    m: DiscordVoiceProtocol,
    mode: EncryptionMode,
    key: Vec<u8>,
) -> DiscordVoiceProtocol {
    DiscordVoiceProtocol {
        encryption: mode,
        secret_key: key,
        stage: SignallingStage::Established,
        ..m
    }
}

impl DiscordVoiceProtocol {
    /// Whether a heartbeat is owed at `now_ms`.
    pub fn heartbeat_due(&self, now_ms: u64) -> (r: bool)
        ensures
            r == (spec_elapsed(now_ms, self.last_heartbeat) >= self.heartbeat_interval),
    {
        let elapsed = if now_ms >= self.last_heartbeat {
            now_ms - self.last_heartbeat
        } else {
            0
        };
        elapsed >= self.heartbeat_interval
    }

    /// Stamps a heartbeat send and returns its wire text.
    pub fn make_heartbeat(&mut self, now_ms: u64) -> (r: Vec<u8>)
        ensures
            *final(self) == (DiscordVoiceProtocol { last_heartbeat: now_ms, ..*old(self) }),
            r@ == crate::payloads::spec_heartbeat_json(now_ms),
    {
        self.last_heartbeat = now_ms;
        crate::payloads::Heartbeat::new(now_ms).to_json()
    }

    /// The heartbeat half of a poll step: a heartbeat to send now, if
    /// one is due.
    pub fn poll_prelude(&mut self, now_ms: u64) -> (r: Option<Vec<u8>>)
        ensures
            spec_elapsed(now_ms, old(self).last_heartbeat) >= old(self).heartbeat_interval ==> (r
                matches Some(t) && t@ == crate::payloads::spec_heartbeat_json(now_ms) && *final(self)
                == (DiscordVoiceProtocol { last_heartbeat: now_ms, ..*old(self) })),
            spec_elapsed(now_ms, old(self).last_heartbeat) < old(self).heartbeat_interval ==> (r
                is None && *final(self) == *old(self)),
    {
        if self.heartbeat_due(now_ms) {
            Some(self.make_heartbeat(now_ms))
        } else {
            None
        }
    }

    /// Sends IDENTIFY: its exact wire text, and READY becomes awaited.
    pub fn identify(&mut self) -> (r: Vec<u8>)
        ensures
            *final(self) == (DiscordVoiceProtocol {
                stage: SignallingStage::AwaitingReady,
                ..*old(self)
            }),
            r@ == crate::payloads::spec_identify_json(
                crate::payloads::spec_str_bytes(old(self).server_id@),
                crate::payloads::spec_str_bytes(old(self).user_id@),
                crate::payloads::spec_str_bytes(old(self).session_id@),
                crate::payloads::spec_str_bytes(old(self).token@),
            ),
    {
        let msg = crate::payloads::Identify::new(
            crate::payloads::IdentifyInfo {
                server_id: self.server_id.clone(),
                user_id: self.user_id.clone(),
                session_id: self.session_id.clone(),
                token: self.token.clone(),
            },
        );
        self.stage = SignallingStage::AwaitingReady;
        msg.to_json()
    }

    /// Sends RESUME: its exact wire text, and READY becomes awaited.
    pub fn resume(&mut self) -> (r: Vec<u8>)
        ensures
            *final(self) == (DiscordVoiceProtocol {
                stage: SignallingStage::AwaitingReady,
                ..*old(self)
            }),
            r@ == crate::payloads::spec_resume_json(
                crate::payloads::spec_str_bytes(old(self).token@),
                crate::payloads::spec_str_bytes(old(self).server_id@),
                crate::payloads::spec_str_bytes(old(self).session_id@),
            ),
    {
        let msg = crate::payloads::Resume::new(
            crate::payloads::ResumeInfo {
                token: self.token.clone(),
                server_id: self.server_id.clone(),
                session_id: self.session_id.clone(),
            },
        );
        self.stage = SignallingStage::AwaitingReady;
        msg.to_json()
    }

    /// The wire text of a SPEAKING frame with these flags.
    pub fn speaking(&mut self, flags: crate::payloads::SpeakingFlags) -> (r: Vec<u8>)
        ensures
            *final(self) == *old(self),
            r@ == crate::payloads::spec_speaking_json(flags.spec_value()),
    {
        crate::payloads::Speaking::new(flags).to_json()
    }

    /// Starts closing the connection from our side: the lifecycle drops
    /// to Disconnected and a close frame with the code and the reason
    /// "closing connection" is owed to the peer.
    pub fn close(&mut self, code: u16) -> (r: Vec<EngineAction>)
        ensures
            *final(self) == (DiscordVoiceProtocol { close_code: code, ..*old(self) }),
            r@.len() == 2,
            r@[0] == EngineAction::SetLifecycle(LifecycleStage::Disconnected),
            (r@[1] matches EngineAction::SendClose { code: c, reason } && c == code && reason@
                == "closing connection"@),
    {
        self.close_code = code;
        let mut out: Vec<EngineAction> = Vec::new();
        out.push(EngineAction::SetLifecycle(LifecycleStage::Disconnected));
        out.push(
            EngineAction::SendClose { code, reason: "closing connection".to_owned() },
        );
        out
    }

    /// Absorbs a close frame from the peer: the code is remembered, the
    /// lifecycle drops to Disconnected, and the session ends with
    /// `Closed` carrying that code.
    pub fn handle_close(&mut self, frame_code: Option<u16>) -> (r: (
        Vec<EngineAction>,
        ProtocolError,
    ))
        ensures
            *final(self) == (DiscordVoiceProtocol {
                close_code: (match frame_code {
                    Some(c) => c,
                    None => old(self).close_code,
                }),
                stage: SignallingStage::Closed,
                ..*old(self)
            }),
            r.0@.len() == 1,
            r.0@[0] == EngineAction::SetLifecycle(LifecycleStage::Disconnected),
            r.1 == ProtocolError::Closed(final(self).close_code),
    {
        if let Some(c) = frame_code {
            self.close_code = c;
        }
        self.stage = SignallingStage::Closed;
        let mut out: Vec<EngineAction> = Vec::new();
        out.push(EngineAction::SetLifecycle(LifecycleStage::Disconnected));
        (out, ProtocolError::Closed(self.close_code))
    }

    /// One decoded control frame is absorbed into the session state; the
    /// returned actions carry everything the embedding must send or set.
    pub fn apply_event(&mut self, ev: ControlEvent, now_ms: u64) -> (r: Result<
        Vec<EngineAction>,
        ProtocolError,
    >)
        requires
            old(self).wf(),
            (ev matches ControlEvent::SessionDescription(sd) ==> sd.secret_key@.len() == 32),
        ensures
            final(self).wf(),
            ev matches ControlEvent::Hello(h) ==> (r matches Ok(a) && *final(self)
                == spec_apply_hello(*old(self), h.heartbeat_interval, now_ms) && a@.len() == 1
                && a@[0] == EngineAction::SetReadTimeout(5000)),
            ev matches ControlEvent::Ready(rd) ==> {
                let mv = rd.modes.deep_view();
                &&& (crate::payloads::spec_any_mode(mv) && spec_parse_ipv4(
                    crate::payloads::spec_str_bytes(rd.ip@),
                ) is Some) ==> r is Ok
                &&& (r matches Ok(a) ==> {
                    &&& crate::payloads::spec_is_best_mode(mv, final(self).encryption)
                    &&& *final(self) == spec_apply_ready(
                        *old(self),
                        rd.ssrc,
                        rd.port,
                        rd.ip,
                        final(self).encryption,
                    )
                    &&& a@.len() == 2
                    &&& (a@[0] matches EngineAction::OpenUdp { ip, port } && ip == rd.ip && port
                        == rd.port)
                    &&& (a@[1] matches EngineAction::SendDiscovery(d) && d@
                        == spec_discovery_request(rd.ssrc))
                })
                &&& (!crate::payloads::spec_any_mode(mv) ==> (r matches Err(e) && e is Parse
                    && *final(self) == *old(self)))
                &&& ((crate::payloads::spec_any_mode(mv) && spec_parse_ipv4(
                    crate::payloads::spec_str_bytes(rd.ip@),
                ) is None) ==> (r matches Err(e) && e is Io && *final(self) == *old(self)))
            },
            ev matches ControlEvent::SessionDescription(sd) ==> {
                &&& (crate::payloads::spec_mode_of(sd.mode@) matches Some(m) ==> (r matches Ok(a)
                    && *final(self) == spec_apply_sdesc(*old(self), m, sd.secret_key) && a@.len()
                    == 1 && a@[0] == EngineAction::SetLifecycle(LifecycleStage::Connected)))
                &&& (crate::payloads::spec_mode_of(sd.mode@) is None ==> (r matches Err(e) && e
                    is Parse && *final(self) == *old(self)))
            },
            ev is HeartbeatRequested ==> (r matches Ok(a) && *final(self)
                == (DiscordVoiceProtocol { last_heartbeat: now_ms, ..*old(self) }) && a@.len() == 1
                && (a@[0] matches EngineAction::SendText(t) && t@
                == crate::payloads::spec_heartbeat_json(now_ms))),
            ev is HeartbeatAck ==> (r matches Ok(a) && a@.len() == 0 && *final(self)
                == (DiscordVoiceProtocol { recent_acks: final(self).recent_acks, ..*old(self) })
                && final(self).recent_acks@ == spec_push_ack(
                old(self).recent_acks@,
                spec_elapsed(now_ms, old(self).last_heartbeat),
            )),
            ev is Ignored ==> (r matches Ok(a) && a@.len() == 0 && *final(self) == *old(self)),
    {
        match ev {
            ControlEvent::Hello(h) => {
                self.heartbeat_interval = if h.heartbeat_interval <= 5000 {
                    h.heartbeat_interval
                } else {
                    5000
                };
                self.last_heartbeat = now_ms;
                self.stage = SignallingStage::Identifying;
                let mut out: Vec<EngineAction> = Vec::new();
                out.push(EngineAction::SetReadTimeout(5000));
                Ok(out)
            },
            ControlEvent::Ready(rd) => {
                let mode = match rd.get_encryption_mode() {
                    Ok(m) => m,
                    Err(e) => {
                        return Err(e);
                    },
                };
                let ip_bytes = rd.ip.as_str().as_bytes();
                match parse_ipv4(ip_bytes) {
                    None => Err(crate::error::custom_error("invalid IP address")),
                    Some(_) => {
                        self.ssrc = rd.ssrc;
                        self.port = rd.port;
                        self.encryption = mode;
                        self.endpoint_ip = rd.ip.clone();
                        self.stage = SignallingStage::Discovering;
                        self.discovery_attempts = 0;
                        let mut out: Vec<EngineAction> = Vec::new();
                        out.push(EngineAction::OpenUdp { ip: rd.ip, port: rd.port });
                        out.push(EngineAction::SendDiscovery(discovery_request(rd.ssrc)));
                        Ok(out)
                    },
                }
            },
            ControlEvent::SessionDescription(sd) => {
                match crate::payloads::EncryptionMode::from_name(&sd.mode) {
                    None => Err(ProtocolError::Parse("unknown encryption mode".to_owned())),
                    Some(m) => {
                        self.encryption = m;
                        self.secret_key = sd.secret_key;
                        self.stage = SignallingStage::Established;
                        let mut out: Vec<EngineAction> = Vec::new();
                        out.push(EngineAction::SetLifecycle(LifecycleStage::Connected));
                        Ok(out)
                    },
                }
            },
            ControlEvent::HeartbeatRequested => {
                let text = self.make_heartbeat(now_ms);
                let mut out: Vec<EngineAction> = Vec::new();
                out.push(EngineAction::SendText(text));
                Ok(out)
            },
            ControlEvent::HeartbeatAck => {
                let delta = if now_ms >= self.last_heartbeat {
                    now_ms - self.last_heartbeat
                } else {
                    0
                };
                let ghost before = self.recent_acks@;
                if self.recent_acks.len() == 20 {
                    self.recent_acks.remove(0);
                    proof {
                        assert(self.recent_acks@ =~= before.subrange(1, before.len() as int));
                    }
                }
                self.recent_acks.push(delta);
                proof {
                    assert(self.recent_acks@ =~= spec_push_ack(before, delta));
                }
                Ok(Vec::new())
            },
            ControlEvent::Ignored => Ok(Vec::new()),
        }
    }

    /// Absorbs one UDP discovery response. A well-formed reply yields
    /// the SELECT_PROTOCOL text to send; a malformed one is retried up
    /// to five times before the discovery error is surfaced.
    pub fn handle_discovery_response(&mut self, buf: &[u8]) -> (r: Result<
        Vec<EngineAction>,
        ProtocolError,
    >)
        requires
            buf@.len() == 70,
        ensures
            spec_discovery_reply(buf@) matches Some(q) ==> (vstd::utf8::valid_utf8(q.0) ==> (r
                matches Ok(a) && *final(self) == (DiscordVoiceProtocol {
                stage: SignallingStage::AwaitingSessionDescription,
                ..*old(self)
            }) && a@.len() == 1 && (a@[0] matches EngineAction::SendText(t) && t@
                == crate::payloads::spec_select_protocol_json(
                "udp".spec_bytes(),
                q.0,
                q.1,
                crate::payloads::spec_str_bytes(
                    crate::payloads::spec_mode_name(old(self).encryption),
                ),
            )))),
            (!spec_discovery_ok(buf@) && old(self).discovery_attempts < 5) ==> (r matches Ok(a)
                && *final(self) == (DiscordVoiceProtocol {
                discovery_attempts: (old(self).discovery_attempts + 1) as u8,
                ..*old(self)
            }) && a@.len() == 1 && (a@[0] matches EngineAction::SendDiscovery(d) && d@
                == spec_discovery_request(old(self).ssrc))),
            (!spec_discovery_ok(buf@) && old(self).discovery_attempts >= 5) ==> (r matches Err(e)
                && e is Io && *final(self) == *old(self)),
    {
        let parsed: Option<(String, u16)> = match parse_discovery_reply(buf) {
            None => None,
            Some((ipb, port)) => match crate::sys::bytes_to_string(ipb) {
                None => None,
                Some(ip) => Some((ip, port)),
            },
        };
        match parsed {
            Some((ip, port)) => {
                let msg = crate::payloads::SelectProtocol::from_addr(ip, port, self.encryption);
                let text = msg.to_json();
                self.stage = SignallingStage::AwaitingSessionDescription;
                let mut out: Vec<EngineAction> = Vec::new();
                out.push(EngineAction::SendText(text));
                Ok(out)
            },
            None => {
                if self.discovery_attempts < 5 {
                    self.discovery_attempts = self.discovery_attempts + 1;
                    let mut out: Vec<EngineAction> = Vec::new();
                    out.push(EngineAction::SendDiscovery(discovery_request(self.ssrc)));
                    Ok(out)
                } else {
                    Err(crate::error::custom_error("could not find end of IP"))
                }
            },
        }
    }
}


/// The sum of the ack ring, for the average.
pub open spec fn spec_sum(s: Seq<u64>) -> int
    decreases s.len(),
{
    if s.len() == 0 {
        0
    } else {
        spec_sum(s.drop_last()) + s.last()
    }
}

/// The sum of at most `len` samples stays under `len` times the
/// largest sample value.
pub proof fn lemma_sum_bound(s: Seq<u64>)
    ensures
        0 <= spec_sum(s),
        spec_sum(s) <= s.len() * 0xFFFFFFFFFFFFFFFF,
    decreases s.len(),
{
    if s.len() > 0 {
        lemma_sum_bound(s.drop_last());
        assert(s.len() * 0xFFFFFFFFFFFFFFFF == (s.len() - 1) * 0xFFFFFFFFFFFFFFFF
            + 0xFFFFFFFFFFFFFFFF) by (nonlinear_arith);
    }
}

impl DiscordVoiceProtocol {
    /// The most recent heartbeat round trip, in milliseconds.
    pub fn get_latency(&self) -> (r: Option<u64>)
        ensures
            self.recent_acks@.len() == 0 ==> r is None,
            self.recent_acks@.len() > 0 ==> r == Some(self.recent_acks@.last()),
    {
        if self.recent_acks.len() == 0 {
            None
        } else {
            Some(self.recent_acks[self.recent_acks.len() - 1])
        }
    }

    /// The mean of the recorded round trips, in milliseconds, rounded
    /// down; `None` while the ring is empty.
    #[verifier::loop_isolation(false)]
    pub fn get_average_latency(&self) -> (r: Option<u64>)
        requires
            self.wf(),
        ensures
            self.recent_acks@.len() == 0 ==> r is None,
            self.recent_acks@.len() > 0 ==> (r matches Some(v) && v as int == spec_sum(
                self.recent_acks@,
            ) / self.recent_acks@.len() as int),
    {
        let n = self.recent_acks.len();
        if n == 0 {
            return None;
        }
        let mut sum: u128 = 0;
        let mut i: usize = 0;
        while i < n
            invariant
                i <= n,
                sum == spec_sum(self.recent_acks@.take(i as int)),
                sum <= i * 0xFFFFFFFFFFFFFFFF,
            decreases n - i,
        {
            proof {
                assert(self.recent_acks@.take(i + 1).drop_last() =~= self.recent_acks@.take(
                    i as int,
                ));
                assert((i + 1) * 0xFFFFFFFFFFFFFFFF == i * 0xFFFFFFFFFFFFFFFF
                    + 0xFFFFFFFFFFFFFFFF) by (nonlinear_arith);
            }
            sum = sum + self.recent_acks[i] as u128;
            i = i + 1;
        }
        proof {
            assert(self.recent_acks@.take(n as int) =~= self.recent_acks@);
            lemma_sum_bound(self.recent_acks@);
            vstd::arithmetic::div_mod::lemma_div_is_ordered(
                spec_sum(self.recent_acks@),
                (n as int) * 0xFFFFFFFFFFFFFFFF,
                n as int,
            );
            vstd::arithmetic::div_mod::lemma_div_multiples_vanish(0xFFFFFFFFFFFFFFFF, n as int);
            assert((n as int) * 0xFFFFFFFFFFFFFFFF == 0xFFFFFFFFFFFFFFFF * (n as int))
                by (nonlinear_arith);
        }
        let avg = sum / (n as u128);
        Some(avg as u64)
    }
}

/// Law: for a handshake that absorbs HELLO, READY (with a usable mode)
/// and SESSION_DESCRIPTION (with a known mode and a 32-byte key holding
/// any non-zero byte) in order, the engine ends Established, carrying
/// exactly that key (hence a non-zero one) and the advertised heartbeat
/// interval capped at 5000 ms.
pub proof fn lemma_handshake(
    m0: DiscordVoiceProtocol,
    interval: u64,
    now0: u64,
    ssrc: u32,
    port: u16,
    ip: String,
    mode_r: EncryptionMode,
    mode_s: EncryptionMode,
    key: Vec<u8>,
)
    requires
        key@.len() == 32,
        exists|i: int| 0 <= i < key@.len() && key@[i] != 0,
    ensures
        ({
            let m1 = spec_apply_hello(m0, interval, now0);
            let m2 = spec_apply_ready(m1, ssrc, port, ip, mode_r);
            let m3 = spec_apply_sdesc(m2, mode_s, key);
            &&& m3.stage == SignallingStage::Established
            &&& m3.secret_key == key
            &&& m3.spec_has_key()
            &&& m3.encryption == mode_s
            &&& m3.heartbeat_interval == spec_min_interval(interval)
            &&& m3.heartbeat_interval <= 5000
        }),
{
}

/// Law: closing with a code is idempotent — a second close with the
/// same code leaves the engine exactly where the first left it, so a
/// repeated disconnect surfaces the same terminal code.
pub proof fn lemma_close_idempotent(m: DiscordVoiceProtocol, code: u16)
    ensures
        ({
            let m1 = DiscordVoiceProtocol { close_code: code, ..m };
            let m2 = DiscordVoiceProtocol { close_code: code, ..m1 };
            m2 == m1
        }),
{
}

} // verus!
