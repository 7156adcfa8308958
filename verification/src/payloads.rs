//! Typed models of the opcoded control messages, and their exact JSON
//! wire forms.
//!
//! Every frame on the control channel is a JSON object `{"op": <u8>, "d":
//! <payload>}`. This module holds the sendable payloads together with
//! serializers whose contracts give the produced text byte for byte, and
//! the encryption-mode negotiation.
use vstd::prelude::*;
use vstd::string::*;

use crate::error::ProtocolError;
use crate::json::{
    bytes_eq, parse_byte_array, parse_number, parse_str_array, parse_string, skip_value, skip_ws,
    spec_max_depth, spec_parse_byte_array, spec_parse_number, spec_parse_str_array,
    spec_parse_string, spec_skip_value, spec_skip_ws,
};
use crate::wire::{push_dec_u64, spec_dec};

verus! {

/// The opcode table of the control protocol.
pub struct Opcode;

impl Opcode {
    pub const IDENTIFY: u8 = 0;

    pub const SELECT_PROTOCOL: u8 = 1;

    pub const READY: u8 = 2;

    pub const HEARTBEAT: u8 = 3;

    pub const SESSION_DESCRIPTION: u8 = 4;

    pub const SPEAKING: u8 = 5;

    pub const HEARTBEAT_ACK: u8 = 6;

    pub const RESUME: u8 = 7;

    pub const HELLO: u8 = 8;

    pub const RESUMED: u8 = 9;

    pub const CLIENT_CONNECT: u8 = 12;

    pub const CLIENT_DISCONNECT: u8 = 13;
}

// ---------------------------------------------------------------------------
// JSON text building
// ---------------------------------------------------------------------------
/// UTF-8 bytes of a string value, for contracts.
pub open spec fn spec_str_bytes(s: Seq<char>) -> Seq<u8> {
    vstd::utf8::encode_utf8(s)
}

/// Lowercase ASCII hex digit of `n` (for `n < 16`).
pub open spec fn spec_hex_digit(n: u8) -> u8 {
    if n < 10 {
        (0x30 + n) as u8
    } else {
        (0x61 + (n - 10)) as u8
    }
}

/// How one byte appears inside a JSON string literal: quotes and
/// backslashes are escaped, control bytes take their short escape or a
/// `\u00XX` escape, and everything else passes through.
pub open spec fn spec_escape_byte(b: u8) -> Seq<u8> {
    if b == 0x22 {
        seq![0x5c, 0x22]
    } else if b == 0x5c {
        seq![0x5c, 0x5c]
    } else if b == 0x08 {
        seq![0x5c, 0x62]
    } else if b == 0x09 {
        seq![0x5c, 0x74]
    } else if b == 0x0a {
        seq![0x5c, 0x6e]
    } else if b == 0x0c {
        seq![0x5c, 0x66]
    } else if b == 0x0d {
        seq![0x5c, 0x72]
    } else if b < 0x20 {
        seq![0x5c, 0x75, 0x30, 0x30, spec_hex_digit(b >> 4), spec_hex_digit(b & 0x0f)]
    } else {
        seq![b]
    }
}

/// The escaped form of a whole string body.
pub open spec fn spec_escape(s: Seq<u8>) -> Seq<u8>
    decreases s.len(),
{
    if s.len() == 0 {
        Seq::empty()
    } else {
        spec_escape(s.drop_last()) + spec_escape_byte(s.last())
    }
}

/// A JSON string literal: quote, escaped body, quote.
pub open spec fn spec_json_string(s: Seq<u8>) -> Seq<u8> {
    seq![0x22u8] + spec_escape(s) + seq![0x22u8]
}

/// Appends the bytes of a literal piece of JSON text.
pub fn push_lit(out: &mut Vec<u8>, s: &str)
    ensures
        final(out)@ == old(out)@ + s.spec_bytes(),
{
    out.extend_from_slice(s.as_bytes());
}

/// Appends `s` as a JSON string literal, escaping as `spec_json_string`
/// describes.
pub fn push_json_string(out: &mut Vec<u8>, s: &[u8])
    ensures
        final(out)@ == old(out)@ + spec_json_string(s@),
{
    out.push(0x22);
    let ghost base = out@;
    let mut i: usize = 0;
    while i < s.len()
        invariant
            i <= s@.len(),
            out@ == base + spec_escape(s@.take(i as int)),
        decreases s@.len() - i,
    {
        let b = s[i];
        if b == 0x22 {
            out.push(0x5c);
            out.push(0x22);
        } else if b == 0x5c {
            out.push(0x5c);
            out.push(0x5c);
        } else if b == 0x08 {
            out.push(0x5c);
            out.push(0x62);
        } else if b == 0x09 {
            out.push(0x5c);
            out.push(0x74);
        } else if b == 0x0a {
            out.push(0x5c);
            out.push(0x6e);
        } else if b == 0x0c {
            out.push(0x5c);
            out.push(0x66);
        } else if b == 0x0d {
            out.push(0x5c);
            out.push(0x72);
        } else if b < 0x20 {
            proof {
                assert((b >> 4) < 16 && (b & 0x0f) < 16) by (bit_vector);
            }
            out.push(0x5c);
            out.push(0x75);
            out.push(0x30);
            out.push(0x30);
            let hi = b >> 4;
            let lo = b & 0x0f;
            out.push(if hi < 10 { 0x30 + hi } else { 0x61 + (hi - 10) });
            out.push(if lo < 10 { 0x30 + lo } else { 0x61 + (lo - 10) });
        } else {
            out.push(b);
        }
        proof {
            assert(s@.take(i + 1).drop_last() =~= s@.take(i as int));
            assert(s@.take(i + 1).last() == s@[i as int]);
            assert(out@ =~= base + spec_escape(s@.take(i + 1)));
        }
        i = i + 1;
    }
    out.push(0x22);
    proof {
        assert(s@.take(s@.len() as int) =~= s@);
        assert(out@ =~= old(out)@ + spec_json_string(s@));
    }
}

// ---------------------------------------------------------------------------
// Sendable payloads
// ---------------------------------------------------------------------------
/// Data of a RESUME frame.
#[derive(Debug, Clone)]
pub struct ResumeInfo {
    pub token: String,
    pub server_id: String,
    pub session_id: String,
}

/// A RESUME frame.
#[derive(Debug, Clone)]
pub struct Resume {
    pub op: u8,
    pub d: ResumeInfo,
}

/// The wire text of a RESUME frame.
pub open spec fn spec_resume_json(token: Seq<u8>, server_id: Seq<u8>, session_id: Seq<u8>) -> Seq<
    u8,
> {
    "{\"op\":7,\"d\":{\"token\":".spec_bytes() + spec_json_string(token)
        + ",\"server_id\":".spec_bytes() + spec_json_string(server_id)
        + ",\"session_id\":".spec_bytes() + spec_json_string(session_id) + "}}".spec_bytes()
}

impl Resume {
    pub fn new(info: ResumeInfo) -> (r: Self)
        ensures
            r.op == Opcode::RESUME,
            r.d == info,
    {
        Resume { op: Opcode::RESUME, d: info }
    }

    /// Serializes the frame to its exact wire text.
    pub fn to_json(&self) -> (r: Vec<u8>)
        ensures
            r@ == spec_resume_json(
                spec_str_bytes(self.d.token@),
                spec_str_bytes(self.d.server_id@),
                spec_str_bytes(self.d.session_id@),
            ),
    {
        let mut out: Vec<u8> = Vec::new();
        push_lit(&mut out, "{\"op\":7,\"d\":{\"token\":");
        push_json_string(&mut out, self.d.token.as_str().as_bytes());
        push_lit(&mut out, ",\"server_id\":");
        push_json_string(&mut out, self.d.server_id.as_str().as_bytes());
        push_lit(&mut out, ",\"session_id\":");
        push_json_string(&mut out, self.d.session_id.as_str().as_bytes());
        push_lit(&mut out, "}}");
        out
    }
}

/// Data of an IDENTIFY frame.
#[derive(Debug, Clone)]
pub struct IdentifyInfo {
    pub server_id: String,
    pub user_id: String,
    pub session_id: String,
    pub token: String,
}

/// An IDENTIFY frame.
#[derive(Debug, Clone)]
pub struct Identify {
    pub op: u8,
    pub d: IdentifyInfo,
}

/// The wire text of an IDENTIFY frame.
pub open spec fn spec_identify_json(
    server_id: Seq<u8>,
    user_id: Seq<u8>,
    session_id: Seq<u8>,
    token: Seq<u8>,
) -> Seq<u8> {
    "{\"op\":0,\"d\":{\"server_id\":".spec_bytes() + spec_json_string(server_id)
        + ",\"user_id\":".spec_bytes() + spec_json_string(user_id)
        + ",\"session_id\":".spec_bytes() + spec_json_string(session_id)
        + ",\"token\":".spec_bytes() + spec_json_string(token) + "}}".spec_bytes()
}

impl Identify {
    pub fn new(info: IdentifyInfo) -> (r: Self)
        ensures
            r.op == Opcode::IDENTIFY,
            r.d == info,
    {
        Identify { op: Opcode::IDENTIFY, d: info }
    }

    /// Serializes the frame to its exact wire text.
    pub fn to_json(&self) -> (r: Vec<u8>)
        ensures
            r@ == spec_identify_json(
                spec_str_bytes(self.d.server_id@),
                spec_str_bytes(self.d.user_id@),
                spec_str_bytes(self.d.session_id@),
                spec_str_bytes(self.d.token@),
            ),
    {
        let mut out: Vec<u8> = Vec::new();
        push_lit(&mut out, "{\"op\":0,\"d\":{\"server_id\":");
        push_json_string(&mut out, self.d.server_id.as_str().as_bytes());
        push_lit(&mut out, ",\"user_id\":");
        push_json_string(&mut out, self.d.user_id.as_str().as_bytes());
        push_lit(&mut out, ",\"session_id\":");
        push_json_string(&mut out, self.d.session_id.as_str().as_bytes());
        push_lit(&mut out, ",\"token\":");
        push_json_string(&mut out, self.d.token.as_str().as_bytes());
        push_lit(&mut out, "}}");
        out
    }
}

/// Data of a SELECT_PROTOCOL frame: our discovered address and the mode we
/// picked.
#[derive(Debug, Clone)]
pub struct SelectProtocolInfo {
    pub address: String,
    pub port: u16,
    pub mode: String,
}

/// The `d` object of a SELECT_PROTOCOL frame.
#[derive(Debug, Clone)]
pub struct SelectProtocolWrapper {
    pub protocol: String,
    pub data: SelectProtocolInfo,
}

/// A SELECT_PROTOCOL frame.
#[derive(Debug, Clone)]
pub struct SelectProtocol {
    pub op: u8,
    pub d: SelectProtocolWrapper,
}

/// The wire text of a SELECT_PROTOCOL frame.
pub open spec fn spec_select_protocol_json(
    protocol: Seq<u8>,
    address: Seq<u8>,
    port: u16,
    mode: Seq<u8>,
) -> Seq<u8> {
    "{\"op\":1,\"d\":{\"protocol\":".spec_bytes() + spec_json_string(protocol)
        + ",\"data\":{\"address\":".spec_bytes() + spec_json_string(address)
        + ",\"port\":".spec_bytes() + spec_dec(port as nat) + ",\"mode\":".spec_bytes()
        + spec_json_string(mode) + "}}}".spec_bytes()
}

impl SelectProtocol {
    pub fn new(info: SelectProtocolInfo) -> (r: Self)
        ensures
            r.op == Opcode::SELECT_PROTOCOL,
            r.d.protocol@ == "udp"@,
            r.d.data == info,
    {
        SelectProtocol {
            op: Opcode::SELECT_PROTOCOL,
            d: SelectProtocolWrapper { protocol: "udp".to_owned(), data: info },
        }
    }

    pub fn from_addr(address: String, port: u16, mode: EncryptionMode) -> (r: Self)
        ensures
            r.op == Opcode::SELECT_PROTOCOL,
            r.d.protocol@ == "udp"@,
            r.d.data.address == address,
            r.d.data.port == port,
            r.d.data.mode@ == spec_mode_name(mode),
    {
        SelectProtocol {
            op: Opcode::SELECT_PROTOCOL,
            d: SelectProtocolWrapper {
                protocol: "udp".to_owned(),
                data: SelectProtocolInfo { address, port, mode: mode.name() },
            },
        }
    }

    /// Serializes the frame to its exact wire text.
    pub fn to_json(&self) -> (r: Vec<u8>)
        ensures
            r@ == spec_select_protocol_json(
                spec_str_bytes(self.d.protocol@),
                spec_str_bytes(self.d.data.address@),
                self.d.data.port,
                spec_str_bytes(self.d.data.mode@),
            ),
    {
        let mut out: Vec<u8> = Vec::new();
        push_lit(&mut out, "{\"op\":1,\"d\":{\"protocol\":");
        push_json_string(&mut out, self.d.protocol.as_str().as_bytes());
        push_lit(&mut out, ",\"data\":{\"address\":");
        push_json_string(&mut out, self.d.data.address.as_str().as_bytes());
        push_lit(&mut out, ",\"port\":");
        push_dec_u64(&mut out, self.d.data.port as u64);
        push_lit(&mut out, ",\"mode\":");
        push_json_string(&mut out, self.d.data.mode.as_str().as_bytes());
        push_lit(&mut out, "}}}");
        out
    }
}

/// A HEARTBEAT frame; `d` is a fresh millisecond timestamp.
#[derive(Debug, Clone)]
pub struct Heartbeat {
    pub op: u8,
    pub d: u64,
}

/// The wire text of a HEARTBEAT frame.
pub open spec fn spec_heartbeat_json(d: u64) -> Seq<u8> {
    "{\"op\":3,\"d\":".spec_bytes() + spec_dec(d as nat) + "}".spec_bytes()
}

impl Heartbeat {
    /// A heartbeat carrying the given millisecond timestamp.
    pub fn new(now_ms: u64) -> (r: Self)
        ensures
            r.op == Opcode::HEARTBEAT,
            r.d == now_ms,
    {
        Heartbeat { op: Opcode::HEARTBEAT, d: now_ms }
    }

    /// A heartbeat carrying the wall clock's current millisecond timestamp.
    pub fn now() -> (r: Self)
        ensures
            r.op == Opcode::HEARTBEAT,
    {
        Heartbeat::new(crate::sys::unix_millis_now())
    }

    /// Serializes the frame to its exact wire text.
    pub fn to_json(&self) -> (r: Vec<u8>)
        ensures
            r@ == spec_heartbeat_json(self.d),
    {
        let mut out: Vec<u8> = Vec::new();
        push_lit(&mut out, "{\"op\":3,\"d\":");
        push_dec_u64(&mut out, self.d);
        push_lit(&mut out, "}");
        out
    }
}

/// The speaking bitfield sent with a SPEAKING frame.
#[derive(Debug, Clone, PartialEq, Eq, Structural)]
pub struct SpeakingFlags {
    value: u8,
}

impl SpeakingFlags {
    pub const MICROPHONE: u8 = 1;

    pub const SOUNDSHARE: u8 = 2;

    pub const PRIORITY: u8 = 4;

    /// The raw bitfield, for contracts.
    pub closed spec fn spec_value(&self) -> u8 {
        self.value
    }

    pub fn new(value: u8) -> (r: Self)
        ensures
            r.spec_value() == value,
    {
        SpeakingFlags { value }
    }

    pub fn off() -> (r: Self)
        ensures
            r.spec_value() == 0,
    {
        SpeakingFlags { value: 0 }
    }

    pub fn microphone() -> (r: Self)
        ensures
            r.spec_value() == Self::MICROPHONE,
    {
        SpeakingFlags { value: Self::MICROPHONE }
    }

    pub fn soundshare() -> (r: Self)
        ensures
            r.spec_value() == Self::SOUNDSHARE,
    {
        SpeakingFlags { value: Self::SOUNDSHARE }
    }

    pub fn priority() -> (r: Self)
        ensures
            r.spec_value() == Self::PRIORITY,
    {
        SpeakingFlags { value: Self::PRIORITY }
    }

    /// Ors the given bits into the field.
    pub fn toggle(&mut self, value: u8)
        ensures
            final(self).spec_value() == old(self).spec_value() | value,
    {
        self.value = self.value | value;
    }
}

/// The `d` object of a SPEAKING frame.
#[derive(Debug, Clone)]
pub struct SpeakingInfo {
    pub speaking: u8,
    pub delay: u8,
}

/// A SPEAKING frame.
#[derive(Debug, Clone)]
pub struct Speaking {
    pub op: u8,
    pub d: SpeakingInfo,
}

/// The wire text of a SPEAKING frame.
pub open spec fn spec_speaking_json(flags: u8) -> Seq<u8> {
    "{\"op\":5,\"d\":{\"speaking\":".spec_bytes() + spec_dec(flags as nat)
        + ",\"delay\":0}}".spec_bytes()
}

impl Speaking {
    pub fn new(flags: SpeakingFlags) -> (r: Self)
        ensures
            r.op == Opcode::SPEAKING,
            r.d.speaking == flags.spec_value(),
            r.d.delay == 0,
    {
        Speaking { op: Opcode::SPEAKING, d: SpeakingInfo { delay: 0, speaking: flags.value } }
    }

    /// Serializes the frame to its exact wire text.
    pub fn to_json(&self) -> (r: Vec<u8>)
        ensures
            r@ == spec_speaking_json(self.d.speaking),
    {
        let mut out: Vec<u8> = Vec::new();
        push_lit(&mut out, "{\"op\":5,\"d\":{\"speaking\":");
        push_dec_u64(&mut out, self.d.speaking as u64);
        push_lit(&mut out, ",\"delay\":0}}");
        out
    }
}

// ---------------------------------------------------------------------------
// Received payloads
// ---------------------------------------------------------------------------
/// A RESUMED frame carries no data.
#[derive(Debug, Clone)]
pub struct Resumed;

/// A HEARTBEAT_ACK frame echoes the heartbeat timestamp.
#[derive(Debug, Clone)]
pub struct HeartbeatAck(pub u64);

/// Data of a received SESSION_DESCRIPTION frame; `secret_key` always
/// holds exactly 32 bytes.
#[derive(Debug, Clone)]
pub struct SessionDescription {
    pub mode: String,
    pub secret_key: Vec<u8>,
}

/// Data of a received READY frame.
#[derive(Debug, Clone)]
pub struct Ready {
    pub ssrc: u32,
    pub ip: String,
    pub port: u16,
    pub modes: Vec<String>,
}

/// Data of a received HELLO frame. The advertised interval is kept in
/// whole milliseconds (the wire value's integer part).
#[derive(Debug, Clone)]
pub struct Hello {
    pub heartbeat_interval: u64,
}

// ---------------------------------------------------------------------------
// Encryption modes
// ---------------------------------------------------------------------------
/// The three AEAD nonce schemes, in ascending negotiation priority
/// (`Lite` over `Suffix` over `Full`).
#[derive(Debug, Clone, Copy, PartialEq, Eq, Structural)]
pub enum EncryptionMode {
    XSalsa20Poly1305,
    XSalsa20Poly1305Suffix,
    XSalsa20Poly1305Lite,
}

/// Negotiation priority: Lite > Suffix > Full.
pub open spec fn spec_priority(m: EncryptionMode) -> int {
    match m {
        EncryptionMode::XSalsa20Poly1305 => 0,
        EncryptionMode::XSalsa20Poly1305Suffix => 1,
        EncryptionMode::XSalsa20Poly1305Lite => 2,
    }
}

/// The protocol name of a mode.
pub open spec fn spec_mode_name(m: EncryptionMode) -> Seq<char> {
    match m {
        EncryptionMode::XSalsa20Poly1305 => "xsalsa20_poly1305"@,
        EncryptionMode::XSalsa20Poly1305Suffix => "xsalsa20_poly1305_suffix"@,
        EncryptionMode::XSalsa20Poly1305Lite => "xsalsa20_poly1305_lite"@,
    }
}

/// The mode a protocol name denotes, if any.
pub open spec fn spec_mode_of(s: Seq<char>) -> Option<EncryptionMode> {
    if s == "xsalsa20_poly1305_lite"@ {
        Some(EncryptionMode::XSalsa20Poly1305Lite)
    } else if s == "xsalsa20_poly1305_suffix"@ {
        Some(EncryptionMode::XSalsa20Poly1305Suffix)
    } else if s == "xsalsa20_poly1305"@ {
        Some(EncryptionMode::XSalsa20Poly1305)
    } else {
        None
    }
}

impl Default for EncryptionMode {
    fn default() -> (r: Self)
        ensures
            r == EncryptionMode::XSalsa20Poly1305,
    {
        EncryptionMode::XSalsa20Poly1305
    }
}

impl EncryptionMode {
    /// Negotiation priority as a number.
    pub fn priority(&self) -> (r: u8)
        ensures
            r as int == spec_priority(*self),
    {
        match self {
            EncryptionMode::XSalsa20Poly1305 => 0,
            EncryptionMode::XSalsa20Poly1305Suffix => 1,
            EncryptionMode::XSalsa20Poly1305Lite => 2,
        }
    }

    /// The protocol name of this mode.
    pub fn name(&self) -> (r: String)
        ensures
            r@ == spec_mode_name(*self),
    {
        match self {
            EncryptionMode::XSalsa20Poly1305 => "xsalsa20_poly1305".to_owned(),
            EncryptionMode::XSalsa20Poly1305Suffix => "xsalsa20_poly1305_suffix".to_owned(),
            EncryptionMode::XSalsa20Poly1305Lite => "xsalsa20_poly1305_lite".to_owned(),
        }
    }

    /// Parses a protocol name.
    pub fn from_name(s: &String) -> (r: Option<EncryptionMode>)
        ensures
            r == spec_mode_of(s@),
    {
        if s.eq(&"xsalsa20_poly1305_lite".to_owned()) {
            Some(EncryptionMode::XSalsa20Poly1305Lite)
        } else if s.eq(&"xsalsa20_poly1305_suffix".to_owned()) {
            Some(EncryptionMode::XSalsa20Poly1305Suffix)
        } else if s.eq(&"xsalsa20_poly1305".to_owned()) {
            Some(EncryptionMode::XSalsa20Poly1305)
        } else {
            None
        }
    }
}

/// Whether any entry of a peer-advertised mode list parses.
pub open spec fn spec_any_mode(modes: Seq<Seq<char>>) -> bool {
    exists|i: int| 0 <= i < modes.len() && spec_mode_of(modes[i]) is Some
}

/// `m` is advertised and no advertised mode outranks it.
pub open spec fn spec_is_best_mode(modes: Seq<Seq<char>>, m: EncryptionMode) -> bool {
    &&& exists|i: int| 0 <= i < modes.len() && spec_mode_of(modes[i]) == Some(m)
    &&& forall|i: int|
        0 <= i < modes.len() && #[trigger] spec_mode_of(modes[i]) is Some ==> spec_priority(
            spec_mode_of(modes[i])->0,
        ) <= spec_priority(m)
}

impl Ready {
    /// Picks the highest-priority mode this peer supports: the maximum of
    /// the parseable entries under Lite > Suffix > Full. Fails exactly
    /// when no entry parses.
    pub fn get_encryption_mode(&self) -> (r: Result<EncryptionMode, ProtocolError>)
        ensures
            spec_any_mode(self.modes.deep_view()) ==> (r matches Ok(m) && spec_is_best_mode(
                self.modes.deep_view(),
                m,
            )),
            !spec_any_mode(self.modes.deep_view()) ==> (r matches Err(e) && e matches
                ProtocolError::Parse(msg)
                && msg@ == "No best supported encryption mode found"@),
    {
        let ghost views = self.modes.deep_view();
        let mut best: Option<EncryptionMode> = None;
        let mut i: usize = 0;
        while i < self.modes.len()
            invariant
                i <= self.modes.len(),
                views == self.modes.deep_view(),
                views.len() == self.modes.len(),
                forall|j: int| 0 <= j < self.modes.len() ==> views[j] == self.modes[j]@,
                best is None ==> forall|j: int|
                    0 <= j < i ==> #[trigger] spec_mode_of(views[j]) is None,
                best matches Some(m) ==> {
                    &&& exists|j: int| 0 <= j < i && spec_mode_of(views[j]) == Some(m)
                    &&& forall|j: int|
                        0 <= j < i && #[trigger] spec_mode_of(views[j]) is Some ==> spec_priority(
                            spec_mode_of(views[j])->0,
                        ) <= spec_priority(m)
                },
            decreases self.modes.len() - i,
        {
            let parsed = EncryptionMode::from_name(&self.modes[i]);
            proof {
                assert(views[i as int] == self.modes[i as int]@);
                assert(parsed == spec_mode_of(views[i as int]));
            }
            if let Some(m) = parsed {
                match best {
                    None => {
                        best = Some(m);
                    },
                    Some(b) => {
                        if m.priority() > b.priority() {
                            best = Some(m);
                        }
                    },
                }
                proof {
                    assert(spec_mode_of(views[i as int]) == Some(m));
                    let bm = best->0;
                    assert(exists|j: int|
                        0 <= j < i + 1 && spec_mode_of(views[j]) == Some(bm));
                }
            }
            i = i + 1;
        }
        match best {
            Some(m) => Ok(m),
            None => Err(
                ProtocolError::Parse("No best supported encryption mode found".to_owned()),
            ),
        }
    }
}

/// The negotiation priority order is total, so the best mode is unique:
/// any two modes that both satisfy `spec_is_best_mode` for one list are
/// equal.
pub proof fn lemma_best_mode_unique(modes: Seq<Seq<char>>, m1: EncryptionMode, m2: EncryptionMode)
    requires
        spec_is_best_mode(modes, m1),
        spec_is_best_mode(modes, m2),
    ensures
        m1 == m2,
{
    assert(spec_priority(m1) <= spec_priority(m2));
    assert(spec_priority(m2) <= spec_priority(m1));
}


// ---------------------------------------------------------------------------
// Payload parsing
// ---------------------------------------------------------------------------
/// The member walk of a HELLO payload object: `heartbeat_interval` is
/// read as a number, every other member is skipped, duplicates and a
/// missing field fail.
pub open spec fn spec_hello_members(s: Seq<u8>, i: int, acc: Option<u64>) -> Option<u64>
    decreases s.len() - i,
{
    match spec_parse_string(s, i) {
        None => None,
        Some((key, j)) => {
            let j1 = spec_skip_ws(s, j);
            if !(0 <= j1 < s.len() && s[j1] == 0x3a) {
                None
            } else {
                let j2 = spec_skip_ws(s, j1 + 1);
                if j2 <= i || j2 > s.len() {
                    None
                } else {
                    let step: Option<(Option<u64>, int)> = if key
                        == "heartbeat_interval".spec_bytes() {
                        if acc is Some {
                            None
                        } else {
                            match spec_parse_number(s, j2) {
                                None => None,
                                Some((v, e)) => Some((Some(v), e)),
                            }
                        }
                    } else {
                        match spec_skip_value(s, j2, spec_max_depth()) {
                            None => None,
                            Some(e) => Some((acc, e)),
                        }
                    };
                    match step {
                        None => None,
                        Some((acc2, e)) => {
                            let e1 = spec_skip_ws(s, e);
                            if 0 <= e1 < s.len() && s[e1] == 0x2c {
                                let e2 = spec_skip_ws(s, e1 + 1);
                                if e2 <= i || e2 > s.len() {
                                    None
                                } else {
                                    spec_hello_members(s, e2, acc2)
                                }
                            } else if 0 <= e1 < s.len() && s[e1] == 0x7d {
                                acc2
                            } else {
                                None
                            }
                        },
                    }
                }
            }
        },
    }
}

/// A HELLO payload: an object holding `heartbeat_interval`.
pub open spec fn spec_parse_hello(s: Seq<u8>, i: int) -> Option<u64> {
    if 0 <= i < s.len() && s[i] == 0x7b {
        let j = spec_skip_ws(s, i + 1);
        if j < i + 1 || j > s.len() {
            None
        } else if j < s.len() && s[j] == 0x7d {
            None
        } else {
            spec_hello_members(s, j, None)
        }
    } else {
        None
    }
}

/// Reads a HELLO payload as `spec_parse_hello` describes.
#[verifier::loop_isolation(false)]
pub fn parse_hello(s: &[u8], i: usize) -> (r: Option<u64>)
    requires
        i <= s@.len(),
    ensures
        r == spec_parse_hello(s@, i as int),
{
    if !(i < s.len() && s[i] == 0x7b) {
        return None;
    }
    let j = skip_ws(s, i + 1);
    if j < s.len() && s[j] == 0x7d {
        return None;
    }
    let mut p = j;
    let mut acc: Option<u64> = None;
    loop
        invariant
            j <= p <= s@.len(),
            spec_hello_members(s@, j as int, None) == spec_hello_members(s@, p as int, acc),
        decreases s@.len() - p,
    {
        match parse_string(s, p) {
            None => {
                return None;
            },
            Some((key, k)) => {
                let j1 = skip_ws(s, k);
                if !(j1 < s.len() && s[j1] == 0x3a) {
                    return None;
                }
                let j2 = skip_ws(s, j1 + 1);
                if j2 <= p {
                    return None;
                }
                let step: Option<(Option<u64>, usize)> = if bytes_eq(
                    key.as_slice(),
                    "heartbeat_interval".as_bytes(),
                ) {
                    if acc.is_some() {
                        None
                    } else {
                        match parse_number(s, j2) {
                            None => None,
                            Some((v, e)) => Some((Some(v), e)),
                        }
                    }
                } else {
                    match skip_value(s, j2, 128) {
                        None => None,
                        Some(e) => Some((acc, e)),
                    }
                };
                match step {
                    None => {
                        return None;
                    },
                    Some((acc2, e)) => {
                        let e1 = skip_ws(s, e);
                        if e1 < s.len() && s[e1] == 0x2c {
                            let e2 = skip_ws(s, e1 + 1);
                            if e2 <= p {
                                return None;
                            }
                            proof {
                                assert(spec_hello_members(s@, p as int, acc)
                                    == spec_hello_members(s@, e2 as int, acc2));
                            }
                            acc = acc2;
                            p = e2;
                        } else if e1 < s.len() && s[e1] == 0x7d {
                            return acc2;
                        } else {
                            return None;
                        }
                    },
                }
            },
        }
    }
}


/// Specification view of an executable READY parse result.
pub open spec fn opt_ready(r: Option<(u32, Vec<u8>, u16, Vec<Vec<u8>>)>) -> Option<
    (u64, Seq<u8>, u64, Seq<Seq<u8>>),
> {
    match r {
        None => None,
        Some((a, b, c, d)) => Some((a as u64, b@, c as u64, d.deep_view())),
    }
}

/// Specification view of the executable READY accumulators.
pub open spec fn view_ob(o: Option<Vec<u8>>) -> Option<Seq<u8>> {
    match o {
        None => None,
        Some(v) => Some(v@),
    }
}

/// Specification view of the executable mode-list accumulator.
pub open spec fn view_osv(o: Option<Vec<Vec<u8>>>) -> Option<Seq<Seq<u8>>> {
    match o {
        None => None,
        Some(v) => Some(v.deep_view()),
    }
}

/// The member walk of a READY payload object: `ssrc`, `ip`, `port` and
/// `modes` are read (with `ssrc` and `port` range-checked), every other
/// member is skipped, duplicates and missing fields fail.
pub open spec fn spec_ready_members(
    s: Seq<u8>,
    i: int,
    ssrc: Option<u64>,
    ip: Option<Seq<u8>>,
    port: Option<u64>,
    modes: Option<Seq<Seq<u8>>>,
) -> Option<(u64, Seq<u8>, u64, Seq<Seq<u8>>)>
    decreases s.len() - i,
{
    match spec_parse_string(s, i) {
        None => None,
        Some((key, j)) => {
            let j1 = spec_skip_ws(s, j);
            if !(0 <= j1 < s.len() && s[j1] == 0x3a) {
                None
            } else {
                let j2 = spec_skip_ws(s, j1 + 1);
                if j2 <= i || j2 > s.len() {
                    None
                } else {
                    let step: Option<
                        ((Option<u64>, Option<Seq<u8>>, Option<u64>, Option<Seq<Seq<u8>>>), int),
                    > = if key == "ssrc".spec_bytes() {
                        if ssrc is Some {
                            None
                        } else {
                            match spec_parse_number(s, j2) {
                                None => None,
                                Some((v, e)) => if v > 0xFFFFFFFF {
                                    None
                                } else {
                                    Some(((Some(v), ip, port, modes), e))
                                },
                            }
                        }
                    } else if key == "ip".spec_bytes() {
                        if ip is Some {
                            None
                        } else {
                            match spec_parse_string(s, j2) {
                                None => None,
                                Some((v, e)) => Some(((ssrc, Some(v), port, modes), e)),
                            }
                        }
                    } else if key == "port".spec_bytes() {
                        if port is Some {
                            None
                        } else {
                            match spec_parse_number(s, j2) {
                                None => None,
                                Some((v, e)) => if v > 0xFFFF {
                                    None
                                } else {
                                    Some(((ssrc, ip, Some(v), modes), e))
                                },
                            }
                        }
                    } else if key == "modes".spec_bytes() {
                        if modes is Some {
                            None
                        } else {
                            match spec_parse_str_array(s, j2) {
                                None => None,
                                Some((v, e)) => Some(((ssrc, ip, port, Some(v)), e)),
                            }
                        }
                    } else {
                        match spec_skip_value(s, j2, spec_max_depth()) {
                            None => None,
                            Some(e) => Some(((ssrc, ip, port, modes), e)),
                        }
                    };
                    match step {
                        None => None,
                        Some((acc2, e)) => {
                            let e1 = spec_skip_ws(s, e);
                            if 0 <= e1 < s.len() && s[e1] == 0x2c {
                                let e2 = spec_skip_ws(s, e1 + 1);
                                if e2 <= i || e2 > s.len() {
                                    None
                                } else {
                                    spec_ready_members(s, e2, acc2.0, acc2.1, acc2.2, acc2.3)
                                }
                            } else if 0 <= e1 < s.len() && s[e1] == 0x7d {
                                match (acc2.0, acc2.1, acc2.2, acc2.3) {
                                    (Some(a), Some(b), Some(c), Some(d)) => Some((a, b, c, d)),
                                    _ => None,
                                }
                            } else {
                                None
                            }
                        },
                    }
                }
            }
        },
    }
}

/// A READY payload object.
pub open spec fn spec_parse_ready(s: Seq<u8>, i: int) -> Option<(u64, Seq<u8>, u64, Seq<Seq<u8>>)> {
    if 0 <= i < s.len() && s[i] == 0x7b {
        let j = spec_skip_ws(s, i + 1);
        if j < i + 1 || j > s.len() {
            None
        } else if j < s.len() && s[j] == 0x7d {
            None
        } else {
            spec_ready_members(s, j, None, None, None, None)
        }
    } else {
        None
    }
}

/// Reads a READY payload as `spec_parse_ready` describes.
#[verifier::loop_isolation(false)]
pub fn parse_ready(s: &[u8], i: usize) -> (r: Option<(u32, Vec<u8>, u16, Vec<Vec<u8>>)>)
    requires
        i <= s@.len(),
    ensures
        opt_ready(r) == spec_parse_ready(s@, i as int),
{
    if !(i < s.len() && s[i] == 0x7b) {
        return None;
    }
    let j = skip_ws(s, i + 1);
    if j < s.len() && s[j] == 0x7d {
        return None;
    }
    let mut p = j;
    let mut ssrc: Option<u64> = None;
    let mut ip: Option<Vec<u8>> = None;
    let mut port: Option<u64> = None;
    let mut modes: Option<Vec<Vec<u8>>> = None;
    loop
        invariant
            j <= p <= s@.len(),
            ssrc matches Some(v) ==> v <= 0xFFFFFFFF,
            port matches Some(v) ==> v <= 0xFFFF,
            spec_ready_members(s@, j as int, None, None, None, None) == spec_ready_members(
                s@,
                p as int,
                ssrc,
                view_ob(ip),
                port,
                view_osv(modes),
            ),
        decreases s@.len() - p,
    {
        match parse_string(s, p) {
            None => {
                return None;
            },
            Some((key, k)) => {
                let j1 = skip_ws(s, k);
                if !(j1 < s.len() && s[j1] == 0x3a) {
                    return None;
                }
                let j2 = skip_ws(s, j1 + 1);
                if j2 <= p {
                    return None;
                }
                let e: usize;
                if bytes_eq(key.as_slice(), "ssrc".as_bytes()) {
                    if ssrc.is_some() {
                        return None;
                    }
                    match parse_number(s, j2) {
                        None => {
                            return None;
                        },
                        Some((v, e0)) => {
                            if v > 0xFFFFFFFF {
                                return None;
                            }
                            ssrc = Some(v);
                            e = e0;
                        },
                    }
                } else if bytes_eq(key.as_slice(), "ip".as_bytes()) {
                    if ip.is_some() {
                        return None;
                    }
                    match parse_string(s, j2) {
                        None => {
                            return None;
                        },
                        Some((v, e0)) => {
                            ip = Some(v);
                            e = e0;
                        },
                    }
                } else if bytes_eq(key.as_slice(), "port".as_bytes()) {
                    if port.is_some() {
                        return None;
                    }
                    match parse_number(s, j2) {
                        None => {
                            return None;
                        },
                        Some((v, e0)) => {
                            if v > 0xFFFF {
                                return None;
                            }
                            port = Some(v);
                            e = e0;
                        },
                    }
                } else if bytes_eq(key.as_slice(), "modes".as_bytes()) {
                    if modes.is_some() {
                        return None;
                    }
                    match parse_str_array(s, j2) {
                        None => {
                            return None;
                        },
                        Some((v, e0)) => {
                            modes = Some(v);
                            e = e0;
                        },
                    }
                } else {
                    match skip_value(s, j2, 128) {
                        None => {
                            return None;
                        },
                        Some(e0) => {
                            e = e0;
                        },
                    }
                }
                let e1 = skip_ws(s, e);
                if e1 < s.len() && s[e1] == 0x2c {
                    let e2 = skip_ws(s, e1 + 1);
                    if e2 <= p {
                        return None;
                    }
                    p = e2;
                } else if e1 < s.len() && s[e1] == 0x7d {
                    match (ssrc, ip, port, modes) {
                        (Some(a), Some(b), Some(c), Some(d)) => {
                            return Some((a as u32, b, c as u16, d));
                        },
                        _ => {
                            return None;
                        },
                    }
                } else {
                    return None;
                }
            },
        }
    }
}

/// The member walk of a SESSION_DESCRIPTION payload object: `mode` is a
/// string and `secret_key` an array of byte-sized numbers; every other
/// member is skipped, duplicates and missing fields fail.
pub open spec fn spec_sdesc_members(
    s: Seq<u8>,
    i: int,
    mode: Option<Seq<u8>>,
    key_bytes: Option<Seq<u8>>,
) -> Option<(Seq<u8>, Seq<u8>)>
    decreases s.len() - i,
{
    match spec_parse_string(s, i) {
        None => None,
        Some((key, j)) => {
            let j1 = spec_skip_ws(s, j);
            if !(0 <= j1 < s.len() && s[j1] == 0x3a) {
                None
            } else {
                let j2 = spec_skip_ws(s, j1 + 1);
                if j2 <= i || j2 > s.len() {
                    None
                } else {
                    let step: Option<((Option<Seq<u8>>, Option<Seq<u8>>), int)> = if key
                        == "mode".spec_bytes() {
                        if mode is Some {
                            None
                        } else {
                            match spec_parse_string(s, j2) {
                                None => None,
                                Some((v, e)) => Some(((Some(v), key_bytes), e)),
                            }
                        }
                    } else if key == "secret_key".spec_bytes() {
                        if key_bytes is Some {
                            None
                        } else {
                            match spec_parse_byte_array(s, j2) {
                                None => None,
                                Some((v, e)) => Some(((mode, Some(v)), e)),
                            }
                        }
                    } else {
                        match spec_skip_value(s, j2, spec_max_depth()) {
                            None => None,
                            Some(e) => Some(((mode, key_bytes), e)),
                        }
                    };
                    match step {
                        None => None,
                        Some((acc2, e)) => {
                            let e1 = spec_skip_ws(s, e);
                            if 0 <= e1 < s.len() && s[e1] == 0x2c {
                                let e2 = spec_skip_ws(s, e1 + 1);
                                if e2 <= i || e2 > s.len() {
                                    None
                                } else {
                                    spec_sdesc_members(s, e2, acc2.0, acc2.1)
                                }
                            } else if 0 <= e1 < s.len() && s[e1] == 0x7d {
                                match (acc2.0, acc2.1) {
                                    (Some(m), Some(k)) => Some((m, k)),
                                    _ => None,
                                }
                            } else {
                                None
                            }
                        },
                    }
                }
            }
        },
    }
}

/// A SESSION_DESCRIPTION payload object.
pub open spec fn spec_parse_sdesc(s: Seq<u8>, i: int) -> Option<(Seq<u8>, Seq<u8>)> {
    if 0 <= i < s.len() && s[i] == 0x7b {
        let j = spec_skip_ws(s, i + 1);
        if j < i + 1 || j > s.len() {
            None
        } else if j < s.len() && s[j] == 0x7d {
            None
        } else {
            spec_sdesc_members(s, j, None, None)
        }
    } else {
        None
    }
}

/// Specification view of an executable SESSION_DESCRIPTION parse.
pub open spec fn opt_sdesc(r: Option<(Vec<u8>, Vec<u8>)>) -> Option<(Seq<u8>, Seq<u8>)> {
    match r {
        None => None,
        Some((m, k)) => Some((m@, k@)),
    }
}

/// Reads a SESSION_DESCRIPTION payload as `spec_parse_sdesc` describes.
#[verifier::loop_isolation(false)]
pub fn parse_sdesc(s: &[u8], i: usize) -> (r: Option<(Vec<u8>, Vec<u8>)>)
    requires
        i <= s@.len(),
    ensures
        opt_sdesc(r) == spec_parse_sdesc(s@, i as int),
{
    if !(i < s.len() && s[i] == 0x7b) {
        return None;
    }
    let j = skip_ws(s, i + 1);
    if j < s.len() && s[j] == 0x7d {
        return None;
    }
    let mut p = j;
    let mut mode: Option<Vec<u8>> = None;
    let mut key_bytes: Option<Vec<u8>> = None;
    loop
        invariant
            j <= p <= s@.len(),
            spec_sdesc_members(s@, j as int, None, None) == spec_sdesc_members(
                s@,
                p as int,
                view_ob(mode),
                view_ob(key_bytes),
            ),
        decreases s@.len() - p,
    {
        match parse_string(s, p) {
            None => {
                return None;
            },
            Some((key, k)) => {
                let j1 = skip_ws(s, k);
                if !(j1 < s.len() && s[j1] == 0x3a) {
                    return None;
                }
                let j2 = skip_ws(s, j1 + 1);
                if j2 <= p {
                    return None;
                }
                let e: usize;
                if bytes_eq(key.as_slice(), "mode".as_bytes()) {
                    if mode.is_some() {
                        return None;
                    }
                    match parse_string(s, j2) {
                        None => {
                            return None;
                        },
                        Some((v, e0)) => {
                            mode = Some(v);
                            e = e0;
                        },
                    }
                } else if bytes_eq(key.as_slice(), "secret_key".as_bytes()) {
                    if key_bytes.is_some() {
                        return None;
                    }
                    match parse_byte_array(s, j2) {
                        None => {
                            return None;
                        },
                        Some((v, e0)) => {
                            key_bytes = Some(v);
                            e = e0;
                        },
                    }
                } else {
                    match skip_value(s, j2, 128) {
                        None => {
                            return None;
                        },
                        Some(e0) => {
                            e = e0;
                        },
                    }
                }
                let e1 = skip_ws(s, e);
                if e1 < s.len() && s[e1] == 0x2c {
                    let e2 = skip_ws(s, e1 + 1);
                    if e2 <= p {
                        return None;
                    }
                    p = e2;
                } else if e1 < s.len() && s[e1] == 0x7d {
                    match (mode, key_bytes) {
                        (Some(m), Some(k2)) => {
                            return Some((m, k2));
                        },
                        _ => {
                            return None;
                        },
                    }
                } else {
                    return None;
                }
            },
        }
    }
}

/// The member walk of a control frame object: `op` is a byte-sized
/// number and `d` is any value, whose byte span is recorded; every
/// other member is skipped. After the closing brace only whitespace may
/// remain.
pub open spec fn spec_frame_members(
    s: Seq<u8>,
    i: int,
    op: Option<u64>,
    d: Option<(int, int)>,
) -> Option<(u64, int, int)>
    decreases s.len() - i,
{
    match spec_parse_string(s, i) {
        None => None,
        Some((key, j)) => {
            let j1 = spec_skip_ws(s, j);
            if !(0 <= j1 < s.len() && s[j1] == 0x3a) {
                None
            } else {
                let j2 = spec_skip_ws(s, j1 + 1);
                if j2 <= i || j2 > s.len() {
                    None
                } else {
                    let step: Option<((Option<u64>, Option<(int, int)>), int)> = if key
                        == "op".spec_bytes() {
                        if op is Some {
                            None
                        } else {
                            match spec_parse_number(s, j2) {
                                None => None,
                                Some((v, e)) => if v > 255 {
                                    None
                                } else {
                                    Some(((Some(v), d), e))
                                },
                            }
                        }
                    } else if key == "d".spec_bytes() {
                        if d is Some {
                            None
                        } else {
                            match spec_skip_value(s, j2, spec_max_depth()) {
                                None => None,
                                Some(e) => Some(((op, Some((j2, e))), e)),
                            }
                        }
                    } else {
                        match spec_skip_value(s, j2, spec_max_depth()) {
                            None => None,
                            Some(e) => Some(((op, d), e)),
                        }
                    };
                    match step {
                        None => None,
                        Some((acc2, e)) => {
                            let e1 = spec_skip_ws(s, e);
                            if 0 <= e1 < s.len() && s[e1] == 0x2c {
                                let e2 = spec_skip_ws(s, e1 + 1);
                                if e2 <= i || e2 > s.len() {
                                    None
                                } else {
                                    spec_frame_members(s, e2, acc2.0, acc2.1)
                                }
                            } else if 0 <= e1 < s.len() && s[e1] == 0x7d {
                                match (acc2.0, acc2.1) {
                                    (Some(o), Some(span)) => {
                                        let t = spec_skip_ws(s, e1 + 1);
                                        if t == s.len() {
                                            Some((o, span.0, span.1))
                                        } else {
                                            None
                                        }
                                    },
                                    _ => None,
                                }
                            } else {
                                None
                            }
                        },
                    }
                }
            }
        },
    }
}

/// A whole control frame `{"op": .., "d": ..}` with nothing but
/// whitespace after it: the opcode and the byte span of `d`.
pub open spec fn spec_parse_frame(s: Seq<u8>) -> Option<(u64, int, int)> {
    let i0 = spec_skip_ws(s, 0);
    if 0 <= i0 < s.len() && s[i0] == 0x7b {
        let j = spec_skip_ws(s, i0 + 1);
        if j < i0 + 1 || j > s.len() {
            None
        } else if j < s.len() && s[j] == 0x7d {
            None
        } else {
            spec_frame_members(s, j, None, None)
        }
    } else {
        None
    }
}

/// Specification view of an executable frame parse.
pub open spec fn opt_frame(r: Option<(u8, usize, usize)>) -> Option<(u64, int, int)> {
    match r {
        None => None,
        Some((o, a, b)) => Some((o as u64, a as int, b as int)),
    }
}

/// Specification view of the executable `d`-span accumulator.
pub open spec fn view_span(o: Option<(usize, usize)>) -> Option<(int, int)> {
    match o {
        None => None,
        Some((a, b)) => Some((a as int, b as int)),
    }
}

/// Reads a control frame as `spec_parse_frame` describes.
#[verifier::loop_isolation(false)]
#[verifier::rlimit(60)]
pub fn parse_frame(s: &[u8]) -> (r: Option<(u8, usize, usize)>)
    ensures
        opt_frame(r) == spec_parse_frame(s@),
        r matches Some(f) ==> f.1 <= f.2 <= s@.len(),
{
    let i0 = skip_ws(s, 0);
    if !(i0 < s.len() && s[i0] == 0x7b) {
        return None;
    }
    let j = skip_ws(s, i0 + 1);
    if j < s.len() && s[j] == 0x7d {
        return None;
    }
    let mut p = j;
    let mut op: Option<u64> = None;
    let mut d: Option<(usize, usize)> = None;
    loop
        invariant
            j <= p <= s@.len(),
            op matches Some(v) ==> v <= 255,
            d matches Some(span) ==> span.0 <= span.1 <= s@.len(),
            spec_frame_members(s@, j as int, None, None) == spec_frame_members(
                s@,
                p as int,
                op,
                view_span(d),
            ),
        decreases s@.len() - p,
    {
        match parse_string(s, p) {
            None => {
                return None;
            },
            Some((key, k)) => {
                let j1 = skip_ws(s, k);
                if !(j1 < s.len() && s[j1] == 0x3a) {
                    return None;
                }
                let j2 = skip_ws(s, j1 + 1);
                if j2 <= p {
                    return None;
                }
                let e: usize;
                if bytes_eq(key.as_slice(), "op".as_bytes()) {
                    if op.is_some() {
                        return None;
                    }
                    match parse_number(s, j2) {
                        None => {
                            return None;
                        },
                        Some((v, e0)) => {
                            if v > 255 {
                                return None;
                            }
                            op = Some(v);
                            e = e0;
                        },
                    }
                } else if bytes_eq(key.as_slice(), "d".as_bytes()) {
                    if d.is_some() {
                        return None;
                    }
                    match skip_value(s, j2, 128) {
                        None => {
                            return None;
                        },
                        Some(e0) => {
                            d = Some((j2, e0));
                            e = e0;
                        },
                    }
                } else {
                    match skip_value(s, j2, 128) {
                        None => {
                            return None;
                        },
                        Some(e0) => {
                            e = e0;
                        },
                    }
                }
                let e1 = skip_ws(s, e);
                if e1 < s.len() && s[e1] == 0x2c {
                    let e2 = skip_ws(s, e1 + 1);
                    if e2 <= p {
                        return None;
                    }
                    p = e2;
                } else if e1 < s.len() && s[e1] == 0x7d {
                    match (op, d) {
                        (Some(o), Some(span)) => {
                            let t = skip_ws(s, e1 + 1);
                            if t == s.len() {
                                return Some((o as u8, span.0, span.1));
                            } else {
                                return None;
                            }
                        },
                        _ => {
                            return None;
                        },
                    }
                } else {
                    return None;
                }
            },
        }
    }
}

} // verus!
