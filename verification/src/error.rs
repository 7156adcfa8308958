//! The error taxonomy of the voice core, and the classification of peer
//! close codes into resumable and terminal ones.
use vstd::prelude::*;

verus! {

/// Everything that can go wrong inside the core.
///
/// `Closed` carries the close code of the control channel; the other
/// variants carry a human-readable message.
#[derive(Debug)]
pub enum ProtocolError {
    /// JSON, UTF-8 or discovery-format failure; fatal to the session.
    Parse(String),
    /// Audio encoder failure; terminates the media pipeline.
    Codec(String),
    /// AEAD encryption failure; terminates the media pipeline.
    Crypto,
    /// Transport failure (TCP, TLS, WebSocket or UDP).
    Io(String),
    /// The control channel was closed, by the peer or by us.
    Closed(u16),
}

/// What the host is told when a run of the signalling loop ends.
#[derive(Debug)]
pub enum HostSignal {
    /// A resumable close: the host may dial again and resume.
    Reconnect(u16),
    /// A terminal close: the session is gone for good.
    ConnectionClosed(u16),
    /// Any non-close failure, with its message.
    ConnectionError(String),
}

/// An IO-flavoured error with a fixed message, used for internal misuse
/// and malformed peer data outside the JSON layer.
pub fn custom_error(text: &str) -> (r: ProtocolError)
    ensures
        r matches ProtocolError::Io(m) && m@ == text@,
{
    ProtocolError::Io(text.to_owned())
}

/// Sorts a terminated signalling run for the host: a resumable close
/// becomes `Reconnect`, a terminal close becomes `ConnectionClosed`, and
/// everything else becomes `ConnectionError` carrying the message.
pub fn classify_error(err: ProtocolError) -> (r: HostSignal)
    ensures
        (err matches ProtocolError::Closed(code) && code != 1000 && code != 4014 && code
            != 4015) ==> r == HostSignal::Reconnect(err->Closed_0),
        (err matches ProtocolError::Closed(code) && (code == 1000 || code == 4014 || code
            == 4015)) ==> r == HostSignal::ConnectionClosed(err->Closed_0),
        !(err is Closed) ==> (r matches HostSignal::ConnectionError(m) && m@ == spec_message(err)),
{
    match err {
        ProtocolError::Closed(code) => {
            if crate::code_can_be_handled(code) {
                HostSignal::Reconnect(code)
            } else {
                HostSignal::ConnectionClosed(code)
            }
        },
        other => HostSignal::ConnectionError(other.message()),
    }
}

/// The text of `message`, for contracts.
pub open spec fn spec_message(err: ProtocolError) -> Seq<char> {
    match err {
        ProtocolError::Parse(m) => "parse error: "@ + m@,
        ProtocolError::Codec(m) => "codec error: "@ + m@,
        ProtocolError::Crypto => "encryption error"@,
        ProtocolError::Io(m) => m@,
        ProtocolError::Closed(_) => "connection closed"@,
    }
}

impl ProtocolError {
    /// A human-readable description of the error.
    pub fn message(&self) -> (r: String)
        ensures
            r@ == spec_message(*self),
    {
        match self {
            ProtocolError::Parse(m) => {
                let mut s = "parse error: ".to_owned();
                s.append(m.as_str());
                s
            },
            ProtocolError::Codec(m) => {
                let mut s = "codec error: ".to_owned();
                s.append(m.as_str());
                s
            },
            ProtocolError::Crypto => "encryption error".to_owned(),
            ProtocolError::Io(m) => m.clone(),
            ProtocolError::Closed(_) => "connection closed".to_owned(),
        }
    }
}

} // verus!
