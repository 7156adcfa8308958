//! The few points where the library touches the platform: the wall
//! clock and UTF-8 validation of peer bytes.
use vstd::prelude::*;

verus! {

/// Relies on std::time::SystemTime for the current wall-clock time as
/// milliseconds since the Unix epoch. Nothing is promised of the value:
/// callers treat each reading as fresh.
#[verifier::external_body]
pub fn unix_millis_now() -> u64 {
    match std::time::SystemTime::now().duration_since(std::time::UNIX_EPOCH) {
        Ok(d) => d.as_millis() as u64,
        Err(_) => 0,
    }
}

/// Relies on String::from_utf8: succeeds exactly on valid UTF-8 input,
/// and the returned string's encoding is the input bytes.
#[verifier::external_body]
pub fn bytes_to_string(v: Vec<u8>) -> (r: Option<String>)
    ensures
        r is Some <==> vstd::utf8::valid_utf8(v@),
        r matches Some(s) ==> vstd::utf8::encode_utf8(s@) == v@,
{
    String::from_utf8(v).ok()
}

} // verus!
