//! The AEAD boundary: sealing a frame under XSalsa20-Poly1305, and the
//! random nonces of the suffix scheme.
use vstd::prelude::*;

use rand::Rng;
use xsalsa20poly1305::aead::generic_array::GenericArray;
use xsalsa20poly1305::aead::Aead;
use xsalsa20poly1305::KeyInit;

verus! {

/// The sealed box XSalsa20-Poly1305 produces for this key, nonce and
/// message: a pure function of the three, left unnamed beyond that.
pub uninterp spec fn seal_of(key: Seq<u8>, nonce: Seq<u8>, msg: Seq<u8>) -> Seq<u8>;

/// Relies on xsalsa20poly1305's `XSalsa20Poly1305` (`KeyInit::new` and
/// `Aead::encrypt` with no associated data): the output is a function
/// of key, nonce and message alone, 16 bytes (the Poly1305 tag) longer
/// than the message, and with no associated data the cipher cannot
/// fail.
#[verifier::external_body]
pub fn seal(key: &[u8], nonce: &[u8], msg: &[u8]) -> (r: Vec<u8>)
    requires
        key@.len() == 32,
        nonce@.len() == 24,
        msg@.len() <= 0x10000,
    ensures
        r@ == seal_of(key@, nonce@, msg@),
        r@.len() == msg@.len() + 16,
{
    let cipher = xsalsa20poly1305::XSalsa20Poly1305::new(GenericArray::from_slice(key));
    cipher.encrypt(GenericArray::from_slice(nonce), msg).expect("sealing cannot fail")
}

/// Relies on rand's thread-local generator (`rand::rng` and
/// `Rng::fill_bytes`) for 24 fresh bytes. Nothing is promised of the
/// values: every caller must hold for any 24 bytes.
#[verifier::external_body]
pub fn random_nonce24() -> (r: Vec<u8>)
    ensures
        r@.len() == 24,
{
    let mut b = [0u8; 24];
    rand::rng().fill_bytes(&mut b);
    b.to_vec()
}

} // verus!
