use vstd::prelude::*;
use hmac::Mac;
use crate::error::CryptError;

verus! {

/// Length of an HMAC-SHA256 tag.
pub const TAG_LENGTH: usize = 32;

#[verifier::external_type_specification]
#[verifier::external_body]
pub struct ExMacError(hmac::digest::MacError);

#[verifier::external_type_specification]
#[verifier::external_body]
pub struct ExInvalidLength(hmac::digest::InvalidLength);

/// An HMAC-SHA256 computation in progress, described by the key it was
/// created with (`mac_key_of`) and the bytes it has absorbed so far
/// (`mac_message_of`).
#[verifier::external_body]
pub struct MacState {
    mac: hmac::Hmac<sha2::Sha256>,
}

/// The key a MAC state was created with.
pub uninterp spec fn mac_key_of(m: MacState) -> Seq<u8>;

/// The bytes a MAC state has absorbed so far, in order.
pub uninterp spec fn mac_message_of(m: MacState) -> Seq<u8>;

/// HMAC-SHA256 of `message` under `key`.
pub uninterp spec fn hmac_sha256(key: Seq<u8>, message: Seq<u8>) -> Seq<u8>;

/// Relies on hmac 0.12's `Hmac::<Sha256>::new_from_slice`, which accepts a
/// key of any length (longer keys are hashed first) and so always succeeds.
#[verifier::external_body]
fn mac_new(key: &[u8]) -> (r: Result<MacState, hmac::digest::InvalidLength>)
    ensures
        r is Ok,
        r matches Ok(m) ==> mac_key_of(m) == key@ && mac_message_of(m) == Seq::<u8>::empty(),
{
    match <hmac::Hmac<sha2::Sha256> as Mac>::new_from_slice(key) {
        Ok(mac) => Ok(MacState { mac }),
        Err(e) => Err(e),
    }
}

/// Relies on `Mac::update`: the MAC absorbs `data` after what it already holds.
#[verifier::external_body]
fn mac_update(m: &mut MacState, data: &[u8])
    ensures
        mac_key_of(*final(m)) == mac_key_of(*old(m)),
        mac_message_of(*final(m)) == mac_message_of(*old(m)) + data@,
{
    m.mac.update(data);
}

/// Relies on `Mac::finalize`: the 32-byte HMAC-SHA256 of everything absorbed.
#[verifier::external_body]
fn mac_finalize(m: MacState) -> (r: Vec<u8>)
    ensures
        r@ == hmac_sha256(mac_key_of(m), mac_message_of(m)),
        r@.len() == TAG_LENGTH,
{
    m.mac.finalize().into_bytes().to_vec()
}

/// Relies on `Mac::verify_slice`: it fails when `tag` is not 32 bytes long,
/// and otherwise compares it with the computed code in constant time.
#[verifier::external_body]
fn mac_verify(m: MacState, tag: &[u8]) -> (r: Result<(), hmac::digest::MacError>)
    ensures
        r is Ok <==> tag@ == hmac_sha256(mac_key_of(m), mac_message_of(m)),
{
    m.mac.verify_slice(tag)
}

/// Streaming HMAC-SHA256 authenticator over the ciphertext of a container.
pub struct HmacValidator {
    state: MacState,
}

impl HmacValidator {
    /// The authentication key.
    pub closed spec fn key(&self) -> Seq<u8> {
        mac_key_of(self.state)
    }

    /// Everything absorbed so far, in order.
    pub closed spec fn message(&self) -> Seq<u8> {
        mac_message_of(self.state)
    }

    /// The code this authenticator would produce now.
    pub open spec fn code(&self) -> Seq<u8> {
        hmac_sha256(self.key(), self.message())
    }

    /// A fresh authenticator keyed with `hmac_key`.
    pub fn new(hmac_key: &[u8]) -> (r: Result<Self, CryptError>)
        ensures
            r is Ok,
            r matches Ok(v) ==> v.key() == hmac_key@ && v.message() == Seq::<u8>::empty(),
    {
        match mac_new(hmac_key) {
            Ok(state) => Ok(HmacValidator { state }),
            Err(_) => Err(CryptError::InvalidParameter),
        }
    }

    /// Absorbs `data` after everything absorbed so far.
    pub fn update(&mut self, data: &[u8])
        ensures
            final(self).key() == old(self).key(),
            final(self).message() == old(self).message() + data@,
    {
        mac_update(&mut self.state, data);
    }

    /// The 32-byte code over everything absorbed.
    pub fn finalize(self) -> (r: Vec<u8>)
        ensures
            r@ == self.code(),
            r@.len() == TAG_LENGTH,
    {
        mac_finalize(self.state)
    }

    /// Succeeds exactly when `stored_hmac` is the code over everything
    /// absorbed; the comparison takes the same time wherever they differ.
    pub fn verify(self, stored_hmac: &[u8]) -> (r: Result<(), CryptError>)
        ensures
            r is Ok <==> stored_hmac@ == self.code(),
            r is Err ==> r == Err::<(), CryptError>(CryptError::AuthenticationError),
    {
        match mac_verify(self.state, stored_hmac) {
            Ok(()) => Ok(()),
            Err(_) => Err(CryptError::AuthenticationError),
        }
    }
}

} // verus!
