use vstd::prelude::*;
use ring::rand::SecureRandom;
use crate::container::{IV_LENGTH, SALT_LENGTH};
use crate::error::CryptError;

verus! {

#[verifier::external_type_specification]
#[verifier::external_body]
pub struct ExUnspecified(ring::error::Unspecified);

/// Relies on ring 0.17's `SystemRandom::fill`: it fills `dest` from the
/// operating system's secure generator or fails. The bytes are unpredictable,
/// so nothing is stated of them but the length.
#[verifier::external_body]
fn fill_secure_random(dest: &mut [u8]) -> (r: Result<(), ring::error::Unspecified>)
    ensures
        final(dest)@.len() == old(dest)@.len(),
{
    ring::rand::SystemRandom::new().fill(dest)
}

fn random_bytes(len: usize) -> (r: Result<Vec<u8>, CryptError>)
    ensures
        r matches Ok(v) ==> v@.len() == len,
        r is Err ==> r == Err::<Vec<u8>, CryptError>(CryptError::IoError),
{
    let mut buf: Vec<u8> = vec![0u8; len];
    match fill_secure_random(buf.as_mut_slice()) {
        Ok(()) => Ok(buf),
        Err(_) => Err(CryptError::IoError),
    }
}

/// A fresh random 16-byte salt from the system's secure generator; fails
/// with `IoError` when the generator does.
pub fn generate_salt() -> (r: Result<Vec<u8>, CryptError>)
    ensures
        r matches Ok(v) ==> v@.len() == SALT_LENGTH,
        r is Err ==> r == Err::<Vec<u8>, CryptError>(CryptError::IoError),
{
    random_bytes(SALT_LENGTH)
}

/// A fresh random 16-byte IV from the system's secure generator; fails with
/// `IoError` when the generator does.
pub fn generate_iv() -> (r: Result<Vec<u8>, CryptError>)
    ensures
        r matches Ok(v) ==> v@.len() == IV_LENGTH,
        r is Err ==> r == Err::<Vec<u8>, CryptError>(CryptError::IoError),
{
    random_bytes(IV_LENGTH)
}

} // verus!
