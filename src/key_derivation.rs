use vstd::prelude::*;
use crate::error::CryptError;

verus! {

/// Argon2id iteration count.
pub const ARGON2_ITERATIONS: u32 = 3;
/// Argon2id memory cost in KiB.
pub const ARGON2_MEMORY_KIB: u32 = 65536;
/// Argon2id degree of parallelism.
pub const ARGON2_PARALLELISM: u32 = 4;
/// Length of the master key.
pub const MASTER_KEY_LENGTH: usize = 32;
/// Length of the encryption subkey.
pub const ENCRYPTION_KEY_LENGTH: usize = 32;
/// Length of the authentication subkey.
pub const HMAC_KEY_LENGTH: usize = 32;
/// Longest password that Argon2 accepts.
pub const MAX_PASSWORD_LENGTH: usize = 0xFFFF_FFFF;

#[verifier::external_type_specification]
#[verifier::external_body]
pub struct ExArgon2Error(argon2::Error);

#[verifier::external_type_specification]
#[verifier::external_body]
pub struct ExHkdfInvalidLength(hkdf::InvalidLength);

#[verifier::external_type_specification]
#[verifier::external_body]
pub struct ExHkdfInvalidPrkLength(hkdf::InvalidPrkLength);

/// Output of Argon2id (version 0x13) for the given password, salt, memory
/// cost, iteration count, parallelism and output length.
pub uninterp spec fn argon2id_hash(
    password: Seq<u8>,
    salt: Seq<u8>,
    m_cost: u32,
    t_cost: u32,
    p_cost: u32,
    out_len: nat,
) -> Seq<u8>;

/// Output of HKDF-SHA256 expansion (no extract step): pseudo-random key,
/// context label, output length.
pub uninterp spec fn hkdf_sha256_expand(prk: Seq<u8>, info: Seq<u8>, out_len: nat) -> Seq<u8>;

/// Relies on argon2 0.5's `Params::new` and `Argon2::hash_password_into`
/// with `Algorithm::Argon2id`, `Version::V0x13`. For cost parameters that
/// `Params::new` accepts (those in `requires`) and an output length fixed to
/// `out`'s, the hash fails exactly when the password is longer than
/// 2^32 - 1 bytes or the salt is not between 8 and 2^32 - 1 bytes long;
/// otherwise `out` holds the hash, a function of the inputs alone.
#[verifier::external_body]
fn argon2id_hash_into(
    password: &[u8],
    salt: &[u8],
    m_cost: u32,
    t_cost: u32,
    p_cost: u32,
    out: &mut [u8],
) -> (r: Result<(), argon2::Error>)
    requires
        1 <= p_cost <= 0xFF_FFFF,
        m_cost >= 8 * p_cost,
        t_cost >= 1,
        4 <= old(out)@.len() <= 0xFFFF_FFFF,
    ensures
        final(out)@.len() == old(out)@.len(),
        r is Ok <==> (password@.len() <= 0xFFFF_FFFF && 8 <= salt@.len() <= 0xFFFF_FFFF),
        r is Ok ==> final(out)@ == argon2id_hash(
            password@,
            salt@,
            m_cost,
            t_cost,
            p_cost,
            old(out)@.len(),
        ),
{
    let params = match argon2::Params::new(m_cost, t_cost, p_cost, Some(out.len())) {
        Ok(p) => p,
        Err(e) => return Err(e),
    };
    argon2::Argon2::new(argon2::Algorithm::Argon2id, argon2::Version::V0x13, params)
        .hash_password_into(password, salt, out)
}

/// Relies on hkdf 0.12's `Hkdf::<Sha256>::from_prk` and `expand`:
/// `from_prk` fails exactly when the pseudo-random key is shorter than 32
/// bytes; `expand` then fails exactly when `okm` is longer than 255 * 32
/// bytes, and otherwise fills it with output that depends on the key,
/// `info` and the length alone.
#[verifier::external_body]
fn hkdf_sha256_expand_into(prk: &[u8], info: &[u8], okm: &mut [u8]) -> (r: Result<
    Result<(), hkdf::InvalidLength>,
    hkdf::InvalidPrkLength,
>)
    ensures
        final(okm)@.len() == old(okm)@.len(),
        r is Ok <==> prk@.len() >= 32,
        r matches Ok(inner) ==> (inner is Ok <==> old(okm)@.len() <= 8160),
        r matches Ok(inner) ==> (inner is Ok ==> final(okm)@ == hkdf_sha256_expand(
            prk@,
            info@,
            old(okm)@.len(),
        )),
{
    match hkdf::Hkdf::<sha2::Sha256>::from_prk(prk) {
        Ok(hk) => Ok(hk.expand(info, okm)),
        Err(e) => Err(e),
    }
}

/// Whether a password and salt can be hashed at all.
pub open spec fn derivation_inputs_ok(password: Seq<u8>, salt: Seq<u8>) -> bool {
    password.len() <= MAX_PASSWORD_LENGTH && 8 <= salt.len() <= 0xFFFF_FFFF
}

/// The master key for a password and salt.
pub open spec fn master_key_spec(password: Seq<u8>, salt: Seq<u8>) -> Seq<u8> {
    argon2id_hash(
        password,
        salt,
        ARGON2_MEMORY_KIB,
        ARGON2_ITERATIONS,
        ARGON2_PARALLELISM,
        MASTER_KEY_LENGTH as nat,
    )
}

/// Context label of the encryption subkey, `dec-encryption`.
pub open spec fn encryption_label_spec() -> Seq<u8> {
    seq![0x64u8, 0x65, 0x63, 0x2d, 0x65, 0x6e, 0x63, 0x72, 0x79, 0x70, 0x74, 0x69, 0x6f, 0x6e]
}

/// Context label of the authentication subkey, `dec-hmac`.
pub open spec fn hmac_label_spec() -> Seq<u8> {
    seq![0x64u8, 0x65, 0x63, 0x2d, 0x68, 0x6d, 0x61, 0x63]
}

/// The encryption subkey expanded from a master key.
pub open spec fn encryption_subkey_spec(master_key: Seq<u8>) -> Seq<u8> {
    hkdf_sha256_expand(master_key, encryption_label_spec(), ENCRYPTION_KEY_LENGTH as nat)
}

/// The authentication subkey expanded from a master key.
pub open spec fn hmac_subkey_spec(master_key: Seq<u8>) -> Seq<u8> {
    hkdf_sha256_expand(master_key, hmac_label_spec(), HMAC_KEY_LENGTH as nat)
}

/// The encryption subkey for a password and salt.
pub open spec fn encryption_key_spec(password: Seq<u8>, salt: Seq<u8>) -> Seq<u8> {
    encryption_subkey_spec(master_key_spec(password, salt))
}

/// The authentication subkey for a password and salt.
pub open spec fn hmac_key_spec(password: Seq<u8>, salt: Seq<u8>) -> Seq<u8> {
    hmac_subkey_spec(master_key_spec(password, salt))
}

/// Derives the 32-byte master key from a password and a salt with Argon2id
/// and the fixed cost parameters of this library.
pub fn derive_master_key(password: &[u8], salt: &[u8]) -> (r: Result<Vec<u8>, CryptError>)
    ensures
        r is Ok <==> derivation_inputs_ok(password@, salt@),
        r is Err ==> r == Err::<Vec<u8>, CryptError>(CryptError::KeyDerivationError),
        r matches Ok(k) ==> k@ == master_key_spec(password@, salt@) && k@.len() == MASTER_KEY_LENGTH,
{
    let mut master_key: Vec<u8> = vec![0u8; MASTER_KEY_LENGTH];
    let res = argon2id_hash_into(
        password,
        salt,
        ARGON2_MEMORY_KIB,
        ARGON2_ITERATIONS,
        ARGON2_PARALLELISM,
        master_key.as_mut_slice(),
    );
    match res {
        Ok(()) => Ok(master_key),
        Err(_) => Err(CryptError::KeyDerivationError),
    }
}

fn encryption_label() -> (r: Vec<u8>)
    ensures
        r@ == encryption_label_spec(),
{
    vec![0x64u8, 0x65, 0x63, 0x2d, 0x65, 0x6e, 0x63, 0x72, 0x79, 0x70, 0x74, 0x69, 0x6f, 0x6e]
}

fn hmac_label() -> (r: Vec<u8>)
    ensures
        r@ == hmac_label_spec(),
{
    vec![0x64u8, 0x65, 0x63, 0x2d, 0x68, 0x6d, 0x61, 0x63]
}

/// Expands a master key, used directly as the pseudo-random key (no
/// extract step, as it is already high-entropy), into the encryption
/// subkey and the authentication subkey, each 32 bytes, under two distinct
/// fixed context labels. Fails with `KeyDerivationError` on a master key
/// shorter than 32 bytes.
pub fn derive_encryption_and_hmac_keys(master_key: &[u8]) -> (r: Result<
    (Vec<u8>, Vec<u8>),
    CryptError,
>)
    ensures
        r is Ok <==> master_key@.len() >= MASTER_KEY_LENGTH,
        r is Err ==> r == Err::<(Vec<u8>, Vec<u8>), CryptError>(CryptError::KeyDerivationError),
        r matches Ok((e, h)) ==> e@ == encryption_subkey_spec(master_key@) && h@ == hmac_subkey_spec(
            master_key@,
        ) && e@.len() == ENCRYPTION_KEY_LENGTH && h@.len() == HMAC_KEY_LENGTH,
{
    let mut encryption_key: Vec<u8> = vec![0u8; ENCRYPTION_KEY_LENGTH];
    let label = encryption_label();
    match hkdf_sha256_expand_into(master_key, label.as_slice(), encryption_key.as_mut_slice()) {
        Ok(Ok(())) => {},
        _ => return Err(CryptError::KeyDerivationError),
    }
    let mut hmac_key: Vec<u8> = vec![0u8; HMAC_KEY_LENGTH];
    let label = hmac_label();
    match hkdf_sha256_expand_into(master_key, label.as_slice(), hmac_key.as_mut_slice()) {
        Ok(Ok(())) => {},
        _ => return Err(CryptError::KeyDerivationError),
    }
    Ok((encryption_key, hmac_key))
}

/// Derivation is deterministic: two master keys derived from the same
/// password and salt are the same key.
pub proof fn lemma_master_key_deterministic(
    password: Seq<u8>,
    salt: Seq<u8>,
    first: Seq<u8>,
    second: Seq<u8>,
)
    requires
        first == master_key_spec(password, salt),
        second == master_key_spec(password, salt),
    ensures
        first == second,
        encryption_subkey_spec(first) == encryption_key_spec(password, salt),
        hmac_subkey_spec(second) == hmac_key_spec(password, salt),
{
}

} // verus!
