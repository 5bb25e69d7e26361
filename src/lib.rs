//! A password-based, file-level authenticated-encryption engine.
//!
//! A container is `header | ciphertext | tag`: the header carries a magic
//! value, a format version, a salt and an IV; the ciphertext is the plaintext
//! XORed with an AES-256-CTR keystream; the tag is an HMAC-SHA256 over the
//! ciphertext. Both subkeys come from an Argon2id master key via HKDF.
pub mod args;
pub mod container;
pub mod crypto_utils;
pub mod decryptor;
pub mod encryptor;
pub mod error;
pub mod hmac_validator;
pub mod key_derivation;
pub mod parallel_handler;
pub mod progress_utils;
