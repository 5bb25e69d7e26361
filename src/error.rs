use vstd::prelude::*;

verus! {

/// The closed set of failures that an encryption or decryption pass reports.
#[derive(Debug, Clone, Copy, PartialEq, Eq, Structural)]
pub enum CryptError {
    /// The input file does not exist or is not a regular file.
    InputNotFound,
    /// The input does not start with the container's magic bytes.
    FormatError,
    /// The container's version byte is not the supported one; it carries
    /// the byte found.
    VersionError(u8),
    /// Password hashing or key expansion failed.
    KeyDerivationError,
    /// The stored tag does not match: wrong password, or tampered data.
    AuthenticationError,
    /// Reading, writing or gathering randomness failed, or the input ended early.
    IoError,
    /// A key or IV of the wrong length, or another misuse of an interface.
    InvalidParameter,
}

impl CryptError {
    /// A short human-readable description of the failure.
    pub fn message(&self) -> (r: &'static str) {
        match self {
            CryptError::InputNotFound => "input file not found",
            CryptError::FormatError => "invalid container format",
            CryptError::VersionError(_) => "unsupported container version",
            CryptError::KeyDerivationError => "key derivation failed",
            CryptError::AuthenticationError => "authentication failed: wrong password or tampered file",
            CryptError::IoError => "i/o error",
            CryptError::InvalidParameter => "invalid parameter",
        }
    }
}

} // verus!
