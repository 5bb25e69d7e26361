use vstd::prelude::*;
use crate::container::{
    append_bytes, copy_range, encode_header, header_spec, BUFFER_SIZE, HEADER_LENGTH, IV_LENGTH,
    SALT_LENGTH, TAG_LENGTH,
};
use crate::error::CryptError;
use crate::hmac_validator::{hmac_sha256, HmacValidator};
use crate::key_derivation::{
    derive_encryption_and_hmac_keys, derive_master_key, encryption_key_spec, hmac_key_spec,
    MAX_PASSWORD_LENGTH,
};
use crate::parallel_handler::{keystream_xor, lemma_keystream_split, KeystreamEngine};

verus! {

/// The ciphertext of `data` under the encryption subkey of `password` and `salt`.
pub open spec fn ciphertext_spec(data: Seq<u8>, password: Seq<u8>, salt: Seq<u8>, iv: Seq<u8>) -> Seq<u8> {
    keystream_xor(encryption_key_spec(password, salt), iv, 0, data)
}

/// The whole container for `data`: header, ciphertext, tag over the ciphertext.
pub open spec fn container_spec(data: Seq<u8>, password: Seq<u8>, salt: Seq<u8>, iv: Seq<u8>) -> Seq<u8> {
    let ct = ciphertext_spec(data, password, salt, iv);
    header_spec(salt, iv) + ct + hmac_sha256(hmac_key_spec(password, salt), ct)
}

/// `c` is the container that encrypting `data` gives: the layout above, with
/// a 32-byte tag.
pub open spec fn is_container_of(
    c: Seq<u8>,
    data: Seq<u8>,
    password: Seq<u8>,
    salt: Seq<u8>,
    iv: Seq<u8>,
) -> bool {
    c == container_spec(data, password, salt, iv) && c.len() == HEADER_LENGTH + data.len() + TAG_LENGTH
}

/// Whether an encryption pass can start with these inputs.
pub open spec fn encrypt_inputs_ok(password: Seq<u8>, salt: Seq<u8>, iv: Seq<u8>) -> bool {
    salt.len() == SALT_LENGTH && iv.len() == IV_LENGTH && password.len() <= MAX_PASSWORD_LENGTH
}

/// The state of one streaming encryption pass, after the keys are derived:
/// it hands out the header, transforms plaintext buffers in stream order
/// (authenticating the ciphertext as it goes) and finally yields the tag.
pub struct Encryptor {
    engine: KeystreamEngine,
    header: Vec<u8>,
    hmac: HmacValidator,
    position: usize,
}

impl Encryptor {
    /// The encryption subkey.
    pub closed spec fn encryption_key(&self) -> Seq<u8> {
        self.engine.key()
    }

    /// The authentication subkey.
    pub closed spec fn hmac_key(&self) -> Seq<u8> {
        self.hmac.key()
    }

    /// The IV of this pass.
    pub closed spec fn iv(&self) -> Seq<u8> {
        self.engine.iv()
    }

    /// The container header of this pass.
    pub closed spec fn header_bytes(&self) -> Seq<u8> {
        self.header@
    }

    /// All ciphertext produced so far, in stream order.
    pub closed spec fn ciphertext(&self) -> Seq<u8> {
        self.hmac.message()
    }

    /// The stream position of the next plaintext byte.
    pub closed spec fn position(&self) -> nat {
        self.position as nat
    }

    /// Starts a pass: derives the subkeys from `password` and `salt` and
    /// lays out the header. `parts` is the parallel fan-out of the keystream.
    pub fn new(password: &[u8], salt: &[u8], iv: &[u8], parts: usize) -> (r: Result<Self, CryptError>)
        ensures
            r is Ok <==> encrypt_inputs_ok(password@, salt@, iv@),
            !(salt@.len() == SALT_LENGTH && iv@.len() == IV_LENGTH) ==> r == Err::<Self, CryptError>(
                CryptError::InvalidParameter,
            ),
            salt@.len() == SALT_LENGTH && iv@.len() == IV_LENGTH && password@.len()
                > MAX_PASSWORD_LENGTH ==> r == Err::<Self, CryptError>(CryptError::KeyDerivationError),
            r matches Ok(e) ==> {
                &&& e.encryption_key() == encryption_key_spec(password@, salt@)
                &&& e.hmac_key() == hmac_key_spec(password@, salt@)
                &&& e.iv() == iv@
                &&& e.header_bytes() == header_spec(salt@, iv@)
                &&& e.ciphertext() == Seq::<u8>::empty()
                &&& e.position() == 0
            },
    {
        let header = match encode_header(salt, iv) {
            Ok(h) => h,
            Err(e) => return Err(e),
        };
        let master_key = match derive_master_key(password, salt) {
            Ok(k) => k,
            Err(e) => return Err(e),
        };
        let (encryption_key, hmac_key) = match derive_encryption_and_hmac_keys(master_key.as_slice()) {
            Ok(keys) => keys,
            Err(e) => return Err(e),
        };
        let hmac = match HmacValidator::new(hmac_key.as_slice()) {
            Ok(h) => h,
            Err(e) => return Err(e),
        };
        let engine = match KeystreamEngine::new(encryption_key.as_slice(), iv, parts) {
            Ok(e) => e,
            Err(e) => return Err(e),
        };
        Ok(Encryptor { engine, header, hmac, position: 0 })
    }

    /// The container header: magic, version, salt, IV.
    pub fn header(&self) -> (r: Vec<u8>)
        ensures
            r@ == self.header_bytes(),
    {
        let r = copy_range(self.header.as_slice(), 0, self.header.len());
        proof {
            assert(self.header@.subrange(0, self.header@.len() as int) == self.header@);
        }
        r
    }

    /// Encrypts the next plaintext buffer in place, at the current stream
    /// position, and authenticates the resulting ciphertext.
    pub fn process(&mut self, chunk: &mut [u8])
        requires
            old(self).position() + old(chunk)@.len() <= usize::MAX,
        ensures
            final(self).encryption_key() == old(self).encryption_key(),
            final(self).hmac_key() == old(self).hmac_key(),
            final(self).iv() == old(self).iv(),
            final(self).header_bytes() == old(self).header_bytes(),
            final(chunk)@ == keystream_xor(
                old(self).encryption_key(),
                old(self).iv(),
                old(self).position() as int,
                old(chunk)@,
            ),
            final(self).ciphertext() == old(self).ciphertext() + final(chunk)@,
            final(self).position() == old(self).position() + old(chunk)@.len(),
    {
        self.engine.apply(chunk, self.position);
        self.hmac.update(chunk);
        self.position = self.position + chunk.len();
    }

    /// The stream position of the next plaintext byte.
    pub fn bytes_processed(&self) -> (r: usize)
        ensures
            r == self.position(),
    {
        self.position
    }

    /// Ends the pass and returns the 32-byte tag over all the ciphertext.
    pub fn finish(self) -> (r: Vec<u8>)
        ensures
            r@ == hmac_sha256(self.hmac_key(), self.ciphertext()),
            r@.len() == 32,
    {
        self.hmac.finalize()
    }
}

/// Size of the read buffer of a file encryption pass with fan-out `parts`:
/// 2 MiB per part, at least 256 KiB, so that each part stays above the
/// parallel threshold.
pub fn encrypt_buffer_size(parts: usize) -> (r: usize)
    requires
        parts <= crate::parallel_handler::MAX_FAN_OUT,
    ensures
        r == if parts * 2097152 > 262144 { parts * 2097152 } else { 262144 },
{
    let scaled = parts * 2097152;
    if scaled > 262144 {
        scaled
    } else {
        262144
    }
}

/// Encrypts `data` with `password` into a complete container, using the
/// given salt and IV (16 bytes each) and keystream fan-out `parts`. The
/// plaintext is processed in buffers of `BUFFER_SIZE` bytes, as a file pass is.
pub fn encrypt_bytes(data: &[u8], password: &[u8], salt: &[u8], iv: &[u8], parts: usize) -> (r: Result<
    Vec<u8>,
    CryptError,
>)
    ensures
        r is Ok <==> encrypt_inputs_ok(password@, salt@, iv@),
        !(salt@.len() == SALT_LENGTH && iv@.len() == IV_LENGTH) ==> r == Err::<Vec<u8>, CryptError>(
            CryptError::InvalidParameter,
        ),
        salt@.len() == SALT_LENGTH && iv@.len() == IV_LENGTH && password@.len() > MAX_PASSWORD_LENGTH
            ==> r == Err::<Vec<u8>, CryptError>(CryptError::KeyDerivationError),
        r matches Ok(c) ==> is_container_of(c@, data@, password@, salt@, iv@),
{
    let mut enc = match Encryptor::new(password, salt, iv, parts) {
        Ok(e) => e,
        Err(e) => return Err(e),
    };
    let ghost ek = enc.encryption_key();
    let ghost hk = enc.hmac_key();
    let mut out = enc.header();
    let mut pos: usize = 0;
    while pos < data.len()
        invariant
            enc.encryption_key() == ek,
            enc.hmac_key() == hk,
            enc.iv() == iv@,
            pos <= data@.len(),
            enc.position() == pos,
            enc.ciphertext() == keystream_xor(ek, iv@, 0, data@.subrange(0, pos as int)),
            out@ == header_spec(salt@, iv@) + enc.ciphertext(),
        decreases data@.len() - pos,
    {
        let end = if data.len() - pos > BUFFER_SIZE { pos + BUFFER_SIZE } else { data.len() };
        let mut chunk = copy_range(data, pos, end);
        enc.process(chunk.as_mut_slice());
        append_bytes(&mut out, chunk.as_slice());
        proof {
            let prefix = data@.subrange(0, pos as int);
            let piece = data@.subrange(pos as int, end as int);
            assert(data@.subrange(0, end as int) == prefix + piece);
            lemma_keystream_split(ek, iv@, 0, prefix, piece);
            assert(out@ == header_spec(salt@, iv@) + enc.ciphertext());
        }
        pos = end;
    }
    proof {
        assert(data@.subrange(0, data@.len() as int) == data@);
    }
    let tag = enc.finish();
    append_bytes(&mut out, tag.as_slice());
    Ok(out)
}

} // verus!
