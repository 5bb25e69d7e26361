use vstd::prelude::*;
pub use crate::container::check_version;
use crate::container::{
    append_bytes, copy_range, header_fields_spec, header_spec, magic_spec, parse_header,
    version_check_spec, HEADER_LENGTH, MAGIC_LENGTH, TAG_LENGTH, VERSION_SIGN,
};
use crate::encryptor::{ciphertext_spec, encrypt_inputs_ok, is_container_of};
use crate::parallel_handler::lemma_keystream_involution;
use crate::error::CryptError;
use crate::hmac_validator::{hmac_sha256, HmacValidator};
use crate::key_derivation::{
    derive_encryption_and_hmac_keys, derive_master_key, encryption_key_spec, hmac_key_spec,
    MAX_PASSWORD_LENGTH,
};
use crate::parallel_handler::{keystream_xor, lemma_keystream_split, KeystreamEngine};

verus! {

/// What decrypting a whole container with `password` gives: the plaintext,
/// or the first error met in the order header, length, key derivation, tag.
/// Neither a bad header nor a container too short to hold a tag costs a key
/// derivation.
pub open spec fn decrypt_spec(container: Seq<u8>, password: Seq<u8>) -> Result<Seq<u8>, CryptError> {
    match header_fields_spec(container) {
        Err(e) => Err(e),
        Ok((salt, iv)) => if container.len() < HEADER_LENGTH + TAG_LENGTH {
            Err(CryptError::IoError)
        } else if password.len() > MAX_PASSWORD_LENGTH {
            Err(CryptError::KeyDerivationError)
        } else {
            let end = container.len() - TAG_LENGTH;
            let ct = container.subrange(HEADER_LENGTH as int, end);
            let tag = container.subrange(end, container.len() as int);
            if tag == hmac_sha256(hmac_key_spec(password, salt), ct) {
                Ok(keystream_xor(encryption_key_spec(password, salt), iv, 0, ct))
            } else {
                Err(CryptError::AuthenticationError)
            }
        },
    }
}

/// Whether a decryption pass can start on this header.
pub open spec fn decrypt_inputs_ok(header: Seq<u8>, password: Seq<u8>) -> bool {
    header_fields_spec(header) is Ok && password.len() <= MAX_PASSWORD_LENGTH
}

/// The state of one streaming decryption pass, after the header is
/// validated and the keys are derived: it authenticates each ciphertext
/// buffer in stream order, decrypts it in place, and checks the stored tag
/// at the end.
pub struct Decryptor {
    engine: KeystreamEngine,
    hmac: HmacValidator,
    position: usize,
}

impl Decryptor {
    /// The encryption subkey.
    pub closed spec fn encryption_key(&self) -> Seq<u8> {
        self.engine.key()
    }

    /// The authentication subkey.
    pub closed spec fn hmac_key(&self) -> Seq<u8> {
        self.hmac.key()
    }

    /// The IV read from the header.
    pub closed spec fn iv(&self) -> Seq<u8> {
        self.engine.iv()
    }

    /// All ciphertext consumed so far, in stream order.
    pub closed spec fn ciphertext(&self) -> Seq<u8> {
        self.hmac.message()
    }

    /// The stream position of the next ciphertext byte.
    pub closed spec fn position(&self) -> nat {
        self.position as nat
    }

    /// Starts a pass: validates magic, version and length of `header` (the
    /// container's first bytes), then derives the subkeys from `password`
    /// and the stored salt. Header errors come before any key derivation.
    pub fn new(password: &[u8], header: &[u8], parts: usize) -> (r: Result<Self, CryptError>)
        ensures
            r is Ok <==> decrypt_inputs_ok(header@, password@),
            header_fields_spec(header@) matches Err(e) ==> r == Err::<Self, CryptError>(e),
            header_fields_spec(header@) is Ok && password@.len() > MAX_PASSWORD_LENGTH ==> r
                == Err::<Self, CryptError>(CryptError::KeyDerivationError),
            r matches Ok(d) ==> {
                &&& header_fields_spec(header@) matches Ok((salt, iv)) && {
                    &&& d.encryption_key() == encryption_key_spec(password@, salt)
                    &&& d.hmac_key() == hmac_key_spec(password@, salt)
                    &&& d.iv() == iv
                }
                &&& d.ciphertext() == Seq::<u8>::empty()
                &&& d.position() == 0
            },
    {
        let fields = match parse_header(header) {
            Ok(h) => h,
            Err(e) => return Err(e),
        };
        let master_key = match derive_master_key(password, fields.salt.as_slice()) {
            Ok(k) => k,
            Err(e) => return Err(e),
        };
        let (encryption_key, hmac_key) = match derive_encryption_and_hmac_keys(master_key.as_slice()) {
            Ok(keys) => keys,
            Err(e) => return Err(e),
        };
        let hmac = match HmacValidator::new(hmac_key.as_slice()) {
            Ok(h) => h,
            Err(e) => return Err(e),
        };
        let engine = match KeystreamEngine::new(encryption_key.as_slice(), fields.iv.as_slice(), parts) {
            Ok(e) => e,
            Err(e) => return Err(e),
        };
        Ok(Decryptor { engine, hmac, position: 0 })
    }

    /// Authenticates the next ciphertext buffer, then decrypts it in place
    /// at the current stream position.
    pub fn process(&mut self, chunk: &mut [u8])
        requires
            old(self).position() + old(chunk)@.len() <= usize::MAX,
        ensures
            final(self).encryption_key() == old(self).encryption_key(),
            final(self).hmac_key() == old(self).hmac_key(),
            final(self).iv() == old(self).iv(),
            final(chunk)@ == keystream_xor(
                old(self).encryption_key(),
                old(self).iv(),
                old(self).position() as int,
                old(chunk)@,
            ),
            final(self).ciphertext() == old(self).ciphertext() + old(chunk)@,
            final(self).position() == old(self).position() + old(chunk)@.len(),
    {
        self.hmac.update(chunk);
        self.engine.apply(chunk, self.position);
        self.position = self.position + chunk.len();
    }

    /// The stream position of the next ciphertext byte.
    pub fn bytes_processed(&self) -> (r: usize)
        ensures
            r == self.position(),
    {
        self.position
    }

    /// Ends the pass: succeeds exactly when `stored_tag` is the tag over all
    /// the ciphertext consumed, else fails with `AuthenticationError`.
    pub fn finish(self, stored_tag: &[u8]) -> (r: Result<(), CryptError>)
        ensures
            r is Ok <==> stored_tag@ == hmac_sha256(self.hmac_key(), self.ciphertext()),
            r is Err ==> r == Err::<(), CryptError>(CryptError::AuthenticationError),
    {
        self.hmac.verify(stored_tag)
    }
}

/// Decrypts a whole container with `password`, in buffers of `BUFFER_SIZE`
/// bytes and with keystream fan-out `parts`. The plaintext is returned only
/// when the stored tag matches.
pub fn decrypt_bytes(container: &[u8], password: &[u8], parts: usize) -> (r: Result<Vec<u8>, CryptError>)
    ensures
        r matches Ok(p) ==> decrypt_spec(container@, password@) == Ok::<Seq<u8>, CryptError>(p@),
        r matches Err(e) ==> decrypt_spec(container@, password@) == Err::<Seq<u8>, CryptError>(e),
{
    match parse_header(container) {
        Ok(_) => {},
        Err(e) => return Err(e),
    }
    if container.len() < HEADER_LENGTH + TAG_LENGTH {
        return Err(CryptError::IoError);
    }
    let mut dec = match Decryptor::new(password, container, parts) {
        Ok(d) => d,
        Err(e) => return Err(e),
    };
    let end = container.len() - TAG_LENGTH;
    let ghost ek = dec.encryption_key();
    let ghost iv = dec.iv();
    let ghost hk = dec.hmac_key();
    let ghost ct = container@.subrange(HEADER_LENGTH as int, end as int);
    let mut plain: Vec<u8> = Vec::new();
    let mut pos: usize = HEADER_LENGTH;
    while pos < end
        invariant
            dec.encryption_key() == ek,
            dec.hmac_key() == hk,
            dec.iv() == iv,
            HEADER_LENGTH <= pos <= end,
            end == container@.len() - TAG_LENGTH,
            ct == container@.subrange(HEADER_LENGTH as int, end as int),
            dec.position() == pos - HEADER_LENGTH,
            dec.ciphertext() == ct.subrange(0, pos - HEADER_LENGTH),
            plain@ == keystream_xor(ek, iv, 0, dec.ciphertext()),
        decreases end - pos,
    {
        let stop = if end - pos > crate::container::BUFFER_SIZE {
            pos + crate::container::BUFFER_SIZE
        } else {
            end
        };
        let mut chunk = copy_range(container, pos, stop);
        let ghost before = dec.ciphertext();
        dec.process(chunk.as_mut_slice());
        append_bytes(&mut plain, chunk.as_slice());
        proof {
            let piece = container@.subrange(pos as int, stop as int);
            assert(ct.subrange(0, stop - HEADER_LENGTH) == before + piece);
            lemma_keystream_split(ek, iv, 0, before, piece);
        }
        pos = stop;
    }
    proof {
        assert(ct.subrange(0, ct.len() as int) == ct);
    }
    let tag = copy_range(container, end, container.len());
    match dec.finish(tag.as_slice()) {
        Ok(()) => Ok(plain),
        Err(e) => Err(e),
    }
}

/// The regions of a container made by encryption: header fields, ciphertext, tag.
proof fn lemma_container_regions(
    c: Seq<u8>,
    data: Seq<u8>,
    password: Seq<u8>,
    salt: Seq<u8>,
    iv: Seq<u8>,
)
    requires
        encrypt_inputs_ok(password, salt, iv),
        is_container_of(c, data, password, salt, iv),
    ensures
        c.subrange(0, MAGIC_LENGTH as int) == magic_spec(),
        c[MAGIC_LENGTH as int] == VERSION_SIGN,
        header_fields_spec(c) == Ok::<(Seq<u8>, Seq<u8>), CryptError>((salt, iv)),
        c.subrange(HEADER_LENGTH as int, c.len() - TAG_LENGTH) == ciphertext_spec(data, password, salt, iv),
        c.subrange(c.len() - TAG_LENGTH, c.len() as int) == hmac_sha256(
            hmac_key_spec(password, salt),
            ciphertext_spec(data, password, salt, iv),
        ),
{
    let ct = ciphertext_spec(data, password, salt, iv);
    let tag = hmac_sha256(hmac_key_spec(password, salt), ct);
    let h = header_spec(salt, iv);
    assert(h.len() == HEADER_LENGTH);
    assert(c == h + ct + tag);
    assert(c.subrange(0, MAGIC_LENGTH as int) =~= magic_spec());
    assert(c[MAGIC_LENGTH as int] == h[MAGIC_LENGTH as int]);
    assert(c.subrange(5, 21) =~= salt);
    assert(c.subrange(21, 37) =~= iv);
    assert(version_check_spec(c) is Ok);
    assert(c.subrange(HEADER_LENGTH as int, c.len() - TAG_LENGTH) =~= ct);
    assert(c.subrange(c.len() - TAG_LENGTH, c.len() as int) =~= tag);
}

/// Round trip: decrypting the container that encrypting `data` with
/// `password` gives, with the same password, yields `data`.
pub proof fn lemma_round_trip(
    data: Seq<u8>,
    password: Seq<u8>,
    salt: Seq<u8>,
    iv: Seq<u8>,
    container: Seq<u8>,
)
    requires
        encrypt_inputs_ok(password, salt, iv),
        is_container_of(container, data, password, salt, iv),
    ensures
        decrypt_spec(container, password) == Ok::<Seq<u8>, CryptError>(data),
{
    lemma_container_regions(container, data, password, salt, iv);
    lemma_keystream_involution(encryption_key_spec(password, salt), iv, 0, data);
}

/// Flipping any single bit of the tag of a valid container makes decryption
/// with the encrypting password fail with `AuthenticationError`.
pub proof fn lemma_tag_bit_flip_detected(
    data: Seq<u8>,
    password: Seq<u8>,
    salt: Seq<u8>,
    iv: Seq<u8>,
    container: Seq<u8>,
    pos: int,
    bit: u8,
)
    requires
        encrypt_inputs_ok(password, salt, iv),
        is_container_of(container, data, password, salt, iv),
        container.len() - TAG_LENGTH <= pos < container.len(),
        bit < 8,
    ensures
        decrypt_spec(container.update(pos, container[pos] ^ (1u8 << bit)), password)
            == Err::<Seq<u8>, CryptError>(CryptError::AuthenticationError),
{
    let c = container;
    let x = c[pos];
    let t = c.update(pos, x ^ (1u8 << bit));
    lemma_container_regions(c, data, password, salt, iv);
    assert(x ^ (1u8 << bit) != x) by (bit_vector)
        requires bit < 8;
    let end = c.len() - TAG_LENGTH;
    assert(t.subrange(0, HEADER_LENGTH as int) =~= c.subrange(0, HEADER_LENGTH as int));
    assert(t.subrange(0, MAGIC_LENGTH as int) =~= c.subrange(0, MAGIC_LENGTH as int));
    assert(t.subrange(5, 21) =~= c.subrange(5, 21));
    assert(t.subrange(21, 37) =~= c.subrange(21, 37));
    assert(t[MAGIC_LENGTH as int] == c[MAGIC_LENGTH as int]);
    assert(header_fields_spec(t) == header_fields_spec(c));
    assert(t.subrange(HEADER_LENGTH as int, end) =~= c.subrange(HEADER_LENGTH as int, end));
    assert(t.subrange(end, t.len() as int)[pos - end] != c.subrange(end, c.len() as int)[pos - end]);
}

/// Corrupting the magic bytes of a valid container makes both the version
/// check and decryption fail with `FormatError`, whatever the password:
/// nothing is derived from it.
pub proof fn lemma_magic_corruption_detected(
    data: Seq<u8>,
    password: Seq<u8>,
    salt: Seq<u8>,
    iv: Seq<u8>,
    container: Seq<u8>,
    corrupted: Seq<u8>,
    any_password: Seq<u8>,
)
    requires
        encrypt_inputs_ok(password, salt, iv),
        is_container_of(container, data, password, salt, iv),
        corrupted.len() == container.len(),
        corrupted.subrange(0, MAGIC_LENGTH as int) != container.subrange(0, MAGIC_LENGTH as int),
    ensures
        version_check_spec(corrupted) == Err::<(), CryptError>(CryptError::FormatError),
        decrypt_spec(corrupted, any_password) == Err::<Seq<u8>, CryptError>(CryptError::FormatError),
{
    lemma_container_regions(container, data, password, salt, iv);
}

/// Corrupting only the version byte of a valid container makes both the
/// version check and decryption fail with `VersionError` naming the byte
/// found, whatever the
/// password: nothing is derived from it.
pub proof fn lemma_version_corruption_detected(
    data: Seq<u8>,
    password: Seq<u8>,
    salt: Seq<u8>,
    iv: Seq<u8>,
    container: Seq<u8>,
    version: u8,
    any_password: Seq<u8>,
)
    requires
        encrypt_inputs_ok(password, salt, iv),
        is_container_of(container, data, password, salt, iv),
        version != VERSION_SIGN,
    ensures
        version_check_spec(container.update(MAGIC_LENGTH as int, version)) == Err::<(), CryptError>(
            CryptError::VersionError(version),
        ),
        decrypt_spec(container.update(MAGIC_LENGTH as int, version), any_password) == Err::<
            Seq<u8>,
            CryptError,
>(CryptError::VersionError(version)),
{
    lemma_container_regions(container, data, password, salt, iv);
    let t = container.update(MAGIC_LENGTH as int, version);
    assert(t.subrange(0, MAGIC_LENGTH as int) =~= container.subrange(0, MAGIC_LENGTH as int));
}

/// Decryption is gated by the tag: for any bytes and any password, a
/// successful decryption means the container holds a header, a ciphertext
/// and a tag equal to the HMAC of that ciphertext under the authentication
/// subkey of that very password and the stored salt. A wrong password or a
/// tampered container can yield plaintext only through such a tag.
pub proof fn lemma_success_needs_matching_tag(container: Seq<u8>, password: Seq<u8>)
    requires
        decrypt_spec(container, password) is Ok,
    ensures
        container.len() >= HEADER_LENGTH + TAG_LENGTH,
        container.subrange(container.len() - TAG_LENGTH, container.len() as int) == hmac_sha256(
            hmac_key_spec(password, container.subrange(5, 21)),
            container.subrange(HEADER_LENGTH as int, container.len() - TAG_LENGTH),
        ),
{
}

} // verus!
