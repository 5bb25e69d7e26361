use vstd::prelude::*;
use crate::error::CryptError;

verus! {

/// Length of the magic value that opens every container.
pub const MAGIC_LENGTH: usize = 4;
/// The only format version this library reads and writes.
pub const VERSION_SIGN: u8 = 0x02;
/// Length of the per-container random salt.
pub const SALT_LENGTH: usize = 16;
/// Length of the per-container random IV.
pub const IV_LENGTH: usize = 16;
/// Length of the fixed header: magic, version, salt, IV.
pub const HEADER_LENGTH: usize = 37;
/// Length of the trailing authentication tag.
pub const TAG_LENGTH: usize = 32;
/// Size of the read/write buffer of a streaming pass.
pub const BUFFER_SIZE: usize = 4194304;

/// The magic bytes `DEC!`.
pub open spec fn magic_spec() -> Seq<u8> {
    seq![0x44u8, 0x45u8, 0x43u8, 0x21u8]
}

/// The magic bytes `DEC!`.
pub fn magic() -> (r: Vec<u8>)
    ensures
        r@ == magic_spec(),
{
    vec![0x44u8, 0x45u8, 0x43u8, 0x21u8]
}

/// The header bytes for a given salt and IV.
pub open spec fn header_spec(salt: Seq<u8>, iv: Seq<u8>) -> Seq<u8> {
    magic_spec() + seq![VERSION_SIGN] + salt + iv
}

/// What the version check decides for the first bytes of a file.
pub open spec fn version_check_spec(head: Seq<u8>) -> Result<(), CryptError> {
    if head.len() < MAGIC_LENGTH {
        Err(CryptError::IoError)
    } else if head.subrange(0, MAGIC_LENGTH as int) != magic_spec() {
        Err(CryptError::FormatError)
    } else if head.len() < MAGIC_LENGTH + 1 {
        Err(CryptError::IoError)
    } else if head[MAGIC_LENGTH as int] != VERSION_SIGN {
        Err(CryptError::VersionError(head[MAGIC_LENGTH as int]))
    } else {
        Ok(())
    }
}

/// Appends `src` to `dst`.
pub(crate) fn append_bytes(dst: &mut Vec<u8>, src: &[u8])
    ensures
        final(dst)@ == old(dst)@ + src@,
{
    let mut i: usize = 0;
    while i < src.len()
        invariant
            i <= src@.len(),
            dst@ == old(dst)@ + src@.subrange(0, i as int),
        decreases src@.len() - i,
    {
        dst.push(src[i]);
        i = i + 1;
        proof {
            assert(src@.subrange(0, i as int) == src@.subrange(0, i - 1) + seq![src@[i - 1]]);
        }
    }
    proof {
        assert(src@.subrange(0, src@.len() as int) == src@);
    }
}

/// Copies `s[from..to]` into a new vector.
pub fn copy_range(s: &[u8], from: usize, to: usize) -> (r: Vec<u8>)
    requires
        from <= to <= s@.len(),
    ensures
        r@ == s@.subrange(from as int, to as int),
{
    let mut r: Vec<u8> = Vec::new();
    let mut i: usize = from;
    while i < to
        invariant
            from <= i <= to <= s@.len(),
            r@ == s@.subrange(from as int, i as int),
        decreases to - i,
    {
        r.push(s[i]);
        i = i + 1;
        proof {
            assert(s@.subrange(from as int, i as int)
                == s@.subrange(from as int, i - 1) + seq![s@[i - 1]]);
        }
    }
    r
}

/// Builds the container header: magic, version byte, salt, IV.
pub fn encode_header(salt: &[u8], iv: &[u8]) -> (r: Result<Vec<u8>, CryptError>)
    ensures
        r is Ok <==> (salt@.len() == SALT_LENGTH && iv@.len() == IV_LENGTH),
        r is Err ==> r == Err::<Vec<u8>, CryptError>(CryptError::InvalidParameter),
        r matches Ok(h) ==> h@ == header_spec(salt@, iv@) && h@.len() == HEADER_LENGTH,
{
    if salt.len() != SALT_LENGTH || iv.len() != IV_LENGTH {
        return Err(CryptError::InvalidParameter);
    }
    let mut h = magic();
    h.push(VERSION_SIGN);
    append_bytes(&mut h, salt);
    append_bytes(&mut h, iv);
    Ok(h)
}

/// Checks the magic value and the version byte at the start of a file,
/// without touching any key material. `head` holds the file's first bytes
/// (at least five of them if the file has that many).
pub fn check_version(head: &[u8]) -> (r: Result<(), CryptError>)
    ensures
        r == version_check_spec(head@),
{
    if head.len() < MAGIC_LENGTH {
        return Err(CryptError::IoError);
    }
    let m = magic();
    let mut i: usize = 0;
    while i < MAGIC_LENGTH
        invariant
            head@.len() >= MAGIC_LENGTH,
            m@ == magic_spec(),
            i <= MAGIC_LENGTH,
            forall|j: int| 0 <= j < i ==> head@[j] == magic_spec()[j],
        decreases MAGIC_LENGTH - i,
    {
        if head[i] != m[i] {
            proof {
                assert(head@.subrange(0, MAGIC_LENGTH as int)[i as int] != magic_spec()[i as int]);
            }
            return Err(CryptError::FormatError);
        }
        i = i + 1;
    }
    proof {
        assert(head@.subrange(0, MAGIC_LENGTH as int) == magic_spec());
    }
    if head.len() < MAGIC_LENGTH + 1 {
        return Err(CryptError::IoError);
    }
    if head[MAGIC_LENGTH] != VERSION_SIGN {
        return Err(CryptError::VersionError(head[MAGIC_LENGTH]));
    }
    Ok(())
}

/// The salt and IV read back from a container header.
pub struct Header {
    pub salt: Vec<u8>,
    pub iv: Vec<u8>,
}

/// What parsing a header decides for the first bytes of a container: the
/// salt and the IV, or the error.
pub open spec fn header_fields_spec(bytes: Seq<u8>) -> Result<(Seq<u8>, Seq<u8>), CryptError> {
    match version_check_spec(bytes) {
        Err(e) => Err(e),
        Ok(_) => if bytes.len() < HEADER_LENGTH {
            Err(CryptError::IoError)
        } else {
            Ok((bytes.subrange(5, 21), bytes.subrange(21, 37)))
        },
    }
}

/// Validates a header (magic, then version, then length) and reads the salt
/// and IV out of it.
pub fn parse_header(bytes: &[u8]) -> (r: Result<Header, CryptError>)
    ensures
        r is Ok <==> header_fields_spec(bytes@) is Ok,
        r matches Ok(h) ==> header_fields_spec(bytes@) == Ok::<(Seq<u8>, Seq<u8>), CryptError>(
            (h.salt@, h.iv@),
        ),
        r matches Err(e) ==> header_fields_spec(bytes@) == Err::<(Seq<u8>, Seq<u8>), CryptError>(e),
{
    match check_version(bytes) {
        Err(e) => Err(e),
        Ok(()) => {
            if bytes.len() < HEADER_LENGTH {
                return Err(CryptError::IoError);
            }
            let salt = copy_range(bytes, 5, 21);
            let iv = copy_range(bytes, 21, 37);
            Ok(Header { salt, iv })
        },
    }
}

/// Length of the ciphertext region of a container of `file_length` bytes.
pub fn ciphertext_length(file_length: u64) -> (r: Result<u64, CryptError>)
    ensures
        file_length >= HEADER_LENGTH + TAG_LENGTH ==> r == Ok::<u64, CryptError>(
            (file_length - HEADER_LENGTH - TAG_LENGTH) as u64,
        ),
        file_length < HEADER_LENGTH + TAG_LENGTH ==> r == Err::<u64, CryptError>(CryptError::IoError),
{
    if file_length < (HEADER_LENGTH + TAG_LENGTH) as u64 {
        Err(CryptError::IoError)
    } else {
        Ok(file_length - (HEADER_LENGTH + TAG_LENGTH) as u64)
    }
}

/// How many ciphertext bytes to read next when `done` of `total` have been
/// read: a full buffer, or what is left, never reaching into the tag.
pub fn next_chunk_length(done: u64, total: u64) -> (r: usize)
    ensures
        done >= total ==> r == 0,
        done < total ==> r as int == if total - done < BUFFER_SIZE { total - done } else {
            BUFFER_SIZE as int
        },
{
    if done >= total {
        0
    } else if total - done < BUFFER_SIZE as u64 {
        (total - done) as usize
    } else {
        BUFFER_SIZE
    }
}

} // verus!
