use dec::container::{
    check_version, ciphertext_length, encode_header, next_chunk_length, parse_header, BUFFER_SIZE,
};
use dec::decryptor::{decrypt_bytes, Decryptor};
use dec::encryptor::{encrypt_buffer_size, encrypt_bytes, Encryptor};
use dec::error::CryptError;

const SALT: [u8; 16] = [3u8; 16];
const IV: [u8; 16] = [9u8; 16];

fn pseudo_random(len: usize, seed: u64) -> Vec<u8> {
    let mut x = seed;
    (0..len)
        .map(|_| {
            x ^= x << 13;
            x ^= x >> 7;
            x ^= x << 17;
            (x >> 24) as u8
        })
        .collect()
}

#[test]
fn header_layout() {
    let h = encode_header(&SALT, &IV).unwrap();
    assert_eq!(h.len(), 37);
    assert_eq!(&h[..4], b"DEC!");
    assert_eq!(h[4], 0x02);
    assert_eq!(&h[5..21], &SALT);
    assert_eq!(&h[21..37], &IV);
    assert_eq!(encode_header(&SALT[..15], &IV), Err(CryptError::InvalidParameter));
    let parsed = parse_header(&h).unwrap();
    assert_eq!(parsed.salt, SALT.to_vec());
    assert_eq!(parsed.iv, IV.to_vec());
    assert!(matches!(parse_header(&h[..36]), Err(CryptError::IoError)));
}

#[test]
fn version_check_outcomes() {
    assert_eq!(check_version(b"DEC!\x02"), Ok(()));
    assert_eq!(check_version(b"DEC!\x02rest"), Ok(()));
    assert_eq!(check_version(b"DEX!\x02"), Err(CryptError::FormatError));
    assert_eq!(check_version(b"DEC!\x01"), Err(CryptError::VersionError(1)));
    assert_eq!(check_version(b"DEC!"), Err(CryptError::IoError));
    assert_eq!(check_version(b"DE"), Err(CryptError::IoError));
    assert_eq!(check_version(b"XE"), Err(CryptError::IoError));
}

#[test]
fn ciphertext_region_length() {
    assert_eq!(ciphertext_length(69), Ok(0));
    assert_eq!(ciphertext_length(100), Ok(31));
    assert_eq!(ciphertext_length(68), Err(CryptError::IoError));
}

#[test]
fn read_sizes_stop_at_the_tag() {
    assert_eq!(next_chunk_length(0, 10), 10);
    assert_eq!(next_chunk_length(10, 10), 0);
    assert_eq!(next_chunk_length(0, 10 * BUFFER_SIZE as u64), BUFFER_SIZE);
    assert_eq!(next_chunk_length(BUFFER_SIZE as u64 + 1, 2 * BUFFER_SIZE as u64), BUFFER_SIZE - 1);
}

fn round_trip(len: usize, seed: u64, enc_parts: usize, dec_parts: usize) {
    let data = pseudo_random(len, seed);
    let c = encrypt_bytes(&data, b"pw", &SALT, &IV, enc_parts).unwrap();
    assert_eq!(c.len(), 37 + len + 32);
    assert_ne!(&c[37..37 + len], &data[..]);
    assert_eq!(decrypt_bytes(&c, b"pw", dec_parts).unwrap(), data);
}

#[test]
fn round_trip_short_input() {
    round_trip(17, 11, 2, 4);
}

#[test]
fn round_trip_parallel_input() {
    round_trip(40_000, 12, 8, 3);
}

#[test]
fn tampering_is_detected() {
    let data = pseudo_random(1000, 5);
    let c = encrypt_bytes(&data, b"pw", &SALT, &IV, 1).unwrap();
    let mut ct_flip = c.clone();
    ct_flip[37 + 500] ^= 0x10;
    assert_eq!(decrypt_bytes(&ct_flip, b"pw", 1), Err(CryptError::AuthenticationError));
    let mut tag_flip = c.clone();
    let last = tag_flip.len() - 1;
    tag_flip[last] ^= 0x01;
    assert_eq!(decrypt_bytes(&tag_flip, b"pw", 1), Err(CryptError::AuthenticationError));
}

#[test]
fn wrong_password_is_rejected() {
    let data = b"attack at dawn".to_vec();
    let c = encrypt_bytes(&data, b"right", &SALT, &IV, 1).unwrap();
    assert_eq!(decrypt_bytes(&c, b"wrong", 1), Err(CryptError::AuthenticationError));
}

#[test]
fn header_corruption_is_reported_first() {
    let c = encrypt_bytes(b"x", b"pw", &SALT, &IV, 1).unwrap();
    let mut bad_magic = c.clone();
    bad_magic[1] = b'x';
    assert_eq!(check_version(&bad_magic), Err(CryptError::FormatError));
    assert_eq!(decrypt_bytes(&bad_magic, b"pw", 1), Err(CryptError::FormatError));
    let mut bad_version = c.clone();
    bad_version[4] = 0x03;
    assert_eq!(check_version(&bad_version), Err(CryptError::VersionError(3)));
    assert_eq!(decrypt_bytes(&bad_version, b"other", 1), Err(CryptError::VersionError(3)));
    assert_eq!(decrypt_bytes(&c[..20], b"pw", 1), Err(CryptError::IoError));
}

#[test]
fn encrypt_rejects_bad_salt_or_iv() {
    assert_eq!(encrypt_bytes(b"x", b"pw", &SALT[..8], &IV, 1), Err(CryptError::InvalidParameter));
    assert_eq!(encrypt_bytes(b"x", b"pw", &SALT, &[0u8; 17], 1), Err(CryptError::InvalidParameter));
    assert!(matches!(Encryptor::new(b"pw", &SALT, &IV[..3], 1), Err(CryptError::InvalidParameter)));
}

#[test]
fn streaming_matches_whole_buffer() {
    let data = pseudo_random(30_000, 8);
    let whole = encrypt_bytes(&data, b"pw", &SALT, &IV, 1).unwrap();
    let mut enc = Encryptor::new(b"pw", &SALT, &IV, 4).unwrap();
    let mut out = enc.header();
    for piece in data.chunks(7_777) {
        let mut buf = piece.to_vec();
        enc.process(&mut buf);
        out.extend_from_slice(&buf);
    }
    out.extend_from_slice(&enc.finish());
    assert_eq!(out, whole);

    let mut dec = Decryptor::new(b"pw", &whole[..37], 2).unwrap();
    let body = &whole[37..whole.len() - 32];
    let mut plain = Vec::new();
    for piece in body.chunks(5_000) {
        let mut buf = piece.to_vec();
        dec.process(&mut buf);
        plain.extend_from_slice(&buf);
    }
    assert!(dec.finish(&whole[whole.len() - 32..]).is_ok());
    assert_eq!(plain, data);
}

#[test]
fn ten_mebibytes_round_trip() {
    let data = pseudo_random(10 * 1024 * 1024, 77);
    let c = encrypt_bytes(&data, b"correct horse", &SALT, &IV, 4).unwrap();
    assert_eq!(c.len(), 37 + 10 * 1024 * 1024 + 32);
    let plain = decrypt_bytes(&c, b"correct horse", 1).unwrap();
    assert!(plain == data);
}

#[test]
fn empty_input_round_trip() {
    let c = encrypt_bytes(&[], b"pw", &SALT, &IV, 4).unwrap();
    assert_eq!(c.len(), 69);
    assert_eq!(decrypt_bytes(&c, b"pw", 1).unwrap(), Vec::<u8>::new());
}

#[test]
fn encrypt_buffer_sizes() {
    assert_eq!(encrypt_buffer_size(0), 262_144);
    assert_eq!(encrypt_buffer_size(1), 2_097_152);
    assert_eq!(encrypt_buffer_size(4), 8_388_608);
}
