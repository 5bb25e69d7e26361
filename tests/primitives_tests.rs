use dec::crypto_utils::{generate_iv, generate_salt};
use dec::error::CryptError;
use dec::hmac_validator::HmacValidator;
use dec::key_derivation::{derive_encryption_and_hmac_keys, derive_master_key};
use dec::parallel_handler::{
    apply_keystream_sequential, ctr_apply_in_parts, fan_out, segment_ranges, segment_size,
    KeystreamEngine,
};

fn hex(s: &str) -> Vec<u8> {
    (0..s.len()).step_by(2).map(|i| u8::from_str_radix(&s[i..i + 2], 16).unwrap()).collect()
}

fn pseudo_random(len: usize, seed: u64) -> Vec<u8> {
    let mut x = seed;
    (0..len)
        .map(|_| {
            x ^= x << 13;
            x ^= x >> 7;
            x ^= x << 17;
            (x >> 24) as u8
        })
        .collect()
}

#[test]
fn test_hmac_validator_creation() {
    let key = b"test_hmac_key_32_bytes_long_key!";
    let validator = HmacValidator::new(key);
    assert!(validator.is_ok());
}

#[test]
fn test_hmac_validation_success() {
    let key = b"test_hmac_key_32_bytes_long_key!";
    let data = b"test data for hmac validation";
    let mut validator = HmacValidator::new(key).unwrap();
    validator.update(data);
    let hmac_code = validator.finalize();
    let mut validator2 = HmacValidator::new(key).unwrap();
    validator2.update(data);
    let result = validator2.verify(&hmac_code);
    assert!(result.is_ok());
}

#[test]
fn test_hmac_validation_failure() {
    let key1 = b"test_hmac_key_32_bytes_long_key!";
    let key2 = b"different_hmac_key_32_bytes_long!";
    let data = b"test data for hmac validation";
    let mut validator = HmacValidator::new(key1).unwrap();
    validator.update(data);
    let hmac_code = validator.finalize();
    let mut validator2 = HmacValidator::new(key2).unwrap();
    validator2.update(data);
    let result = validator2.verify(&hmac_code);
    assert!(result.is_err());
}

#[test]
fn hmac_known_answer_and_chunking() {
    let expected = hex("5bdcc146bf60754e6a042426089575c75a003f089d2739839dec58b964ec3843");
    let mut v = HmacValidator::new(b"Jefe").unwrap();
    v.update(b"what do ya want for nothing?");
    assert_eq!(v.finalize(), expected);
    let mut v = HmacValidator::new(b"Jefe").unwrap();
    v.update(b"what do ya ");
    v.update(b"");
    v.update(b"want for nothing?");
    assert!(v.verify(&expected).is_ok());
}

#[test]
fn hmac_verify_rejects_wrong_length_and_order() {
    let mut v = HmacValidator::new(b"k").unwrap();
    v.update(b"ab");
    let tag = v.finalize();
    assert_eq!(tag.len(), 32);
    let mut v = HmacValidator::new(b"k").unwrap();
    v.update(b"ab");
    assert_eq!(v.verify(&tag[..31]), Err(CryptError::AuthenticationError));
    let mut v = HmacValidator::new(b"k").unwrap();
    v.update(b"ba");
    assert_eq!(v.verify(&tag), Err(CryptError::AuthenticationError));
}

#[test]
fn aes256_ctr_known_answer() {
    let key = hex("603deb1015ca71be2b73aef0857d77811f352c073b6108d72d9810a30914dff4");
    let iv = hex("f0f1f2f3f4f5f6f7f8f9fafbfcfdfeff");
    let mut data = hex("6bc1bee22e409f96e93d7e117393172a");
    ctr_apply_in_parts(&key, &iv, &mut data, 0, 1).unwrap();
    assert_eq!(data, hex("601ec313775789a5b7a7f504bbf3d228"));
}

#[test]
fn keystream_rejects_bad_lengths() {
    let mut data = vec![1u8, 2, 3];
    assert_eq!(
        ctr_apply_in_parts(&[0u8; 31], &[0u8; 16], &mut data, 0, 1),
        Err(CryptError::InvalidParameter)
    );
    assert_eq!(
        ctr_apply_in_parts(&[0u8; 32], &[0u8; 15], &mut data, 0, 4),
        Err(CryptError::InvalidParameter)
    );
    assert_eq!(data, vec![1u8, 2, 3]);
}

#[test]
fn keystream_parallelism_invariance() {
    let key = pseudo_random(32, 1);
    let iv = pseudo_random(16, 2);
    let plain = pseudo_random(200_003, 3);
    let mut reference = plain.clone();
    apply_keystream_sequential(&key, &iv, &mut reference, 7);
    assert_ne!(reference, plain);
    for parts in [0usize, 1, 2, 3, 4, 8] {
        let mut data = plain.clone();
        ctr_apply_in_parts(&key, &iv, &mut data, 7, parts).unwrap();
        assert_eq!(data, reference, "parts = {}", parts);
    }
}

#[test]
fn keystream_is_position_addressed() {
    let key = pseudo_random(32, 4);
    let iv = pseudo_random(16, 5);
    let plain = pseudo_random(50_000, 6);
    let mut whole = plain.clone();
    ctr_apply_in_parts(&key, &iv, &mut whole, 100, 1).unwrap();
    let mut head = plain[..12_345].to_vec();
    let mut tail = plain[12_345..].to_vec();
    ctr_apply_in_parts(&key, &iv, &mut head, 100, 4).unwrap();
    ctr_apply_in_parts(&key, &iv, &mut tail, 100 + 12_345, 2).unwrap();
    head.extend_from_slice(&tail);
    assert_eq!(head, whole);
    ctr_apply_in_parts(&key, &iv, &mut whole, 100, 8).unwrap();
    assert_eq!(whole, plain);
}

#[test]
fn segment_computation() {
    assert_eq!(segment_size(10, 4), 3);
    assert_eq!(segment_size(8, 4), 2);
    assert_eq!(segment_size(0, 4), 0);
    assert_eq!(segment_ranges(10, 4), vec![(0, 3), (3, 6), (6, 9), (9, 10)]);
    assert_eq!(segment_ranges(8, 4), vec![(0, 2), (2, 4), (4, 6), (6, 8)]);
    assert_eq!(segment_ranges(5, 4), vec![(0, 2), (2, 4), (4, 5)]);
    assert_eq!(segment_ranges(3, 1), vec![(0, 3)]);
    assert_eq!(segment_ranges(0, 8), vec![]);
}

#[test]
fn master_key_is_deterministic_and_salted() {
    let salt = [7u8; 16];
    let a = derive_master_key(b"correct horse", &salt).unwrap();
    let b = derive_master_key(b"correct horse", &salt).unwrap();
    assert_eq!(a.len(), 32);
    assert_eq!(a, b);
    let c = derive_master_key(b"correct horse", &[8u8; 16]).unwrap();
    assert_ne!(a, c);
}

#[test]
fn master_key_rejects_short_salt() {
    assert_eq!(derive_master_key(b"pw", &[0u8; 7]), Err(CryptError::KeyDerivationError));
}

#[test]
fn subkeys_are_distinct_and_deterministic() {
    let master = [42u8; 32];
    let (e1, h1) = derive_encryption_and_hmac_keys(&master).unwrap();
    let (e2, h2) = derive_encryption_and_hmac_keys(&master).unwrap();
    assert_eq!(e1.len(), 32);
    assert_eq!(h1.len(), 32);
    assert_ne!(e1, h1);
    assert_ne!(e1, master.to_vec());
    assert_eq!((e1, h1), (e2, h2));
}

#[test]
fn random_salt_and_iv() {
    let s1 = generate_salt().unwrap();
    let s2 = generate_salt().unwrap();
    let iv = generate_iv().unwrap();
    assert_eq!(s1.len(), 16);
    assert_eq!(iv.len(), 16);
    assert_ne!(s1, s2);
}

#[test]
fn keystream_engine_checks_lengths_once() {
    assert!(matches!(KeystreamEngine::new(&[0u8; 16], &[0u8; 16], 1), Err(CryptError::InvalidParameter)));
    assert!(matches!(KeystreamEngine::new(&[0u8; 32], &[0u8; 8], 1), Err(CryptError::InvalidParameter)));
    let key = pseudo_random(32, 21);
    let iv = pseudo_random(16, 22);
    let engine = KeystreamEngine::new(&key, &iv, 4).unwrap();
    let plain = pseudo_random(70_000, 23);
    let mut a = plain.clone();
    engine.apply(&mut a, 33);
    let mut b = plain.clone();
    ctr_apply_in_parts(&key, &iv, &mut b, 33, 1).unwrap();
    assert_eq!(a, b);
    assert_ne!(a, plain);
}

#[test]
fn fan_out_choices() {
    assert_eq!(fan_out(0, 12), 12);
    assert_eq!(fan_out(0, 0), 1);
    assert_eq!(fan_out(0, 500), 64);
    assert_eq!(fan_out(4, 2), 4);
    assert_eq!(fan_out(8, 1), 8);
    assert_eq!(fan_out(3, 16), 1);
    assert_eq!(fan_out(1, 16), 1);
}

#[test]
fn subkeys_are_plain_hkdf_expansions_of_the_master_key() {
    let master = pseudo_random(32, 31);
    let (e, h) = derive_encryption_and_hmac_keys(&master).unwrap();
    let hk = hkdf::Hkdf::<sha2::Sha256>::from_prk(&master).unwrap();
    let mut want_e = [0u8; 32];
    hk.expand(b"dec-encryption", &mut want_e).unwrap();
    let mut want_h = [0u8; 32];
    hk.expand(b"dec-hmac", &mut want_h).unwrap();
    assert_eq!(e, want_e.to_vec());
    assert_eq!(h, want_h.to_vec());
}

#[test]
fn subkeys_need_a_full_length_master_key() {
    assert_eq!(derive_encryption_and_hmac_keys(&[1u8; 31]), Err(CryptError::KeyDerivationError));
}
