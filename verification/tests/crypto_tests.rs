use aes_gcm::aead::Aead;
use aes_gcm::KeyInit;
use fcm_push_listener::crypto::{
    decrypt, decrypt_payload, derive_content_keys, encrypt_payload, WebPushKeys,
};
use fcm_push_listener::error::Error;
use p256::elliptic_curve::sec1::ToEncodedPoint;

fn seal(key: &[u8], nonce: &[u8], pt: &[u8]) -> Vec<u8> {
    aes_gcm::Aes128Gcm::new_from_slice(key)
        .unwrap()
        .encrypt(aes_gcm::Nonce::from_slice(nonce), pt)
        .unwrap()
}

fn record_nonce(base: &[u8; 12], i: u64) -> [u8; 12] {
    let mut n = *base;
    let ctr = i.to_be_bytes();
    for k in 0..8 {
        n[4 + k] ^= ctr[k];
    }
    n
}

fn recipient_keys() -> WebPushKeys {
    let private_key = vec![1u8; 32];
    let sk = p256::SecretKey::from_slice(&private_key).unwrap();
    let public_key = sk.public_key().to_encoded_point(false).as_bytes().to_vec();
    WebPushKeys { private_key, public_key, auth_secret: vec![7u8; 16] }
}

fn sender_ephemeral() -> (p256::SecretKey, Vec<u8>) {
    let sk = p256::SecretKey::from_slice(&[2u8; 32]).unwrap();
    let public = sk.public_key().to_encoded_point(false).as_bytes().to_vec();
    (sk, public)
}

/// Encrypts `plaintext` the way a Web Push sender does, using the
/// sender-side half of the Diffie-Hellman exchange, and the engine's own
/// derivation and single-record reference encryption.
fn reference_encrypt(plaintext: &[u8], keys: &WebPushKeys, salt: &[u8]) -> (Vec<u8>, Vec<u8>) {
    let (sender_sk, sender_pub) = sender_ephemeral();
    let recipient_pk = p256::PublicKey::from_sec1_bytes(&keys.public_key).unwrap();
    let shared = p256::ecdh::diffie_hellman(sender_sk.to_nonzero_scalar(), recipient_pk.as_affine());
    let shared_bytes = shared.raw_secret_bytes().to_vec();
    let (cek, nonce) = derive_content_keys(
        &shared_bytes,
        &keys.auth_secret,
        &keys.public_key,
        &sender_pub,
        salt,
    );
    let ciphertext = encrypt_payload(plaintext, &cek, &nonce, 4096);
    (ciphertext, sender_pub)
}

/// Decrypting a reference encryption recovers the plaintext: the round
/// trip through the real elliptic-curve exchange.
#[test]
fn decrypt_inverts_reference_encryption() {
    let keys = recipient_keys();
    let salt = [5u8; 16];
    let plaintext = b"the quick brown fox";
    let (ciphertext, sender_pub) = reference_encrypt(plaintext, &keys, &salt);
    let out = decrypt(&ciphertext, &salt, &sender_pub, 4096, &keys).unwrap();
    assert_eq!(out, plaintext);
}

#[test]
fn decrypt_empty_plaintext_round_trip() {
    let keys = recipient_keys();
    let salt = [9u8; 16];
    let (ciphertext, sender_pub) = reference_encrypt(b"", &keys, &salt);
    assert_eq!(ciphertext.len(), 18);
    let out = decrypt(&ciphertext, &salt, &sender_pub, 4096, &keys).unwrap();
    assert!(out.is_empty());
}

/// Tampering with any single byte of the ciphertext (the tag included)
/// yields a Crypto error, never plaintext.
#[test]
fn tampering_any_byte_fails() {
    let keys = recipient_keys();
    let salt = [5u8; 16];
    let (ciphertext, sender_pub) = reference_encrypt(b"payload", &keys, &salt);
    for i in 0..ciphertext.len() {
        let mut bad = ciphertext.clone();
        bad[i] ^= 0x01;
        assert_eq!(decrypt(&bad, &salt, &sender_pub, 4096, &keys), Err(Error::Crypto));
    }
}

#[test]
fn tampering_salt_or_sender_key_fails() {
    let keys = recipient_keys();
    let salt = [5u8; 16];
    let (ciphertext, sender_pub) = reference_encrypt(b"payload", &keys, &salt);

    let mut bad_salt = salt;
    bad_salt[0] ^= 1;
    assert_eq!(decrypt(&ciphertext, &bad_salt, &sender_pub, 4096, &keys), Err(Error::Crypto));

    // An invalid sender point is rejected outright.
    let mut bad_pub = sender_pub.clone();
    bad_pub[10] ^= 1;
    assert_eq!(decrypt(&ciphertext, &salt, &bad_pub, 4096, &keys), Err(Error::Crypto));
}

#[test]
fn unsupported_record_size_and_empty_body_fail() {
    let keys = recipient_keys();
    let salt = [5u8; 16];
    let (ciphertext, sender_pub) = reference_encrypt(b"payload", &keys, &salt);
    assert_eq!(decrypt(&ciphertext, &salt, &sender_pub, 2, &keys), Err(Error::Crypto));
    assert_eq!(decrypt(&ciphertext, &salt, &sender_pub, 2000000, &keys), Err(Error::Crypto));
    assert_eq!(decrypt(&[], &salt, &sender_pub, 4096, &keys), Err(Error::Crypto));
}

/// A body split into several records decrypts to the concatenated record
/// contents, each record under its own counter-derived nonce.
#[test]
fn multi_record_bodies_decrypt() {
    let key = [3u8; 16];
    let base = [9u8; 12];
    // Record size 5: each full record carries a two-byte padding prefix
    // and three content bytes, sealed into 21 ciphertext bytes.
    let mut ct = seal(&key, &record_nonce(&base, 0), b"\x00\x00abc");
    ct.extend_from_slice(&seal(&key, &record_nonce(&base, 1), b"\x00\x00def"));
    assert_eq!(decrypt_payload(&ct, &key, &base, 5).unwrap(), b"abcdef");
}

/// The two-byte pad count and that many zero bytes are stripped from each
/// record.
#[test]
fn record_padding_is_stripped() {
    let key = [3u8; 16];
    let base = [9u8; 12];
    let ct = seal(&key, &record_nonce(&base, 0), b"\x00\x02\x00\x00hi");
    assert_eq!(decrypt_payload(&ct, &key, &base, 4096).unwrap(), b"hi");
}

#[test]
fn malformed_padding_is_rejected() {
    let key = [3u8; 16];
    let base = [9u8; 12];
    // A nonzero pad byte.
    let ct = seal(&key, &record_nonce(&base, 0), b"\x00\x01\x05x");
    assert_eq!(decrypt_payload(&ct, &key, &base, 4096), Err(Error::Crypto));
    // A pad count longer than the record.
    let ct = seal(&key, &record_nonce(&base, 0), b"\x00\x09xy");
    assert_eq!(decrypt_payload(&ct, &key, &base, 4096), Err(Error::Crypto));
    // A record too short to carry the pad prefix and the tag.
    let ct = seal(&key, &record_nonce(&base, 0), b"\x00");
    assert_eq!(decrypt_payload(&ct, &key, &base, 4096), Err(Error::Crypto));
}

#[test]
fn derivation_is_deterministic_and_sized() {
    let shared = [3u8; 32];
    let auth = [7u8; 16];
    let recv = [4u8; 65];
    let send = [6u8; 65];
    let salt = [5u8; 16];
    let (cek1, nonce1) = derive_content_keys(&shared, &auth, &recv, &send, &salt);
    let (cek2, nonce2) = derive_content_keys(&shared, &auth, &recv, &send, &salt);
    assert_eq!(cek1, cek2);
    assert_eq!(nonce1, nonce2);
    assert_eq!(cek1.len(), 16);
    assert_eq!(nonce1.len(), 12);
    // A different salt gives different keys.
    let (cek3, _) = derive_content_keys(&shared, &auth, &recv, &send, &[8u8; 16]);
    assert_ne!(cek1, cek3);
}
