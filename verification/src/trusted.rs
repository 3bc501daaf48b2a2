//! The crate's trusted boundary: the few outside cryptographic and
//! encoding primitives the engine calls, each behind a wrapper whose
//! contract states what the callee's source and documentation promise.
//!
//! Results that are functions of the arguments alone but have no short
//! mathematical statement (a Diffie-Hellman secret, an HKDF output stream,
//! an AES-GCM opening, a base64 encoding) are given names here; every
//! verified contract above this module speaks of those names exactly.
use vstd::prelude::*;

use aes_gcm::aead::Aead;
use aes_gcm::KeyInit;
use base64::Engine;

verus! {

/// The P-256 ECDH shared secret for a 32-byte scalar and a SEC1-encoded
/// peer point, or `None` when either encoding is invalid.
pub uninterp spec fn p256_shared(private_key: Seq<u8>, peer_public: Seq<u8>) -> Option<Seq<u8>>;

/// The first `out_len` bytes of HKDF-SHA-256 output for the given salt,
/// key material and info string.
pub uninterp spec fn hkdf_sha256_okm(salt: Seq<u8>, ikm: Seq<u8>, info: Seq<u8>, out_len: nat) -> Seq<
    u8,
>;

/// What AES-128-GCM decryption of `ciphertext` (tag appended) under `key`
/// and `nonce` yields: the plaintext, or `None` on authentication failure.
pub uninterp spec fn gcm128_open(key: Seq<u8>, nonce: Seq<u8>, ciphertext: Seq<u8>) -> Option<
    Seq<u8>,
>;

/// The standard (padded) base64 encoding of `bytes`.
pub uninterp spec fn b64_standard(bytes: Seq<u8>) -> Seq<char>;

/// The URL-safe, unpadded base64 encoding of `bytes`, as ASCII bytes.
pub uninterp spec fn b64_url_nopad(bytes: Seq<u8>) -> Seq<u8>;

/// Relies on `p256::SecretKey::from_slice`, `p256::PublicKey::from_sec1_bytes`
/// and `p256::ecdh::diffie_hellman`: the shared secret is the x-coordinate
/// of the peer point times the scalar, 32 bytes, a function of the two
/// encodings alone; `None` exactly when an encoding does not parse.
#[verifier::external_body]
pub(crate) fn p256_ecdh(private_key: &[u8], peer_public: &[u8]) -> (r: Option<Vec<u8>>)
    ensures
        (match r {
            Some(v) => p256_shared(private_key@, peer_public@) == Some(v@) && v@.len() == 32,
            None => p256_shared(private_key@, peer_public@) is None,
        }),
{
    let sk = match p256::SecretKey::from_slice(private_key) {
        Ok(k) => k,
        Err(_) => return None,
    };
    let pk = match p256::PublicKey::from_sec1_bytes(peer_public) {
        Ok(k) => k,
        Err(_) => return None,
    };
    let shared = p256::ecdh::diffie_hellman(sk.to_nonzero_scalar(), pk.as_affine());
    Some(shared.raw_secret_bytes().to_vec())
}

/// Relies on `hkdf::Hkdf::<sha2::Sha256>::new` and `expand`: the output is
/// a function of salt, key material, info and length alone, and `expand`
/// only fails for outputs over 255 hash lengths (8160 bytes), which the
/// precondition rules out.
#[verifier::external_body]
pub(crate) fn hkdf_sha256(salt: &[u8], ikm: &[u8], info: &[u8], out_len: usize) -> (r: Vec<u8>)
    requires
        out_len <= 8160,
    ensures
        r@ == hkdf_sha256_okm(salt@, ikm@, info@, out_len as nat),
        r@.len() == out_len,
{
    let h = hkdf::Hkdf::<sha2::Sha256>::new(Some(salt), ikm);
    let mut okm = vec![0u8; out_len];
    h.expand(info, &mut okm).expect("output length is within the HKDF bound");
    okm
}

/// Relies on `aes_gcm::Aes128Gcm::decrypt` (tag appended to the
/// ciphertext): decryption is a function of key, nonce and ciphertext, and
/// fails exactly on authentication mismatch.
#[verifier::external_body]
pub(crate) fn aes128gcm_open(key: &[u8], nonce: &[u8], ciphertext: &[u8]) -> (r: Option<Vec<u8>>)
    requires
        key@.len() == 16,
        nonce@.len() == 12,
    ensures
        (match r {
            Some(p) => gcm128_open(key@, nonce@, ciphertext@) == Some(p@),
            None => gcm128_open(key@, nonce@, ciphertext@) is None,
        }),
{
    let cipher = aes_gcm::Aes128Gcm::new_from_slice(key).expect("key is 16 bytes");
    match cipher.decrypt(aes_gcm::Nonce::from_slice(nonce), ciphertext) {
        Ok(p) => Some(p),
        Err(_) => None,
    }
}

/// Relies on `aes_gcm::Aes128Gcm::encrypt`: it appends the 16-byte tag,
/// succeeds for any plaintext under the GCM length bound, and its output
/// decrypts back to the plaintext under the same key and nonce.
#[verifier::external_body]
pub(crate) fn aes128gcm_seal(key: &[u8], nonce: &[u8], plaintext: &[u8]) -> (r: Vec<u8>)
    requires
        key@.len() == 16,
        nonce@.len() == 12,
        plaintext@.len() <= 0x10000000,
    ensures
        r@.len() == plaintext@.len() + 16,
        gcm128_open(key@, nonce@, r@) == Some(plaintext@),
{
    let cipher = aes_gcm::Aes128Gcm::new_from_slice(key).expect("key is 16 bytes");
    cipher.encrypt(aes_gcm::Nonce::from_slice(nonce), plaintext).expect(
        "plaintext is within the GCM length bound",
    )
}

/// Relies on `base64::engine::general_purpose::STANDARD.encode`.
#[verifier::external_body]
pub(crate) fn b64_encode(bytes: &[u8]) -> (r: String)
    ensures
        r@ == b64_standard(bytes@),
{
    base64::engine::general_purpose::STANDARD.encode(bytes)
}

/// Relies on `base64::engine::general_purpose::STANDARD.decode`: it
/// inverts `encode`, accepts only canonical input (its default
/// configuration rejects non-canonical padding and trailing bits), so it
/// succeeds exactly on the encoding of some byte sequence and returns that
/// sequence.
#[verifier::external_body]
pub(crate) fn b64_decode(text: &str) -> (r: Option<Vec<u8>>)
    ensures
        forall|b: Seq<u8>| #[trigger] b64_standard(b) == text@ ==> r is Some && r->0@ == b,
        r is Some ==> text@ == b64_standard(r->0@),
{
    match base64::engine::general_purpose::STANDARD.decode(text) {
        Ok(v) => Some(v),
        Err(_) => None,
    }
}

/// Relies on `base64::engine::general_purpose::URL_SAFE_NO_PAD.decode`:
/// it inverts the URL-safe unpadded encoding and accepts only canonical
/// input (its configuration rejects padding and non-canonical trailing
/// bits), so it succeeds exactly on the encoding of some byte sequence and
/// returns that sequence.
#[verifier::external_body]
pub(crate) fn b64_url_decode(text: &[u8]) -> (r: Option<Vec<u8>>)
    ensures
        forall|b: Seq<u8>| #[trigger] b64_url_nopad(b) == text@ ==> r is Some && r->0@ == b,
        r is Some ==> text@ == b64_url_nopad(r->0@),
{
    match base64::engine::general_purpose::URL_SAFE_NO_PAD.decode(text) {
        Ok(v) => Some(v),
        Err(_) => None,
    }
}

} // verus!
