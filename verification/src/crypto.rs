//! Web Push payload decryption.
//!
//! A delivered message body is decrypted by elliptic-curve Diffie-Hellman
//! between the recipient's private key and the sender's ephemeral public
//! key, HKDF key derivation with the protocol's fixed info strings, and
//! AES-128-GCM over records of the declared record size, followed by
//! removal of the two-byte padding prefix of each record. The operation is
//! pure: nothing is shared across calls.
use vstd::prelude::*;

use crate::error::Error;
use crate::trusted::{
    aes128gcm_open, aes128gcm_seal, gcm128_open, hkdf_sha256, hkdf_sha256_okm, p256_ecdh,
    p256_shared,
};

verus! {

/// Key material generated at registration time and supplied unchanged on
/// every later connection attempt.
#[derive(Clone, Debug)]
pub struct WebPushKeys {
    /// P-256 private scalar, 32 bytes.
    pub private_key: Vec<u8>,
    /// Uncompressed SEC1 encoding of the matching public point, 65 bytes.
    pub public_key: Vec<u8>,
    /// Random secret shared with the sender at subscription time, 16 bytes.
    pub auth_secret: Vec<u8>,
}

impl WebPushKeys {
    /// The fixed sizes the protocol requires of the key material.
    pub open spec fn wf(self) -> bool {
        &&& self.private_key@.len() == 32
        &&& self.public_key@.len() == 65
        &&& self.auth_secret@.len() == 16
    }
}

/// Smallest record size the decryptor accepts; each record carries at
/// least a two-byte padding prefix.
pub const MIN_RECORD_SIZE: u32 = 3;

/// Largest record size the decryptor accepts.
pub const MAX_RECORD_SIZE: u32 = 1048576;

/// "Content-Encoding: auth" with a terminating zero.
pub open spec fn auth_label() -> Seq<u8> {
    seq![67u8, 111u8, 110u8, 116u8, 101u8, 110u8, 116u8, 45u8, 69u8, 110u8, 99u8, 111u8, 100u8, 105u8, 110u8, 103u8, 58u8, 32u8, 97u8, 117u8, 116u8, 104u8, 0u8]
}

/// "Content-Encoding: aesgcm" with a terminating zero.
pub open spec fn aesgcm_label() -> Seq<u8> {
    seq![67u8, 111u8, 110u8, 116u8, 101u8, 110u8, 116u8, 45u8, 69u8, 110u8, 99u8, 111u8, 100u8, 105u8, 110u8, 103u8, 58u8, 32u8, 97u8, 101u8, 115u8, 103u8, 99u8, 109u8, 0u8]
}

/// "Content-Encoding: nonce" with a terminating zero.
pub open spec fn nonce_label() -> Seq<u8> {
    seq![67u8, 111u8, 110u8, 116u8, 101u8, 110u8, 116u8, 45u8, 69u8, 110u8, 99u8, 111u8, 100u8, 105u8, 110u8, 103u8, 58u8, 32u8, 110u8, 111u8, 110u8, 99u8, 101u8, 0u8]
}

/// "P-256" with a terminating zero.
pub open spec fn p256_label() -> Seq<u8> {
    seq![80u8, 45u8, 50u8, 53u8, 54u8, 0u8]
}

/// A length as two big-endian bytes (exact below 65536).
pub open spec fn len2(n: nat) -> Seq<u8> {
    seq![((n / 256) % 256) as u8, (n % 256) as u8]
}

/// The key-derivation context: curve label and the two public keys, each
/// preceded by its two-byte length.
pub open spec fn kdf_context(recipient_public: Seq<u8>, sender_public: Seq<u8>) -> Seq<u8> {
    p256_label() + len2(recipient_public.len()) + recipient_public + len2(sender_public.len())
        + sender_public
}

/// The pseudo-random key: HKDF of the ECDH secret keyed by the auth
/// secret.
pub open spec fn prk_of(shared: Seq<u8>, auth_secret: Seq<u8>) -> Seq<u8> {
    hkdf_sha256_okm(auth_secret, shared, auth_label(), 32)
}

/// The 16-byte content-encryption key.
pub open spec fn cek_of(
    shared: Seq<u8>,
    auth_secret: Seq<u8>,
    recipient_public: Seq<u8>,
    sender_public: Seq<u8>,
    salt: Seq<u8>,
) -> Seq<u8> {
    hkdf_sha256_okm(
        salt,
        prk_of(shared, auth_secret),
        aesgcm_label() + kdf_context(recipient_public, sender_public),
        16,
    )
}

/// The 12-byte base nonce; each record's nonce is derived from it.
pub open spec fn nonce_base_of(
    shared: Seq<u8>,
    auth_secret: Seq<u8>,
    recipient_public: Seq<u8>,
    sender_public: Seq<u8>,
    salt: Seq<u8>,
) -> Seq<u8> {
    hkdf_sha256_okm(
        salt,
        prk_of(shared, auth_secret),
        nonce_label() + kdf_context(recipient_public, sender_public),
        12,
    )
}

fn push_auth_label(v: &mut Vec<u8>)
    ensures
        final(v)@ == old(v)@ + auth_label(),
{
    v.push(67); v.push(111); v.push(110); v.push(116); v.push(101); v.push(110); v.push(116); v.push(45); v.push(69); v.push(110); v.push(99); v.push(111); v.push(100); v.push(105); v.push(110); v.push(103); v.push(58); v.push(32); v.push(97); v.push(117); v.push(116); v.push(104); v.push(0);
    proof {
        assert(v@ =~= old(v)@ + auth_label());
    }
}

fn push_aesgcm_label(v: &mut Vec<u8>)
    ensures
        final(v)@ == old(v)@ + aesgcm_label(),
{
    v.push(67); v.push(111); v.push(110); v.push(116); v.push(101); v.push(110); v.push(116); v.push(45); v.push(69); v.push(110); v.push(99); v.push(111); v.push(100); v.push(105); v.push(110); v.push(103); v.push(58); v.push(32); v.push(97); v.push(101); v.push(115); v.push(103); v.push(99); v.push(109); v.push(0);
    proof {
        assert(v@ =~= old(v)@ + aesgcm_label());
    }
}

fn push_nonce_label(v: &mut Vec<u8>)
    ensures
        final(v)@ == old(v)@ + nonce_label(),
{
    v.push(67); v.push(111); v.push(110); v.push(116); v.push(101); v.push(110); v.push(116); v.push(45); v.push(69); v.push(110); v.push(99); v.push(111); v.push(100); v.push(105); v.push(110); v.push(103); v.push(58); v.push(32); v.push(110); v.push(111); v.push(110); v.push(99); v.push(101); v.push(0);
    proof {
        assert(v@ =~= old(v)@ + nonce_label());
    }
}

fn push_kdf_context(v: &mut Vec<u8>, recipient_public: &[u8], sender_public: &[u8])
    ensures
        final(v)@ == old(v)@ + kdf_context(recipient_public@, sender_public@),
{
    v.push(80); v.push(45); v.push(50); v.push(53); v.push(54); v.push(0);
    v.push(((recipient_public.len() / 256) % 256) as u8);
    v.push((recipient_public.len() % 256) as u8);
    v.extend_from_slice(recipient_public);
    v.push(((sender_public.len() / 256) % 256) as u8);
    v.push((sender_public.len() % 256) as u8);
    v.extend_from_slice(sender_public);
    proof {
        assert(v@ =~= old(v)@ + kdf_context(recipient_public@, sender_public@));
    }
}

/// Derives the content-encryption key and the base nonce from the ECDH
/// shared secret, the auth secret, the two public keys and the message
/// salt, with the protocol's fixed info strings.
pub fn derive_content_keys(
    shared: &[u8],
    auth_secret: &[u8],
    recipient_public: &[u8],
    sender_public: &[u8],
    salt: &[u8],
) -> (r: (Vec<u8>, Vec<u8>))
    ensures
        r.0@ == cek_of(shared@, auth_secret@, recipient_public@, sender_public@, salt@),
        r.1@ == nonce_base_of(shared@, auth_secret@, recipient_public@, sender_public@, salt@),
        r.0@.len() == 16,
        r.1@.len() == 12,
{
    let mut auth_info: Vec<u8> = Vec::new();
    push_auth_label(&mut auth_info);
    let prk = hkdf_sha256(auth_secret, shared, auth_info.as_slice(), 32);

    let mut cek_info: Vec<u8> = Vec::new();
    push_aesgcm_label(&mut cek_info);
    push_kdf_context(&mut cek_info, recipient_public, sender_public);
    let cek = hkdf_sha256(salt, prk.as_slice(), cek_info.as_slice(), 16);

    let mut nonce_info: Vec<u8> = Vec::new();
    push_nonce_label(&mut nonce_info);
    push_kdf_context(&mut nonce_info, recipient_public, sender_public);
    let nonce = hkdf_sha256(salt, prk.as_slice(), nonce_info.as_slice(), 12);

    (cek, nonce)
}

/// The nonce of record `i`: the base nonce with the big-endian record
/// counter folded into its last eight bytes.
pub open spec fn record_nonce(base: Seq<u8>, i: u64) -> Seq<u8> {
    base.take(4) + seq![
        (base[4] ^ ((i >> 56) as u8)),
        (base[5] ^ ((i >> 48) as u8)),
        (base[6] ^ ((i >> 40) as u8)),
        (base[7] ^ ((i >> 32) as u8)),
        (base[8] ^ ((i >> 24) as u8)),
        (base[9] ^ ((i >> 16) as u8)),
        (base[10] ^ ((i >> 8) as u8)),
        (base[11] ^ (i as u8)),
    ]
}

fn make_record_nonce(base: &[u8], i: u64) -> (r: Vec<u8>)
    requires
        base@.len() == 12,
    ensures
        r@ == record_nonce(base@, i),
        r@.len() == 12,
{
    let mut v: Vec<u8> = Vec::new();
    v.push(base[0]);
    v.push(base[1]);
    v.push(base[2]);
    v.push(base[3]);
    v.push(base[4] ^ ((i >> 56) as u8));
    v.push(base[5] ^ ((i >> 48) as u8));
    v.push(base[6] ^ ((i >> 40) as u8));
    v.push(base[7] ^ ((i >> 32) as u8));
    v.push(base[8] ^ ((i >> 24) as u8));
    v.push(base[9] ^ ((i >> 16) as u8));
    v.push(base[10] ^ ((i >> 8) as u8));
    v.push(base[11] ^ (i as u8));
    proof {
        assert(v@ =~= record_nonce(base@, i));
    }
    v
}

/// Strips the padding of one decrypted record: a two-byte big-endian pad
/// count followed by that many zero bytes. `None` on malformed padding.
pub open spec fn unpad_record(rec: Seq<u8>) -> Option<Seq<u8>> {
    if rec.len() < 2 {
        None
    } else {
        let pad = rec[0] as int * 256 + rec[1] as int;
        if pad + 2 <= rec.len() && (forall|j: int| 2 <= j < pad + 2 ==> rec[j] == 0) {
            Some(rec.skip(pad + 2))
        } else {
            None
        }
    }
}

fn unpad_record_vec(rec: &Vec<u8>) -> (r: Option<Vec<u8>>)
    ensures
        (match r {
            Some(d) => unpad_record(rec@) == Some(d@),
            None => unpad_record(rec@) is None,
        }),
{
    if rec.len() < 2 {
        return None;
    }
    let pad: usize = (rec[0] as usize) * 256 + (rec[1] as usize);
    if pad > rec.len() - 2 {
        return None;
    }
    let mut j: usize = 2;
    while j < pad + 2
        invariant
            2 <= j <= pad + 2,
            pad <= 65535,
            pad + 2 <= rec@.len(),
            (pad as int == rec@[0] as int * 256 + rec@[1] as int),
            forall|k: int| 2 <= k < j ==> rec@[k] == 0,
        decreases pad + 2 - j,
    {
        if rec[j] != 0 {
            proof {
                assert(!(forall|k: int| 2 <= k < pad + 2 ==> rec@[k] == 0)) by {
                    assert(2 <= (j as int) && (j as int) < pad + 2 && rec@[j as int] != 0);
                }
            }
            return None;
        }
        j = j + 1;
    }
    let mut out: Vec<u8> = Vec::new();
    let mut k: usize = pad + 2;
    while k < rec.len()
        invariant
            pad + 2 <= k <= rec@.len(),
            out@ == rec@.subrange(pad + 2, k as int),
        decreases rec@.len() - k,
    {
        out.push(rec[k]);
        k = k + 1;
        proof {
            assert(rec@.subrange(pad + 2, k as int) =~= rec@.subrange(pad + 2, k - 1) + seq![
                rec@[k - 1],
            ]);
        }
    }
    proof {
        assert(out@ =~= rec@.skip(pad + 2));
    }
    Some(out)
}

/// What decrypting a sequence of records yields, starting at record
/// counter `i`: the concatenated unpadded plaintexts, or `None` when a
/// record is short, fails authentication, or has malformed padding.
pub open spec fn decrypt_records(
    ct: Seq<u8>,
    key: Seq<u8>,
    base_nonce: Seq<u8>,
    rs: nat,
    i: u64,
) -> Option<Seq<u8>>
    decreases ct.len(),
{
    if ct.len() == 0 {
        Some(Seq::empty())
    } else {
        let take = if ct.len() > rs + 16 {
            rs as int + 16
        } else {
            ct.len() as int
        };
        if take < 18 || i == u64::MAX {
            None
        } else {
            match gcm128_open(key, record_nonce(base_nonce, i), ct.take(take)) {
                None => None,
                Some(pt) => match unpad_record(pt) {
                    None => None,
                    Some(data) => match decrypt_records(
                        ct.skip(take),
                        key,
                        base_nonce,
                        rs,
                        (i + 1) as u64,
                    ) {
                        None => None,
                        Some(rest) => Some(data + rest),
                    },
                },
            }
        }
    }
}

/// `Some` contents prefixed by `a`, or `None`.
pub open spec fn opt_concat(a: Seq<u8>, o: Option<Seq<u8>>) -> Option<Seq<u8>> {
    match o {
        None => None,
        Some(b) => Some(a + b),
    }
}

/// Decrypts a record sequence with an already-derived key and base nonce.
/// Returns exactly what [`decrypt_records`] says; every failure is a
/// `Crypto` error scoped to this one message.
pub fn decrypt_payload(ct: &[u8], key: &[u8], base_nonce: &[u8], rs: u32) -> (r: Result<
    Vec<u8>,
    Error,
>)
    requires
        key@.len() == 16,
        base_nonce@.len() == 12,
        MIN_RECORD_SIZE <= rs <= MAX_RECORD_SIZE,
        ct@.len() > 0,
    ensures
        (match r {
            Ok(p) => decrypt_records(ct@, key@, base_nonce@, rs as nat, 0) == Some(p@),
            Err(e) => e == Error::Crypto && decrypt_records(ct@, key@, base_nonce@, rs as nat, 0)
                is None,
        }),
{
    let mut acc: Vec<u8> = Vec::new();
    let mut pos: usize = 0;
    let mut i: u64 = 0;
    proof {
        assert(ct@.skip(0) =~= ct@);
    }
    while pos < ct.len()
        invariant
            key@.len() == 16,
            base_nonce@.len() == 12,
            MIN_RECORD_SIZE <= rs <= MAX_RECORD_SIZE,
            pos <= ct@.len(),
            decrypt_records(ct@, key@, base_nonce@, rs as nat, 0) == opt_concat(
                acc@,
                decrypt_records(ct@.skip(pos as int), key@, base_nonce@, rs as nat, i),
            ),
        decreases ct@.len() - pos,
    {
        let remaining = ct.len() - pos;
        let rec_len: usize = if remaining > rs as usize + 16 {
            rs as usize + 16
        } else {
            remaining
        };
        if rec_len < 18 || i == u64::MAX {
            return Err(Error::Crypto);
        }
        let nonce = make_record_nonce(base_nonce, i);
        let record = vstd::slice::slice_subrange(ct, pos, pos + rec_len);
        proof {
            assert(record@ =~= ct@.skip(pos as int).take(rec_len as int));
        }
        let opened = match aes128gcm_open(key, nonce.as_slice(), record) {
            Some(p) => p,
            None => {
                return Err(Error::Crypto);
            },
        };
        let data = match unpad_record_vec(&opened) {
            Some(d) => d,
            None => {
                return Err(Error::Crypto);
            },
        };
        let ghost prev_pos = pos as int;
        let ghost prev_acc = acc@;
        let ghost prev_i = i;
        acc.extend_from_slice(data.as_slice());
        pos = pos + rec_len;
        i = i + 1;
        proof {
            assert(ct@.skip(prev_pos).skip(rec_len as int) =~= ct@.skip(pos as int));
            assert(decrypt_records(ct@.skip(prev_pos), key@, base_nonce@, rs as nat, prev_i)
                == opt_concat(
                data@,
                decrypt_records(ct@.skip(pos as int), key@, base_nonce@, rs as nat, i),
            ));
            assert(decrypt_records(ct@, key@, base_nonce@, rs as nat, 0) == opt_concat(
                acc@,
                decrypt_records(ct@.skip(pos as int), key@, base_nonce@, rs as nat, i),
            )) by {
                assert(forall|rest: Seq<u8>| prev_acc + (data@ + rest) =~= (prev_acc + data@)
                    + rest);
            }
        }
    }
    proof {
        assert(ct@.skip(pos as int) =~= Seq::<u8>::empty());
        assert(decrypt_records(ct@.skip(pos as int), key@, base_nonce@, rs as nat, i) == Some(
            Seq::<u8>::empty(),
        ));
        assert(acc@ + Seq::<u8>::empty() =~= acc@);
    }
    Ok(acc)
}

/// The reference encryption for a plaintext that fits one record: a
/// two-byte zero padding prefix, then AES-128-GCM under record nonce 0.
/// Its own contract is the decryption round trip: what it returns
/// decrypts, under the same key, base nonce and record size, back to the
/// plaintext.
pub fn encrypt_payload(pt: &[u8], key: &[u8], base_nonce: &[u8], rs: u32) -> (r: Vec<u8>)
    requires
        key@.len() == 16,
        base_nonce@.len() == 12,
        MIN_RECORD_SIZE <= rs <= MAX_RECORD_SIZE,
        pt@.len() + 2 <= rs,
    ensures
        r@.len() == pt@.len() + 18,
        decrypt_records(r@, key@, base_nonce@, rs as nat, 0) == Some(pt@),
{
    let mut padded: Vec<u8> = Vec::new();
    padded.push(0);
    padded.push(0);
    padded.extend_from_slice(pt);
    let nonce = make_record_nonce(base_nonce, 0);
    let sealed = aes128gcm_seal(key, nonce.as_slice(), padded.as_slice());
    proof {
        let s = sealed@;
        assert(s.take(s.len() as int) =~= s);
        assert(unpad_record(padded@) == Some(padded@.skip(2))) by {
            assert(padded@[0] == 0 && padded@[1] == 0);
        }
        assert(padded@.skip(2) =~= pt@);
        assert(s.skip(s.len() as int) =~= Seq::<u8>::empty());
        assert(decrypt_records(
            s.skip(s.len() as int),
            key@,
            base_nonce@,
            rs as nat,
            1,
        ) == Some(Seq::<u8>::empty()));
        assert(pt@ + Seq::<u8>::empty() =~= pt@);
    }
    sealed
}

/// What the full decryption of a delivered message body yields, as a
/// function of the raw inputs. `None` exactly when the engine reports a
/// `Crypto` error: unsupported record size, empty body, an unparsable key
/// encoding, authentication failure, or malformed padding.
pub open spec fn web_push_decrypt(
    ct: Seq<u8>,
    salt: Seq<u8>,
    sender_public: Seq<u8>,
    rs: nat,
    keys: WebPushKeys,
) -> Option<Seq<u8>> {
    if rs < MIN_RECORD_SIZE || rs > MAX_RECORD_SIZE || ct.len() == 0 {
        None
    } else {
        match p256_shared(keys.private_key@, sender_public) {
            None => None,
            Some(shared) => decrypt_records(
                ct,
                cek_of(shared, keys.auth_secret@, keys.public_key@, sender_public, salt),
                nonce_base_of(shared, keys.auth_secret@, keys.public_key@, sender_public, salt),
                rs,
                0,
            ),
        }
    }
}

/// Decrypts one delivered message body: ECDH, key derivation, record
/// decryption, padding removal. Pure and side-effect free; authentication
/// failure is never silently accepted.
pub fn decrypt(
    ciphertext: &[u8],
    salt: &[u8],
    sender_public: &[u8],
    record_size: u32,
    keys: &WebPushKeys,
) -> (r: Result<Vec<u8>, Error>)
    ensures
        (match r {
            Ok(p) => web_push_decrypt(
                ciphertext@,
                salt@,
                sender_public@,
                record_size as nat,
                *keys,
            ) == Some(p@),
            Err(e) => e == Error::Crypto && web_push_decrypt(
                ciphertext@,
                salt@,
                sender_public@,
                record_size as nat,
                *keys,
            ) is None,
        }),
{
    if record_size < MIN_RECORD_SIZE || record_size > MAX_RECORD_SIZE || ciphertext.len() == 0 {
        return Err(Error::Crypto);
    }
    let shared = match p256_ecdh(keys.private_key.as_slice(), sender_public) {
        Some(s) => s,
        None => {
            return Err(Error::Crypto);
        },
    };
    let (cek, base_nonce) = derive_content_keys(
        shared.as_slice(),
        keys.auth_secret.as_slice(),
        keys.public_key.as_slice(),
        sender_public,
        salt,
    );
    decrypt_payload(ciphertext, cek.as_slice(), base_nonce.as_slice(), record_size)
}

} // verus!
