//! A registration: the delivery address, the device identity and the Web
//! Push key material, owned by the caller for the registration's lifetime
//! and passed by reference into every connection attempt.
use vstd::prelude::*;

use crate::checkin::Session;
use crate::crypto::WebPushKeys;
use crate::error::Error;
use crate::trusted::{b64_decode, b64_encode, b64_standard};

verus! {

/// Everything a caller persists about one registration.
#[derive(Clone, Debug)]
pub struct Registration {
    /// The opaque delivery address this registration receives under.
    pub fcm_token: String,
    /// The device identity that authenticates the login handshake.
    pub gcm: Session,
    /// The key material that decrypts delivered payloads.
    pub keys: WebPushKeys,
}

/// What decoding standard base64 yields: the unique byte sequence with
/// this encoding, or `None` when there is none.
pub open spec fn b64_decoded(t: Seq<char>) -> Option<Seq<u8>> {
    if exists|b: Seq<u8>| b64_standard(b) == t {
        Some(choose|b: Seq<u8>| b64_standard(b) == t)
    } else {
        None
    }
}

/// The key material three base64 strings decode to, in the order private
/// key, public key, auth secret; `None` when one does not decode or has
/// the wrong length.
pub open spec fn keys_from_parts(auth: Seq<char>, privk: Seq<char>, pubk: Seq<char>) -> Option<
    (Seq<u8>, Seq<u8>, Seq<u8>),
> {
    match (b64_decoded(auth), b64_decoded(privk), b64_decoded(pubk)) {
        (Some(a), Some(p), Some(q)) => {
            if a.len() == 16 && p.len() == 32 && q.len() == 65 {
                Some((p, q, a))
            } else {
                None
            }
        },
        _ => None,
    }
}

fn decode_b64(t: &str) -> (r: Option<Vec<u8>>)
    ensures
        (match r {
            Some(v) => b64_decoded(t@) == Some(v@),
            None => b64_decoded(t@) is None,
        }),
{
    let r = b64_decode(t);
    proof {
        match r {
            Some(ref v) => {
                assert(b64_standard(v@) == t@);
                let b = choose|b: Seq<u8>| b64_standard(b) == t@;
                assert(b64_standard(b) == t@);
            },
            None => {
                if exists|b: Seq<u8>| b64_standard(b) == t@ {
                    let b = choose|b: Seq<u8>| b64_standard(b) == t@;
                    assert(b64_standard(b) == t@);
                }
            },
        }
    }
    r
}

/// Rebuilds a registration from persisted parts: the delivery token, the
/// device identity and the base64-encoded key material. A `Protocol` error
/// exactly when a key string does not decode or has the wrong length.
pub fn registration_from_parts(
    fcm_token: String,
    android_id: i64,
    security_token: u64,
    auth_secret: &str,
    private_key: &str,
    public_key: &str,
) -> (r: Result<Registration, Error>)
    ensures
        (match r {
            Ok(reg) => {
                &&& keys_from_parts(auth_secret@, private_key@, public_key@) == Some(
                    (reg.keys.private_key@, reg.keys.public_key@, reg.keys.auth_secret@),
                )
                &&& reg.keys.wf()
                &&& reg.fcm_token == fcm_token
                &&& (reg.gcm == Session { android_id, security_token })
            },
            Err(e) => e == Error::Protocol && keys_from_parts(
                auth_secret@,
                private_key@,
                public_key@,
            ) is None,
        }),
{
    let auth = match decode_b64(auth_secret) {
        Some(v) => v,
        None => {
            return Err(Error::Protocol);
        },
    };
    let privk = match decode_b64(private_key) {
        Some(v) => v,
        None => {
            return Err(Error::Protocol);
        },
    };
    let pubk = match decode_b64(public_key) {
        Some(v) => v,
        None => {
            return Err(Error::Protocol);
        },
    };
    if auth.len() != 16 || privk.len() != 32 || pubk.len() != 65 {
        return Err(Error::Protocol);
    }
    Ok(
        Registration {
            fcm_token,
            gcm: Session { android_id, security_token },
            keys: WebPushKeys { private_key: privk, public_key: pubk, auth_secret: auth },
        },
    )
}

impl Registration {
    /// The delivery address.
    pub fn token(&self) -> (r: &String)
        ensures
            r == &self.fcm_token,
    {
        &self.fcm_token
    }

    /// The device id of the identity.
    pub fn android_id(&self) -> (r: i64)
        ensures
            r == self.gcm.android_id,
    {
        self.gcm.android_id
    }

    /// The security token of the identity.
    pub fn security_token(&self) -> (r: u64)
        ensures
            r == self.gcm.security_token,
    {
        self.gcm.security_token
    }

    /// The key material as base64, in the order auth secret, private key,
    /// public key — the form [`registration_from_parts`] takes back.
    pub fn keys_base64(&self) -> (r: (String, String, String))
        ensures
            r.0@ == b64_standard(self.keys.auth_secret@),
            r.1@ == b64_standard(self.keys.private_key@),
            r.2@ == b64_standard(self.keys.public_key@),
    {
        (
            b64_encode(self.keys.auth_secret.as_slice()),
            b64_encode(self.keys.private_key.as_slice()),
            b64_encode(self.keys.public_key.as_slice()),
        )
    }
}

/// Opaque registration handle handed across a foreign-function boundary:
/// the binding layer owns one per registration and frees it explicitly.
#[derive(Clone, Debug)]
pub struct FfiRegistration {
    inner: Registration,
}

impl FfiRegistration {
    /// The registration the handle stands for.
    pub closed spec fn spec_registration(self) -> Registration {
        self.inner
    }

    /// Wraps a registration for the boundary.
    pub fn new(inner: Registration) -> (r: FfiRegistration)
        ensures
            r.spec_registration() == inner,
    {
        FfiRegistration { inner }
    }

    /// The registration behind the handle.
    pub fn registration(&self) -> (r: &Registration)
        ensures
            r == &self.spec_registration(),
    {
        &self.inner
    }
}

} // verus!
