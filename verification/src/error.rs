//! Error taxonomy of the engine.
//!
//! `Network` is always retryable through reconnect/backoff; `Protocol` and
//! `Framing` are fatal for the current connection attempt only; `Auth` means
//! the identity was rejected and a fresh check-in is needed; `Crypto` is
//! scoped to a single message; `AlreadyListening` and `NotFound` report
//! caller misuse synchronously.
use vstd::prelude::*;

verus! {

#[derive(Clone, Copy, Debug, PartialEq, Eq, Structural)]
pub enum Error {
    /// Transport-level failure; retryable via reconnect with backoff.
    Network,
    /// Bytes on the wire do not decode as the expected message schema.
    Protocol,
    /// The tag-length-value stream is corrupt or ends mid-frame.
    Framing,
    /// The server rejected the device identity.
    Auth,
    /// Payload authentication or decryption failed for one message.
    Crypto,
    /// A listen attempt was made on a registration that is already active.
    AlreadyListening,
    /// The referenced registration does not exist.
    NotFound,
}

} // verus!
