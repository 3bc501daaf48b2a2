//! Client-side engine for receiving push notifications over the MCS
//! persistent-connection protocol: device check-in, tag-length-value
//! framing, the login handshake, the reconnect-with-backoff state machine,
//! persistent-id deduplication, and Web Push payload decryption.
pub mod checkin;
pub mod codec;
pub mod crypto;
pub mod error;
pub mod ids;
pub mod mcs;
pub mod proto;
pub mod registration;
pub mod stream;
pub mod supervisor;
pub mod trusted;
pub mod varint;

pub use checkin::Session;
pub use codec::new_heartbeat_ack;
pub use codec::MessageTag;
pub use crypto::WebPushKeys;
pub use error::Error;
pub use registration::Registration;
pub use stream::DataMessage;
pub use stream::Message;
pub use stream::MessageStream;
