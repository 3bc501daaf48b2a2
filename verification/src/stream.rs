//! The message stream: consumes the raw bytes of an active connection,
//! decodes frames, classifies them, deduplicates data messages by
//! persistent id, and decrypts their payloads.
//!
//! A decryption failure is scoped to the one message that failed; only
//! malformed framing or message bytes end the connection attempt.
use vstd::prelude::*;

use crate::codec::{
    decode_frame, frame_corrupt, parse_frame, spec_tag_of_byte, tag_byte, FrameStep, MessageTag,
    MCS_VERSION,
};
use crate::crypto::{decrypt, web_push_decrypt, WebPushKeys};
use crate::error::Error;
use crate::ids::{copy_bytes, PersistentIdSet};
use crate::mcs::{
    login_response_rejected, parse_data_stanza, parse_data_stanza_seq, parse_login_response,
    stanza_model, AppDataEntry, DataStanza,
};
use crate::trusted::{b64_url_decode, b64_url_nopad};

verus! {

/// Record size the delivery protocol uses for message bodies.
pub const DEFAULT_RECORD_SIZE: u32 = 4096;

/// "encryption", the application-data key that carries the salt.
pub open spec fn encryption_key_label() -> Seq<u8> {
    seq![101u8, 110u8, 99u8, 114u8, 121u8, 112u8, 116u8, 105u8, 111u8, 110u8]
}

/// "crypto-key", the application-data key that carries the sender key.
pub open spec fn crypto_key_label() -> Seq<u8> {
    seq![99u8, 114u8, 121u8, 112u8, 116u8, 111u8, 45u8, 107u8, 101u8, 121u8]
}

/// "salt=", the prefix of the salt value.
pub open spec fn salt_prefix_label() -> Seq<u8> {
    seq![115u8, 97u8, 108u8, 116u8, 61u8]
}

/// "dh=", the prefix of the sender-key value.
pub open spec fn dh_prefix_label() -> Seq<u8> {
    seq![100u8, 104u8, 61u8]
}

fn make_encryption_key_label() -> (r: Vec<u8>)
    ensures
        r@ == encryption_key_label(),
{
    let mut v: Vec<u8> = Vec::new();
    v.push(101); v.push(110); v.push(99); v.push(114); v.push(121); v.push(112); v.push(116); v.push(105); v.push(111); v.push(110);
    proof {
        assert(v@ =~= encryption_key_label());
    }
    v
}

fn make_crypto_key_label() -> (r: Vec<u8>)
    ensures
        r@ == crypto_key_label(),
{
    let mut v: Vec<u8> = Vec::new();
    v.push(99); v.push(114); v.push(121); v.push(112); v.push(116); v.push(111); v.push(45); v.push(107); v.push(101); v.push(121);
    proof {
        assert(v@ =~= crypto_key_label());
    }
    v
}

fn make_salt_prefix_label() -> (r: Vec<u8>)
    ensures
        r@ == salt_prefix_label(),
{
    let mut v: Vec<u8> = Vec::new();
    v.push(115); v.push(97); v.push(108); v.push(116); v.push(61);
    proof {
        assert(v@ =~= salt_prefix_label());
    }
    v
}

fn make_dh_prefix_label() -> (r: Vec<u8>)
    ensures
        r@ == dh_prefix_label(),
{
    let mut v: Vec<u8> = Vec::new();
    v.push(100); v.push(104); v.push(61);
    proof {
        assert(v@ =~= dh_prefix_label());
    }
    v
}

/// The value of the first entry with the given key, if any.
pub open spec fn find_value(app: Seq<(Seq<u8>, Seq<u8>)>, key: Seq<u8>) -> Option<Seq<u8>>
    decreases app.len(),
{
    if app.len() == 0 {
        None
    } else if app[0].0 == key {
        Some(app[0].1)
    } else {
        find_value(app.skip(1), key)
    }
}

/// The rest of `v` after the prefix `p`, or `None` when `v` does not start
/// with `p`.
pub open spec fn strip_prefix(v: Seq<u8>, p: Seq<u8>) -> Option<Seq<u8>> {
    if p.len() <= v.len() && v.take(p.len() as int) == p {
        Some(v.skip(p.len() as int))
    } else {
        None
    }
}

/// What decoding URL-safe unpadded base64 yields: the unique byte sequence
/// with this encoding, or `None` when there is none.
pub open spec fn b64url_decoded(t: Seq<u8>) -> Option<Seq<u8>> {
    if exists|b: Seq<u8>| b64_url_nopad(b) == t {
        Some(choose|b: Seq<u8>| b64_url_nopad(b) == t)
    } else {
        None
    }
}

/// The salt and sender public key carried in a stanza's application data,
/// decoded; `None` when either header is missing or malformed.
pub open spec fn crypto_params(app: Seq<(Seq<u8>, Seq<u8>)>) -> Option<(Seq<u8>, Seq<u8>)> {
    match (find_value(app, encryption_key_label()), find_value(app, crypto_key_label())) {
        (Some(ev), Some(cv)) => match (
            strip_prefix(ev, salt_prefix_label()),
            strip_prefix(cv, dh_prefix_label()),
        ) {
            (Some(sb), Some(db)) => match (b64url_decoded(sb), b64url_decoded(db)) {
                (Some(salt), Some(dh)) => Some((salt, dh)),
                _ => None,
            },
            _ => None,
        },
        _ => None,
    }
}

/// How the stream disposes of one data stanza.
pub enum DataOutcome {
    /// Its persistent id was already delivered: dropped without crypto
    /// work.
    Duplicate,
    /// Its encryption headers are missing or malformed, or decryption
    /// failed: an error scoped to this one message.
    BadPayload,
    /// Its decrypted plaintext is delivered, and the persistent id, when
    /// present, is recorded.
    Delivered(Option<Seq<u8>>, Seq<u8>),
}

/// The disposition of a data stanza given the ids already seen and the
/// recipient key material.
pub open spec fn data_outcome(
    m: (Option<Seq<u8>>, Seq<(Seq<u8>, Seq<u8>)>, Seq<u8>),
    seen: Seq<Seq<u8>>,
    keys: WebPushKeys,
) -> DataOutcome {
    if m.0 is Some && seen.contains(m.0->0) {
        DataOutcome::Duplicate
    } else {
        match crypto_params(m.1) {
            None => DataOutcome::BadPayload,
            Some((salt, dh)) => match web_push_decrypt(
                m.2,
                salt,
                dh,
                DEFAULT_RECORD_SIZE as nat,
                keys,
            ) {
                None => DataOutcome::BadPayload,
                Some(pt) => DataOutcome::Delivered(m.0, pt),
            },
        }
    }
}

/// A data stanza whose persistent id was already delivered is always a
/// duplicate, whatever its body: it is dropped, and by
/// [`frame_outcome`] such a stanza never yields a data event and never
/// changes the delivered-id set.
pub proof fn lemma_duplicate_dropped(
    m: (Option<Seq<u8>>, Seq<(Seq<u8>, Seq<u8>)>, Seq<u8>),
    seen: Seq<Seq<u8>>,
    keys: WebPushKeys,
)
    requires
        m.0 is Some,
        seen.contains(m.0->0),
    ensures
        data_outcome(m, seen, keys) is Duplicate,
{
}

/// A decoded, decrypted message handed to the consumer.
#[derive(Debug)]
pub struct DataMessage {
    pub persistent_id: Option<Vec<u8>>,
    pub body: Vec<u8>,
}

/// The abstract value of a data message.
pub open spec fn message_model(dm: DataMessage) -> (Option<Seq<u8>>, Seq<u8>) {
    (
        (match dm.persistent_id {
            Some(v) => Some(v@),
            None => None,
        }),
        dm.body@,
    )
}

/// What an active connection yields to the consumer.
#[derive(Debug)]
pub enum Message {
    /// A decrypted data message.
    Data(DataMessage),
    /// The server asked for a heartbeat ack.
    HeartbeatPing,
    /// The server closed the stream gracefully.
    Close,
    /// The login response arrived; `true` means the login was accepted.
    Login(bool),
    /// A frame of a kind the engine passes through: its tag byte and
    /// payload.
    Other(u8, Vec<u8>),
}

/// One step of the stream.
#[derive(Debug)]
pub enum StreamStep {
    /// No complete unit is buffered; feed more transport bytes.
    NeedMoreBytes,
    /// A unit was consumed without an event: the version marker, or a
    /// duplicate data message.
    Skipped,
    /// An error scoped to one message; the stream goes on.
    MessageError(Error),
    /// An event for the consumer.
    Event(Message),
}

fn find_app_value<'a>(app: &'a Vec<AppDataEntry>, key: &[u8]) -> (r: Option<&'a Vec<u8>>)
    ensures
        (match r {
            Some(v) => find_value(crate::mcs::entries_model(app@), key@) == Some(v@),
            None => find_value(crate::mcs::entries_model(app@), key@) is None,
        }),
{
    let ghost m = crate::mcs::entries_model(app@);
    let mut i: usize = 0;
    proof {
        assert(m.skip(0) =~= m);
    }
    while i < app.len()
        invariant
            i <= app@.len(),
            m == crate::mcs::entries_model(app@),
            find_value(m, key@) == find_value(m.skip(i as int), key@),
        decreases app@.len() - i,
    {
        proof {
            assert(m.skip(i as int)[0] == m[i as int]);
            assert(m.skip(i as int).skip(1) =~= m.skip(i + 1));
        }
        if crate::ids::bytes_eq(app[i].key.as_slice(), key) {
            return Some(&app[i].value);
        }
        i = i + 1;
    }
    proof {
        assert(m.skip(app@.len() as int) =~= Seq::<(Seq<u8>, Seq<u8>)>::empty());
    }
    None
}

fn strip_prefix_bytes(v: &[u8], p: &[u8]) -> (r: Option<Vec<u8>>)
    ensures
        (match r {
            Some(rest) => strip_prefix(v@, p@) == Some(rest@),
            None => strip_prefix(v@, p@) is None,
        }),
{
    if p.len() > v.len() {
        return None;
    }
    let head = vstd::slice::slice_subrange(v, 0, p.len());
    proof {
        assert(head@ =~= v@.take(p@.len() as int));
    }
    if !crate::ids::bytes_eq(head, p) {
        return None;
    }
    let rest = copy_bytes(vstd::slice::slice_subrange(v, p.len(), v.len()));
    proof {
        assert(rest@ =~= v@.skip(p@.len() as int));
    }
    Some(rest)
}

fn decode_b64url(t: &[u8]) -> (r: Option<Vec<u8>>)
    ensures
        (match r {
            Some(v) => b64url_decoded(t@) == Some(v@),
            None => b64url_decoded(t@) is None,
        }),
{
    let r = b64_url_decode(t);
    proof {
        match r {
            Some(ref v) => {
                assert(b64_url_nopad(v@) == t@);
                let b = choose|b: Seq<u8>| b64_url_nopad(b) == t@;
                assert(b64_url_nopad(b) == t@);
            },
            None => {
                if exists|b: Seq<u8>| b64_url_nopad(b) == t@ {
                    let b = choose|b: Seq<u8>| b64_url_nopad(b) == t@;
                    assert(b64_url_nopad(b) == t@);
                }
            },
        }
    }
    r
}

/// Disposes of one parsed data stanza: a duplicate persistent id drops the
/// stanza with no crypto work and no change to the set; otherwise the body
/// is decrypted and the id recorded. `Err` is the per-message `Crypto`
/// error.
pub fn handle_data_stanza(st: &DataStanza, seen: &mut PersistentIdSet, keys: &WebPushKeys) -> (r:
    Result<Option<DataMessage>, Error>)
    requires
        old(seen).wf(),
    ensures
        final(seen).wf(),
        (match data_outcome(stanza_model(*st), old(seen)@, *keys) {
            DataOutcome::Duplicate => r matches Ok(None) && final(seen)@ == old(seen)@,
            DataOutcome::BadPayload => (r matches Err(e) && e == Error::Crypto) && final(seen)@
                == old(seen)@,
            DataOutcome::Delivered(pid, pt) => (match r {
                Ok(Some(dm)) => message_model(dm) == (pid, pt) && final(seen)@ == (match pid {
                    Some(p) => old(seen)@.push(p),
                    None => old(seen)@,
                }),
                _ => false,
            }),
        }),
{
    match &st.persistent_id {
        Some(pid) => {
            if seen.contains(pid.as_slice()) {
                return Ok(None);
            }
        },
        None => {},
    }
    let enc_label = make_encryption_key_label();
    let ck_label = make_crypto_key_label();
    let enc_value = match find_app_value(&st.app_data, enc_label.as_slice()) {
        Some(v) => v,
        None => {
            return Err(Error::Crypto);
        },
    };
    let ck_value = match find_app_value(&st.app_data, ck_label.as_slice()) {
        Some(v) => v,
        None => {
            return Err(Error::Crypto);
        },
    };
    let salt_prefix = make_salt_prefix_label();
    let dh_prefix = make_dh_prefix_label();
    let salt_b64 = match strip_prefix_bytes(enc_value.as_slice(), salt_prefix.as_slice()) {
        Some(v) => v,
        None => {
            return Err(Error::Crypto);
        },
    };
    let dh_b64 = match strip_prefix_bytes(ck_value.as_slice(), dh_prefix.as_slice()) {
        Some(v) => v,
        None => {
            return Err(Error::Crypto);
        },
    };
    let salt = match decode_b64url(salt_b64.as_slice()) {
        Some(v) => v,
        None => {
            return Err(Error::Crypto);
        },
    };
    let dh = match decode_b64url(dh_b64.as_slice()) {
        Some(v) => v,
        None => {
            return Err(Error::Crypto);
        },
    };
    let body = match decrypt(
        st.raw_data.as_slice(),
        salt.as_slice(),
        dh.as_slice(),
        DEFAULT_RECORD_SIZE,
        keys,
    ) {
        Ok(p) => p,
        Err(_) => {
            return Err(Error::Crypto);
        },
    };
    let persistent_id = match &st.persistent_id {
        Some(pid) => {
            let owned = copy_bytes(pid.as_slice());
            seen.insert(owned);
            Some(copy_bytes(pid.as_slice()))
        },
        None => None,
    };
    Ok(Some(DataMessage { persistent_id, body }))
}

/// The stream over one connection: buffers transport bytes, strips the
/// version marker, and steps one frame at a time. Not restartable once its
/// listen session ends; a new stream is built for a new session.
#[derive(Debug)]
pub struct MessageStream {
    buf: Vec<u8>,
    pos: usize,
    version_seen: bool,
    keys: WebPushKeys,
    seen: PersistentIdSet,
}

impl MessageStream {
    /// The bytes fed but not yet consumed.
    pub closed spec fn buffered(self) -> Seq<u8> {
        self.buf@.skip(self.pos as int)
    }

    /// Whether the leading version marker has been consumed.
    pub closed spec fn version_done(self) -> bool {
        self.version_seen
    }

    /// The persistent ids delivered so far.
    pub closed spec fn seen_ids(self) -> Seq<Seq<u8>> {
        self.seen@
    }

    /// The recipient key material.
    pub closed spec fn key_material(self) -> WebPushKeys {
        self.keys
    }

    pub closed spec fn wf(self) -> bool {
        &&& self.pos <= self.buf@.len()
        &&& self.seen.wf()
    }

    /// Wraps a new connection: keys from the registration, and the ids
    /// already delivered during this registration's lifetime.
    pub fn wrap(keys: WebPushKeys, prior: PersistentIdSet) -> (s: MessageStream)
        requires
            prior.wf(),
        ensures
            s.wf(),
            s.buffered() == Seq::<u8>::empty(),
            !s.version_done(),
            s.seen_ids() == prior@,
            s.key_material() == keys,
    {
        let s = MessageStream { buf: Vec::new(), pos: 0, version_seen: false, keys, seen: prior };
        proof {
            assert(s.buffered() =~= Seq::<u8>::empty());
        }
        s
    }

    /// The ids to replay in the next login request.
    pub fn delivered_ids(&self) -> (r: &Vec<Vec<u8>>)
        ensures
            r.deep_view() == self.seen_ids(),
    {
        self.seen.as_ids()
    }

    /// Called when the transport reports end of stream: bytes left in the
    /// buffer are a partial frame, an error rather than a silent
    /// truncation.
    pub fn finish(&self) -> (r: Result<(), Error>)
        requires
            self.wf(),
        ensures
            (match r {
                Ok(()) => self.buffered().len() == 0,
                Err(e) => e == Error::Framing && self.buffered().len() > 0,
            }),
    {
        if self.pos == self.buf.len() {
            Ok(())
        } else {
            Err(Error::Framing)
        }
    }

    /// Feeds bytes read from the transport.
    pub fn feed(&mut self, bytes: &[u8])
        requires
            old(self).wf(),
        ensures
            final(self).wf(),
            final(self).buffered() == old(self).buffered() + bytes@,
            final(self).version_done() == old(self).version_done(),
            final(self).seen_ids() == old(self).seen_ids(),
            final(self).key_material() == old(self).key_material(),
    {
        self.buf.extend_from_slice(bytes);
        proof {
            assert(self.buffered() =~= old(self).buffered() + bytes@);
        }
    }
}

/// What one call of [`MessageStream::next_event`] does, as a relation
/// between the stream before, the stream after, and the step returned.
pub open spec fn next_event_post(
    pre: MessageStream,
    post: MessageStream,
    r: Result<StreamStep, Error>,
) -> bool {
    let b = pre.buffered();
    &&& post.key_material() == pre.key_material()
    &&& if !pre.version_done() {
        if b.len() == 0 {
            &&& r == Ok::<StreamStep, Error>(StreamStep::NeedMoreBytes)
            &&& post.buffered() == b
            &&& !post.version_done()
            &&& post.seen_ids() == pre.seen_ids()
        } else if b[0] == MCS_VERSION {
            &&& r == Ok::<StreamStep, Error>(StreamStep::Skipped)
            &&& post.buffered() == b.skip(1)
            &&& post.version_done()
            &&& post.seen_ids() == pre.seen_ids()
        } else {
            &&& r == Err::<StreamStep, Error>(Error::Protocol)
            &&& post.buffered() == b
            &&& post.seen_ids() == pre.seen_ids()
        }
    } else {
        &&& post.version_done()
        &&& match parse_frame(b) {
            None => {
                &&& (if frame_corrupt(b) {
                    r == Err::<StreamStep, Error>(Error::Framing)
                } else {
                    r == Ok::<StreamStep, Error>(StreamStep::NeedMoreBytes)
                })
                &&& post.buffered() == b
                &&& post.seen_ids() == pre.seen_ids()
            },
            Some((tb, payload, used)) => frame_outcome(pre, post, r, tb, payload, b.skip(used)),
        }
    }
}

/// What handling one decoded frame does.
pub open spec fn frame_outcome(
    pre: MessageStream,
    post: MessageStream,
    r: Result<StreamStep, Error>,
    tb: u8,
    payload: Seq<u8>,
    rest: Seq<u8>,
) -> bool {
    let tag = spec_tag_of_byte(tb);
    if tag is HeartbeatPing {
        &&& r == Ok::<StreamStep, Error>(StreamStep::Event(Message::HeartbeatPing))
        &&& post.buffered() == rest
        &&& post.seen_ids() == pre.seen_ids()
    } else if tag is Close {
        &&& r == Ok::<StreamStep, Error>(StreamStep::Event(Message::Close))
        &&& post.buffered() == rest
        &&& post.seen_ids() == pre.seen_ids()
    } else if tag is LoginResponse {
        match login_response_rejected(payload) {
            None => {
                &&& r == Err::<StreamStep, Error>(Error::Protocol)
                &&& post.buffered() == pre.buffered()
                &&& post.seen_ids() == pre.seen_ids()
            },
            Some(rej) => {
                &&& r == Ok::<StreamStep, Error>(StreamStep::Event(Message::Login(!rej)))
                &&& post.buffered() == rest
                &&& post.seen_ids() == pre.seen_ids()
            },
        }
    } else if tag is DataMessageStanza {
        match parse_data_stanza_seq(payload) {
            None => {
                &&& r == Err::<StreamStep, Error>(Error::Protocol)
                &&& post.buffered() == pre.buffered()
                &&& post.seen_ids() == pre.seen_ids()
            },
            Some(m) => match data_outcome(m, pre.seen_ids(), pre.key_material()) {
                DataOutcome::Duplicate => {
                    &&& r == Ok::<StreamStep, Error>(StreamStep::Skipped)
                    &&& post.buffered() == rest
                    &&& post.seen_ids() == pre.seen_ids()
                },
                DataOutcome::BadPayload => {
                    &&& r == Ok::<StreamStep, Error>(StreamStep::MessageError(Error::Crypto))
                    &&& post.buffered() == rest
                    &&& post.seen_ids() == pre.seen_ids()
                },
                DataOutcome::Delivered(pid, pt) => {
                    &&& (match r {
                        Ok(StreamStep::Event(Message::Data(dm))) => message_model(dm) == (pid, pt),
                        _ => false,
                    })
                    &&& post.buffered() == rest
                    &&& post.seen_ids() == (match pid {
                        Some(p) => pre.seen_ids().push(p),
                        None => pre.seen_ids(),
                    })
                },
            },
        }
    } else {
        &&& (match r {
            Ok(StreamStep::Event(Message::Other(t, p))) => t == tb && p@ == payload,
            _ => false,
        })
        &&& post.buffered() == rest
        &&& post.seen_ids() == pre.seen_ids()
    }
}

impl MessageStream {
    /// Consumes at most one unit (the version marker or one frame) from
    /// the buffer and says what it was. `Err` ends the connection attempt;
    /// a `MessageError` step is scoped to one message and the stream goes
    /// on.
    pub fn next_event(&mut self) -> (r: Result<StreamStep, Error>)
        requires
            old(self).wf(),
        ensures
            final(self).wf(),
            next_event_post(*old(self), *final(self), r),
    {
        let ghost b = self.buffered();
        if !self.version_seen {
            if self.pos == self.buf.len() {
                return Ok(StreamStep::NeedMoreBytes);
            }
            if self.buf[self.pos] != MCS_VERSION {
                return Err(Error::Protocol);
            }
            self.pos = self.pos + 1;
            self.version_seen = true;
            proof {
                assert(self.buffered() =~= b.skip(1));
            }
            return Ok(StreamStep::Skipped);
        }
        let frame = match decode_frame(self.buf.as_slice(), self.pos) {
            FrameStep::Got(f, next) => {
                proof {
                    assert(self.buf@.skip(next as int) =~= b.skip(next - self.pos));
                }
                (f, next)
            },
            FrameStep::Incomplete => {
                return Ok(StreamStep::NeedMoreBytes);
            },
            FrameStep::Corrupt => {
                return Err(Error::Framing);
            },
        };
        let (f, next) = frame;
        let ghost rest = b.skip(next - self.pos);
        match f.tag {
            MessageTag::HeartbeatPing => {
                self.pos = next;
                Ok(StreamStep::Event(Message::HeartbeatPing))
            },
            MessageTag::Close => {
                self.pos = next;
                Ok(StreamStep::Event(Message::Close))
            },
            MessageTag::LoginResponse => {
                match parse_login_response(f.payload.as_slice()) {
                    Ok(rej) => {
                        self.pos = next;
                        Ok(StreamStep::Event(Message::Login(!rej)))
                    },
                    Err(_) => Err(Error::Protocol),
                }
            },
            MessageTag::DataMessageStanza => {
                let st = match parse_data_stanza(f.payload.as_slice()) {
                    Ok(st) => st,
                    Err(_) => {
                        return Err(Error::Protocol);
                    },
                };
                match handle_data_stanza(&st, &mut self.seen, &self.keys) {
                    Ok(None) => {
                        self.pos = next;
                        Ok(StreamStep::Skipped)
                    },
                    Ok(Some(dm)) => {
                        self.pos = next;
                        Ok(StreamStep::Event(Message::Data(dm)))
                    },
                    Err(_) => {
                        self.pos = next;
                        Ok(StreamStep::MessageError(Error::Crypto))
                    },
                }
            },
            _ => {
                self.pos = next;
                Ok(StreamStep::Event(Message::Other(tag_byte(f.tag), f.payload)))
            },
        }
    }
}

} // verus!
