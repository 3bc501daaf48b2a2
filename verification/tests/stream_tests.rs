use base64::Engine;
use fcm_push_listener::codec::{encode_frame, Frame, MessageTag, MCS_VERSION};
use fcm_push_listener::crypto::{decrypt, derive_content_keys, encrypt_payload, WebPushKeys};
use fcm_push_listener::error::Error;
use fcm_push_listener::ids::PersistentIdSet;
use fcm_push_listener::mcs::{encode_data_stanza, parse_data_stanza, AppDataEntry, DataStanza};
use fcm_push_listener::stream::{Message, MessageStream, StreamStep};
use p256::elliptic_curve::sec1::ToEncodedPoint;

fn recipient_keys() -> WebPushKeys {
    let private_key = vec![1u8; 32];
    let sk = p256::SecretKey::from_slice(&private_key).unwrap();
    let public_key = sk.public_key().to_encoded_point(false).as_bytes().to_vec();
    WebPushKeys { private_key, public_key, auth_secret: vec![7u8; 16] }
}

/// Builds an encrypted data stanza the way the delivery server would:
/// sender-side ECDH, the protocol derivation, and headers carrying the
/// salt and the sender's ephemeral public key in URL-safe base64.
fn encrypted_stanza(plaintext: &[u8], keys: &WebPushKeys, persistent_id: Option<&[u8]>) -> DataStanza {
    let sender_sk = p256::SecretKey::from_slice(&[2u8; 32]).unwrap();
    let sender_pub = sender_sk.public_key().to_encoded_point(false).as_bytes().to_vec();
    let recipient_pk = p256::PublicKey::from_sec1_bytes(&keys.public_key).unwrap();
    let shared = p256::ecdh::diffie_hellman(sender_sk.to_nonzero_scalar(), recipient_pk.as_affine());
    let salt = [5u8; 16];
    let (cek, nonce) = derive_content_keys(
        shared.raw_secret_bytes().as_slice(),
        &keys.auth_secret,
        &keys.public_key,
        &sender_pub,
        &salt,
    );
    let raw_data = encrypt_payload(plaintext, &cek, &nonce, 4096);

    let b64 = base64::engine::general_purpose::URL_SAFE_NO_PAD;
    let mut enc_value = b"salt=".to_vec();
    enc_value.extend_from_slice(b64.encode(salt).as_bytes());
    let mut ck_value = b"dh=".to_vec();
    ck_value.extend_from_slice(b64.encode(&sender_pub).as_bytes());
    DataStanza {
        persistent_id: persistent_id.map(|p| p.to_vec()),
        app_data: vec![
            AppDataEntry { key: b"encryption".to_vec(), value: enc_value },
            AppDataEntry { key: b"crypto-key".to_vec(), value: ck_value },
        ],
        raw_data,
    }
}

fn frame_bytes(tag: MessageTag, payload: Vec<u8>) -> Vec<u8> {
    let mut out = Vec::new();
    encode_frame(&Frame { tag, payload }, &mut out);
    out
}

#[test]
fn stanza_codec_round_trip() {
    let keys = recipient_keys();
    let st = encrypted_stanza(b"hello", &keys, Some(b"msg-1"));
    let bytes = encode_data_stanza(&st);
    let back = parse_data_stanza(&bytes).unwrap();
    assert_eq!(back.persistent_id.as_deref(), Some(b"msg-1".as_slice()));
    assert_eq!(back.raw_data, st.raw_data);
    assert_eq!(back.app_data.len(), 2);
    assert_eq!(back.app_data[0].key, b"encryption");
    assert_eq!(back.app_data[1].key, b"crypto-key");
}

/// An active connection delivers a data stanza with a valid encrypted
/// body once, with the right plaintext; an identical stanza after a
/// reconnect is dropped as a duplicate.
#[test]
fn data_message_delivered_once_and_deduplicated() {
    let keys = recipient_keys();
    let st = encrypted_stanza(b"secret payload", &keys, Some(b"msg-1"));
    let frame = frame_bytes(MessageTag::DataMessageStanza, encode_data_stanza(&st));

    let mut stream = MessageStream::wrap(keys.clone(), PersistentIdSet::new());
    stream.feed(&[MCS_VERSION]);
    assert!(matches!(stream.next_event(), Ok(StreamStep::Skipped)));
    stream.feed(&frame);
    match stream.next_event() {
        Ok(StreamStep::Event(Message::Data(dm))) => {
            assert_eq!(dm.persistent_id.as_deref(), Some(b"msg-1".as_slice()));
            assert_eq!(dm.body, b"secret payload");
        },
        other => panic!("expected a data message, got {:?}", other),
    }

    // The same stanza arrives again on a new connection; the delivered
    // ids carry over, so it is dropped without an event.
    let prior = fcm_push_listener::ids::PersistentIdSet::from_ids(
        stream.delivered_ids().clone(),
    );
    let mut stream2 = MessageStream::wrap(keys, prior);
    stream2.feed(&[MCS_VERSION]);
    assert!(matches!(stream2.next_event(), Ok(StreamStep::Skipped)));
    stream2.feed(&frame);
    assert!(matches!(stream2.next_event(), Ok(StreamStep::Skipped)));
}

/// A tampered body is an error for that one message only; the stream
/// keeps delivering what follows.
#[test]
fn tampered_message_does_not_stop_the_stream() {
    let keys = recipient_keys();
    let mut bad = encrypted_stanza(b"first", &keys, Some(b"msg-1"));
    let n = bad.raw_data.len();
    bad.raw_data[n - 1] ^= 1;
    let good = encrypted_stanza(b"second", &keys, Some(b"msg-2"));

    let mut stream = MessageStream::wrap(keys, PersistentIdSet::new());
    stream.feed(&[MCS_VERSION]);
    assert!(matches!(stream.next_event(), Ok(StreamStep::Skipped)));
    stream.feed(&frame_bytes(MessageTag::DataMessageStanza, encode_data_stanza(&bad)));
    stream.feed(&frame_bytes(MessageTag::DataMessageStanza, encode_data_stanza(&good)));

    assert!(matches!(stream.next_event(), Ok(StreamStep::MessageError(Error::Crypto))));
    match stream.next_event() {
        Ok(StreamStep::Event(Message::Data(dm))) => assert_eq!(dm.body, b"second"),
        other => panic!("expected the second message, got {:?}", other),
    }
}

#[test]
fn control_frames_and_passthrough() {
    let keys = recipient_keys();
    let mut stream = MessageStream::wrap(keys, PersistentIdSet::new());
    stream.feed(&[MCS_VERSION]);
    assert!(matches!(stream.next_event(), Ok(StreamStep::Skipped)));

    stream.feed(&frame_bytes(MessageTag::HeartbeatPing, vec![]));
    assert!(matches!(stream.next_event(), Ok(StreamStep::Event(Message::HeartbeatPing))));

    // A login response without an error field is an accepted login.
    stream.feed(&frame_bytes(MessageTag::LoginResponse, vec![]));
    assert!(matches!(stream.next_event(), Ok(StreamStep::Event(Message::Login(true)))));

    // One carrying an error message (field 2) is a rejection.
    stream.feed(&frame_bytes(MessageTag::LoginResponse, vec![18, 1, 0]));
    assert!(matches!(stream.next_event(), Ok(StreamStep::Event(Message::Login(false)))));

    stream.feed(&frame_bytes(MessageTag::Close, vec![]));
    assert!(matches!(stream.next_event(), Ok(StreamStep::Event(Message::Close))));

    stream.feed(&frame_bytes(MessageTag::IqStanza, vec![8, 0]));
    match stream.next_event() {
        Ok(StreamStep::Event(Message::Other(tag, payload))) => {
            assert_eq!(tag, 7);
            assert_eq!(payload, vec![8, 0]);
        },
        other => panic!("expected a passthrough event, got {:?}", other),
    }

    assert!(matches!(stream.next_event(), Ok(StreamStep::NeedMoreBytes)));
}

#[test]
fn malformed_login_response_is_protocol_error() {
    let keys = recipient_keys();
    let mut stream = MessageStream::wrap(keys, PersistentIdSet::new());
    stream.feed(&[MCS_VERSION]);
    assert!(matches!(stream.next_event(), Ok(StreamStep::Skipped)));
    // A field key whose varint never ends.
    stream.feed(&frame_bytes(MessageTag::LoginResponse, vec![0x80]));
    assert_eq!(stream.next_event().unwrap_err(), Error::Protocol);
}

#[test]
fn partial_frame_at_stream_end_is_framing_error() {
    let keys = recipient_keys();
    let mut stream = MessageStream::wrap(keys, PersistentIdSet::new());
    stream.feed(&[MCS_VERSION]);
    assert!(matches!(stream.next_event(), Ok(StreamStep::Skipped)));
    assert!(stream.finish().is_ok());
    // Tag and declared length arrive, the payload never does.
    stream.feed(&[8, 5, 1]);
    assert!(matches!(stream.next_event(), Ok(StreamStep::NeedMoreBytes)));
    assert_eq!(stream.finish(), Err(Error::Framing));
}

#[test]
fn wrong_version_byte_is_protocol_error() {
    let keys = recipient_keys();
    let mut stream = MessageStream::wrap(keys, PersistentIdSet::new());
    stream.feed(&[40]);
    assert_eq!(stream.next_event().unwrap_err(), Error::Protocol);
}

#[test]
fn corrupt_frame_is_framing_error() {
    let keys = recipient_keys();
    let mut stream = MessageStream::wrap(keys, PersistentIdSet::new());
    // Version byte, then a frame whose declared length is over the cap.
    stream.feed(&[MCS_VERSION, 8, 0x80, 0x80, 0x80, 0x01]);
    assert!(matches!(stream.next_event(), Ok(StreamStep::Skipped)));
    assert_eq!(stream.next_event().unwrap_err(), Error::Framing);
}

/// A stanza without a persistent id is still delivered and recorded
/// nowhere.
#[test]
fn stanza_without_persistent_id_is_delivered() {
    let keys = recipient_keys();
    let st = encrypted_stanza(b"anonymous", &keys, None);
    let mut stream = MessageStream::wrap(keys, PersistentIdSet::new());
    stream.feed(&[MCS_VERSION]);
    assert!(matches!(stream.next_event(), Ok(StreamStep::Skipped)));
    stream.feed(&frame_bytes(MessageTag::DataMessageStanza, encode_data_stanza(&st)));
    match stream.next_event() {
        Ok(StreamStep::Event(Message::Data(dm))) => {
            assert!(dm.persistent_id.is_none());
            assert_eq!(dm.body, b"anonymous");
        },
        other => panic!("expected a data message, got {:?}", other),
    }
    assert!(stream.delivered_ids().is_empty());
}

/// A stanza with missing encryption headers is a per-message error.
#[test]
fn missing_headers_are_a_message_error() {
    let keys = recipient_keys();
    let st = DataStanza {
        persistent_id: Some(b"msg-3".to_vec()),
        app_data: vec![],
        raw_data: vec![1, 2, 3],
    };
    let mut stream = MessageStream::wrap(keys, PersistentIdSet::new());
    stream.feed(&[MCS_VERSION]);
    assert!(matches!(stream.next_event(), Ok(StreamStep::Skipped)));
    stream.feed(&frame_bytes(MessageTag::DataMessageStanza, encode_data_stanza(&st)));
    assert!(matches!(stream.next_event(), Ok(StreamStep::MessageError(Error::Crypto))));
}

#[test]
fn decrypt_matches_stream_path() {
    // The same ciphertext decrypted directly gives the same plaintext the
    // stream delivers.
    let keys = recipient_keys();
    let st = encrypted_stanza(b"twice", &keys, None);
    let sender_sk = p256::SecretKey::from_slice(&[2u8; 32]).unwrap();
    let sender_pub = sender_sk.public_key().to_encoded_point(false).as_bytes().to_vec();
    let out = decrypt(&st.raw_data, &[5u8; 16], &sender_pub, 4096, &keys).unwrap();
    assert_eq!(out, b"twice");
}
