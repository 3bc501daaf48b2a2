use base64::Engine;
use fcm_push_listener::error::Error;
use fcm_push_listener::ids::PersistentIdSet;
use fcm_push_listener::registration::{registration_from_parts, Registration};

fn b64(bytes: &[u8]) -> String {
    base64::engine::general_purpose::STANDARD.encode(bytes)
}

#[test]
fn registration_round_trips_through_base64() {
    let auth = vec![7u8; 16];
    let privk = vec![1u8; 32];
    let pubk = vec![4u8; 65];
    let reg = registration_from_parts(
        "token-abc".to_string(),
        123,
        456,
        &b64(&auth),
        &b64(&privk),
        &b64(&pubk),
    )
    .unwrap();
    assert_eq!(reg.token(), "token-abc");
    assert_eq!(reg.android_id(), 123);
    assert_eq!(reg.security_token(), 456);
    assert_eq!(reg.keys.auth_secret, auth);
    assert_eq!(reg.keys.private_key, privk);
    assert_eq!(reg.keys.public_key, pubk);

    // Exporting and importing again preserves the registration.
    let (a, p, q) = reg.keys_base64();
    let reg2: Registration =
        registration_from_parts(reg.fcm_token.clone(), 123, 456, &a, &p, &q).unwrap();
    assert_eq!(reg2.keys.auth_secret, reg.keys.auth_secret);
    assert_eq!(reg2.keys.private_key, reg.keys.private_key);
    assert_eq!(reg2.keys.public_key, reg.keys.public_key);
}

#[test]
fn bad_base64_is_rejected() {
    let good_auth = b64(&[7u8; 16]);
    let good_priv = b64(&[1u8; 32]);
    let good_pub = b64(&[4u8; 65]);
    assert_eq!(
        registration_from_parts("t".to_string(), 1, 2, "%%%", &good_priv, &good_pub).unwrap_err(),
        Error::Protocol,
    );
    assert_eq!(
        registration_from_parts("t".to_string(), 1, 2, &good_auth, "not base64!", &good_pub)
            .unwrap_err(),
        Error::Protocol,
    );
}

#[test]
fn wrong_key_lengths_are_rejected() {
    let auth = b64(&[7u8; 16]);
    let privk = b64(&[1u8; 32]);
    let pubk = b64(&[4u8; 65]);
    let short_auth = b64(&[7u8; 15]);
    let short_priv = b64(&[1u8; 31]);
    let short_pub = b64(&[4u8; 33]);
    assert!(registration_from_parts("t".to_string(), 1, 2, &short_auth, &privk, &pubk).is_err());
    assert!(registration_from_parts("t".to_string(), 1, 2, &auth, &short_priv, &pubk).is_err());
    assert!(registration_from_parts("t".to_string(), 1, 2, &auth, &privk, &short_pub).is_err());
}

#[test]
fn persistent_id_set_deduplicates() {
    let mut set = PersistentIdSet::new();
    assert!(set.insert(b"a".to_vec()));
    assert!(set.insert(b"b".to_vec()));
    assert!(!set.insert(b"a".to_vec()));
    assert_eq!(set.len(), 2);
    assert!(set.contains(b"a"));
    assert!(set.contains(b"b"));
    assert!(!set.contains(b"c"));

    let rebuilt = PersistentIdSet::from_ids(vec![b"x".to_vec(), b"y".to_vec(), b"x".to_vec()]);
    assert_eq!(rebuilt.len(), 2);
    assert!(rebuilt.contains(b"x"));
    assert!(rebuilt.contains(b"y"));
}
