use hmac::Mac;
use windowcast::pairing::{
    authenticate_fingerprint, finish, generate_pin, pin_from_number, start_client, start_host,
    verify_fingerprint, PairingError,
};

#[test]
fn matching_pin_derives_a_session_key_both_sides_agree_on() {
    let pin = "123456";
    let client = start_client(pin);
    let host = start_host(pin);
    let client_msg = client.outbound_message.clone();
    let host_msg = host.outbound_message.clone();

    let client_key = finish(client, &host_msg).unwrap();
    let host_key = finish(host, &client_msg).unwrap();

    let fingerprint = b"fake-dtls-fingerprint";
    let tag = authenticate_fingerprint(&client_key, fingerprint);
    assert!(verify_fingerprint(&host_key, fingerprint, &tag).is_ok());
}

#[test]
fn mismatched_pin_fails_fingerprint_authentication() {
    let client = start_client("111111");
    let host = start_host("222222");
    let client_msg = client.outbound_message.clone();
    let host_msg = host.outbound_message.clone();

    let client_key = finish(client, &host_msg).unwrap();
    let host_key = finish(host, &client_msg).unwrap();

    let fingerprint = b"fake-dtls-fingerprint";
    let tag = authenticate_fingerprint(&client_key, fingerprint);
    assert!(verify_fingerprint(&host_key, fingerprint, &tag).is_err());
}

#[test]
fn pin_is_six_digits() {
    let pin = generate_pin();
    assert_eq!(pin.len(), 6);
    assert!(pin.chars().all(|c| c.is_ascii_digit()));
}

#[test]
fn pin_is_zero_padded() {
    assert_eq!(pin_from_number(0), "000000");
    assert_eq!(pin_from_number(42), "000042");
    assert_eq!(pin_from_number(999_999), "999999");
    assert_eq!(pin_from_number(123_456), "123456");
}

#[test]
fn messages_carry_their_side() {
    let client = start_client("1");
    let host = start_host("1");
    assert_eq!(client.outbound_message.len(), 33);
    assert_eq!(client.outbound_message[0], b'A');
    assert_eq!(host.outbound_message.len(), 33);
    assert_eq!(host.outbound_message[0], b'B');
}

#[test]
fn a_short_peer_message_fails_the_exchange() {
    let client = start_client("123456");
    assert!(matches!(finish(client, &[0x42; 5]), Err(PairingError::KeyExchangeFailed)));
    let host = start_host("123456");
    let client = start_client("123456");
    // a message from the same side is refused too
    let client_msg = client.outbound_message.clone();
    let other_client = start_client("123456");
    assert!(matches!(finish(other_client, &client_msg), Err(PairingError::KeyExchangeFailed)));
    drop(host);
}

#[test]
fn a_tampered_fingerprint_fails_authentication() {
    let client = start_client("654321");
    let host = start_host("654321");
    let client_msg = client.outbound_message.clone();
    let host_msg = host.outbound_message.clone();
    let client_key = finish(client, &host_msg).unwrap();
    let host_key = finish(host, &client_msg).unwrap();
    let tag = authenticate_fingerprint(&client_key, b"sha-256 AA:BB");
    assert!(matches!(
        verify_fingerprint(&host_key, b"sha-256 AA:BC", &tag),
        Err(PairingError::FingerprintAuthFailed)
    ));
    assert!(verify_fingerprint(&host_key, b"sha-256 AA:BB", &tag).is_ok());
}

#[test]
fn session_key_is_hkdf_and_tag_is_hmac() {
    let raw = [7u8; 32];
    let key = windowcast::pairing::derive_session_key(&raw);
    let tag = authenticate_fingerprint(&key, b"fingerprint");

    let hk = hkdf::Hkdf::<sha2::Sha256>::new(None, &raw);
    let mut expected_key = [0u8; 32];
    hk.expand(b"windowcast-pairing-session-key-v1", &mut expected_key).unwrap();
    let mut mac = <hmac::Hmac<sha2::Sha256> as Mac>::new_from_slice(&expected_key).unwrap();
    mac.update(b"fingerprint");
    let expected_tag: [u8; 32] = mac.finalize().into_bytes().into();
    assert_eq!(tag, expected_tag);
    assert_ne!(expected_key, raw);
}

#[test]
fn a_wrong_side_byte_or_a_bad_point_fails_the_exchange() {
    let host = start_host("123456");
    let mut msg = host.outbound_message.clone();
    msg[0] = b'S';
    let client = start_client("123456");
    assert!(matches!(finish(client, &msg), Err(PairingError::KeyExchangeFailed)));

    // y = 2 is not the y-coordinate of any Edwards25519 point
    let mut bad = vec![b'B'];
    bad.push(2);
    bad.extend_from_slice(&[0u8; 31]);
    let client = start_client("123456");
    assert!(matches!(finish(client, &bad), Err(PairingError::KeyExchangeFailed)));
}

#[test]
fn a_wrong_pin_still_finishes_but_the_keys_differ() {
    let client = start_client("000001");
    let host = start_host("000002");
    let client_msg = client.outbound_message.clone();
    let host_msg = host.outbound_message.clone();
    let client_key = finish(client, &host_msg);
    let host_key = finish(host, &client_msg);
    assert!(client_key.is_ok());
    assert!(host_key.is_ok());
    let fingerprint = b"fp";
    let tag = authenticate_fingerprint(&client_key.unwrap(), fingerprint);
    assert!(matches!(
        verify_fingerprint(&host_key.unwrap(), fingerprint, &tag),
        Err(PairingError::FingerprintAuthFailed)
    ));
}

#[test]
fn a_draw_is_reduced_below_one_million() {
    assert_eq!(windowcast::pairing::pin_from_draw(1_000_042), "000042");
    assert_eq!(windowcast::pairing::pin_from_draw(999_999), "999999");
    assert_eq!(windowcast::pairing::pin_from_draw(u32::MAX), "967295");
}
