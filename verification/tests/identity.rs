use windowcast::identity::{load_or_generate_identity, LoadedIdentity, StoredIdentity};
use windowcast::identity::{verify, Identity, IdentityError, PeerId, TrustStore};

#[test]
fn signs_and_verifies() {
    let identity = Identity::generate();
    let sig = identity.sign(b"hello");
    assert!(verify(&identity.peer_id(), b"hello", &sig));
    assert!(!verify(&identity.peer_id(), b"tampered", &sig));
}

#[test]
fn peer_id_hex_round_trips() {
    let identity = Identity::generate();
    let hex = identity.peer_id().to_hex();
    assert_eq!(PeerId::from_hex(&hex).unwrap(), identity.peer_id());
}

#[test]
fn trust_store_pin_and_revoke() {
    let peer = Identity::generate().peer_id();
    let mut store = TrustStore::default();
    assert!(!store.is_pinned(&peer));
    store.pin(peer);
    assert!(store.is_pinned(&peer));
    store.revoke(&peer);
    assert!(!store.is_pinned(&peer));
}

#[test]
fn hex_is_lower_case_two_digits_per_byte() {
    let mut bytes = [0u8; 32];
    bytes[0] = 0x0a;
    bytes[1] = 0xff;
    bytes[31] = 0x10;
    let hex = PeerId(bytes).to_hex();
    assert_eq!(hex.len(), 64);
    assert!(hex.starts_with("0aff00"));
    assert!(hex.ends_with("10"));
}

#[test]
fn from_hex_accepts_upper_case_and_rejects_bad_text() {
    let upper = "AB".repeat(32);
    assert_eq!(PeerId::from_hex(&upper).unwrap(), PeerId([0xab; 32]));
    assert!(matches!(PeerId::from_hex("ab"), Err(IdentityError::Corrupt)));
    assert!(matches!(PeerId::from_hex(&"zz".repeat(32)), Err(IdentityError::Corrupt)));
    assert!(matches!(PeerId::from_hex(&"é".repeat(64)), Err(IdentityError::Corrupt)));
}

#[test]
fn from_hex_reads_a_plus_sign_as_from_str_radix_does() {
    // u8::from_str_radix("+a", 16) == Ok(10)
    let text = "+a".repeat(32);
    assert_eq!(PeerId::from_hex(&text).unwrap(), PeerId([0x0a; 32]));
}

#[test]
fn trust_store_text_round_trips() {
    let a = Identity::generate().peer_id();
    let b = Identity::generate().peer_id();
    let mut store = TrustStore::new();
    store.pin(a);
    store.pin(b);
    store.pin(a);
    let text = store.to_file_contents();
    assert_eq!(text.lines().count(), 2);
    let reloaded = TrustStore::from_file_contents(&text).unwrap();
    assert!(reloaded.is_pinned(&a));
    assert!(reloaded.is_pinned(&b));
}

#[test]
fn trust_store_text_skips_blank_lines_and_trims() {
    let a = PeerId([1; 32]);
    let text = format!("\n   \n  {}  \r\n\n", a.to_hex());
    let store = TrustStore::from_file_contents(&text).unwrap();
    assert!(store.is_pinned(&a));
    assert!(!store.is_pinned(&PeerId([2; 32])));
    assert!(matches!(
        TrustStore::from_file_contents("not a key\n"),
        Err(IdentityError::Corrupt)
    ));
    let empty = TrustStore::from_file_contents("").unwrap();
    assert!(!empty.is_pinned(&a));
}

#[test]
fn identity_round_trips_through_its_secret_bytes() {
    let first = Identity::generate();
    let bytes = first.secret_key_bytes();
    let second = Identity::from_secret_key_bytes(&bytes).unwrap();
    assert_eq!(first.peer_id(), second.peer_id());
    assert!(matches!(
        Identity::from_secret_key_bytes(&[0u8; 31]),
        Err(IdentityError::Corrupt)
    ));
}

#[test]
fn keypair_bytes_are_secret_then_public() {
    let identity = Identity::generate();
    let keypair = identity.to_keypair_bytes();
    assert_eq!(&keypair[..32], &identity.secret_key_bytes()[..]);
    assert_eq!(&keypair[32..], &identity.peer_id().0[..]);
}

#[test]
fn peer_id_converts_to_and_from_a_verifying_key() {
    let peer = Identity::generate().peer_id();
    let key = peer.to_verifying_key().unwrap();
    assert_eq!(PeerId::from_verifying_key(&key), peer);
    // y = 2 is not the y-coordinate of any curve point
    let mut bad = [0u8; 32];
    bad[0] = 2;
    assert!(matches!(PeerId(bad).to_verifying_key(), Err(IdentityError::Corrupt)));
    assert!(!verify(&PeerId(bad), b"hello", &Identity::generate().sign(b"hello")));
}

#[test]
fn signature_is_deterministic() {
    let identity = Identity::generate();
    assert_eq!(identity.sign(b"m"), identity.sign(b"m"));
    assert_ne!(identity.sign(b"m"), identity.sign(b"n"));
}

#[test]
fn rfc8032_first_test_vector() {
    fn unhex(s: &str) -> Vec<u8> {
        (0..s.len() / 2).map(|i| u8::from_str_radix(&s[2 * i..2 * i + 2], 16).unwrap()).collect()
    }
    let secret = unhex("9d61b19deffd5a60ba844af492ec2cc44449c5697b326919703bac031cae7f60");
    let public = unhex("d75a980182b10ab7d54bfed3c964073a0ee172f3daa62325af021a68f707511a");
    let signature = unhex(
        "e5564300c360ac729086e2cc806e828a84877f1eb8e5d974d873e065224901555fb8821590a33bacc61e39701cf9b46bd25bf5f0595bbe24655141438e7a100b",
    );
    let identity = Identity::from_secret_key_bytes(&secret).unwrap();
    assert_eq!(&identity.peer_id().0[..], &public[..]);
    let sig = identity.sign(b"");
    assert_eq!(&sig.0[..], &signature[..]);
    assert!(verify(&identity.peer_id(), b"", &sig));
}

#[test]
fn loading_a_stored_identity_keeps_it() {
    let original = windowcast::identity::Identity::generate();
    let stored = StoredIdentity::Found(original.secret_key_bytes().to_vec());
    match load_or_generate_identity(stored) {
        Ok(LoadedIdentity::Existing(id)) => assert_eq!(id.peer_id(), original.peer_id()),
        _ => panic!("a stored identity must be loaded"),
    }
    assert!(matches!(
        load_or_generate_identity(StoredIdentity::Found(vec![1, 2, 3])),
        Err(windowcast::identity::IdentityError::Corrupt)
    ));
    assert!(matches!(
        load_or_generate_identity(StoredIdentity::Missing),
        Ok(LoadedIdentity::Fresh(_))
    ));
    let unreadable = std::io::Error::new(std::io::ErrorKind::PermissionDenied, "denied");
    assert!(matches!(
        load_or_generate_identity(StoredIdentity::Unreadable(unreadable)),
        Err(windowcast::identity::IdentityError::Io(_))
    ));
}

#[test]
fn verify_refuses_a_key_that_is_not_a_point() {
    let identity = windowcast::identity::Identity::generate();
    let sig = identity.sign(b"hello");
    let mut bogus = windowcast::identity::PeerId([0u8; 32]);
    bogus.0[0] = 2;
    assert!(!windowcast::identity::verify(&bogus, b"hello", &sig));
}

#[test]
fn a_verifying_key_and_its_peer_id_round_trip() {
    let identity = Identity::generate();
    let p = identity.peer_id();
    let key = p.to_verifying_key().unwrap();
    assert_eq!(PeerId::from_verifying_key(&key), p);
    assert_eq!(PeerId::from_verifying_key(&key).to_verifying_key().unwrap(), key);
        // y = 2 is not the y-coordinate of any Edwards25519 point
    let mut not_a_point = [0u8; 32];
    not_a_point[0] = 2;
    assert!(matches!(PeerId(not_a_point).to_verifying_key(), Err(IdentityError::Corrupt)));
}
