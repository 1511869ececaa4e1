use windowcast::directory::accounts::{Account, AccountError, AccountStore};
use windowcast::directory::certificate::{
    session_expiration_nanos, verify, CertificateError, DirectoryCa, SessionClaims,
};
use windowcast::directory::{login, LoginError};
use windowcast::identity::{Identity, PeerId};

fn test_ca() -> DirectoryCa {
    DirectoryCa::from_identity(Identity::generate())
}

fn test_account() -> Account {
    let mut store = AccountStore::new();
    store
        .create_account("alice", "hunter2000", "operator")
        .unwrap();
    store
        .verify_password("alice", "hunter2000")
        .unwrap()
        .clone()
}

#[test]
fn issues_and_verifies_a_valid_certificate() {
    let account = test_account();
    let ca = test_ca();
    let session_peer_id = [7u8; 32];
    let cert = ca
        .issue_session_certificate(&account, session_peer_id, 3600)
        .unwrap();

    let claims = verify(&ca.public_key(), &cert).unwrap();
    assert_eq!(claims.account, "alice");
    assert_eq!(claims.role, "operator");
    assert_eq!(claims.session_peer_id_bytes().unwrap(), session_peer_id);
}

#[test]
fn rejects_a_certificate_from_an_untrusted_ca() {
    let account = test_account();
    let real_ca = test_ca();
    let impostor_ca = test_ca();
    let cert = real_ca
        .issue_session_certificate(&account, [1u8; 32], 3600)
        .unwrap();

    assert!(verify(&impostor_ca.public_key(), &cert).is_err());
}

#[test]
fn rejects_a_tampered_token() {
    let account = test_account();
    let ca = test_ca();
    let mut cert = ca
        .issue_session_certificate(&account, [1u8; 32], 3600)
        .unwrap();
    let last = cert.pop().unwrap();
    cert.push(if last == 'A' { 'B' } else { 'A' });

    assert!(verify(&ca.public_key(), &cert).is_err());
}

#[test]
fn a_certificate_is_a_v4_public_token() {
    let ca = test_ca();
    let cert = ca.issue_session_certificate(&test_account(), [3u8; 32], 60).unwrap();
    assert!(cert.starts_with("v4.public."));
}

#[test]
fn a_zero_ttl_certificate_is_already_expired() {
    let ca = test_ca();
    let cert = ca.issue_session_certificate(&test_account(), [1u8; 32], 0).unwrap();
    assert!(verify(&ca.public_key(), &cert).is_err());
}

#[test]
fn an_absurd_ttl_is_a_build_error() {
    let ca = test_ca();
    assert!(matches!(
        ca.issue_session_certificate(&test_account(), [1u8; 32], u64::MAX / 2),
        Err(CertificateError::Build(_))
    ));
}

#[test]
fn session_peer_id_must_be_hex() {
    let claims = SessionClaims {
        account: "a".to_string(),
        role: "r".to_string(),
        session_peer_id: "nope".to_string(),
    };
    assert!(matches!(claims.session_peer_id_bytes(), Err(CertificateError::BadPeerId)));
}

#[test]
fn login_issues_a_certificate_only_for_the_right_password() {
    let mut accounts = AccountStore::new();
    accounts
        .create_account("alice", "hunter2000", "operator")
        .unwrap();
    let ca = test_ca();
    let session_peer_id = [42u8; 32];

    let cert = login(&accounts, &ca, "alice", "hunter2000", session_peer_id).unwrap();
    let claims = verify(&ca.public_key(), &cert).unwrap();
    assert_eq!(claims.account, "alice");
    assert_eq!(claims.session_peer_id_bytes().unwrap(), session_peer_id);

    assert!(matches!(
        login(&accounts, &ca, "alice", "wrong password", session_peer_id),
        Err(LoginError::Account(AccountError::WrongPassword))
    ));
    assert!(matches!(
        login(&accounts, &ca, "mallory", "x", session_peer_id),
        Err(LoginError::Account(AccountError::NotFound(_)))
    ));
}

#[test]
fn expiration_is_now_plus_ttl_in_nanoseconds() {
    assert_eq!(session_expiration_nanos(5, 2), Some(2_000_000_005));
    assert_eq!(
        session_expiration_nanos(0, u64::MAX),
        Some(18_446_744_073_709_551_615_000_000_000)
    );
    assert_eq!(session_expiration_nanos(i128::MAX, 1), None);
}

#[test]
fn session_claims_carry_name_role_and_hex_key() {
    let account = test_account();
    let claims = SessionClaims::for_session(&account, [0xab; 32]);
    assert_eq!(claims.account, "alice");
    assert_eq!(claims.role, "operator");
    assert_eq!(claims.session_peer_id, "ab".repeat(32));
    assert_eq!(claims.session_peer_id_bytes().unwrap(), [0xab; 32]);
}

#[test]
fn a_ttl_above_i64_max_is_a_build_error() {
    let ca = test_ca();
    assert!(matches!(
        ca.issue_session_certificate(&test_account(), [1u8; 32], (i64::MAX as u64) + 1),
        Err(CertificateError::Build(_))
    ));
    assert!(matches!(
        ca.issue_session_certificate(&test_account(), [1u8; 32], 1_000_000_000_000),
        Err(CertificateError::Build(_))
    ));
}

#[test]
fn a_short_or_foreign_token_is_invalid() {
    let ca = test_ca();
    let key = ca.public_key();
    assert!(matches!(verify(&key, "v4.public.AAAA"), Err(CertificateError::Invalid(_))));
    assert!(matches!(verify(&key, "v4.public."), Err(CertificateError::Invalid(_))));
    assert!(matches!(verify(&key, "not a token"), Err(CertificateError::Invalid(_))));
    assert!(matches!(verify(&key, ""), Err(CertificateError::Invalid(_))));
}

#[test]
fn a_token_under_another_key_of_the_same_shape_is_invalid() {
    let account = test_account();
    let ca = test_ca();
    let cert = ca.issue_session_certificate(&account, [3u8; 32], 3600).unwrap();
    assert!(cert.starts_with("v4.public."));
    // a key that is not even a curve point (y = 2)
    let mut bogus = PeerId([0u8; 32]);
    bogus.0[0] = 2;
    assert!(matches!(verify(&bogus, &cert), Err(CertificateError::Invalid(_))));
}

#[test]
fn issued_claims_round_trip_through_verify() {
    let account = test_account();
    let ca = test_ca();
    let cert = ca.issue_session_certificate(&account, [0x5a; 32], 600).unwrap();
    let claims = verify(&ca.public_key(), &cert).unwrap();
    assert_eq!(claims.account, account.username);
    assert_eq!(claims.role, account.role);
    assert_eq!(claims.session_peer_id, "5a".repeat(32));
}

#[test]
fn issuing_at_a_given_instant_succeeds_exactly_when_the_expiry_is_writable() {
    let ca = test_ca();
    let account = test_account();
    // 2023-11-14T22:13:20Z
    let now: i128 = 1_700_000_000_000_000_000;
    let token = ca
        .issue_session_certificate_at(&account, [9u8; 32], 3600, now)
        .unwrap();
    assert!(token.starts_with("v4.public."));
    // the expiry (an hour after 2023) has passed, so the parser refuses it
    assert!(matches!(verify(&ca.public_key(), &token), Err(CertificateError::Invalid(_))));
    // 9999-12-31T23:59:59Z plus one second cannot be written
    let last: i128 = 253_402_300_799_000_000_000;
    assert!(matches!(
        ca.issue_session_certificate_at(&account, [9u8; 32], 1, last),
        Err(CertificateError::Build(_))
    ));
    assert!(ca.issue_session_certificate_at(&account, [9u8; 32], 0, last).is_ok());
}

#[test]
fn login_at_a_given_instant_issues_for_the_default_lifetime() {
    let mut accounts = AccountStore::new();
    accounts.create_account("alice", "hunter2000", "operator").unwrap();
    let ca = test_ca();
    let last: i128 = 253_402_300_799_000_000_000;
    assert!(matches!(
        windowcast::directory::login_at(&accounts, &ca, "alice", "hunter2000", [1u8; 32], last),
        Err(LoginError::Certificate(CertificateError::Build(_)))
    ));
    assert!(windowcast::directory::login_at(&accounts, &ca, "alice", "hunter2000", [1u8; 32], 0).is_ok());
    assert!(matches!(
        windowcast::directory::login_at(&accounts, &ca, "alice", "nope", [1u8; 32], 0),
        Err(LoginError::Account(AccountError::WrongPassword))
    ));
}

#[test]
fn parsed_claims_need_all_three_strings() {
    use_claims_from_parsed();
}

fn use_claims_from_parsed() {
    let f = windowcast::directory::certificate::claims_from_parsed;
    let c = f(Ok((Some("a".to_string()), Some("r".to_string()), Some("s".to_string())))).unwrap();
    assert_eq!((c.account.as_str(), c.role.as_str(), c.session_peer_id.as_str()), ("a", "r", "s"));
    assert!(matches!(
        f(Ok((Some("a".to_string()), None, Some("s".to_string())))),
        Err(CertificateError::Invalid(_))
    ));
    match f(Err("bad signature".to_string())) {
        Err(CertificateError::Invalid(m)) => assert_eq!(m, "bad signature"),
        _ => panic!("a parser error is Invalid"),
    }
}

#[test]
fn session_claims_compare_field_by_field() {
    let a = SessionClaims::for_session(&test_account(), [1u8; 32]);
    let b = a.clone();
    assert_eq!(a, b);
    let c = SessionClaims { role: "viewer".to_string(), ..a.clone() };
    assert_ne!(a, c);
    let _: windowcast::directory::SessionCertificate = String::new();
}
