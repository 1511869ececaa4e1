use windowcast::directory::accounts::{Account, AccountError, AccountStore};

#[test]
fn creates_and_verifies_an_account() {
    let mut store = AccountStore::new();
    store
        .create_account("alice", "correct horse battery staple", "operator")
        .unwrap();

    assert!(store
        .verify_password("alice", "correct horse battery staple")
        .is_ok());
    assert!(matches!(
        store.verify_password("alice", "wrong"),
        Err(AccountError::WrongPassword)
    ));
    assert!(matches!(
        store.verify_password("bob", "anything"),
        Err(AccountError::NotFound(_))
    ));
}

#[test]
fn revoked_account_fails_login() {
    let mut store = AccountStore::new();
    store
        .create_account("alice", "hunter2000", "viewer")
        .unwrap();
    store.revoke("alice").unwrap();
    assert!(matches!(
        store.verify_password("alice", "hunter2000"),
        Err(AccountError::WrongPassword)
    ));
}

#[test]
fn an_existing_name_is_refused() {
    let mut store = AccountStore::new();
    store.create_account("alice", "pw1", "viewer").unwrap();
    match store.create_account("alice", "pw2", "operator") {
        Err(AccountError::AlreadyExists(name)) => assert_eq!(name, "alice"),
        other => panic!("unexpected {:?}", other),
    }
    // the first account is untouched
    let account = store.verify_password("alice", "pw1").unwrap();
    assert_eq!(account.role, "viewer");
    assert!(store.verify_password("alice", "pw2").is_err());
}

#[test]
fn revoking_an_unknown_account_is_not_found() {
    let mut store = AccountStore::new();
    match store.revoke("nobody") {
        Err(AccountError::NotFound(name)) => assert_eq!(name, "nobody"),
        other => panic!("unexpected {:?}", other),
    }
}

#[test]
fn the_stored_hash_is_argon2id_and_not_the_password() {
    let mut store = AccountStore::new();
    store.create_account("alice", "hunter2000", "operator").unwrap();
    let account = store.verify_password("alice", "hunter2000").unwrap();
    assert!(account.password_hash().starts_with("$argon2id$"));
    assert!(!account.password_hash().contains("hunter2000"));
    assert_eq!(account.username(), "alice");
    assert!(!account.is_revoked());
}

#[test]
fn a_corrupt_stored_hash_is_reported() {
    let mut store = AccountStore::new();
    store.insert_entry(
        "carol".to_string(),
        Account::from_parts("carol".to_string(), "not a phc string".to_string(), "viewer".to_string(), false),
    );
    assert!(matches!(store.verify_password("carol", "x"), Err(AccountError::Hash(_))));
}

#[test]
fn list_and_entries_hold_every_account_once() {
    let mut store = AccountStore::new();
    store.create_account("alice", "a", "operator").unwrap();
    store.create_account("bob", "b", "viewer").unwrap();
    let mut names: Vec<String> = store.list().iter().map(|a| a.username.clone()).collect();
    names.sort();
    assert_eq!(names, vec!["alice".to_string(), "bob".to_string()]);
    assert_eq!(store.entries().len(), 2);
}

#[test]
fn entries_reload_into_an_equal_store() {
    let mut store = AccountStore::new();
    store.create_account("alice", "hunter2000", "operator").unwrap();
    let mut reloaded = AccountStore::new();
    for (key, account) in store.entries() {
        reloaded.insert_entry(key.clone(), account.clone());
    }
    assert!(reloaded.verify_password("alice", "hunter2000").is_ok());
}

#[test]
fn a_default_store_is_empty() {
    let store = windowcast::directory::accounts::AccountStore::default();
    assert!(store.list().is_empty());
}

#[test]
fn list_gives_each_entry_once_even_when_two_are_alike() {
    let mut store = AccountStore::new();
    store.create_account("alice", "pw", "viewer").unwrap();
    store.create_account("bob", "pw", "viewer").unwrap();
    let listed = store.list();
    assert_eq!(listed.len(), 2);
    let mut names: Vec<&str> = listed.iter().map(|a| a.username.as_str()).collect();
    names.sort();
    assert_eq!(names, vec!["alice", "bob"]);
}
