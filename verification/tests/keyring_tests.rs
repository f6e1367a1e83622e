use rauthp::keyring::{Keyring, KeyringError, Secret};

#[test]
fn secret_holds_name_and_value() {
    let s = Secret::new("alice", "ABCD2345");
    assert_eq!(s.name(), "alice");
    assert_eq!(s.secret(), "ABCD2345");
}

#[test]
fn keyring_error_carries_its_message() {
    let e = KeyringError::from_slice("Too many results");
    assert_eq!(e.message(), "Too many results");
    let e = KeyringError::from_string(String::from("no backend"));
    assert_eq!(e.message(), "no backend");
}

#[test]
fn collect_secrets_of_nothing_is_empty() {
    let out = Keyring::collect_secrets(Vec::new()).unwrap();
    assert_eq!(out.len(), 0);
}

#[test]
fn collect_secrets_returns_every_complete_entry() {
    let parts = vec![
        (Some(String::from("alice")), Some(String::from("MY======"))),
        (Some(String::from("bob")), Some(String::from("MZXW6==="))),
        (Some(String::from("carol")), Some(String::from("AB======"))),
    ];
    let out = Keyring::collect_secrets(parts).unwrap();
    assert_eq!(out.len(), 3);
    assert_eq!(out[0].name(), "alice");
    assert_eq!(out[0].secret(), "MY======");
    assert_eq!(out[1].name(), "bob");
    assert_eq!(out[1].secret(), "MZXW6===");
    assert_eq!(out[2].name(), "carol");
    assert_eq!(out[2].secret(), "AB======");
}

#[test]
fn collect_secrets_fails_on_a_missing_value() {
    let parts = vec![
        (Some(String::from("alice")), Some(String::from("MY======"))),
        (Some(String::from("bob")), None),
    ];
    let err = Keyring::collect_secrets(parts).unwrap_err();
    assert_eq!(err.message(), "Failed to retrieve the value of a secret");
}

#[test]
fn collect_secrets_fails_on_a_missing_name() {
    let parts = vec![(None, Some(String::from("MY======")))];
    let err = Keyring::collect_secrets(parts).unwrap_err();
    assert_eq!(err.message(), "Failed to retrieve the name of a secret");
}

#[test]
fn lookup_with_no_match_is_none() {
    assert!(Keyring::resolve_lookup("alice", 0, None).unwrap().is_none());
}

#[test]
fn lookup_with_one_match_returns_the_secret() {
    let found = Keyring::resolve_lookup("alice", 1, Some(String::from("ABCD2345")))
        .unwrap()
        .unwrap();
    assert_eq!(found.name(), "alice");
    assert_eq!(found.secret(), "ABCD2345");
}

#[test]
fn lookup_with_several_matches_is_an_inconsistency() {
    let err = Keyring::resolve_lookup("alice", 2, None).unwrap_err();
    assert_eq!(err.message(), "Too many results");
}

#[test]
fn lookup_with_an_unreadable_payload_fails() {
    let err = Keyring::resolve_lookup("alice", 1, None).unwrap_err();
    assert_eq!(err.message(), "Failed to read the value of the secret");
}

#[test]
fn store_decision_rejects_a_taken_name() {
    let found = Some(Secret::new("alice", "MY======"));
    let err = Keyring::resolve_store(Ok(found)).unwrap_err();
    assert_eq!(err.message(), "Secret already exists");
}

#[test]
fn store_decision_accepts_a_free_name() {
    assert!(Keyring::resolve_store(Ok(None)).is_ok());
}

#[test]
fn store_decision_propagates_a_failed_check() {
    let pre_check = Err(KeyringError::from_slice("no backend"));
    let err = Keyring::resolve_store(pre_check).unwrap_err();
    assert_eq!(err.message(), "no backend");
}

#[test]
fn store_round_trip_where_a_secret_service_runs() {
    // The full round trip needs the platform secret service; without one,
    // acquiring the connection fails and there is nothing to exercise.
    let keyring = match Keyring::new() {
        Ok(k) => k,
        Err(_) => return,
    };
    let name = "rauthp-test-round-trip";
    let _ = keyring.delete_secret(name);
    keyring.store_secret(name, "ABCD2345").unwrap();
    let found = keyring.get_secret(name).unwrap().unwrap();
    assert_eq!(found.name(), name);
    assert_eq!(found.secret(), "ABCD2345");
    let dup = keyring.store_secret(name, "AB======").unwrap_err();
    assert_eq!(dup.message(), "Secret already exists");
    keyring.delete_secret(name).unwrap();
    assert!(keyring.get_secret(name).unwrap().is_none());
}
