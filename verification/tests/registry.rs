use session_auth::{AuthError, Registry, UserData};

fn index_entries(registry: &Registry) -> Vec<(String, String)> {
    let map = registry.user_map();
    let mut entries = Vec::new();
    for i in 0..map.len() {
        entries.push((map.key_at(i).clone(), map.value_at(i).clone()));
    }
    entries
}

fn registry_with_alice() -> Registry {
    let mut registry = Registry::new();
    let token = registry.register(
        "alice".to_string(),
        "User@Example.com".to_string(),
        "digest-of-alice".to_string(),
        "2024-01-02 03:04:05".to_string(),
        "token-one".to_string(),
    );
    assert_eq!(token, Ok("token-one".to_string()));
    registry
}

#[test]
fn a_new_registry_has_no_users() {
    let registry = Registry::new();
    assert_eq!(registry.len(), 0);
    assert_eq!(registry.user_map().len(), 0);
    assert!(registry.records().is_empty());
    assert_eq!(registry.record("alice"), None);
}

#[test]
fn register_stores_the_record_and_the_index_entry() {
    let registry = registry_with_alice();
    assert_eq!(registry.len(), 1);
    let expected = UserData {
        username: "alice".to_string(),
        email: "User@Example.com".to_string(),
        password: "digest-of-alice".to_string(),
        date_created: "2024-01-02 03:04:05".to_string(),
        session_key: Some("token-one".to_string()),
    };
    assert_eq!(registry.record("alice"), Some(&expected));
    assert_eq!(registry.records(), &vec![expected]);
    assert_eq!(
        index_entries(&registry),
        vec![("alice".to_string(), "User@Example.com".to_string())]
    );
}

#[test]
fn registering_a_username_twice_fails_and_changes_nothing() {
    let mut registry = registry_with_alice();
    let records = registry.records().clone();
    let index = index_entries(&registry);
    let second = registry.register(
        "alice".to_string(),
        "other@example.com".to_string(),
        "another-digest".to_string(),
        "2024-02-02 00:00:00".to_string(),
        "token-two".to_string(),
    );
    assert_eq!(second, Err(AuthError::DuplicateIdentity));
    assert_eq!(registry.records(), &records);
    assert_eq!(index_entries(&registry), index);
    assert_eq!(registry.len(), 1);
}

#[test]
fn registering_an_email_that_differs_in_case_only_fails() {
    let mut registry = registry_with_alice();
    let records = registry.records().clone();
    let index = index_entries(&registry);
    let second = registry.register(
        "bob".to_string(),
        "user@example.COM".to_string(),
        "digest-of-bob".to_string(),
        "2024-02-02 00:00:00".to_string(),
        "token-two".to_string(),
    );
    assert_eq!(second, Err(AuthError::DuplicateIdentity));
    assert_eq!(registry.records(), &records);
    assert_eq!(index_entries(&registry), index);
    assert_eq!(registry.record("bob"), None);
}

#[test]
fn usernames_that_differ_in_case_are_two_users() {
    let mut registry = registry_with_alice();
    let second = registry.register(
        "Alice".to_string(),
        "alice@example.com".to_string(),
        "digest".to_string(),
        "2024-02-02 00:00:00".to_string(),
        "token-two".to_string(),
    );
    assert_eq!(second, Ok("token-two".to_string()));
    assert_eq!(registry.len(), 2);
}

#[test]
fn email_taken_ignores_case() {
    let registry = registry_with_alice();
    assert!(registry.email_taken("User@Example.com"));
    assert!(registry.email_taken("user@example.com"));
    assert!(registry.email_taken("USER@EXAMPLE.COM"));
    assert!(!registry.email_taken("user@example.org"));
    assert!(!Registry::new().email_taken("user@example.com"));
}

#[test]
fn insert_record_keeps_the_record_as_given() {
    let mut registry = Registry::new();
    let record = UserData {
        username: "dave".to_string(),
        email: "dave@example.com".to_string(),
        password: "digest".to_string(),
        date_created: "2023-12-31 23:59:59".to_string(),
        session_key: None,
    };
    assert_eq!(registry.insert_record(record.clone()), Ok(()));
    assert_eq!(registry.record("dave"), Some(&record));
    assert_eq!(registry.insert_record(record.clone()), Err(AuthError::DuplicateIdentity));
    assert_eq!(registry.len(), 1);
}

#[test]
fn lookup_resolves_an_email_to_its_user() {
    let registry = registry_with_alice();
    let found = registry.lookup_by_email_or_username("user@example.com").unwrap();
    assert_eq!(found.username, "alice");
    let found = registry.lookup_by_email_or_username("USER@example.com").unwrap();
    assert_eq!(found.username, "alice");
    assert_eq!(found.email, "User@Example.com");
}

#[test]
fn lookup_takes_a_text_without_at_sign_as_username() {
    let registry = registry_with_alice();
    let found = registry.lookup_by_email_or_username("alice").unwrap();
    assert_eq!(found.email, "User@Example.com");
    assert_eq!(registry.lookup_by_email_or_username("Alice"), Err(AuthError::NotFound));
    assert_eq!(registry.lookup_by_email_or_username("bob"), Err(AuthError::NotFound));
}

#[test]
fn lookup_fails_for_an_unknown_email() {
    let registry = registry_with_alice();
    assert_eq!(
        registry.lookup_by_email_or_username("nobody@example.com"),
        Err(AuthError::NotFound)
    );
    assert_eq!(
        Registry::new().lookup_by_email_or_username("user@example.com"),
        Err(AuthError::NotFound)
    );
}

#[test]
fn rotation_replaces_the_token_and_nothing_else() {
    let mut registry = registry_with_alice();
    let index = index_entries(&registry);
    let token = registry.verify_and_rotate_session(
        "alice",
        "digest-of-alice",
        "token-two".to_string(),
    );
    assert_eq!(token, Ok("token-two".to_string()));
    let expected = UserData {
        username: "alice".to_string(),
        email: "User@Example.com".to_string(),
        password: "digest-of-alice".to_string(),
        date_created: "2024-01-02 03:04:05".to_string(),
        session_key: Some("token-two".to_string()),
    };
    assert_eq!(registry.record("alice"), Some(&expected));
    assert_eq!(index_entries(&registry), index);
    assert_eq!(registry.len(), 1);
}

#[test]
fn rotation_leaves_the_other_users_alone() {
    let mut registry = registry_with_alice();
    registry
        .register(
            "bob".to_string(),
            "bob@example.com".to_string(),
            "digest-of-bob".to_string(),
            "2024-03-03 03:03:03".to_string(),
            "token-of-bob".to_string(),
        )
        .unwrap();
    let alice = registry.record("alice").unwrap().clone();
    registry.verify_and_rotate_session("bob", "digest-of-bob", "fresh".to_string()).unwrap();
    assert_eq!(registry.record("alice"), Some(&alice));
    assert_eq!(registry.record("bob").unwrap().session_key, Some("fresh".to_string()));
    assert_eq!(registry.records()[0].username, "alice");
    assert_eq!(registry.records()[1].username, "bob");
}

#[test]
fn a_wrong_digest_fails_and_changes_nothing() {
    let mut registry = registry_with_alice();
    let records = registry.records().clone();
    let index = index_entries(&registry);
    let outcome = registry.verify_and_rotate_session(
        "alice",
        "digest-of-alicf",
        "token-two".to_string(),
    );
    assert_eq!(outcome, Err(AuthError::InvalidCredentials));
    let outcome = registry.verify_and_rotate_session("alice", "", "token-two".to_string());
    assert_eq!(outcome, Err(AuthError::InvalidCredentials));
    assert_eq!(registry.records(), &records);
    assert_eq!(index_entries(&registry), index);
}

#[test]
fn rotation_for_an_unknown_user_fails_and_changes_nothing() {
    let mut registry = registry_with_alice();
    let records = registry.records().clone();
    let outcome = registry.verify_and_rotate_session(
        "bob",
        "digest-of-alice",
        "token-two".to_string(),
    );
    assert_eq!(outcome, Err(AuthError::NotFound));
    assert_eq!(registry.records(), &records);
}

#[test]
fn fifty_registrations_give_fifty_records_and_fifty_index_entries() {
    let mut registry = Registry::new();
    for i in 0..50 {
        let token = registry.register(
            format!("user{}", i),
            format!("user{}@example.com", i),
            format!("digest{}", i),
            "2024-01-01 00:00:00".to_string(),
            format!("token{}", i),
        );
        assert_eq!(token, Ok(format!("token{}", i)));
    }
    assert_eq!(registry.len(), 50);
    assert_eq!(registry.records().len(), 50);
    assert_eq!(registry.user_map().len(), 50);
    for i in 0..50 {
        let name = format!("user{}", i);
        let record = registry.record(&name).unwrap();
        assert_eq!(record.email, format!("user{}@example.com", i));
        assert_eq!(record.session_key, Some(format!("token{}", i)));
        assert_eq!(registry.user_map().get(&name), Some(&format!("user{}@example.com", i)));
    }
}

#[test]
fn emails_are_compared_by_their_lower_case_forms() {
    // A capital sigma at the end of a word becomes a final sigma in lower
    // case, so these two addresses have different lower-case forms.
    let mut registry = Registry::new();
    let first = registry.register(
        "first".to_string(),
        "\u{39f}\u{394}\u{39f}\u{3a3}@example.com".to_string(),
        "digest".to_string(),
        "2024-01-01 00:00:00".to_string(),
        "token-one".to_string(),
    );
    assert_eq!(first, Ok("token-one".to_string()));
    assert!(registry.email_taken("\u{3bf}\u{3b4}\u{3bf}\u{3c2}@example.com"));
    assert!(!registry.email_taken("\u{3bf}\u{3b4}\u{3bf}\u{3c3}@example.com"));
    let second = registry.register(
        "second".to_string(),
        "\u{3bf}\u{3b4}\u{3bf}\u{3c3}@example.com".to_string(),
        "digest".to_string(),
        "2024-01-01 00:00:00".to_string(),
        "token-two".to_string(),
    );
    assert_eq!(second, Ok("token-two".to_string()));
}
