use session_auth::{constant_time_eq, contains_at, hash_password, text_eq};

#[test]
fn finds_the_at_sign() {
    assert!(contains_at("user@example.com"));
    assert!(contains_at("@"));
    assert!(contains_at("trailing@"));
    assert!(contains_at("gr\u{fc}\u{df}e@example.com"));
    assert!(!contains_at("alice"));
    assert!(!contains_at(""));
    assert!(!contains_at("na\u{ef}ve user"));
}

#[test]
fn compares_texts() {
    assert!(text_eq("alice", "alice"));
    assert!(text_eq("", ""));
    assert!(!text_eq("alice", "Alice"));
    assert!(!text_eq("alice", "alicf"));
    assert!(!text_eq("alice", "alic"));
    assert!(!text_eq("", "a"));
    assert!(text_eq("gr\u{fc}n", "gr\u{fc}n"));
    assert!(!text_eq("gr\u{fc}n", "grun"));
}

#[test]
fn compares_digests_without_regard_to_where_they_differ() {
    let digest = "ba7816bf8f01cfea414140de5dae2223b00361a396177a9cb410ff61f20015ad";
    assert!(constant_time_eq(digest, digest));
    assert!(constant_time_eq("", ""));
    let first = "ca7816bf8f01cfea414140de5dae2223b00361a396177a9cb410ff61f20015ad";
    let last = "ba7816bf8f01cfea414140de5dae2223b00361a396177a9cb410ff61f20015ae";
    let short = "ba7816bf8f01cfea414140de5dae2223b00361a396177a9cb410ff61f20015a";
    assert!(!constant_time_eq(digest, first));
    assert!(!constant_time_eq(digest, last));
    assert!(!constant_time_eq(digest, short));
    assert!(!constant_time_eq(short, digest));
    assert!(!constant_time_eq("", "a"));
    // Bytes that differ in one bit only.
    assert!(!constant_time_eq("a", "c"));
    assert!(!constant_time_eq("\u{80}", "\u{81}"));
}

#[test]
fn password_digest_is_sha256_in_hexadecimal() {
    assert_eq!(
        hash_password("abc"),
        "ba7816bf8f01cfea414140de5dae2223b00361a396177a9cb410ff61f20015ad"
    );
    assert_eq!(
        hash_password(""),
        "e3b0c44298fc1c149afbf4c8996fb92427ae41e4649b934ca495991b7852b855"
    );
    assert_eq!(
        hash_password("crypto-hash"),
        "fd1afb6022cd4d47c890961c533928eacfe8219f1b2524f7fb2a61847ddf8c27"
    );
}
