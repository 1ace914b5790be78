use session_auth::{generate_session_key, session_key_from_indices, SESSION_KEY_LENGTH};

#[test]
fn session_key_has_32_letters_and_digits() {
    for _ in 0..50 {
        let key = generate_session_key();
        assert_eq!(key.chars().count(), 32);
        assert_eq!(key.len(), SESSION_KEY_LENGTH);
        assert!(key.chars().all(|c| c.is_ascii_alphanumeric()));
    }
}

#[test]
fn session_keys_differ_from_call_to_call() {
    let first = generate_session_key();
    let second = generate_session_key();
    assert_ne!(first, second);
}

#[test]
fn indices_pick_from_capitals_then_small_letters_then_digits() {
    let key = session_key_from_indices(&vec![0, 25, 26, 51, 52, 61]);
    assert_eq!(key, "AZaz09");
    let key = session_key_from_indices(&vec![7, 30, 37, 37, 40, 53]);
    assert_eq!(key, "Hello1");
}

#[test]
fn all_indices_give_the_whole_alphabet() {
    let indices: Vec<usize> = (0..62).collect();
    let key = session_key_from_indices(&indices);
    assert_eq!(key, "ABCDEFGHIJKLMNOPQRSTUVWXYZabcdefghijklmnopqrstuvwxyz0123456789");
}

#[test]
fn no_indices_give_an_empty_key() {
    assert_eq!(session_key_from_indices(&Vec::new()), "");
}
