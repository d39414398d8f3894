use backend::secrets::SecretBox;
use base64::engine::general_purpose::STANDARD;
use base64::Engine;

#[test]
fn round_trips_a_secret() {
    let vault = SecretBox::new([7u8; 32]);
    let token = vault.encrypt("moonraker-api-key");
    assert!(!token.contains("moonraker-api-key"));
    assert_eq!(vault.decrypt(&token).as_deref(), Some("moonraker-api-key"));
}

#[test]
fn distinct_ciphertexts_for_same_plaintext() {
    let vault = SecretBox::new([9u8; 32]);
    assert_ne!(vault.encrypt("same"), vault.encrypt("same"));
}

#[test]
fn wrong_key_or_garbage_fails_cleanly() {
    let a = SecretBox::new([1u8; 32]);
    let b = SecretBox::new([2u8; 32]);
    let token = a.encrypt("secret");
    assert!(b.decrypt(&token).is_none());
    assert!(a.decrypt("pas-du-base64!!").is_none());
    assert!(a.decrypt("").is_none());
}

#[test]
fn surrounding_whitespace_of_a_token_is_ignored() {
    let vault = SecretBox::new([3u8; 32]);
    let token = format!("  {}\n", vault.encrypt("clé"));
    assert_eq!(vault.decrypt(&token).as_deref(), Some("clé"));
}

#[test]
fn a_short_token_is_refused() {
    let vault = SecretBox::new([3u8; 32]);
    // Valid base64 of fewer than 12 bytes: no nonce.
    assert!(vault.decrypt("AAAA").is_none());
}

#[test]
fn instance_key_comes_from_the_setting_or_the_development_key() {
    let key = [5u8; 32];
    let encoded = "BQUFBQUFBQUFBQUFBQUFBQUFBQUFBQUFBQUFBQUFBQU=";
    let configured = SecretBox::from_setting(Some(encoded));
    let token = SecretBox::new(key).encrypt("x");
    assert_eq!(configured.decrypt(&token).as_deref(), Some("x"));

    let dev = SecretBox::new(*b"web-slicer-dev-instance-key-0001");
    let token = dev.encrypt("y");
    for fallback in [SecretBox::from_setting(None), SecretBox::from_setting(Some("court"))] {
        assert_eq!(fallback.decrypt(&token).as_deref(), Some("y"));
    }
}

#[test]
fn token_holds_nonce_ciphertext_and_tag() {
    let vault = SecretBox::new([9u8; 32]);
    for p in ["", "same", "moonraker-api-key"] {
        let token = vault.encrypt(p);
        let bytes = STANDARD.decode(token.as_bytes()).unwrap();
        assert_eq!(bytes.len(), 12 + p.len() + 16);
    }
}
