use mijn_bussie::secret::Secret;

#[test]
fn encrypt_then_decrypt_is_identity() {
    let key = "SECRET-REDACTED";
    let stored = Secret::encrypt_value(key, "wachtwoord123").expect("encryption succeeds");
    let back = Secret::decrypt_value(key, &stored).expect("decryption succeeds");
    assert_eq!(back, "wachtwoord123");
}

#[test]
fn encryption_is_salted() {
    // Two encryptions of the same value differ (a fresh nonce each time),
    // yet both decrypt back.
    let key = "k";
    let a = Secret::encrypt_value(key, "value").unwrap();
    let b = Secret::encrypt_value(key, "value").unwrap();
    assert_ne!(a, b);
    assert_eq!(Secret::decrypt_value(key, &a).unwrap(), "value");
    assert_eq!(Secret::decrypt_value(key, &b).unwrap(), "value");
}

#[test]
fn wrong_key_fails_to_decrypt() {
    let stored = Secret::encrypt_value("key-one", "geheim").unwrap();
    assert!(Secret::decrypt_value("key-two", &stored).is_none());
}

#[test]
fn oversized_key_is_refused() {
    let long_key = "x".repeat(33);
    assert!(Secret::encrypt_value(&long_key, "value").is_none());
}

#[test]
fn garbage_fails_to_decrypt() {
    assert!(Secret::decrypt_value("key", "niet eens base64 !!!").is_none());
    assert!(Secret::decrypt_value("key", "AAAA").is_none());
}

#[test]
fn secret_exposes_its_plaintext() {
    let secret = Secret::new("verborgen".to_owned());
    assert_eq!(secret.expose_secret(), "verborgen");
    assert_eq!(secret.dup().expose_secret(), "verborgen");
}

#[test]
fn unicode_round_trip() {
    let key = "sleutel";
    let value = "s\u{fc}\u{df} \u{20ac}uro tekst";
    let stored = Secret::encrypt_value(key, value).unwrap();
    assert_eq!(Secret::decrypt_value(key, &stored).unwrap(), value);
}
