use otp::config::{SecretLocation, TotpOptions};
use otp::secrets::{get_secret, keychain_account, store_secret, Keychain, KEYCHAIN_SERVICE};
use otp::{ErrorKind, TokenAlgorithm, TotpError};

#[test]
fn inline_record_gives_its_secret() {
    let record = TotpOptions::new_config_stored_secret(
        "A SECRET".to_string(),
        TokenAlgorithm::TotpSha1,
    );
    let keychain = Keychain::new();
    assert_eq!(get_secret("test", &record, &keychain), Ok("A SECRET".to_string()));
}

#[test]
fn inline_record_without_secret_fails_with_missing_inline_secret() {
    let keychain = Keychain::new();
    let missing = Err(TotpError::of(ErrorKind::MissingInlineSecret));
    let record = TotpOptions::new(
        Some(SecretLocation::Config),
        None,
        Some(TokenAlgorithm::TotpSha1),
    );
    assert_eq!(get_secret("test", &record, &keychain), missing);
    let bare = TotpOptions::new(None, None, None);
    assert_eq!(get_secret("test", &bare, &keychain), missing);
}

#[test]
fn inline_record_does_not_look_into_the_keychain() {
    let mut keychain = Keychain::new();
    keychain.set_password("test", "FROM KEYCHAIN");
    let record = TotpOptions::new(Some(SecretLocation::Config), None, None);
    assert_eq!(
        get_secret("test", &record, &keychain),
        Err(TotpError::of(ErrorKind::MissingInlineSecret))
    );
    let inline = TotpOptions::new(None, Some("INLINE".to_string()), None);
    assert_eq!(get_secret("test", &inline, &keychain), Ok("INLINE".to_string()));
}

#[test]
fn keychain_record_gives_the_secret_of_its_name() {
    let mut keychain = Keychain::new();
    keychain.set_password("work", "WORK SECRET");
    keychain.set_password("home", "HOME SECRET");
    let record = TotpOptions::new_keychain_stored_secret(TokenAlgorithm::TotpSha1);
    assert_eq!(get_secret("work", &record, &keychain), Ok("WORK SECRET".to_string()));
    assert_eq!(get_secret("home", &record, &keychain), Ok("HOME SECRET".to_string()));
}

#[test]
fn keychain_record_without_entry_fails_with_secret_unavailable() {
    let mut keychain = Keychain::new();
    let record = TotpOptions::new_keychain_stored_secret(TokenAlgorithm::TotpSha1);
    let unavailable = Err(TotpError::of(ErrorKind::SecretUnavailable));
    assert_eq!(get_secret("work", &record, &keychain), unavailable);
    keychain.set_password("home", "HOME SECRET");
    assert_eq!(get_secret("work", &record, &keychain), unavailable);
    // A secret in the record does not stand in for the one in the keychain.
    let odd = TotpOptions::new(
        Some(SecretLocation::KeyChain),
        Some("INLINE".to_string()),
        None,
    );
    assert_eq!(get_secret("work", &odd, &keychain), unavailable);
}

#[test]
fn store_inline_embeds_the_secret() {
    let mut keychain = Keychain::new();
    let record = store_secret(
        "test",
        "A SECRET",
        TokenAlgorithm::TotpSha1,
        SecretLocation::Config,
        &mut keychain,
    );
    assert_eq!(record.storage(), Some(&SecretLocation::Config));
    assert_eq!(record.secret(), Some(&"A SECRET".to_string()));
    assert_eq!(record.algorithm(), TokenAlgorithm::TotpSha1);
    assert_eq!(keychain.len(), 0);
    assert_eq!(keychain.get_password("test"), None);
}

#[test]
fn store_in_keychain_embeds_nothing() {
    let mut keychain = Keychain::new();
    let record = store_secret(
        "test",
        "A SECRET",
        TokenAlgorithm::SToken,
        SecretLocation::KeyChain,
        &mut keychain,
    );
    assert_eq!(record.storage(), Some(&SecretLocation::KeyChain));
    assert_eq!(record.secret(), None);
    assert_eq!(record.algorithm(), TokenAlgorithm::SToken);
    assert_eq!(keychain.len(), 1);
    assert_eq!(keychain.get_password("test"), Some(&"A SECRET".to_string()));
    assert_eq!(keychain.entry_at(0), (&"test".to_string(), &"A SECRET".to_string()));
}

#[test]
fn stored_secret_is_found_again() {
    for location in [SecretLocation::Config, SecretLocation::KeyChain] {
        let mut keychain = Keychain::new();
        keychain.set_password("other", "OTHER");
        let record = store_secret(
            "test",
            "JBSWY3DPEHPK3PXP",
            TokenAlgorithm::TotpSha1,
            location,
            &mut keychain,
        );
        assert_eq!(
            get_secret("test", &record, &keychain),
            Ok("JBSWY3DPEHPK3PXP".to_string())
        );
        assert_eq!(keychain.get_password("other"), Some(&"OTHER".to_string()));
    }
}

#[test]
fn migration_keeps_the_secret() {
    // From the record to the keychain, and back.
    let mut keychain = Keychain::new();
    let inline = TotpOptions::new_config_stored_secret(
        "JBSWY3DPEHPK3PXP".to_string(),
        TokenAlgorithm::TotpSha1,
    );
    let secret = get_secret("test", &inline, &keychain).unwrap();
    let moved = store_secret(
        "test",
        &secret,
        inline.algorithm(),
        SecretLocation::KeyChain,
        &mut keychain,
    );
    assert_eq!(moved.secret(), None);
    assert_eq!(moved.storage(), Some(&SecretLocation::KeyChain));
    assert_eq!(get_secret("test", &moved, &keychain), Ok(secret.clone()));

    let again = get_secret("test", &moved, &keychain).unwrap();
    let back = store_secret(
        "test",
        &again,
        moved.algorithm(),
        SecretLocation::Config,
        &mut keychain,
    );
    assert_eq!(back, inline);
    assert_eq!(get_secret("test", &back, &keychain), Ok(secret));
}

#[test]
fn keychain_replaces_the_secret_of_an_account() {
    let mut keychain = Keychain::new();
    keychain.set_password("a", "1");
    keychain.set_password("b", "2");
    keychain.set_password("a", "3");
    assert_eq!(keychain.len(), 2);
    assert_eq!(keychain.get_password("a"), Some(&"3".to_string()));
    assert_eq!(keychain.get_password("b"), Some(&"2".to_string()));
    assert_eq!(keychain.get_password("c"), None);
    assert_eq!(keychain.entry_at(0), (&"a".to_string(), &"3".to_string()));
    assert_eq!(keychain.entry_at(1), (&"b".to_string(), &"2".to_string()));
}

#[test]
fn keychain_service_is_fixed() {
    assert_eq!(KEYCHAIN_SERVICE, "urn:otpcli");
}

#[test]
fn keychain_account_is_the_name_of_a_record_in_the_keychain() {
    let in_keychain = TotpOptions::new_keychain_stored_secret(TokenAlgorithm::TotpSha1);
    assert_eq!(keychain_account("work", &in_keychain), Some("work"));
    let odd = TotpOptions::new(Some(SecretLocation::KeyChain), Some("X".to_string()), None);
    assert_eq!(keychain_account("home", &odd), Some("home"));
    let inline = TotpOptions::new_config_stored_secret("X".to_string(), TokenAlgorithm::SToken);
    assert_eq!(keychain_account("work", &inline), None);
    let bare = TotpOptions::new(None, None, None);
    assert_eq!(keychain_account("work", &bare), None);
}
