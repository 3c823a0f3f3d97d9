use otp::cli::{Command, Options};
use otp::config::{Config, SecretLocation, TotpOptions};
use otp::secrets::Keychain;
use otp::totp::{generate_sha1_code, standard_totp};
use otp::{stoken, stoken_code, token, ErrorKind, Token, TokenAlgorithm, TotpError};

const SECRET: &str = "GEZDGNBVGY3TQOJQGEZDGNBVGY3TQOJQ";

fn inline(secret: &str, algorithm: TokenAlgorithm) -> TotpOptions {
    TotpOptions::new_config_stored_secret(secret.to_string(), algorithm)
}

#[test]
fn token_of_an_unknown_name_fails_with_unknown_name() {
    let keychain = Keychain::new();
    let unknown = Err(TotpError::of(ErrorKind::UnknownName));
    assert_eq!(token("nonexistent", Config::default(), &keychain, 59), unknown);
    let mut config = Config::default();
    config.insert("work", inline(SECRET, TokenAlgorithm::TotpSha1));
    assert_eq!(token("nonexistent", config.clone(), &keychain, 59), unknown);
    assert_eq!(token("", config.clone(), &keychain, 59), unknown);
}

#[test]
fn token_of_a_sha1_record_is_its_code() {
    let keychain = Keychain::new();
    let mut config = Config::default();
    config.insert("work", inline(SECRET, TokenAlgorithm::TotpSha1));
    assert_eq!(token("work", config.clone(), &keychain, 59), Ok(Token::Code("287082".to_string())));
    assert_eq!(
        token("work", config.clone(), &keychain, 1_111_111_109),
        Ok(Token::Code("081804".to_string()))
    );
    assert_eq!(
        token("work", config.clone(), &keychain, 2_000_000_000),
        Ok(Token::Code("279037".to_string()))
    );
}

#[test]
fn token_of_a_record_in_the_keychain_uses_the_secret_there() {
    let mut keychain = Keychain::new();
    let mut config = Config::default();
    config.insert("work", TotpOptions::new_keychain_stored_secret(TokenAlgorithm::TotpSha1));
    assert_eq!(
        token("work", config.clone(), &keychain, 59),
        Err(TotpError::of(ErrorKind::SecretUnavailable))
    );
    keychain.set_password("work", SECRET);
    assert_eq!(token("work", config.clone(), &keychain, 59), Ok(Token::Code("287082".to_string())));
}

#[test]
fn token_of_a_record_without_algorithm_is_a_sha1_code() {
    let keychain = Keychain::new();
    let mut config = Config::default();
    config.insert("old", TotpOptions::new(None, Some(SECRET.to_string()), None));
    assert_eq!(token("old", config.clone(), &keychain, 59), Ok(Token::Code("287082".to_string())));
}

#[test]
fn token_surfaces_the_failures_of_the_sha1_path() {
    let keychain = Keychain::new();
    let mut config = Config::default();
    config.insert("bad", inline("not base32!", TokenAlgorithm::TotpSha1));
    config.insert("bare", TotpOptions::new(Some(SecretLocation::Config), None, None));
    assert_eq!(
        token("bad", config.clone(), &keychain, 59),
        Err(TotpError::of(ErrorKind::InvalidEncoding))
    );
    assert_eq!(
        token("bare", config.clone(), &keychain, 59),
        Err(TotpError::of(ErrorKind::MissingInlineSecret))
    );
}

#[test]
fn token_of_an_rsa_record_hands_the_exported_token_back() {
    let mut keychain = Keychain::new();
    let mut config = Config::default();
    // The exported token is no base32: this path does not decode it.
    config.insert("vpn", inline("eyJzZXJpYWwiOiIxIn0=", TokenAlgorithm::SToken));
    config.insert("vault", TotpOptions::new_keychain_stored_secret(TokenAlgorithm::SToken));
    config.insert(
        "bare",
        TotpOptions::new(Some(SecretLocation::Config), None, Some(TokenAlgorithm::SToken)),
    );
    assert_eq!(
        token("vpn", config.clone(), &keychain, 59),
        Ok(Token::Exported("eyJzZXJpYWwiOiIxIn0=".to_string()))
    );
    assert_eq!(
        token("vault", config.clone(), &keychain, 59),
        Err(TotpError::of(ErrorKind::SecretUnavailable))
    );
    assert_eq!(
        token("bare", config.clone(), &keychain, 59),
        Err(TotpError::of(ErrorKind::MissingInlineSecret))
    );
    keychain.set_password("vault", "BLOB");
    assert_eq!(
        token("vault", config.clone(), &keychain, 59),
        Ok(Token::Exported("BLOB".to_string()))
    );
}

#[test]
fn stoken_gives_the_exported_token_of_a_record() {
    let keychain = Keychain::new();
    let record = inline("BLOB", TokenAlgorithm::SToken);
    assert_eq!(stoken("vpn", &record, &keychain), Ok(Token::Exported("BLOB".to_string())));
}

#[test]
fn stoken_code_fails_where_the_token_was_not_read() {
    assert_eq!(stoken_code(Some("93659800".to_string())), Ok("93659800".to_string()));
    assert_eq!(stoken_code(None), Err(TotpError::of(ErrorKind::ImportFailed)));
}

#[test]
fn standard_totp_of_a_record_is_the_code_of_its_secret() {
    let keychain = Keychain::new();
    let options = inline("A SECRET", TokenAlgorithm::TotpSha1);
    let code = standard_totp("test", &options, &keychain, 1_700_000_000)
        .expect("Failed to generate a TOTP code");
    assert_eq!(code.len(), 6);
    assert!(code.chars().all(|c| c.is_digit(10)));
    assert_eq!(Ok(code), generate_sha1_code("A SECRET".to_string(), 1_700_000_000));

    let options = inline(SECRET, TokenAlgorithm::TotpSha1);
    assert_eq!(standard_totp("test", &options, &keychain, 59), Ok("287082".to_string()));
}

#[test]
fn command_is_the_named_command() {
    let options = Options {
        cmd: Some(Command::DeleteSecret { name: "work".to_string() }),
        name: Some("home".to_string()),
        verbosity: 0,
        end_with_newline: false,
        copy_to_clipboard: false,
    };
    assert_eq!(options.command(), Ok(Command::DeleteSecret { name: "work".to_string() }));
    let options = Options {
        cmd: Some(Command::ListSecrets { prefix: None }),
        name: None,
        verbosity: 2,
        end_with_newline: true,
        copy_to_clipboard: false,
    };
    assert_eq!(options.command(), Ok(Command::ListSecrets { prefix: None }));
}

#[test]
fn command_of_a_bare_name_generates_its_token() {
    let options = Options {
        cmd: None,
        name: Some("home".to_string()),
        verbosity: 0,
        end_with_newline: false,
        copy_to_clipboard: true,
    };
    assert_eq!(options.command(), Ok(Command::GenerateToken { name: "home".to_string() }));
    assert!(options.copy_to_clipboard());
}

#[test]
fn command_without_command_and_name_fails() {
    let options = Options {
        cmd: None,
        name: None,
        verbosity: 0,
        end_with_newline: false,
        copy_to_clipboard: false,
    };
    assert_eq!(options.command(), Err(TotpError::of(ErrorKind::MissingCommand)));
    assert!(!options.copy_to_clipboard());
}

#[test]
fn command_clone_is_the_same_command() {
    let commands = [
        Command::AddSecret { name: "a".to_string(), secret: "b".to_string() },
        Command::ImportStoken {
            name: "a".to_string(),
            path: "/tmp/t.sdtid".to_string(),
            pin: "1234".to_string(),
        },
        Command::ListSecrets { prefix: Some("w".to_string()) },
        Command::ListSecrets { prefix: None },
        Command::DeleteSecret { name: "a".to_string() },
        Command::UseKeychain,
        Command::GenerateToken { name: "a".to_string() },
    ];
    for command in commands.iter() {
        assert_eq!(&command.clone(), command);
    }
}

#[test]
fn errors_say_what_failed() {
    let text = |kind| TotpError::of(kind).message();
    assert_eq!(text(ErrorKind::InvalidEncoding), "Failed to decode secret from base32");
    assert_eq!(text(ErrorKind::MissingInlineSecret), "Config secret but no secret");
    assert_eq!(
        text(ErrorKind::ImportFailed),
        "Unable to import secret as an RSA stoken secret"
    );
    assert_eq!(text(ErrorKind::MissingCommand), "No command or TOTP token name provided");
    assert_eq!(TotpError::of(ErrorKind::UnknownName).kind(), ErrorKind::UnknownName);
    let kinds = [
        ErrorKind::InvalidEncoding,
        ErrorKind::MissingInlineSecret,
        ErrorKind::SecretUnavailable,
        ErrorKind::ImportFailed,
        ErrorKind::UnknownName,
        ErrorKind::DigitsOutOfRange,
        ErrorKind::MissingCommand,
    ];
    for (at, kind) in kinds.iter().enumerate() {
        assert!(!text(*kind).is_empty());
        for other in kinds.iter().skip(at + 1) {
            assert_ne!(text(*kind), text(*other));
        }
    }
}
