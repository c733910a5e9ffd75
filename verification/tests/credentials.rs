use nodeget::decimal::{get_limit_millis, i64_to_decimal, parse_i64, u64_to_decimal};
use nodeget::error::NodegetError;
use nodeget::ids::{
    generate_random_string, generate_random_uuid, generate_super_token_credentials, is_valid_uuid,
    parse_configured_uuid,
};
use nodeget::token_auth::{parse_credential, TokenOrAuth};
use nodeget::token_store::{check_stored_credential, matches_super_token, StoredCredential};

#[test]
fn token_form_splits_at_first_colon() {
    let t = TokenOrAuth::from_full_token("key123:secret456").unwrap();
    assert_eq!(t, TokenOrAuth::Token("key123".to_string(), "secret456".to_string()));
    assert!(t.is_token());
    assert!(!t.is_auth());
    assert_eq!(t.token_key(), Some("key123"));
    assert_eq!(t.token_secret(), Some("secret456"));
    assert_eq!(t.username(), None);
    assert_eq!(t.password(), None);
}

#[test]
fn auth_form_splits_at_first_bar() {
    let t = TokenOrAuth::from_full_token("alice|pa|ss").unwrap();
    assert_eq!(t, TokenOrAuth::Auth("alice".to_string(), "pa|ss".to_string()));
    assert!(t.is_auth());
    assert_eq!(t.username(), Some("alice"));
    assert_eq!(t.password(), Some("pa|ss"));
    assert_eq!(t.token_key(), None);
    assert_eq!(t.token_secret(), None);
}

#[test]
fn colon_wins_over_bar() {
    let t = TokenOrAuth::from_full_token("a|b:c|d").unwrap();
    assert_eq!(t, TokenOrAuth::Token("a|b".to_string(), "c|d".to_string()));
}

#[test]
fn empty_parts_are_kept() {
    assert_eq!(
        TokenOrAuth::from_full_token(":").unwrap(),
        TokenOrAuth::Token(String::new(), String::new())
    );
    assert_eq!(
        TokenOrAuth::from_full_token("|x").unwrap(),
        TokenOrAuth::Auth(String::new(), "x".to_string())
    );
}

#[test]
fn credential_without_separator_is_refused() {
    let e = TokenOrAuth::from_full_token("plain").unwrap_err();
    assert_eq!(e, "Invalid token format: must be 'key:secret' or 'username|password'");
    match parse_credential("plain") {
        Err(NodegetError::ParseError(m)) => assert_eq!(
            m,
            "Failed to parse token: Invalid token format: must be 'key:secret' or 'username|password'"
        ),
        other => panic!("unexpected {other:?}"),
    }
}

#[test]
fn parse_credential_round_trip() {
    let t = parse_credential("k:s").unwrap();
    let rebuilt = format!("{}:{}", t.token_key().unwrap(), t.token_secret().unwrap());
    assert_eq!(rebuilt, "k:s");
}

#[test]
fn uuid_texts_accepted() {
    assert!(is_valid_uuid("67e55044-10b1-426f-9247-bb680e5fe0c8"));
    assert!(is_valid_uuid("67E55044-10B1-426F-9247-BB680E5FE0C8"));
    assert!(is_valid_uuid("67e5504410b1426f9247bb680e5fe0c8"));
    assert!(is_valid_uuid("{67e55044-10b1-426f-9247-bb680e5fe0c8}"));
    assert!(is_valid_uuid("urn:uuid:67e55044-10b1-426f-9247-bb680e5fe0c8"));
}

#[test]
fn uuid_texts_refused() {
    assert!(!is_valid_uuid(""));
    assert!(!is_valid_uuid("not-a-uuid"));
    assert!(!is_valid_uuid("67e55044-10b1-426f-9247-bb680e5fe0c"));
    assert!(!is_valid_uuid("67e55044-10b1-426f-9247-bb680e5fe0cg"));
}

#[test]
fn configured_uuid_parses_to_its_number() {
    let v = parse_configured_uuid("67e55044-10b1-426f-9247-bb680e5fe0c8").unwrap();
    assert_eq!(v, 0x67e5504410b1426f9247bb680e5fe0c8u128);
}

#[test]
fn configured_uuid_refuses_auto_gen() {
    for text in ["auto_gen", "AUTO_GEN", "Auto_Gen"] {
        assert_eq!(
            parse_configured_uuid(text).unwrap_err(),
            "auto_gen is not supported here; use get_and_parse_config for auto-generation"
        );
    }
}

#[test]
fn configured_uuid_reports_parse_error() {
    let e = parse_configured_uuid("zzz").unwrap_err();
    assert!(!e.is_empty());
    assert_ne!(e, "zzz");
}

#[test]
fn random_uuid_has_version_and_variant() {
    for _ in 0..20 {
        let u = generate_random_uuid().unwrap();
        assert_eq!((u >> 76) & 0xF, 4);
        assert_eq!((u >> 62) & 0x3, 2);
    }
}

#[test]
fn random_string_is_alphanumeric_of_length() {
    for len in [0usize, 1, 10, 64] {
        let s = generate_random_string(len);
        assert_eq!(s.chars().count(), len);
        assert!(s.chars().all(|c| c.is_ascii_alphanumeric()));
    }
}

#[test]
fn super_token_credentials_shape() {
    let c = generate_super_token_credentials();
    assert_eq!(c.token_key.len(), 16);
    assert_eq!(c.token_secret.len(), 32);
    assert_eq!(c.password.len(), 32);
    assert_eq!(c.username, "root");
    assert_eq!(c.full_token, format!("{}:{}", c.token_key, c.token_secret));
    let parsed = TokenOrAuth::from_full_token(&c.full_token).unwrap();
    assert_eq!(parsed.token_key(), Some(c.token_key.as_str()));
    assert_eq!(parsed.token_secret(), Some(c.token_secret.as_str()));
}

#[test]
fn decimal_formatting() {
    assert_eq!(u64_to_decimal(0), "0");
    assert_eq!(u64_to_decimal(7), "7");
    assert_eq!(u64_to_decimal(1234567890), "1234567890");
    assert_eq!(u64_to_decimal(u64::MAX), u64::MAX.to_string());
    assert_eq!(i64_to_decimal(-42), "-42");
    assert_eq!(i64_to_decimal(i64::MIN), i64::MIN.to_string());
    assert_eq!(i64_to_decimal(i64::MAX), i64::MAX.to_string());
}

#[test]
fn parse_i64_accepts_signed_decimals() {
    assert_eq!(parse_i64("0"), Some(0));
    assert_eq!(parse_i64("+15"), Some(15));
    assert_eq!(parse_i64("-15"), Some(-15));
    assert_eq!(parse_i64("007"), Some(7));
    assert_eq!(parse_i64("9223372036854775807"), Some(i64::MAX));
    assert_eq!(parse_i64("-9223372036854775808"), Some(i64::MIN));
}

#[test]
fn parse_i64_refuses_malformed_or_overflowing() {
    for text in ["", "+", "-", " 1", "1 ", "1.5", "1e3", "abc", "9223372036854775808", "-9223372036854775809", "--1"] {
        assert_eq!(parse_i64(text), None, "{text}");
        assert_eq!(parse_i64(text), text.parse::<i64>().ok(), "{text}");
    }
}

#[test]
fn parse_i64_reads_back_formatted_numbers() {
    for n in [0i64, 1, -1, 99, -1000, i64::MAX, i64::MIN, 86_400_000] {
        assert_eq!(parse_i64(&i64_to_decimal(n)), Some(n));
    }
}

#[test]
fn limit_millis_prefers_number_then_text() {
    assert_eq!(get_limit_millis(Some(5), Some("9")), Some(5));
    assert_eq!(get_limit_millis(None, Some("86400000")), Some(86_400_000));
    assert_eq!(get_limit_millis(None, Some("soon")), None);
    assert_eq!(get_limit_millis(None, None), None);
}

fn stored() -> StoredCredential {
    StoredCredential {
        token_key: "root-key".to_string(),
        token_hash: "h-secret".to_string(),
        username: Some("root".to_string()),
        password_hash: Some("h-pass".to_string()),
    }
}

#[test]
fn stored_credential_checks() {
    let key = TokenOrAuth::Token("root-key".to_string(), "s".to_string());
    let login = TokenOrAuth::Auth("root".to_string(), "p".to_string());
    let r = stored();
    assert!(check_stored_credential(&key, Some(&r), "h-secret").is_ok());
    assert!(check_stored_credential(&login, Some(&r), "h-pass").is_ok());
    match check_stored_credential(&key, Some(&r), "wrong") {
        Err(NodegetError::PermissionDenied(m)) => assert_eq!(m, "Invalid token secret"),
        other => panic!("unexpected {other:?}"),
    }
    match check_stored_credential(&login, Some(&r), "wrong") {
        Err(NodegetError::PermissionDenied(m)) => assert_eq!(m, "Invalid password"),
        other => panic!("unexpected {other:?}"),
    }
    match check_stored_credential(&key, None, "h-secret") {
        Err(NodegetError::NotFound(m)) => assert_eq!(m, "Token key not found in database"),
        other => panic!("unexpected {other:?}"),
    }
    match check_stored_credential(&login, None, "h-pass") {
        Err(NodegetError::NotFound(m)) => assert_eq!(m, "Username not found in database"),
        other => panic!("unexpected {other:?}"),
    }
    let no_password = StoredCredential { password_hash: None, ..stored() };
    assert!(check_stored_credential(&login, Some(&no_password), "h-pass").is_err());
}

#[test]
fn super_token_recognition() {
    let r = stored();
    assert!(matches_super_token(&TokenOrAuth::Token("root-key".to_string(), "s".to_string()), &r, "h-secret"));
    assert!(!matches_super_token(&TokenOrAuth::Token("other".to_string(), "s".to_string()), &r, "h-secret"));
    assert!(!matches_super_token(&TokenOrAuth::Token("root-key".to_string(), "s".to_string()), &r, "h-pass"));
    assert!(matches_super_token(&TokenOrAuth::Auth("root".to_string(), "p".to_string()), &r, "h-pass"));
    assert!(!matches_super_token(&TokenOrAuth::Auth("admin".to_string(), "p".to_string()), &r, "h-pass"));
    let anonymous = StoredCredential { username: None, ..stored() };
    assert!(!matches_super_token(&TokenOrAuth::Auth("root".to_string(), "p".to_string()), &anonymous, "h-pass"));
}

#[test]
fn formatted_uuids_read_back() {
    for u in [0u128, 1, u128::MAX, 0x67e5504410b1426f9247bb680e5fe0c8] {
        let text = uuid::Uuid::from_u128(u).to_string();
        assert!(is_valid_uuid(&text));
        assert_eq!(parse_configured_uuid(&text).unwrap(), u);
    }
}
