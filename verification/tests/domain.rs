use argon2::password_hash::SaltString;
use argon2::Argon2;
use argon2::PasswordHasher;
use zero2prod::basic_authentication;
use zero2prod::is_valid_name;
use zero2prod::validate_credentials;
use zero2prod::AuthError;
use zero2prod::Store;
use zero2prod::SubscriberEmail;
use zero2prod::SubscriberName;

#[test]
fn names_are_validated_by_content_and_length() {
    assert!(is_valid_name("le guin"));
    assert!(is_valid_name("Ursula K. Le Guin"));
    assert!(is_valid_name(&"a".repeat(256)));
    assert!(!is_valid_name(""));
    assert!(!is_valid_name(" \t\n "));
    assert!(!is_valid_name(&"a".repeat(257)));
    for forbidden in ['/', '(', ')', '"', '<', '>', '\\', '{', '}'] {
        assert!(!is_valid_name(&format!("name{}", forbidden)), "{}", forbidden);
    }
}

#[test]
fn subscriber_name_parse_keeps_the_valid_input() {
    let name = SubscriberName::parse("le guin".to_string()).unwrap();
    assert_eq!("le guin", name.as_str());
    assert_eq!("le guin", name.inner());
    let error = SubscriberName::parse("br/ba".to_string()).err().unwrap();
    assert_eq!("br/ba is not a valid subscriber name", error);
}

#[test]
fn email_addresses_need_one_at_sign_and_a_dotted_domain() {
    for good in [
        "ursula_le_guin@gmail.com",
        "a@b.c",
        "first.last@sub.domain.example",
        "with:colon@domain.example",
    ] {
        assert!(SubscriberEmail::parse(good.to_string()).is_ok(), "{}", good);
    }
    for bad in [
        "",
        "no-at-sign",
        "@gmail.com",
        "ursula@",
        "ursula@gmail",
        "two@@gmail.com",
        "two@at@gmail.com",
        "ursula@.com",
        "ursula@gmail.com.",
        "ursula@gmail..com",
        "spaced out@gmail.com",
        "tabbed\tout@gmail.com",
    ] {
        assert!(SubscriberEmail::parse(bad.to_string()).is_err(), "{}", bad);
    }
    let email = SubscriberEmail::parse("ursula_le_guin@gmail.com".to_string()).unwrap();
    assert_eq!("ursula_le_guin@gmail.com", email.as_str());
}

#[test]
fn basic_authentication_decodes_the_credential_pair() {
    // "user:pass", base64-encoded; a parser that handed the input through
    // unchanged could not produce these fields
    let header = b"Basic dXNlcjpwYXNz".to_vec();
    let credentials = basic_authentication(Some(header.as_slice())).unwrap();
    assert_eq!("user", credentials.username);
    assert_eq!("pass", credentials.password);
}

#[test]
fn basic_authentication_splits_at_the_first_colon_only() {
    // "user:pa:ss"
    let header = b"Basic dXNlcjpwYTpzcw==".to_vec();
    let credentials = basic_authentication(Some(header.as_slice())).unwrap();
    assert_eq!("user", credentials.username);
    assert_eq!("pa:ss", credentials.password);
}

#[test]
fn malformed_authorization_headers_are_rejected() {
    let cases: Vec<Vec<u8>> = vec![
        b"".to_vec(),
        b"Bearer dXNlcjpwYXNz".to_vec(),
        b"basic dXNlcjpwYXNz".to_vec(),
        b"Basic ???not-base64???".to_vec(),
        // valid base64 of bytes that are not UTF-8
        b"Basic /v8=".to_vec(),
        // valid base64 of "nocolon"
        b"Basic bm9jb2xvbg==".to_vec(),
    ];
    for header in cases {
        let error = basic_authentication(Some(header.as_slice())).err().unwrap();
        assert!(matches!(error, AuthError::Malformed(_)), "{:?}", header);
        assert_eq!(401, error.status_code());
    }
    let missing = basic_authentication(None).err().unwrap();
    assert!(matches!(missing, AuthError::Malformed(_)));
}

#[test]
fn the_right_password_is_accepted_and_the_wrong_one_rejected() {
    let salt = SaltString::generate(&mut rand::thread_rng());
    let hash = Argon2::default()
        .hash_password(b"everythinghastostartsomewhere", &salt)
        .unwrap()
        .to_string();
    let mut store = Store::new();
    store.seed_credential(42, "operator".to_string(), hash).unwrap();

    let good = zero2prod::Credentials {
        username: "operator".to_string(),
        password: "everythinghastostartsomewhere".to_string(),
    };
    assert_eq!(42, validate_credentials(&store, &good).unwrap());

    let wrong_password = zero2prod::Credentials {
        username: "operator".to_string(),
        password: "guessing".to_string(),
    };
    let error = validate_credentials(&store, &wrong_password).err().unwrap();
    assert!(matches!(error, AuthError::InvalidCredentials));

    let unknown_user = zero2prod::Credentials {
        username: "nobody".to_string(),
        password: "everythinghastostartsomewhere".to_string(),
    };
    let error = validate_credentials(&store, &unknown_user).err().unwrap();
    assert!(matches!(error, AuthError::InvalidCredentials));
}

#[test]
fn seeding_the_same_username_twice_is_a_constraint_violation() {
    let mut store = Store::new();
    store
        .seed_credential(1, "operator".to_string(), "$argon2id$bogus".to_string())
        .unwrap();
    let error = store
        .seed_credential(2, "operator".to_string(), "$argon2id$other".to_string())
        .err()
        .unwrap();
    assert!(matches!(error, zero2prod::StoreError::ConstraintViolation));
}
