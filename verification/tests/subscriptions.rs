use argon2::password_hash::SaltString;
use argon2::Argon2;
use argon2::PasswordHasher;
use zero2prod::error_chain_fmt;
use zero2prod::generate_subscription_token;
use zero2prod::parse_form_data;
use zero2prod::parse_subscriber;
use zero2prod::publish_newsletter;
use zero2prod::subscribe;
use zero2prod::BodyData;
use zero2prod::ConfirmError;
use zero2prod::Content;
use zero2prod::FormData;
use zero2prod::Store;
use zero2prod::StoreError;
use zero2prod::SubscribeError;

fn form(name: &str, email: &str) -> FormData {
    FormData {
        email: email.to_string(),
        name: name.to_string(),
    }
}

#[test]
fn subscribe_persists_a_pending_subscriber_with_its_token() {
    let mut store = Store::new();
    let receipt = subscribe(&mut store, form("le guin", "ursula_le_guin@gmail.com"), "http://127.0.0.1")
        .unwrap();
    assert_eq!(1, store.subscriber_count());
    assert_eq!(1, store.token_count());
    assert_eq!(25, receipt.token.len());
    // pending until the token is used
    assert_eq!(0, store.list_confirmed_subscribers().len());
    // the confirmation makes the subscriber visible in the confirmed set
    store.confirm_subscriber(receipt.token.as_str()).unwrap();
    let confirmed = store.list_confirmed_subscribers();
    assert_eq!(1, confirmed.len());
    assert_eq!("ursula_le_guin@gmail.com", confirmed[0].email);
    assert_eq!("le guin", confirmed[0].name);
}

#[test]
fn subscribe_builds_the_confirmation_email() {
    let mut store = Store::new();
    let receipt = subscribe(&mut store, form("le guin", "ursula_le_guin@gmail.com"), "https://example.com")
        .unwrap();
    let link = format!(
        "https://example.com/subscriptions/confirm?subscription_token={}",
        receipt.token
    );
    assert_eq!("ursula_le_guin@gmail.com", receipt.email.to);
    assert_eq!("Welcome!", receipt.email.subject);
    assert_eq!(
        format!("Welcome to our newsletter!\nVisit {} to confirm your subscription.", link),
        receipt.email.text_body
    );
    assert_eq!(
        format!(
            "Welcome to our newsletter!<br />Click <a href=\"{}\">here</a> to confirm your subscription.",
            link
        ),
        receipt.email.html_body
    );
}

#[test]
fn subscription_tokens_are_25_alphanumeric_characters() {
    let token = generate_subscription_token();
    assert_eq!(25, token.chars().count());
    assert!(token.chars().all(|c| c.is_ascii_alphanumeric()));
    // drawn at random: two tokens colliding is not credible
    assert_ne!(token, generate_subscription_token());
}

#[test]
fn invalid_names_are_rejected_and_nothing_is_persisted() {
    let cases = vec![
        "".to_string(),
        "   ".to_string(),
        "\u{00A0}\t\n".to_string(),
        "a".repeat(257),
        "forbidden/name".to_string(),
        "forbidden(name".to_string(),
        "forbidden)name".to_string(),
        "forbidden\"name".to_string(),
        "forbidden<name".to_string(),
        "forbidden>name".to_string(),
        "forbidden\\name".to_string(),
        "forbidden{name".to_string(),
        "forbidden}name".to_string(),
    ];
    for name in cases {
        let mut store = Store::new();
        let error = subscribe(&mut store, form(&name, "ursula_le_guin@gmail.com"), "http://127.0.0.1")
            .err()
            .unwrap();
        assert_eq!(400, error.status_code(), "name was {:?}", name);
        assert!(matches!(error, SubscribeError::ValidationError(_)));
        assert_eq!(0, store.subscriber_count());
        assert_eq!(0, store.token_count());
    }
}

#[test]
fn invalid_emails_are_rejected_and_nothing_is_persisted() {
    let cases = vec![
        "".to_string(),
        "definitely-not-an-email".to_string(),
        "@gmail.com".to_string(),
        "ursula@gmail".to_string(),
        "ursula@@gmail.com".to_string(),
        "ursula@.com".to_string(),
        "ursula@gmail.com.".to_string(),
        "ursula@gmail..com".to_string(),
        "ursula le guin@gmail.com".to_string(),
    ];
    for email in cases {
        let mut store = Store::new();
        let error = subscribe(&mut store, form("le guin", &email), "http://127.0.0.1")
            .err()
            .unwrap();
        assert_eq!(400, error.status_code(), "email was {:?}", email);
        assert!(matches!(error, SubscribeError::ValidationError(_)));
        assert_eq!(0, store.subscriber_count());
    }
}

#[test]
fn name_length_is_counted_in_graphemes_not_chars() {
    // 200 graphemes, each one written as `a` + a combining acute accent:
    // 400 chars, but well within the 256-grapheme limit.
    let accented = "a\u{0301}".repeat(200);
    assert!(zero2prod::is_valid_name(&accented));
    // 257 plain graphemes cross the limit
    assert!(!zero2prod::is_valid_name(&"a".repeat(257)));
    let mut store = Store::new();
    subscribe(&mut store, form(&accented, "ursula_le_guin@gmail.com"), "http://127.0.0.1")
        .unwrap();
    assert_eq!(1, store.subscriber_count());
}

#[test]
fn confirming_the_same_token_twice_is_a_no_op() {
    let mut store = Store::new();
    let receipt = subscribe(&mut store, form("le guin", "ursula_le_guin@gmail.com"), "http://127.0.0.1")
        .unwrap();
    store.confirm_subscriber(receipt.token.as_str()).unwrap();
    // the second confirmation succeeds silently and changes nothing
    store.confirm_subscriber(receipt.token.as_str()).unwrap();
    let confirmed = store.list_confirmed_subscribers();
    assert_eq!(1, confirmed.len());
    assert_eq!("ursula_le_guin@gmail.com", confirmed[0].email);
}

#[test]
fn confirming_an_unknown_token_is_not_found() {
    let mut store = Store::new();
    let error = store.confirm_subscriber("doesnotexist0123456789abc").err().unwrap();
    assert!(matches!(error, ConfirmError::TokenNotFound));
    assert_eq!(404, error.status_code());
}

#[test]
fn subscribe_then_confirm_then_broadcast_reaches_the_subscriber() {
    let mut store = Store::new();
    let salt = SaltString::generate(&mut rand::thread_rng());
    let hash = Argon2::default()
        .hash_password(b"everythinghastostartsomewhere", &salt)
        .unwrap()
        .to_string();
    store.seed_credential(42, "operator".to_string(), hash).unwrap();

    // subscribe with name=le guin, email=ursula_le_guin@gmail.com
    let receipt = subscribe(&mut store, form("le guin", "ursula_le_guin@gmail.com"), "https://example.com")
        .unwrap();
    // confirm the issued token
    store.confirm_subscriber(receipt.token.as_str()).unwrap();

    // broadcast {title:"T", content:{html:"<p>H</p>", text:"H"}}
    let content =
        Content::from_parts(Some("<p>H</p>".to_string()), Some("H".to_string())).unwrap();
    let body = BodyData::from_parts(Some("T".to_string()), Some(content)).unwrap();
    let raw = format!("{}:{}", "operator", "everythinghastostartsomewhere");
    let encoded = base64::Engine::encode(&base64::engine::general_purpose::STANDARD, raw);
    let header = format!("Basic {}", encoded).into_bytes();
    let mut broadcast = publish_newsletter(&store, body, Some(header.as_slice())).unwrap();

    let mut delivered: Vec<String> = Vec::new();
    while let Some(send) = broadcast.next_send() {
        assert_eq!("T", send.subject);
        assert_eq!("<p>H</p>", send.html_body);
        assert_eq!("H", send.text_body);
        delivered.push(send.to);
        broadcast.record_success();
    }
    assert_eq!(vec!["ursula_le_guin@gmail.com".to_string()], delivered);
    assert_eq!(1, broadcast.sent_count());
}

#[test]
fn form_bodies_decode_into_raw_fields() {
    let form = parse_form_data(b"name=le%20guin&email=ursula_le_guin%40gmail.com").unwrap();
    assert_eq!("le guin", form.name);
    assert_eq!("ursula_le_guin@gmail.com", form.email);
    // the two fields may come in either order, and `+` is a space
    let form = parse_form_data(b"email=ursula_le_guin%40gmail.com&name=le+guin").unwrap();
    assert_eq!("le guin", form.name);
    assert_eq!("ursula_le_guin@gmail.com", form.email);
    // lowercase and uppercase hex digits spell the same byte
    let form = parse_form_data(b"name=a%2fb&email=a%2Fb").unwrap();
    assert_eq!("a/b", form.name);
    assert_eq!("a/b", form.email);
    // the value may contain `=`; only the first one splits
    let form = parse_form_data(b"name=a=b&email=u%40d.com").unwrap();
    assert_eq!("a=b", form.name);
}

#[test]
fn malformed_form_bodies_are_rejected() {
    assert!(parse_form_data(b"").is_none());
    assert!(parse_form_data(b"name=le%20guin").is_none());
    assert!(parse_form_data(b"name=a&email=b&extra=c").is_none());
    assert!(parse_form_data(b"name=a&name=b").is_none());
    assert!(parse_form_data(b"names=a&email=b").is_none());
    assert!(parse_form_data(b"name&email=b").is_none());
    // a dangling percent escape
    assert!(parse_form_data(b"name=le%2&email=b").is_none());
    assert!(parse_form_data(b"name=le%zz&email=b").is_none());
    // percent-decoded bytes that are not UTF-8
    assert!(parse_form_data(b"name=%FF%FE&email=b").is_none());
}

#[test]
fn a_raw_form_body_reaches_the_store_through_subscribe() {
    let mut store = Store::new();
    let form = parse_form_data(b"name=le%20guin&email=ursula_le_guin%40gmail.com").unwrap();
    let receipt = subscribe(&mut store, form, "http://127.0.0.1").unwrap();
    store.confirm_subscriber(receipt.token.as_str()).unwrap();
    let confirmed = store.list_confirmed_subscribers();
    assert_eq!(1, confirmed.len());
    assert_eq!("ursula_le_guin@gmail.com", confirmed[0].email);
    assert_eq!("le guin", confirmed[0].name);
}

#[test]
fn parse_subscriber_validates_both_fields() {
    let ok = parse_subscriber(form("le guin", "ursula_le_guin@gmail.com")).unwrap();
    assert_eq!("le guin", ok.name.inner());
    let name_error = parse_subscriber(form("", "ursula_le_guin@gmail.com")).err().unwrap();
    assert_eq!(" is not a valid subscriber name", name_error);
    let email_error = parse_subscriber(form("le guin", "not-an-email")).err().unwrap();
    assert_eq!("not-an-email is not a valid subscriber email", email_error);
}

#[test]
fn subscribe_error_statuses_match_the_http_surface() {
    let validation = SubscribeError::ValidationError("bad".to_string());
    assert_eq!(400, validation.status_code());
    assert_eq!("bad", validation.message());
    let unexpected = SubscribeError::UnexpectedError(StoreError::ConstraintViolation);
    assert_eq!(500, unexpected.status_code());
    assert_eq!("failed to create a new subscriber", unexpected.message());
    let delivery = SubscribeError::ConfirmationDeliveryFailed("connection reset".to_string());
    assert_eq!(500, delivery.status_code());
    assert_eq!("failed to send a confirmation email", delivery.message());
}

#[test]
fn error_chains_render_each_cause_in_order() {
    let causes = vec![
        "Failed to insert new subscriber in the database.".to_string(),
        "connection closed".to_string(),
    ];
    let rendered = error_chain_fmt("failed to create a new subscriber", &causes);
    assert_eq!(
        "failed to create a new subscriber\n\n\
         Caused by:\n\tFailed to insert new subscriber in the database.\n\
         Caused by:\n\tconnection closed\n",
        rendered
    );
}
