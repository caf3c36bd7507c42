use argon2::password_hash::SaltString;
use argon2::Argon2;
use argon2::PasswordHasher;
use zero2prod::publish_newsletter;
use zero2prod::subscribe;
use zero2prod::www_authenticate_header;
use zero2prod::BodyData;
use zero2prod::Content;
use zero2prod::FormData;
use zero2prod::PublishError;
use zero2prod::Store;

fn newsletter_body() -> BodyData {
    let content = Content::from_parts(
        Some("<p>Newsletter body as HTML</p>".to_string()),
        Some("Newsletter body as plain text".to_string()),
    )
    .unwrap();
    BodyData::from_parts(Some("Newsletter title".to_string()), Some(content)).unwrap()
}

fn password_hash_for(password: &str) -> String {
    let salt = SaltString::generate(&mut rand::thread_rng());
    Argon2::default()
        .hash_password(password.as_bytes(), &salt)
        .unwrap()
        .to_string()
}

fn store_with_user(username: &str, password: &str) -> Store {
    let mut store = Store::new();
    store
        .seed_credential(7, username.to_string(), password_hash_for(password))
        .unwrap();
    store
}

fn basic_header(username: &str, password: &str) -> Vec<u8> {
    let raw = format!("{}:{}", username, password);
    let encoded = base64::Engine::encode(&base64::engine::general_purpose::STANDARD, raw);
    let mut header = b"Basic ".to_vec();
    header.extend_from_slice(encoded.as_bytes());
    header
}

fn subscribe_confirmed(store: &mut Store, name: &str, email: &str) {
    let receipt = subscribe(
        store,
        FormData {
            email: email.to_string(),
            name: name.to_string(),
        },
        "https://example.com",
    )
    .unwrap();
    store.confirm_subscriber(receipt.token.as_str()).unwrap();
}

#[test]
fn requests_missing_authorization_are_rejected() {
    let store = store_with_user("operator", "everythinghastostartsomewhere");
    let error = publish_newsletter(&store, newsletter_body(), None).err().unwrap();
    assert_eq!(401, error.status_code());
    assert_eq!(r#"Basic realm="publish""#, www_authenticate_header());
}

#[test]
fn non_existing_user_is_rejected() {
    let store = store_with_user("operator", "everythinghastostartsomewhere");
    let username = uuid::Uuid::new_v4().to_string();
    let password = uuid::Uuid::new_v4().to_string();
    let header = basic_header(&username, &password);
    let error = publish_newsletter(&store, newsletter_body(), Some(header.as_slice()))
        .err()
        .unwrap();
    assert_eq!(401, error.status_code());
    assert_eq!(r#"Basic realm="publish""#, www_authenticate_header());
}

#[test]
fn invalid_password_is_rejected() {
    let store = store_with_user("operator", "everythinghastostartsomewhere");
    let password = uuid::Uuid::new_v4().to_string();
    assert_ne!("everythinghastostartsomewhere", password);
    let header = basic_header("operator", &password);
    let error = publish_newsletter(&store, newsletter_body(), Some(header.as_slice()))
        .err()
        .unwrap();
    assert_eq!(401, error.status_code());
    assert_eq!(r#"Basic realm="publish""#, www_authenticate_header());
}

#[test]
fn newsletters_are_delivered_to_confirmed_subscribers() {
    let mut store = store_with_user("operator", "everythinghastostartsomewhere");
    subscribe_confirmed(&mut store, "le guin", "ursula_le_guin@gmail.com");
    let header = basic_header("operator", "everythinghastostartsomewhere");
    let mut broadcast =
        publish_newsletter(&store, newsletter_body(), Some(header.as_slice())).unwrap();
    let mut delivered: Vec<String> = Vec::new();
    while let Some(send) = broadcast.next_send() {
        assert_eq!("Newsletter title", send.subject);
        assert_eq!("<p>Newsletter body as HTML</p>", send.html_body);
        assert_eq!("Newsletter body as plain text", send.text_body);
        delivered.push(send.to);
        broadcast.record_success();
    }
    assert!(broadcast.is_done());
    assert_eq!(vec!["ursula_le_guin@gmail.com".to_string()], delivered);
}

#[test]
fn newsletters_are_not_delivered_to_unconfirmed_subscribers() {
    let mut store = store_with_user("operator", "everythinghastostartsomewhere");
    // subscribed, but the confirmation link was never followed
    subscribe(
        &mut store,
        FormData {
            email: "ursula_le_guin@gmail.com".to_string(),
            name: "le guin".to_string(),
        },
        "https://example.com",
    )
    .unwrap();
    let header = basic_header("operator", "everythinghastostartsomewhere");
    let broadcast =
        publish_newsletter(&store, newsletter_body(), Some(header.as_slice())).unwrap();
    assert_eq!(0, broadcast.recipients().len());
    assert!(broadcast.next_send().is_none());
    assert!(broadcast.is_done());
}

#[test]
fn newsletters_returns_400_for_invalid_data() {
    // missing title
    let content = Content::from_parts(
        Some("<p>Newsletter body as HTML</p>".to_string()),
        Some("Newsletter body as plain text".to_string()),
    )
    .unwrap();
    let missing_title = BodyData::from_parts(None, Some(content));
    assert_eq!("missing field `title`", missing_title.err().unwrap());
    // missing content
    let missing_content = BodyData::from_parts(Some("Newsletter!".to_string()), None);
    assert_eq!("missing field `content`", missing_content.err().unwrap());
    // missing parts of the content
    let missing_html = Content::from_parts(None, Some("plain".to_string()));
    assert_eq!("missing field `html`", missing_html.err().unwrap());
    let missing_text = Content::from_parts(Some("<p>h</p>".to_string()), None);
    assert_eq!("missing field `text`", missing_text.err().unwrap());
}

#[test]
fn a_transport_failure_aborts_the_fan_out() {
    let mut store = store_with_user("operator", "everythinghastostartsomewhere");
    subscribe_confirmed(&mut store, "le guin", "ursula_le_guin@gmail.com");
    subscribe_confirmed(&mut store, "sparrowhawk", "ged@roke.example");
    let header = basic_header("operator", "everythinghastostartsomewhere");
    let mut broadcast =
        publish_newsletter(&store, newsletter_body(), Some(header.as_slice())).unwrap();
    assert_eq!(2, broadcast.recipients().len());
    let first = broadcast.next_send().unwrap();
    assert_eq!("ursula_le_guin@gmail.com", first.to);
    broadcast.record_success();
    // the transport fails hard on the second recipient
    let error = broadcast.record_failure();
    assert_eq!(500, error.status_code());
    assert_eq!(
        "Failed to send newsletter issue to ged@roke.example",
        error.message()
    );
}

#[test]
fn publish_error_statuses_match_the_http_surface() {
    let auth = PublishError::AuthError(zero2prod::AuthError::InvalidCredentials);
    assert_eq!(401, auth.status_code());
    assert_eq!("Authentication failed", auth.message());
    let unexpected = PublishError::UnexpectedError("the pool fell over".to_string());
    assert_eq!(500, unexpected.status_code());
    assert_eq!("the pool fell over", unexpected.message());
}
