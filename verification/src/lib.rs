//! Subscriber management and broadcast core: registration with validated
//! names and addresses, token-based confirmation, Basic-Auth credential
//! checking, and newsletter fan-out over a transactional subscriber store.

pub mod authentication;
pub mod configuration;
pub mod domain;
pub mod newsletters;
pub mod store;
pub mod subscriptions;
pub mod text;

pub use authentication::basic_authentication;
pub use authentication::validate_credentials;
pub use authentication::AuthError;
pub use authentication::Credentials;
pub use authentication::FALLBACK_PASSWORD_HASH;
pub use configuration::u16_to_decimal;
pub use configuration::ApplicationSettings;
pub use configuration::DatabaseSettings;
pub use configuration::Environment;
pub use configuration::Settings;
pub use domain::is_valid_name;
pub use domain::NewSubscriber;
pub use domain::SubscriberEmail;
pub use domain::SubscriberName;
pub use newsletters::get_confirmed_subscribers;
pub use newsletters::publish_newsletter;
pub use newsletters::www_authenticate_header;
pub use newsletters::BodyData;
pub use newsletters::Broadcast;
pub use newsletters::ConfirmedSubscriber;
pub use newsletters::Content;
pub use newsletters::EmailSend;
pub use newsletters::PublishError;
pub use store::insert_subscriber;
pub use store::store_token;
pub use store::ConfirmError;
pub use store::CredentialRow;
pub use store::Store;
pub use store::StoreError;
pub use store::SubscriberRow;
pub use store::SubscriberStatus;
pub use store::TokenRow;
pub use store::Transaction;
pub use subscriptions::build_confirmation_email;
pub use subscriptions::generate_subscription_token;
pub use subscriptions::parse_form_data;
pub use subscriptions::parse_subscriber;
pub use subscriptions::subscribe;
pub use subscriptions::ConfirmationEmail;
pub use subscriptions::FormData;
pub use subscriptions::SubscribeError;
pub use subscriptions::SubscribeReceipt;
pub use text::error_chain_fmt;
pub use text::str_eq;
