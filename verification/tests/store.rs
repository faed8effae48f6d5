use subscriptions::codec::Credentials;
use subscriptions::domain::{FormData, Subscriber};
use subscriptions::errors::StatusKind;
use subscriptions::manager::{ConnEvent, DatabaseConfig};
use subscriptions::store::{
    confirm, confirmation_email, get_confirmation_link, subscribe, ModelManager, Params, Status,
    TOKEN_LENGTH,
};

fn config() -> DatabaseConfig {
    DatabaseConfig {
        url: "mem://".to_string(),
        username: "root".to_string(),
        password: "root".to_string(),
        namespace: Some("app".to_string()),
        name: Some("newsletter".to_string()),
    }
}

fn ready_manager() -> ModelManager {
    let mut mm = ModelManager::new(config());
    mm.connection_step(ConnEvent::Demand);
    mm.connection_step(ConnEvent::Succeeded { handle: 1 });
    mm
}

fn subscriber(name: &str, email: &str) -> Subscriber {
    Subscriber::try_from(FormData {
        email: email.to_string(),
        name: name.to_string(),
    })
    .expect("a valid form")
}

#[test]
fn creation_writes_the_token_and_the_pending_subscription_together() {
    let mut mm = ready_manager();
    let sub = subscriber("le guin", "ursula@example.com");
    mm.create_subscriber(&sub, "token-one").expect("creation must succeed");
    assert_eq!(mm.tokens.len(), 1);
    assert_eq!(mm.tokens[0].token, "token-one");
    assert_eq!(mm.subs.len(), 1);
    assert_eq!(mm.subs[0].email, "ursula@example.com");
    assert_eq!(mm.subs[0].name, "le guin");
    assert_eq!(mm.subs[0].status, Status::Pending);
    assert_eq!(mm.subs[0].token_ix, 0);
}

#[test]
fn a_rejected_creation_leaves_no_row_behind() {
    // Simulate the store failing the transaction after the token write,
    // before the subscription write: afterwards neither row is visible.
    let mut mm = ready_manager();
    mm.inject_fault();
    let sub = subscriber("le guin", "ursula@example.com");
    let e = mm.create_subscriber(&sub, "token-one").expect_err("the store rejects it");
    assert_eq!(e.status_kind(), StatusKind::InternalServerError);
    assert_eq!(mm.tokens.len(), 0);
    assert_eq!(mm.subs.len(), 0);
    // The failure is not sticky: the next attempt runs in full.
    mm.create_subscriber(&sub, "token-one").expect("the retry succeeds");
    assert_eq!(mm.tokens.len(), 1);
    assert_eq!(mm.subs.len(), 1);
}

#[test]
fn a_duplicate_token_is_a_store_error_and_changes_nothing() {
    let mut mm = ready_manager();
    let sub = subscriber("le guin", "ursula@example.com");
    mm.create_subscriber(&sub, "token-one").expect("first creation");
    let other = subscriber("octavia", "octavia@example.com");
    assert!(mm.create_subscriber(&other, "token-one").is_err());
    assert_eq!(mm.tokens.len(), 1);
    assert_eq!(mm.subs.len(), 1);
}

#[test]
fn operations_fail_while_the_connection_is_not_ready() {
    let mut mm = ModelManager::new(config());
    let sub = subscriber("le guin", "ursula@example.com");
    assert!(mm.create_subscriber(&sub, "token-one").is_err());
    assert!(mm.confirm_subscriber("token-one".to_string()).is_err());
    assert!(mm.get_confirmed_subscribers().is_err());
    assert!(mm.db().is_err());
    assert_eq!(mm.tokens.len(), 0);
    assert_eq!(mm.subs.len(), 0);
}

#[test]
fn subscribe_then_confirm_yields_exactly_one_confirmed_subscriber() {
    let mut mm = ready_manager();
    let token = subscribe(
        &mut mm,
        FormData {
            email: "ursula@example.com".to_string(),
            name: "le guin".to_string(),
        },
    )
    .expect("subscription must succeed");
    assert_eq!(token.len(), TOKEN_LENGTH);
    assert!(token.chars().all(|c| c.is_ascii_alphanumeric()));
    let before = mm.get_confirmed_subscribers().expect("connected");
    assert_eq!(before.len(), 0);
    confirm(&mut mm, Params { token }).expect("confirmation must succeed");
    let after = mm.get_confirmed_subscribers().expect("connected");
    assert_eq!(after.len(), 1);
    assert_eq!(after[0].email, "ursula@example.com");
}

#[test]
fn confirming_twice_is_a_silent_no_op() {
    let mut mm = ready_manager();
    let sub = subscriber("le guin", "ursula@example.com");
    mm.create_subscriber(&sub, "token-one").expect("creation");
    mm.confirm_subscriber("token-one".to_string()).expect("first confirmation");
    assert_eq!(mm.subs[0].status, Status::Confirmed);
    // The second call reports success and changes nothing: the caller cannot
    // tell "already confirmed" from "never existed".
    mm.confirm_subscriber("token-one".to_string()).expect("second confirmation is a no-op");
    assert_eq!(mm.subs[0].status, Status::Confirmed);
    assert_eq!(mm.get_confirmed_subscribers().expect("connected").len(), 1);
}

#[test]
fn confirming_an_unknown_token_is_a_silent_no_op() {
    let mut mm = ready_manager();
    let sub = subscriber("le guin", "ursula@example.com");
    mm.create_subscriber(&sub, "token-one").expect("creation");
    mm.confirm_subscriber("never-issued".to_string()).expect("unknown token is a no-op");
    assert_eq!(mm.subs[0].status, Status::Pending);
    assert_eq!(mm.get_confirmed_subscribers().expect("connected").len(), 0);
}

#[test]
fn an_invalid_form_is_rejected_before_it_reaches_the_store() {
    let mut mm = ready_manager();
    let e = subscribe(
        &mut mm,
        FormData {
            email: "definitely-not-an-email".to_string(),
            name: "le guin".to_string(),
        },
    )
    .expect_err("an invalid email is a client error");
    assert_eq!(e.status_kind(), StatusKind::BadRequest);
    assert_eq!(mm.tokens.len(), 0);
    assert_eq!(mm.subs.len(), 0);
}

#[test]
fn each_subscription_gets_its_own_token() {
    let mut mm = ready_manager();
    let first = subscribe(
        &mut mm,
        FormData {
            email: "a@example.com".to_string(),
            name: "a name".to_string(),
        },
    )
    .expect("first subscription");
    let second = subscribe(
        &mut mm,
        FormData {
            email: "b@example.com".to_string(),
            name: "b name".to_string(),
        },
    )
    .expect("second subscription");
    assert_ne!(first, second);
    assert_eq!(mm.tokens.len(), 2);
}

#[test]
fn valid_credentials_are_accepted() {
    let mut mm = ready_manager();
    mm.create_user("admin".to_string(), "s3cret".to_string()).expect("seeding");
    let id = mm
        .validate_credentials(&Credentials {
            username: "admin".to_string(),
            password: "s3cret".to_string(),
        })
        .expect("the right secret must be accepted");
    assert_eq!(id, 0);
}

#[test]
fn unknown_user_and_wrong_secret_fail_exactly_alike() {
    let mut mm = ready_manager();
    mm.create_user("admin".to_string(), "s3cret".to_string()).expect("seeding");
    let unknown = mm
        .validate_credentials(&Credentials {
            username: "nobody".to_string(),
            password: "s3cret".to_string(),
        })
        .expect_err("an unknown user is rejected");
    let wrong = mm
        .validate_credentials(&Credentials {
            username: "admin".to_string(),
            password: "wrong".to_string(),
        })
        .expect_err("a wrong secret is rejected");
    // One undifferentiated failure: the same kind and the same message, so
    // nothing leaks about which part was wrong.
    assert_eq!(unknown.status_kind(), StatusKind::Unauthorized);
    assert_eq!(wrong.status_kind(), StatusKind::Unauthorized);
    assert_eq!(unknown.message(), wrong.message());
}

#[test]
fn the_confirmation_link_carries_the_token() {
    let link = get_confirmation_link("https://newsletter.example.com/", "token-one");
    assert_eq!(
        link,
        "https://newsletter.example.com/subscriptions/confirm?token=token-one"
    );
}

#[test]
fn the_welcome_email_carries_the_link_in_both_bodies() {
    let sub = subscriber("le guin", "ursula@example.com");
    let email = confirmation_email(&sub, "https://newsletter.example.com/", "tok");
    let link = "https://newsletter.example.com/subscriptions/confirm?token=tok";
    assert_eq!(email.to, "ursula@example.com");
    assert_eq!(email.subject, "Welcome!");
    assert_eq!(
        email.html,
        format!(
            "Welcome to our newsletter!<br />Click <a href=\"{link}\">here</a> to confirm your subscription."
        )
    );
    assert_eq!(
        email.text,
        format!("Welcome to our newsletter!\nVisit {link} to confirm your subscription.")
    );
}
