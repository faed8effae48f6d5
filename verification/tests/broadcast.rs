use subscriptions::broadcast::{publish_newsletter, BodyData, BroadcastRun, Content};
use subscriptions::codec::encode_basic_credentials;
use subscriptions::domain::{FormData, Subscriber};
use subscriptions::errors::StatusKind;
use subscriptions::manager::{ConnEvent, DatabaseConfig};
use subscriptions::store::ModelManager;

fn config() -> DatabaseConfig {
    DatabaseConfig {
        url: "mem://".to_string(),
        username: "root".to_string(),
        password: "root".to_string(),
        namespace: None,
        name: None,
    }
}

fn newsletter() -> BodyData {
    BodyData {
        title: "Newsletter title".to_string(),
        content: Content {
            html: "<p>Newsletter body as html</p>".to_string(),
            text: "Newsletter body as plain text".to_string(),
        },
    }
}

/// A ready store with one confirmed subscriber, one pending subscriber, and
/// one administrator.
fn prepared_manager() -> ModelManager {
    let mut mm = ModelManager::new(config());
    mm.connection_step(ConnEvent::Demand);
    mm.connection_step(ConnEvent::Succeeded { handle: 1 });
    let confirmed = Subscriber::try_from(FormData {
        email: "ursula@example.com".to_string(),
        name: "le guin".to_string(),
    })
    .expect("valid form");
    mm.create_subscriber(&confirmed, "token-one").expect("creation");
    mm.confirm_subscriber("token-one".to_string()).expect("confirmation");
    let pending = Subscriber::try_from(FormData {
        email: "octavia@example.com".to_string(),
        name: "butler".to_string(),
    })
    .expect("valid form");
    mm.create_subscriber(&pending, "token-two").expect("creation");
    mm.create_user("admin".to_string(), "s3cret".to_string()).expect("seeding");
    mm
}

#[test]
fn publishing_with_valid_credentials_plans_one_email_per_confirmed_subscriber() {
    let mm = prepared_manager();
    let header = encode_basic_credentials("admin", "s3cret");
    let plan = publish_newsletter(&mm, &header, &newsletter()).expect("publication is allowed");
    assert_eq!(plan.len(), 1);
    assert_eq!(plan[0].to, "ursula@example.com");
    assert_eq!(plan[0].subject, "Newsletter title");
    assert_eq!(plan[0].html, "<p>Newsletter body as html</p>");
    assert_eq!(plan[0].text, "Newsletter body as plain text");
}

#[test]
fn publishing_with_a_wrong_secret_dispatches_nothing() {
    let mm = prepared_manager();
    let header = encode_basic_credentials("admin", "wrong");
    let e = publish_newsletter(&mm, &header, &newsletter())
        .expect_err("invalid credentials are rejected");
    assert_eq!(e.status_kind(), StatusKind::Unauthorized);
}

#[test]
fn publishing_as_an_unknown_user_dispatches_nothing() {
    let mm = prepared_manager();
    let header = encode_basic_credentials("nobody", "s3cret");
    let e = publish_newsletter(&mm, &header, &newsletter())
        .expect_err("unknown users are rejected");
    assert_eq!(e.status_kind(), StatusKind::Unauthorized);
}

#[test]
fn publishing_with_a_malformed_header_dispatches_nothing() {
    let mm = prepared_manager();
    let e = publish_newsletter(&mm, "Basic not-base64!", &newsletter())
        .expect_err("a malformed header is rejected");
    assert_eq!(e.status_kind(), StatusKind::Unauthorized);
}

#[test]
fn pending_subscribers_receive_nothing() {
    let mm = prepared_manager();
    let header = encode_basic_credentials("admin", "s3cret");
    let plan = publish_newsletter(&mm, &header, &newsletter()).expect("publication is allowed");
    assert!(plan.iter().all(|email| email.to != "octavia@example.com"));
}

#[test]
fn dispatch_walks_the_plan_in_order_until_it_is_done() {
    let mm = prepared_manager();
    let header = encode_basic_credentials("admin", "s3cret");
    let plan = publish_newsletter(&mm, &header, &newsletter()).expect("publication is allowed");
    let mut run = BroadcastRun::new(plan);
    let first = run.next_dispatch().expect("one message is planned");
    assert_eq!(first.to, "ursula@example.com");
    run.record_outcome(true);
    assert!(run.next_dispatch().is_none());
    assert!(!run.aborted);
}

#[test]
fn the_first_delivery_failure_aborts_the_rest_of_the_broadcast() {
    let plan = vec![
        subscriptions::broadcast::OutgoingEmail {
            to: "a@example.com".to_string(),
            subject: "t".to_string(),
            html: "h".to_string(),
            text: "x".to_string(),
        },
        subscriptions::broadcast::OutgoingEmail {
            to: "b@example.com".to_string(),
            subject: "t".to_string(),
            html: "h".to_string(),
            text: "x".to_string(),
        },
        subscriptions::broadcast::OutgoingEmail {
            to: "c@example.com".to_string(),
            subject: "t".to_string(),
            html: "h".to_string(),
            text: "x".to_string(),
        },
    ];
    let mut run = BroadcastRun::new(plan);
    assert_eq!(run.next_dispatch().expect("first message").to, "a@example.com");
    run.record_outcome(true);
    assert_eq!(run.next_dispatch().expect("second message").to, "b@example.com");
    run.record_outcome(false);
    // All-or-nothing: after one failure nothing further is handed out.
    assert!(run.next_dispatch().is_none());
    assert!(run.aborted);
    assert_eq!(run.next, 1);
}

#[test]
fn publishing_before_the_connection_is_ready_is_an_authentication_failure() {
    let mm = ModelManager::new(config());
    let header = encode_basic_credentials("admin", "s3cret");
    assert!(publish_newsletter(&mm, &header, &newsletter()).is_err());
}

#[test]
fn publish_failures_share_one_kind_and_one_message() {
    let mm = prepared_manager();
    let failures = [
        publish_newsletter(&mm, &encode_basic_credentials("admin", "wrong"), &newsletter()),
        publish_newsletter(&mm, &encode_basic_credentials("nobody", "s3cret"), &newsletter()),
        publish_newsletter(&mm, "Basic not-base64!", &newsletter()),
        publish_newsletter(&mm, "Bearer abc", &newsletter()),
    ];
    for outcome in failures {
        let e = match outcome {
            Err(e) => e,
            Ok(_) => panic!("expected the publication to be rejected"),
        };
        assert_eq!(e.status_kind(), StatusKind::Unauthorized);
        assert_eq!(e.message(), "invalid credentials");
    }
}
