use subscriptions::domain::{FormData, Subscriber, SubscriberEmail, SubscriberName};

#[test]
fn a_256_grapheme_long_name_is_valid() {
    let name = "ё".repeat(256);
    assert!(SubscriberName::try_from(name).is_ok());
}

#[test]
fn a_name_longer_than_256_graphemes_is_rejected() {
    let name = "a".repeat(257);
    assert!(SubscriberName::try_from(name).is_err());
}

#[test]
fn whitespace_only_names_are_rejected() {
    let name = " ".to_string();
    assert!(SubscriberName::try_from(name).is_err());
}

#[test]
fn name_empty_string_is_rejected() {
    let name = "".to_string();
    assert!(SubscriberName::try_from(name).is_err());
}

#[test]
fn names_containing_an_invalid_character_are_rejected() {
    for name in &['/', '(', ')', '"', '<', '>', '\\', '{', '}'] {
        let name = name.to_string();
        assert!(SubscriberName::try_from(name).is_err());
    }
}

#[test]
fn a_valid_name_is_parsed_successfully() {
    let name = "Ursula Le Guin".to_string();
    assert!(SubscriberName::try_from(name).is_ok());
}

#[test]
fn email_empty_string_is_rejected() {
    let email = "".to_string();
    assert!(SubscriberEmail::try_from(email).is_err());
}

#[test]
fn email_missing_at_symbol_is_rejected() {
    let email = "ursuladomain.com".to_string();
    assert!(SubscriberEmail::try_from(email).is_err());
}

#[test]
fn email_missing_subject_is_rejected() {
    let email = "@domain.com".to_string();
    assert!(SubscriberEmail::try_from(email).is_err());
}

#[test]
fn a_valid_email_is_parsed_and_kept_verbatim() {
    let email = SubscriberEmail::try_from("ursula@example.com".to_string())
        .expect("a plain address must be accepted");
    assert_eq!(email.as_ref(), "ursula@example.com");
}

#[test]
fn a_name_with_a_forbidden_character_in_the_middle_is_rejected() {
    let name = "Ursula <Le Guin>".to_string();
    assert!(SubscriberName::try_from(name).is_err());
}

#[test]
fn a_name_of_exactly_one_non_whitespace_character_is_valid() {
    let name = "U".to_string();
    let parsed = SubscriberName::try_from(name).expect("one visible character is enough");
    assert_eq!(parsed.as_ref(), "U");
}

#[test]
fn a_form_with_both_fields_valid_becomes_a_subscriber() {
    let form = FormData {
        email: "ursula@example.com".to_string(),
        name: "le guin".to_string(),
    };
    let subscriber = Subscriber::try_from(form).expect("a valid form must be accepted");
    assert_eq!(subscriber.email.as_ref(), "ursula@example.com");
    assert_eq!(subscriber.name.as_ref(), "le guin");
}

#[test]
fn a_form_with_an_invalid_email_is_rejected_as_validation() {
    let form = FormData {
        email: "definitely-not-an-email".to_string(),
        name: "le guin".to_string(),
    };
    let e = Subscriber::try_from(form).expect_err("an invalid email must be rejected");
    assert!(matches!(
        e.status_kind(),
        subscriptions::errors::StatusKind::BadRequest
    ));
}

#[test]
fn a_form_with_an_empty_name_is_rejected_as_validation() {
    let form = FormData {
        email: "ursula@example.com".to_string(),
        name: "".to_string(),
    };
    assert!(Subscriber::try_from(form).is_err());
}
