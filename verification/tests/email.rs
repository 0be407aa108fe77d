use vending_machine::email::{EmailString, InvalidEmailFormat, EMAIL_RAW_REGEXP};

#[test]
fn test_email() {
    assert!(EmailString::try_from(String::from("")).is_err());

    assert!(EmailString::try_from("").is_err());
    assert!(EmailString::try_from("test").is_err());
    assert!(EmailString::try_from("test@").is_err());
    assert!(EmailString::try_from("@test").is_err());
    assert!(EmailString::try_from("test@test").is_err());
    assert!(EmailString::try_from("test@test.").is_err());

    let email = EmailString::try_from("test@test.com");
    assert!(email.is_ok());

    let email_str: String = email.unwrap().into();
    assert!(!email_str.is_empty());
}

#[test]
fn email_keeps_the_text_it_was_made_of() {
    let email = EmailString::try_from(String::from("first.last+tag@mail.example.org")).unwrap();
    assert_eq!(email.as_str(), "first.last+tag@mail.example.org");
    let text: &str = email.as_ref();
    assert_eq!(text, "first.last+tag@mail.example.org");
    let mut known = std::collections::HashSet::new();
    known.insert(email.clone());
    assert!(known.contains("first.last+tag@mail.example.org"));
    let again = EmailString::try_from("first.last+tag@mail.example.org").unwrap();
    assert_eq!(email, again);
    let text: String = again.into();
    assert_eq!(text, "first.last+tag@mail.example.org");
}

#[test]
fn email_pattern_is_anchored_at_the_start_only() {
    assert!(EmailString::try_from(" test@test.com").is_err());
    assert!(EmailString::try_from("Test@test.com").is_err());
    assert!(EmailString::try_from(".test@test.com").is_err());
    assert!(EmailString::try_from("test@test.com and more").is_ok());
    assert!(EMAIL_RAW_REGEXP.starts_with('^'));
}

#[test]
fn accept_goes_by_the_verdict_alone() {
    assert!(EmailString::accept(String::from("anything"), Some(true)).is_ok());
    assert!(EmailString::accept(String::from("a@b.cd"), Some(false)).is_err());
    assert!(EmailString::accept(String::from("a@b.cd"), None).is_err());
    let refused: InvalidEmailFormat = EmailString::accept(String::new(), None).unwrap_err();
    assert_eq!(refused.message(), "invalid email format");
}
