use contact_site::email::is_valid_email;
use contact_site::form::{validate_contact_form, ContactFormData, ContactFormError};
use contact_site::text::sanitize_input;

fn submission(name: &str, email: &str) -> ContactFormData {
    ContactFormData {
        name: name.to_string(),
        email: email.to_string(),
        phone: None,
        service: None,
        message: None,
    }
}

fn error_message(r: Result<(), ContactFormError>) -> String {
    r.expect_err("expected a validation failure").error_message
}

#[test]
fn sanitize_strips_controls_and_non_ascii() {
    assert_eq!(sanitize_input("hello"), "hello");
    assert_eq!(sanitize_input("  hello  "), "hello");
    assert_eq!(sanitize_input("h\u{e9}llo"), "hllo");
    assert_eq!(sanitize_input("a\tb\r\nc"), "abc");
    assert_eq!(sanitize_input("\u{1}abc\u{7f}"), "abc");
    assert_eq!(sanitize_input("\u{65e5}\u{672c}\u{8a9e}"), "");
    assert_eq!(sanitize_input(""), "");
    assert_eq!(sanitize_input(" \t \r\n "), "");
    assert_eq!(sanitize_input("  h\u{e9}llo\tworld  "), "hlloworld");
}

#[test]
fn sanitize_is_idempotent_on_samples() {
    let samples = [
        "hello",
        "  a b  ",
        "h\u{e9}llo\tworld",
        "\u{1}x\u{7f}",
        "",
        "   ",
        "a \u{200a} b",
    ];
    for s in samples {
        let once = sanitize_input(s);
        let twice = sanitize_input(&once);
        assert_eq!(twice, once, "sanitizing twice changed {s:?}");
    }
}

#[test]
fn email_validator_structural_cases() {
    assert!(is_valid_email("a@b.com"));
    assert!(!is_valid_email("a@b"));
    assert!(!is_valid_email("@b.com"));
    assert!(!is_valid_email("ab.com"));
    assert!(!is_valid_email("a@@b.com"));
    assert!(!is_valid_email("a@"));
    assert!(!is_valid_email(""));
    assert!(is_valid_email("  a@b.com  "));
}

#[test]
fn form_validator_first_failure_order() {
    assert_eq!(
        error_message(validate_contact_form(&submission("", "x@y.com"))),
        "Name is required"
    );
    assert_eq!(
        error_message(validate_contact_form(&submission("A", "x@y.com"))),
        "Name must be at least 2 characters"
    );
    assert_eq!(
        error_message(validate_contact_form(&submission("Al", ""))),
        "Email is required"
    );
    assert_eq!(
        error_message(validate_contact_form(&submission("Al", "bad"))),
        "Please enter a valid email address"
    );
    assert!(validate_contact_form(&submission("Alice", "a@b.com")).is_ok());
}

#[test]
fn form_validator_trims_before_checking() {
    assert_eq!(
        error_message(validate_contact_form(&submission("   ", "x@y.com"))),
        "Name is required"
    );
    assert_eq!(
        error_message(validate_contact_form(&submission(" A ", "x@y.com"))),
        "Name must be at least 2 characters"
    );
    assert_eq!(
        error_message(validate_contact_form(&submission("Al", "   "))),
        "Email is required"
    );
    assert!(validate_contact_form(&submission("Al", " a@b.com ")).is_ok());
}

#[test]
fn optional_fields_are_never_validated() {
    let form = ContactFormData {
        name: "Alice".to_string(),
        email: "a@b.com".to_string(),
        phone: Some("\u{1}not a phone\u{7f}".to_string()),
        service: Some("".to_string()),
        message: None,
    };
    assert!(validate_contact_form(&form).is_ok());
}
