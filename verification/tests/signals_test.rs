use contact_site::form::{ContactFormData, ContactFormError};
use contact_site::settings::{LogSettings, Metadata, ServerSettings, Settings};
use contact_site::signals::{
    create_error_signals, create_success_signals, process_submission, signals_json,
};

fn full_submission() -> ContactFormData {
    ContactFormData {
        name: "  Ali\u{e9}ce  ".to_string(),
        email: " a@b.com ".to_string(),
        phone: Some("+1 555\t0100".to_string()),
        service: Some("consulting".to_string()),
        message: Some("hello there".to_string()),
    }
}

#[test]
fn success_signals_reset_everything() {
    let s = create_success_signals();
    assert!(s.show_success);
    assert!(!s.show_error);
    assert_eq!(s.error_message, "");
    assert_eq!(s.name, "");
    assert_eq!(s.email, "");
    assert_eq!(s.phone, "");
    assert_eq!(s.service, "");
    assert_eq!(s.message, "");
}

#[test]
fn process_submission_success_resets_even_with_junk_optionals() {
    let form = ContactFormData {
        name: "Alice".to_string(),
        email: "a@b.com".to_string(),
        phone: Some("\u{1}junk".to_string()),
        service: None,
        message: Some("  hi  ".to_string()),
    };
    let s = process_submission(&form);
    assert!(s.show_success);
    assert!(!s.show_error);
    assert_eq!(s.name, "");
    assert_eq!(s.email, "");
    assert_eq!(s.phone, "");
    assert_eq!(s.service, "");
    assert_eq!(s.message, "");
}

#[test]
fn error_signals_preserve_sanitized_fields() {
    let form = full_submission();
    let err = ContactFormError::new("Please enter a valid email address");
    let s = create_error_signals(&form, &err);
    assert!(!s.show_success);
    assert!(s.show_error);
    assert_eq!(s.error_message, "Please enter a valid email address");
    assert_eq!(s.name, "Alice");
    assert_eq!(s.email, "a@b.com");
    assert_eq!(s.phone, "+1 5550100");
    assert_eq!(s.service, "consulting");
    assert_eq!(s.message, "hello there");
}

#[test]
fn error_signals_substitute_empty_for_absent_optionals() {
    let form = ContactFormData {
        name: "Jo".to_string(),
        email: "bad".to_string(),
        phone: None,
        service: None,
        message: None,
    };
    let err = ContactFormError::new("Please enter a valid email address");
    let s = create_error_signals(&form, &err);
    assert_eq!(s.phone, "");
    assert_eq!(s.service, "");
    assert_eq!(s.message, "");
}

#[test]
fn error_message_quotes_are_escaped() {
    let form = ContactFormData {
        name: "Jo".to_string(),
        email: "bad".to_string(),
        phone: None,
        service: None,
        message: None,
    };
    let err = ContactFormError::new("say \"hi\"");
    let s = create_error_signals(&form, &err);
    assert_eq!(s.error_message, "say \\\"hi\\\"");
}

#[test]
fn signals_json_is_well_formed_on_success() {
    let s = create_success_signals();
    let payload = signals_json(&s);
    let parsed: serde_json::Value =
        serde_json::from_str(&payload).expect("success payload must parse as JSON");
    assert_eq!(parsed["showSuccess"], serde_json::Value::Bool(true));
    assert_eq!(parsed["showError"], serde_json::Value::Bool(false));
    assert_eq!(parsed["errorMessage"], "");
    assert_eq!(parsed["name"], "");
    assert_eq!(parsed["email"], "");
    assert_eq!(parsed["phone"], "");
    assert_eq!(parsed["service"], "");
    assert_eq!(parsed["message"], "");
}

#[test]
fn signals_json_is_well_formed_on_failure() {
    let mut form = full_submission();
    form.email = " not-an-email ".to_string();
    form.message = Some("with \"quotes\" and \\slashes\\".to_string());
    let s = process_submission(&form);
    let payload = signals_json(&s);
    let parsed: serde_json::Value =
        serde_json::from_str(&payload).expect("error payload must parse as JSON");
    assert_eq!(parsed["showSuccess"], serde_json::Value::Bool(false));
    assert_eq!(parsed["showError"], serde_json::Value::Bool(true));
    assert_eq!(parsed["errorMessage"], "Please enter a valid email address");
    assert_eq!(parsed["name"], "Alice");
    assert_eq!(parsed["email"], "not-an-email");
    assert_eq!(parsed["phone"], "+1 5550100");
    assert_eq!(parsed["service"], "consulting");
    assert_eq!(parsed["message"], "with \"quotes\" and \\slashes\\");
}

#[test]
fn end_to_end_invalid_email_scenario() {
    let form = ContactFormData {
        name: "Jo".to_string(),
        email: "not-an-email".to_string(),
        phone: None,
        service: None,
        message: None,
    };
    let s = process_submission(&form);
    assert!(s.show_error);
    assert!(!s.show_success);
    assert_eq!(s.error_message, "Please enter a valid email address");
    assert_eq!(s.name, "Jo");
    assert_eq!(s.email, "not-an-email");
    let payload = signals_json(&s);
    let parsed: serde_json::Value = serde_json::from_str(&payload).expect("payload must parse");
    assert_eq!(parsed["showError"], serde_json::Value::Bool(true));
    assert_eq!(parsed["errorMessage"], "Please enter a valid email address");
    assert_eq!(parsed["name"], "Jo");
    assert_eq!(parsed["email"], "not-an-email");
}

#[test]
fn bind_address_joins_host_and_port() {
    let settings = Settings {
        server: ServerSettings {
            host: "127.0.0.1".to_string(),
            port: 8080,
        },
        log: LogSettings {
            level: "info".to_string(),
            format: "plain".to_string(),
        },
        metadata: Metadata {
            name: "contact_site".to_string(),
            version: "0.1.0".to_string(),
        },
    };
    assert_eq!(settings.bind_address(), "127.0.0.1:8080");
    let mut low = settings.clone();
    low.server.port = 0;
    assert_eq!(low.bind_address(), "127.0.0.1:0");
    let mut high = settings;
    high.server.port = 65535;
    assert_eq!(high.bind_address(), "127.0.0.1:65535");
}
