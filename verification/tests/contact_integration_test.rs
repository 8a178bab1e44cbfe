use contact_site::fragment::ContactFormTemplate;

#[test]
fn test_contact_form_datastar_signals() {
    // Check that the contact form template has proper Datastar signals
    let template_content = ContactFormTemplate.render();

    // Test 1: Verify data-signals is defined with proper structure
    assert!(
        template_content.contains("data-signals="),
        "Contact form must have data-signals defined"
    );

    assert!(
        template_content.contains("showSuccess") && template_content.contains("showError"),
        "Data signals must include showSuccess and showError"
    );

    assert!(
        template_content.contains("errorMessage")
            && template_content.contains("name")
            && template_content.contains("email"),
        "Data signals must include errorMessage, name, and email"
    );

    // Test 2: Verify data-show attributes for visibility control
    assert!(
        template_content.contains("data-show=\"$showSuccess\""),
        "Success section should be controlled by showSuccess signal"
    );

    assert!(
        template_content.contains("data-show=\"$showError\""),
        "Error section should be controlled by showError signal"
    );

    assert!(
        template_content.contains("data-show=\"!$showSuccess\""),
        "Form should be hidden when success is shown"
    );

    // Test 3: Verify data-text for error message display
    assert!(
        template_content.contains("data-text=\"$errorMessage\""),
        "Error message should use data-text with errorMessage signal"
    );

    // Test 4: Verify data-bind attributes on form inputs
    assert!(
        template_content.contains("data-bind=\"name\""),
        "Name input should have data-bind attribute"
    );

    assert!(
        template_content.contains("data-bind=\"email\""),
        "Email input should have data-bind attribute"
    );

    assert!(
        template_content.contains("data-bind=\"phone\""),
        "Phone input should have data-bind attribute"
    );

    assert!(
        template_content.contains("data-bind=\"service\""),
        "Service select should have data-bind attribute"
    );

    assert!(
        template_content.contains("data-bind=\"message\""),
        "Message textarea should have data-bind attribute"
    );

    // Test 5: Verify reset functionality on success
    assert!(
        template_content.contains("$showSuccess = false; $showError = false"),
        "Send Another Message button should reset visibility signals"
    );
}
