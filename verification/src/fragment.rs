//! The contact form fragment: static markup whose dynamic behaviour
//! lives entirely in its declarative client-side bindings.

use vstd::prelude::*;

verus! {

/// The markup of the contact form fragment. The signal store it declares
/// matches the keys of the serialized signal-patch payload, so the
/// pushed state updates bind to it directly.
pub const CONTACT_FORM_MARKUP: &'static str = "<div id=\"contact-form-section\" data-signals=\"{showSuccess: false, showError: false, errorMessage: '', name: '', email: '', phone: '', service: '', message: ''}\">
  <div class=\"form-success\" data-show=\"$showSuccess\">
    <h3>Thank you!</h3>
    <p>Your message has been sent. We will get back to you shortly.</p>
    <button type=\"button\" data-on-click=\"$showSuccess = false; $showError = false\">Send Another Message</button>
  </div>
  <form data-show=\"!$showSuccess\" data-on-submit=\"@post('/contact/form', {contentType: 'form'})\">
    <div class=\"form-error\" data-show=\"$showError\">
      <p data-text=\"$errorMessage\"></p>
    </div>
    <label for=\"name\">Name</label>
    <input id=\"name\" name=\"name\" type=\"text\" data-bind=\"name\" required>
    <label for=\"email\">Email</label>
    <input id=\"email\" name=\"email\" type=\"email\" data-bind=\"email\" required>
    <label for=\"phone\">Phone</label>
    <input id=\"phone\" name=\"phone\" type=\"tel\" data-bind=\"phone\">
    <label for=\"service\">Service</label>
    <select id=\"service\" name=\"service\" data-bind=\"service\">
      <option value=\"\">Select a service</option>
      <option value=\"consulting\">Consulting</option>
      <option value=\"development\">Development</option>
      <option value=\"other\">Other</option>
    </select>
    <label for=\"message\">Message</label>
    <textarea id=\"message\" name=\"message\" data-bind=\"message\"></textarea>
    <button type=\"submit\">Send Message</button>
  </form>
</div>
";

/// The contact form fragment. It has no dynamic parameters: rendering
/// always succeeds and always yields the same markup.
pub struct ContactFormTemplate;

impl ContactFormTemplate {
    /// Render the fragment's markup.
    pub fn render(&self) -> (r: String)
        ensures
            r@ == CONTACT_FORM_MARKUP@,
    {
        String::from_str(CONTACT_FORM_MARKUP)
    }
}

} // verus!
