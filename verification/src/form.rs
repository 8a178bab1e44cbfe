//! The contact form submission and its validation: sequential field
//! checks that stop at the first violated rule.

use vstd::prelude::*;
use vstd::string::StringSliceAdditionalSpecFns;
use vstd::utf8::encode_utf8;
use crate::email::{is_valid_email, valid_email_chars};
use crate::text::{str_trim, trim_ws};

verus! {

/// One contact form submission. Transient: built from a single request
/// body and discarded once the response is produced.
pub struct ContactFormData {
    pub name: String,
    pub email: String,
    pub phone: Option<String>,
    pub service: Option<String>,
    pub message: Option<String>,
}

/// A validation failure, carrying the human-readable message of the
/// first rule violated.
pub struct ContactFormError {
    pub error_message: String,
}

impl ContactFormError {
    pub fn new(message: &str) -> (r: Self)
        ensures
            r.error_message@ == message@,
    {
        Self { error_message: String::from_str(message) }
    }
}

/// The message of the first violated rule, or `None` when the submission
/// is valid. The rules run in fixed priority order: empty name, name
/// shorter than two bytes, empty email, malformed email. `phone`,
/// `service` and `message` are never validated.
pub open spec fn first_violation(name: Seq<char>, email: Seq<char>) -> Option<Seq<char>> {
    let nt = trim_ws(name);
    let et = trim_ws(email);
    if nt.len() == 0 {
        Some("Name is required"@)
    } else if encode_utf8(nt).len() < 2 {
        Some("Name must be at least 2 characters"@)
    } else if et.len() == 0 {
        Some("Email is required"@)
    } else if !valid_email_chars(et) {
        Some("Please enter a valid email address"@)
    } else {
        None
    }
}

/// Validate a submission. Returns `Ok` exactly when no rule is violated,
/// and otherwise the message of the first violated rule.
pub fn validate_contact_form(form: &ContactFormData) -> (r: Result<(), ContactFormError>)
    ensures
        (r is Ok) == (first_violation(form.name@, form.email@) is None),
        r matches Err(e) ==> Some(e.error_message@) == first_violation(form.name@, form.email@),
{
    let name = str_trim(form.name.as_str());

    if name.is_empty() {
        return Err(ContactFormError::new("Name is required"));
    }
    proof {
        broadcast use vstd::slice::group_slice_axioms;

        assert(name.spec_bytes() == encode_utf8(name@));
    }
    if name.as_bytes().len() < 2 {
        return Err(ContactFormError::new("Name must be at least 2 characters"));
    }

    let email = str_trim(form.email.as_str());

    if email.is_empty() {
        return Err(ContactFormError::new("Email is required"));
    }
    if !is_valid_email(form.email.as_str()) {
        return Err(ContactFormError::new("Please enter a valid email address"));
    }

    Ok(())
}

} // verus!
