//! The signal-patch payload: the per-request UI state pushed to the
//! client, and its serialization as a JSON object.

use vstd::prelude::*;
use crate::form::{first_violation, validate_contact_form, ContactFormData, ContactFormError};
use crate::text::{is_printable_ascii, lemma_sanitize_printable, sanitize_input, sanitize_spec};

verus! {

/// The whole server-held view state for one request: visibility flags,
/// the error message, and the echoed (sanitized) field values.
pub struct UiSignalState {
    pub show_success: bool,
    pub show_error: bool,
    pub error_message: String,
    pub name: String,
    pub email: String,
    pub phone: String,
    pub service: String,
    pub message: String,
}

/// `s` with a backslash put before each double quote.
pub open spec fn escape_quotes(s: Seq<char>) -> Seq<char>
    decreases s.len(),
{
    if s.len() == 0 {
        Seq::empty()
    } else {
        let head = if s.first() == '"' {
            seq!['\\', '"']
        } else {
            seq![s.first()]
        };
        head + escape_quotes(s.drop_first())
    }
}

/// `s` with each double quote and each backslash preceded by a
/// backslash, as a JSON string value requires.
pub open spec fn json_escape(s: Seq<char>) -> Seq<char>
    decreases s.len(),
{
    if s.len() == 0 {
        Seq::empty()
    } else {
        let head = if s.first() == '"' || s.first() == '\\' {
            seq!['\\', s.first()]
        } else {
            seq![s.first()]
        };
        head + json_escape(s.drop_first())
    }
}

/// What an optional field echoes back: its sanitized value, or the empty
/// string when it was absent.
pub open spec fn echoed(o: Option<String>) -> Seq<char> {
    match o {
        Some(s) => sanitize_spec(s@),
        None => Seq::empty(),
    }
}

/// A well-formed JSON string body: raw characters are at or above
/// `0x20` and are neither a quote nor a backslash; a backslash only
/// starts one of the two-character escapes `\"` or `\\`.
pub open spec fn is_escaped_body(s: Seq<char>) -> bool
    decreases s.len(),
{
    if s.len() == 0 {
        true
    } else if s.first() == '\\' {
        s.len() >= 2 && (s[1] == '"' || s[1] == '\\') && is_escaped_body(s.skip(2))
    } else {
        s.first() != '"' && 0x20 <= s.first() as u32 && is_escaped_body(s.drop_first())
    }
}

/// The string value a JSON parser reads back from an escaped body.
pub open spec fn json_unescape(s: Seq<char>) -> Seq<char>
    decreases s.len(),
{
    if s.len() == 0 {
        Seq::empty()
    } else if s.first() == '\\' && s.len() >= 2 {
        seq![s[1]] + json_unescape(s.skip(2))
    } else {
        seq![s.first()] + json_unescape(s.drop_first())
    }
}

/// Escaping a string whose characters are all at or above `0x20` (as
/// every sanitized string is) yields a well-formed JSON string body: in
/// particular it contains no unescaped quote, so splicing it between
/// quotes keeps the payload parseable.
pub proof fn lemma_json_escape_well_formed(s: Seq<char>)
    requires
        forall|i: int| 0 <= i < s.len() ==> 0x20 <= (#[trigger] s[i]) as u32,
    ensures
        is_escaped_body(json_escape(s)),
    decreases s.len(),
{
    if s.len() > 0 {
        let rest = s.drop_first();
        assert forall|i: int| 0 <= i < rest.len() implies 0x20 <= (#[trigger] rest[i]) as u32 by {
            assert(rest[i] == s[i + 1]);
        }
        lemma_json_escape_well_formed(rest);
        let e = json_escape(s);
        if s.first() == '"' || s.first() == '\\' {
            assert(e =~= seq!['\\', s.first()] + json_escape(rest));
            assert(e.skip(2) =~= json_escape(rest));
        } else {
            assert(e =~= seq![s.first()] + json_escape(rest));
            assert(e.drop_first() =~= json_escape(rest));
        }
    }
}

/// Escaping loses nothing: a JSON parser reads back exactly the string
/// that was escaped.
pub proof fn lemma_json_escape_round_trip(s: Seq<char>)
    ensures
        json_unescape(json_escape(s)) == s,
    decreases s.len(),
{
    if s.len() > 0 {
        let rest = s.drop_first();
        lemma_json_escape_round_trip(rest);
        let e = json_escape(s);
        if s.first() == '"' || s.first() == '\\' {
            assert(e == seq!['\\', s.first()] + json_escape(rest));
            assert(e.first() == '\\' && e.len() >= 2);
            assert(e[1] == s.first());
            assert(e.skip(2) =~= json_escape(rest));
            assert(json_unescape(e) == seq![s.first()] + rest);
        } else {
            assert(e == seq![s.first()] + json_escape(rest));
            assert(e.first() == s.first());
            if e.first() == '\\' && e.len() >= 2 {
                assert(false);
            }
            assert(e.drop_first() =~= json_escape(rest));
            assert(json_unescape(e) == seq![s.first()] + rest);
        }
        assert(seq![s.first()] + rest =~= s);
    }
}

/// Putting a backslash before each quote keeps every character at or
/// above `0x20` if the input's characters all were.
pub proof fn lemma_escape_quotes_printable(s: Seq<char>)
    requires
        forall|i: int| 0 <= i < s.len() ==> 0x20 <= (#[trigger] s[i]) as u32,
    ensures
        forall|i: int| 0 <= i < escape_quotes(s).len() ==> 0x20 <= (#[trigger] escape_quotes(
            s,
        )[i]) as u32,
    decreases s.len(),
{
    if s.len() > 0 {
        let rest = s.drop_first();
        assert forall|i: int| 0 <= i < rest.len() implies 0x20 <= (#[trigger] rest[i]) as u32 by {
            assert(rest[i] == s[i + 1]);
        }
        lemma_escape_quotes_printable(rest);
        let head: Seq<char> = if s.first() == '"' {
            seq!['\\', '"']
        } else {
            seq![s.first()]
        };
        assert forall|i: int| 0 <= i < escape_quotes(s).len() implies 0x20 <= (
        #[trigger] escape_quotes(s)[i]) as u32 by {
            if i >= head.len() {
                assert(escape_quotes(s)[i] == escape_quotes(rest)[i - head.len()]);
            }
        }
    }
}

proof fn lemma_sanitized_above_space(s: Seq<char>)
    ensures
        forall|i: int| 0 <= i < sanitize_spec(s).len() ==> 0x20 <= (#[trigger] sanitize_spec(
            s,
        )[i]) as u32,
{
    lemma_sanitize_printable(s);
    assert forall|i: int| 0 <= i < sanitize_spec(s).len() implies 0x20 <= (
    #[trigger] sanitize_spec(s)[i]) as u32 by {
        assert(is_printable_ascii(sanitize_spec(s)[i]));
    }
}

/// On failure, every string spliced into the serialized payload is a
/// well-formed JSON string body: the echoed fields because sanitization
/// left only printable ASCII, the error message because escaping keeps
/// every character at or above `0x20`. The payload therefore parses as
/// well-formed structured data.
pub proof fn lemma_error_payload_escaped(r: UiSignalState, form: ContactFormData, msg: Seq<char>)
    requires
        is_error_state(r, form, msg),
        forall|i: int| 0 <= i < msg.len() ==> 0x20 <= (#[trigger] msg[i]) as u32,
    ensures
        is_escaped_body(json_escape(r.error_message@)),
        is_escaped_body(json_escape(r.name@)),
        is_escaped_body(json_escape(r.email@)),
        is_escaped_body(json_escape(r.phone@)),
        is_escaped_body(json_escape(r.service@)),
        is_escaped_body(json_escape(r.message@)),
{
    lemma_escape_quotes_printable(msg);
    lemma_json_escape_well_formed(r.error_message@);
    lemma_sanitized_above_space(form.name@);
    lemma_json_escape_well_formed(r.name@);
    lemma_sanitized_above_space(form.email@);
    lemma_json_escape_well_formed(r.email@);
    match form.phone {
        Some(p) => lemma_sanitized_above_space(p@),
        None => (),
    }
    lemma_json_escape_well_formed(r.phone@);
    match form.service {
        Some(p) => lemma_sanitized_above_space(p@),
        None => (),
    }
    lemma_json_escape_well_formed(r.service@);
    match form.message {
        Some(p) => lemma_sanitized_above_space(p@),
        None => (),
    }
    lemma_json_escape_well_formed(r.message@);
}

/// The success state: success shown, no error, and every echoed field
/// reset to empty.
pub open spec fn is_success_state(r: UiSignalState) -> bool {
    &&& r.show_success == true
    &&& r.show_error == false
    &&& r.error_message@ == Seq::<char>::empty()
    &&& r.name@ == Seq::<char>::empty()
    &&& r.email@ == Seq::<char>::empty()
    &&& r.phone@ == Seq::<char>::empty()
    &&& r.service@ == Seq::<char>::empty()
    &&& r.message@ == Seq::<char>::empty()
}

/// The failure state for a submission and the message `msg` of the rule
/// it violated: error shown, the message with quotes escaped, and every
/// submitted field echoed back sanitized (empty when absent).
pub open spec fn is_error_state(r: UiSignalState, form: ContactFormData, msg: Seq<char>) -> bool {
    &&& r.show_success == false
    &&& r.show_error == true
    &&& r.error_message@ == escape_quotes(msg)
    &&& r.name@ == sanitize_spec(form.name@)
    &&& r.email@ == sanitize_spec(form.email@)
    &&& r.phone@ == echoed(form.phone)
    &&& r.service@ == echoed(form.service)
    &&& r.message@ == echoed(form.message)
}

/// The signal state sent after a valid submission.
pub fn create_success_signals() -> (r: UiSignalState)
    ensures
        is_success_state(r),
{
    UiSignalState {
        show_success: true,
        show_error: false,
        error_message: String::new(),
        name: String::new(),
        email: String::new(),
        phone: String::new(),
        service: String::new(),
        message: String::new(),
    }
}

/// `s` with a backslash put before each double quote.
pub fn escape_quotes_str(s: &str) -> (r: String)
    ensures
        r@ == escape_quotes(s@),
{
    let n = s.unicode_len();
    let mut out = String::new();
    let mut i: usize = 0;
    proof {
        assert(s@.subrange(0, n as int) =~= s@);
        assert(Seq::<char>::empty() + escape_quotes(s@) =~= escape_quotes(s@));
    }
    while i < n
        invariant
            i <= n,
            n == s@.len(),
            escape_quotes(s@) == out@ + escape_quotes(s@.subrange(i as int, n as int)),
        decreases n - i,
    {
        let c = s.get_char(i);
        proof {
            let suffix = s@.subrange(i as int, n as int);
            assert(suffix.first() == s@[i as int]);
            assert(suffix.drop_first() =~= s@.subrange(i as int + 1, n as int));
            let head: Seq<char> = if c == '"' {
                seq!['\\', '"']
            } else {
                seq![c]
            };
            assert(escape_quotes(suffix) == head + escape_quotes(
                s@.subrange(i as int + 1, n as int),
            ));
            assert(out@ + (head + escape_quotes(s@.subrange(i as int + 1, n as int))) =~= (out@
                + head) + escape_quotes(s@.subrange(i as int + 1, n as int)));
        }
        if c == '"' {
            let piece = "\\\"";
            proof {
                reveal_strlit("\\\"");
                assert(piece@ =~= seq!['\\', '"']);
            }
            out.append(piece);
        } else {
            let piece = s.substring_char(i, i + 1);
            proof {
                assert(piece@ =~= seq![s@[i as int]]);
            }
            out.append(piece);
        }
        i = i + 1;
    }
    proof {
        assert(s@.subrange(n as int, n as int) =~= Seq::<char>::empty());
        assert(out@ + Seq::<char>::empty() =~= out@);
    }
    out
}

/// `s` with each double quote and each backslash preceded by a
/// backslash.
pub fn json_escape_str(s: &str) -> (r: String)
    ensures
        r@ == json_escape(s@),
{
    let n = s.unicode_len();
    let mut out = String::new();
    let mut i: usize = 0;
    proof {
        assert(s@.subrange(0, n as int) =~= s@);
        assert(Seq::<char>::empty() + json_escape(s@) =~= json_escape(s@));
    }
    while i < n
        invariant
            i <= n,
            n == s@.len(),
            json_escape(s@) == out@ + json_escape(s@.subrange(i as int, n as int)),
        decreases n - i,
    {
        let c = s.get_char(i);
        proof {
            let suffix = s@.subrange(i as int, n as int);
            assert(suffix.first() == s@[i as int]);
            assert(suffix.drop_first() =~= s@.subrange(i as int + 1, n as int));
            let head: Seq<char> = if c == '"' || c == '\\' {
                seq!['\\', c]
            } else {
                seq![c]
            };
            assert(json_escape(suffix) == head + json_escape(
                s@.subrange(i as int + 1, n as int),
            ));
            assert(out@ + (head + json_escape(s@.subrange(i as int + 1, n as int))) =~= (out@
                + head) + json_escape(s@.subrange(i as int + 1, n as int)));
        }
        if c == '"' {
            let piece = "\\\"";
            proof {
                reveal_strlit("\\\"");
                assert(piece@ =~= seq!['\\', '"']);
            }
            out.append(piece);
        } else if c == '\\' {
            let piece = "\\\\";
            proof {
                reveal_strlit("\\\\");
                assert(piece@ =~= seq!['\\', '\\']);
            }
            out.append(piece);
        } else {
            let piece = s.substring_char(i, i + 1);
            proof {
                assert(piece@ =~= seq![s@[i as int]]);
            }
            out.append(piece);
        }
        i = i + 1;
    }
    proof {
        assert(s@.subrange(n as int, n as int) =~= Seq::<char>::empty());
        assert(out@ + Seq::<char>::empty() =~= out@);
    }
    out
}

/// The signal state sent after a failed validation: the first violated
/// rule's message, quotes escaped, and the submitted fields echoed back
/// sanitized.
pub fn create_error_signals(form: &ContactFormData, error: &ContactFormError) -> (r: UiSignalState)
    ensures
        is_error_state(r, *form, error.error_message@),
{
    let phone = match &form.phone {
        Some(p) => sanitize_input(p.as_str()),
        None => String::new(),
    };
    let service = match &form.service {
        Some(p) => sanitize_input(p.as_str()),
        None => String::new(),
    };
    let message = match &form.message {
        Some(p) => sanitize_input(p.as_str()),
        None => String::new(),
    };
    UiSignalState {
        show_success: false,
        show_error: true,
        error_message: escape_quotes_str(error.error_message.as_str()),
        name: sanitize_input(form.name.as_str()),
        email: sanitize_input(form.email.as_str()),
        phone,
        service,
        message,
    }
}

/// Run a submission through validation and build the matching signal
/// state: the success reset when every rule passes, otherwise the error
/// state carrying the first violated rule's message.
pub fn process_submission(form: &ContactFormData) -> (r: UiSignalState)
    ensures
        first_violation(form.name@, form.email@) is None ==> is_success_state(r),
        (first_violation(form.name@, form.email@) matches Some(msg) ==> is_error_state(
            r,
            *form,
            msg,
        )),
{
    match validate_contact_form(form) {
        Ok(()) => create_success_signals(),
        Err(e) => create_error_signals(form, &e),
    }
}

/// The serialized signal-patch object, character for character.
pub open spec fn signals_json_spec(r: UiSignalState) -> Seq<char> {
    "{\"showSuccess\":"@ + bool_chars(r.show_success) + ",\"showError\":"@ + bool_chars(
        r.show_error,
    ) + ",\"errorMessage\":\""@ + json_escape(r.error_message@) + "\",\"name\":\""@ + json_escape(
        r.name@,
    ) + "\",\"email\":\""@ + json_escape(r.email@) + "\",\"phone\":\""@ + json_escape(r.phone@)
        + "\",\"service\":\""@ + json_escape(r.service@) + "\",\"message\":\""@ + json_escape(
        r.message@,
    ) + "\"}"@
}

/// `true` or `false`, as the characters JSON writes for a boolean.
pub open spec fn bool_chars(b: bool) -> Seq<char> {
    if b {
        "true"@
    } else {
        "false"@
    }
}

/// Serialize the signal state as the JSON object the client's reactive
/// bindings consume.
pub fn signals_json(state: &UiSignalState) -> (r: String)
    ensures
        r@ == signals_json_spec(*state),
{
    let mut out = String::from_str("{\"showSuccess\":");
    out.append(if state.show_success { "true" } else { "false" });
    out.append(",\"showError\":");
    out.append(if state.show_error { "true" } else { "false" });
    out.append(",\"errorMessage\":\"");
    let em = json_escape_str(state.error_message.as_str());
    out.append(em.as_str());
    out.append("\",\"name\":\"");
    let name = json_escape_str(state.name.as_str());
    out.append(name.as_str());
    out.append("\",\"email\":\"");
    let email = json_escape_str(state.email.as_str());
    out.append(email.as_str());
    out.append("\",\"phone\":\"");
    let phone = json_escape_str(state.phone.as_str());
    out.append(phone.as_str());
    out.append("\",\"service\":\"");
    let service = json_escape_str(state.service.as_str());
    out.append(service.as_str());
    out.append("\",\"message\":\"");
    let message = json_escape_str(state.message.as_str());
    out.append(message.as_str());
    out.append("\"}");
    proof {
        assert(out@ =~= signals_json_spec(*state));
    }
    out
}

} // verus!
