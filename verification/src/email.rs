//! Structural email validation: a single `@` separating a non-empty
//! local part from a non-empty domain that contains a dot.

use vstd::prelude::*;
use crate::text::{str_trim, trim_ws};

verus! {

/// Exactly one `@` stands at index `i` of `s`, the part before it is
/// non-empty, and the part after it is non-empty and contains a `.`.
pub open spec fn at_splits_email(s: Seq<char>, i: int) -> bool {
    &&& 0 < i < s.len() - 1
    &&& s[i] == '@'
    &&& (forall|j: int| 0 <= j < s.len() && s[j] == '@' ==> j == i)
    &&& (exists|k: int| i < k < s.len() && s[k] == '.')
}

/// The structural check on an already-trimmed string: splitting on `@`
/// yields exactly two non-empty parts and the second contains a `.`.
pub open spec fn valid_email_chars(s: Seq<char>) -> bool {
    exists|i: int| at_splits_email(s, i)
}

/// What the email validator accepts: the input, once trimmed of
/// surrounding whitespace, passes the structural check.
pub open spec fn email_ok(s: Seq<char>) -> bool {
    valid_email_chars(trim_ws(s))
}

/// Structural email check: after trimming, the string must split on a
/// single `@` into two non-empty parts, and the domain part must contain
/// a `.`. Intentionally permissive; a usability gate, not a security
/// boundary.
pub fn is_valid_email(email: &str) -> (r: bool)
    ensures
        r == email_ok(email@),
{
    let t = str_trim(email);
    let n = t.unicode_len();
    let mut i: usize = 0;
    let mut at_pos: usize = n;
    let mut extra = false;
    while i < n
        invariant
            i <= n,
            at_pos <= n,
            n == t@.len(),
            at_pos == n ==> !extra && (forall|j: int| 0 <= j < i ==> t@[j] != '@'),
            at_pos < n ==> at_pos < i && t@[at_pos as int] == '@' && (forall|j: int|
                0 <= j < at_pos ==> t@[j] != '@'),
            !extra ==> (forall|j: int| 0 <= j < i && t@[j] == '@' ==> j == at_pos as int),
            extra ==> at_pos < n && (exists|j: int|
                0 <= j < i && j != at_pos as int && t@[j] == '@'),
        decreases n - i,
    {
        let c = t.get_char(i);
        if c == '@' {
            if at_pos == n {
                at_pos = i;
            } else {
                extra = true;
            }
        }
        i = i + 1;
    }
    if at_pos == n || extra || at_pos == 0 || at_pos == n - 1 {
        proof {
            if valid_email_chars(t@) {
                let w = choose|w: int| at_splits_email(t@, w);
                assert(t@[w] == '@');
                if at_pos < n {
                    assert(at_pos as int == w);
                }
                if extra {
                    let j = choose|j: int|
                        0 <= j < n && j != at_pos as int && t@[j] == '@';
                    assert(j == w);
                }
                assert(false);
            }
        }
        return false;
    }
    let mut k: usize = at_pos + 1;
    while k < n
        invariant
            at_pos as int + 1 <= k <= n,
            n == t@.len(),
            t@ == trim_ws(email@),
            0 < at_pos < n - 1,
            t@[at_pos as int] == '@',
            forall|j: int| 0 <= j < n && t@[j] == '@' ==> j == at_pos as int,
            forall|j: int| at_pos < j < k ==> t@[j] != '.',
        decreases n - k,
    {
        if t.get_char(k) == '.' {
            proof {
                assert(at_splits_email(t@, at_pos as int));
                assert(valid_email_chars(t@));
            }
            return true;
        }
        k = k + 1;
    }
    proof {
        if valid_email_chars(t@) {
            let w = choose|w: int| at_splits_email(t@, w);
            assert(w == at_pos as int);
            let d = choose|d: int| w < d < t@.len() && t@[d] == '.';
            assert(false);
        }
    }
    false
}

} // verus!
