//! Input sanitization: strip non-ASCII and control characters, trim
//! surrounding whitespace.

use vstd::prelude::*;

verus! {

/// A character survives sanitization exactly when it is printable ASCII,
/// that is, ASCII and not a control character.
pub open spec fn is_printable_ascii(c: char) -> bool {
    0x20 <= c as u32 && c as u32 <= 0x7e
}

/// The Unicode `White_Space` code points, the set trimmed from the ends
/// of user-supplied strings.
pub open spec fn is_space_char(c: char) -> bool {
    let u = c as u32;
    ||| (0x09 <= u && u <= 0x0d)
    ||| u == 0x20
    ||| u == 0x85
    ||| u == 0xa0
    ||| u == 0x1680
    ||| (0x2000 <= u && u <= 0x200a)
    ||| u == 0x2028
    ||| u == 0x2029
    ||| u == 0x202f
    ||| u == 0x205f
    ||| u == 0x3000
}

/// The subsequence of printable ASCII characters of `s`, in order.
pub open spec fn keep_printable(s: Seq<char>) -> Seq<char>
    decreases s.len(),
{
    if s.len() == 0 {
        Seq::empty()
    } else if is_printable_ascii(s.first()) {
        seq![s.first()] + keep_printable(s.drop_first())
    } else {
        keep_printable(s.drop_first())
    }
}

/// `s` without its leading whitespace characters.
pub open spec fn trim_leading(s: Seq<char>) -> Seq<char>
    decreases s.len(),
{
    if s.len() > 0 && is_space_char(s.first()) {
        trim_leading(s.drop_first())
    } else {
        s
    }
}

/// `s` without its trailing whitespace characters.
pub open spec fn trim_trailing(s: Seq<char>) -> Seq<char>
    decreases s.len(),
{
    if s.len() > 0 && is_space_char(s.last()) {
        trim_trailing(s.drop_last())
    } else {
        s
    }
}

/// `s` without leading and trailing whitespace.
pub open spec fn trim_ws(s: Seq<char>) -> Seq<char> {
    trim_trailing(trim_leading(s))
}

/// What sanitization returns: the printable-ASCII subsequence, with
/// surrounding whitespace removed.
pub open spec fn sanitize_spec(s: Seq<char>) -> Seq<char> {
    trim_ws(keep_printable(s))
}

proof fn lemma_keep_printable_all(s: Seq<char>)
    ensures
        forall|i: int| 0 <= i < keep_printable(s).len() ==> is_printable_ascii(
            #[trigger] keep_printable(s)[i],
        ),
    decreases s.len(),
{
    if s.len() > 0 {
        lemma_keep_printable_all(s.drop_first());
        let k = keep_printable(s.drop_first());
        if is_printable_ascii(s.first()) {
            assert forall|i: int| 0 <= i < keep_printable(s).len() implies is_printable_ascii(
                keep_printable(s)[i],
            ) by {
                if i > 0 {
                    assert(keep_printable(s)[i] == k[i - 1]);
                }
            }
        }
    }
}

proof fn lemma_keep_printable_of_all(s: Seq<char>)
    requires
        forall|i: int| 0 <= i < s.len() ==> is_printable_ascii(#[trigger] s[i]),
    ensures
        keep_printable(s) == s,
    decreases s.len(),
{
    if s.len() > 0 {
        lemma_keep_printable_of_all(s.drop_first());
        assert(seq![s.first()] + s.drop_first() =~= s);
    } else {
        assert(s =~= Seq::<char>::empty());
    }
}

proof fn lemma_trim_leading_all(s: Seq<char>, p: spec_fn(char) -> bool)
    requires
        forall|i: int| 0 <= i < s.len() ==> p(#[trigger] s[i]),
    ensures
        forall|i: int| 0 <= i < trim_leading(s).len() ==> p(#[trigger] trim_leading(s)[i]),
    decreases s.len(),
{
    if s.len() > 0 && is_space_char(s.first()) {
        assert forall|i: int| 0 <= i < s.drop_first().len() implies p(#[trigger] s.drop_first()[i]) by {
            assert(s.drop_first()[i] == s[i + 1]);
        }
        lemma_trim_leading_all(s.drop_first(), p);
        assert(trim_leading(s) == trim_leading(s.drop_first()));
    } else {
        assert forall|i: int| 0 <= i < trim_leading(s).len() implies p(
            #[trigger] trim_leading(s)[i],
        ) by {
            assert(trim_leading(s)[i] == s[i]);
        }
    }
}

proof fn lemma_trim_trailing_all(s: Seq<char>, p: spec_fn(char) -> bool)
    requires
        forall|i: int| 0 <= i < s.len() ==> p(#[trigger] s[i]),
    ensures
        forall|i: int| 0 <= i < trim_trailing(s).len() ==> p(#[trigger] trim_trailing(s)[i]),
    decreases s.len(),
{
    if s.len() > 0 && is_space_char(s.last()) {
        assert forall|i: int| 0 <= i < s.drop_last().len() implies p(#[trigger] s.drop_last()[i]) by {
            assert(s.drop_last()[i] == s[i]);
        }
        lemma_trim_trailing_all(s.drop_last(), p);
        assert(trim_trailing(s) == trim_trailing(s.drop_last()));
    } else {
        assert forall|i: int| 0 <= i < trim_trailing(s).len() implies p(
            #[trigger] trim_trailing(s)[i],
        ) by {
            assert(trim_trailing(s)[i] == s[i]);
        }
    }
}

proof fn lemma_trim_leading_no_lead(s: Seq<char>)
    ensures
        trim_leading(s).len() > 0 ==> !is_space_char(trim_leading(s).first()),
    decreases s.len(),
{
    if s.len() > 0 && is_space_char(s.first()) {
        lemma_trim_leading_no_lead(s.drop_first());
    }
}

proof fn lemma_trim_trailing_no_trail(s: Seq<char>)
    ensures
        trim_trailing(s).len() > 0 ==> !is_space_char(trim_trailing(s).last()),
    decreases s.len(),
{
    if s.len() > 0 && is_space_char(s.last()) {
        lemma_trim_trailing_no_trail(s.drop_last());
    }
}

proof fn lemma_trim_trailing_keeps_first(s: Seq<char>)
    ensures
        trim_trailing(s).len() > 0 ==> s.len() > 0 && trim_trailing(s).first() == s.first(),
    decreases s.len(),
{
    if s.len() > 0 && is_space_char(s.last()) {
        lemma_trim_trailing_keeps_first(s.drop_last());
    }
}

/// A string with no surrounding whitespace is unchanged by trimming.
proof fn lemma_trim_ws_fixed(s: Seq<char>)
    requires
        s.len() > 0 ==> !is_space_char(s.first()),
        s.len() > 0 ==> !is_space_char(s.last()),
    ensures
        trim_ws(s) == s,
{
}

/// Every character of a sanitized string is printable ASCII (so neither a
/// control character nor a non-ASCII code point), and a non-empty result
/// neither starts nor ends with whitespace.
pub proof fn lemma_sanitize_printable(s: Seq<char>)
    ensures
        forall|i: int| 0 <= i < sanitize_spec(s).len() ==> is_printable_ascii(
            #[trigger] sanitize_spec(s)[i],
        ),
        sanitize_spec(s).len() > 0 ==> !is_space_char(sanitize_spec(s).first()),
        sanitize_spec(s).len() > 0 ==> !is_space_char(sanitize_spec(s).last()),
{
    let f = keep_printable(s);
    lemma_keep_printable_all(s);
    lemma_trim_leading_all(f, |c: char| is_printable_ascii(c));
    lemma_trim_trailing_all(trim_leading(f), |c: char| is_printable_ascii(c));
    lemma_trim_leading_no_lead(f);
    lemma_trim_trailing_keeps_first(trim_leading(f));
    lemma_trim_trailing_no_trail(trim_leading(f));
}

/// Sanitizing is idempotent: sanitizing a sanitized string changes nothing.
pub proof fn lemma_sanitize_idempotent(s: Seq<char>)
    ensures
        sanitize_spec(sanitize_spec(s)) == sanitize_spec(s),
{
    let t = sanitize_spec(s);
    lemma_sanitize_printable(s);
    lemma_keep_printable_of_all(t);
    lemma_trim_ws_fixed(t);
}

/// Whether `c` is one of the whitespace characters trimmed from the ends
/// of a string.
pub fn is_space(c: char) -> (r: bool)
    ensures
        r == is_space_char(c),
{
    let u = c as u32;
    (0x09 <= u && u <= 0x0d) || u == 0x20 || u == 0x85 || u == 0xa0 || u == 0x1680 || (0x2000 <= u
        && u <= 0x200a) || u == 0x2028 || u == 0x2029 || u == 0x202f || u == 0x205f || u == 0x3000
}

/// `s` with leading and trailing whitespace removed.
pub fn str_trim<'a>(s: &'a str) -> (r: &'a str)
    ensures
        r@ == trim_ws(s@),
{
    let n = s.unicode_len();
    let mut a: usize = 0;
    proof {
        assert(s@.subrange(0, n as int) =~= s@);
    }
    while a < n && is_space(s.get_char(a))
        invariant
            a <= n,
            n == s@.len(),
            trim_leading(s@) == trim_leading(s@.subrange(a as int, n as int)),
        decreases n - a,
    {
        proof {
            assert(s@.subrange(a as int, n as int).drop_first() =~= s@.subrange(
                a as int + 1,
                n as int,
            ));
        }
        a = a + 1;
    }
    proof {
        if a == n {
            assert(s@.subrange(a as int, n as int) =~= Seq::<char>::empty());
        }
        assert(trim_leading(s@) == s@.subrange(a as int, n as int));
    }
    let mut b: usize = n;
    while b > a && is_space(s.get_char(b - 1))
        invariant
            a <= b <= n,
            n == s@.len(),
            trim_leading(s@) == s@.subrange(a as int, n as int),
            trim_trailing(s@.subrange(a as int, n as int)) == trim_trailing(
                s@.subrange(a as int, b as int),
            ),
        decreases b,
    {
        proof {
            assert(s@.subrange(a as int, b as int).drop_last() =~= s@.subrange(
                a as int,
                b as int - 1,
            ));
        }
        b = b - 1;
    }
    proof {
        if b == a {
            assert(s@.subrange(a as int, b as int) =~= Seq::<char>::empty());
        }
        assert(trim_ws(s@) == s@.subrange(a as int, b as int));
    }
    s.substring_char(a, b)
}

/// Sanitize a user-supplied string: keep only printable ASCII characters
/// and trim surrounding whitespace.
pub fn sanitize_input(input: &str) -> (r: String)
    ensures
        r@ == sanitize_spec(input@),
{
    let n = input.unicode_len();
    let mut kept = String::new();
    let mut i: usize = 0;
    proof {
        assert(input@.subrange(0, n as int) =~= input@);
        assert(Seq::<char>::empty() + keep_printable(input@) =~= keep_printable(input@));
    }
    while i < n
        invariant
            i <= n,
            n == input@.len(),
            keep_printable(input@) == kept@ + keep_printable(
                input@.subrange(i as int, n as int),
            ),
        decreases n - i,
    {
        let c = input.get_char(i);
        let u = c as u32;
        proof {
            let suffix = input@.subrange(i as int, n as int);
            assert(suffix.first() == input@[i as int]);
            assert(suffix.drop_first() =~= input@.subrange(i as int + 1, n as int));
            if is_printable_ascii(c) {
                assert(keep_printable(suffix) == seq![c] + keep_printable(
                    input@.subrange(i as int + 1, n as int),
                ));
                assert(kept@ + (seq![c] + keep_printable(input@.subrange(i as int + 1, n as int)))
                    =~= (kept@ + seq![c]) + keep_printable(input@.subrange(i as int + 1, n as int)));
            }
        }
        if 0x20 <= u && u <= 0x7e {
            let piece = input.substring_char(i, i + 1);
            proof {
                assert(piece@ =~= seq![input@[i as int]]);
            }
            kept.append(piece);
        }
        i = i + 1;
    }
    proof {
        assert(input@.subrange(n as int, n as int) =~= Seq::<char>::empty());
        assert(kept@ + Seq::<char>::empty() =~= kept@);
    }
    let trimmed = str_trim(kept.as_str());
    String::from_str(trimmed)
}

} // verus!
