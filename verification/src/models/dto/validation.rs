//! The field rules that request bodies are checked against.

use vstd::prelude::*;

verus! {

/// Whether `s` is an e-mail address by the rules of
/// `validator::ValidateEmail::validate_email` (the HTML form rules).
pub uninterp spec fn email_valid(s: Seq<char>) -> bool;

/// Whether `s` is an e-mail address, from
/// `validator::ValidateEmail::validate_email`. As its source shows, an
/// empty string and a string without `@` are refused.
#[verifier::external_body]
pub(crate) fn is_valid_email(s: &str) -> (b: bool)
    ensures
        b == email_valid(s@),
        s@.len() == 0 ==> !b,
        (forall|i: int| 0 <= i < s@.len() ==> s@[i] != '@') ==> !b,
{
    validator::ValidateEmail::validate_email(&s)
}

/// Whether `s` is a URL by `validator::ValidateUrl::validate_url`, that is
/// whether `url::Url::parse` accepts it.
pub uninterp spec fn url_valid(s: Seq<char>) -> bool;

/// Whether `s` is a URL, from `validator::ValidateUrl::validate_url`.
#[verifier::external_body]
pub(crate) fn is_valid_url(s: &str) -> (b: bool)
    ensures
        b == url_valid(s@),
{
    validator::ValidateUrl::validate_url(&s)
}

/// Whether `s` has between `min` and `max` characters, as the `length`
/// rule counts them.
pub open spec fn length_within(s: Seq<char>, min: nat, max: nat) -> bool {
    min <= s.len() <= max
}

/// Whether `s` has between `min` and `max` characters.
pub fn has_length_within(s: &str, min: usize, max: usize) -> (b: bool)
    ensures
        b == length_within(s@, min as nat, max as nat),
{
    let n = crate::text::chars_of(s).len();
    min <= n && n <= max
}

/// The names of the fields that break a rule, in the order of the checks.
pub open spec fn failing(checks: Seq<(Seq<char>, bool)>) -> Seq<Seq<char>>
    decreases checks.len(),
{
    if checks.len() == 0 {
        seq![]
    } else if checks.last().1 {
        failing(checks.drop_last())
    } else {
        failing(checks.drop_last()).push(checks.last().0)
    }
}

/// The outcome of checking a body: success, or the names of the fields
/// that break a rule, in field order.
pub open spec fn outcome(checks: Seq<(Seq<char>, bool)>, r: Result<(), Vec<String>>) -> bool {
    if failing(checks).len() == 0 {
        r is Ok
    } else {
        r matches Err(fields) && crate::text::strings_model(fields@) == failing(checks)
    }
}

pub(crate) proof fn lemma_failing_push(checks: Seq<(Seq<char>, bool)>, c: (Seq<char>, bool))
    ensures
        failing(checks.push(c)) == if c.1 {
            failing(checks)
        } else {
            failing(checks).push(c.0)
        },
{
    assert(checks.push(c).drop_last() =~= checks);
}

/// Adds `field` to the failing fields when its check failed; `checks` are
/// the checks made before.
pub(crate) fn note(errors: &mut Vec<String>, field: &str, ok: bool, Ghost(checks): Ghost<Seq<(Seq<char>, bool)>>)
    requires
        crate::text::strings_model(old(errors)@) == failing(checks),
    ensures
        crate::text::strings_model(final(errors)@) == failing(checks.push((field@, ok))),
{
    proof { lemma_failing_push(checks, (field@, ok)); }
    if !ok {
        errors.push(crate::text::owned(field));
        assert(crate::text::strings_model(errors@) =~= crate::text::strings_model(old(errors)@).push(field@));
    }
}

/// Success when no field failed, else the failing fields.
pub fn finish(errors: Vec<String>) -> (r: Result<(), Vec<String>>)
    ensures
        errors@.len() == 0 ==> r is Ok,
        errors@.len() > 0 ==> r == Err::<(), Vec<String>>(errors),
{
    if errors.len() == 0 {
        Ok(())
    } else {
        Err(errors)
    }
}

} // verus!
