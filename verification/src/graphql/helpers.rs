//! Checks shared by the GraphQL resolvers.

use vstd::prelude::*;

use crate::errors::{AppError, AppResult};
use crate::models::domain::quiz::QuizStatus;
use crate::text::{chars_of, owned};

verus! {

/// 32 hexadecimal digits, either case.
pub open spec fn simple_uuid(s: Seq<char>) -> bool {
    s.len() == 32 && forall|i: int| 0 <= i < 32 ==> is_hex_digit(#[trigger] s[i])
}

/// 36 characters: hyphens at 8, 13, 18 and 23 and hexadecimal digits,
/// either case, elsewhere.
pub open spec fn hyphenated_uuid(s: Seq<char>) -> bool {
    &&& s.len() == 36
    &&& forall|i: int|
        #![trigger s[i]]
        0 <= i < 36 ==> if i == 8 || i == 13 || i == 18 || i == 23 {
            s[i] == '-'
        } else {
            is_hex_digit(s[i])
        }
}

/// Whether `s` is a UUID in one of the textual forms that
/// `uuid::Uuid::parse_str` accepts: simple, hyphenated, hyphenated in
/// braces, or hyphenated after a `urn:uuid:` prefix in any case.
pub open spec fn uuid_parses(s: Seq<char>) -> bool {
    ||| simple_uuid(s)
    ||| hyphenated_uuid(s)
    ||| s.len() == 38 && s[0] == '{' && s[37] == '}' && hyphenated_uuid(s.subrange(1, 37))
    ||| s.len() == 45 && crate::text::ascii_lower(s.subrange(0, 9)) == "urn:uuid:"@ && hyphenated_uuid(
        s.subrange(9, 45),
    )
}

/// Whether `s` is accepted by `uuid::Uuid::parse_str`. Its source reads
/// the input's bytes by length: 32 hexadecimal digits; 36 with hyphens at
/// 8, 13, 18 and 23; 38 as `{`, those 36 and `}`; or 45 as `urn:uuid:` in
/// any case then those 36. Every accepted input is ASCII, so its bytes and
/// characters agree.
#[verifier::external_body]
fn parses_as_uuid(s: &str) -> (b: bool)
    ensures
        b == uuid_parses(s@),
{
    uuid::Uuid::parse_str(s).is_ok()
}

/// Whether `c` is an ASCII hexadecimal digit.
pub open spec fn is_hex_digit(c: char) -> bool {
    ('0' <= c <= '9') || ('a' <= c <= 'f') || ('A' <= c <= 'F')
}

/// Whether `s` is a storage object id: 24 hexadecimal digits.
pub open spec fn is_object_id(s: Seq<char>) -> bool {
    s.len() == 24 && forall|i: int| 0 <= i < s.len() ==> is_hex_digit(#[trigger] s[i])
}

fn object_id_form(id: &str) -> (b: bool)
    ensures
        b == is_object_id(id@),
{
    let v = chars_of(id);
    if v.len() != 24 {
        return false;
    }
    for i in 0..v.len()
        invariant
            v@ == id@,
            forall|j: int| 0 <= j < i ==> is_hex_digit(#[trigger] v@[j]),
    {
        let c = v[i];
        if !(('0' <= c && c <= '9') || ('a' <= c && c <= 'f') || ('A' <= c && c <= 'F')) {
            return false;
        }
    }
    true
}

/// The message of a refused id.
pub open spec fn bad_id_message() -> Seq<char> {
    "Invalid id format; expected UUID or 24-char ObjectId hex"@
}

/// An id that may be looked up: a UUID or a 24-hex-digit object id, as
/// given; anything else is refused.
pub fn parse_id(id: &str) -> (r: AppResult<String>)
    ensures
        (uuid_parses(id@) || is_object_id(id@)) ==> (r matches Ok(s) && s@ == id@),
        !(uuid_parses(id@) || is_object_id(id@)) ==> (r matches Err(AppError::ValidationError(m)) && m@ == bad_id_message()),
{
    let is_uuid = parses_as_uuid(id);
    parse_id_given(id, is_uuid)
}

/// [`parse_id`] once it is known whether `id` parses as a UUID.
pub fn parse_id_given(id: &str, is_uuid: bool) -> (r: AppResult<String>)
    ensures
        (is_uuid || is_object_id(id@)) ==> (r matches Ok(s) && s@ == id@),
        !(is_uuid || is_object_id(id@)) ==> (r matches Err(AppError::ValidationError(m)) && m@ == bad_id_message()),
{
    if is_uuid {
        return Ok(owned(id));
    }
    if object_id_form(id) {
        return Ok(owned(id));
    }
    Err(AppError::ValidationError(owned("Invalid id format; expected UUID or 24-char ObjectId hex")))
}

/// Whether a quiz in this state may be taken: it is ready or complete.
pub fn is_quiz_available_for_taking(status: &QuizStatus) -> (b: bool)
    ensures
        b == (*status == QuizStatus::Ready || *status == QuizStatus::Complete),
{
    match status {
        QuizStatus::Ready | QuizStatus::Complete => true,
        _ => false,
    }
}

/// Refuses a quiz that may not be taken.
pub fn validate_quiz_available_for_taking(status: &QuizStatus) -> (r: AppResult<()>)
    ensures
        (*status == QuizStatus::Ready || *status == QuizStatus::Complete) ==> r is Ok,
        !(*status == QuizStatus::Ready || *status == QuizStatus::Complete) ==> (r matches Err(AppError::BadRequest(m))
            && m@ == "Quiz is not available for taking"@),
{
    if !is_quiz_available_for_taking(status) {
        return Err(AppError::BadRequest(owned("Quiz is not available for taking")));
    }
    Ok(())
}

} // verus!
