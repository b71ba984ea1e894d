//! The wall clock and random identifiers, which the rest of the library
//! treats as inputs it cannot predict.

use vstd::prelude::*;

verus! {

/// The first instant, in microseconds since the Unix epoch, that chrono
/// cannot represent: the start of the year 262143 (its latest year is
/// 262142).
pub const CLOCK_LIMIT_MICROS: i64 = 8_210_266_876_800_000_000;

/// Current time in microseconds since the Unix epoch, read with
/// `chrono::Utc::now` and `DateTime::timestamp_micros`. `Utc::now` fails on a
/// system time before the epoch and on one past chrono's latest year, so
/// the value lies between the two; which value it is depends on the
/// machine's clock and is not promised.
#[verifier::external_body]
pub(crate) fn now_micros() -> (t: i64)
    ensures
        0 <= t < CLOCK_LIMIT_MICROS,
{
    chrono::Utc::now().timestamp_micros()
}

/// A lowercase hexadecimal digit.
pub open spec fn lower_hex(c: char) -> bool {
    ('0' <= c <= '9') || ('a' <= c <= 'f')
}

/// The hyphenated lowercase text of a random (version 4) UUID: 36
/// characters, hyphens at 8, 13, 18 and 23 and lowercase hexadecimal
/// digits elsewhere, the version digit `4` at 14 and one of `8`, `9`, `a`,
/// `b` (the RFC variant) at 19.
pub open spec fn uuid_v4_text(s: Seq<char>) -> bool {
    &&& s.len() == 36
    &&& forall|i: int|
        #![trigger s[i]]
        0 <= i < 36 ==> if i == 8 || i == 13 || i == 18 || i == 23 {
            s[i] == '-'
        } else {
            lower_hex(s[i])
        }
    &&& s[14] == '4'
    &&& (s[19] == '8' || s[19] == '9' || s[19] == 'a' || s[19] == 'b')
}

/// A fresh random identifier from `uuid::Uuid::new_v4`, rendered with its
/// `Display` impl. `new_v4` sets the version bits to 4 and the variant bits
/// to `10`, and `Display` writes the hyphenated lowercase form, so every
/// outcome has the shape [`uuid_v4_text`]; the other digits are random.
#[verifier::external_body]
pub(crate) fn new_uuid() -> (s: String)
    ensures
        uuid_v4_text(s@),
{
    uuid::Uuid::new_v4().to_string()
}

} // verus!
