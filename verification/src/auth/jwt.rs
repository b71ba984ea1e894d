//! Signing and checking access and refresh tokens (HS256 JSON web tokens).
//!
//! The signing and the signature and expiry checks are `jsonwebtoken`'s;
//! this module decides what goes into a token and what a decoded token, or
//! the reason it was refused, means for the service.

use vstd::prelude::*;

use crate::auth::claims::{issued_stamps, subject_of, Claims, RefreshClaims, MAX_TOKEN_HOURS};
use crate::errors::{AppError, AppResult};
use crate::json::{
    invalid_field, invalid_field_text, member_str, member_string, missing_field, missing_field_text, str_field,
    JsonMap, JsonValue,
};
use crate::models::domain::user::{User, UserRole};
use crate::text::{concat2, concat3, copy_string, decimal, owned, push_decimal, str_eq};

verus! {

/// Why `jsonwebtoken::decode` refused a token: the three kinds the service
/// tells apart, and any other kind with the `Display` text of its error.
#[derive(Debug)]
pub enum JwtFailure {
    ExpiredSignature,
    InvalidToken,
    InvalidSignature,
    Other(String),
}

/// The `Display` text of a refusal: for the three named kinds
/// `jsonwebtoken` writes the kind's name.
pub open spec fn failure_text(f: JwtFailure) -> Seq<char> {
    match f {
        JwtFailure::ExpiredSignature => "ExpiredSignature"@,
        JwtFailure::InvalidToken => "InvalidToken"@,
        JwtFailure::InvalidSignature => "InvalidSignature"@,
        JwtFailure::Other(m) => m@,
    }
}

/// The claims `jsonwebtoken::decode` reads from `token` under an HMAC key
/// made from `secret` and `Validation::default()`, before it compares them
/// with the clock, converted to a [`JsonValue`]: `None` when the token is
/// not three dot-separated parts, its header is not base64url JSON naming
/// HS256, its HS256 signature does not match, or its payload is not
/// base64url JSON.
pub uninterp spec fn jwt_payload(token: Seq<char>, secret: Seq<char>) -> Option<JsonValue>;

/// What `jwt_decode` gives for `token` and `secret`: claims only as read
/// from the token; a refusal of a token without readable claims is never
/// an expiry; a refusal of one with readable claims is never about its
/// form or signature.
pub open spec fn decoded_from(d: Result<JsonValue, JwtFailure>, token: Seq<char>, secret: Seq<char>) -> bool {
    &&& d matches Ok(v) ==> jwt_payload(token, secret) == Some(v)
    &&& jwt_payload(token, secret) is None ==> (d matches Err(f) && !(f is ExpiredSignature))
    &&& jwt_payload(token, secret) is Some ==> (d matches Err(f) ==> !(f is InvalidToken) && !(f is InvalidSignature))
}

/// Checks `token` with `jsonwebtoken::decode::<serde_json::Value>`, an HMAC
/// key made from the bytes of `secret`, and `Validation::default()` (HS256,
/// an `exp` claim required and compared with the clock, 60 seconds of
/// leeway), and converts the claims it yields into a [`JsonValue`], or its
/// error into a [`JwtFailure`] by kind. As its source shows, it first
/// checks the form and signature and reads the claims ([`jwt_payload`]),
/// failing only with errors of form, signature, base64 or JSON, and then
/// validates the claims, failing only with validation errors (a missing
/// claim, expiry, or an unexpected audience, issuer or subject). Whether
/// the claims pass that validation depends on the clock and is not
/// promised.
#[verifier::external_body]
pub(crate) fn jwt_decode(token: &str, secret: &str) -> (r: Result<JsonValue, JwtFailure>)
    ensures
        decoded_from(r, token@, secret@),
{
    let key = jsonwebtoken::DecodingKey::from_secret(secret.as_bytes());
    match jsonwebtoken::decode::<serde_json::Value>(token, &key, &jsonwebtoken::Validation::default()) {
        Ok(data) => Ok(crate::json::from_serde(data.claims)),
        Err(e) => Err(match e.kind() {
            jsonwebtoken::errors::ErrorKind::ExpiredSignature => JwtFailure::ExpiredSignature,
            jsonwebtoken::errors::ErrorKind::InvalidToken => JwtFailure::InvalidToken,
            jsonwebtoken::errors::ErrorKind::InvalidSignature => JwtFailure::InvalidSignature,
            _ => JwtFailure::Other(e.to_string()),
        }),
    }
}

/// The token `jsonwebtoken::encode` makes of `claims` with the default
/// header (HS256) and an HMAC key made from `secret`, or the text of its
/// error.
pub uninterp spec fn jwt_encoding(claims: JsonValue, secret: Seq<char>) -> Result<Seq<char>, Seq<char>>;

/// Signs `claims` with `jsonwebtoken::encode`, the default header and an
/// HMAC key made from the bytes of `secret`; a failure gives the `Display`
/// text of its error. The claims are handed over as a `serde_json::Value`
/// converted one for one from them. A token it makes carries the HS256
/// header, the claims as JSON and their HS256 signature under `secret`, so
/// `decode` with the same secret reads the same claims back: the same
/// strings, and the same numbers, which serde_json writes and reads as
/// the same decimal text.
#[verifier::external_body]
pub(crate) fn jwt_encode(claims: JsonValue, secret: &str) -> (r: Result<String, String>)
    requires
        flat_claims(claims),
    ensures
        match r {
            Ok(t) => jwt_encoding(claims, secret@) == Ok::<Seq<char>, Seq<char>>(t@),
            Err(m) => jwt_encoding(claims, secret@) == Err::<Seq<char>, Seq<char>>(m@),
        },
        r matches Ok(t) ==> (jwt_payload(t@, secret@) matches Some(p) && same_claims(p, claims)),
{
    let key = jsonwebtoken::EncodingKey::from_secret(secret.as_bytes());
    jsonwebtoken::encode(&jsonwebtoken::Header::default(), &to_serde(claims), &key).map_err(|e| e.to_string())
}

/// The `serde_json::Value` of a flat claims object, entry for entry; a
/// number's decimal text becomes serde_json's number of that text.
#[verifier::external_body]
fn to_serde(claims: JsonValue) -> serde_json::Value
    requires
        flat_claims(claims),
{
    match claims {
        JsonValue::Object(m) => serde_json::Value::Object(m.into_entries().into_iter().map(|(k, x)| (k, match x {
            JsonValue::Number(t) => serde_json::Value::Number(t.parse().unwrap()),
            JsonValue::Str(s) => serde_json::Value::String(s),
            _ => serde_json::Value::Null,
        })).collect()),
        _ => serde_json::Value::Null,
    }
}

/// A claim value a token carries: a string, or a whole number written in
/// decimal that fits in a `u64`.
pub open spec fn flat_claim(x: JsonValue) -> bool {
    match x {
        JsonValue::Str(_) => true,
        JsonValue::Number(t) => exists|n: u64| t@ == #[trigger] decimal(n as nat),
        _ => false,
    }
}

/// An object whose every value is a [`flat_claim`].
pub open spec fn flat_claims(v: JsonValue) -> bool {
    v matches JsonValue::Object(m) && forall|k: Seq<char>| #[trigger] m@.contains_key(k) ==> flat_claim(m@[k])
}

/// `p` and `v` are objects with the same keys holding the same strings and
/// the same number texts.
pub open spec fn same_claims(p: JsonValue, v: JsonValue) -> bool {
    &&& p is Object && v is Object
    &&& p->Object_0@.dom() == v->Object_0@.dom()
    &&& forall|k: Seq<char>|
        #![trigger str_field(p, k)]
        #![trigger number_field(p, k)]
        str_field(p, k) == str_field(v, k) && number_field(p, k) == number_field(v, k)
}

/// The number text held under `key` in a JSON object, if it is a number.
pub open spec fn number_field(v: JsonValue, key: Seq<char>) -> Option<Seq<char>> {
    match v {
        JsonValue::Object(m) => if m@.contains_key(key) {
            match m@[key] {
                JsonValue::Number(t) => Some(t@),
                _ => None,
            }
        } else {
            None
        },
        _ => None,
    }
}

/// The claim text of a role.
pub open spec fn role_text(r: UserRole) -> Seq<char> {
    match r {
        UserRole::User => "User"@,
        UserRole::Admin => "Admin"@,
    }
}

/// `v` is the JSON form of the access claims `c`: exactly the six claims,
/// strings for the texts and the role, decimal numbers for the stamps.
pub open spec fn claims_json(v: JsonValue, c: Claims) -> bool {
    &&& v matches JsonValue::Object(m) && m@.dom() =~= set!["sub"@, "username"@, "email"@, "role"@, "exp"@, "iat"@]
    &&& str_field(v, "sub"@) == Some(c.sub@)
    &&& str_field(v, "username"@) == Some(c.username@)
    &&& str_field(v, "email"@) == Some(c.email@)
    &&& str_field(v, "role"@) == Some(role_text(c.role))
    &&& number_field(v, "exp"@) == Some(decimal(c.exp as nat))
    &&& number_field(v, "iat"@) == Some(decimal(c.iat as nat))
}

/// `v` is the JSON form of the refresh claims `c`.
pub open spec fn refresh_claims_json(v: JsonValue, c: RefreshClaims) -> bool {
    &&& v matches JsonValue::Object(m) && m@.dom() =~= set!["sub"@, "token_type"@, "exp"@, "iat"@]
    &&& str_field(v, "sub"@) == Some(c.sub@)
    &&& str_field(v, "token_type"@) == Some(c.token_type@)
    &&& number_field(v, "exp"@) == Some(decimal(c.exp as nat))
    &&& number_field(v, "iat"@) == Some(decimal(c.iat as nat))
}

fn decimal_value(n: usize) -> (v: JsonValue)
    ensures
        v matches JsonValue::Number(t) && t@ == decimal(n as nat),
        flat_claim(v),
{
    let mut t = String::new();
    push_decimal(&mut t, n as u64);
    proof {
        assert(t@ =~= decimal((n as u64) as nat));
    }
    JsonValue::Number(t)
}

fn role_string(r: UserRole) -> (s: String)
    ensures
        s@ == role_text(r),
{
    match r {
        UserRole::User => {
            proof { reveal_strlit("User"); }
            owned("User")
        },
        UserRole::Admin => {
            proof { reveal_strlit("Admin"); }
            owned("Admin")
        },
    }
}

/// The JSON form of access claims.
pub fn claims_value(c: &Claims) -> (v: JsonValue)
    ensures
        claims_json(v, *c),
        flat_claims(v),
{
    proof {
        reveal_strlit("sub");
        reveal_strlit("username");
        reveal_strlit("email");
        reveal_strlit("role");
        reveal_strlit("exp");
        reveal_strlit("iat");
        assert("sub"@[0] == 's' && "username"@[0] == 'u' && "email"@[0] == 'e' && "role"@[0] == 'r');
        assert("exp"@[0] == 'e' && "iat"@[0] == 'i' && "email"@[1] != "exp"@[1]);
    }
    let sub = JsonValue::Str(copy_string(&c.sub));
    let username = JsonValue::Str(copy_string(&c.username));
    let email = JsonValue::Str(copy_string(&c.email));
    let role = JsonValue::Str(role_string(c.role));
    let exp = decimal_value(c.exp);
    let iat = decimal_value(c.iat);
    let mut m = JsonMap::new();
    m.insert(owned("sub"), sub);
    m.insert(owned("username"), username);
    m.insert(owned("email"), email);
    m.insert(owned("role"), role);
    m.insert(owned("exp"), exp);
    m.insert(owned("iat"), iat);
    JsonValue::Object(m)
}

/// The JSON form of refresh claims.
pub fn refresh_claims_value(c: &RefreshClaims) -> (v: JsonValue)
    ensures
        refresh_claims_json(v, *c),
        flat_claims(v),
{
    proof {
        reveal_strlit("sub");
        reveal_strlit("token_type");
        reveal_strlit("exp");
        reveal_strlit("iat");
        assert("sub"@[0] == 's' && "token_type"@[0] == 't' && "exp"@[0] == 'e' && "iat"@[0] == 'i');
    }
    let sub = JsonValue::Str(copy_string(&c.sub));
    let token_type = JsonValue::Str(copy_string(&c.token_type));
    let exp = decimal_value(c.exp);
    let iat = decimal_value(c.iat);
    let mut m = JsonMap::new();
    m.insert(owned("sub"), sub);
    m.insert(owned("token_type"), token_type);
    m.insert(owned("exp"), exp);
    m.insert(owned("iat"), iat);
    JsonValue::Object(m)
}

/// The value of decimal digits read left to right.
pub open spec fn digits_nat(ds: Seq<char>) -> nat
    decreases ds.len(),
{
    if ds.len() == 0 {
        0
    } else {
        digits_nat(ds.drop_last()) * 10 + ((ds.last() as int - 48) as nat)
    }
}

/// Every character of `ds` is a decimal digit.
pub open spec fn all_digits(ds: Seq<char>) -> bool {
    forall|i: int| 0 <= i < ds.len() ==> '0' <= #[trigger] ds[i] <= '9'
}

/// The `usize` a claim's number text stands for: one or more decimal
/// digits whose value fits in a `usize`.
pub open spec fn usize_of_text(t: Seq<char>) -> Option<usize> {
    if t.len() > 0 && all_digits(t) && digits_nat(t) <= usize::MAX {
        Some(digits_nat(t) as usize)
    } else {
        None
    }
}

proof fn lemma_digits_prefix(ds: Seq<char>, k: int)
    requires
        all_digits(ds),
        0 <= k <= ds.len(),
    ensures
        digits_nat(ds.take(k)) <= digits_nat(ds),
    decreases ds.len() - k,
{
    if k < ds.len() {
        lemma_digits_prefix(ds, k + 1);
        assert(ds.take(k + 1).drop_last() =~= ds.take(k));
        assert(ds.take(k + 1).last() == ds[k]);
    } else {
        assert(ds.take(k) =~= ds);
    }
}

/// Reads a claim's number text as a `usize`.
fn usize_text(t: &str) -> (r: Option<usize>)
    ensures
        r == usize_of_text(t@),
{
    let v = crate::text::chars_of(t);
    if v.len() == 0 {
        return None;
    }
    let mut acc: usize = 0;
    let mut i: usize = 0;
    assert(v@.take(0) =~= Seq::<char>::empty());
    while i < v.len()
        invariant
            0 <= i <= v@.len(),
            v@ == t@,
            v@.len() > 0,
            all_digits(v@.take(i as int)),
            acc == digits_nat(v@.take(i as int)),
        decreases v@.len() - i,
    {
        let c = v[i];
        let ghost pre = v@.take(i as int + 1);
        assert(pre.drop_last() =~= v@.take(i as int));
        assert(pre.last() == c);
        if !('0' <= c && c <= '9') {
            assert(!all_digits(v@)) by {
                assert(v@[i as int] == c);
            }
            return None;
        }
        let d: usize = (c as u32 - 48) as usize;
        assert(d == c as int - 48);
        assert(all_digits(pre)) by {
            assert forall|j: int| 0 <= j < pre.len() implies '0' <= #[trigger] pre[j] <= '9' by {
                if j < i {
                    assert(pre[j] == v@.take(i as int)[j]);
                }
            }
        }
        if acc > (usize::MAX - d) / 10 {
            assert(acc * 10 + d > usize::MAX) by (nonlinear_arith)
                requires
                    acc > (usize::MAX - d) / 10,
                    d <= 9,
            ;
            proof {
                if all_digits(v@) {
                    lemma_digits_prefix(v@, i as int + 1);
                }
            }
            return None;
        }
        assert(acc * 10 + d <= usize::MAX) by (nonlinear_arith)
            requires
                acc <= (usize::MAX - d) / 10,
                d <= 9,
        ;
        acc = acc * 10 + d;
        i = i + 1;
    }
    assert(v@.take(i as int) =~= v@);
    Some(acc)
}

/// The whole-number claim `key` of decoded claims, or why there is none.
pub open spec fn claim_usize(v: JsonValue, key: Seq<char>) -> Result<usize, Seq<char>> {
    match v {
        JsonValue::Object(m) => if m@.contains_key(key) {
            match m@[key] {
                JsonValue::Number(t) => match usize_of_text(t@) {
                    Some(n) => Ok(n),
                    None => Err(invalid_field(key)),
                },
                _ => Err(invalid_field(key)),
            }
        } else {
            Err(missing_field(key))
        },
        _ => Err(missing_field(key)),
    }
}

fn claim_number(v: &JsonValue, key: &str) -> (r: Result<usize, String>)
    ensures
        match r {
            Ok(n) => claim_usize(*v, key@) == Ok::<usize, Seq<char>>(n),
            Err(e) => claim_usize(*v, key@) == Err::<usize, Seq<char>>(e@),
        },
{
    match v {
        JsonValue::Object(m) => match m.get(key) {
            Some(JsonValue::Number(t)) => match usize_text(t.as_str()) {
                Some(n) => Ok(n),
                None => Err(invalid_field_text(key)),
            },
            Some(_) => Err(invalid_field_text(key)),
            None => Err(missing_field_text(key)),
        },
        _ => Err(missing_field_text(key)),
    }
}

/// The fields of refresh claims read from decoded claims, in the order
/// `sub`, `token_type`, `exp`, `iat`; the first claim that is missing or of
/// the wrong kind is reported.
pub open spec fn refresh_fields(v: JsonValue) -> Result<(Seq<char>, Seq<char>, usize, usize), Seq<char>> {
    match member_str(v, "sub"@) {
        Err(e) => Err(e),
        Ok(sub) => match member_str(v, "token_type"@) {
            Err(e) => Err(e),
            Ok(tt) => match claim_usize(v, "exp"@) {
                Err(e) => Err(e),
                Ok(exp) => match claim_usize(v, "iat"@) {
                    Err(e) => Err(e),
                    Ok(iat) => Ok((sub, tt, exp, iat)),
                },
            },
        },
    }
}

/// What the refresh check makes of a decoding outcome: the claims'
/// fields, or the message of the `Unauthorized` error it answers with.
pub open spec fn refresh_outcome(d: Result<JsonValue, JwtFailure>) -> Result<(Seq<char>, Seq<char>, usize, usize), Seq<char>> {
    match d {
        Err(JwtFailure::ExpiredSignature) => Err("Refresh token has expired"@),
        Err(JwtFailure::InvalidToken) => Err("Invalid refresh token format"@),
        Err(JwtFailure::InvalidSignature) => Err("Refresh token signature is invalid"@),
        Err(JwtFailure::Other(m)) => Err("Refresh token validation failed: "@ + m@),
        Ok(v) => match refresh_fields(v) {
            Err(e) => Err("Refresh token validation failed: JSON error: "@ + e),
            Ok(f) => if f.1 == "refresh"@ {
                Ok(f)
            } else {
                Err("Token is not a refresh token"@)
            },
        },
    }
}

/// The refresh claims of a decoding outcome, or the `Unauthorized` error
/// that answers it: an expired, malformed or badly signed token each with
/// its own message, any other refusal with its text, claims of the wrong
/// shape with the first bad claim, and claims of another token type.
pub fn refresh_claims_of(decoded: Result<JsonValue, JwtFailure>) -> (r: AppResult<RefreshClaims>)
    ensures
        refresh_answer(r, decoded),
{
    proof {
        reveal_strlit("Refresh token has expired");
        reveal_strlit("Invalid refresh token format");
        reveal_strlit("Refresh token signature is invalid");
        reveal_strlit("Refresh token validation failed: ");
        reveal_strlit("Refresh token validation failed: JSON error: ");
        reveal_strlit("sub");
        reveal_strlit("token_type");
        reveal_strlit("exp");
        reveal_strlit("iat");
    }
    let v = match decoded {
        Err(JwtFailure::ExpiredSignature) => {
            return Err(AppError::Unauthorized(owned("Refresh token has expired")));
        },
        Err(JwtFailure::InvalidToken) => {
            return Err(AppError::Unauthorized(owned("Invalid refresh token format")));
        },
        Err(JwtFailure::InvalidSignature) => {
            return Err(AppError::Unauthorized(owned("Refresh token signature is invalid")));
        },
        Err(JwtFailure::Other(m)) => {
            return Err(AppError::Unauthorized(concat2("Refresh token validation failed: ", m.as_str())));
        },
        Ok(v) => v,
    };
    let prefix = "Refresh token validation failed: JSON error: ";
    let sub = match member_string(&v, "sub") {
        Ok(s) => s,
        Err(e) => {
            return Err(AppError::Unauthorized(concat2(prefix, e.as_str())));
        },
    };
    let token_type = match member_string(&v, "token_type") {
        Ok(s) => s,
        Err(e) => {
            return Err(AppError::Unauthorized(concat2(prefix, e.as_str())));
        },
    };
    let exp = match claim_number(&v, "exp") {
        Ok(n) => n,
        Err(e) => {
            return Err(AppError::Unauthorized(concat2(prefix, e.as_str())));
        },
    };
    let iat = match claim_number(&v, "iat") {
        Ok(n) => n,
        Err(e) => {
            return Err(AppError::Unauthorized(concat2(prefix, e.as_str())));
        },
    };
    let c = RefreshClaims { sub, token_type, exp, iat };
    match c.check_refresh_type() {
        Ok(()) => Ok(c),
        Err(e) => Err(e),
    }
}

/// serde's message for a role it does not know.
pub open spec fn unknown_role(t: Seq<char>) -> Seq<char> {
    "unknown variant `"@ + t + "`, expected `User` or `Admin`"@
}

/// The role claim of decoded claims, or why there is none.
pub open spec fn claim_role(v: JsonValue) -> Result<UserRole, Seq<char>> {
    match member_str(v, "role"@) {
        Err(e) => Err(e),
        Ok(t) => if t == "User"@ {
            Ok(UserRole::User)
        } else if t == "Admin"@ {
            Ok(UserRole::Admin)
        } else {
            Err(unknown_role(t))
        },
    }
}

/// The fields of access claims read from decoded claims, in the order
/// `sub`, `username`, `email`, `role`, `exp`, `iat`; the first claim that is
/// missing or of the wrong kind is reported.
pub open spec fn access_fields(v: JsonValue) -> Result<(Seq<char>, Seq<char>, Seq<char>, UserRole, usize, usize), Seq<char>> {
    match member_str(v, "sub"@) {
        Err(e) => Err(e),
        Ok(sub) => match member_str(v, "username"@) {
            Err(e) => Err(e),
            Ok(username) => match member_str(v, "email"@) {
                Err(e) => Err(e),
                Ok(email) => match claim_role(v) {
                    Err(e) => Err(e),
                    Ok(role) => match claim_usize(v, "exp"@) {
                        Err(e) => Err(e),
                        Ok(exp) => match claim_usize(v, "iat"@) {
                            Err(e) => Err(e),
                            Ok(iat) => Ok((sub, username, email, role, exp, iat)),
                        },
                    },
                },
            },
        },
    }
}

/// What the access check makes of a decoding outcome: the claims' fields,
/// or the message of the `Unauthorized` error it answers with.
pub open spec fn access_outcome(d: Result<JsonValue, JwtFailure>) -> Result<(Seq<char>, Seq<char>, Seq<char>, UserRole, usize, usize), Seq<char>> {
    match d {
        Err(f) => Err("Invalid token: "@ + failure_text(f)),
        Ok(v) => match access_fields(v) {
            Err(e) => Err("Invalid token: JSON error: "@ + e),
            Ok(f) => Ok(f),
        },
    }
}

fn role_claim(v: &JsonValue) -> (r: Result<UserRole, String>)
    ensures
        match r {
            Ok(x) => claim_role(*v) == Ok::<UserRole, Seq<char>>(x),
            Err(e) => claim_role(*v) == Err::<UserRole, Seq<char>>(e@),
        },
{
    proof {
        reveal_strlit("role");
        reveal_strlit("unknown variant `");
        reveal_strlit("`, expected `User` or `Admin`");
    }
    let t = match member_string(v, "role") {
        Ok(t) => t,
        Err(e) => {
            return Err(e);
        },
    };
    if str_eq(t.as_str(), "User") {
        Ok(UserRole::User)
    } else if str_eq(t.as_str(), "Admin") {
        Ok(UserRole::Admin)
    } else {
        Err(concat3("unknown variant `", t.as_str(), "`, expected `User` or `Admin`"))
    }
}

fn failure_string(f: JwtFailure) -> (m: String)
    ensures
        m@ == failure_text(f),
{
    match f {
        JwtFailure::ExpiredSignature => {
            proof { reveal_strlit("ExpiredSignature"); }
            owned("ExpiredSignature")
        },
        JwtFailure::InvalidToken => {
            proof { reveal_strlit("InvalidToken"); }
            owned("InvalidToken")
        },
        JwtFailure::InvalidSignature => {
            proof { reveal_strlit("InvalidSignature"); }
            owned("InvalidSignature")
        },
        JwtFailure::Other(m) => m,
    }
}

/// The access claims of a decoding outcome, or the `Unauthorized` error
/// `Invalid token: ` followed by the reason.
pub fn claims_of_decoded(decoded: Result<JsonValue, JwtFailure>) -> (r: AppResult<Claims>)
    ensures
        access_answer(r, decoded),
{
    proof {
        reveal_strlit("Invalid token: ");
        reveal_strlit("Invalid token: JSON error: ");
        reveal_strlit("sub");
        reveal_strlit("username");
        reveal_strlit("email");
        reveal_strlit("exp");
        reveal_strlit("iat");
    }
    let v = match decoded {
        Err(f) => {
            let m = failure_string(f);
            return Err(AppError::Unauthorized(concat2("Invalid token: ", m.as_str())));
        },
        Ok(v) => v,
    };
    let prefix = "Invalid token: JSON error: ";
    let sub = match member_string(&v, "sub") {
        Ok(s) => s,
        Err(e) => {
            return Err(AppError::Unauthorized(concat2(prefix, e.as_str())));
        },
    };
    let username = match member_string(&v, "username") {
        Ok(s) => s,
        Err(e) => {
            return Err(AppError::Unauthorized(concat2(prefix, e.as_str())));
        },
    };
    let email = match member_string(&v, "email") {
        Ok(s) => s,
        Err(e) => {
            return Err(AppError::Unauthorized(concat2(prefix, e.as_str())));
        },
    };
    let role = match role_claim(&v) {
        Ok(x) => x,
        Err(e) => {
            return Err(AppError::Unauthorized(concat2(prefix, e.as_str())));
        },
    };
    let exp = match claim_number(&v, "exp") {
        Ok(n) => n,
        Err(e) => {
            return Err(AppError::Unauthorized(concat2(prefix, e.as_str())));
        },
    };
    let iat = match claim_number(&v, "iat") {
        Ok(n) => n,
        Err(e) => {
            return Err(AppError::Unauthorized(concat2(prefix, e.as_str())));
        },
    };
    Ok(Claims { sub, username, email, role, exp, iat })
}

/// `r` answers the decoding outcome `d` as the refresh check does.
pub open spec fn refresh_answer(r: AppResult<RefreshClaims>, d: Result<JsonValue, JwtFailure>) -> bool {
    match r {
        Ok(c) => refresh_outcome(d) == Ok::<(Seq<char>, Seq<char>, usize, usize), Seq<char>>(
            (c.sub@, c.token_type@, c.exp, c.iat),
        ),
        Err(e) => e matches AppError::Unauthorized(m) && refresh_outcome(d) == Err::<
            (Seq<char>, Seq<char>, usize, usize),
            Seq<char>,
        >(m@),
    }
}

/// `r` answers the decoding outcome `d` as the access check does.
pub open spec fn access_answer(r: AppResult<Claims>, d: Result<JsonValue, JwtFailure>) -> bool {
    match r {
        Ok(c) => access_outcome(d) == Ok::<(Seq<char>, Seq<char>, Seq<char>, UserRole, usize, usize), Seq<char>>(
            (c.sub@, c.username@, c.email@, c.role, c.exp, c.iat),
        ),
        Err(e) => e matches AppError::Unauthorized(m) && access_outcome(d) == Err::<
            (Seq<char>, Seq<char>, Seq<char>, UserRole, usize, usize),
            Seq<char>,
        >(m@),
    }
}

/// `c` are the access claims of `user` issued at some clock second and
/// living `hours` hours.
pub open spec fn claims_for_user(c: Claims, user: User, hours: i64) -> bool {
    &&& c.sub@ == subject_of(&user)
    &&& c.username@ == user.username@
    &&& c.email@ == user.email@
    &&& c.role == user.role
    &&& exists|t: i64| #[trigger] issued_stamps(c.iat, c.exp, t, hours)
}

/// `c` are the refresh claims of `subject` issued at some clock second and
/// living `hours` hours.
pub open spec fn refresh_claims_for(c: RefreshClaims, subject: Seq<char>, hours: i64) -> bool {
    &&& c.sub@ == subject
    &&& c.token_type@ == "refresh"@
    &&& exists|t: i64| #[trigger] issued_stamps(c.iat, c.exp, t, hours)
}

/// `r` is what signing gave: the token, or an internal error of `prefix`
/// followed by the signing error's text.
pub open spec fn signed_as(r: AppResult<String>, e: Result<Seq<char>, Seq<char>>, prefix: Seq<char>) -> bool {
    match e {
        Ok(t) => r matches Ok(s) && s@ == t,
        Err(m) => r matches Err(AppError::InternalError(s)) && s@ == prefix + m,
    }
}

/// The answer to a signing: the token, or an internal error of `failure`
/// followed by the signing error's text.
pub fn signed_token(encoded: Result<String, String>, failure: &str) -> (r: AppResult<String>)
    ensures
        signed_as(
            r,
            match encoded {
                Ok(t) => Ok::<Seq<char>, Seq<char>>(t@),
                Err(m) => Err::<Seq<char>, Seq<char>>(m@),
            },
            failure@,
        ),
{
    match encoded {
        Ok(t) => Ok(t),
        Err(m) => Err(AppError::InternalError(concat2(failure, m.as_str()))),
    }
}

/// Issues and checks the service's access and refresh tokens, all signed
/// with one secret.
pub struct JwtService {
    secret: String,
    expiration_hours: i64,
    refresh_expiration_hours: i64,
}

impl JwtService {
    /// The signing secret.
    pub closed spec fn secret_text(&self) -> Seq<char> {
        self.secret@
    }

    /// How long an access token lives, in hours.
    pub closed spec fn access_hours(&self) -> i64 {
        self.expiration_hours
    }

    /// How long a refresh token lives, in hours.
    pub closed spec fn refresh_hours(&self) -> i64 {
        self.refresh_expiration_hours
    }

    pub fn new(secret: &str, expiration_hours: i64, refresh_expiration_hours: i64) -> (s: Self)
        ensures
            s.secret_text() == secret@,
            s.access_hours() == expiration_hours,
            s.refresh_hours() == refresh_expiration_hours,
    {
        JwtService { secret: owned(secret), expiration_hours, refresh_expiration_hours }
    }

    pub fn refresh_expiration_hours(&self) -> (h: i64)
        ensures
            h == self.refresh_hours(),
    {
        self.refresh_expiration_hours
    }

    /// A signed access token for `user`, issued now.
    pub fn create_token(&self, user: &User) -> (r: AppResult<String>)
        requires
            -MAX_TOKEN_HOURS <= self.access_hours() <= MAX_TOKEN_HOURS,
        ensures
            exists|c: Claims, v: JsonValue|
                #![trigger claims_json(v, c)]
                claims_for_user(c, *user, self.access_hours()) && claims_json(v, c) && signed_as(
                    r,
                    jwt_encoding(v, self.secret_text()),
                    "Failed to create JWT: "@,
                ) && (r matches Ok(t) ==> (jwt_payload(t@, self.secret_text()) matches Some(p) && claims_json(p, c))),
    {
        let c = Claims::new(user, self.expiration_hours);
        let v = claims_value(&c);
        let ghost gv = v;
        proof { reveal_strlit("Failed to create JWT: "); }
        let e = jwt_encode(v, self.secret.as_str());
        proof {
            if e is Ok {
                lemma_same_claims_json(jwt_payload(e->Ok_0@, self.secret@)->Some_0, gv, c);
            }
        }
        let r = signed_token(e, "Failed to create JWT: ");
        assert(claims_json(gv, c));
        r
    }

    /// A signed refresh token whose subject is `subject`, issued now.
    pub fn create_refresh_token(&self, subject: &str) -> (r: AppResult<String>)
        requires
            -MAX_TOKEN_HOURS <= self.refresh_hours() <= MAX_TOKEN_HOURS,
        ensures
            exists|c: RefreshClaims, v: JsonValue|
                #![trigger refresh_claims_json(v, c)]
                refresh_claims_for(c, subject@, self.refresh_hours()) && refresh_claims_json(v, c)
                    && signed_as(r, jwt_encoding(v, self.secret_text()), "Failed to create refresh token: "@)
                    && (r matches Ok(t) ==> (jwt_payload(t@, self.secret_text()) matches Some(p)
                    && refresh_claims_json(p, c))),
    {
        let c = RefreshClaims::new(subject, self.refresh_expiration_hours);
        let v = refresh_claims_value(&c);
        let ghost gv = v;
        proof { reveal_strlit("Failed to create refresh token: "); }
        let e = jwt_encode(v, self.secret.as_str());
        proof {
            if e is Ok {
                lemma_same_refresh_claims_json(jwt_payload(e->Ok_0@, self.secret@)->Some_0, gv, c);
            }
        }
        let r = signed_token(e, "Failed to create refresh token: ");
        assert(refresh_claims_json(gv, c));
        r
    }

    /// The access claims of `token`, checked against the secret and the
    /// clock, or the `Unauthorized` error that answers it (see
    /// [`claims_of_decoded`]).
    pub fn validate_token(&self, token: &str) -> (r: AppResult<Claims>)
        ensures
            exists|d: Result<JsonValue, JwtFailure>|
                #![trigger access_answer(r, d)]
                decoded_from(d, token@, self.secret_text()) && access_answer(r, d),
    {
        let d = jwt_decode(token, self.secret.as_str());
        claims_of_decoded(d)
    }

    /// The refresh claims of `token`, checked against the secret and the
    /// clock, or the `Unauthorized` error that answers it (see
    /// [`refresh_claims_of`]).
    pub fn validate_refresh_token(&self, token: &str) -> (r: AppResult<RefreshClaims>)
        ensures
            exists|d: Result<JsonValue, JwtFailure>|
                #![trigger refresh_answer(r, d)]
                decoded_from(d, token@, self.secret_text()) && refresh_answer(r, d),
    {
        let d = jwt_decode(token, self.secret.as_str());
        refresh_claims_of(d)
    }
}

proof fn lemma_same_claims_json(p: JsonValue, v: JsonValue, c: Claims)
    requires
        same_claims(p, v),
        claims_json(v, c),
    ensures
        claims_json(p, c),
{
    assert(str_field(p, "sub"@) == str_field(v, "sub"@));
    assert(str_field(p, "username"@) == str_field(v, "username"@));
    assert(str_field(p, "email"@) == str_field(v, "email"@));
    assert(str_field(p, "role"@) == str_field(v, "role"@));
    assert(number_field(p, "exp"@) == number_field(v, "exp"@));
    assert(number_field(p, "iat"@) == number_field(v, "iat"@));
}

proof fn lemma_same_refresh_claims_json(p: JsonValue, v: JsonValue, c: RefreshClaims)
    requires
        same_claims(p, v),
        refresh_claims_json(v, c),
    ensures
        refresh_claims_json(p, c),
{
    assert(str_field(p, "sub"@) == str_field(v, "sub"@));
    assert(str_field(p, "token_type"@) == str_field(v, "token_type"@));
    assert(number_field(p, "exp"@) == number_field(v, "exp"@));
    assert(number_field(p, "iat"@) == number_field(v, "iat"@));
}

proof fn lemma_decimal_digits(n: nat)
    ensures
        decimal(n).len() > 0,
        all_digits(decimal(n)),
        digits_nat(decimal(n)) == n,
    decreases n,
{
    let d = decimal(n);
    if n < 10 {
        assert(d.drop_last() =~= Seq::<char>::empty());
        assert(d.last() as int - 48 == n);
        assert(digits_nat(d) == digits_nat(d.drop_last()) * 10 + ((d.last() as int - 48) as nat));
    } else {
        lemma_decimal_digits(n / 10);
        assert(d.drop_last() =~= decimal(n / 10));
        assert(d.last() as int - 48 == n % 10);
        assert forall|i: int| 0 <= i < d.len() implies '0' <= #[trigger] d[i] <= '9' by {
            if i < d.len() - 1 {
                assert(d[i] == decimal(n / 10)[i]);
            }
        }
        assert(n == (n / 10) * 10 + n % 10) by (nonlinear_arith);
        assert(digits_nat(d) == digits_nat(decimal(n / 10)) * 10 + ((d.last() as int - 48) as nat));
        assert(digits_nat(d) == (n / 10) * 10 + n % 10);
    }
}

/// A number written as a claim reads back as the same number.
pub proof fn lemma_claim_number_round_trip(n: usize)
    ensures
        usize_of_text(decimal(n as nat)) == Some(n),
{
    lemma_decimal_digits(n as nat);
}

/// An access token the service issued with the claims `c` (its payload
/// reads as their JSON form) is answered by the access check with exactly
/// those claims whenever decoding lets it through; when decoding refuses
/// it, the reason is neither its form nor its signature.
pub proof fn lemma_access_token_round_trip(
    c: Claims,
    token: Seq<char>,
    secret: Seq<char>,
    d: Result<JsonValue, JwtFailure>,
    r: AppResult<Claims>,
)
    requires
        jwt_payload(token, secret) matches Some(p) && claims_json(p, c),
        decoded_from(d, token, secret),
        access_answer(r, d),
    ensures
        r matches Ok(x) ==> x.sub@ == c.sub@ && x.username@ == c.username@ && x.email@ == c.email@ && x.role
            == c.role && x.exp == c.exp && x.iat == c.iat,
        d is Ok ==> r is Ok,
        r is Err ==> (d matches Err(f) && !(f is InvalidToken) && !(f is InvalidSignature)),
{
    lemma_claim_number_round_trip(c.exp);
    lemma_claim_number_round_trip(c.iat);
    reveal_strlit("sub");
    reveal_strlit("username");
    reveal_strlit("email");
    reveal_strlit("role");
    reveal_strlit("exp");
    reveal_strlit("iat");
    reveal_strlit("User");
    reveal_strlit("Admin");
    assert("User"@ != "Admin"@) by {
        assert("User"@.len() != "Admin"@.len());
    }
    let p = jwt_payload(token, secret)->Some_0;
    assert(access_fields(p) == Ok::<(Seq<char>, Seq<char>, Seq<char>, UserRole, usize, usize), Seq<char>>(
        (c.sub@, c.username@, c.email@, c.role, c.exp, c.iat),
    ));
}

/// A refresh token the service issued with the claims `c` (its payload
/// reads as their JSON form, of type `refresh`) is answered by the refresh
/// check with exactly those claims whenever decoding lets it through; when
/// decoding refuses it, the reason is neither its form nor its signature.
pub proof fn lemma_refresh_token_round_trip(
    c: RefreshClaims,
    token: Seq<char>,
    secret: Seq<char>,
    d: Result<JsonValue, JwtFailure>,
    r: AppResult<RefreshClaims>,
)
    requires
        jwt_payload(token, secret) matches Some(p) && refresh_claims_json(p, c),
        c.token_type@ == "refresh"@,
        decoded_from(d, token, secret),
        refresh_answer(r, d),
    ensures
        r matches Ok(x) ==> x.sub@ == c.sub@ && x.token_type@ == c.token_type@ && x.exp == c.exp && x.iat == c.iat,
        d is Ok ==> r is Ok,
        r is Err ==> (d matches Err(f) && !(f is InvalidToken) && !(f is InvalidSignature)),
{
    lemma_claim_number_round_trip(c.exp);
    lemma_claim_number_round_trip(c.iat);
    reveal_strlit("sub");
    reveal_strlit("token_type");
    reveal_strlit("exp");
    reveal_strlit("iat");
    let p = jwt_payload(token, secret)->Some_0;
    assert(refresh_fields(p) == Ok::<(Seq<char>, Seq<char>, usize, usize), Seq<char>>(
        (c.sub@, c.token_type@, c.exp, c.iat),
    ));
}

} // verus!
