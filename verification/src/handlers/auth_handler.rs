//! The decisions of the GitHub sign-in, token refresh and logout
//! endpoints: which redirect is used, what GitHub's token answer means,
//! what a signed-in user is told, and when a refresh token is refused.

use vstd::prelude::*;

use crate::auth::claims::{subject_for, subject_of};
use crate::config::origin_of;
use crate::errors::{AppError, AppResult};
use crate::json::{get_str, json_parse, parse_json, str_field, JsonValue};
use crate::models::domain::refresh_token::{revoked_record, valid_at, RefreshToken};
use crate::models::domain::user::{User, UserRole};
use crate::config::Config;
use crate::text::{concat3, copy_string, owned, trim, trimmed};

verus! {

/// The query of GitHub's callback.
#[derive(Debug)]
pub struct CallbackParams {
    pub code: String,
    pub redirect_uri: Option<String>,
}

/// What a signed-in user receives.
#[derive(Debug)]
pub struct AuthResponse {
    pub token: String,
    pub refresh_token: String,
    pub id: String,
    pub username: String,
    pub email: String,
    pub role: String,
    pub full_name: Option<String>,
}

/// A request for new tokens.
#[derive(Debug)]
pub struct RefreshTokenRequest {
    pub refresh_token: String,
}

/// New tokens, in exchange for a refresh token.
#[derive(Debug)]
pub struct RefreshTokenResponse {
    pub token: String,
    pub refresh_token: String,
}

/// A request to revoke a refresh token.
#[derive(Debug)]
pub struct LogoutRequest {
    pub refresh_token: String,
}

/// How long a refresh token lives, in hours (a week).
pub const REFRESH_TOKEN_HOURS: i64 = 168;

/// The path appended to the first allowed origin when no redirect is given.
pub open spec fn callback_path() -> Seq<char> {
    "/auth/callback"@
}

/// Whether some allowed origin has the canonical origin `o`.
pub open spec fn origin_allowed(allowed: Seq<String>, o: Seq<char>) -> bool {
    exists|i: int| 0 <= i < allowed.len() && origin_of((#[trigger] allowed[i])@) == Some(o)
}

/// The redirect used for the OAuth exchange. A given `redirect_uri` is used
/// exactly as given when its origin is one of the allowed origins; it is
/// refused when it has no origin or another one. Without one, the first
/// allowed origin followed by `/auth/callback` is used; that fails when
/// there is no allowed origin, or the first has no origin.
pub fn validate_and_select_redirect_uri(allowed: &[String], provided: Option<&str>) -> (r: AppResult<String>)
    ensures
        match provided {
            Some(uri) => match origin_of(uri@) {
                Some(o) => if origin_allowed(allowed@, o) {
                    r matches Ok(s) && s@ == uri@
                } else {
                    r matches Err(AppError::BadRequest(_))
                },
                None => r matches Err(AppError::BadRequest(_)),
            },
            None => if allowed@.len() > 0 && origin_of(allowed@[0]@) is Some {
                r matches Ok(s) && s@ == origin_of(allowed@[0]@)->Some_0 + callback_path()
            } else {
                r matches Err(AppError::InternalError(_))
            },
        },
{
    match provided {
        Some(uri) => {
            let o = match Config::canonicalize_origin(uri) {
                Some(o) => o,
                None => {
                    return Err(AppError::BadRequest(owned("Invalid redirect_uri")));
                },
            };
            for i in 0..allowed.len()
                invariant
                    provided == Some(uri),
                    origin_of(uri@) == Some(o@),
                    forall|j: int| 0 <= j < i ==> origin_of((#[trigger] allowed@[j])@) != Some(o@),
            {
                match Config::canonicalize_origin(allowed[i].as_str()) {
                    Some(a) => {
                        if crate::text::str_eq(a.as_str(), o.as_str()) {
                            assert(origin_of(allowed@[i as int]@) == Some(o@));
                            return Ok(owned(uri));
                        }
                    },
                    None => {},
                }
            }
            Err(AppError::BadRequest(owned("redirect_uri origin is not allowed")))
        },
        None => {
            if allowed.len() == 0 {
                return Err(AppError::InternalError(owned("No redirect origin is configured")));
            }
            match Config::canonicalize_origin(allowed[0].as_str()) {
                Some(a) => {
                    proof { reveal_strlit("/auth/callback"); }
                    let mut s = a;
                    s.append("/auth/callback");
                    Ok(s)
                },
                None => Err(AppError::InternalError(owned("No redirect origin is configured"))),
            }
        },
    }
}

/// The access token in the text of GitHub's answer to the code exchange:
/// text that is not JSON is reported with serde_json's message and the
/// text itself; JSON is read as [`oauth_access_token`] reads it.
pub fn oauth_token_of_answer(body: &str) -> (r: AppResult<String>)
    ensures
        json_parse(body@) matches Err(e) ==> (r matches Err(AppError::InternalError(m)) && m@
            == "Failed to parse token response: "@ + e + " | Response: "@ + body@),
        json_parse(body@) matches Ok(v) ==> oauth_token_answer(r, v),
{
    proof {
        reveal_strlit("Failed to parse token response: ");
        reveal_strlit(" | Response: ");
    }
    match parse_json(body) {
        Ok(v) => oauth_access_token(&v),
        Err(e) => {
            let mut m = owned("Failed to parse token response: ");
            m.append(e.as_str());
            m.append(" | Response: ");
            m.append(body);
            Err(AppError::InternalError(m))
        },
    }
}

/// `r` is what the service makes of GitHub's JSON answer `answer` to the
/// code exchange.
pub open spec fn oauth_token_answer(r: AppResult<String>, answer: JsonValue) -> bool {
    &&& !(answer is Object) ==> (r matches Err(AppError::InternalError(m)) && m@ == "Invalid OAuth response format"@)
    &&& answer is Object && str_field(answer, "error"@) is Some ==> (r matches Err(AppError::InternalError(m))
        && m@ == "GitHub OAuth error: "@ + str_field(answer, "error"@)->Some_0 + " - "@
            + match str_field(answer, "error_description"@) {
                Some(d) => d,
                None => "Unknown error"@,
            })
    &&& answer is Object && str_field(answer, "error"@) is None ==> match str_field(answer, "access_token"@) {
        Some(t) => r matches Ok(s) && s@ == t,
        None => r matches Err(AppError::InternalError(m)) && m@ == "No access_token in GitHub response. Possible issues: invalid code, or GitHub credentials misconfigured"@,
    }
}

/// The access token in GitHub's answer to the code exchange. The answer
/// must be a JSON object; one with an `error` string is GitHub refusing
/// (its `error_description`, or `Unknown error`, is reported); otherwise
/// its `access_token` string is the token.
pub fn oauth_access_token(answer: &JsonValue) -> (r: AppResult<String>)
    ensures
        oauth_token_answer(r, *answer),
{
    proof {
        reveal_strlit("No access_token in GitHub response. Possible issues: invalid code, or GitHub credentials misconfigured");
    }
    match answer {
        JsonValue::Object(_) => {},
        _ => {
            return Err(AppError::InternalError(owned("Invalid OAuth response format")));
        },
    }
    match get_str(answer, "error") {
        Some(error) => {
            let description: &str = match get_str(answer, "error_description") {
                Some(d) => d.as_str(),
                None => "Unknown error",
            };
            let mut m = owned("GitHub OAuth error: ");
            m.append(error.as_str());
            m.append(" - ");
            m.append(description);
            return Err(AppError::InternalError(m));
        },
        None => {},
    }
    match get_str(answer, "access_token") {
        Some(t) => Ok(copy_string(t)),
        None => Err(
            AppError::InternalError(
                owned(
                    "No access_token in GitHub response. Possible issues: invalid code, or GitHub credentials misconfigured",
                ),
            ),
        ),
    }
}

/// The e-mail of a GitHub account: its public e-mail, else GitHub's
/// no-reply address for the login.
pub fn github_email(login: &str, email: Option<String>) -> (e: String)
    ensures
        e@ == match email {
            Some(m) => m@,
            None => login@ + "@users.noreply.github.com"@,
        },
{
    match email {
        Some(m) => m,
        None => crate::text::concat2(login, "@users.noreply.github.com"),
    }
}

/// The full name shown for a user: first and last name separated by a
/// space and trimmed, when either is set.
pub open spec fn full_name_of(first: Seq<char>, last: Seq<char>) -> Option<Seq<char>> {
    if first.len() > 0 || last.len() > 0 {
        Some(trim(first + " "@ + last))
    } else {
        None
    }
}

/// The full name shown for a user, when either name is set.
pub fn full_name(first_name: &str, last_name: &str) -> (r: Option<String>)
    ensures
        crate::text::opt_string_model(r) == full_name_of(first_name@, last_name@),
{
    if first_name.is_empty() && last_name.is_empty() {
        None
    } else {
        let joined = concat3(first_name, " ", last_name);
        Some(trimmed(joined.as_str()))
    }
}

/// The name of a role as clients see it.
pub open spec fn role_text(role: UserRole) -> Seq<char> {
    match role {
        UserRole::User => "user"@,
        UserRole::Admin => "admin"@,
    }
}

/// The name of a role as clients see it: `user` or `admin`.
pub fn role_name(role: UserRole) -> (s: String)
    ensures
        s@ == role_text(role),
{
    match role {
        UserRole::User => owned("user"),
        UserRole::Admin => owned("admin"),
    }
}

/// What a user who signed in receives: the tokens, the subject of its
/// tokens as id, its username, e-mail, role name and full name.
pub fn auth_response(token: String, refresh_token: String, user: &User) -> (r: AuthResponse)
    ensures
        r.token == token,
        r.refresh_token == refresh_token,
        r.id@ == subject_of(user),
        r.username@ == user.username@,
        r.email@ == user.email@,
        r.role@ == role_text(user.role),
        crate::text::opt_string_model(r.full_name) == full_name_of(user.first_name@, user.last_name@),
{
    AuthResponse {
        token,
        refresh_token,
        id: subject_for(user),
        username: copy_string(&user.username),
        email: copy_string(&user.email),
        role: role_name(user.role),
        full_name: full_name(user.first_name.as_str(), user.last_name.as_str()),
    }
}

/// When a refresh token issued at `now` (microseconds) expires: a week
/// later.
pub fn refresh_token_expiry(now: i64) -> (t: i64)
    requires
        now <= i64::MAX - REFRESH_TOKEN_HOURS * 3_600_000_000,
    ensures
        t == now + REFRESH_TOKEN_HOURS * 3_600_000_000,
{
    now + REFRESH_TOKEN_HOURS * 3_600_000_000
}

/// What the refresh flow makes of the stored record of a token at `now`:
/// the record when it may be used, else the message of the refusal.
pub open spec fn stored_token_check(stored: Option<RefreshToken>, now: i64) -> Result<RefreshToken, Seq<char>> {
    match stored {
        None => Err("Refresh token not found or has been revoked"@),
        Some(t) => if valid_at(t, now) {
            Ok(t)
        } else {
            Err("Refresh token has expired or been revoked"@)
        },
    }
}

/// The stored records, by token hash, after a refresh that used the token
/// whose hash is `used` and issued the token recorded by `fresh`: the used
/// record revoked and the fresh one added.
pub open spec fn refreshed_store(store: Map<Seq<char>, RefreshToken>, used: Seq<char>, fresh: RefreshToken) -> Map<Seq<char>, RefreshToken> {
    store.insert(used, revoked_record(store[used])).insert(fresh.token_hash@, fresh)
}

/// The record stored under `hash`, if any.
pub open spec fn stored_under(store: Map<Seq<char>, RefreshToken>, hash: Seq<char>) -> Option<RefreshToken> {
    if store.contains_key(hash) {
        Some(store[hash])
    } else {
        None
    }
}

/// A refresh token is good for one refresh: once a refresh has used it and
/// issued a different token, its record is refused at any later time,
/// while the fresh token's record is the one issued.
pub proof fn lemma_refresh_token_single_use(
    store: Map<Seq<char>, RefreshToken>,
    used: Seq<char>,
    fresh: RefreshToken,
    now: i64,
    later: i64,
)
    requires
        stored_token_check(stored_under(store, used), now) is Ok,
        fresh.token_hash@ != used,
    ensures
        stored_token_check(stored_under(refreshed_store(store, used, fresh), used), later) == Err::<
            RefreshToken,
            Seq<char>,
        >("Refresh token has expired or been revoked"@),
        stored_under(refreshed_store(store, used, fresh), fresh.token_hash@) == Some(fresh),
{
    let after = refreshed_store(store, used, fresh);
    assert(after[used] == revoked_record(store[used]));
}

/// The stored refresh token looked up for a refresh, if it may be used at
/// `now`: a missing one, and one revoked or expired, are refused.
pub fn check_stored_refresh_token(stored: Option<RefreshToken>, now: i64) -> (r: AppResult<RefreshToken>)
    ensures
        match stored_token_check(stored, now) {
            Ok(t) => r == Ok::<RefreshToken, AppError>(t),
            Err(m) => r matches Err(AppError::Unauthorized(s)) && s@ == m,
        },
{
    match stored {
        None => Err(AppError::Unauthorized(owned("Refresh token not found or has been revoked"))),
        Some(t) => {
            if t.is_valid_at(now) {
                Ok(t)
            } else {
                Err(AppError::Unauthorized(owned("Refresh token has expired or been revoked")))
            }
        },
    }
}

/// The answer to a logout, from revoking the token: a token that was not
/// found counts as logged out; any other failure is passed on.
pub fn logout_outcome(revoked: AppResult<()>) -> (r: AppResult<()>)
    ensures
        match revoked {
            Ok(()) => r is Ok,
            Err(AppError::NotFound(_)) => r is Ok,
            Err(e) => r == Err::<(), AppError>(e),
        },
{
    match revoked {
        Ok(()) => Ok(()),
        Err(AppError::NotFound(_)) => Ok(()),
        Err(e) => Err(e),
    }
}

} // verus!
