//! What the authentication layer decides about a request: where its token
//! is, and who the request is from.

use vstd::prelude::*;

use crate::auth::claims::Claims;
use crate::errors::{AppError, AppResult};
use crate::text::{chars_of, owned, string_of_range};

verus! {

/// The layer that authenticates every request of a scope.
#[derive(Debug)]
pub struct AuthMiddleware;

/// The authentication layer wrapped around the next service.
#[derive(Debug)]
pub struct AuthMiddlewareService<S> {
    pub service: S,
}

/// The claims of the user a request is from.
#[derive(Debug)]
pub struct AuthenticatedUser(pub Claims);

/// The scheme that must open an authorization header.
pub open spec fn bearer_prefix() -> Seq<char> {
    "Bearer "@
}

/// The token of an authorization header: the header must be present and
/// start with `Bearer `; the token is the rest.
#[verifier::loop_isolation(false)]
pub fn bearer_token(header: Option<&str>) -> (r: AppResult<String>)
    ensures
        match header {
            None => r matches Err(AppError::Unauthorized(m)) && m@ == "Missing authorization header"@,
            Some(h) => if h@.len() >= 7 && h@.subrange(0, 7) == bearer_prefix() {
                r matches Ok(t) && t@ == h@.subrange(7, h@.len() as int)
            } else {
                r matches Err(AppError::Unauthorized(m)) && m@ == "Invalid authorization header format"@
            },
        },
{
    proof { reveal_strlit("Bearer "); }
    let h = match header {
        Some(h) => h,
        None => {
            return Err(AppError::Unauthorized(owned("Missing authorization header")));
        },
    };
    let v = chars_of(h);
    let prefix = chars_of("Bearer ");
    assert(prefix@ == bearer_prefix());
    assert(prefix@.len() == 7);
    if v.len() < 7 {
        return Err(AppError::Unauthorized(owned("Invalid authorization header format")));
    }
    for i in 0..7
        invariant
            v@ == h@,
            prefix@ == bearer_prefix(),
            v@.len() >= 7,
            forall|j: int| 0 <= j < i ==> v@[j] == prefix@[j],
    {
        if v[i] != prefix[i] {
            assert(v@.subrange(0, 7)[i as int] != bearer_prefix()[i as int]);
            return Err(AppError::Unauthorized(owned("Invalid authorization header format")));
        }
    }
    assert(v@.subrange(0, 7) =~= bearer_prefix());
    Ok(string_of_range(&v, 7, v.len()))
}

/// The user a request is from, when the authentication layer found one.
pub fn authenticated_user(claims: Option<Claims>) -> (r: AppResult<AuthenticatedUser>)
    ensures
        match claims {
            Some(c) => r matches Ok(u) && u.0 == c,
            None => r matches Err(AppError::Unauthorized(m)) && m@ == "Not authenticated"@,
        },
{
    match claims {
        Some(c) => Ok(AuthenticatedUser(c)),
        None => Err(AppError::Unauthorized(owned("Not authenticated"))),
    }
}

/// The refusal of a token that does not validate.
pub fn invalid_token_error() -> (e: AppError)
    ensures
        e matches AppError::Unauthorized(m) && m@ == "Invalid or expired token"@,
{
    AppError::Unauthorized(owned("Invalid or expired token"))
}

} // verus!
