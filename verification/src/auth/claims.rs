use vstd::prelude::*;

use crate::clock::{now_micros, CLOCK_LIMIT_MICROS};
use crate::models::domain::user::{User, UserRole};
use crate::errors::{AppError, AppResult, is_unauthorized};
use crate::text::{copy_string, owned};

verus! {

/// The claims carried by an access token. `sub` is the canonical user
/// identifier used for ownership checks; `iat` and `exp` are seconds since
/// the epoch.
#[derive(Debug)]
pub struct Claims {
    pub sub: String,
    pub username: String,
    pub email: String,
    pub role: UserRole,
    pub exp: usize,
    pub iat: usize,
}

/// The claims carried by a refresh token.
#[derive(Debug)]
pub struct RefreshClaims {
    pub sub: String,
    pub token_type: String,
    pub exp: usize,
    pub iat: usize,
}

/// The subject of a user's tokens: its stored id when it has one, else its
/// username.
pub open spec fn subject_of(user: &User) -> Seq<char> {
    match user.id {
        Some(id) => id@,
        None => user.username@,
    }
}

/// The issue and expiry stamps, in that order, of a token issued at second
/// `t` that lives `hours` hours.
pub open spec fn stamps(t: i64, hours: i64) -> (usize, usize) {
    (t as usize, (t + hours * 3600) as usize)
}

/// `t` is a second the clock can read: not before the epoch and before
/// the end of chrono's range.
pub open spec fn clock_second(t: i64) -> bool {
    0 <= t < CLOCK_LIMIT_MICROS / 1_000_000
}

/// The stamps of a token issued at clock second `t` that lives `hours`
/// hours: `stamps(t, hours)`, and, whenever both instants fit in a
/// `usize`, exactly `t` and `t + hours * 3600`.
pub open spec fn issued_stamps(iat: usize, exp: usize, t: i64, hours: i64) -> bool {
    &&& clock_second(t)
    &&& (iat, exp) == stamps(t, hours)
    &&& (t <= usize::MAX && 0 <= t + hours * 3600 <= usize::MAX) ==> (iat == t && exp == t
        + hours * 3600)
}

/// The largest number of hours, either way, between a token's issue and its
/// expiry. chrono's dates end in the year 262142, about 2.28e9 hours after
/// the epoch and about 2.31e9 hours before it; two billion hours from any
/// clock reading before the year 34000 stays inside that range, so the
/// expiry is always a date chrono can represent.
pub const MAX_TOKEN_HOURS: i64 = 2_000_000_000;

/// The largest distance from the epoch, in seconds, of a clock reading
/// (the microsecond clock cannot go further).
pub const MAX_EPOCH_SECONDS: i64 = 9_300_000_000_000;

/// The subject of a user's tokens (its stored id, else its username).
pub fn subject_for(user: &User) -> (s: String)
    ensures
        s@ == subject_of(user),
{
    match &user.id {
        Some(id) => copy_string(id),
        None => copy_string(&user.username),
    }
}

impl Claims {
    /// Claims for `user`, issued now and expiring `expiration_hours` later.
    pub fn new(user: &User, expiration_hours: i64) -> (c: Self)
        requires
            -MAX_TOKEN_HOURS <= expiration_hours <= MAX_TOKEN_HOURS,
        ensures
            c.sub@ == subject_of(user),
            c.username@ == user.username@,
            c.email@ == user.email@,
            c.role == user.role,
            exists|t: i64| #[trigger] issued_stamps(c.iat, c.exp, t, expiration_hours),
    {
        let now = now_micros() / 1_000_000;
        let c = Claims::issued_at(user, expiration_hours, now);
        assert(issued_stamps(c.iat, c.exp, now, expiration_hours));
        c
    }

    /// Claims for `user`, issued at second `now` and expiring
    /// `expiration_hours` later.
    pub fn issued_at(user: &User, expiration_hours: i64, now: i64) -> (c: Self)
        requires
            -MAX_TOKEN_HOURS <= expiration_hours <= MAX_TOKEN_HOURS,
            -MAX_EPOCH_SECONDS <= now <= MAX_EPOCH_SECONDS,
        ensures
            c.sub@ == subject_of(user),
            c.username@ == user.username@,
            c.email@ == user.email@,
            c.role == user.role,
            (c.iat, c.exp) == stamps(now, expiration_hours),
    {
        let exp = now + expiration_hours * 3600;
        Claims {
            sub: subject_for(user),
            username: copy_string(&user.username),
            email: copy_string(&user.email),
            role: user.role,
            iat: now as usize,
            exp: exp as usize,
        }
    }
}

} // verus!

verus! {

impl RefreshClaims {
    /// Refresh claims for `username`, issued now and expiring
    /// `expiration_hours` later; the token type is always `"refresh"`.
    pub fn new(username: &str, expiration_hours: i64) -> (c: Self)
        requires
            -MAX_TOKEN_HOURS <= expiration_hours <= MAX_TOKEN_HOURS,
        ensures
            c.sub@ == username@,
            c.token_type@ == "refresh"@,
            exists|t: i64| #[trigger] issued_stamps(c.iat, c.exp, t, expiration_hours),
    {
        let now = now_micros() / 1_000_000;
        let c = RefreshClaims::issued_at(username, expiration_hours, now);
        assert(issued_stamps(c.iat, c.exp, now, expiration_hours));
        c
    }

    /// Refresh claims for `username`, issued at second `now`.
    pub fn issued_at(username: &str, expiration_hours: i64, now: i64) -> (c: Self)
        requires
            -MAX_TOKEN_HOURS <= expiration_hours <= MAX_TOKEN_HOURS,
            -MAX_EPOCH_SECONDS <= now <= MAX_EPOCH_SECONDS,
        ensures
            c.sub@ == username@,
            c.token_type@ == "refresh"@,
            (c.iat, c.exp) == stamps(now, expiration_hours),
    {
        let exp = now + expiration_hours * 3600;
        proof { reveal_strlit("refresh"); }
        RefreshClaims {
            sub: owned(username),
            token_type: owned("refresh"),
            iat: now as usize,
            exp: exp as usize,
        }
    }

    /// Accepts the claims only when they are of a refresh token.
    pub fn check_refresh_type(&self) -> (r: AppResult<()>)
        ensures
            r is Ok <==> self.token_type@ == "refresh"@,
            r is Err ==> is_unauthorized(r, "Token is not a refresh token"@),
    {
        proof { reveal_strlit("refresh"); reveal_strlit("Token is not a refresh token"); }
        let expected = owned("refresh");
        if self.token_type != expected {
            return Err(AppError::Unauthorized(owned("Token is not a refresh token")));
        }
        Ok(())
    }
}

} // verus!
