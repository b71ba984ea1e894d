//! One-time form tokens against cross-site request forgery.

use vstd::prelude::*;

use crate::clock::new_uuid;
use crate::errors::{AppError, AppResult};
use crate::middleware::store::KeyedStore;
use crate::text::{copy_string, owned};

verus! {

/// How long a token stays valid, in seconds.
#[derive(Debug, Clone, Copy)]
pub struct CsrfConfig {
    pub token_validity_secs: u64,
}

impl Default for CsrfConfig {
    fn default() -> (c: Self)
        ensures
            c.token_validity_secs == 3600,
    {
        CsrfConfig { token_validity_secs: 3600 }
    }
}

/// Whether `token` is accepted at `now` (microseconds): it was issued, and
/// less than the validity has passed since.
pub open spec fn token_accepted(issued: Map<Seq<char>, i64>, validity_secs: u64, token: Seq<char>, now: i64) -> bool {
    issued.contains_key(token) && now - issued[token] < validity_secs * 1_000_000
}

/// The tokens issued, each with when it was issued (microseconds).
#[derive(Debug)]
pub struct CsrfState {
    config: CsrfConfig,
    tokens: KeyedStore<i64>,
}

impl CsrfState {
    /// The tokens issued and when.
    pub closed spec fn issued(&self) -> Map<Seq<char>, i64> {
        self.tokens.view()
    }

    /// How long a token stays valid, in seconds.
    pub closed spec fn validity_secs(&self) -> u64 {
        self.config.token_validity_secs
    }

    /// No token issued yet.
    pub fn new(config: CsrfConfig) -> (s: Self)
        ensures
            s.issued() == Map::<Seq<char>, i64>::empty(),
            s.validity_secs() == config.token_validity_secs,
    {
        CsrfState { config, tokens: KeyedStore::new() }
    }

    /// A fresh random token, not yet issued.
    pub fn generate_token(&self) -> (t: String)
        ensures
            crate::clock::uuid_v4_text(t@),
    {
        new_uuid()
    }

    /// Issues a fresh token at `now`.
    pub fn create_token(&mut self, now: i64) -> (t: String)
        ensures
            crate::clock::uuid_v4_text(t@),
            final(self).issued() == old(self).issued().insert(t@, now),
            final(self).validity_secs() == old(self).validity_secs(),
    {
        let token = self.generate_token();
        self.tokens.insert(copy_string(&token), now);
        token
    }

    /// Accepts a token that was issued less than the validity ago.
    pub fn validate_token(&self, token: &str, now: i64) -> (r: AppResult<()>)
        ensures
            token_accepted(self.issued(), self.validity_secs(), token@, now) ==> r is Ok,
            !token_accepted(self.issued(), self.validity_secs(), token@, now) ==> (r matches Err(AppError::BadRequest(m))
                && m@ == "Invalid or expired CSRF token"@),
    {
        match self.tokens.get(token) {
            Some(created_at) => {
                let elapsed = now as i128 - *created_at as i128;
                let window = self.config.token_validity_secs as i128 * 1_000_000;
                if elapsed < window {
                    return Ok(());
                }
            },
            None => {},
        }
        Err(AppError::BadRequest(owned("Invalid or expired CSRF token")))
    }

    /// Withdraws a token.
    pub fn invalidate_token(&mut self, token: &str)
        ensures
            final(self).issued() == old(self).issued().remove(token@),
            final(self).validity_secs() == old(self).validity_secs(),
    {
        self.tokens.remove(token);
    }
}

/// The token state of the protection.
pub fn csrf_protector(config: CsrfConfig) -> (s: CsrfState)
    ensures
        s.issued() == Map::<Seq<char>, i64>::empty(),
        s.validity_secs() == config.token_validity_secs,
{
    CsrfState::new(config)
}

/// A token is accepted from when it is issued until the validity has
/// passed, and never once it is withdrawn.
pub proof fn lemma_token_lifecycle(issued: Map<Seq<char>, i64>, validity_secs: u64, token: Seq<char>, created: i64, now: i64)
    ensures
        created <= now < created + validity_secs * 1_000_000 ==> token_accepted(issued.insert(token, created), validity_secs, token, now),
        now >= created + validity_secs * 1_000_000 ==> !token_accepted(issued.insert(token, created), validity_secs, token, now),
        !token_accepted(issued.remove(token), validity_secs, token, now),
{
}

} // verus!
