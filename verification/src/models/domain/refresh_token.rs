//! Stored refresh tokens, kept only by the hash of the token.

use vstd::prelude::*;
use vstd::utf8::encode_utf8;

use crate::clock::{now_micros, CLOCK_LIMIT_MICROS};
use crate::text::push_char;

verus! {

/// A refresh token as stored: whose it is, the hash of the token, when it
/// expires and was made (microseconds since the epoch) and whether it was
/// revoked.
#[derive(Debug)]
pub struct RefreshToken {
    pub id: Option<String>,
    pub user_id: String,
    pub token_hash: String,
    pub expires_at: i64,
    pub created_at: i64,
    pub revoked: bool,
}

/// A token may be used at `now` when it is not revoked and expires after
/// `now`.
pub open spec fn valid_at(t: RefreshToken, now: i64) -> bool {
    !t.revoked && t.expires_at > now
}

/// The record `t` once revoked.
pub open spec fn revoked_record(t: RefreshToken) -> RefreshToken {
    RefreshToken { revoked: true, ..t }
}

impl RefreshToken {
    /// A live token for `user_id`, made now.
    pub fn new(user_id: String, token_hash: String, expires_at: i64) -> (t: Self)
        ensures
            t.id is None,
            t.user_id == user_id,
            t.token_hash == token_hash,
            t.expires_at == expires_at,
            !t.revoked,
    {
        RefreshToken::made_at(user_id, token_hash, expires_at, now_micros())
    }

    /// A live token for `user_id`, made at `now`.
    pub fn made_at(user_id: String, token_hash: String, expires_at: i64, now: i64) -> (t: Self)
        ensures
            t.id is None,
            t.user_id == user_id,
            t.token_hash == token_hash,
            t.expires_at == expires_at,
            t.created_at == now,
            !t.revoked,
    {
        RefreshToken { id: None, user_id, token_hash, expires_at, created_at: now, revoked: false }
    }

    /// Marks the token revoked, as a refresh that used it, or a logout,
    /// does; nothing else changes.
    pub fn revoke(&mut self)
        ensures
            *final(self) == revoked_record(*old(self)),
    {
        self.revoked = true;
    }

    /// Whether the token may still be used at `now`: it is not revoked and
    /// expires after `now`.
    pub fn is_valid_at(&self, now: i64) -> (b: bool)
        ensures
            b == valid_at(*self, now),
    {
        !self.revoked && self.expires_at > now
    }

    /// Whether the token may still be used now, as
    /// [`RefreshToken::is_valid_at`] at the time the clock reads; that time
    /// is not before the epoch nor past chrono's latest year.
    pub fn is_valid(&self) -> (b: bool)
        ensures
            exists|now: i64| 0 <= now < CLOCK_LIMIT_MICROS && b == #[trigger] valid_at(*self, now),
    {
        let now = now_micros();
        let b = self.is_valid_at(now);
        assert(b == valid_at(*self, now));
        b
    }
}

/// The SHA-256 digest of `data`.
pub uninterp spec fn sha256(data: Seq<u8>) -> Seq<u8>;

/// The SHA-256 digest of `data`, from `sha2::Sha256::digest`; a SHA-256
/// digest is 32 bytes.
#[verifier::external_body]
fn sha256_digest(data: &[u8]) -> (d: Vec<u8>)
    ensures
        d@ == sha256(data@),
        d@.len() == 32,
{
    <sha2::Sha256 as sha2::Digest>::digest(data).to_vec()
}

/// The lower-case hexadecimal digit of `d` (below 16).
pub open spec fn hex_digit(d: u8) -> char {
    if d < 10 {
        (('0' as u8) + d) as char
    } else {
        (('a' as u8) + d - 10) as char
    }
}

/// The bytes written as two lower-case hexadecimal digits each.
pub open spec fn hex_of(bytes: Seq<u8>) -> Seq<char>
    decreases bytes.len(),
{
    if bytes.len() == 0 {
        seq![]
    } else {
        hex_of(bytes.drop_last()) + seq![hex_digit(bytes.last() / 16), hex_digit(bytes.last() % 16)]
    }
}

/// The lower-case hexadecimal digit of `d`.
pub fn hex_char_of(d: u8) -> (c: char)
    requires
        d < 16,
    ensures
        c == hex_digit(d),
{
    let table = ['0', '1', '2', '3', '4', '5', '6', '7', '8', '9', 'a', 'b', 'c', 'd', 'e', 'f'];
    let c = table[d as usize];
    assert(c == hex_digit(d)) by {
        assert(('0' as u8) == 48u8);
        assert(('a' as u8) == 97u8);
    }
    c
}

/// The hash under which a refresh token is stored: the SHA-256 digest of
/// its UTF-8 bytes in lower-case hexadecimal (64 characters).
pub fn hash_token(token: &str) -> (h: String)
    ensures
        h@ == hex_of(sha256(encode_utf8(token@))),
        h@.len() == 64,
{
    let digest = sha256_digest(token.as_bytes());
    let mut h = String::new();
    for i in 0..digest.len()
        invariant
            h@ == hex_of(digest@.take(i as int)),
            h@.len() == 2 * i,
    {
        assert(digest@.take(i + 1).drop_last() =~= digest@.take(i as int));
        let b = digest[i];
        push_char(&mut h, hex_char_of(b / 16));
        push_char(&mut h, hex_char_of(b % 16));
        assert(h@ =~= hex_of(digest@.take(i + 1)));
    }
    assert(digest@.take(digest.len() as int) =~= digest@);
    h
}

} // verus!

