//! Per-client request limits: a token bucket that refills at a steady rate
//! up to a burst size.
//!
//! The bucket is kept in exact integer units: one request costs
//! `UNITS_PER_REQUEST` units, and each microsecond refills as many units as
//! the limit allows requests per minute.

use vstd::prelude::*;

use crate::middleware::store::KeyedStore;
use crate::text::owned;

verus! {

/// The units one request costs: a minute in microseconds, so that a rate of
/// `r` requests per minute refills `r` units per microsecond.
pub const UNITS_PER_REQUEST: u64 = 60_000_000;

/// How many requests a client may make per minute, and in a burst.
#[derive(Debug, Clone, Copy)]
pub struct RateLimitConfig {
    pub requests_per_minute: u32,
    pub burst_size: u32,
}

impl Default for RateLimitConfig {
    fn default() -> (c: Self)
        ensures
            c.requests_per_minute == 5,
            c.burst_size == 3,
    {
        RateLimitConfig { requests_per_minute: 5, burst_size: 3 }
    }
}

/// A client's bucket: the units left and when it was last updated
/// (microseconds).
#[derive(Debug, Clone, Copy)]
pub struct ClientBucket {
    pub units: u64,
    pub last_update: i64,
}

/// The capacity of a bucket, in units.
pub open spec fn capacity(config: RateLimitConfig) -> int {
    config.burst_size * UNITS_PER_REQUEST
}

/// The units after refilling for the time from `last` to `now` (no refill
/// when the clock went back), never above the capacity.
pub open spec fn refilled(config: RateLimitConfig, units: int, last: i64, now: i64) -> int {
    let elapsed: int = if now > last { now - last } else { 0 };
    let filled = units + elapsed * config.requests_per_minute;
    if filled < capacity(config) { filled } else { capacity(config) }
}

/// The bucket of a client at a request at `now`: its stored one, or a full
/// bucket for a new client.
pub open spec fn bucket_before(config: RateLimitConfig, stored: Option<ClientBucket>, now: i64) -> int {
    match stored {
        Some(b) => refilled(config, b.units as int, b.last_update, now),
        None => capacity(config),
    }
}

/// Whether a request at `now` is let through.
pub open spec fn request_allowed(config: RateLimitConfig, stored: Option<ClientBucket>, now: i64) -> bool {
    bucket_before(config, stored, now) >= UNITS_PER_REQUEST
}

/// The units left after a request at `now`.
pub open spec fn units_after(config: RateLimitConfig, stored: Option<ClientBucket>, now: i64) -> int {
    let b = bucket_before(config, stored, now);
    if b >= UNITS_PER_REQUEST { b - UNITS_PER_REQUEST } else { b }
}

/// The buckets of all clients.
#[derive(Debug)]
pub struct RateLimitState {
    config: RateLimitConfig,
    clients: KeyedStore<ClientBucket>,
}

impl RateLimitState {
    /// The limits applied.
    pub closed spec fn limits(&self) -> RateLimitConfig {
        self.config
    }

    /// The bucket of each client seen.
    pub closed spec fn buckets(&self) -> Map<Seq<char>, ClientBucket> {
        self.clients.view()
    }

    /// No client seen yet.
    pub fn new(config: RateLimitConfig) -> (s: Self)
        ensures
            s.limits() == config,
            s.buckets() == Map::<Seq<char>, ClientBucket>::empty(),
    {
        RateLimitState { config, clients: KeyedStore::new() }
    }

    /// Takes one request of `client_id` at `now` out of its bucket, after
    /// refilling it for the time passed; a new client starts with a full
    /// bucket. Refused, with the bucket kept, when less than one request's
    /// worth is left.
    pub fn check_rate_limit(&mut self, client_id: &str, now: i64) -> (r: Result<(), String>)
        ensures
            final(self).limits() == old(self).limits(),
            ({
                let stored = if old(self).buckets().contains_key(client_id@) {
                    Some(old(self).buckets()[client_id@])
                } else {
                    None
                };
                &&& (r is Ok <==> request_allowed(old(self).limits(), stored, now))
                &&& r matches Err(m) ==> m@ == "Rate limit exceeded"@
                &&& final(self).buckets() == old(self).buckets().insert(
                    client_id@,
                    ClientBucket { units: units_after(old(self).limits(), stored, now) as u64, last_update: now },
                )
            }),
    {
        let config = self.config;
        let cap: u128 = config.burst_size as u128 * UNITS_PER_REQUEST as u128;
        let current: u128 = match self.clients.get(client_id) {
            Some(b) => {
                let elapsed: u128 = if now > b.last_update {
                    (now as i128 - b.last_update as i128) as u128
                } else {
                    0
                };
                let rate = config.requests_per_minute as u128;
                assert(elapsed * rate <= 0x1_0000_0000_0000_0000 * 0x1_0000_0000) by (nonlinear_arith)
                    requires
                        elapsed <= 0x1_0000_0000_0000_0000,
                        rate <= 0x1_0000_0000;
                let filled: u128 = b.units as u128 + elapsed * rate;
                if filled < cap {
                    filled
                } else {
                    cap
                }
            },
            None => cap,
        };
        let allowed = current >= UNITS_PER_REQUEST as u128;
        let left: u128 = if allowed {
            current - UNITS_PER_REQUEST as u128
        } else {
            current
        };
        self.clients.insert(owned(client_id), ClientBucket { units: left as u64, last_update: now });
        if allowed {
            Ok(())
        } else {
            Err(owned("Rate limit exceeded"))
        }
    }
}

/// The limiter state for a configuration.
pub fn rate_limiter(config: RateLimitConfig) -> (s: RateLimitState)
    ensures
        s.limits() == config,
        s.buckets() == Map::<Seq<char>, ClientBucket>::empty(),
{
    RateLimitState::new(config)
}

/// A bucket never holds more than its capacity, and a refused request
/// leaves the bucket as refilled.
pub proof fn lemma_bucket_bounded(config: RateLimitConfig, stored: Option<ClientBucket>, now: i64)
    requires
        stored matches Some(b) ==> b.units <= capacity(config),
    ensures
        0 <= units_after(config, stored, now) <= capacity(config),
        !request_allowed(config, stored, now) ==> units_after(config, stored, now) == bucket_before(config, stored, now),
{
    if let Some(b) = stored {
        let elapsed: int = if now > b.last_update { now - b.last_update } else { 0 };
        assert(elapsed * config.requests_per_minute >= 0) by (nonlinear_arith)
            requires
                elapsed >= 0;
    }
}

/// A new client may make as many requests at once as the burst size, and
/// the next one at that instant is refused.
pub proof fn lemma_burst_then_refused(config: RateLimitConfig, now: i64)
    requires
        config.burst_size >= 1,
    ensures
        ({
            let b1 = ClientBucket { units: units_after(config, None, now) as u64, last_update: now };
            &&& request_allowed(config, None, now)
            &&& b1.units == (config.burst_size - 1) * UNITS_PER_REQUEST
        }),
        forall|k: u64| #![trigger (k as int) * UNITS_PER_REQUEST]
            0 <= k < config.burst_size ==> {
                let b = ClientBucket { units: (k * UNITS_PER_REQUEST) as u64, last_update: now };
                &&& request_allowed(config, Some(b), now) == (k >= 1)
                &&& units_after(config, Some(b), now) == if k >= 1 { (k - 1) * UNITS_PER_REQUEST } else { 0 }
            },
{
    assert forall|k: u64| #![trigger (k as int) * UNITS_PER_REQUEST]
        0 <= k < config.burst_size implies {
            let b = ClientBucket { units: (k * UNITS_PER_REQUEST) as u64, last_update: now };
            &&& request_allowed(config, Some(b), now) == (k >= 1)
            &&& units_after(config, Some(b), now) == if k >= 1 { (k - 1) * UNITS_PER_REQUEST } else { 0 }
        } by {
        assert(k * UNITS_PER_REQUEST < config.burst_size * UNITS_PER_REQUEST) by (nonlinear_arith)
            requires
                k < config.burst_size;
        assert(k * UNITS_PER_REQUEST <= u32::MAX * UNITS_PER_REQUEST) by (nonlinear_arith)
            requires
                k < config.burst_size,
                config.burst_size <= u32::MAX;
        assert(k >= 1 ==> k * UNITS_PER_REQUEST >= UNITS_PER_REQUEST) by (nonlinear_arith);
        assert(k >= 1 ==> (k - 1) * UNITS_PER_REQUEST == k * UNITS_PER_REQUEST - UNITS_PER_REQUEST) by (nonlinear_arith);
        assert(k == 0 ==> k * UNITS_PER_REQUEST == 0);
    }
    assert(config.burst_size * UNITS_PER_REQUEST >= UNITS_PER_REQUEST) by (nonlinear_arith)
        requires
            config.burst_size >= 1;
    assert((config.burst_size - 1) * UNITS_PER_REQUEST == config.burst_size * UNITS_PER_REQUEST - UNITS_PER_REQUEST) by (nonlinear_arith);
    assert(config.burst_size * UNITS_PER_REQUEST <= u32::MAX * UNITS_PER_REQUEST) by (nonlinear_arith)
        requires
            config.burst_size <= u32::MAX;
}

/// A client that has waited long enough to refill its whole burst (the
/// microseconds waited times the requests allowed per minute reach the
/// burst size times a minute in microseconds, that is at least
/// `burst_size * 60 / requests_per_minute` seconds) finds its bucket full,
/// whatever was left in it: its request is let through and leaves
/// `burst_size - 1` requests' worth, so `burst_size` requests at that
/// instant are all let through and the next one is refused.
pub proof fn lemma_full_after_waiting(config: RateLimitConfig, b: ClientBucket, now: i64)
    requires
        config.burst_size >= 1,
        now > b.last_update,
        (now - b.last_update) * config.requests_per_minute >= config.burst_size * UNITS_PER_REQUEST,
    ensures
        bucket_before(config, Some(b), now) == config.burst_size * UNITS_PER_REQUEST,
        request_allowed(config, Some(b), now),
        units_after(config, Some(b), now) == (config.burst_size - 1) * UNITS_PER_REQUEST,
        forall|k: u64| #![trigger (k as int) * UNITS_PER_REQUEST]
            0 <= k < config.burst_size ==> {
                let left = ClientBucket { units: (k * UNITS_PER_REQUEST) as u64, last_update: now };
                &&& request_allowed(config, Some(left), now) == (k >= 1)
                &&& units_after(config, Some(left), now) == if k >= 1 { (k - 1) * UNITS_PER_REQUEST } else { 0 }
            },
{
    lemma_burst_then_refused(config, now);
    assert(config.burst_size * UNITS_PER_REQUEST >= UNITS_PER_REQUEST) by (nonlinear_arith)
        requires
            config.burst_size >= 1;
    assert((config.burst_size - 1) * UNITS_PER_REQUEST == config.burst_size * UNITS_PER_REQUEST - UNITS_PER_REQUEST)
        by (nonlinear_arith);
}

} // verus!
