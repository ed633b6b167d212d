//! The price oracle's cache and single-flight state machine.
//!
//! The oracle serves the current base-asset unit price (cents per whole
//! asset) from a TTL-bounded cache.  When the cache cannot answer, at
//! most one upstream fetch is in flight at a time: a poll that misses
//! while a fetch is under way directs the caller to await that fetch
//! rather than start its own.  The fetch itself is a network call and
//! lives with the caller; this type decides, under an injected clock,
//! whether to answer from cache, start a fetch, or join one, and folds
//! the fetch outcome back in — a failed fetch is never cached, so the
//! next poll starts a fresh one.

use vstd::prelude::*;

verus! {

/// How long a fetched price keeps answering polls, in milliseconds.
pub const DEFAULT_PRICE_TTL_MS: u64 = 30_000;

/// A cached unit price and the moment it was observed.  Replaced
/// wholesale on refresh, never mutated in place.
#[derive(Clone, Copy, PartialEq, Eq, Structural, Debug)]
pub struct CachedPrice {
    /// Fiat minor units per whole base asset.
    pub value: u128,
    /// Milliseconds since the epoch at the time of the fetch.
    pub observed_at: u64,
}

/// Why the upstream price could not be obtained; connectivity trouble
/// and protocol drift are kept apart so callers can tell a transient
/// failure from a broken integration.
#[derive(Debug)]
pub enum UpstreamError {
    /// The upstream could not be reached.
    Network(String),
    /// The upstream answered, but the response could not be understood.
    Malformed(String),
}

/// What a caller polling the oracle must do next.
#[derive(Clone, Copy, PartialEq, Eq, Structural, Debug)]
pub enum PriceDirective {
    /// The cache is fresh: use this price, no network access.
    UseCached(u128),
    /// Nothing usable is cached and no fetch is under way: the caller
    /// starts the one upstream fetch and resolves it into the oracle.
    StartFetch,
    /// A fetch is already in flight: await its resolution and poll
    /// again.
    AwaitInFlight,
}

/// The oracle state: one optional cached price, a fixed TTL, and the
/// single-flight flag.
#[derive(Debug)]
pub struct PriceOracle {
    pub cache: Option<CachedPrice>,
    pub ttl_ms: u64,
    pub fetch_in_flight: bool,
}

/// The cached price answers at `now_ms`: observed no later than now and
/// not yet a full TTL ago.
pub open spec fn cache_fresh(o: PriceOracle, now_ms: u64) -> bool {
    o.cache matches Some(c) && c.observed_at <= now_ms < c.observed_at + o.ttl_ms
}

/// What [`PriceOracle::poll`] does: the state afterwards, paired with
/// the directive handed back.
pub open spec fn poll_spec(o: PriceOracle, now_ms: u64) -> (PriceOracle, PriceDirective) {
    if cache_fresh(o, now_ms) {
        (
            o,
            match o.cache {
                Some(c) => PriceDirective::UseCached(c.value),
                None => PriceDirective::StartFetch,
            },
        )
    } else if o.fetch_in_flight {
        (o, PriceDirective::AwaitInFlight)
    } else {
        (PriceOracle { fetch_in_flight: true, ..o }, PriceDirective::StartFetch)
    }
}

impl PriceOracle {
    /// A fresh oracle with the default 30-second TTL: nothing cached,
    /// no fetch in flight.
    pub fn new() -> (o: PriceOracle)
        ensures
            o == (PriceOracle {
                cache: None::<CachedPrice>,
                ttl_ms: DEFAULT_PRICE_TTL_MS,
                fetch_in_flight: false,
            }),
    {
        PriceOracle { cache: None, ttl_ms: DEFAULT_PRICE_TTL_MS, fetch_in_flight: false }
    }

    /// A fresh oracle with the given TTL.
    pub fn with_ttl(ttl_ms: u64) -> (o: PriceOracle)
        ensures
            o == (PriceOracle { cache: None::<CachedPrice>, ttl_ms, fetch_in_flight: false }),
    {
        PriceOracle { cache: None, ttl_ms, fetch_in_flight: false }
    }

    /// One step of `current_price()`: answer from a fresh cache, or
    /// start the single fetch, or direct the caller to the fetch
    /// already in flight.
    pub fn poll(&mut self, now_ms: u64) -> (d: PriceDirective)
        ensures
            *final(self) == poll_spec(*old(self), now_ms).0,
            d == poll_spec(*old(self), now_ms).1,
    {
        match &self.cache {
            Some(c) => {
                if c.observed_at <= now_ms && now_ms - c.observed_at < self.ttl_ms {
                    return PriceDirective::UseCached(c.value);
                }
            },
            None => {},
        }
        if self.fetch_in_flight {
            PriceDirective::AwaitInFlight
        } else {
            self.fetch_in_flight = true;
            PriceDirective::StartFetch
        }
    }

    /// Folds the outcome of the in-flight fetch back in.  A successful
    /// fetch replaces the cached value and its timestamp atomically; a
    /// failure leaves the cache as it was, so it is never served and the
    /// next poll starts a fresh fetch.
    pub fn resolve_fetch(&mut self, outcome: &Result<u128, UpstreamError>, now_ms: u64)
        requires
            old(self).fetch_in_flight,
        ensures
            !final(self).fetch_in_flight,
            final(self).ttl_ms == old(self).ttl_ms,
            outcome matches Ok(v) ==> final(self).cache == Some(
                CachedPrice { value: *v, observed_at: now_ms },
            ),
            outcome is Err ==> final(self).cache == old(self).cache,
    {
        self.fetch_in_flight = false;
        match outcome {
            Ok(v) => {
                self.cache = Some(CachedPrice { value: *v, observed_at: now_ms });
            },
            Err(_) => {},
        }
    }

    /// Milliseconds until the cached price lapses: zero when nothing is
    /// cached or the TTL has already run out.
    pub fn get_cache_expiry_time(&self, now_ms: u64) -> (r: u64)
        requires
            self.cache matches Some(c) ==> c.observed_at + self.ttl_ms <= u64::MAX,
        ensures
            self.cache is None ==> r == 0,
            self.cache matches Some(c) ==> r == (if c.observed_at + self.ttl_ms <= now_ms {
                0int
            } else {
                c.observed_at + self.ttl_ms - now_ms
            }),
    {
        match &self.cache {
            Some(c) => {
                let expires_at = c.observed_at + self.ttl_ms;
                if expires_at <= now_ms {
                    0
                } else {
                    expires_at - now_ms
                }
            },
            None => 0,
        }
    }

    /// Drops the cached price, forcing the next poll past the cache.
    pub fn clear_cache(&mut self)
        ensures
            final(self).cache is None,
            final(self).ttl_ms == old(self).ttl_ms,
            final(self).fetch_in_flight == old(self).fetch_in_flight,
    {
        self.cache = None;
    }
}

impl Default for PriceOracle {
    /// The same oracle [`PriceOracle::new`] builds.
    fn default() -> (o: PriceOracle)
        ensures
            o == (PriceOracle {
                cache: None::<CachedPrice>,
                ttl_ms: DEFAULT_PRICE_TTL_MS,
                fetch_in_flight: false,
            }),
    {
        PriceOracle::new()
    }
}

/// Request collapsing: once one poll has started a fetch, no later poll
/// starts another while that fetch is unresolved — it either answers
/// from a cache that has meanwhile become fresh, or joins the in-flight
/// fetch; the state no longer changes, so this extends to any number of
/// concurrent pollers.  In particular, with nothing cached, every later
/// poll joins: many callers racing an empty cache cause exactly one
/// upstream fetch.
pub proof fn lemma_single_flight_collapses(o: PriceOracle, now1: u64, now2: u64)
    requires
        poll_spec(o, now1).1 == PriceDirective::StartFetch,
    ensures
        poll_spec(poll_spec(o, now1).0, now2).1 != PriceDirective::StartFetch,
        poll_spec(poll_spec(o, now1).0, now2).0 == poll_spec(o, now1).0,
        o.cache is None ==> poll_spec(poll_spec(o, now1).0, now2).1
            == PriceDirective::AwaitInFlight,
{
}

} // verus!
