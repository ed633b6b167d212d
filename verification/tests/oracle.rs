use bolt_payment_gateway::oracle::{PriceDirective, PriceOracle, UpstreamError};

#[test]
fn test_quote_service_creation() {
    let oracle = PriceOracle::new();
    assert_eq!(oracle.get_cache_expiry_time(0), 0);
}

#[test]
fn test_clear_cache() {
    let mut oracle = PriceOracle::new();
    oracle.clear_cache();
    assert_eq!(oracle.get_cache_expiry_time(0), 0);
}

#[test]
fn test_single_flight_collapsing() {
    // Several callers race an empty cache: the first poll starts the one
    // fetch, every further poll joins it.
    let mut oracle = PriceOracle::with_ttl(30_000);
    assert_eq!(oracle.poll(1_000), PriceDirective::StartFetch);
    assert_eq!(oracle.poll(1_001), PriceDirective::AwaitInFlight);
    assert_eq!(oracle.poll(1_002), PriceDirective::AwaitInFlight);
    assert_eq!(oracle.poll(1_500), PriceDirective::AwaitInFlight);

    oracle.resolve_fetch(&Ok(6_000_000), 2_000);
    assert_eq!(oracle.poll(2_500), PriceDirective::UseCached(6_000_000));
}

#[test]
fn test_failed_fetch_is_not_cached() {
    let mut oracle = PriceOracle::with_ttl(30_000);
    assert_eq!(oracle.poll(0), PriceDirective::StartFetch);
    oracle.resolve_fetch(
        &Err(UpstreamError::Network("connection refused".to_string())),
        100,
    );
    // The failure was not cached: the next poll starts a fresh fetch.
    assert_eq!(oracle.poll(200), PriceDirective::StartFetch);
}

#[test]
fn test_ttl_expiry() {
    let mut oracle = PriceOracle::with_ttl(30_000);
    assert_eq!(oracle.poll(0), PriceDirective::StartFetch);
    oracle.resolve_fetch(&Ok(6_000_000), 0);
    assert_eq!(oracle.poll(29_999), PriceDirective::UseCached(6_000_000));
    // One full TTL later the cache no longer answers.
    assert_eq!(oracle.poll(30_000), PriceDirective::StartFetch);
}

#[test]
fn test_refresh_replaces_cache_wholesale() {
    let mut oracle = PriceOracle::with_ttl(30_000);
    assert_eq!(oracle.poll(0), PriceDirective::StartFetch);
    oracle.resolve_fetch(&Ok(6_000_000), 0);
    assert_eq!(oracle.poll(40_000), PriceDirective::StartFetch);
    oracle.resolve_fetch(&Ok(6_100_000), 41_000);
    assert_eq!(oracle.poll(41_500), PriceDirective::UseCached(6_100_000));
}

#[test]
fn test_cache_expiry_time_counts_down() {
    let mut oracle = PriceOracle::with_ttl(30_000);
    assert_eq!(oracle.poll(1_000), PriceDirective::StartFetch);
    oracle.resolve_fetch(&Ok(6_000_000), 1_000);
    assert_eq!(oracle.get_cache_expiry_time(1_000), 30_000);
    assert_eq!(oracle.get_cache_expiry_time(11_000), 20_000);
    assert_eq!(oracle.get_cache_expiry_time(31_000), 0);
    assert_eq!(oracle.get_cache_expiry_time(100_000), 0);
}

#[test]
fn test_invalidate_forces_refetch() {
    let mut oracle = PriceOracle::with_ttl(30_000);
    assert_eq!(oracle.poll(0), PriceDirective::StartFetch);
    oracle.resolve_fetch(&Ok(6_000_000), 0);
    assert_eq!(oracle.poll(1), PriceDirective::UseCached(6_000_000));
    oracle.clear_cache();
    assert_eq!(oracle.poll(2), PriceDirective::StartFetch);
}
