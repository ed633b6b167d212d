use bolt_payment_gateway::quote::{
    calculate_satoshis_for_usd, calculate_satoshis_for_usd_with_spread,
};

#[test]
fn test_scenario_quote() {
    // Invoice of $49.90 at $60,000.00 per unit, spread 50 per mille.
    let base = calculate_satoshis_for_usd(4990, 6_000_000);
    assert_eq!(base, 83166);
    let with_spread = calculate_satoshis_for_usd_with_spread(4990, 6_000_000, 50);
    assert_eq!(with_spread, 83166 + 83166 * 50 / 1000);
    assert_eq!(with_spread, 87324);
}

#[test]
fn test_quote_truncates_toward_zero() {
    // $100.00 at $60,000.00: 166666.66... satoshis truncates to 166666.
    assert_eq!(calculate_satoshis_for_usd(10000, 6_000_000), 166666);
}

#[test]
fn test_zero_spread_leaves_quote_unchanged() {
    let base = calculate_satoshis_for_usd(4990, 6_000_000);
    assert_eq!(calculate_satoshis_for_usd_with_spread(4990, 6_000_000, 0), base);
}

#[test]
fn test_spread_never_decreases_quote() {
    for spread in [0u128, 1, 10, 50, 999] {
        let base = calculate_satoshis_for_usd(4990, 6_000_000);
        assert!(calculate_satoshis_for_usd_with_spread(4990, 6_000_000, spread) >= base);
    }
}

#[test]
fn test_small_spread_portion_truncates_to_zero() {
    // One satoshi with a 50-per-mille spread: 1 * 50 / 1000 truncates to
    // zero, so the spread quote equals the base quote.
    assert_eq!(calculate_satoshis_for_usd(1, 100_000_000), 1);
    assert_eq!(calculate_satoshis_for_usd_with_spread(1, 100_000_000, 50), 1);
}
