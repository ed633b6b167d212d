//! Fiat-to-satoshi conversion with a protective spread.
//!
//! A quote converts an invoice amount in fiat minor units (cents) to the
//! number of base-asset units (satoshis) the payer owes, given the unit
//! price of the asset in cents.  Both divisions truncate toward zero: the
//! base quote under-quotes by design, and the spread — expressed in parts
//! per thousand — is then added on top, never rounded up against the
//! payer but also never letting the total drop below the unspread quote.

use vstd::prelude::*;

verus! {

/// Satoshis per bitcoin: the fixed subdivision of the base asset.
pub const SATOSHIS_PER_BTC: u128 = 100_000_000;

/// Satoshis worth `usd_cents` at `price` cents per whole asset,
/// truncating toward zero.
pub open spec fn base_quote(usd_cents: int, price: int) -> int {
    usd_cents * SATOSHIS_PER_BTC / price
}

/// `base` satoshis plus a spread of `spread_per_mille` parts per
/// thousand, truncating toward zero.
pub open spec fn with_spread(base: int, spread_per_mille: int) -> int {
    base + base * spread_per_mille / 1000
}

/// Satoshis needed to cover `usd_cents` at `btc_price_usd_cents` cents
/// per bitcoin, before any spread.
pub fn calculate_satoshis_for_usd(usd_cents: u128, btc_price_usd_cents: u128) -> (r: u128)
    requires
        btc_price_usd_cents > 0,
        usd_cents * SATOSHIS_PER_BTC <= u128::MAX,
    ensures
        r == base_quote(usd_cents as int, btc_price_usd_cents as int),
{
    (usd_cents * SATOSHIS_PER_BTC) / btc_price_usd_cents
}

/// Satoshis needed to cover `usd_cents` at the given price, with
/// `spread_per_mille` parts per thousand added on top of the base quote.
pub fn calculate_satoshis_for_usd_with_spread(
    usd_cents: u128,
    btc_price_usd_cents: u128,
    spread_per_mille: u128,
) -> (r: u128)
    requires
        btc_price_usd_cents > 0,
        usd_cents * SATOSHIS_PER_BTC <= u128::MAX,
        base_quote(usd_cents as int, btc_price_usd_cents as int) * spread_per_mille <= u128::MAX,
        with_spread(
            base_quote(usd_cents as int, btc_price_usd_cents as int),
            spread_per_mille as int,
        ) <= u128::MAX,
    ensures
        r == with_spread(
            base_quote(usd_cents as int, btc_price_usd_cents as int),
            spread_per_mille as int,
        ),
{
    let satoshis_needed = calculate_satoshis_for_usd(usd_cents, btc_price_usd_cents);
    satoshis_needed + (satoshis_needed * spread_per_mille / 1000)
}

/// Applying a non-negative spread never decreases the quote.
pub proof fn lemma_spread_monotone(base: int, spread_per_mille: int)
    requires
        base >= 0,
        spread_per_mille >= 0,
    ensures
        with_spread(base, spread_per_mille) >= base,
{
    assert(base * spread_per_mille >= 0) by (nonlinear_arith)
        requires
            base >= 0,
            spread_per_mille >= 0,
    ;
}

/// A zero spread leaves the quote unchanged.
pub proof fn lemma_spread_zero(base: int)
    ensures
        with_spread(base, 0) == base,
{
}

/// A positive spread strictly increases the quote as soon as the spread
/// portion does not truncate to zero, that is, once
/// `base * spread_per_mille` reaches one thousand.
pub proof fn lemma_spread_strict(base: int, spread_per_mille: int)
    requires
        base * spread_per_mille >= 1000,
    ensures
        with_spread(base, spread_per_mille) > base,
{
    let p = base * spread_per_mille;
    assert(p == 1000 * (p / 1000) + p % 1000);
    assert(p / 1000 >= 1);
}

} // verus!
