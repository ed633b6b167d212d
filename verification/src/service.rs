//! Invoice creation, listing, and quoting.
//!
//! These are the computations behind the gateway's read-and-create
//! endpoints.  Each takes plain values — parsed request bodies, the
//! merchant's invoices, the current unit price, the clock reading — and
//! answers with either the record to persist or the exact error payload
//! the interface reports.

use vstd::prelude::*;
use vstd::string::{StrSliceExecFns, StringExecFns};
use crate::codec::{
    convert_money_from_string, dec_digits, format_money_amount, format_unsigned, money_cents,
    money_string, valid_money_chars,
};
use crate::dto::{
    CreateInvoiceRequest, ErrorResponse, ListInvoicesQuery, ListInvoicesResponse, QuoteQuery,
    QuoteResponse,
};
use crate::ids::RecordId;
use crate::invoice::{Invoice, InvoiceStatus, MAX_INVOICE_AMOUNT_CENTS};
use crate::quote::{
    base_quote, calculate_satoshis_for_usd_with_spread, with_spread, SATOSHIS_PER_BTC,
};
use crate::text::str_eq;

verus! {

/// How long a fresh invoice stays payable: 24 hours.
pub const INVOICE_VALIDITY_MS: u64 = 86_400_000;

/// Spread applied to standalone quotes, in parts per thousand (1.0%).
pub const QUOTE_SPREAD_PER_MILLE: u128 = 10;

// ---------------------------------------------------------------------
// Invoice creation.
// ---------------------------------------------------------------------

/// Builds the invoice record for a creation request: the amount must be
/// a well-formed decimal money string denoting at least one cent and no
/// more than the store can hold.  The invoice starts `Created` and
/// expires 24 hours after `now_ms`.
pub fn create_invoice(
    wallet_address: String,
    request: CreateInvoiceRequest,
    id: RecordId,
    now_ms: u64,
) -> (r: Result<Invoice, ErrorResponse>)
    requires
        now_ms + INVOICE_VALIDITY_MS <= u64::MAX,
    ensures
        r is Ok <==> valid_money_chars(request.amount@) && 0 < money_cents(request.amount@)
            <= MAX_INVOICE_AMOUNT_CENTS,
        r matches Ok(inv) ==> inv == (Invoice {
            id,
            wallet_address,
            status: InvoiceStatus::Created,
            amount: money_cents(request.amount@) as u128,
            settlement_asset: request.settlement_asset,
            merchant_order_id: request.merchant_order_id,
            created_at: now_ms,
            expires_at: Some((now_ms + INVOICE_VALIDITY_MS) as u64),
        }) && inv.wf(),
        r matches Err(e) ==> (e.error@ == "invalid_amount_format"@ || e.error@
            == "invalid_amount"@),
        !(valid_money_chars(request.amount@) && money_cents(request.amount@) <= u128::MAX)
            ==> (r matches Err(e) && e.error@ == "invalid_amount_format"@),
{
    let amount = match convert_money_from_string(request.amount) {
        Ok(v) => v,
        Err(()) => {
            return Err(ErrorResponse::of("invalid_amount_format", "Amount format is invalid"));
        },
    };
    if amount == 0 || amount > MAX_INVOICE_AMOUNT_CENTS {
        return Err(ErrorResponse::of("invalid_amount", "Amount must be a positive number"));
    }
    Ok(
        Invoice {
            id,
            wallet_address,
            status: InvoiceStatus::Created,
            amount,
            settlement_asset: request.settlement_asset,
            merchant_order_id: request.merchant_order_id,
            created_at: now_ms,
            expires_at: Some(now_ms + INVOICE_VALIDITY_MS),
        },
    )
}

// ---------------------------------------------------------------------
// Invoice listing.
// ---------------------------------------------------------------------

/// An invoice passes every filter the query names.
pub open spec fn invoice_matches(inv: Invoice, q: ListInvoicesQuery) -> bool {
    &&& (q.status matches Some(st) ==> inv.status == st)
    &&& (q.merchant_order_id matches Some(m) ==> inv.merchant_order_id@ == m@)
    &&& (q.from_date matches Some(f) ==> inv.created_at >= f)
    &&& (q.to_date matches Some(t) ==> inv.created_at <= t)
}

/// The invoices passing the query's filters, in their given order.
pub open spec fn matching_invoices(s: Seq<Invoice>, q: ListInvoicesQuery) -> Seq<Invoice> {
    s.filter(|inv: Invoice| invoice_matches(inv, q))
}

/// The page a query selects from the matching invoices.
pub open spec fn page_of(matched: Seq<Invoice>, offset: int, limit: int) -> Seq<Invoice> {
    if offset < matched.len() {
        matched.subrange(
            offset,
            if offset + limit < matched.len() {
                offset + limit
            } else {
                matched.len() as int
            },
        )
    } else {
        Seq::<Invoice>::empty()
    }
}

/// Filters and paginates a merchant's invoices.  A limit above 100 is
/// refused; the page carries the count of all matches so callers can
/// page on.
pub fn list_invoices(invoices: &Vec<Invoice>, query: &ListInvoicesQuery) -> (r: Result<
    ListInvoicesResponse,
    ErrorResponse,
>)
    ensures
        r is Ok <==> query.limit <= 100,
        r matches Err(e) ==> e.error@ == "invalid_limit"@,
        r matches Ok(page) ==> page.total == matching_invoices(invoices@, *query).len()
            && page.limit == query.limit && page.offset == query.offset && page.items@ == page_of(
            matching_invoices(invoices@, *query),
            query.offset as int,
            query.limit as int,
        ),
{
    if query.limit > 100 {
        return Err(ErrorResponse::of("invalid_limit", "Limit cannot exceed 100"));
    }
    let n = invoices.len();
    let mut matched: Vec<Invoice> = Vec::new();
    let mut i: usize = 0;
    while i < n
        invariant
            n == invoices@.len(),
            i <= n,
            matched@ == matching_invoices(invoices@.take(i as int), *query),
        decreases n - i,
    {
        let inv = &invoices[i];
        proof {
            reveal(Seq::filter);
            let pre = invoices@.take(i as int);
            let nxt = invoices@.take(i + 1);
            assert(nxt.drop_last() =~= pre);
            assert(nxt.last() == invoices@[i as int]);
        }
        let passes = (match query.status {
            Some(st) => inv.status == st,
            None => true,
        }) && (match &query.merchant_order_id {
            Some(m) => str_eq(inv.merchant_order_id.as_str(), m.as_str()),
            None => true,
        }) && (match query.from_date {
            Some(f) => inv.created_at >= f,
            None => true,
        }) && (match query.to_date {
            Some(t) => inv.created_at <= t,
            None => true,
        });
        if passes {
            matched.push(inv.clone());
        }
        i = i + 1;
    }
    proof {
        reveal(Seq::filter);
        assert(invoices@.take(n as int) =~= invoices@);
    }
    let total = matched.len();
    let mut items: Vec<Invoice> = Vec::new();
    if query.offset < total {
        let end = if query.limit < total - query.offset {
            query.offset + query.limit
        } else {
            total
        };
        let mut j: usize = query.offset;
        while j < end
            invariant
                query.offset <= j <= end <= total == matched@.len(),
                items@ == matched@.subrange(query.offset as int, j as int),
            decreases end - j,
        {
            proof {
                let pre = matched@.subrange(query.offset as int, j as int);
                let nxt = matched@.subrange(query.offset as int, j + 1);
                assert(nxt.drop_last() =~= pre);
                assert(nxt.last() == matched@[j as int]);
            }
            items.push(matched[j].clone());
            j = j + 1;
        }
        proof {
            assert(items@ =~= page_of(matched@, query.offset as int, query.limit as int));
        }
    }
    Ok(ListInvoicesResponse { items, total, limit: query.limit, offset: query.offset })
}

// ---------------------------------------------------------------------
// Quoting.
// ---------------------------------------------------------------------

/// The string names the bitcoin asset code, in either case.
pub open spec fn is_btc_code(s: Seq<char>) -> bool {
    s.len() == 3 && (s[0] == 'B' || s[0] == 'b') && (s[1] == 'T' || s[1] == 't') && (s[2] == 'C'
        || s[2] == 'c')
}

/// The string names the US dollar asset code, in either case.
pub open spec fn is_usd_code(s: Seq<char>) -> bool {
    s.len() == 3 && (s[0] == 'U' || s[0] == 'u') && (s[1] == 'S' || s[1] == 's') && (s[2] == 'D'
        || s[2] == 'd')
}

fn is_btc(s: &str) -> (r: bool)
    ensures
        r == is_btc_code(s@),
{
    if s.unicode_len() != 3 {
        return false;
    }
    let c0 = s.get_char(0);
    let c1 = s.get_char(1);
    let c2 = s.get_char(2);
    (c0 == 'B' || c0 == 'b') && (c1 == 'T' || c1 == 't') && (c2 == 'C' || c2 == 'c')
}

fn is_usd(s: &str) -> (r: bool)
    ensures
        r == is_usd_code(s@),
{
    if s.unicode_len() != 3 {
        return false;
    }
    let c0 = s.get_char(0);
    let c1 = s.get_char(1);
    let c2 = s.get_char(2);
    (c0 == 'U' || c0 == 'u') && (c1 == 'S' || c1 == 's') && (c2 == 'D' || c2 == 'd')
}

/// The quote arithmetic stays within `u128` for this amount and price.
pub open spec fn quote_computation_fits(usd_cents: int, price: int) -> bool {
    &&& usd_cents * SATOSHIS_PER_BTC <= u128::MAX
    &&& base_quote(usd_cents, price) * QUOTE_SPREAD_PER_MILLE <= u128::MAX
    &&& with_spread(base_quote(usd_cents, price), QUOTE_SPREAD_PER_MILLE as int) <= u128::MAX
}

/// Computes a conversion quote at the given unit price: satoshis
/// covering the wanted fiat amount, with the standalone-quote spread of
/// 1.0% on top.  Only the BTC-to-USD pair is served; a zero unit price
/// is an error, never a crash.
pub fn get_quote(query: &QuoteQuery, btc_price_usd_cents: u128, now_ms: u64) -> (r: Result<
    QuoteResponse,
    ErrorResponse,
>)
    ensures
        r is Ok <==> is_btc_code(query.from@) && is_usd_code(query.to@) && valid_money_chars(
            query.to_amount@,
        ) && 0 < money_cents(query.to_amount@) <= u128::MAX && btc_price_usd_cents > 0
            && quote_computation_fits(
            money_cents(query.to_amount@) as int,
            btc_price_usd_cents as int,
        ),
        !is_btc_code(query.from@) ==> (r matches Err(e) && e.error@ == "unsupported_from_asset"@),
        is_btc_code(query.from@) && !is_usd_code(query.to@) ==> (r matches Err(e) && e.error@
            == "unsupported_to_asset"@),
        is_btc_code(query.from@) && is_usd_code(query.to@) && btc_price_usd_cents > 0 && !(
        valid_money_chars(query.to_amount@) && 0 < money_cents(query.to_amount@) <= u128::MAX
            && quote_computation_fits(
            money_cents(query.to_amount@) as int,
            btc_price_usd_cents as int,
        )) ==> (r matches Err(e) && e.error@ == "invalid_amount"@),
        is_btc_code(query.from@) && is_usd_code(query.to@) && valid_money_chars(query.to_amount@)
            && 0 < money_cents(query.to_amount@) <= u128::MAX && btc_price_usd_cents == 0 ==> (r
            matches Err(e) && e.error@ == "price_unavailable"@),
        r matches Ok(q) ==> {
            let usd = money_cents(query.to_amount@) as int;
            &&& q.from_asset@ == "BTC"@
            &&& q.to_asset@ == "USD"@
            &&& q.from_amount@ == dec_digits(
                with_spread(
                    base_quote(usd, btc_price_usd_cents as int),
                    QUOTE_SPREAD_PER_MILLE as int,
                ) as nat,
            )
            &&& q.to_amount@ == query.to_amount@
            &&& q.unit_price@ == money_string(btc_price_usd_cents as nat)
            &&& q.spread@ == dec_digits((QUOTE_SPREAD_PER_MILLE / 10) as nat) + "%"@
            &&& q.refreshed_at_ms == now_ms
        },
{
    if !is_btc(query.from.as_str()) {
        return Err(
            ErrorResponse::of(
                "unsupported_from_asset",
                "From asset is not supported at this time. Only 'BTC' is supported.",
            ),
        );
    }
    if !is_usd(query.to.as_str()) {
        return Err(
            ErrorResponse::of(
                "unsupported_to_asset",
                "To asset is not supported at this time. Only 'USD' is supported.",
            ),
        );
    }
    let usd_amount = match convert_money_from_string(query.to_amount.clone()) {
        Ok(v) => v,
        Err(()) => {
            return Err(ErrorResponse::of("invalid_amount", "to_amount must be a valid number"));
        },
    };
    if usd_amount == 0 {
        return Err(ErrorResponse::of("invalid_amount", "to_amount must be positive"));
    }
    if btc_price_usd_cents == 0 {
        return Err(ErrorResponse::of("price_unavailable", "No unit price is available"));
    }
    if usd_amount > u128::MAX / SATOSHIS_PER_BTC {
        proof {
            let cap = u128::MAX as int;
            let d = SATOSHIS_PER_BTC as int;
            assert(cap == (cap / d) * d + cap % d);
        }
        return Err(ErrorResponse::of("invalid_amount", "to_amount is too large to quote"));
    }
    proof {
        let cap = u128::MAX as int;
        let d = SATOSHIS_PER_BTC as int;
        assert(cap == (cap / d) * d + cap % d);
    }
    let base = (usd_amount * SATOSHIS_PER_BTC) / btc_price_usd_cents;
    if base > u128::MAX / QUOTE_SPREAD_PER_MILLE {
        proof {
            let cap = u128::MAX as int;
            let d = QUOTE_SPREAD_PER_MILLE as int;
            assert(cap == (cap / d) * d + cap % d);
        }
        return Err(ErrorResponse::of("invalid_amount", "to_amount is too large to quote"));
    }
    proof {
        let cap = u128::MAX as int;
        let d = QUOTE_SPREAD_PER_MILLE as int;
        assert(cap == (cap / d) * d + cap % d);
    }
    let extra = base * QUOTE_SPREAD_PER_MILLE / 1000;
    if base > u128::MAX - extra {
        return Err(ErrorResponse::of("invalid_amount", "to_amount is too large to quote"));
    }
    let satoshis_with_spread = calculate_satoshis_for_usd_with_spread(
        usd_amount,
        btc_price_usd_cents,
        QUOTE_SPREAD_PER_MILLE,
    );
    let mut spread = format_unsigned(QUOTE_SPREAD_PER_MILLE / 10);
    spread.append("%");
    Ok(
        QuoteResponse {
            from_asset: String::from_str("BTC"),
            to_asset: String::from_str("USD"),
            from_amount: format_unsigned(satoshis_with_spread),
            to_amount: query.to_amount.clone(),
            unit_price: format_money_amount(btc_price_usd_cents),
            spread,
            refreshed_at_ms: now_ms,
        },
    )
}

} // verus!
