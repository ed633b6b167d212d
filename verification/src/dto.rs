//! Request and response shapes of the gateway's interface.
//!
//! Amounts travel as decimal strings at the boundary and as integer
//! minor units inside; timestamps are milliseconds since the epoch.

use vstd::prelude::*;
use vstd::string::StringExecFns;
use crate::codec::{dec_digits, money_string};
use crate::codec::format_money_amount;
use crate::codec::format_unsigned;
use crate::ids::{all_hex, hex_digits, hex_value, RecordId};
use crate::invoice::{Invoice, InvoiceStatus, SettlementAsset};
use crate::payment::{Payment, PaymentStatus, PaymentToken};

verus! {

/// Body of a request to create an invoice for a merchant.
#[derive(Debug)]
pub struct CreateInvoiceRequest {
    /// Fiat amount as a decimal string, e.g. `"49.90"`.
    pub amount: String,
    pub settlement_asset: SettlementAsset,
    pub merchant_order_id: String,
}

/// Body of a request to settle an invoice.
#[derive(Debug)]
pub struct SubmitPaymentRequest {
    /// The signed transaction, serialized by the client.
    pub serialized_transaction: String,
    pub asset: PaymentToken,
    /// Declared payment amount in base-asset units, as a decimal string.
    pub amount: String,
}

/// Filters and pagination for listing a merchant's invoices.
#[derive(Debug)]
pub struct ListInvoicesQuery {
    pub status: Option<InvoiceStatus>,
    pub merchant_order_id: Option<String>,
    /// Lower bound on `created_at`, milliseconds since the epoch.
    pub from_date: Option<u64>,
    /// Upper bound on `created_at`, milliseconds since the epoch.
    pub to_date: Option<u64>,
    pub limit: usize,
    pub offset: usize,
}

/// The page size used when a listing query names none.
pub fn default_limit() -> (n: usize)
    ensures
        n == 20,
{
    20
}

/// Parameters of a conversion quote request.
#[derive(Debug)]
pub struct QuoteQuery {
    /// Asset to pay in; only `BTC` is supported.
    pub from: String,
    /// Asset to settle in; only `USD` is supported.
    pub to: String,
    /// Fiat amount wanted, as a decimal string.
    pub to_amount: String,
}

/// A machine-readable error code with a human-readable message.
#[derive(Debug)]
pub struct ErrorResponse {
    pub error: String,
    pub message: String,
}

impl ErrorResponse {
    /// Builds a response from two string literals.
    pub fn of(error: &str, message: &str) -> (r: ErrorResponse)
        ensures
            r.error@ == error@,
            r.message@ == message@,
    {
        ErrorResponse { error: String::from_str(error), message: String::from_str(message) }
    }
}

/// An invoice as clients see it: identifiers and amounts rendered as
/// strings, plus the checkout link.
#[derive(Debug)]
pub struct InvoiceResponse {
    pub id: String,
    pub status: InvoiceStatus,
    /// Fiat amount with exactly two fractional digits.
    pub amount: String,
    pub settlement_asset: SettlementAsset,
    pub merchant_order_id: String,
    pub created_at: u64,
    pub checkout_url: String,
}

impl InvoiceResponse {
    /// Renders an invoice record.
    pub fn from(invoice: Invoice) -> (r: InvoiceResponse)
        ensures
            r.id@ == hex_digits(invoice.id.value as nat, 24),
            r.status == invoice.status,
            r.amount@ == money_string(invoice.amount as nat),
            r.settlement_asset == invoice.settlement_asset,
            r.merchant_order_id == invoice.merchant_order_id,
            r.created_at == invoice.created_at,
            r.checkout_url@ == "https://test.boltproto.org/checkout/"@ + hex_digits(
                invoice.id.value as nat,
                24,
            ),
    {
        let id = invoice.id.to_hex();
        let mut checkout_url = String::from_str("https://test.boltproto.org/checkout/");
        checkout_url.append(id.as_str());
        InvoiceResponse {
            id,
            status: invoice.status,
            amount: format_money_amount(invoice.amount),
            settlement_asset: invoice.settlement_asset,
            merchant_order_id: invoice.merchant_order_id,
            created_at: invoice.created_at,
            checkout_url,
        }
    }
}

/// A payment as clients see it: identifiers rendered as hexadecimal,
/// the base-asset amount as a plain integer string.
#[derive(Debug)]
pub struct PaymentResponse {
    pub id: String,
    pub invoice_id: String,
    pub status: PaymentStatus,
    pub asset: PaymentToken,
    pub amount: String,
    pub sender_address: Option<String>,
    pub received_at: u64,
    pub tx_id: Option<String>,
}

impl PaymentResponse {
    /// Renders a payment record.
    pub fn from(payment: Payment) -> (r: PaymentResponse)
        ensures
            r.id@ == hex_digits(payment.id.value as nat, 24),
            r.invoice_id@ == hex_digits(payment.invoice_id.value as nat, 24),
            r.status == payment.status,
            r.asset == payment.asset,
            r.amount@ == dec_digits(payment.amount as nat),
            r.sender_address == payment.sender_address,
            r.received_at == payment.received_at,
            r.tx_id == payment.tx_id,
    {
        PaymentResponse {
            id: payment.id.to_hex(),
            invoice_id: payment.invoice_id.to_hex(),
            status: payment.status,
            asset: payment.asset,
            amount: format_unsigned(payment.amount),
            sender_address: payment.sender_address,
            received_at: payment.received_at,
            tx_id: payment.tx_id,
        }
    }
}

/// A conversion quote: how many base-asset units cover the wanted fiat
/// amount at the current unit price, spread included.
#[derive(Debug)]
pub struct QuoteResponse {
    pub from_asset: String,
    pub to_asset: String,
    /// Base-asset units the payer owes, as a decimal string.
    pub from_amount: String,
    /// The fiat amount quoted for, echoed from the request.
    pub to_amount: String,
    /// Unit price used, without spread, as a money string.
    pub unit_price: String,
    /// The spread applied, as a percentage string.
    pub spread: String,
    /// When the quote was computed, milliseconds since the epoch.
    pub refreshed_at_ms: u64,
}

/// One page of a merchant's invoices, with the figures needed to page
/// on.
#[derive(Debug)]
pub struct ListInvoicesResponse {
    pub items: Vec<Invoice>,
    /// How many invoices matched the filters, across all pages.
    pub total: usize,
    pub limit: usize,
    pub offset: usize,
}

/// Parses the 24-character hexadecimal form of a record identifier,
/// answering with the error payload the interface reports for a
/// malformed one.
pub fn convert_string_to_object_id(id: &str) -> (r: Result<RecordId, ErrorResponse>)
    ensures
        r is Ok <==> id@.len() == 24 && all_hex(id@),
        r matches Ok(rid) ==> rid.value as nat == hex_value(id@) && rid.wf(),
        r matches Err(e) ==> e.error@ == "invalid_object_id"@ && e.message@
            == "Invalid ObjectId format"@,
{
    match RecordId::parse_str(id) {
        Ok(rid) => Ok(rid),
        Err(()) => Err(ErrorResponse::of("invalid_object_id", "Invalid ObjectId format")),
    }
}

} // verus!
