//! Invoices and their status machine.
//!
//! An invoice advances `Created` to `Paid` to `Settled`, or `Created` to
//! `Expired`; `Expired` and `Settled` are terminal.  An invoice whose
//! `expires_at` lies in the past must be treated as expired by every
//! status-sensitive operation even while the persisted field still says
//! `Created` (lazy expiry).

use vstd::prelude::*;
use crate::ids::RecordId;

verus! {

/// The largest invoice amount the document store's signed 64-bit field
/// can hold.
pub const MAX_INVOICE_AMOUNT_CENTS: u128 = 0x7fff_ffff_ffff_ffff;

#[derive(Clone, Copy, PartialEq, Eq, Structural, Debug)]
pub enum InvoiceStatus {
    /// Awaiting payment.
    Created,
    /// A payment has been confirmed.
    Paid,
    /// The validity period lapsed without payment; terminal.
    Expired,
    /// Funds have been transferred to the merchant; terminal.
    Settled,
}

/// The fiat asset the merchant settles in.
#[derive(Clone, Copy, PartialEq, Eq, Structural, Debug)]
pub enum SettlementAsset {
    USD,
    BRL,
}

/// The lawful status transitions: `Created` to `Paid` to `Settled`, or
/// `Created` to `Expired`.
pub open spec fn status_advances(from: InvoiceStatus, to: InvoiceStatus) -> bool {
    match (from, to) {
        (InvoiceStatus::Created, InvoiceStatus::Paid) => true,
        (InvoiceStatus::Created, InvoiceStatus::Expired) => true,
        (InvoiceStatus::Paid, InvoiceStatus::Settled) => true,
        _ => false,
    }
}

/// An invoice record.  Timestamps are milliseconds since the epoch;
/// `amount` is in fiat minor units (cents).
#[derive(Debug)]
pub struct Invoice {
    pub id: RecordId,
    /// Wallet address of the merchant the invoice belongs to.
    pub wallet_address: String,
    pub status: InvoiceStatus,
    pub amount: u128,
    pub settlement_asset: SettlementAsset,
    /// Merchant-defined order id.
    pub merchant_order_id: String,
    pub created_at: u64,
    /// When the invoice lapses, if the merchant set a deadline.
    pub expires_at: Option<u64>,
}

impl Invoice {
    /// The amount fits the document store's signed 64-bit field.
    pub open spec fn wf(self) -> bool {
        self.amount <= MAX_INVOICE_AMOUNT_CENTS
    }

    /// Lazy expiry: the deadline has passed, whatever the persisted
    /// status says.
    pub open spec fn past_expiry(self, now_ms: u64) -> bool {
        self.expires_at matches Some(t) && now_ms > t
    }

    /// The status every status-sensitive operation must act on: a
    /// `Created` invoice past its deadline counts as `Expired`.
    pub open spec fn effective_status(self, now_ms: u64) -> InvoiceStatus {
        if self.status == InvoiceStatus::Created && self.past_expiry(now_ms) {
            InvoiceStatus::Expired
        } else {
            self.status
        }
    }
}

impl Clone for Invoice {
    fn clone(&self) -> (res: Invoice)
        ensures
            res == *self,
    {
        Invoice {
            id: self.id,
            wallet_address: self.wallet_address.clone(),
            status: self.status,
            amount: self.amount,
            settlement_asset: self.settlement_asset,
            merchant_order_id: self.merchant_order_id.clone(),
            created_at: self.created_at,
            expires_at: self.expires_at,
        }
    }
}

} // verus!
