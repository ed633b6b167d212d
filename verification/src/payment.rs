//! Payments and their status machine.
//!
//! A payment is created `Accepted` when a submission is taken on, then
//! moves to `Confirmed` on a successful broadcast or to `Rejected` on a
//! failed one; it is never deleted.  A payment counts as *active* while
//! `Accepted` or `Confirmed` — the store admits at most one active
//! payment per invoice.

use vstd::prelude::*;
use crate::ids::RecordId;

verus! {

#[derive(Clone, Copy, PartialEq, Eq, Structural, Debug)]
pub enum PaymentStatus {
    /// Taken on and being processed.
    Accepted,
    /// Finally declined; kept as an audit record.
    Rejected,
    /// Broadcast succeeded and the network details are recorded.
    Confirmed,
}

/// The base asset a payment is made in.
#[derive(Clone, Copy, PartialEq, Eq, Structural, Debug)]
pub enum PaymentToken {
    SBTC,
    USDT,
}

/// A payment record.  `amount` is in integer base-asset units
/// (satoshis); `received_at` is milliseconds since the epoch.
#[derive(Debug)]
pub struct Payment {
    pub id: RecordId,
    /// The invoice this payment settles.
    pub invoice_id: RecordId,
    pub status: PaymentStatus,
    pub asset: PaymentToken,
    pub amount: u128,
    /// Sender address reported by the network, once confirmed.
    pub sender_address: Option<String>,
    pub received_at: u64,
    /// Transaction id on the underlying network, once confirmed.
    pub tx_id: Option<String>,
}

impl Payment {
    /// Accepted or confirmed: the statuses the per-invoice uniqueness
    /// constraint ranges over.
    pub open spec fn is_active(self) -> bool {
        self.status == PaymentStatus::Accepted || self.status == PaymentStatus::Confirmed
    }

    /// A fresh payment in `Accepted` state, with no network details yet.
    pub fn new(
        id: RecordId,
        invoice_id: RecordId,
        asset: PaymentToken,
        amount: u128,
        received_at: u64,
    ) -> (p: Payment)
        ensures
            p == (Payment {
                id,
                invoice_id,
                status: PaymentStatus::Accepted,
                asset,
                amount,
                sender_address: None::<String>,
                received_at,
                tx_id: None::<String>,
            }),
    {
        Payment {
            id,
            invoice_id,
            status: PaymentStatus::Accepted,
            asset,
            amount,
            sender_address: None,
            received_at,
            tx_id: None,
        }
    }
}

impl Clone for Payment {
    fn clone(&self) -> (res: Payment)
        ensures
            res == *self,
    {
        Payment {
            id: self.id,
            invoice_id: self.invoice_id,
            status: self.status,
            asset: self.asset,
            amount: self.amount,
            sender_address: self.sender_address.clone(),
            received_at: self.received_at,
            tx_id: self.tx_id.clone(),
        }
    }
}

} // verus!
