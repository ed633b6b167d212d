//! The payment-submission saga.
//!
//! Submitting a payment against an invoice runs in three phases, so the
//! caller can perform the two network steps between them:
//!
//! 1. [`SettlementCoordinator::begin_submit`] — validate the request
//!    and the invoice (existence, already-paid, expiry — including lazy
//!    expiry of a `Created` invoice past its deadline).  Terminal
//!    rejections, no writes.  The caller then obtains a unit price from
//!    the oracle.
//! 2. [`SettlementCoordinator::accept_payment`] — quote the required
//!    amount with the submission spread, reject underpayment, and
//!    insert the payment in `Accepted` state; the store's uniqueness
//!    constraint turns a racing duplicate into
//!    [`SubmitError::PaymentAlreadyExists`].  The caller then broadcasts
//!    the transaction with the required amount.
//! 3. [`SettlementCoordinator::complete_submit`] — fold the broadcast
//!    outcome back in.  Failure compensates forward: the accepted
//!    payment is rejected (kept as an audit record) and the invoice is
//!    left untouched, so a resubmission may succeed.  Success confirms
//!    the payment atomically and then advances the invoice to `Paid`;
//!    the confirmed payment is the authoritative record, so a failure
//!    of that last invoice write does not fail the submission.

use vstd::prelude::*;
use vstd::arithmetic::div_mod::lemma_div_nonincreasing;
use crate::broadcast::BoltTransactionResponse;
use crate::codec::{all_digits, dec_value, parse_unsigned};
use crate::dto::SubmitPaymentRequest;
use crate::ids::RecordId;
use crate::invoice::{InvoiceStatus, MAX_INVOICE_AMOUNT_CENTS};
use crate::oracle::PriceOracle;
use crate::payment::{Payment, PaymentStatus, PaymentToken};
use crate::quote::{
    base_quote, calculate_satoshis_for_usd_with_spread, with_spread, SATOSHIS_PER_BTC,
};
use crate::store::{
    confirmed_with, create_spec, has_active_for, has_invoice_id, has_payment_id, invoice_index,
    invoice_update_status_spec, payment_index, unique_active_per_invoice, unique_payment_ids,
    update_status_spec, InvoiceStore, PaymentStore, StoreError,
};

verus! {

/// Spread applied to submissions, in parts per thousand (0.50%).
pub const SUBMIT_SPREAD_PER_MILLE: u128 = 50;

/// Why a submission was refused, step by step of the saga.
#[derive(Clone, Copy, PartialEq, Eq, Structural, Debug)]
pub enum SubmitError {
    /// Malformed request: empty serialized transaction, or an amount
    /// that is not a positive decimal integer.  No side effects.
    InvalidRequest,
    /// No invoice under that identifier.  No side effects.
    InvoiceNotFound,
    /// The invoice is already `Paid` or `Settled`.  No side effects.
    AlreadyPaid,
    /// The invoice is `Expired`, or `Created` with its deadline in the
    /// past.  No side effects.
    InvoiceExpired,
    /// No unit price could be obtained, or the upstream quoted zero.
    /// Transient; no side effects.
    PriceUnavailable,
    /// The declared amount is below what the quote demands; the
    /// required amount in base-asset units is carried along.  No side
    /// effects.
    Underpayment { required: u128 },
    /// Another payment for this invoice is already accepted or
    /// confirmed.
    PaymentAlreadyExists,
    /// The store failed for any other reason.
    PersistenceError,
    /// The broadcast failed; the accepted payment was moved to
    /// `Rejected` and the invoice left untouched.
    BroadcastFailed,
    /// The payment was no longer `Accepted` when the broadcast
    /// succeeded — a racing caller finalized it first.
    ConfirmationError,
}

/// The request passes validation: a non-empty serialized transaction
/// and a positive decimal amount in range.
pub open spec fn valid_submit_request(req: SubmitPaymentRequest) -> bool {
    &&& req.serialized_transaction@.len() > 0
    &&& req.amount@.len() > 0
    &&& all_digits(req.amount@)
    &&& 0 < dec_value(req.amount@) <= u128::MAX
}

/// Base-asset units a submission must reach: the base quote for the
/// invoice amount, with the submission spread on top.
pub open spec fn required_satoshis(invoice_amount_cents: int, price: int) -> int {
    with_spread(base_quote(invoice_amount_cents, price), SUBMIT_SPREAD_PER_MILLE as int)
}

/// What survives phase one: the validated request joined with the
/// invoice it settles.
#[derive(Debug)]
pub struct PendingSubmission {
    pub invoice_id: RecordId,
    /// The invoice amount in fiat minor units.
    pub invoice_amount: u128,
    /// The client-declared amount in base-asset units.
    pub declared_amount: u128,
    pub asset: PaymentToken,
    pub serialized_transaction: String,
}

/// What survives phase two: the accepted payment and the quoted amount
/// the broadcast must carry.
#[derive(Debug)]
pub struct AcceptedSubmission {
    pub payment: Payment,
    pub required_amount: u128,
}

/// The one component that spans both stores and the oracle.
pub struct SettlementCoordinator {
    pub invoices: InvoiceStore,
    pub payments: PaymentStore,
    pub oracle: PriceOracle,
}

impl SettlementCoordinator {
    pub open spec fn wf(self) -> bool {
        self.invoices.wf() && self.payments.wf()
    }

    /// Empty stores, a fresh oracle.
    pub fn new() -> (c: SettlementCoordinator)
        ensures
            c.wf(),
            c.invoices@ =~= Seq::<crate::invoice::Invoice>::empty(),
            c.payments@ =~= Seq::<Payment>::empty(),
            c.oracle.cache is None,
            !c.oracle.fetch_in_flight,
    {
        SettlementCoordinator {
            invoices: InvoiceStore::new(),
            payments: PaymentStore::new(),
            oracle: PriceOracle::new(),
        }
    }

    /// Phase one: request validation and invoice checks.  Rejections
    /// here are terminal and write nothing.  A `Created` invoice whose
    /// deadline lies before `now_ms` is rejected as expired even though
    /// the persisted status has not caught up.
    pub fn begin_submit(
        &self,
        invoice_id: RecordId,
        request: &SubmitPaymentRequest,
        now_ms: u64,
    ) -> (r: Result<PendingSubmission, SubmitError>)
        requires
            self.wf(),
        ensures
            !valid_submit_request(*request) ==> r == Err::<PendingSubmission, SubmitError>(
                SubmitError::InvalidRequest,
            ),
            valid_submit_request(*request) && !has_invoice_id(self.invoices@, invoice_id) ==> r
                == Err::<PendingSubmission, SubmitError>(SubmitError::InvoiceNotFound),
            valid_submit_request(*request) && has_invoice_id(self.invoices@, invoice_id) ==> {
                let inv = self.invoices@[invoice_index(self.invoices@, invoice_id)];
                if inv.status == InvoiceStatus::Paid || inv.status == InvoiceStatus::Settled {
                    r == Err::<PendingSubmission, SubmitError>(SubmitError::AlreadyPaid)
                } else if inv.status == InvoiceStatus::Expired || inv.past_expiry(now_ms) {
                    r == Err::<PendingSubmission, SubmitError>(SubmitError::InvoiceExpired)
                } else {
                    r matches Ok(p) && p.invoice_id == invoice_id && p.invoice_amount == inv.amount
                        && p.declared_amount == dec_value(request.amount@)
                        && p.asset == request.asset && p.serialized_transaction
                        == request.serialized_transaction
                }
            },
            r matches Ok(p) ==> valid_submit_request(*request) && p.invoice_amount
                <= MAX_INVOICE_AMOUNT_CENTS && 0 < p.declared_amount,
    {
        let declared = match parse_unsigned(request.amount.as_str()) {
            Ok(v) => v,
            Err(()) => {
                return Err(SubmitError::InvalidRequest);
            },
        };
        if declared == 0 {
            return Err(SubmitError::InvalidRequest);
        }
        if request.serialized_transaction.as_str().is_empty() {
            return Err(SubmitError::InvalidRequest);
        }
        let invoice = match self.invoices.find_by_id(invoice_id) {
            Some(inv) => inv,
            None => {
                return Err(SubmitError::InvoiceNotFound);
            },
        };
        if invoice.status == InvoiceStatus::Paid || invoice.status == InvoiceStatus::Settled {
            return Err(SubmitError::AlreadyPaid);
        }
        if invoice.status == InvoiceStatus::Expired {
            return Err(SubmitError::InvoiceExpired);
        }
        match invoice.expires_at {
            Some(t) => {
                if now_ms > t {
                    return Err(SubmitError::InvoiceExpired);
                }
            },
            None => {},
        }
        Ok(
            PendingSubmission {
                invoice_id,
                invoice_amount: invoice.amount,
                declared_amount: declared,
                asset: request.asset,
                serialized_transaction: request.serialized_transaction.clone(),
            },
        )
    }

    /// Phase two: quote and accept.  With a positive unit price in
    /// hand, the required amount is the spread-adjusted quote for the
    /// invoice amount; a declared amount below it is an underpayment
    /// carrying that figure.  Otherwise the payment is inserted in
    /// `Accepted` state, and the store's uniqueness constraint decides
    /// any race: a second active payment for the invoice comes back as
    /// `PaymentAlreadyExists`.
    pub fn accept_payment(
        &mut self,
        pending: &PendingSubmission,
        price: Option<u128>,
        payment_id: RecordId,
        now_ms: u64,
    ) -> (r: Result<AcceptedSubmission, SubmitError>)
        requires
            old(self).wf(),
            pending.invoice_amount <= MAX_INVOICE_AMOUNT_CENTS,
        ensures
            final(self).wf(),
            final(self).invoices == old(self).invoices,
            final(self).oracle == old(self).oracle,
            price is None ==> r == Err::<AcceptedSubmission, SubmitError>(
                SubmitError::PriceUnavailable,
            ) && final(self).payments@ == old(self).payments@,
            price matches Some(p) ==> (if p == 0 {
                r == Err::<AcceptedSubmission, SubmitError>(SubmitError::PriceUnavailable)
                    && final(self).payments@ == old(self).payments@
            } else {
                let required = required_satoshis(pending.invoice_amount as int, p as int);
                if pending.declared_amount < required {
                    r == Err::<AcceptedSubmission, SubmitError>(
                        SubmitError::Underpayment { required: required as u128 },
                    ) && final(self).payments@ == old(self).payments@
                } else {
                    let payment = Payment {
                        id: payment_id,
                        invoice_id: pending.invoice_id,
                        status: PaymentStatus::Accepted,
                        asset: pending.asset,
                        amount: pending.declared_amount,
                        sender_address: None::<String>,
                        received_at: now_ms,
                        tx_id: None::<String>,
                    };
                    &&& final(self).payments@ == create_spec(old(self).payments@, payment).0
                    &&& (create_spec(old(self).payments@, payment).1 is Ok ==> r == Ok::<
                        AcceptedSubmission,
                        SubmitError,
                    >(AcceptedSubmission { payment, required_amount: required as u128 }))
                    &&& (create_spec(old(self).payments@, payment).1 == Err::<(), StoreError>(
                        StoreError::DuplicateActivePayment,
                    ) ==> r == Err::<AcceptedSubmission, SubmitError>(
                        SubmitError::PaymentAlreadyExists,
                    ))
                    &&& (create_spec(old(self).payments@, payment).1 == Err::<(), StoreError>(
                        StoreError::DuplicateId,
                    ) ==> r == Err::<AcceptedSubmission, SubmitError>(SubmitError::PersistenceError))
                }
            }),
    {
        let p = match price {
            Some(p) => p,
            None => {
                return Err(SubmitError::PriceUnavailable);
            },
        };
        if p == 0 {
            return Err(SubmitError::PriceUnavailable);
        }
        proof {
            assert(pending.invoice_amount * SATOSHIS_PER_BTC <= MAX_INVOICE_AMOUNT_CENTS
                * SATOSHIS_PER_BTC);
            lemma_div_nonincreasing(pending.invoice_amount * SATOSHIS_PER_BTC, p as int);
            assert(base_quote(pending.invoice_amount as int, p as int) * SUBMIT_SPREAD_PER_MILLE
                <= MAX_INVOICE_AMOUNT_CENTS * SATOSHIS_PER_BTC * SUBMIT_SPREAD_PER_MILLE);
            assert(base_quote(pending.invoice_amount as int, p as int) >= 0);
        }
        let required = calculate_satoshis_for_usd_with_spread(
            pending.invoice_amount,
            p,
            SUBMIT_SPREAD_PER_MILLE,
        );
        if pending.declared_amount < required {
            return Err(SubmitError::Underpayment { required });
        }
        let payment = Payment::new(
            payment_id,
            pending.invoice_id,
            pending.asset,
            pending.declared_amount,
            now_ms,
        );
        match self.payments.create(payment) {
            Ok(()) => Ok(
                AcceptedSubmission {
                    payment: Payment::new(
                        payment_id,
                        pending.invoice_id,
                        pending.asset,
                        pending.declared_amount,
                        now_ms,
                    ),
                    required_amount: required,
                },
            ),
            Err(StoreError::DuplicateActivePayment) => Err(SubmitError::PaymentAlreadyExists),
            Err(StoreError::DuplicateId) => Err(SubmitError::PersistenceError),
        }
    }

    /// Phase three: fold the broadcast outcome in.  `None` is a failed
    /// broadcast: the accepted payment is moved to `Rejected` as a
    /// permanent audit record, the invoice stays untouched, and the
    /// caller gets `BroadcastFailed`.  A reply confirms the payment
    /// atomically — recording the network's transaction id and sender —
    /// and then advances the invoice to `Paid`; if the payment was no
    /// longer accepted, nothing changes and `ConfirmationError` is
    /// returned.
    pub fn complete_submit(
        &mut self,
        payment_id: RecordId,
        outcome: Option<BoltTransactionResponse>,
    ) -> (r: Result<Payment, SubmitError>)
        requires
            old(self).wf(),
        ensures
            final(self).wf(),
            final(self).oracle == old(self).oracle,
            outcome is None ==> {
                &&& r == Err::<Payment, SubmitError>(SubmitError::BroadcastFailed)
                &&& final(self).invoices == old(self).invoices
                &&& final(self).payments@ == update_status_spec(
                    old(self).payments@,
                    payment_id,
                    PaymentStatus::Rejected,
                ).0
            },
            outcome matches Some(resp) ==> {
                let ps = old(self).payments@;
                if has_payment_id(ps, payment_id) && ps[payment_index(ps, payment_id)].status
                    == PaymentStatus::Accepted {
                    let conf = confirmed_with(
                        ps[payment_index(ps, payment_id)],
                        resp.txid,
                        resp.sender,
                    );
                    &&& final(self).payments@ == ps.update(payment_index(ps, payment_id), conf)
                    &&& r == Ok::<Payment, SubmitError>(conf)
                    &&& final(self).invoices@ == invoice_update_status_spec(
                        old(self).invoices@,
                        conf.invoice_id,
                        InvoiceStatus::Paid,
                    ).0
                } else {
                    &&& r == Err::<Payment, SubmitError>(SubmitError::ConfirmationError)
                    &&& final(self).payments@ == ps
                    &&& final(self).invoices == old(self).invoices
                }
            },
    {
        match outcome {
            None => {
                // Best-effort compensation; whether a record changed is
                // not escalated.
                let _ = self.payments.update_status(payment_id, PaymentStatus::Rejected);
                Err(SubmitError::BroadcastFailed)
            },
            Some(resp) => {
                match self.payments.confirm(payment_id, resp.txid, resp.sender) {
                    Some(confirmed) => {
                        let invoice_id = confirmed.invoice_id;
                        let result = confirmed.clone();
                        // The confirmed payment is authoritative; the
                        // invoice write is not allowed to fail the call.
                        let _ = self.invoices.update_status(invoice_id, InvoiceStatus::Paid);
                        Ok(result)
                    },
                    None => Err(SubmitError::ConfirmationError),
                }
            },
        }
    }
}

/// Saga compensation frees the uniqueness slot: rejecting the one
/// accepted payment of an invoice leaves no active payment behind, so a
/// resubmission — a fresh active payment for the same invoice under a
/// fresh identifier — is taken on by the store.
pub proof fn lemma_saga_compensation(s: Seq<Payment>, payment_id: RecordId, retry: Payment)
    requires
        unique_payment_ids(s),
        unique_active_per_invoice(s),
        has_payment_id(s, payment_id),
        s[payment_index(s, payment_id)].status == PaymentStatus::Accepted,
        retry.is_active(),
        retry.invoice_id == s[payment_index(s, payment_id)].invoice_id,
        !has_payment_id(s, retry.id),
    ensures
        !has_active_for(
            update_status_spec(s, payment_id, PaymentStatus::Rejected).0,
            retry.invoice_id,
        ),
        create_spec(update_status_spec(s, payment_id, PaymentStatus::Rejected).0, retry).1 is Ok,
{
    let i = payment_index(s, payment_id);
    let s2 = update_status_spec(s, payment_id, PaymentStatus::Rejected).0;
    assert(s2 == s.update(i, crate::store::with_status(s[i], PaymentStatus::Rejected)));
    assert forall|j: int|
        0 <= j < s2.len() implies !(s2[j].invoice_id == retry.invoice_id
        && (#[trigger] s2[j]).is_active()) by {
        if j != i {
            assert(s2[j] == s[j]);
            if s[j].invoice_id == retry.invoice_id && s[j].is_active() {
                assert(s[i].is_active());
                assert(!(s[i].is_active() && s[j].is_active()));
            }
        }
    }
    assert(!has_payment_id(s2, retry.id)) by {
        assert forall|j: int| 0 <= j < s2.len() implies s2[j].id != retry.id by {
            assert(s2[j].id == s[j].id);
        }
    }
}

} // verus!
