//! In-memory invoice and payment stores.
//!
//! These model the two document-store collections as verified,
//! constraint-enforcing stores.  The payment store maintains the central
//! correctness property of the system, the counterpart of a partial
//! unique index on `invoice_id` scoped to the accepted and confirmed
//! statuses: **for a given invoice, at most one payment is ever
//! simultaneously accepted or confirmed.**  A caller that races another
//! submission observes a typed [`StoreError::DuplicateActivePayment`]
//! rather than a second active row.

use vstd::prelude::*;
use vstd::pervasive::VecAdditionalExecFns;
use crate::ids::RecordId;
use crate::invoice::{status_advances, Invoice, InvoiceStatus};
use crate::payment::{Payment, PaymentStatus};
use crate::text::str_eq;

verus! {

/// A store rejection, mirroring the constraint that was violated.
#[derive(Clone, Copy, PartialEq, Eq, Structural, Debug)]
pub enum StoreError {
    /// An accepted or confirmed payment already exists for the invoice.
    DuplicateActivePayment,
    /// A record with the same identifier already exists.
    DuplicateId,
}

// ---------------------------------------------------------------------
// Spec views of a payment collection.
// ---------------------------------------------------------------------

pub open spec fn has_payment_id(s: Seq<Payment>, id: RecordId) -> bool {
    exists|i: int| 0 <= i < s.len() && s[i].id == id
}

pub open spec fn payment_index(s: Seq<Payment>, id: RecordId) -> int {
    choose|i: int| 0 <= i < s.len() && s[i].id == id
}

/// Some payment for this invoice is accepted or confirmed.
pub open spec fn has_active_for(s: Seq<Payment>, invoice_id: RecordId) -> bool {
    exists|i: int| 0 <= i < s.len() && s[i].invoice_id == invoice_id && s[i].is_active()
}

pub open spec fn active_index(s: Seq<Payment>, invoice_id: RecordId) -> int {
    choose|i: int| 0 <= i < s.len() && s[i].invoice_id == invoice_id && s[i].is_active()
}

/// A payment other than the one at `i` is active for the same invoice.
pub open spec fn conflicting_active_elsewhere(s: Seq<Payment>, i: int) -> bool {
    exists|j: int|
        0 <= j < s.len() && j != i && s[j].invoice_id == s[i].invoice_id && s[j].is_active()
}

pub open spec fn with_status(p: Payment, status: PaymentStatus) -> Payment {
    Payment { status, ..p }
}

pub open spec fn with_tx_id(p: Payment, tx_id: String) -> Payment {
    Payment { tx_id: Some(tx_id), ..p }
}

/// The record [`PaymentStore::confirm`] writes: confirmed, with the
/// network-reported transaction id and sender recorded.
pub open spec fn confirmed_with(p: Payment, tx_id: String, sender_address: String) -> Payment {
    Payment {
        status: PaymentStatus::Confirmed,
        tx_id: Some(tx_id),
        sender_address: Some(sender_address),
        ..p
    }
}

/// What [`PaymentStore::create`] does, as a function of the collection:
/// the collection afterwards, paired with the result handed back.
pub open spec fn create_spec(s: Seq<Payment>, p: Payment) -> (Seq<Payment>, Result<
    (),
    StoreError,
>) {
    if p.is_active() && has_active_for(s, p.invoice_id) {
        (s, Err(StoreError::DuplicateActivePayment))
    } else if has_payment_id(s, p.id) {
        (s, Err(StoreError::DuplicateId))
    } else {
        (s.push(p), Ok(()))
    }
}

/// What [`PaymentStore::update_status`] does, as a function of the
/// collection.
pub open spec fn update_status_spec(s: Seq<Payment>, id: RecordId, status: PaymentStatus) -> (
    Seq<Payment>,
    Result<bool, StoreError>,
) {
    if !has_payment_id(s, id) {
        (s, Ok(false))
    } else {
        let i = payment_index(s, id);
        if s[i].status == status {
            (s, Ok(false))
        } else if with_status(s[i], status).is_active() && conflicting_active_elsewhere(s, i) {
            (s, Err(StoreError::DuplicateActivePayment))
        } else {
            (s.update(i, with_status(s[i], status)), Ok(true))
        }
    }
}

pub open spec fn payments_for_invoice(s: Seq<Payment>, invoice_id: RecordId) -> Seq<Payment> {
    s.filter(|p: Payment| p.invoice_id == invoice_id)
}

pub open spec fn payments_with_status(s: Seq<Payment>, status: PaymentStatus) -> Seq<Payment> {
    s.filter(|p: Payment| p.status == status)
}

pub open spec fn unique_payment_ids(s: Seq<Payment>) -> bool {
    forall|i: int, j: int| 0 <= i < j < s.len() ==> s[i].id != s[j].id
}

/// At most one accepted-or-confirmed payment per invoice.
pub open spec fn unique_active_per_invoice(s: Seq<Payment>) -> bool {
    forall|i: int, j: int|
        0 <= i < j < s.len() && s[i].invoice_id == s[j].invoice_id ==> !(s[i].is_active()
            && s[j].is_active())
}

// ---------------------------------------------------------------------
// Payment store.
// ---------------------------------------------------------------------

/// The payments collection.
pub struct PaymentStore {
    payments: Vec<Payment>,
}

impl View for PaymentStore {
    type V = Seq<Payment>;

    closed spec fn view(&self) -> Seq<Payment> {
        self.payments@
    }
}

impl PaymentStore {
    /// Identifiers are unique and no invoice has two active payments.
    pub open spec fn wf(self) -> bool {
        unique_payment_ids(self@) && unique_active_per_invoice(self@)
    }

    pub fn new() -> (s: PaymentStore)
        ensures
            s@ =~= Seq::<Payment>::empty(),
            s.wf(),
    {
        PaymentStore { payments: Vec::new() }
    }

    pub fn count(&self) -> (n: usize)
        ensures
            n == self@.len(),
    {
        self.payments.len()
    }

    /// Inserts a payment, atomically enforcing both constraints: no two
    /// records share an id, and no invoice gains a second accepted or
    /// confirmed payment.
    pub fn create(&mut self, payment: Payment) -> (r: Result<(), StoreError>)
        requires
            old(self).wf(),
        ensures
            final(self).wf(),
            final(self)@ == create_spec(old(self)@, payment).0,
            r == create_spec(old(self)@, payment).1,
    {
        let is_active = payment.status == PaymentStatus::Accepted || payment.status
            == PaymentStatus::Confirmed;
        let n = self.payments.len();
        let mut has_id = false;
        let mut has_active = false;
        let mut i: usize = 0;
        while i < n
            invariant
                *self == *old(self),
                n == self@.len(),
                i <= n,
                has_id <==> exists|j: int| 0 <= j < i && old(self)@[j].id == payment.id,
                has_active <==> exists|j: int|
                    0 <= j < i && old(self)@[j].invoice_id == payment.invoice_id && old(
                        self,
                    )@[j].is_active(),
            decreases n - i,
        {
            let p = &self.payments[i];
            if p.id == payment.id {
                has_id = true;
            }
            if p.invoice_id == payment.invoice_id && (p.status == PaymentStatus::Accepted
                || p.status == PaymentStatus::Confirmed) {
                has_active = true;
            }
            i = i + 1;
        }
        if is_active && has_active {
            return Err(StoreError::DuplicateActivePayment);
        }
        if has_id {
            return Err(StoreError::DuplicateId);
        }
        self.payments.push(payment);
        proof {
            let s = old(self)@;
            let t = self@;
            assert(t == s.push(payment));
            assert(unique_payment_ids(t)) by {
                assert forall|a: int, b: int| 0 <= a < b < t.len() implies t[a].id != t[b].id by {
                    if b < s.len() {
                        assert(s[a].id != s[b].id);
                    } else {
                        assert(t[b] == payment);
                        assert(t[a] == s[a]);
                    }
                }
            }
            assert(unique_active_per_invoice(t)) by {
                assert forall|a: int, b: int|
                    0 <= a < b < t.len() && t[a].invoice_id == t[b].invoice_id implies !(
                t[a].is_active() && t[b].is_active()) by {
                    if b < s.len() {
                        assert(s[a] == t[a] && s[b] == t[b]);
                    } else {
                        assert(t[b] == payment);
                        assert(t[a] == s[a]);
                    }
                }
            }
        }
        Ok(())
    }

    /// Looks a payment up by its identifier.
    pub fn find_by_id(&self, payment_id: RecordId) -> (r: Option<Payment>)
        requires
            self.wf(),
        ensures
            r is Some <==> has_payment_id(self@, payment_id),
            r matches Some(p) ==> p == self@[payment_index(self@, payment_id)] && p.id
                == payment_id,
    {
        let n = self.payments.len();
        let mut i: usize = 0;
        while i < n
            invariant
                self.wf(),
                n == self@.len(),
                i <= n,
                forall|j: int| 0 <= j < i ==> self@[j].id != payment_id,
            decreases n - i,
        {
            let p = &self.payments[i];
            if p.id == payment_id {
                proof {
                    assert(has_payment_id(self@, payment_id));
                    let k = payment_index(self@, payment_id);
                    assert(self@[k].id == payment_id);
                    assert(k == i) by {
                        if k < i {
                            assert(self@[k].id != payment_id);
                        } else if k > i {
                            assert(self@[i as int].id != self@[k].id);
                        }
                    }
                }
                return Some(p.clone());
            }
            i = i + 1;
        }
        None
    }

    /// Every payment recorded against an invoice, in insertion order.
    pub fn find_by_invoice_id(&self, invoice_id: RecordId) -> (r: Vec<Payment>)
        ensures
            r@ == payments_for_invoice(self@, invoice_id),
    {
        let n = self.payments.len();
        let mut out: Vec<Payment> = Vec::new();
        let mut i: usize = 0;
        while i < n
            invariant
                n == self@.len(),
                i <= n,
                out@ == payments_for_invoice(self@.take(i as int), invoice_id),
            decreases n - i,
        {
            let p = &self.payments[i];
            proof {
                reveal(Seq::filter);
                let pre = self@.take(i as int);
                let nxt = self@.take(i + 1);
                assert(nxt.drop_last() =~= pre);
                assert(nxt.last() == self@[i as int]);
            }
            if p.invoice_id == invoice_id {
                out.push(p.clone());
            }
            i = i + 1;
        }
        proof {
            reveal(Seq::filter);
            assert(self@.take(n as int) =~= self@);
        }
        out
    }

    /// The first payment carrying the given network transaction id.
    pub fn find_by_tx_id(&self, tx_id: &str) -> (r: Option<Payment>)
        ensures
            r is Some <==> exists|i: int|
                0 <= i < self@.len() && ((#[trigger] self@[i].tx_id) matches Some(t) && t@
                    == tx_id@),
            r matches Some(p) ==> exists|i: int|
                {
                    &&& 0 <= i < self@.len()
                    &&& #[trigger] self@[i] == p
                    &&& (p.tx_id matches Some(t) && t@ == tx_id@)
                    &&& forall|j: int|
                        0 <= j < i ==> !((#[trigger] self@[j].tx_id) matches Some(t) && t@
                            == tx_id@)
                },
    {
        let n = self.payments.len();
        let mut i: usize = 0;
        while i < n
            invariant
                n == self@.len(),
                i <= n,
                forall|j: int|
                    0 <= j < i ==> !((#[trigger] self@[j].tx_id) matches Some(t) && t@ == tx_id@),
            decreases n - i,
        {
            let p = &self.payments[i];
            match &p.tx_id {
                Some(t) => {
                    if str_eq(t.as_str(), tx_id) {
                        return Some(p.clone());
                    }
                },
                None => {},
            }
            i = i + 1;
        }
        None
    }

    /// Every payment currently in the given status, in insertion order.
    pub fn find_by_status(&self, status: PaymentStatus) -> (r: Vec<Payment>)
        ensures
            r@ == payments_with_status(self@, status),
    {
        let n = self.payments.len();
        let mut out: Vec<Payment> = Vec::new();
        let mut i: usize = 0;
        while i < n
            invariant
                n == self@.len(),
                i <= n,
                out@ == payments_with_status(self@.take(i as int), status),
            decreases n - i,
        {
            let p = &self.payments[i];
            proof {
                reveal(Seq::filter);
                let pre = self@.take(i as int);
                let nxt = self@.take(i + 1);
                assert(nxt.drop_last() =~= pre);
                assert(nxt.last() == self@[i as int]);
            }
            if p.status == status {
                out.push(p.clone());
            }
            i = i + 1;
        }
        proof {
            reveal(Seq::filter);
            assert(self@.take(n as int) =~= self@);
        }
        out
    }

    /// The active (accepted or confirmed) payment for an invoice, if
    /// one exists; under [`PaymentStore::wf`] there is at most one.
    pub fn find_accepted_or_confirmed_by_invoice(&self, invoice_id: RecordId) -> (r: Option<
        Payment,
    >)
        requires
            self.wf(),
        ensures
            r is Some <==> has_active_for(self@, invoice_id),
            r matches Some(p) ==> p == self@[active_index(self@, invoice_id)] && p.invoice_id
                == invoice_id && p.is_active(),
    {
        let n = self.payments.len();
        let mut i: usize = 0;
        while i < n
            invariant
                self.wf(),
                n == self@.len(),
                i <= n,
                forall|j: int|
                    0 <= j < i ==> !(self@[j].invoice_id == invoice_id
                        && (#[trigger] self@[j]).is_active()),
            decreases n - i,
        {
            let p = &self.payments[i];
            if p.invoice_id == invoice_id && (p.status == PaymentStatus::Accepted || p.status
                == PaymentStatus::Confirmed) {
                proof {
                    assert(has_active_for(self@, invoice_id));
                    let k = active_index(self@, invoice_id);
                    assert(self@[k].invoice_id == invoice_id && self@[k].is_active());
                    assert(k == i) by {
                        if k < i {
                            assert(!(self@[k].invoice_id == invoice_id && self@[k].is_active()));
                        } else if k > i {
                            assert(!(self@[i as int].is_active() && self@[k].is_active()));
                        }
                    }
                }
                return Some(p.clone());
            }
            i = i + 1;
        }
        None
    }

    /// Rewrites the status of a payment.  Mirrors the document store: a
    /// missing record and a no-op write both report `false`; a write
    /// that would give the invoice a second active payment is refused by
    /// the index, leaving the store unchanged.
    pub fn update_status(&mut self, payment_id: RecordId, status: PaymentStatus) -> (r: Result<
        bool,
        StoreError,
    >)
        requires
            old(self).wf(),
        ensures
            final(self).wf(),
            final(self)@ == update_status_spec(old(self)@, payment_id, status).0,
            r == update_status_spec(old(self)@, payment_id, status).1,
    {
        let n = self.payments.len();
        let mut i: usize = 0;
        while i < n
            invariant
                *self == *old(self),
                old(self).wf(),
                n == self@.len(),
                i <= n,
                forall|j: int| 0 <= j < i ==> self@[j].id != payment_id,
            decreases n - i,
        {
            if self.payments[i].id == payment_id {
                proof {
                    assert(has_payment_id(self@, payment_id));
                    let k = payment_index(self@, payment_id);
                    assert(self@[k].id == payment_id);
                    assert(k == i) by {
                        if k < i {
                            assert(self@[k].id != payment_id);
                        } else if k > i {
                            assert(self@[i as int].id != self@[k].id);
                        }
                    }
                }
                if self.payments[i].status == status {
                    return Ok(false);
                }
                let becomes_active = status == PaymentStatus::Accepted || status
                    == PaymentStatus::Confirmed;
                if becomes_active {
                    let invoice_id = self.payments[i].invoice_id;
                    let mut j: usize = 0;
                    while j < n
                        invariant
                            *self == *old(self),
                            old(self).wf(),
                            n == self@.len(),
                            i < n,
                            j <= n,
                            has_payment_id(self@, payment_id),
                            payment_index(self@, payment_id) == i as int,
                            self@[i as int].status != status,
                            with_status(self@[i as int], status).is_active(),
                            invoice_id == self@[i as int].invoice_id,
                            forall|t: int|
                                0 <= t < j && t != i ==> !(self@[t].invoice_id == invoice_id && (
                                #[trigger] self@[t]).is_active()),
                        decreases n - j,
                    {
                        if j != i {
                            let q = &self.payments[j];
                            if q.invoice_id == invoice_id && (q.status == PaymentStatus::Accepted
                                || q.status == PaymentStatus::Confirmed) {
                                return Err(StoreError::DuplicateActivePayment);
                            }
                        }
                        j = j + 1;
                    }
                }
                let updated = with_status_exec(&self.payments[i], status);
                self.payments.set(i, updated);
                proof {
                    let s = old(self)@;
                    let t = self@;
                    let pi = i as int;
                    assert(t == s.update(pi, with_status(s[pi], status)));
                    assert(unique_payment_ids(t)) by {
                        assert forall|a: int, b: int| 0 <= a < b < t.len() implies t[a].id
                            != t[b].id by {
                            assert(s[a].id == t[a].id && s[b].id == t[b].id);
                        }
                    }
                    assert(unique_active_per_invoice(t)) by {
                        assert forall|a: int, b: int|
                            0 <= a < b < t.len() && t[a].invoice_id == t[b].invoice_id implies !(
                        t[a].is_active() && t[b].is_active()) by {
                            if a != pi && b != pi {
                                assert(t[a] == s[a] && t[b] == s[b]);
                            } else {
                                let other = if a == pi {
                                    b
                                } else {
                                    a
                                };
                                assert(t[other] == s[other]);
                                if t[pi].is_active() && t[other].is_active() {
                                    assert(conflicting_active_elsewhere(s, pi));
                                }
                            }
                        }
                    }
                }
                return Ok(true);
            }
            i = i + 1;
        }
        Ok(false)
    }

    /// Records the network transaction id on a payment.  Reports whether
    /// a record was actually changed.
    pub fn update_tx_id(&mut self, payment_id: RecordId, tx_id: String) -> (r: bool)
        requires
            old(self).wf(),
        ensures
            final(self).wf(),
            !has_payment_id(old(self)@, payment_id) ==> r == false && final(self)@ == old(self)@,
            has_payment_id(old(self)@, payment_id) ==> {
                let i = payment_index(old(self)@, payment_id);
                let p = old(self)@[i];
                final(self)@ == old(self)@.update(i, with_tx_id(p, tx_id)) && (r <==> !(p.tx_id
                    matches Some(t) && t@ == tx_id@))
            },
    {
        let n = self.payments.len();
        let mut i: usize = 0;
        while i < n
            invariant
                *self == *old(self),
                old(self).wf(),
                n == self@.len(),
                i <= n,
                forall|j: int| 0 <= j < i ==> self@[j].id != payment_id,
            decreases n - i,
        {
            if self.payments[i].id == payment_id {
                proof {
                    assert(has_payment_id(self@, payment_id));
                    let k = payment_index(self@, payment_id);
                    assert(self@[k].id == payment_id);
                    assert(k == i) by {
                        if k < i {
                            assert(self@[k].id != payment_id);
                        } else if k > i {
                            assert(self@[i as int].id != self@[k].id);
                        }
                    }
                }
                let changed = match &self.payments[i].tx_id {
                    Some(t) => !str_eq(t.as_str(), tx_id.as_str()),
                    None => true,
                };
                let p = &self.payments[i];
                let updated = Payment {
                    id: p.id,
                    invoice_id: p.invoice_id,
                    status: p.status,
                    asset: p.asset,
                    amount: p.amount,
                    sender_address: p.sender_address.clone(),
                    received_at: p.received_at,
                    tx_id: Some(tx_id),
                };
                self.payments.set(i, updated);
                proof {
                    let s = old(self)@;
                    let t = self@;
                    let pi = i as int;
                    assert(t == s.update(pi, with_tx_id(s[pi], updated.tx_id->0)));
                    assert(unique_payment_ids(t) && unique_active_per_invoice(t)) by {
                        assert(forall|a: int|
                            0 <= a < t.len() ==> (#[trigger] t[a]).id == s[a].id && t[a].invoice_id
                                == s[a].invoice_id && t[a].is_active() == s[a].is_active());
                    }
                }
                return changed;
            }
            i = i + 1;
        }
        false
    }

    /// The atomic accepted-to-confirmed transition: records the
    /// network-reported transaction id and sender, and returns the
    /// confirmed record.  Returns `None` — leaving the store unchanged —
    /// when the payment is missing or no longer accepted, for instance
    /// because a racing caller already finalized it.
    pub fn confirm(&mut self, payment_id: RecordId, tx_id: String, sender_address: String) -> (r:
        Option<Payment>)
        requires
            old(self).wf(),
        ensures
            final(self).wf(),
            r is Some <==> has_payment_id(old(self)@, payment_id) && old(self)@[payment_index(
                old(self)@,
                payment_id,
            )].status == PaymentStatus::Accepted,
            r matches Some(p) ==> {
                let i = payment_index(old(self)@, payment_id);
                p == confirmed_with(old(self)@[i], tx_id, sender_address) && final(self)@ == old(
                    self,
                )@.update(i, p)
            },
            r is None ==> final(self)@ == old(self)@,
    {
        let n = self.payments.len();
        let mut i: usize = 0;
        while i < n
            invariant
                *self == *old(self),
                old(self).wf(),
                n == self@.len(),
                i <= n,
                forall|j: int| 0 <= j < i ==> self@[j].id != payment_id,
            decreases n - i,
        {
            if self.payments[i].id == payment_id {
                proof {
                    assert(has_payment_id(self@, payment_id));
                    let k = payment_index(self@, payment_id);
                    assert(self@[k].id == payment_id);
                    assert(k == i) by {
                        if k < i {
                            assert(self@[k].id != payment_id);
                        } else if k > i {
                            assert(self@[i as int].id != self@[k].id);
                        }
                    }
                }
                if !(self.payments[i].status == PaymentStatus::Accepted) {
                    return None;
                }
                let p = &self.payments[i];
                let confirmed = Payment {
                    id: p.id,
                    invoice_id: p.invoice_id,
                    status: PaymentStatus::Confirmed,
                    asset: p.asset,
                    amount: p.amount,
                    sender_address: Some(sender_address),
                    received_at: p.received_at,
                    tx_id: Some(tx_id),
                };
                let out = confirmed.clone();
                self.payments.set(i, confirmed);
                proof {
                    let s = old(self)@;
                    let t = self@;
                    assert(unique_payment_ids(t) && unique_active_per_invoice(t)) by {
                        assert(forall|a: int|
                            0 <= a < t.len() ==> (#[trigger] t[a]).id == s[a].id && t[a].invoice_id
                                == s[a].invoice_id && t[a].is_active() == s[a].is_active());
                    }
                }
                return Some(out);
            }
            i = i + 1;
        }
        None
    }
}

/// A copy of `p` with the given status.
fn with_status_exec(p: &Payment, status: PaymentStatus) -> (r: Payment)
    ensures
        r == with_status(*p, status),
{
    Payment {
        id: p.id,
        invoice_id: p.invoice_id,
        status,
        asset: p.asset,
        amount: p.amount,
        sender_address: p.sender_address.clone(),
        received_at: p.received_at,
        tx_id: p.tx_id.clone(),
    }
}

// ---------------------------------------------------------------------
// Spec views of an invoice collection.
// ---------------------------------------------------------------------

pub open spec fn has_invoice_id(s: Seq<Invoice>, id: RecordId) -> bool {
    exists|i: int| 0 <= i < s.len() && s[i].id == id
}

pub open spec fn invoice_index(s: Seq<Invoice>, id: RecordId) -> int {
    choose|i: int| 0 <= i < s.len() && s[i].id == id
}

pub open spec fn invoices_for_merchant(s: Seq<Invoice>, wallet_address: Seq<char>) -> Seq<
    Invoice,
> {
    s.filter(|inv: Invoice| inv.wallet_address@ == wallet_address)
}

pub open spec fn unique_invoice_ids(s: Seq<Invoice>) -> bool {
    forall|i: int, j: int| 0 <= i < j < s.len() ==> s[i].id != s[j].id
}

pub open spec fn invoice_with_status(inv: Invoice, status: InvoiceStatus) -> Invoice {
    Invoice { status, ..inv }
}

/// What [`InvoiceStore::update_status`] does, as a function of the
/// collection: the collection afterwards, paired with whether a record
/// was changed.
pub open spec fn invoice_update_status_spec(
    s: Seq<Invoice>,
    id: RecordId,
    status: InvoiceStatus,
) -> (Seq<Invoice>, bool) {
    if has_invoice_id(s, id) && status_advances(s[invoice_index(s, id)].status, status) {
        (s.update(invoice_index(s, id), invoice_with_status(s[invoice_index(s, id)], status)), true)
    } else {
        (s, false)
    }
}

// ---------------------------------------------------------------------
// Invoice store.
// ---------------------------------------------------------------------

/// The invoices collection.
pub struct InvoiceStore {
    invoices: Vec<Invoice>,
}

impl View for InvoiceStore {
    type V = Seq<Invoice>;

    closed spec fn view(&self) -> Seq<Invoice> {
        self.invoices@
    }
}

impl InvoiceStore {
    /// Identifiers are unique and every record fits the store's fields.
    pub open spec fn wf(self) -> bool {
        unique_invoice_ids(self@) && forall|i: int|
            0 <= i < self@.len() ==> (#[trigger] self@[i]).wf()
    }

    pub fn new() -> (s: InvoiceStore)
        ensures
            s@ =~= Seq::<Invoice>::empty(),
            s.wf(),
    {
        InvoiceStore { invoices: Vec::new() }
    }

    pub fn count(&self) -> (n: usize)
        ensures
            n == self@.len(),
    {
        self.invoices.len()
    }

    /// Inserts an invoice; rejects a duplicate identifier.
    pub fn create(&mut self, invoice: Invoice) -> (r: Result<(), StoreError>)
        requires
            old(self).wf(),
            invoice.wf(),
        ensures
            final(self).wf(),
            r is Ok <==> !has_invoice_id(old(self)@, invoice.id),
            r is Ok ==> final(self)@ == old(self)@.push(invoice),
            r is Err ==> final(self)@ == old(self)@ && r == Err::<(), StoreError>(
                StoreError::DuplicateId,
            ),
    {
        let n = self.invoices.len();
        let mut i: usize = 0;
        while i < n
            invariant
                *self == *old(self),
                old(self).wf(),
                n == self@.len(),
                i <= n,
                forall|j: int| 0 <= j < i ==> self@[j].id != invoice.id,
            decreases n - i,
        {
            if self.invoices[i].id == invoice.id {
                proof {
                    assert(has_invoice_id(self@, invoice.id));
                }
                return Err(StoreError::DuplicateId);
            }
            i = i + 1;
        }
        self.invoices.push(invoice);
        proof {
            let s = old(self)@;
            let t = self@;
            assert(unique_invoice_ids(t)) by {
                assert forall|a: int, b: int| 0 <= a < b < t.len() implies t[a].id != t[b].id by {
                    if b < s.len() {
                        assert(s[a].id != s[b].id);
                    } else {
                        assert(t[b] == invoice);
                        assert(t[a] == s[a]);
                    }
                }
            }
            assert forall|a: int| 0 <= a < t.len() implies (#[trigger] t[a]).wf() by {
                if a < s.len() {
                    assert(s[a].wf());
                } else {
                    assert(t[a] == invoice);
                }
            }
        }
        Ok(())
    }

    /// Looks an invoice up by its identifier.
    pub fn find_by_id(&self, invoice_id: RecordId) -> (r: Option<Invoice>)
        requires
            self.wf(),
        ensures
            r is Some <==> has_invoice_id(self@, invoice_id),
            r matches Some(inv) ==> inv == self@[invoice_index(self@, invoice_id)] && inv.id
                == invoice_id && inv.wf(),
    {
        let n = self.invoices.len();
        let mut i: usize = 0;
        while i < n
            invariant
                self.wf(),
                n == self@.len(),
                i <= n,
                forall|j: int| 0 <= j < i ==> self@[j].id != invoice_id,
            decreases n - i,
        {
            let inv = &self.invoices[i];
            if inv.id == invoice_id {
                proof {
                    assert(has_invoice_id(self@, invoice_id));
                    let k = invoice_index(self@, invoice_id);
                    assert(self@[k].id == invoice_id);
                    assert(k == i) by {
                        if k < i {
                            assert(self@[k].id != invoice_id);
                        } else if k > i {
                            assert(self@[i as int].id != self@[k].id);
                        }
                    }
                }
                return Some(inv.clone());
            }
            i = i + 1;
        }
        None
    }

    /// Every invoice of a merchant, in insertion order.
    pub fn find_by_merchant(&self, wallet_address: &str) -> (r: Vec<Invoice>)
        ensures
            r@ == invoices_for_merchant(self@, wallet_address@),
    {
        let n = self.invoices.len();
        let mut out: Vec<Invoice> = Vec::new();
        let mut i: usize = 0;
        while i < n
            invariant
                n == self@.len(),
                i <= n,
                out@ == invoices_for_merchant(self@.take(i as int), wallet_address@),
            decreases n - i,
        {
            let inv = &self.invoices[i];
            proof {
                reveal(Seq::filter);
                let pre = self@.take(i as int);
                let nxt = self@.take(i + 1);
                assert(nxt.drop_last() =~= pre);
                assert(nxt.last() == self@[i as int]);
            }
            if str_eq(inv.wallet_address.as_str(), wallet_address) {
                out.push(inv.clone());
            }
            i = i + 1;
        }
        proof {
            reveal(Seq::filter);
            assert(self@.take(n as int) =~= self@);
        }
        out
    }

    /// Advances the status of an invoice.  Reports whether a record was
    /// actually changed: a missing invoice, an unchanged status and an
    /// unlawful transition (`Expired` and `Settled` are terminal, and
    /// `Paid` only follows `Created`) all leave the store as it was and
    /// report `false`.
    pub fn update_status(&mut self, invoice_id: RecordId, status: InvoiceStatus) -> (r: bool)
        requires
            old(self).wf(),
        ensures
            final(self).wf(),
            final(self)@ == invoice_update_status_spec(old(self)@, invoice_id, status).0,
            r == invoice_update_status_spec(old(self)@, invoice_id, status).1,
    {
        let n = self.invoices.len();
        let mut i: usize = 0;
        while i < n
            invariant
                *self == *old(self),
                old(self).wf(),
                n == self@.len(),
                i <= n,
                forall|j: int| 0 <= j < i ==> self@[j].id != invoice_id,
            decreases n - i,
        {
            if self.invoices[i].id == invoice_id {
                proof {
                    assert(has_invoice_id(self@, invoice_id));
                    let k = invoice_index(self@, invoice_id);
                    assert(self@[k].id == invoice_id);
                    assert(k == i) by {
                        if k < i {
                            assert(self@[k].id != invoice_id);
                        } else if k > i {
                            assert(self@[i as int].id != self@[k].id);
                        }
                    }
                }
                let from = self.invoices[i].status;
                let lawful = match (from, status) {
                    (InvoiceStatus::Created, InvoiceStatus::Paid) => true,
                    (InvoiceStatus::Created, InvoiceStatus::Expired) => true,
                    (InvoiceStatus::Paid, InvoiceStatus::Settled) => true,
                    _ => false,
                };
                if !lawful {
                    return false;
                }
                let inv = &self.invoices[i];
                let updated = Invoice {
                    id: inv.id,
                    wallet_address: inv.wallet_address.clone(),
                    status,
                    amount: inv.amount,
                    settlement_asset: inv.settlement_asset,
                    merchant_order_id: inv.merchant_order_id.clone(),
                    created_at: inv.created_at,
                    expires_at: inv.expires_at,
                };
                self.invoices.set(i, updated);
                proof {
                    let s = old(self)@;
                    let t = self@;
                    assert(unique_invoice_ids(t)) by {
                        assert(forall|a: int|
                            0 <= a < t.len() ==> (#[trigger] t[a]).id == s[a].id);
                    }
                    assert forall|a: int| 0 <= a < t.len() implies (#[trigger] t[a]).wf() by {
                        assert(t[a].amount == s[a].amount);
                        assert(s[a].wf());
                    }
                }
                return true;
            }
            i = i + 1;
        }
        false
    }
}

// ---------------------------------------------------------------------
// The uniqueness invariant, stated across operations.
// ---------------------------------------------------------------------

/// Two active payments are submitted for the same invoice, in either
/// order: as soon as the first insert succeeds, the second is refused
/// with `DuplicateActivePayment` — exactly one ever reaches the accepted
/// or confirmed state.
pub proof fn lemma_unique_payment_constraint(s: Seq<Payment>, first: Payment, second: Payment)
    requires
        first.is_active(),
        second.is_active(),
        first.invoice_id == second.invoice_id,
        create_spec(s, first).1 is Ok,
    ensures
        create_spec(create_spec(s, first).0, second).1 == Err::<(), StoreError>(
            StoreError::DuplicateActivePayment,
        ),
{
    let t = create_spec(s, first).0;
    assert(t == s.push(first));
    assert(t[s.len() as int] == first);
    assert(has_active_for(t, second.invoice_id));
}

} // verus!
