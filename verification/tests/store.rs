use bolt_payment_gateway::ids::RecordId;
use bolt_payment_gateway::invoice::{Invoice, InvoiceStatus, SettlementAsset};
use bolt_payment_gateway::payment::{Payment, PaymentStatus, PaymentToken};
use bolt_payment_gateway::store::{InvoiceStore, PaymentStore, StoreError};

fn rid(value: u128) -> RecordId {
    RecordId { value }
}

fn invoice(id: u128, wallet: &str, status: InvoiceStatus, amount: u128) -> Invoice {
    Invoice {
        id: rid(id),
        wallet_address: wallet.to_string(),
        status,
        amount,
        settlement_asset: SettlementAsset::USD,
        merchant_order_id: format!("ORD-{id}"),
        created_at: 1_000,
        expires_at: Some(87_401_000),
    }
}

#[test]
fn test_unique_payment_constraint() {
    let mut repo = PaymentStore::new();
    let invoice_id = rid(7);

    // Create first accepted payment - should succeed
    let payment1 = Payment::new(rid(1), invoice_id, PaymentToken::SBTC, 1000, 0);
    let result1 = repo.create(payment1);
    assert!(result1.is_ok(), "First payment should be created successfully");

    // Try to create second accepted payment for same invoice - should fail
    let payment2 = Payment::new(rid(2), invoice_id, PaymentToken::SBTC, 2000, 0);
    let result2 = repo.create(payment2);
    assert!(
        result2.is_err(),
        "Second accepted payment should fail due to unique constraint"
    );

    // Create a rejected payment for the same invoice - should succeed
    let mut payment3 = Payment::new(rid(3), invoice_id, PaymentToken::SBTC, 3000, 0);
    payment3.status = PaymentStatus::Rejected;
    let result3 = repo.create(payment3);
    assert!(result3.is_ok(), "Rejected payment should be allowed");

    // Try to create confirmed payment for same invoice - should fail
    let mut payment4 = Payment::new(rid(4), invoice_id, PaymentToken::SBTC, 4000, 0);
    payment4.status = PaymentStatus::Confirmed;
    let result4 = repo.create(payment4);
    assert!(
        result4.is_err(),
        "Confirmed payment should fail due to unique constraint with existing accepted payment"
    );

    // Create accepted payment for different invoice - should succeed
    let different_invoice_id = rid(8);
    let payment5 = Payment::new(rid(5), different_invoice_id, PaymentToken::SBTC, 5000, 0);
    let result5 = repo.create(payment5);
    assert!(result5.is_ok(), "Payment for different invoice should succeed");
}

#[test]
fn test_duplicate_errors_are_typed() {
    let mut repo = PaymentStore::new();
    let p1 = Payment::new(rid(1), rid(7), PaymentToken::SBTC, 1000, 0);
    assert_eq!(repo.create(p1), Ok(()));

    let p2 = Payment::new(rid(2), rid(7), PaymentToken::SBTC, 2000, 0);
    assert_eq!(repo.create(p2), Err(StoreError::DuplicateActivePayment));

    let mut p3 = Payment::new(rid(1), rid(9), PaymentToken::SBTC, 3000, 0);
    p3.status = PaymentStatus::Rejected;
    assert_eq!(repo.create(p3), Err(StoreError::DuplicateId));
}

#[test]
fn test_confirm_transition() {
    let mut repo = PaymentStore::new();
    let p = Payment::new(rid(1), rid(7), PaymentToken::SBTC, 87324, 5);
    repo.create(p).unwrap();

    let confirmed = repo
        .confirm(rid(1), "txid-1".to_string(), "ST3QZ".to_string())
        .expect("accepted payment should confirm");
    assert_eq!(confirmed.status, PaymentStatus::Confirmed);
    assert_eq!(confirmed.tx_id, Some("txid-1".to_string()));
    assert_eq!(confirmed.sender_address, Some("ST3QZ".to_string()));
    assert_eq!(confirmed.amount, 87324);

    // A second confirmation finds the payment no longer accepted.
    assert!(repo.confirm(rid(1), "txid-2".to_string(), "ST3QZ".to_string()).is_none());
    // The store still holds the first confirmation's record.
    let stored = repo.find_by_id(rid(1)).unwrap();
    assert_eq!(stored.tx_id, Some("txid-1".to_string()));
}

#[test]
fn test_update_status_enforces_uniqueness() {
    let mut repo = PaymentStore::new();
    let p1 = Payment::new(rid(1), rid(7), PaymentToken::SBTC, 1000, 0);
    repo.create(p1).unwrap();
    let mut p2 = Payment::new(rid(2), rid(7), PaymentToken::SBTC, 2000, 0);
    p2.status = PaymentStatus::Rejected;
    repo.create(p2).unwrap();

    // Reviving the rejected payment would give the invoice two active
    // payments: the index refuses it.
    assert_eq!(
        repo.update_status(rid(2), PaymentStatus::Accepted),
        Err(StoreError::DuplicateActivePayment)
    );
    // Rejecting the accepted one is fine, and then the revival works.
    assert_eq!(repo.update_status(rid(1), PaymentStatus::Rejected), Ok(true));
    assert_eq!(repo.update_status(rid(2), PaymentStatus::Accepted), Ok(true));
    // No-op writes and unknown ids report false.
    assert_eq!(repo.update_status(rid(2), PaymentStatus::Accepted), Ok(false));
    assert_eq!(repo.update_status(rid(99), PaymentStatus::Rejected), Ok(false));
}

#[test]
fn test_payment_finders() {
    let mut repo = PaymentStore::new();
    let p1 = Payment::new(rid(1), rid(7), PaymentToken::SBTC, 1000, 0);
    let mut p2 = Payment::new(rid(2), rid(7), PaymentToken::SBTC, 2000, 0);
    p2.status = PaymentStatus::Rejected;
    let p3 = Payment::new(rid(3), rid(8), PaymentToken::USDT, 3000, 0);
    repo.create(p1).unwrap();
    repo.create(p2).unwrap();
    repo.create(p3).unwrap();

    assert_eq!(repo.count(), 3);
    assert_eq!(repo.find_by_id(rid(2)).unwrap().amount, 2000);
    assert!(repo.find_by_id(rid(99)).is_none());

    let for_invoice = repo.find_by_invoice_id(rid(7));
    assert_eq!(for_invoice.len(), 2);
    assert_eq!(for_invoice[0].id, rid(1));
    assert_eq!(for_invoice[1].id, rid(2));

    let rejected = repo.find_by_status(PaymentStatus::Rejected);
    assert_eq!(rejected.len(), 1);
    assert_eq!(rejected[0].id, rid(2));

    let active = repo.find_accepted_or_confirmed_by_invoice(rid(7)).unwrap();
    assert_eq!(active.id, rid(1));
    assert!(repo.find_accepted_or_confirmed_by_invoice(rid(9)).is_none());

    assert!(repo.update_tx_id(rid(3), "tx-abc".to_string()));
    let by_tx = repo.find_by_tx_id("tx-abc").unwrap();
    assert_eq!(by_tx.id, rid(3));
    assert!(repo.find_by_tx_id("tx-missing").is_none());
}

#[test]
fn test_invoice_store_basics() {
    let mut repo = InvoiceStore::new();
    repo.create(invoice(1, "wallet-a", InvoiceStatus::Created, 4990)).unwrap();
    repo.create(invoice(2, "wallet-a", InvoiceStatus::Paid, 100)).unwrap();
    repo.create(invoice(3, "wallet-b", InvoiceStatus::Created, 200)).unwrap();
    assert_eq!(
        repo.create(invoice(1, "wallet-c", InvoiceStatus::Created, 5)),
        Err(StoreError::DuplicateId)
    );

    assert_eq!(repo.count(), 3);
    assert_eq!(repo.find_by_id(rid(1)).unwrap().amount, 4990);
    assert!(repo.find_by_id(rid(9)).is_none());

    let mine = repo.find_by_merchant("wallet-a");
    assert_eq!(mine.len(), 2);
    assert_eq!(mine[0].id, rid(1));
    assert_eq!(mine[1].id, rid(2));
}

#[test]
fn test_invoice_status_only_advances() {
    let mut repo = InvoiceStore::new();
    repo.create(invoice(1, "w", InvoiceStatus::Created, 100)).unwrap();

    // Created -> Paid -> Settled is the lawful path.
    assert!(repo.update_status(rid(1), InvoiceStatus::Paid));
    assert!(repo.update_status(rid(1), InvoiceStatus::Settled));
    // Settled is terminal.
    assert!(!repo.update_status(rid(1), InvoiceStatus::Created));
    assert!(!repo.update_status(rid(1), InvoiceStatus::Paid));
    assert!(!repo.update_status(rid(1), InvoiceStatus::Expired));

    repo.create(invoice(2, "w", InvoiceStatus::Created, 100)).unwrap();
    // Created -> Expired, and Expired is terminal.
    assert!(repo.update_status(rid(2), InvoiceStatus::Expired));
    assert!(!repo.update_status(rid(2), InvoiceStatus::Paid));

    // Unknown invoice: nothing changed.
    assert!(!repo.update_status(rid(9), InvoiceStatus::Paid));
}
