use bolt_payment_gateway::dto::{
    convert_string_to_object_id, default_limit, CreateInvoiceRequest, InvoiceResponse,
    ListInvoicesQuery, PaymentResponse, QuoteQuery,
};
use bolt_payment_gateway::ids::RecordId;
use bolt_payment_gateway::invoice::{Invoice, InvoiceStatus, SettlementAsset};
use bolt_payment_gateway::payment::{Payment, PaymentToken};
use bolt_payment_gateway::service::{create_invoice, get_quote, list_invoices};

fn rid(value: u128) -> RecordId {
    RecordId { value }
}

fn create_request(amount: &str) -> CreateInvoiceRequest {
    CreateInvoiceRequest {
        amount: amount.to_string(),
        settlement_asset: SettlementAsset::USD,
        merchant_order_id: "ORD-12345".to_string(),
    }
}

fn sample_invoice(id: u128, status: InvoiceStatus, order: &str, created_at: u64) -> Invoice {
    Invoice {
        id: rid(id),
        wallet_address: "wallet-a".to_string(),
        status,
        amount: 4990,
        settlement_asset: SettlementAsset::USD,
        merchant_order_id: order.to_string(),
        created_at,
        expires_at: None,
    }
}

fn plain_query() -> ListInvoicesQuery {
    ListInvoicesQuery {
        status: None,
        merchant_order_id: None,
        from_date: None,
        to_date: None,
        limit: default_limit(),
        offset: 0,
    }
}

#[test]
fn test_create_invoice_builds_record() {
    let inv = create_invoice("wallet-a".to_string(), create_request("49.90"), rid(1), 1_000)
        .unwrap();
    assert_eq!(inv.id, rid(1));
    assert_eq!(inv.wallet_address, "wallet-a");
    assert_eq!(inv.status, InvoiceStatus::Created);
    assert_eq!(inv.amount, 4990);
    assert_eq!(inv.merchant_order_id, "ORD-12345");
    assert_eq!(inv.created_at, 1_000);
    // 24-hour validity.
    assert_eq!(inv.expires_at, Some(1_000 + 86_400_000));
}

#[test]
fn test_create_invoice_rejects_bad_amounts() {
    let err = create_invoice("w".to_string(), create_request("abc"), rid(1), 0).unwrap_err();
    assert_eq!(err.error, "invalid_amount_format");
    let err = create_invoice("w".to_string(), create_request("1.2.3"), rid(1), 0).unwrap_err();
    assert_eq!(err.error, "invalid_amount_format");
    let err = create_invoice("w".to_string(), create_request("0"), rid(1), 0).unwrap_err();
    assert_eq!(err.error, "invalid_amount");
    let err = create_invoice("w".to_string(), create_request("0.00"), rid(1), 0).unwrap_err();
    assert_eq!(err.error, "invalid_amount");
}

#[test]
fn test_list_invoices_filters_and_pages() {
    let invoices = vec![
        sample_invoice(1, InvoiceStatus::Paid, "ORD-1", 100),
        sample_invoice(2, InvoiceStatus::Created, "ORD-2", 200),
        sample_invoice(3, InvoiceStatus::Expired, "ORD-3", 300),
        sample_invoice(4, InvoiceStatus::Created, "ORD-4", 400),
    ];

    let all = list_invoices(&invoices, &plain_query()).unwrap();
    assert_eq!(all.total, 4);
    assert_eq!(all.items.len(), 4);
    assert_eq!(all.limit, 20);

    let mut by_status = plain_query();
    by_status.status = Some(InvoiceStatus::Created);
    let page = list_invoices(&invoices, &by_status).unwrap();
    assert_eq!(page.total, 2);
    assert_eq!(page.items[0].id, rid(2));
    assert_eq!(page.items[1].id, rid(4));

    let mut by_order = plain_query();
    by_order.merchant_order_id = Some("ORD-3".to_string());
    let page = list_invoices(&invoices, &by_order).unwrap();
    assert_eq!(page.total, 1);
    assert_eq!(page.items[0].id, rid(3));

    let mut by_date = plain_query();
    by_date.from_date = Some(200);
    by_date.to_date = Some(300);
    let page = list_invoices(&invoices, &by_date).unwrap();
    assert_eq!(page.total, 2);
    assert_eq!(page.items[0].id, rid(2));
    assert_eq!(page.items[1].id, rid(3));

    let mut paged = plain_query();
    paged.limit = 2;
    paged.offset = 1;
    let page = list_invoices(&invoices, &paged).unwrap();
    assert_eq!(page.total, 4);
    assert_eq!(page.items.len(), 2);
    assert_eq!(page.items[0].id, rid(2));
    assert_eq!(page.items[1].id, rid(3));

    let mut beyond = plain_query();
    beyond.offset = 10;
    let page = list_invoices(&invoices, &beyond).unwrap();
    assert_eq!(page.total, 4);
    assert!(page.items.is_empty());
}

#[test]
fn test_list_invoices_rejects_large_limit() {
    let mut q = plain_query();
    q.limit = 101;
    let err = list_invoices(&Vec::new(), &q).unwrap_err();
    assert_eq!(err.error, "invalid_limit");
}

#[test]
fn test_get_quote_computes_spread_amount() {
    let query = QuoteQuery {
        from: "BTC".to_string(),
        to: "USD".to_string(),
        to_amount: "49.90".to_string(),
    };
    let quote = get_quote(&query, 6_000_000, 5_000).unwrap();
    assert_eq!(quote.from_asset, "BTC");
    assert_eq!(quote.to_asset, "USD");
    // floor(4990 * 1e8 / 6e6) = 83166; 1.0% spread adds 831.
    assert_eq!(quote.from_amount, "83997");
    assert_eq!(quote.to_amount, "49.90");
    assert_eq!(quote.unit_price, "60000.00");
    assert_eq!(quote.spread, "1%");
    assert_eq!(quote.refreshed_at_ms, 5_000);
}

#[test]
fn test_get_quote_accepts_lowercase_codes() {
    let query = QuoteQuery {
        from: "btc".to_string(),
        to: "usd".to_string(),
        to_amount: "1.00".to_string(),
    };
    let quote = get_quote(&query, 6_000_000, 0).unwrap();
    assert_eq!(quote.from_asset, "BTC");
    assert_eq!(quote.to_asset, "USD");
}

#[test]
fn test_get_quote_rejections() {
    let mut query = QuoteQuery {
        from: "ETH".to_string(),
        to: "USD".to_string(),
        to_amount: "1.00".to_string(),
    };
    assert_eq!(get_quote(&query, 6_000_000, 0).unwrap_err().error, "unsupported_from_asset");

    query.from = "BTC".to_string();
    query.to = "BRL".to_string();
    assert_eq!(get_quote(&query, 6_000_000, 0).unwrap_err().error, "unsupported_to_asset");

    query.to = "USD".to_string();
    query.to_amount = "abc".to_string();
    assert_eq!(get_quote(&query, 6_000_000, 0).unwrap_err().error, "invalid_amount");

    query.to_amount = "0".to_string();
    assert_eq!(get_quote(&query, 6_000_000, 0).unwrap_err().error, "invalid_amount");

    query.to_amount = "1.00".to_string();
    assert_eq!(get_quote(&query, 0, 0).unwrap_err().error, "price_unavailable");
}

#[test]
fn test_invoice_response_rendering() {
    let inv = sample_invoice(0x507f1f77bcf86cd799439011, InvoiceStatus::Created, "ORD-1", 42);
    let resp = InvoiceResponse::from(inv);
    assert_eq!(resp.id, "507f1f77bcf86cd799439011");
    assert_eq!(resp.amount, "49.90");
    assert_eq!(resp.status, InvoiceStatus::Created);
    assert_eq!(
        resp.checkout_url,
        "https://test.boltproto.org/checkout/507f1f77bcf86cd799439011"
    );
    assert_eq!(resp.created_at, 42);
}

#[test]
fn test_payment_response_rendering() {
    let mut p = Payment::new(rid(0xabc), rid(0xdef), PaymentToken::SBTC, 87324, 42);
    p.tx_id = Some("tx-1".to_string());
    let resp = PaymentResponse::from(p);
    assert_eq!(resp.id, "000000000000000000000abc");
    assert_eq!(resp.invoice_id, "000000000000000000000def");
    assert_eq!(resp.amount, "87324");
    assert_eq!(resp.asset, PaymentToken::SBTC);
    assert_eq!(resp.tx_id, Some("tx-1".to_string()));
}

#[test]
fn test_object_id_parsing_for_routes() {
    assert!(convert_string_to_object_id("507f1f77bcf86cd799439011").is_ok());
    assert_eq!(
        convert_string_to_object_id("xyz").unwrap_err().error,
        "invalid_object_id"
    );
}
