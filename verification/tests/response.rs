use margin_trade::{DeserializationError, Field, FillInfo, RawFill, RawTransaction, Transaction};

fn text(s: &str) -> Option<String> {
    Some(s.to_string())
}

fn raw_fill() -> RawFill {
    RawFill {
        price: text("4000.00000000"),
        qty: text("1.00000000"),
        commission: text("4.00000000"),
        commission_asset: text("USDT"),
        trade_id: Some(56),
    }
}

fn acknowledgement() -> RawTransaction {
    RawTransaction {
        symbol: text("BTCUSDT"),
        order_id: Some(28),
        order_list_id: None,
        client_order_id: text("6gCrw2kRUAF9CvJDGP16IP"),
        transact_time: Some(1507725176595),
        price: text("1.00000000"),
        orig_qty: text("10.00000000"),
        executed_qty: text("10.00000000"),
        cummulative_quote_qty: text("10.00000000"),
        stop_price: None,
        status: text("FILLED"),
        time_in_force: text("GTC"),
        order_type: text("MARKET"),
        side: text("SELL"),
        fills: None,
        is_isolated: Some(true),
        margin_buy_borrow_amount: None,
        margin_borrow_asset: None,
    }
}

#[test]
fn a_complete_acknowledgement_is_accepted() {
    let transaction = Transaction::from_raw(&acknowledgement()).unwrap();
    assert_eq!(transaction.symbol, "BTCUSDT");
    assert_eq!(transaction.order_id, 28);
    assert_eq!(transaction.order_list_id, None);
    assert_eq!(transaction.client_order_id, "6gCrw2kRUAF9CvJDGP16IP");
    assert_eq!(transaction.transact_time, 1507725176595);
    assert_eq!(transaction.price.as_str(), "1");
    assert_eq!(transaction.orig_qty.as_str(), "10");
    assert_eq!(transaction.executed_qty.as_str(), "10");
    assert_eq!(transaction.cummulative_quote_qty.as_str(), "10");
    assert_eq!(transaction.stop_price.as_str(), "0");
    assert_eq!(transaction.status, "FILLED");
    assert_eq!(transaction.time_in_force, "GTC");
    assert_eq!(transaction.order_type, "MARKET");
    assert_eq!(transaction.side, "SELL");
    assert!(transaction.fills.is_none());
    assert!(transaction.is_isolated);
    assert!(transaction.margin_buy_borrow_amount.is_none());
    assert!(transaction.margin_borrow_asset.is_none());
}

#[test]
fn optional_fields_are_taken_where_they_come() {
    let mut raw = acknowledgement();
    raw.order_list_id = Some(-1);
    raw.stop_price = text("0.50");
    raw.fills = Some(vec![raw_fill(), RawFill { trade_id: None, ..raw_fill() }]);
    raw.margin_buy_borrow_amount = text("5");
    raw.margin_borrow_asset = text("BTC");
    let transaction = Transaction::from_raw(&raw).unwrap();
    assert_eq!(transaction.order_list_id, Some(-1));
    assert_eq!(transaction.stop_price.as_str(), "0.5");
    assert_eq!(transaction.margin_buy_borrow_amount.unwrap().as_str(), "5");
    assert_eq!(transaction.margin_borrow_asset.unwrap(), "BTC");
    let fills = transaction.fills.unwrap();
    assert_eq!(fills.len(), 2);
    assert_eq!(fills[0].price.as_str(), "4000");
    assert_eq!(fills[0].qty.as_str(), "1");
    assert_eq!(fills[0].commission.as_str(), "4");
    assert_eq!(fills[0].commission_asset, "USDT");
    assert_eq!(fills[0].trade_id, Some(56));
    assert_eq!(fills[1].trade_id, None);
}

#[test]
fn an_empty_list_of_fills_is_a_list() {
    let mut raw = acknowledgement();
    raw.fills = Some(Vec::new());
    let transaction = Transaction::from_raw(&raw).unwrap();
    assert_eq!(transaction.fills.unwrap().len(), 0);
}

#[test]
fn quoted_and_unquoted_amounts_give_the_same_transaction() {
    let quoted = acknowledgement();
    let mut unquoted = acknowledgement();
    unquoted.price = text(&1.0f64.to_string());
    unquoted.orig_qty = text(&10.0f64.to_string());
    unquoted.executed_qty = text(&10.0f64.to_string());
    unquoted.cummulative_quote_qty = text(&10.0f64.to_string());
    let a = Transaction::from_raw(&quoted).unwrap();
    let b = Transaction::from_raw(&unquoted).unwrap();
    assert_eq!(a.price.as_str(), b.price.as_str());
    assert_eq!(a.orig_qty.as_str(), b.orig_qty.as_str());
    assert_eq!(a.executed_qty.as_str(), b.executed_qty.as_str());
    assert_eq!(a.cummulative_quote_qty.as_str(), b.cummulative_quote_qty.as_str());
}

#[test]
fn a_missing_order_id_fails_the_acknowledgement() {
    let mut raw = acknowledgement();
    raw.order_id = None;
    assert_eq!(
        Transaction::from_raw(&raw).unwrap_err(),
        DeserializationError::Missing(Field::OrderId)
    );
}

#[test]
fn each_required_field_is_required() {
    let cases: Vec<(fn(&mut RawTransaction), Field)> = vec![
        (|r| r.symbol = None, Field::Symbol),
        (|r| r.order_id = None, Field::OrderId),
        (|r| r.client_order_id = None, Field::ClientOrderId),
        (|r| r.transact_time = None, Field::TransactTime),
        (|r| r.price = None, Field::Price),
        (|r| r.orig_qty = None, Field::OrigQty),
        (|r| r.executed_qty = None, Field::ExecutedQty),
        (|r| r.cummulative_quote_qty = None, Field::CummulativeQuoteQty),
        (|r| r.status = None, Field::Status),
        (|r| r.time_in_force = None, Field::TimeInForce),
        (|r| r.order_type = None, Field::Type),
        (|r| r.side = None, Field::Side),
        (|r| r.is_isolated = None, Field::IsIsolated),
    ];
    for (spoil, field) in cases {
        let mut raw = acknowledgement();
        spoil(&mut raw);
        assert_eq!(
            Transaction::from_raw(&raw).unwrap_err(),
            DeserializationError::Missing(field)
        );
    }
}

#[test]
fn each_amount_must_be_a_decimal_number() {
    let cases: Vec<(fn(&mut RawTransaction), Field)> = vec![
        (|r| r.price = Some("abc".to_string()), Field::Price),
        (|r| r.orig_qty = Some("".to_string()), Field::OrigQty),
        (|r| r.executed_qty = Some("1e3".to_string()), Field::ExecutedQty),
        (|r| r.cummulative_quote_qty = Some("1.".to_string()), Field::CummulativeQuoteQty),
        (|r| r.stop_price = Some("NaN".to_string()), Field::StopPrice),
        (|r| r.margin_buy_borrow_amount = Some("five".to_string()), Field::MarginBuyBorrowAmount),
    ];
    for (spoil, field) in cases {
        let mut raw = acknowledgement();
        spoil(&mut raw);
        assert_eq!(
            Transaction::from_raw(&raw).unwrap_err(),
            DeserializationError::NotDecimal(field)
        );
    }
}

#[test]
fn the_first_defect_is_the_one_reported() {
    let mut raw = acknowledgement();
    raw.side = None;
    raw.price = text("x");
    raw.is_isolated = None;
    assert_eq!(
        Transaction::from_raw(&raw).unwrap_err(),
        DeserializationError::NotDecimal(Field::Price)
    );
    raw.symbol = None;
    assert_eq!(
        Transaction::from_raw(&raw).unwrap_err(),
        DeserializationError::Missing(Field::Symbol)
    );
}

#[test]
fn a_defect_in_a_fill_fails_the_acknowledgement() {
    let mut raw = acknowledgement();
    raw.fills = Some(vec![
        raw_fill(),
        RawFill { commission: text("?"), commission_asset: None, ..raw_fill() },
        RawFill { price: None, ..raw_fill() },
    ]);
    assert_eq!(
        Transaction::from_raw(&raw).unwrap_err(),
        DeserializationError::NotDecimal(Field::FillCommission)
    );
    raw.is_isolated = None;
    assert_eq!(
        Transaction::from_raw(&raw).unwrap_err(),
        DeserializationError::NotDecimal(Field::FillCommission)
    );
    raw.side = None;
    assert_eq!(
        Transaction::from_raw(&raw).unwrap_err(),
        DeserializationError::Missing(Field::Side)
    );
}

#[test]
fn a_fill_is_accepted_as_a_whole_or_not_at_all() {
    let fill = FillInfo::from_raw(&raw_fill()).unwrap();
    assert_eq!(fill.price.as_str(), "4000");
    assert_eq!(fill.qty.as_str(), "1");
    assert_eq!(fill.commission.as_str(), "4");
    assert_eq!(fill.commission_asset, "USDT");
    assert_eq!(fill.trade_id, Some(56));
    let cases: Vec<(fn(&mut RawFill), DeserializationError)> = vec![
        (|f| f.price = None, DeserializationError::Missing(Field::FillPrice)),
        (|f| f.price = Some("-".to_string()), DeserializationError::NotDecimal(Field::FillPrice)),
        (|f| f.qty = None, DeserializationError::Missing(Field::FillQty)),
        (|f| f.qty = Some(".1".to_string()), DeserializationError::NotDecimal(Field::FillQty)),
        (|f| f.commission = None, DeserializationError::Missing(Field::FillCommission)),
        (|f| f.commission_asset = None, DeserializationError::Missing(Field::FillCommissionAsset)),
    ];
    for (spoil, error) in cases {
        let mut raw = raw_fill();
        spoil(&mut raw);
        assert_eq!(FillInfo::from_raw(&raw).unwrap_err(), error);
    }
}
