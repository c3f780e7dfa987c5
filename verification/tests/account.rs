use margin_trade::{
    prepare, Account, Decimal, MarginAccount, OrderIntent, OrderQuoteQuantityRequest,
    OrderRequest, OrderSide, OrderType, SideEffectType, TimeInForce, ValidationError,
};

fn amount(text: &str) -> Decimal {
    Decimal::parse(text).unwrap()
}

fn pairs(list: &[(&str, &str)]) -> Vec<(String, String)> {
    list.iter().map(|(name, value)| (name.to_string(), value.to_string())).collect()
}

#[test]
fn custom_order_on_a_general_account() {
    let account = Account { recv_window: 5000 };
    let request = account
        .margin_custom_order(
            "BTCUSDT",
            amount("1.5"),
            amount("20000"),
            None,
            OrderSide::Buy,
            OrderType::Limit,
            TimeInForce::GTC,
            None,
            false,
            SideEffectType::NoSideEffect,
        )
        .unwrap();
    assert_eq!(request.recv_window, 5000);
    assert_eq!(
        request.parameters.into_entries(),
        pairs(&[
            ("isIsolated", "FALSE"),
            ("price", "20000"),
            ("quantity", "1.5"),
            ("side", "BUY"),
            ("sideEffectType", "NO_SIDE_EFFECT"),
            ("symbol", "BTCUSDT"),
            ("timeInForce", "GTC"),
            ("type", "LIMIT"),
        ])
    );
}

#[test]
fn custom_order_on_a_general_account_keeps_the_time_in_force() {
    let account = Account { recv_window: 1 };
    let request = account
        .margin_custom_order(
            "BTCUSDT",
            amount("2"),
            amount("30000.10"),
            Some(amount("29000")),
            OrderSide::Sell,
            OrderType::TakeProfitLimit,
            TimeInForce::IOC,
            Some("id-1".to_string()),
            true,
            SideEffectType::AutoRepay,
        )
        .unwrap();
    assert_eq!(
        request.parameters.into_entries(),
        pairs(&[
            ("isIsolated", "TRUE"),
            ("newClientOrderId", "id-1"),
            ("price", "30000.1"),
            ("quantity", "2"),
            ("side", "SELL"),
            ("sideEffectType", "AUTO_REPAY"),
            ("stopPrice", "29000"),
            ("symbol", "BTCUSDT"),
            ("timeInForce", "IOC"),
            ("type", "TAKE_PROFIT_LIMIT"),
        ])
    );
}

#[test]
fn custom_order_on_a_margin_account_is_good_till_cancelled() {
    let account = MarginAccount { recv_window: 2500 };
    let request = account
        .margin_custom_order(
            "BTCUSDT",
            amount("1.5"),
            amount("20000"),
            None,
            OrderSide::Buy,
            OrderType::Limit,
            None,
            false,
            SideEffectType::NoSideEffect,
        )
        .unwrap();
    assert_eq!(request.recv_window, 2500);
    assert_eq!(request.parameters.get("timeInForce"), Some("GTC"));
    assert_eq!(request.parameters.get("price"), Some("20000"));
}

#[test]
fn custom_order_without_a_price_on_a_margin_account() {
    let account = MarginAccount { recv_window: 2500 };
    let request = account
        .margin_custom_order(
            "BTCUSDT",
            amount("1.5"),
            Decimal::zero(),
            None,
            OrderSide::Buy,
            OrderType::Market,
            None,
            false,
            SideEffectType::MarginBuy,
        )
        .unwrap();
    assert_eq!(
        request.parameters.into_entries(),
        pairs(&[
            ("isIsolated", "FALSE"),
            ("quantity", "1.5"),
            ("side", "BUY"),
            ("sideEffectType", "MARGIN_BUY"),
            ("symbol", "BTCUSDT"),
            ("type", "MARKET"),
        ])
    );
}

#[test]
fn market_sell_for_a_quote_quantity() {
    let expected = pairs(&[
        ("isIsolated", "TRUE"),
        ("quoteOrderQty", "100"),
        ("side", "SELL"),
        ("sideEffectType", "AUTO_REPAY"),
        ("symbol", "ETHUSDT"),
        ("type", "MARKET"),
    ]);
    let general = Account { recv_window: 5000 }
        .margin_market_sell_using_quote_quantity(
            "ETHUSDT",
            amount("100"),
            true,
            SideEffectType::AutoRepay,
        )
        .unwrap();
    assert_eq!(general.recv_window, 5000);
    assert_eq!(general.parameters.into_entries(), expected);
    let margin = MarginAccount { recv_window: 6000 }
        .market_sell_using_quote_quantity("ETHUSDT", amount("100"), true, SideEffectType::AutoRepay)
        .unwrap();
    assert_eq!(margin.recv_window, 6000);
    assert_eq!(margin.parameters.into_entries(), expected);
}

#[test]
fn market_buy_for_a_quote_quantity() {
    let expected = pairs(&[
        ("isIsolated", "FALSE"),
        ("quoteOrderQty", "250.75"),
        ("side", "BUY"),
        ("sideEffectType", "MARGIN_BUY"),
        ("symbol", "ETHUSDT"),
        ("type", "MARKET"),
    ]);
    let general = Account { recv_window: 5000 }
        .margin_market_buy_using_quote_quantity(
            "ETHUSDT",
            amount("250.750"),
            false,
            SideEffectType::MarginBuy,
        )
        .unwrap();
    assert_eq!(general.parameters.into_entries(), expected);
    let margin = MarginAccount { recv_window: 5000 }
        .market_buy_using_quote_quantity(
            "ETHUSDT",
            amount("250.750"),
            false,
            SideEffectType::MarginBuy,
        )
        .unwrap();
    assert_eq!(margin.parameters.into_entries(), expected);
}

#[test]
fn an_empty_symbol_is_turned_down() {
    let account = MarginAccount { recv_window: 5000 };
    let refused = account.market_buy_using_quote_quantity(
        "",
        amount("100"),
        false,
        SideEffectType::NoSideEffect,
    );
    assert_eq!(refused.unwrap_err(), ValidationError::EmptySymbol);
}

#[test]
fn a_quantity_that_is_not_positive_is_turned_down() {
    let account = Account { recv_window: 5000 };
    for quantity in ["0", "-0", "0.000", "-1", "-0.5"] {
        let refused = account.margin_market_sell_using_quote_quantity(
            "ETHUSDT",
            amount(quantity),
            false,
            SideEffectType::NoSideEffect,
        );
        assert_eq!(refused.unwrap_err(), ValidationError::NonPositiveQuantity);
        let refused = account.margin_custom_order(
            "ETHUSDT",
            amount(quantity),
            amount("10"),
            None,
            OrderSide::Buy,
            OrderType::Limit,
            TimeInForce::GTC,
            None,
            false,
            SideEffectType::NoSideEffect,
        );
        assert_eq!(refused.unwrap_err(), ValidationError::NonPositiveQuantity);
    }
}

#[test]
fn an_empty_symbol_is_reported_before_a_bad_quantity() {
    let account = MarginAccount { recv_window: 5000 };
    let refused = account.margin_custom_order(
        "",
        amount("-1"),
        Decimal::zero(),
        None,
        OrderSide::Buy,
        OrderType::Market,
        None,
        false,
        SideEffectType::NoSideEffect,
    );
    assert_eq!(refused.unwrap_err(), ValidationError::EmptySymbol);
}

#[test]
fn validate_accepts_a_sound_intent() {
    let order = OrderQuoteQuantityRequest {
        symbol: "ETHUSDT".to_string(),
        quote_order_qty: amount("0.00000001"),
        price: Decimal::zero(),
        order_side: OrderSide::Buy,
        time_in_force: TimeInForce::GTC,
        new_client_order_id: None,
        is_isolated: false,
        side_effect_type: SideEffectType::NoSideEffect,
    };
    assert_eq!(OrderIntent::QuoteQuantity(order).validate(), Ok(()));
}

#[test]
fn validate_reports_each_defect() {
    let order = |symbol: &str, qty: &str| OrderRequest {
        symbol: symbol.to_string(),
        qty: amount(qty),
        price: Decimal::zero(),
        stop_price: None,
        order_side: OrderSide::Buy,
        order_type: OrderType::Market,
        time_in_force: TimeInForce::GTC,
        new_client_order_id: None,
        is_isolated: false,
        side_effect_type: SideEffectType::NoSideEffect,
    };
    assert_eq!(OrderIntent::Custom(order("BTCUSDT", "1")).validate(), Ok(()));
    assert_eq!(
        OrderIntent::Custom(order("", "1")).validate(),
        Err(ValidationError::EmptySymbol)
    );
    assert_eq!(
        OrderIntent::Custom(order("BTCUSDT", "0")).validate(),
        Err(ValidationError::NonPositiveQuantity)
    );
    assert_eq!(
        OrderIntent::Custom(order("BTCUSDT", "-3")).validate(),
        Err(ValidationError::NonPositiveQuantity)
    );
}

#[test]
fn prepare_builds_the_request_of_a_sound_intent() {
    let order = OrderRequest {
        symbol: "BTCUSDT".to_string(),
        qty: amount("1"),
        price: Decimal::zero(),
        stop_price: Some(amount("9.5")),
        order_side: OrderSide::Sell,
        order_type: OrderType::StopLoss,
        time_in_force: TimeInForce::GTC,
        new_client_order_id: None,
        is_isolated: false,
        side_effect_type: SideEffectType::NoSideEffect,
    };
    let request = prepare(OrderIntent::Custom(order), 10000).unwrap();
    assert_eq!(request.recv_window, 10000);
    assert_eq!(
        request.parameters.into_entries(),
        pairs(&[
            ("isIsolated", "FALSE"),
            ("quantity", "1"),
            ("side", "SELL"),
            ("sideEffectType", "NO_SIDE_EFFECT"),
            ("stopPrice", "9.5"),
            ("symbol", "BTCUSDT"),
            ("type", "STOP_LOSS"),
        ])
    );
}
