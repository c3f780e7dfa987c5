use margin_trade::{
    build_parameters, Account, CanonicalParameterSet, Decimal, MarginAccount, OrderIntent,
    OrderQuoteQuantityRequest, OrderRequest, OrderSide, OrderType, SideEffectType, TimeInForce,
};

fn amount(x: f64) -> Decimal {
    Decimal::parse(&x.to_string()).unwrap()
}

fn pairs(list: &[(&str, &str)]) -> Vec<(String, String)> {
    list.iter().map(|(name, value)| (name.to_string(), value.to_string())).collect()
}

fn limit_buy() -> OrderRequest {
    OrderRequest {
        symbol: "BTCUSDT".to_string(),
        qty: amount(1.5),
        price: amount(20000.0),
        stop_price: None,
        order_side: OrderSide::Buy,
        order_type: OrderType::Limit,
        time_in_force: TimeInForce::GTC,
        new_client_order_id: None,
        is_isolated: false,
        side_effect_type: SideEffectType::NoSideEffect,
    }
}

fn market_sell_for_quote() -> OrderQuoteQuantityRequest {
    OrderQuoteQuantityRequest {
        symbol: "ETHUSDT".to_string(),
        quote_order_qty: amount(100.0),
        price: amount(0.0),
        order_side: OrderSide::Sell,
        time_in_force: TimeInForce::GTC,
        new_client_order_id: None,
        is_isolated: true,
        side_effect_type: SideEffectType::AutoRepay,
    }
}

fn is_strictly_ascending(set: &CanonicalParameterSet) -> bool {
    (1..set.len()).all(|i| set.entry_at(i - 1).unwrap().0 < set.entry_at(i).unwrap().0)
}

#[test]
fn limit_buy_scenario() {
    let parameters = build_parameters(OrderIntent::Custom(limit_buy()));
    assert_eq!(
        parameters.into_entries(),
        pairs(&[
            ("isIsolated", "FALSE"),
            ("price", "20000"),
            ("quantity", "1.5"),
            ("side", "BUY"),
            ("sideEffectType", "NO_SIDE_EFFECT"),
            ("symbol", "BTCUSDT"),
            ("timeInForce", "GTC"),
            ("type", "LIMIT"),
        ])
    );
}

#[test]
fn quote_quantity_market_sell_scenario() {
    let parameters = build_parameters(OrderIntent::QuoteQuantity(market_sell_for_quote()));
    assert_eq!(parameters.get("price"), None);
    assert_eq!(parameters.get("timeInForce"), None);
    assert_eq!(
        parameters.into_entries(),
        pairs(&[
            ("isIsolated", "TRUE"),
            ("quoteOrderQty", "100"),
            ("side", "SELL"),
            ("sideEffectType", "AUTO_REPAY"),
            ("symbol", "ETHUSDT"),
            ("type", "MARKET"),
        ])
    );
}

#[test]
fn every_field_at_once() {
    let order = OrderRequest {
        symbol: "BNBBTC".to_string(),
        qty: amount(0.25),
        price: amount(0.0021),
        stop_price: Some(amount(0.002)),
        order_side: OrderSide::Sell,
        order_type: OrderType::StopLossLimit,
        time_in_force: TimeInForce::FOK,
        new_client_order_id: Some("my-order-7".to_string()),
        is_isolated: true,
        side_effect_type: SideEffectType::MarginBuy,
    };
    let parameters = build_parameters(OrderIntent::Custom(order));
    assert!(is_strictly_ascending(&parameters));
    assert_eq!(
        parameters.into_entries(),
        pairs(&[
            ("isIsolated", "TRUE"),
            ("newClientOrderId", "my-order-7"),
            ("price", "0.0021"),
            ("quantity", "0.25"),
            ("side", "SELL"),
            ("sideEffectType", "MARGIN_BUY"),
            ("stopPrice", "0.002"),
            ("symbol", "BNBBTC"),
            ("timeInForce", "FOK"),
            ("type", "STOP_LOSS_LIMIT"),
        ])
    );
}

#[test]
fn keys_are_strictly_ascending_for_every_choice_of_optional_fields() {
    for stop in [None, Some(7.5)] {
        for price in [0.0, 3.25] {
            for id in [None, Some("x")] {
                let mut order = limit_buy();
                order.stop_price = stop.map(amount);
                order.price = amount(price);
                order.new_client_order_id = id.map(|s: &str| s.to_string());
                let parameters = build_parameters(OrderIntent::Custom(order));
                assert!(is_strictly_ascending(&parameters));
                let expected = 6 + stop.is_some() as usize
                    + 2 * (price != 0.0) as usize
                    + id.is_some() as usize;
                assert_eq!(parameters.len(), expected);
            }
        }
    }
}

#[test]
fn isolated_flag_and_side_effect_are_always_sent() {
    for isolated in [false, true] {
        for effect in [
            SideEffectType::NoSideEffect,
            SideEffectType::MarginBuy,
            SideEffectType::AutoRepay,
        ] {
            let mut custom = limit_buy();
            custom.is_isolated = isolated;
            custom.side_effect_type = effect;
            let mut quote = market_sell_for_quote();
            quote.is_isolated = isolated;
            quote.side_effect_type = effect;
            for parameters in [
                build_parameters(OrderIntent::Custom(custom)),
                build_parameters(OrderIntent::QuoteQuantity(quote)),
            ] {
                let flag = if isolated { "TRUE" } else { "FALSE" };
                assert_eq!(parameters.get("isIsolated"), Some(flag));
                assert_eq!(parameters.get("sideEffectType"), Some(effect.wire_token()));
            }
        }
    }
}

#[test]
fn stop_price_is_sent_where_given() {
    let mut order = limit_buy();
    order.stop_price = Some(amount(19500.5));
    let parameters = build_parameters(OrderIntent::Custom(order));
    assert_eq!(parameters.get("stopPrice"), Some("19500.5"));
}

#[test]
fn stop_price_is_absent_where_not_given() {
    let parameters = build_parameters(OrderIntent::Custom(limit_buy()));
    assert_eq!(parameters.get("stopPrice"), None);
}

#[test]
fn a_stop_price_of_zero_is_still_sent() {
    let mut order = limit_buy();
    order.stop_price = Some(amount(0.0));
    let parameters = build_parameters(OrderIntent::Custom(order));
    assert_eq!(parameters.get("stopPrice"), Some("0"));
}

#[test]
fn a_price_of_zero_takes_the_time_in_force_with_it() {
    for zero in ["0", "-0", "0.0", "0.000"] {
        let mut order = limit_buy();
        order.price = Decimal::parse(zero).unwrap();
        order.time_in_force = TimeInForce::IOC;
        let parameters = build_parameters(OrderIntent::Custom(order));
        assert_eq!(parameters.get("price"), None);
        assert_eq!(parameters.get("timeInForce"), None);
    }
}

#[test]
fn a_price_brings_the_time_in_force_with_it() {
    let mut order = limit_buy();
    order.price = amount(0.00000001);
    order.time_in_force = TimeInForce::IOC;
    let parameters = build_parameters(OrderIntent::Custom(order));
    assert_eq!(parameters.get("price"), Some("0.00000001"));
    assert_eq!(parameters.get("timeInForce"), Some("IOC"));
}

#[test]
fn a_priced_quote_quantity_order_sends_price_and_time_in_force() {
    let mut order = market_sell_for_quote();
    order.price = amount(1800.0);
    order.time_in_force = TimeInForce::FOK;
    let parameters = build_parameters(OrderIntent::QuoteQuantity(order));
    assert_eq!(parameters.get("price"), Some("1800"));
    assert_eq!(parameters.get("timeInForce"), Some("FOK"));
    assert_eq!(parameters.get("type"), Some("MARKET"));
}

#[test]
fn exactly_one_quantity_field() {
    let custom = build_parameters(OrderIntent::Custom(limit_buy()));
    assert_eq!(custom.get("quantity"), Some("1.5"));
    assert_eq!(custom.get("quoteOrderQty"), None);
    let quote = build_parameters(OrderIntent::QuoteQuantity(market_sell_for_quote()));
    assert_eq!(quote.get("quoteOrderQty"), Some("100"));
    assert_eq!(quote.get("quantity"), None);
}

#[test]
fn client_order_id_is_sent_where_given() {
    let mut order = market_sell_for_quote();
    order.new_client_order_id = Some("abc123".to_string());
    let parameters = build_parameters(OrderIntent::QuoteQuantity(order));
    assert_eq!(parameters.get("newClientOrderId"), Some("abc123"));
    let parameters = build_parameters(OrderIntent::QuoteQuantity(market_sell_for_quote()));
    assert_eq!(parameters.get("newClientOrderId"), None);
}

#[test]
fn the_builder_does_not_check_the_intent() {
    let mut order = limit_buy();
    order.symbol = String::new();
    order.qty = amount(0.0);
    let parameters = build_parameters(OrderIntent::Custom(order));
    assert_eq!(parameters.get("symbol"), Some(""));
    assert_eq!(parameters.get("quantity"), Some("0"));
}

#[test]
fn the_accounts_build_what_the_builder_builds() {
    let expected = build_parameters(OrderIntent::Custom(limit_buy())).into_entries();
    let general = Account { recv_window: 5000 };
    let margin = MarginAccount { recv_window: 5000 };
    assert_eq!(general.build_margin_order(limit_buy()).into_entries(), expected);
    assert_eq!(margin.build_order(limit_buy()).into_entries(), expected);
    let expected =
        build_parameters(OrderIntent::QuoteQuantity(market_sell_for_quote())).into_entries();
    assert_eq!(
        general.build_margin_quote_quantity_order(market_sell_for_quote()).into_entries(),
        expected
    );
    assert_eq!(
        margin.build_quote_quantity_order(market_sell_for_quote()).into_entries(),
        expected
    );
}
