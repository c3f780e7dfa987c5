//! Accounts: the entry points that turn a caller's arguments into a request
//! that is ready to be signed.
//!
//! An account does not talk to the exchange. It checks the intent, builds
//! the canonical parameters and hands them back together with the account's
//! receive window; signing and sending are the caller's part. Nothing may
//! reorder the parameters after that: the signature is computed over them
//! in the order in which the set holds them.

use vstd::prelude::*;
use crate::builder::{
    build_parameters, entries_under, flag_token, lemma_parameter_names, request_entries,
    rule_table,
};
use crate::codec::{OrderSide, OrderType, SideEffectType, TimeInForce};
use crate::decimal::text::lemma_zero_text;
use crate::decimal::{denotes_zero, Decimal};
use crate::order::{
    amount_text, defect, identifier_text, Intent, OrderIntent, OrderQuoteQuantityRequest,
    OrderRequest, ValidationError,
};
use crate::params::{strictly_ascending, CanonicalParameterSet};

verus! {

/// A custom order, under the name it has on a general account.
pub type MarginOrderRequest = OrderRequest;

/// A quote-quantity order, under the name it has on a general account.
pub type MarginOrderQuoteQuantityRequest = OrderQuoteQuantityRequest;

/// A request that is ready to be signed: the canonical parameters and the
/// receive window that goes with them.
#[derive(Debug)]
pub struct UnsignedRequest {
    pub parameters: CanonicalParameterSet,
    /// For how many milliseconds after its timestamp the exchange may still
    /// accept the signed request.
    pub recv_window: u64,
}

/// What `prepare` returns for an intent: the error of an intent that has a
/// defect, and otherwise the request made of the intent's parameters, in
/// canonical order, and the receive window.
pub open spec fn prepared_from(
    prepared: Result<UnsignedRequest, ValidationError>,
    intent: Intent,
    recv_window: u64,
) -> bool {
    match defect(intent) {
        Some(error) => prepared == Err::<UnsignedRequest, ValidationError>(error),
        None => {
            &&& prepared matches Ok(request)
            &&& request.recv_window == recv_window
            &&& request.parameters@ == request_entries(intent)
            &&& strictly_ascending(request.parameters@)
            &&& request.parameters.as_map() == rule_table(intent)
        },
    }
}

/// Checks an intent and, if nothing is wrong with it, builds its request.
/// An intent with a defect is turned down before any parameter is built.
pub fn prepare(intent: OrderIntent, recv_window: u64) -> (prepared: Result<
    UnsignedRequest,
    ValidationError,
>)
    ensures
        prepared_from(prepared, intent@, recv_window),
{
    match intent.validate() {
        Err(error) => Err(error),
        Ok(()) => Ok(UnsignedRequest { parameters: build_parameters(intent), recv_window }),
    }
}

/// The market order that buys or sells for a quantity in the quote asset:
/// no price, no identifier, good till cancelled.
pub open spec fn quote_quantity_market_order(
    symbol: Seq<char>,
    quantity: Seq<char>,
    side: OrderSide,
    is_isolated: bool,
    side_effect: SideEffectType,
) -> Intent {
    Intent {
        symbol,
        in_quote: true,
        quantity,
        price: seq!['0'],
        stop_price: None,
        side,
        order_type: OrderType::Market,
        time_in_force: TimeInForce::GTC,
        client_order_id: None,
        is_isolated,
        side_effect,
    }
}

/// A market order for a quantity in the quote asset gives rise to six
/// parameters, in this order, and to no others: it has no price, so
/// neither a price nor a time in force is sent.
pub proof fn lemma_quote_quantity_market_order_entries(
    symbol: Seq<char>,
    quantity: Seq<char>,
    side: OrderSide,
    is_isolated: bool,
    side_effect: SideEffectType,
)
    ensures
        request_entries(
            quote_quantity_market_order(symbol, quantity, side, is_isolated, side_effect),
        ) == seq![
            ("isIsolated"@, flag_token(is_isolated)),
            ("quoteOrderQty"@, quantity),
            ("side"@, side.token()),
            ("sideEffectType"@, side_effect.token()),
            ("symbol"@, symbol),
            ("type"@, OrderType::Market.token()),
        ],
{
    let intent = quote_quantity_market_order(symbol, quantity, side, is_isolated, side_effect);
    lemma_zero_text();
    lemma_parameter_names();
    reveal_with_fuel(entries_under, 12);
    assert(request_entries(intent) =~= seq![
        ("isIsolated"@, flag_token(is_isolated)),
        ("quoteOrderQty"@, quantity),
        ("side"@, side.token()),
        ("sideEffectType"@, side_effect.token()),
        ("symbol"@, symbol),
        ("type"@, OrderType::Market.token()),
    ]);
}

/// The custom order made of the given attributes.
pub open spec fn custom_order(
    symbol: Seq<char>,
    quantity: Seq<char>,
    price: Seq<char>,
    stop_price: Option<Seq<char>>,
    side: OrderSide,
    order_type: OrderType,
    time_in_force: TimeInForce,
    client_order_id: Option<Seq<char>>,
    is_isolated: bool,
    side_effect: SideEffectType,
) -> Intent {
    Intent {
        symbol,
        in_quote: false,
        quantity,
        price,
        stop_price,
        side,
        order_type,
        time_in_force,
        client_order_id,
        is_isolated,
        side_effect,
    }
}

/// A custom order with a price, and with neither a stop price nor an
/// identifier, gives rise to eight parameters, in this order, and to no
/// others.
pub proof fn lemma_priced_custom_order_entries(
    symbol: Seq<char>,
    quantity: Seq<char>,
    price: Seq<char>,
    side: OrderSide,
    order_type: OrderType,
    time_in_force: TimeInForce,
    is_isolated: bool,
    side_effect: SideEffectType,
)
    requires
        !denotes_zero(price),
    ensures
        request_entries(
            custom_order(
                symbol,
                quantity,
                price,
                None,
                side,
                order_type,
                time_in_force,
                None,
                is_isolated,
                side_effect,
            ),
        ) == seq![
            ("isIsolated"@, flag_token(is_isolated)),
            ("price"@, price),
            ("quantity"@, quantity),
            ("side"@, side.token()),
            ("sideEffectType"@, side_effect.token()),
            ("symbol"@, symbol),
            ("timeInForce"@, time_in_force.token()),
            ("type"@, order_type.token()),
        ],
{
    let intent = custom_order(
        symbol,
        quantity,
        price,
        None,
        side,
        order_type,
        time_in_force,
        None,
        is_isolated,
        side_effect,
    );
    lemma_parameter_names();
    reveal_with_fuel(entries_under, 12);
    assert(request_entries(intent) =~= seq![
        ("isIsolated"@, flag_token(is_isolated)),
        ("price"@, price),
        ("quantity"@, quantity),
        ("side"@, side.token()),
        ("sideEffectType"@, side_effect.token()),
        ("symbol"@, symbol),
        ("timeInForce"@, time_in_force.token()),
        ("type"@, order_type.token()),
    ]);
}

/// Prepares a market order for a quantity in the quote asset.
fn prepare_quote_quantity_market_order(
    symbol: &str,
    quote_order_qty: Decimal,
    order_side: OrderSide,
    is_isolated: bool,
    side_effect_type: SideEffectType,
    recv_window: u64,
) -> (prepared: Result<UnsignedRequest, ValidationError>)
    ensures
        prepared_from(
            prepared,
            quote_quantity_market_order(
                symbol@,
                quote_order_qty@,
                order_side,
                is_isolated,
                side_effect_type,
            ),
            recv_window,
        ),
{
    let order = OrderQuoteQuantityRequest {
        symbol: symbol.to_owned(),
        quote_order_qty,
        price: Decimal::zero(),
        order_side,
        time_in_force: TimeInForce::GTC,
        new_client_order_id: None,
        is_isolated,
        side_effect_type,
    };
    prepare(OrderIntent::QuoteQuantity(order), recv_window)
}

/// A trading account, as far as margin orders go.
#[derive(Clone, Copy, Debug, PartialEq, Eq, Structural)]
pub struct Account {
    /// The receive window of the requests that this account prepares.
    pub recv_window: u64,
}

/// A margin account.
#[derive(Clone, Copy, Debug, PartialEq, Eq, Structural)]
pub struct MarginAccount {
    /// The receive window of the requests that this account prepares.
    pub recv_window: u64,
}

impl Account {
    /// Prepares a margin market order that buys for `quote_order_qty` of
    /// the quote asset.
    pub fn margin_market_buy_using_quote_quantity(
        &self,
        symbol: &str,
        quote_order_qty: Decimal,
        is_isolated: bool,
        side_effect_type: SideEffectType,
    ) -> (prepared: Result<UnsignedRequest, ValidationError>)
        ensures
            prepared_from(
                prepared,
                quote_quantity_market_order(
                    symbol@,
                    quote_order_qty@,
                    OrderSide::Buy,
                    is_isolated,
                    side_effect_type,
                ),
                self.recv_window,
            ),
    {
        prepare_quote_quantity_market_order(
            symbol,
            quote_order_qty,
            OrderSide::Buy,
            is_isolated,
            side_effect_type,
            self.recv_window,
        )
    }

    /// Prepares a margin market order that sells for `quote_order_qty` of
    /// the quote asset.
    pub fn margin_market_sell_using_quote_quantity(
        &self,
        symbol: &str,
        quote_order_qty: Decimal,
        is_isolated: bool,
        side_effect_type: SideEffectType,
    ) -> (prepared: Result<UnsignedRequest, ValidationError>)
        ensures
            prepared_from(
                prepared,
                quote_quantity_market_order(
                    symbol@,
                    quote_order_qty@,
                    OrderSide::Sell,
                    is_isolated,
                    side_effect_type,
                ),
                self.recv_window,
            ),
    {
        prepare_quote_quantity_market_order(
            symbol,
            quote_order_qty,
            OrderSide::Sell,
            is_isolated,
            side_effect_type,
            self.recv_window,
        )
    }

    /// Prepares a custom margin order. A `price` of zero means no price.
    pub fn margin_custom_order(
        &self,
        symbol: &str,
        qty: Decimal,
        price: Decimal,
        stop_price: Option<Decimal>,
        order_side: OrderSide,
        order_type: OrderType,
        time_in_force: TimeInForce,
        new_client_order_id: Option<String>,
        is_isolated: bool,
        side_effect_type: SideEffectType,
    ) -> (prepared: Result<UnsignedRequest, ValidationError>)
        ensures
            prepared_from(
                prepared,
                custom_order(
                    symbol@,
                    qty@,
                    price@,
                    amount_text(stop_price),
                    order_side,
                    order_type,
                    time_in_force,
                    identifier_text(new_client_order_id),
                    is_isolated,
                    side_effect_type,
                ),
                self.recv_window,
            ),
    {
        let order = MarginOrderRequest {
            symbol: symbol.to_owned(),
            qty,
            price,
            stop_price,
            order_side,
            order_type,
            time_in_force,
            new_client_order_id,
            is_isolated,
            side_effect_type,
        };
        prepare(OrderIntent::Custom(order), self.recv_window)
    }

    /// Builds the parameters of a custom order, unchecked.
    pub fn build_margin_order(&self, margin_order: MarginOrderRequest) -> (parameters:
        CanonicalParameterSet)
        ensures
            parameters@ == request_entries(margin_order@),
            strictly_ascending(parameters@),
            parameters.as_map() == rule_table(margin_order@),
    {
        build_parameters(OrderIntent::Custom(margin_order))
    }

    /// Builds the parameters of a quote-quantity order, unchecked.
    pub fn build_margin_quote_quantity_order(
        &self,
        order: MarginOrderQuoteQuantityRequest,
    ) -> (parameters: CanonicalParameterSet)
        ensures
            parameters@ == request_entries(order@),
            strictly_ascending(parameters@),
            parameters.as_map() == rule_table(order@),
    {
        build_parameters(OrderIntent::QuoteQuantity(order))
    }
}

impl MarginAccount {
    /// Prepares a market order that buys for `quote_order_qty` of the quote
    /// asset.
    pub fn market_buy_using_quote_quantity(
        &self,
        symbol: &str,
        quote_order_qty: Decimal,
        is_isolated: bool,
        side_effect_type: SideEffectType,
    ) -> (prepared: Result<UnsignedRequest, ValidationError>)
        ensures
            prepared_from(
                prepared,
                quote_quantity_market_order(
                    symbol@,
                    quote_order_qty@,
                    OrderSide::Buy,
                    is_isolated,
                    side_effect_type,
                ),
                self.recv_window,
            ),
    {
        prepare_quote_quantity_market_order(
            symbol,
            quote_order_qty,
            OrderSide::Buy,
            is_isolated,
            side_effect_type,
            self.recv_window,
        )
    }

    /// Prepares a market order that sells for `quote_order_qty` of the
    /// quote asset.
    pub fn market_sell_using_quote_quantity(
        &self,
        symbol: &str,
        quote_order_qty: Decimal,
        is_isolated: bool,
        side_effect_type: SideEffectType,
    ) -> (prepared: Result<UnsignedRequest, ValidationError>)
        ensures
            prepared_from(
                prepared,
                quote_quantity_market_order(
                    symbol@,
                    quote_order_qty@,
                    OrderSide::Sell,
                    is_isolated,
                    side_effect_type,
                ),
                self.recv_window,
            ),
    {
        prepare_quote_quantity_market_order(
            symbol,
            quote_order_qty,
            OrderSide::Sell,
            is_isolated,
            side_effect_type,
            self.recv_window,
        )
    }

    /// Prepares a custom order that is good till cancelled. A `price` of
    /// zero means no price, and then no time in force is sent either.
    pub fn margin_custom_order(
        &self,
        symbol: &str,
        qty: Decimal,
        price: Decimal,
        stop_price: Option<Decimal>,
        order_side: OrderSide,
        order_type: OrderType,
        new_client_order_id: Option<String>,
        is_isolated: bool,
        side_effect_type: SideEffectType,
    ) -> (prepared: Result<UnsignedRequest, ValidationError>)
        ensures
            prepared_from(
                prepared,
                custom_order(
                    symbol@,
                    qty@,
                    price@,
                    amount_text(stop_price),
                    order_side,
                    order_type,
                    TimeInForce::GTC,
                    identifier_text(new_client_order_id),
                    is_isolated,
                    side_effect_type,
                ),
                self.recv_window,
            ),
    {
        let order = OrderRequest {
            symbol: symbol.to_owned(),
            qty,
            price,
            stop_price,
            order_side,
            order_type,
            time_in_force: TimeInForce::GTC,
            new_client_order_id,
            is_isolated,
            side_effect_type,
        };
        prepare(OrderIntent::Custom(order), self.recv_window)
    }

    /// Builds the parameters of a custom order, unchecked.
    pub fn build_order(&self, margin_order: OrderRequest) -> (parameters: CanonicalParameterSet)
        ensures
            parameters@ == request_entries(margin_order@),
            strictly_ascending(parameters@),
            parameters.as_map() == rule_table(margin_order@),
    {
        build_parameters(OrderIntent::Custom(margin_order))
    }

    /// Builds the parameters of a quote-quantity order, unchecked.
    pub fn build_quote_quantity_order(&self, order: OrderQuoteQuantityRequest) -> (parameters:
        CanonicalParameterSet)
        ensures
            parameters@ == request_entries(order@),
            strictly_ascending(parameters@),
            parameters.as_map() == rule_table(order@),
    {
        build_parameters(OrderIntent::QuoteQuantity(order))
    }
}

} // verus!
