//! Order intents: what a caller wants placed, before anything is sent.
//!
//! There are two shapes. A custom order states its quantity in the base
//! asset and may carry a price, a stop price and any order kind. A
//! quote-quantity order states its quantity in the quote asset and is always
//! a market order. Which quantity field a request carries follows from the
//! shape alone.

use vstd::prelude::*;
use crate::codec::{OrderSide, OrderType, SideEffectType, TimeInForce};
use crate::decimal::{denotes_positive, Decimal};

verus! {

/// An order with an explicit quantity in the base asset.
///
/// A `price` of zero means that the order has no price: such an order
/// carries neither a price nor a time in force. The convention cannot tell
/// an order without a price from one priced at zero, and a request never
/// carries a price of zero.
#[derive(Debug)]
pub struct OrderRequest {
    pub symbol: String,
    pub qty: Decimal,
    pub price: Decimal,
    pub stop_price: Option<Decimal>,
    pub order_side: OrderSide,
    pub order_type: OrderType,
    pub time_in_force: TimeInForce,
    pub new_client_order_id: Option<String>,
    pub is_isolated: bool,
    pub side_effect_type: SideEffectType,
}

/// A market order with its quantity in the quote asset.
///
/// The order kind is no field: it is always `OrderType::Market`. A `price`
/// of zero means that the order has no price, which is the normal case; a
/// price that is not zero is sent along with the time in force all the
/// same.
#[derive(Debug)]
pub struct OrderQuoteQuantityRequest {
    pub symbol: String,
    pub quote_order_qty: Decimal,
    pub price: Decimal,
    pub order_side: OrderSide,
    pub time_in_force: TimeInForce,
    pub new_client_order_id: Option<String>,
    pub is_isolated: bool,
    pub side_effect_type: SideEffectType,
}

/// An order of either shape.
#[derive(Debug)]
pub enum OrderIntent {
    Custom(OrderRequest),
    QuoteQuantity(OrderQuoteQuantityRequest),
}

/// What an order intent says, whatever its shape: texts stand for the
/// symbol, the identifier and the amounts.
pub ghost struct Intent {
    pub symbol: Seq<char>,
    /// Whether the quantity is in the quote asset.
    pub in_quote: bool,
    pub quantity: Seq<char>,
    /// Zero stands for no price.
    pub price: Seq<char>,
    pub stop_price: Option<Seq<char>>,
    pub side: OrderSide,
    pub order_type: OrderType,
    pub time_in_force: TimeInForce,
    pub client_order_id: Option<Seq<char>>,
    pub is_isolated: bool,
    pub side_effect: SideEffectType,
}

/// The text of an amount that may be absent.
pub open spec fn amount_text(amount: Option<Decimal>) -> Option<Seq<char>> {
    match amount {
        Some(amount) => Some(amount@),
        None => None,
    }
}

/// The text of an identifier that may be absent.
pub open spec fn identifier_text(identifier: Option<String>) -> Option<Seq<char>> {
    match identifier {
        Some(identifier) => Some(identifier@),
        None => None,
    }
}

impl View for OrderRequest {
    type V = Intent;

    open spec fn view(&self) -> Intent {
        Intent {
            symbol: self.symbol@,
            in_quote: false,
            quantity: self.qty@,
            price: self.price@,
            stop_price: amount_text(self.stop_price),
            side: self.order_side,
            order_type: self.order_type,
            time_in_force: self.time_in_force,
            client_order_id: identifier_text(self.new_client_order_id),
            is_isolated: self.is_isolated,
            side_effect: self.side_effect_type,
        }
    }
}

impl View for OrderQuoteQuantityRequest {
    type V = Intent;

    open spec fn view(&self) -> Intent {
        Intent {
            symbol: self.symbol@,
            in_quote: true,
            quantity: self.quote_order_qty@,
            price: self.price@,
            stop_price: None,
            side: self.order_side,
            order_type: OrderType::Market,
            time_in_force: self.time_in_force,
            client_order_id: identifier_text(self.new_client_order_id),
            is_isolated: self.is_isolated,
            side_effect: self.side_effect_type,
        }
    }
}

impl View for OrderIntent {
    type V = Intent;

    open spec fn view(&self) -> Intent {
        match self {
            OrderIntent::Custom(order) => order@,
            OrderIntent::QuoteQuantity(order) => order@,
        }
    }
}

/// Why an intent cannot be turned into a request.
#[derive(Clone, Copy, Debug, PartialEq, Eq, Structural)]
pub enum ValidationError {
    /// The instrument identifier is empty.
    EmptySymbol,
    /// The quantity is zero or negative.
    NonPositiveQuantity,
}

/// What is wrong with an intent, if anything: an empty symbol is reported
/// before a quantity that is not positive.
pub open spec fn defect(intent: Intent) -> Option<ValidationError> {
    if intent.symbol.len() == 0 {
        Some(ValidationError::EmptySymbol)
    } else if !denotes_positive(intent.quantity) {
        Some(ValidationError::NonPositiveQuantity)
    } else {
        None
    }
}

impl OrderIntent {
    /// Checks the intent: its symbol must not be empty and its quantity
    /// must be greater than zero.
    pub fn validate(&self) -> (checked: Result<(), ValidationError>)
        ensures
            checked == match defect(self@) {
                Some(error) => Err::<(), ValidationError>(error),
                None => Ok(()),
            },
    {
        let (symbol, quantity) = match self {
            OrderIntent::Custom(order) => (&order.symbol, &order.qty),
            OrderIntent::QuoteQuantity(order) => (&order.symbol, &order.quote_order_qty),
        };
        if symbol.as_str().is_empty() {
            Err(ValidationError::EmptySymbol)
        } else if !quantity.is_positive() {
            Err(ValidationError::NonPositiveQuantity)
        } else {
            Ok(())
        }
    }
}

} // verus!
