//! The wire tokens of the order enumerations.
//!
//! Each enumeration maps every variant to the one upper-case token that the
//! exchange expects for it. The mappings here are the only ones in the
//! library: whatever writes a token into a request takes it from this module.

use vstd::prelude::*;
use vstd::std_specs::convert::FromSpecImpl;
use crate::lexical::{rank, Rank};

verus! {

/// The side of the book that an order is placed on.
#[derive(Clone, Copy, Debug, PartialEq, Eq, Structural)]
pub enum OrderSide {
    Buy,
    Sell,
}

/// The kind of an order.
#[derive(Clone, Copy, Debug, PartialEq, Eq, Structural)]
pub enum OrderType {
    Limit,
    Market,
    StopLoss,
    StopLossLimit,
    TakeProfit,
    TakeProfitLimit,
    LimitMaker,
}

/// How long an order with a price stays in the book.
#[derive(Clone, Copy, Debug, PartialEq, Eq, Structural)]
pub enum TimeInForce {
    /// Good till cancelled.
    GTC,
    /// Immediate or cancel.
    IOC,
    /// Fill or kill.
    FOK,
}

/// What the exchange does on the margin account along with the order.
#[derive(Clone, Copy, Debug, PartialEq, Eq, Structural)]
pub enum SideEffectType {
    /// Nothing besides the order itself.
    NoSideEffect,
    /// Borrow what the order needs.
    MarginBuy,
    /// Repay the loan from what the order yields.
    AutoRepay,
}

impl OrderSide {
    /// The token of this side.
    pub open spec fn token(self) -> Seq<char> {
        match self {
            OrderSide::Buy => "BUY"@,
            OrderSide::Sell => "SELL"@,
        }
    }

    /// The token of this side.
    pub fn wire_token(self) -> (token: &'static str)
        ensures
            token@ == self.token(),
    {
        match self {
            OrderSide::Buy => "BUY",
            OrderSide::Sell => "SELL",
        }
    }

    /// No token is empty, and different sides have different tokens.
    pub proof fn lemma_token_injective(a: OrderSide, b: OrderSide)
        ensures
            a.token().len() > 0,
            a.token() == b.token() ==> a == b,
    {
        reveal_strlit("BUY");
        reveal_strlit("SELL");
        assert("BUY"@.len() == 3);
        assert("SELL"@.len() == 4);
    }
}

impl OrderType {
    /// The token of this kind of order.
    pub open spec fn token(self) -> Seq<char> {
        match self {
            OrderType::Limit => "LIMIT"@,
            OrderType::Market => "MARKET"@,
            OrderType::StopLoss => "STOP_LOSS"@,
            OrderType::StopLossLimit => "STOP_LOSS_LIMIT"@,
            OrderType::TakeProfit => "TAKE_PROFIT"@,
            OrderType::TakeProfitLimit => "TAKE_PROFIT_LIMIT"@,
            OrderType::LimitMaker => "LIMIT_MAKER"@,
        }
    }

    /// The token of this kind of order.
    pub fn wire_token(self) -> (token: &'static str)
        ensures
            token@ == self.token(),
    {
        match self {
            OrderType::Limit => "LIMIT",
            OrderType::Market => "MARKET",
            OrderType::StopLoss => "STOP_LOSS",
            OrderType::StopLossLimit => "STOP_LOSS_LIMIT",
            OrderType::TakeProfit => "TAKE_PROFIT",
            OrderType::TakeProfitLimit => "TAKE_PROFIT_LIMIT",
            OrderType::LimitMaker => "LIMIT_MAKER",
        }
    }

    /// No token is empty, and different kinds have different tokens.
    pub proof fn lemma_token_injective(a: OrderType, b: OrderType)
        ensures
            a.token().len() > 0,
            a.token() == b.token() ==> a == b,
    {
        reveal_strlit("LIMIT");
        reveal_strlit("MARKET");
        reveal_strlit("STOP_LOSS");
        reveal_strlit("STOP_LOSS_LIMIT");
        reveal_strlit("TAKE_PROFIT");
        reveal_strlit("TAKE_PROFIT_LIMIT");
        reveal_strlit("LIMIT_MAKER");
        assert("LIMIT"@.len() == 5);
        assert("MARKET"@.len() == 6);
        assert("STOP_LOSS"@.len() == 9);
        assert("STOP_LOSS_LIMIT"@.len() == 15);
        assert("TAKE_PROFIT_LIMIT"@.len() == 17);
        // The two tokens of eleven characters differ in their first.
        assert("TAKE_PROFIT"@[0] == 'T');
        assert("LIMIT_MAKER"@[0] == 'L');
    }
}

impl TimeInForce {
    /// The token of this time in force.
    pub open spec fn token(self) -> Seq<char> {
        match self {
            TimeInForce::GTC => "GTC"@,
            TimeInForce::IOC => "IOC"@,
            TimeInForce::FOK => "FOK"@,
        }
    }

    /// The token of this time in force.
    pub fn wire_token(self) -> (token: &'static str)
        ensures
            token@ == self.token(),
    {
        match self {
            TimeInForce::GTC => "GTC",
            TimeInForce::IOC => "IOC",
            TimeInForce::FOK => "FOK",
        }
    }

    /// No token is empty, and different times in force have different tokens.
    pub proof fn lemma_token_injective(a: TimeInForce, b: TimeInForce)
        ensures
            a.token().len() > 0,
            a.token() == b.token() ==> a == b,
    {
        reveal_strlit("GTC");
        reveal_strlit("IOC");
        reveal_strlit("FOK");
        assert("GTC"@[0] == 'G');
        assert("IOC"@[0] == 'I');
        assert("FOK"@[0] == 'F');
    }
}

impl SideEffectType {
    /// The token of this side effect.
    pub open spec fn token(self) -> Seq<char> {
        match self {
            SideEffectType::NoSideEffect => "NO_SIDE_EFFECT"@,
            SideEffectType::MarginBuy => "MARGIN_BUY"@,
            SideEffectType::AutoRepay => "AUTO_REPAY"@,
        }
    }

    /// The token of this side effect.
    pub fn wire_token(self) -> (token: &'static str)
        ensures
            token@ == self.token(),
    {
        match self {
            SideEffectType::NoSideEffect => "NO_SIDE_EFFECT",
            SideEffectType::MarginBuy => "MARGIN_BUY",
            SideEffectType::AutoRepay => "AUTO_REPAY",
        }
    }

    /// The side effect that a token stands for, if it is the token of one.
    pub fn from_token(token: &str) -> (effect: Option<SideEffectType>)
        ensures
            match effect {
                Some(effect) => effect.token() == token@,
                None => forall|other: SideEffectType| other.token() != token@,
            },
    {
        if rank(token, "NO_SIDE_EFFECT") == Rank::Same {
            Some(SideEffectType::NoSideEffect)
        } else if rank(token, "MARGIN_BUY") == Rank::Same {
            Some(SideEffectType::MarginBuy)
        } else if rank(token, "AUTO_REPAY") == Rank::Same {
            Some(SideEffectType::AutoRepay)
        } else {
            None
        }
    }

    /// No token is empty, and different side effects have different tokens:
    /// the mapping from variants to tokens can be read backwards.
    pub proof fn lemma_token_injective(a: SideEffectType, b: SideEffectType)
        ensures
            a.token().len() > 0,
            a.token() == b.token() ==> a == b,
    {
        reveal_strlit("NO_SIDE_EFFECT");
        reveal_strlit("MARGIN_BUY");
        reveal_strlit("AUTO_REPAY");
        assert("NO_SIDE_EFFECT"@.len() == 14);
        // The two tokens of ten characters differ in their first.
        assert("MARGIN_BUY"@[0] == 'M');
        assert("AUTO_REPAY"@[0] == 'A');
    }
}

impl Default for SideEffectType {
    /// An order has no side effect unless one is asked for.
    fn default() -> (effect: SideEffectType)
        ensures
            effect == SideEffectType::NoSideEffect,
    {
        SideEffectType::NoSideEffect
    }
}

impl From<SideEffectType> for String {
    /// The token of the side effect, as an owned text.
    fn from(item: SideEffectType) -> (token: String)
        ensures
            token@ == item.token(),
    {
        String::from_str(item.wire_token())
    }
}

/// What the conversion returns is stated on `from` itself, over the view of
/// the text: a specification can name a `String` only through its view.
impl FromSpecImpl<SideEffectType> for String {
    open spec fn obeys_from_spec() -> bool {
        false
    }

    open spec fn from_spec(item: SideEffectType) -> String {
        arbitrary()
    }
}

} // verus!
