//! Margin-order construction for an exchange's REST interface.
//!
//! A typed order intent is checked and turned into the canonical, key-ordered
//! set of request parameters over which the request signature is computed,
//! and the exchange's acknowledgement is accepted into a typed transaction
//! record. Signing and sending are not done here: the library hands out
//! what is to be signed and takes in what came back.
//!
//! Amounts are exact decimals. A price of zero stands for "no price".

pub mod account;
pub mod builder;
pub mod codec;
pub mod decimal;
pub mod lexical;
pub mod order;
pub mod params;
pub mod response;

pub use account::{
    prepare, Account, MarginAccount, MarginOrderQuoteQuantityRequest, MarginOrderRequest,
    UnsignedRequest,
};
pub use builder::build_parameters;
pub use codec::{OrderSide, OrderType, SideEffectType, TimeInForce};
pub use decimal::Decimal;
pub use order::{OrderIntent, OrderQuoteQuantityRequest, OrderRequest, ValidationError};
pub use params::CanonicalParameterSet;
pub use response::{
    DeserializationError, Field, FillInfo, MarginTransaction, RawFill, RawTransaction, Transaction,
};
