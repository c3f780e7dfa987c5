//! The response model: the exchange's acknowledgement of an order.
//!
//! An acknowledgement arrives as a record of fields, any of which may be
//! missing, with its amounts as decimal text, quoted or not. It is accepted
//! as a whole or not at all: a required field that is missing, or an amount
//! that is no decimal number, fails the whole acknowledgement, and the first
//! such field in the order of the record is the one reported.

use vstd::prelude::*;
use crate::decimal::{canonical_text, is_decimal_text, Decimal};

verus! {

/// The fields of an acknowledgement and of its fills, by what they hold.
#[derive(Clone, Copy, Debug, PartialEq, Eq, Structural)]
pub enum Field {
    Symbol,
    OrderId,
    ClientOrderId,
    TransactTime,
    Price,
    OrigQty,
    ExecutedQty,
    CummulativeQuoteQty,
    StopPrice,
    Status,
    TimeInForce,
    Type,
    Side,
    IsIsolated,
    MarginBuyBorrowAmount,
    FillPrice,
    FillQty,
    FillCommission,
    FillCommissionAsset,
}

/// Why an acknowledgement was not accepted.
#[derive(Clone, Copy, Debug, PartialEq, Eq, Structural)]
pub enum DeserializationError {
    /// A required field is missing.
    Missing(Field),
    /// The text of an amount is no decimal number.
    NotDecimal(Field),
}

/// One fill as it arrives.
#[derive(Clone, Debug)]
pub struct RawFill {
    pub price: Option<String>,
    pub qty: Option<String>,
    pub commission: Option<String>,
    pub commission_asset: Option<String>,
    pub trade_id: Option<u64>,
}

/// An acknowledgement as it arrives: every field may be missing, and the
/// amounts are text.
#[derive(Clone, Debug)]
pub struct RawTransaction {
    pub symbol: Option<String>,
    pub order_id: Option<u64>,
    pub order_list_id: Option<i64>,
    pub client_order_id: Option<String>,
    pub transact_time: Option<u64>,
    pub price: Option<String>,
    pub orig_qty: Option<String>,
    pub executed_qty: Option<String>,
    pub cummulative_quote_qty: Option<String>,
    pub stop_price: Option<String>,
    pub status: Option<String>,
    pub time_in_force: Option<String>,
    pub order_type: Option<String>,
    pub side: Option<String>,
    pub fills: Option<Vec<RawFill>>,
    pub is_isolated: Option<bool>,
    pub margin_buy_borrow_amount: Option<String>,
    pub margin_borrow_asset: Option<String>,
}

/// One execution that filled part of an order.
#[derive(Clone, Debug)]
pub struct FillInfo {
    pub price: Decimal,
    pub qty: Decimal,
    pub commission: Decimal,
    pub commission_asset: String,
    pub trade_id: Option<u64>,
}

/// The acknowledgement of an order.
#[derive(Clone, Debug)]
pub struct Transaction {
    pub symbol: String,
    pub order_id: u64,
    pub order_list_id: Option<i64>,
    pub client_order_id: String,
    /// When the exchange handled the order, in milliseconds since the epoch.
    pub transact_time: u64,
    pub price: Decimal,
    pub orig_qty: Decimal,
    pub executed_qty: Decimal,
    pub cummulative_quote_qty: Decimal,
    /// Zero where the acknowledgement has no stop price.
    pub stop_price: Decimal,
    pub status: String,
    pub time_in_force: String,
    pub order_type: String,
    pub side: String,
    pub fills: Option<Vec<FillInfo>>,
    pub is_isolated: bool,
    pub margin_buy_borrow_amount: Option<Decimal>,
    pub margin_borrow_asset: Option<String>,
}

/// The acknowledgement of an order, under the name it has on a general
/// account.
pub type MarginTransaction = Transaction;

/// What is wrong with a required text field, if anything.
pub open spec fn text_defect(text: Option<String>, field: Field) -> Option<DeserializationError> {
    if text is None {
        Some(DeserializationError::Missing(field))
    } else {
        None
    }
}

/// What is wrong with a required amount, if anything.
pub open spec fn amount_defect(text: Option<String>, field: Field) -> Option<
    DeserializationError,
> {
    match text {
        None => Some(DeserializationError::Missing(field)),
        Some(text) => if is_decimal_text(text@) {
            None
        } else {
            Some(DeserializationError::NotDecimal(field))
        },
    }
}

/// What is wrong with an amount that may be missing, if anything.
pub open spec fn optional_amount_defect(text: Option<String>, field: Field) -> Option<
    DeserializationError,
> {
    match text {
        Some(text) if !is_decimal_text(text@) => Some(DeserializationError::NotDecimal(field)),
        _ => None,
    }
}

/// What is wrong with a required number, if anything.
pub open spec fn number_defect<T>(number: Option<T>, field: Field) -> Option<DeserializationError> {
    if number is None {
        Some(DeserializationError::Missing(field))
    } else {
        None
    }
}

/// What is wrong with a fill, if anything: the defect of the first field
/// that has one.
pub open spec fn fill_defect(raw: RawFill) -> Option<DeserializationError> {
    if amount_defect(raw.price, Field::FillPrice) is Some {
        amount_defect(raw.price, Field::FillPrice)
    } else if amount_defect(raw.qty, Field::FillQty) is Some {
        amount_defect(raw.qty, Field::FillQty)
    } else if amount_defect(raw.commission, Field::FillCommission) is Some {
        amount_defect(raw.commission, Field::FillCommission)
    } else {
        text_defect(raw.commission_asset, Field::FillCommissionAsset)
    }
}

/// What is wrong with the first fill that has a defect, if any has.
pub open spec fn fills_defect(fills: Seq<RawFill>) -> Option<DeserializationError>
    decreases fills.len(),
{
    if fills.len() == 0 {
        None
    } else if fill_defect(fills[0]) is Some {
        fill_defect(fills[0])
    } else {
        fills_defect(fills.drop_first())
    }
}

/// What is wrong with the fills of an acknowledgement, if it has any.
pub open spec fn optional_fills_defect(fills: Option<Vec<RawFill>>) -> Option<
    DeserializationError,
> {
    match fills {
        Some(fills) => fills_defect(fills@),
        None => None,
    }
}

/// What is wrong with an acknowledgement, if anything: the defect of the
/// first field that has one, in the order of the record.
pub open spec fn transaction_defect(raw: RawTransaction) -> Option<DeserializationError> {
    if text_defect(raw.symbol, Field::Symbol) is Some {
        text_defect(raw.symbol, Field::Symbol)
    } else if number_defect(raw.order_id, Field::OrderId) is Some {
        number_defect(raw.order_id, Field::OrderId)
    } else if text_defect(raw.client_order_id, Field::ClientOrderId) is Some {
        text_defect(raw.client_order_id, Field::ClientOrderId)
    } else if number_defect(raw.transact_time, Field::TransactTime) is Some {
        number_defect(raw.transact_time, Field::TransactTime)
    } else if amount_defect(raw.price, Field::Price) is Some {
        amount_defect(raw.price, Field::Price)
    } else if amount_defect(raw.orig_qty, Field::OrigQty) is Some {
        amount_defect(raw.orig_qty, Field::OrigQty)
    } else if amount_defect(raw.executed_qty, Field::ExecutedQty) is Some {
        amount_defect(raw.executed_qty, Field::ExecutedQty)
    } else if amount_defect(raw.cummulative_quote_qty, Field::CummulativeQuoteQty) is Some {
        amount_defect(raw.cummulative_quote_qty, Field::CummulativeQuoteQty)
    } else if optional_amount_defect(raw.stop_price, Field::StopPrice) is Some {
        optional_amount_defect(raw.stop_price, Field::StopPrice)
    } else if text_defect(raw.status, Field::Status) is Some {
        text_defect(raw.status, Field::Status)
    } else if text_defect(raw.time_in_force, Field::TimeInForce) is Some {
        text_defect(raw.time_in_force, Field::TimeInForce)
    } else if text_defect(raw.order_type, Field::Type) is Some {
        text_defect(raw.order_type, Field::Type)
    } else if text_defect(raw.side, Field::Side) is Some {
        text_defect(raw.side, Field::Side)
    } else if optional_fills_defect(raw.fills) is Some {
        optional_fills_defect(raw.fills)
    } else if number_defect(raw.is_isolated, Field::IsIsolated) is Some {
        number_defect(raw.is_isolated, Field::IsIsolated)
    } else {
        optional_amount_defect(raw.margin_buy_borrow_amount, Field::MarginBuyBorrowAmount)
    }
}

/// Every required field of the acknowledgement is there, and every amount
/// that is there, in it or in its fills, is a decimal number.
pub open spec fn is_complete(raw: RawTransaction) -> bool {
    &&& raw.symbol is Some
    &&& raw.order_id is Some
    &&& raw.client_order_id is Some
    &&& raw.transact_time is Some
    &&& raw.price matches Some(text) && is_decimal_text(text@)
    &&& raw.orig_qty matches Some(text) && is_decimal_text(text@)
    &&& raw.executed_qty matches Some(text) && is_decimal_text(text@)
    &&& raw.cummulative_quote_qty matches Some(text) && is_decimal_text(text@)
    &&& raw.stop_price matches Some(text) ==> is_decimal_text(text@)
    &&& raw.status is Some
    &&& raw.time_in_force is Some
    &&& raw.order_type is Some
    &&& raw.side is Some
    &&& raw.fills matches Some(fills) ==> forall|i: int|
        0 <= i < fills@.len() ==> fill_defect(#[trigger] fills@[i]) is None
    &&& raw.is_isolated is Some
    &&& raw.margin_buy_borrow_amount matches Some(text) ==> is_decimal_text(text@)
}

/// The fills have no defect exactly when none of them has one.
pub proof fn lemma_fills_defect_free(fills: Seq<RawFill>)
    ensures
        fills_defect(fills) is None <==> forall|i: int|
            0 <= i < fills.len() ==> fill_defect(#[trigger] fills[i]) is None,
    decreases fills.len(),
{
    if fills.len() > 0 {
        let rest = fills.drop_first();
        lemma_fills_defect_free(rest);
        if fills_defect(fills) is None {
            assert forall|i: int| 0 <= i < fills.len() implies fill_defect(
                #[trigger] fills[i],
            ) is None by {
                if i > 0 {
                    assert(rest[i - 1] == fills[i]);
                }
            }
        } else if fill_defect(fills[0]) is None {
            if forall|i: int| 0 <= i < fills.len() ==> fill_defect(#[trigger] fills[i]) is None {
                assert forall|i: int| 0 <= i < rest.len() implies fill_defect(
                    #[trigger] rest[i],
                ) is None by {
                    assert(rest[i] == fills[i + 1]);
                }
            }
        }
    }
}

/// An acknowledgement has no defect exactly when it is complete. One that
/// lacks a required field, its order identifier for one, has a defect and
/// is not accepted.
pub proof fn lemma_defect_free_iff_complete(raw: RawTransaction)
    ensures
        transaction_defect(raw) is None <==> is_complete(raw),
        raw.order_id is None ==> transaction_defect(raw) is Some,
{
    if raw.fills is Some {
        lemma_fills_defect_free(raw.fills->0@);
    }
}

/// The fill holds what the raw fill says.
pub open spec fn fill_holds(fill: FillInfo, raw: RawFill) -> bool {
    &&& raw.price matches Some(text) && fill.price@ == canonical_text(text@)
    &&& raw.qty matches Some(text) && fill.qty@ == canonical_text(text@)
    &&& raw.commission matches Some(text) && fill.commission@ == canonical_text(text@)
    &&& raw.commission_asset matches Some(text) && fill.commission_asset@ == text@
    &&& fill.trade_id == raw.trade_id
}

/// The fills hold what the raw fills say, one for one and in their order.
pub open spec fn fills_hold(fills: Option<Vec<FillInfo>>, raw: Option<Vec<RawFill>>) -> bool {
    match raw {
        None => fills is None,
        Some(raw) => {
            &&& fills matches Some(fills)
            &&& fills@.len() == raw@.len()
            &&& forall|i: int| 0 <= i < raw@.len() ==> fill_holds(#[trigger] fills@[i], raw@[i])
        },
    }
}

/// The transaction holds what the acknowledgement says: every text as it
/// came, every amount in canonical form, and zero for a stop price that did
/// not come.
pub open spec fn transaction_holds(transaction: Transaction, raw: RawTransaction) -> bool {
    &&& raw.symbol matches Some(text) && transaction.symbol@ == text@
    &&& raw.order_id == Some(transaction.order_id)
    &&& transaction.order_list_id == raw.order_list_id
    &&& raw.client_order_id matches Some(text) && transaction.client_order_id@ == text@
    &&& raw.transact_time == Some(transaction.transact_time)
    &&& raw.price matches Some(text) && transaction.price@ == canonical_text(text@)
    &&& raw.orig_qty matches Some(text) && transaction.orig_qty@ == canonical_text(text@)
    &&& raw.executed_qty matches Some(text) && transaction.executed_qty@ == canonical_text(text@)
    &&& raw.cummulative_quote_qty matches Some(text) && transaction.cummulative_quote_qty@
        == canonical_text(text@)
    &&& transaction.stop_price@ == match raw.stop_price {
        Some(text) => canonical_text(text@),
        None => seq!['0'],
    }
    &&& raw.status matches Some(text) && transaction.status@ == text@
    &&& raw.time_in_force matches Some(text) && transaction.time_in_force@ == text@
    &&& raw.order_type matches Some(text) && transaction.order_type@ == text@
    &&& raw.side matches Some(text) && transaction.side@ == text@
    &&& fills_hold(transaction.fills, raw.fills)
    &&& raw.is_isolated == Some(transaction.is_isolated)
    &&& match raw.margin_buy_borrow_amount {
        Some(text) => transaction.margin_buy_borrow_amount matches Some(amount) && amount@
            == canonical_text(text@),
        None => transaction.margin_buy_borrow_amount is None,
    }
    &&& match raw.margin_borrow_asset {
        Some(text) => transaction.margin_borrow_asset matches Some(asset) && asset@ == text@,
        None => transaction.margin_borrow_asset is None,
    }
}

/// A text that must be there.
fn require_text(text: &Option<String>, field: Field) -> (found: Result<
    String,
    DeserializationError,
>)
    ensures
        match text_defect(*text, field) {
            Some(error) => found == Err::<String, DeserializationError>(error),
            None => found matches Ok(owned) && owned@ == text->0@,
        },
{
    match text {
        Some(text) => Ok(text.clone()),
        None => Err(DeserializationError::Missing(field)),
    }
}

/// A number or flag that must be there.
fn require_number<T: Copy>(number: &Option<T>, field: Field) -> (found: Result<
    T,
    DeserializationError,
>)
    ensures
        match number_defect(*number, field) {
            Some(error) => found == Err::<T, DeserializationError>(error),
            None => *number == Some(found->Ok_0) && found is Ok,
        },
{
    match number {
        Some(number) => Ok(*number),
        None => Err(DeserializationError::Missing(field)),
    }
}

/// An amount that must be there.
fn require_amount(text: &Option<String>, field: Field) -> (found: Result<
    Decimal,
    DeserializationError,
>)
    ensures
        match amount_defect(*text, field) {
            Some(error) => found == Err::<Decimal, DeserializationError>(error),
            None => found matches Ok(amount) && amount@ == canonical_text(text->0@),
        },
{
    match text {
        Some(text) => match Decimal::parse(text.as_str()) {
            Some(amount) => Ok(amount),
            None => Err(DeserializationError::NotDecimal(field)),
        },
        None => Err(DeserializationError::Missing(field)),
    }
}

/// An amount that may be missing.
fn optional_amount(text: &Option<String>, field: Field) -> (found: Result<
    Option<Decimal>,
    DeserializationError,
>)
    ensures
        match optional_amount_defect(*text, field) {
            Some(error) => found == Err::<Option<Decimal>, DeserializationError>(error),
            None => found matches Ok(amount) && match *text {
                Some(text) => amount matches Some(amount) && amount@ == canonical_text(text@),
                None => amount is None,
            },
        },
{
    match text {
        Some(text) => match Decimal::parse(text.as_str()) {
            Some(amount) => Ok(Some(amount)),
            None => Err(DeserializationError::NotDecimal(field)),
        },
        None => Ok(None),
    }
}

/// The stop price of an acknowledgement that does not say one: zero.
fn default_stop_price() -> (amount: Decimal)
    ensures
        amount@ == seq!['0'],
{
    Decimal::zero()
}

impl FillInfo {
    /// Accepts a fill as a whole, or reports the first field that is
    /// missing or is no decimal number.
    pub fn from_raw(raw: &RawFill) -> (accepted: Result<FillInfo, DeserializationError>)
        ensures
            match fill_defect(*raw) {
                Some(error) => accepted == Err::<FillInfo, DeserializationError>(error),
                None => accepted matches Ok(fill) && fill_holds(fill, *raw),
            },
    {
        let price = require_amount(&raw.price, Field::FillPrice)?;
        let qty = require_amount(&raw.qty, Field::FillQty)?;
        let commission = require_amount(&raw.commission, Field::FillCommission)?;
        let commission_asset = require_text(&raw.commission_asset, Field::FillCommissionAsset)?;
        Ok(FillInfo { price, qty, commission, commission_asset, trade_id: raw.trade_id })
    }
}

/// Accepts all fills, or reports the defect of the first that has one.
fn fills_from_raw(raw: &Vec<RawFill>) -> (accepted: Result<Vec<FillInfo>, DeserializationError>)
    ensures
        match fills_defect(raw@) {
            Some(error) => accepted == Err::<Vec<FillInfo>, DeserializationError>(error),
            None => accepted matches Ok(fills) && fills@.len() == raw@.len() && forall|i: int|
                0 <= i < raw@.len() ==> fill_holds(#[trigger] fills@[i], raw@[i]),
        },
{
    let mut fills: Vec<FillInfo> = Vec::new();
    let mut at: usize = 0;
    assert(raw@.skip(0) =~= raw@);
    while at < raw.len()
        invariant
            at <= raw@.len(),
            fills@.len() == at,
            forall|i: int| 0 <= i < at ==> fill_holds(#[trigger] fills@[i], raw@[i]),
            fills_defect(raw@) == fills_defect(raw@.skip(at as int)),
        decreases raw@.len() - at,
    {
        proof {
            let rest = raw@.skip(at as int);
            assert(rest[0] == raw@[at as int]);
            assert(rest.drop_first() =~= raw@.skip(at + 1));
        }
        match FillInfo::from_raw(&raw[at]) {
            Ok(fill) => {
                fills.push(fill);
            },
            Err(error) => {
                return Err(error);
            },
        }
        at += 1;
    }
    Ok(fills)
}

impl Transaction {
    /// Accepts an acknowledgement as a whole, or reports the first field
    /// that is missing though required, or is no decimal number though an
    /// amount. Nothing is accepted in part.
    pub fn from_raw(raw: &RawTransaction) -> (accepted: Result<Transaction, DeserializationError>)
        ensures
            match transaction_defect(*raw) {
                Some(error) => accepted == Err::<Transaction, DeserializationError>(error),
                None => accepted matches Ok(transaction) && transaction_holds(transaction, *raw),
            },
            accepted is Ok <==> is_complete(*raw),
    {
        proof {
            lemma_defect_free_iff_complete(*raw);
        }
        let symbol = require_text(&raw.symbol, Field::Symbol)?;
        let order_id = require_number(&raw.order_id, Field::OrderId)?;
        let client_order_id = require_text(&raw.client_order_id, Field::ClientOrderId)?;
        let transact_time = require_number(&raw.transact_time, Field::TransactTime)?;
        let price = require_amount(&raw.price, Field::Price)?;
        let orig_qty = require_amount(&raw.orig_qty, Field::OrigQty)?;
        let executed_qty = require_amount(&raw.executed_qty, Field::ExecutedQty)?;
        let cummulative_quote_qty = require_amount(
            &raw.cummulative_quote_qty,
            Field::CummulativeQuoteQty,
        )?;
        let stop_price = match optional_amount(&raw.stop_price, Field::StopPrice)? {
            Some(stop_price) => stop_price,
            None => default_stop_price(),
        };
        let status = require_text(&raw.status, Field::Status)?;
        let time_in_force = require_text(&raw.time_in_force, Field::TimeInForce)?;
        let order_type = require_text(&raw.order_type, Field::Type)?;
        let side = require_text(&raw.side, Field::Side)?;
        let fills = match &raw.fills {
            Some(fills) => Some(fills_from_raw(fills)?),
            None => None,
        };
        let is_isolated = require_number(&raw.is_isolated, Field::IsIsolated)?;
        let margin_buy_borrow_amount = optional_amount(
            &raw.margin_buy_borrow_amount,
            Field::MarginBuyBorrowAmount,
        )?;
        let margin_borrow_asset = match &raw.margin_borrow_asset {
            Some(asset) => Some(asset.clone()),
            None => None,
        };
        Ok(
            Transaction {
                symbol,
                order_id,
                order_list_id: raw.order_list_id,
                client_order_id,
                transact_time,
                price,
                orig_qty,
                executed_qty,
                cummulative_quote_qty,
                stop_price,
                status,
                time_in_force,
                order_type,
                side,
                fills,
                is_isolated,
                margin_buy_borrow_amount,
                margin_borrow_asset,
            },
        )
    }
}

} // verus!
