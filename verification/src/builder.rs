//! The parameter builder: from an order intent to the canonical set of
//! request parameters.
//!
//! One rule table says which parameters an intent gives rise to, and it is
//! the same for both shapes of order:
//!
//! | parameter          | present                         | value                      |
//! |--------------------|---------------------------------|----------------------------|
//! | `symbol`           | always                          | the symbol                 |
//! | `side`             | always                          | the token of the side      |
//! | `type`             | always                          | the token of the kind      |
//! | `quantity`         | on a custom order               | the quantity               |
//! | `quoteOrderQty`    | on a quote-quantity order       | the quantity               |
//! | `isIsolated`       | always                          | `TRUE` or `FALSE`          |
//! | `sideEffectType`   | always                          | the token of the effect    |
//! | `stopPrice`        | where there is a stop price     | the stop price             |
//! | `price`            | where the price is not zero     | the price                  |
//! | `timeInForce`      | where the price is not zero     | the token of the time      |
//! | `newClientOrderId` | where the caller gave one       | the identifier             |
//!
//! A price of zero stands for "no price". It is never sent, and it takes the
//! time in force with it.
//!
//! A request carries its parameters in ascending lexicographic order of
//! their names, which for the eleven names is the order of `names_in_order`.
//! The signature is computed over the parameters in that order.

use vstd::prelude::*;
use crate::codec::OrderType;
use crate::decimal::{denotes_zero, is_canonical};
use crate::lexical::{
    ascending, lemma_ascending_from_neighbours, lemma_lex_first_difference, lex_less,
};
use crate::order::{Intent, OrderIntent};
use crate::params::{
    entries_map, has_name, lemma_canonical_form_unique, position_of, strictly_ascending,
    CanonicalParameterSet,
};

verus! {

/// The token of the isolated-margin flag.
pub open spec fn flag_token(flag: bool) -> Seq<char> {
    if flag {
        "TRUE"@
    } else {
        "FALSE"@
    }
}

/// The name of the quantity field that the shape of the order calls for.
pub open spec fn quantity_name(intent: Intent) -> Seq<char> {
    if intent.in_quote {
        "quoteOrderQty"@
    } else {
        "quantity"@
    }
}

/// Whether the intent gives rise to a parameter of this name.
pub open spec fn emits(intent: Intent, name: Seq<char>) -> bool {
    ||| name == "symbol"@
    ||| name == "side"@
    ||| name == "type"@
    ||| name == quantity_name(intent)
    ||| name == "isIsolated"@
    ||| name == "sideEffectType"@
    ||| (name == "stopPrice"@ && intent.stop_price is Some)
    ||| (name == "price"@ && !denotes_zero(intent.price))
    ||| (name == "timeInForce"@ && !denotes_zero(intent.price))
    ||| (name == "newClientOrderId"@ && intent.client_order_id is Some)
}

/// The value of the parameter of this name, where the intent gives rise to one.
pub open spec fn value_of(intent: Intent, name: Seq<char>) -> Seq<char> {
    if name == "symbol"@ {
        intent.symbol
    } else if name == "side"@ {
        intent.side.token()
    } else if name == "type"@ {
        intent.order_type.token()
    } else if name == quantity_name(intent) {
        intent.quantity
    } else if name == "isIsolated"@ {
        flag_token(intent.is_isolated)
    } else if name == "sideEffectType"@ {
        intent.side_effect.token()
    } else if name == "stopPrice"@ {
        intent.stop_price->0
    } else if name == "price"@ {
        intent.price
    } else if name == "timeInForce"@ {
        intent.time_in_force.token()
    } else {
        intent.client_order_id->0
    }
}

/// The parameters that an intent gives rise to, by name.
pub open spec fn rule_table(intent: Intent) -> Map<Seq<char>, Seq<char>> {
    Map::new(|name: Seq<char>| emits(intent, name), |name: Seq<char>| value_of(intent, name))
}

/// The eleven parameter names are eleven different texts.
pub proof fn lemma_parameter_names()
    ensures
        "symbol"@.len() == 6,
        "side"@.len() == 4,
        "type"@.len() == 4,
        "side"@ != "type"@,
        "quantity"@.len() == 8,
        "quoteOrderQty"@.len() == 13,
        "isIsolated"@.len() == 10,
        "sideEffectType"@.len() == 14,
        "stopPrice"@.len() == 9,
        "price"@.len() == 5,
        "timeInForce"@.len() == 11,
        "newClientOrderId"@.len() == 16,
{
    reveal_strlit("symbol");
    reveal_strlit("side");
    reveal_strlit("type");
    reveal_strlit("quantity");
    reveal_strlit("quoteOrderQty");
    reveal_strlit("isIsolated");
    reveal_strlit("sideEffectType");
    reveal_strlit("stopPrice");
    reveal_strlit("price");
    reveal_strlit("timeInForce");
    reveal_strlit("newClientOrderId");
    assert("side"@[0] == 's');
    assert("type"@[0] == 't');
}

/// The eleven parameter names in the order in which a request carries them.
pub open spec fn names_in_order() -> Seq<Seq<char>> {
    seq![
        "isIsolated"@,
        "newClientOrderId"@,
        "price"@,
        "quantity"@,
        "quoteOrderQty"@,
        "side"@,
        "sideEffectType"@,
        "stopPrice"@,
        "symbol"@,
        "timeInForce"@,
        "type"@,
    ]
}

/// The parameters that an intent gives rise to under the given names, in
/// the order of the names.
pub open spec fn entries_under(intent: Intent, names: Seq<Seq<char>>) -> Seq<
    (Seq<char>, Seq<char>),
>
    decreases names.len(),
{
    if names.len() == 0 {
        Seq::empty()
    } else if emits(intent, names[0]) {
        seq![(names[0], value_of(intent, names[0]))] + entries_under(intent, names.drop_first())
    } else {
        entries_under(intent, names.drop_first())
    }
}

/// The parameters of a request, in the order in which the request carries
/// them: those of the eleven names that the intent gives rise to.
pub open spec fn request_entries(intent: Intent) -> Seq<(Seq<char>, Seq<char>)> {
    entries_under(intent, names_in_order())
}

/// The eleven names stand in ascending lexicographic order.
pub proof fn lemma_names_in_order_ascending()
    ensures
        ascending(names_in_order()),
{
    let names = names_in_order();
    reveal_strlit("isIsolated");
    reveal_strlit("newClientOrderId");
    reveal_strlit("price");
    reveal_strlit("quantity");
    reveal_strlit("quoteOrderQty");
    reveal_strlit("side");
    reveal_strlit("sideEffectType");
    reveal_strlit("stopPrice");
    reveal_strlit("symbol");
    reveal_strlit("timeInForce");
    reveal_strlit("type");
    assert("isIsolated"@.take(0) =~= "newClientOrderId"@.take(0));
    lemma_lex_first_difference("isIsolated"@, "newClientOrderId"@, 0);
    assert("newClientOrderId"@.take(0) =~= "price"@.take(0));
    lemma_lex_first_difference("newClientOrderId"@, "price"@, 0);
    assert("price"@.take(0) =~= "quantity"@.take(0));
    lemma_lex_first_difference("price"@, "quantity"@, 0);
    assert("quantity"@.take(2) =~= "quoteOrderQty"@.take(2));
    lemma_lex_first_difference("quantity"@, "quoteOrderQty"@, 2);
    assert("quoteOrderQty"@.take(0) =~= "side"@.take(0));
    lemma_lex_first_difference("quoteOrderQty"@, "side"@, 0);
    assert("side"@.take(4) =~= "sideEffectType"@.take(4));
    lemma_lex_first_difference("side"@, "sideEffectType"@, 4);
    assert("sideEffectType"@.take(1) =~= "stopPrice"@.take(1));
    lemma_lex_first_difference("sideEffectType"@, "stopPrice"@, 1);
    assert("stopPrice"@.take(1) =~= "symbol"@.take(1));
    lemma_lex_first_difference("stopPrice"@, "symbol"@, 1);
    assert("symbol"@.take(0) =~= "timeInForce"@.take(0));
    lemma_lex_first_difference("symbol"@, "timeInForce"@, 0);
    assert("timeInForce"@.take(1) =~= "type"@.take(1));
    lemma_lex_first_difference("timeInForce"@, "type"@, 1);
    assert forall|i: int| 0 <= i < names.len() - 1 implies lex_less(
        #[trigger] names[i],
        names[i + 1],
    ) by {}
    lemma_ascending_from_neighbours(names);
}

/// What `entries_under` holds: for each of the names that the intent gives
/// rise to, and for no other, the name with its value; in ascending order
/// where the names are.
pub proof fn lemma_entries_under(intent: Intent, names: Seq<Seq<char>>)
    ensures
        forall|i: int|
            0 <= i < entries_under(intent, names).len() ==> {
                let entry = #[trigger] entries_under(intent, names)[i];
                &&& names.contains(entry.0)
                &&& emits(intent, entry.0)
                &&& entry.1 == value_of(intent, entry.0)
            },
        forall|i: int|
            0 <= i < names.len() && emits(intent, #[trigger] names[i]) ==> has_name(
                entries_under(intent, names),
                names[i],
            ),
        ascending(names) ==> strictly_ascending(entries_under(intent, names)),
    decreases names.len(),
{
    let entries = entries_under(intent, names);
    if names.len() > 0 {
        let rest_names = names.drop_first();
        let rest = entries_under(intent, rest_names);
        lemma_entries_under(intent, rest_names);
        let shift: int = if emits(intent, names[0]) {
            1
        } else {
            0
        };
        assert forall|i: int| shift <= i < entries.len() implies #[trigger] entries[i] == rest[i
            - shift] by {}
        assert forall|i: int| 0 <= i < rest.len() implies names.contains(
            (#[trigger] rest[i]).0,
        ) by {
            let k = choose|k: int| 0 <= k < rest_names.len() && rest_names[k] == rest[i].0;
            assert(names[k + 1] == rest[i].0);
        }
        assert forall|i: int| 0 <= i < entries.len() implies {
            let entry = #[trigger] entries[i];
            &&& names.contains(entry.0)
            &&& emits(intent, entry.0)
            &&& entry.1 == value_of(intent, entry.0)
        } by {
            if i >= shift {
                assert(entries[i] == rest[i - shift]);
            } else {
                assert(names[0] == entries[i].0);
            }
        }
        assert forall|i: int| 0 <= i < names.len() && emits(
            intent,
            #[trigger] names[i],
        ) implies has_name(entries, names[i]) by {
            if i == 0 {
                assert(entries[0].0 == names[0]);
            } else {
                assert(rest_names[i - 1] == names[i]);
                let k = position_of(rest, names[i]);
                assert(entries[k + shift] == rest[k]);
            }
        }
        if ascending(names) {
            assert forall|i: int, j: int| 0 <= i < j < rest_names.len() implies lex_less(
                #[trigger] rest_names[i],
                #[trigger] rest_names[j],
            ) by {
                assert(rest_names[i] == names[i + 1] && rest_names[j] == names[j + 1]);
            }
            assert forall|i: int, j: int| 0 <= i < j < entries.len() implies lex_less(
                (#[trigger] entries[i]).0,
                (#[trigger] entries[j]).0,
            ) by {
                assert(entries[j] == rest[j - shift]);
                if i >= shift {
                    assert(entries[i] == rest[i - shift]);
                } else {
                    let k = choose|k: int|
                        0 <= k < rest_names.len() && rest_names[k] == rest[j - shift].0;
                    assert(names[k + 1] == rest_names[k]);
                    assert(lex_less(names[0], names[k + 1]));
                }
            }
        }
    }
}

/// The entries of a request stand in ascending order and are the
/// parameters of the rule table.
pub proof fn lemma_request_entries(intent: Intent)
    ensures
        strictly_ascending(request_entries(intent)),
        entries_map(request_entries(intent)) == rule_table(intent),
{
    let names = names_in_order();
    let entries = request_entries(intent);
    lemma_names_in_order_ascending();
    lemma_entries_under(intent, names);
    let left = entries_map(entries);
    let right = rule_table(intent);
    assert forall|name: Seq<char>| #[trigger] left.contains_key(name) implies right.contains_key(
        name,
    ) && left[name] == right[name] by {
        let k = position_of(entries, name);
        assert(entries[k].0 == name);
    }
    assert forall|name: Seq<char>| #[trigger] right.contains_key(name) implies left.contains_key(
        name,
    ) by {
        lemma_no_other_names(intent, name);
        let k = choose|k: int| 0 <= k < names.len() && names[k] == name;
        assert(names[0] == "isIsolated"@);
        assert(names[1] == "newClientOrderId"@);
        assert(names[2] == "price"@);
        assert(names[3] == "quantity"@);
        assert(names[4] == "quoteOrderQty"@);
        assert(names[5] == "side"@);
        assert(names[6] == "sideEffectType"@);
        assert(names[7] == "stopPrice"@);
        assert(names[8] == "symbol"@);
        assert(names[9] == "timeInForce"@);
        assert(names[10] == "type"@);
        assert(emits(intent, names[k]));
    }
    assert(left.dom() =~= right.dom());
    assert(left =~= right);
}

/// The symbol, the side and the kind of an order are always sent.
pub proof fn lemma_order_fields_present(intent: Intent)
    ensures
        rule_table(intent).contains_key("symbol"@),
        rule_table(intent)["symbol"@] == intent.symbol,
        rule_table(intent).contains_key("side"@),
        rule_table(intent)["side"@] == intent.side.token(),
        rule_table(intent).contains_key("type"@),
        rule_table(intent)["type"@] == intent.order_type.token(),
{
    lemma_parameter_names();
}

/// The isolated-margin flag and the side effect are always sent, and the
/// flag is written `TRUE` or `FALSE`.
pub proof fn lemma_margin_fields_present(intent: Intent)
    ensures
        rule_table(intent).contains_key("isIsolated"@),
        rule_table(intent)["isIsolated"@] == flag_token(intent.is_isolated),
        rule_table(intent)["isIsolated"@] == "TRUE"@ || rule_table(intent)["isIsolated"@]
            == "FALSE"@,
        rule_table(intent).contains_key("sideEffectType"@),
        rule_table(intent)["sideEffectType"@] == intent.side_effect.token(),
{
    lemma_parameter_names();
}

/// A stop price is sent where the intent has one, as the intent has it,
/// and not otherwise.
pub proof fn lemma_stop_price_iff_given(intent: Intent)
    ensures
        rule_table(intent).contains_key("stopPrice"@) <==> intent.stop_price is Some,
        intent.stop_price matches Some(stop) ==> rule_table(intent)["stopPrice"@] == stop,
{
    lemma_parameter_names();
}

/// A price of zero is not sent and takes the time in force with it; any
/// other price is sent, and the time in force with it.
pub proof fn lemma_price_with_time_in_force(intent: Intent)
    ensures
        rule_table(intent).contains_key("price"@) <==> !denotes_zero(intent.price),
        rule_table(intent).contains_key("timeInForce"@) <==> !denotes_zero(intent.price),
        !denotes_zero(intent.price) ==> rule_table(intent)["price"@] == intent.price,
        !denotes_zero(intent.price) ==> rule_table(intent)["timeInForce"@]
            == intent.time_in_force.token(),
{
    lemma_parameter_names();
}

/// Of the two quantity fields exactly one is sent: `quoteOrderQty` for a
/// quantity in the quote asset, `quantity` for one in the base asset.
pub proof fn lemma_one_quantity_field(intent: Intent)
    ensures
        rule_table(intent).contains_key("quoteOrderQty"@) <==> intent.in_quote,
        rule_table(intent).contains_key("quantity"@) <==> !intent.in_quote,
        rule_table(intent)[quantity_name(intent)] == intent.quantity,
{
    lemma_parameter_names();
}

/// The caller's identifier is sent where the caller gave one, as given, and
/// not otherwise.
pub proof fn lemma_client_order_id_iff_given(intent: Intent)
    ensures
        rule_table(intent).contains_key("newClientOrderId"@) <==> intent.client_order_id is Some,
        intent.client_order_id matches Some(id) ==> rule_table(intent)["newClientOrderId"@] == id,
{
    lemma_parameter_names();
}

/// Nothing is sent under any name but the eleven of the rule table.
pub proof fn lemma_no_other_names(intent: Intent, name: Seq<char>)
    requires
        rule_table(intent).contains_key(name),
    ensures
        name == "symbol"@ || name == "side"@ || name == "type"@ || name == "quantity"@ || name
            == "quoteOrderQty"@ || name == "isIsolated"@ || name == "sideEffectType"@ || name
            == "stopPrice"@ || name == "price"@ || name == "timeInForce"@ || name
            == "newClientOrderId"@,
{
}

/// Builds the canonical parameter set of an intent.
///
/// The set holds exactly the parameters of the rule table, in ascending
/// lexicographic order of their names.
pub fn build_parameters(intent: OrderIntent) -> (parameters: CanonicalParameterSet)
    ensures
        parameters@ == request_entries(intent@),
        strictly_ascending(parameters@),
        parameters.as_map() == rule_table(intent@),
        parameters.as_map().contains_key("isIsolated"@),
        parameters.as_map()["isIsolated"@] == "TRUE"@ || parameters.as_map()["isIsolated"@]
            == "FALSE"@,
        parameters.as_map().contains_key("sideEffectType"@),
        parameters.as_map().contains_key("stopPrice"@) <==> intent@.stop_price is Some,
        intent@.stop_price matches Some(stop) ==> parameters.as_map()["stopPrice"@] == stop
            && is_canonical(stop),
        parameters.as_map().contains_key("price"@) <==> !denotes_zero(intent@.price),
        parameters.as_map().contains_key("timeInForce"@) <==> !denotes_zero(intent@.price),
        parameters.as_map().contains_key("quoteOrderQty"@) <==> intent is QuoteQuantity,
        parameters.as_map().contains_key("quantity"@) <==> intent is Custom,
{
    let ghost table = rule_table(intent@);
    proof {
        lemma_margin_fields_present(intent@);
        lemma_stop_price_iff_given(intent@);
        lemma_price_with_time_in_force(intent@);
        lemma_one_quantity_field(intent@);
    }
    let (
        symbol,
        side,
        order_type,
        quantity_name,
        quantity,
        price,
        time_in_force,
        stop_price,
        client_order_id,
        is_isolated,
        side_effect,
    ) = match intent {
        OrderIntent::Custom(order) => (
            order.symbol,
            order.order_side,
            order.order_type,
            "quantity",
            order.qty,
            order.price,
            order.time_in_force,
            order.stop_price,
            order.new_client_order_id,
            order.is_isolated,
            order.side_effect_type,
        ),
        OrderIntent::QuoteQuantity(order) => (
            order.symbol,
            order.order_side,
            OrderType::Market,
            "quoteOrderQty",
            order.quote_order_qty,
            order.price,
            order.time_in_force,
            None,
            order.new_client_order_id,
            order.is_isolated,
            order.side_effect_type,
        ),
    };
    let mut parameters = CanonicalParameterSet::new();
    parameters.insert("symbol", symbol);
    parameters.insert("side", String::from_str(side.wire_token()));
    parameters.insert("type", String::from_str(order_type.wire_token()));
    parameters.insert(quantity_name, quantity.into_text());
    parameters.insert(
        "isIsolated",
        String::from_str(
            if is_isolated {
                "TRUE"
            } else {
                "FALSE"
            },
        ),
    );
    parameters.insert("sideEffectType", String::from(side_effect));
    if let Some(stop) = stop_price {
        parameters.insert("stopPrice", stop.into_text());
    }
    if !price.is_zero() {
        parameters.insert("price", price.into_text());
        parameters.insert("timeInForce", String::from_str(time_in_force.wire_token()));
    }
    if let Some(id) = client_order_id {
        parameters.insert("newClientOrderId", id);
    }
    proof {
        lemma_parameter_names();
        assert(parameters.as_map() =~= table);
        lemma_request_entries(intent@);
        lemma_canonical_form_unique(parameters@, request_entries(intent@));
    }
    parameters
}

} // verus!
