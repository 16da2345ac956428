//! The trader's orders and its decision on each new MACD value.

use crate::binance::utils::side_name;
use crate::binance::utils::Side;
use vstd::prelude::*;

verus! {

pub const ORDER_ENDPOINT: &'static str = "/fapi/v1/order";

pub const BALANCE_ENDPOINT: &'static str = "/fapi/v2/balance";

/// The query string of a market order.
pub open spec fn market_order_query_of(symbol: Seq<char>, side: Side, quantity: Seq<char>) -> Seq<char> {
    "symbol="@ + symbol + "&side="@ + side_name(side) + "&type=MARKET&quantity="@ + quantity
}

/// The query string of a market order of `quantity` (the decimal text of
/// the amount) on `symbol`; it goes to `ORDER_ENDPOINT` in a signed POST
/// request.
pub fn market_order_query(symbol: &str, side: Side, quantity: &str) -> (query: String)
    ensures
        query@ == market_order_query_of(symbol@, side, quantity@),
{
    let mut query = String::new();
    query.append("symbol=");
    query.append(symbol);
    query.append("&side=");
    query.append(side.as_ref());
    query.append("&type=MARKET&quantity=");
    query.append(quantity);
    query
}

/// The market order query names the symbol exactly as given, then the
/// side by its exchange name, and ends with the order type and the
/// quantity exactly as given.
pub proof fn lemma_market_order_query_fields(symbol: Seq<char>, side: Side, quantity: Seq<char>)
    ensures
        ({
            let q = market_order_query_of(symbol, side, quantity);
            let with_symbol = "symbol="@ + symbol;
            let with_side = with_symbol + "&side="@ + side_name(side);
            let tail = "&type=MARKET&quantity="@ + quantity;
            &&& with_side.is_prefix_of(q)
            &&& q.subrange(("symbol="@).len() as int, with_symbol.len() as int) == symbol
            &&& q.subrange((with_symbol + "&side="@).len() as int, with_side.len() as int) == side_name(side)
            &&& tail.is_suffix_of(q)
            &&& q.len() == with_side.len() + tail.len()
            &&& q.subrange(q.len() - quantity.len(), q.len() as int) == quantity
        }),
{
    let q = market_order_query_of(symbol, side, quantity);
    let with_symbol = "symbol="@ + symbol;
    let with_side = with_symbol + "&side="@ + side_name(side);
    let tail = "&type=MARKET&quantity="@ + quantity;
    assert(q =~= with_side + tail);
    assert(q.subrange(0, with_side.len() as int) =~= with_side);
    assert(q.subrange(("symbol="@).len() as int, with_symbol.len() as int) =~= symbol);
    assert(q.subrange((with_symbol + "&side="@).len() as int, with_side.len() as int) =~= side_name(side));
    assert(q.subrange(with_side.len() as int, q.len() as int) =~= tail);
    assert(q.subrange(q.len() - quantity.len(), q.len() as int) =~= quantity);
}

/// What the trader learns of a new MACD value `new`, given the last
/// recorded value `last` and its threshold; the caller makes these
/// comparisons on the floating-point values.
#[derive(Clone, Copy, Debug)]
pub struct MacdObservation {
    /// A value is recorded and `last * new < 0.0`: the MACD and signal
    /// series have crossed.
    pub crossed: bool,
    /// `new >= threshold`.
    pub reaches_upper: bool,
    /// `new <= -threshold`.
    pub reaches_lower: bool,
}

/// What the trader does with a new MACD value: the order it signals, if
/// any, and whether the value becomes the recorded one.
#[derive(Clone, Copy, Debug)]
pub struct TradeDecision {
    pub order: Option<Side>,
    pub record: bool,
}

/// The order a new MACD value signals.
pub open spec fn signalled_order(obs: MacdObservation) -> Option<Side> {
    if obs.crossed && obs.reaches_upper {
        Some(Side::Buy)
    } else if obs.crossed && obs.reaches_lower {
        Some(Side::Sell)
    } else {
        None
    }
}

/// An order is signalled exactly on a crossing that reaches one of the
/// bounds; a buy only when the value reaches the threshold, a sell only
/// when it reaches the negative threshold and not the threshold.
pub proof fn lemma_signalled_order_sides(obs: MacdObservation)
    ensures
        signalled_order(obs) is Some <==> obs.crossed && (obs.reaches_upper || obs.reaches_lower),
        signalled_order(obs) == Some(Side::Buy) <==> obs.crossed && obs.reaches_upper,
        signalled_order(obs) == Some(Side::Sell) <==> obs.crossed && obs.reaches_lower && !obs.reaches_upper,
{
}

/// Decides on a new MACD value: on a crossing, buy when the value reaches
/// the threshold and sell when it reaches its negative; the value is
/// recorded only when it reaches one of them.
pub fn decide(obs: MacdObservation) -> (d: TradeDecision)
    ensures
        d.order == signalled_order(obs),
        d.record == (obs.reaches_upper || obs.reaches_lower),
        d.order is Some ==> obs.crossed && d.record,
{
    let order = if obs.crossed && obs.reaches_upper {
        Some(Side::Buy)
    } else if obs.crossed && obs.reaches_lower {
        Some(Side::Sell)
    } else {
        None
    };
    TradeDecision { order, record: obs.reaches_upper || obs.reaches_lower }
}

} // verus!
