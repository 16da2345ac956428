//! The market data the bot follows: the candle history that seeds the
//! indicator and the live candle stream.

use crate::binance::utils::BASE_WS;
use crate::encoding::decimal;
use crate::encoding::decimal_string;
use crate::encoding::is_decimal_digit;
use crate::encoding::lemma_decimal_canonical;
use crate::encoding::numeral_value;
use vstd::prelude::*;

verus! {

pub const KLINES_ENDPOINT: &'static str = "/fapi/v1/klines";

/// How many candles the history asks for: the last 1499 closed ones and
/// the current one.
pub const KLINES_LIMIT: u64 = 1500;

/// The query string of the candle history of `symbol` at `interval`.
pub open spec fn klines_query_of(symbol: Seq<char>, interval: Seq<char>) -> Seq<char> {
    "symbol="@ + symbol + "&interval="@ + interval + "&limit="@ + decimal(KLINES_LIMIT as nat)
}

/// The query string of the candle history of `symbol` at `interval`; it
/// goes to `KLINES_ENDPOINT` in an unsigned GET request.
pub fn klines_query(symbol: &str, interval: &str) -> (query: String)
    ensures
        query@ == klines_query_of(symbol@, interval@),
{
    let mut query = String::new();
    query.append("symbol=");
    query.append(symbol);
    query.append("&interval=");
    query.append(interval);
    query.append("&limit=");
    let limit = decimal_string(KLINES_LIMIT as u128);
    query.append(limit.as_str());
    query
}

/// The history query names the symbol and the interval exactly as given,
/// and always ends with a `limit` parameter whose decimal value is
/// `KLINES_LIMIT`, whatever the symbol and interval.
pub proof fn lemma_klines_query_fields(symbol: Seq<char>, interval: Seq<char>)
    ensures
        ({
            let q = klines_query_of(symbol, interval);
            let with_symbol = "symbol="@ + symbol;
            let head = with_symbol + "&interval="@ + interval;
            let limit_key = head + "&limit="@;
            &&& limit_key.is_prefix_of(q)
            &&& q.subrange(("symbol="@).len() as int, with_symbol.len() as int) == symbol
            &&& q.subrange((with_symbol + "&interval="@).len() as int, head.len() as int) == interval
            &&& q.len() > limit_key.len()
            &&& numeral_value(q.subrange(limit_key.len() as int, q.len() as int)) == KLINES_LIMIT
            &&& forall|i: int| limit_key.len() <= i < q.len() ==> is_decimal_digit(#[trigger] q[i])
        }),
{
    let q = klines_query_of(symbol, interval);
    let with_symbol = "symbol="@ + symbol;
    let head = with_symbol + "&interval="@ + interval;
    let limit_key = head + "&limit="@;
    let d = decimal(KLINES_LIMIT as nat);
    lemma_decimal_canonical(KLINES_LIMIT as nat);
    assert(q =~= limit_key + d);
    assert(q.subrange(0, limit_key.len() as int) =~= limit_key);
    assert(q.subrange(("symbol="@).len() as int, with_symbol.len() as int) =~= symbol);
    assert(q.subrange((with_symbol + "&interval="@).len() as int, head.len() as int) =~= interval);
    assert(q.subrange(limit_key.len() as int, q.len() as int) =~= d);
    assert forall|i: int| limit_key.len() <= i < q.len() implies is_decimal_digit(#[trigger] q[i]) by {
        assert(q[i] == d[i - limit_key.len()]);
    }
}

/// The lowercase form of a string, as `str::to_lowercase` computes it.
pub uninterp spec fn unicode_lowercase(s: Seq<char>) -> Seq<char>;

/// Calls `str::to_lowercase`. Claimed: the result is
/// `unicode_lowercase(s)`; nothing is stated of what that is.
#[verifier::external_body]
fn to_lowercase(s: &str) -> (lower: String)
    ensures
        lower@ == unicode_lowercase(s@),
{
    s.to_lowercase()
}

/// The URL of the candle stream of `symbol` at `interval`.
pub open spec fn kline_stream_url_of(symbol: Seq<char>, interval: Seq<char>) -> Seq<char> {
    BASE_WS@ + "/ws/"@ + symbol + "@kline_"@ + interval
}

/// Builds the URL of the candle stream, with the symbol as given.
pub fn stream_url(symbol: &str, interval: &str) -> (url: String)
    ensures
        url@ == kline_stream_url_of(symbol@, interval@),
{
    let mut url = String::new();
    url.append(BASE_WS);
    url.append("/ws/");
    url.append(symbol);
    url.append("@kline_");
    url.append(interval);
    url
}

/// The URL of the candle stream, with the symbol in lowercase as the
/// stream names require.
pub fn kline_stream_url(symbol: &str, interval: &str) -> (url: String)
    ensures
        url@ == kline_stream_url_of(unicode_lowercase(symbol@), interval@),
{
    let lower = to_lowercase(symbol);
    stream_url(lower.as_str(), interval)
}

/// The stream URL holds the symbol in full between "/ws/" and "@kline_",
/// and ends with the interval, for symbols and intervals of every length.
pub proof fn lemma_kline_stream_url_fields(symbol: Seq<char>, interval: Seq<char>)
    ensures
        ({
            let u = kline_stream_url_of(symbol, interval);
            let head = BASE_WS@ + "/ws/"@;
            let tail = "@kline_"@ + interval;
            &&& (head + symbol).is_prefix_of(u)
            &&& u.subrange(head.len() as int, (head + symbol).len() as int) == symbol
            &&& tail.is_suffix_of(u)
            &&& u.len() == head.len() + symbol.len() + tail.len()
            &&& u.subrange(u.len() - interval.len(), u.len() as int) == interval
        }),
{
    let u = kline_stream_url_of(symbol, interval);
    let head = BASE_WS@ + "/ws/"@;
    let tail = "@kline_"@ + interval;
    assert(u =~= (head + symbol) + tail);
    assert(u.subrange(0, (head + symbol).len() as int) =~= head + symbol);
    assert(u.subrange(head.len() as int, (head + symbol).len() as int) =~= symbol);
    assert(u.subrange((head + symbol).len() as int, u.len() as int) =~= tail);
    assert(u.subrange(u.len() - interval.len(), u.len() as int) =~= interval);
}

} // verus!
