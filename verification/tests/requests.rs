use binance_macd::binance::info::kline_stream_url;
use binance_macd::binance::info::klines_query;
use binance_macd::binance::info::KLINES_LIMIT;
use binance_macd::binance::info::stream_url;
use binance_macd::binance::info::KLINES_ENDPOINT;
use binance_macd::binance::trader::market_order_query;
use binance_macd::binance::trader::BALANCE_ENDPOINT;
use binance_macd::binance::trader::ORDER_ENDPOINT;
use binance_macd::binance::utils::digest;
use binance_macd::binance::utils::leverage_query;
use binance_macd::binance::utils::LEVERAGE_ENDPOINT;
use binance_macd::binance::utils::signed_request;
use binance_macd::binance::utils::signed_request_now;
use binance_macd::binance::utils::signed_url;
use binance_macd::binance::utils::timestamp;
use binance_macd::binance::utils::unsigned_request;
use binance_macd::binance::utils::unsigned_url;
use binance_macd::binance::utils::HttpMethod;
use binance_macd::binance::utils::Side;
use binance_macd::binance::utils::BASE_HTTP;
use binance_macd::binance::utils::BASE_WS;
use binance_macd::config::BinanceConfig;

const SECRET: &str = "NhqPtmdSJYdKjVHjA7PZj4Mge3R5YNiP1e3UZjInClVN65XAbvqqM6A7H5fATj0j";

fn account() -> BinanceConfig {
    BinanceConfig { api: "vmPUZE6mv9SD5VNHk4HlWFsOr6aKE2zvsw0MuIgwCIPy6utIco14y7Ju91duEh8A".to_string(), sec: SECRET.to_string() }
}

#[test]
fn digest_rfc4231_case_2() {
    assert_eq!(
        digest(b"what do ya want for nothing?", b"Jefe"),
        "5bdcc146bf60754e6a042426089575c75a003f089d2739839dec58b964ec3843"
    );
}

#[test]
fn digest_rfc4231_case_6_long_key() {
    let key = [0xaau8; 131];
    assert_eq!(
        digest(b"Test Using Larger Than Block-Size Key - Hash Key First", &key),
        "60e431591ee0b67f0d8a26aacbf5b77f8e0bc6213728c5140546040f0ee37f54"
    );
}

#[test]
fn digest_of_exchange_example() {
    let query = "symbol=LTCBTC&side=BUY&type=LIMIT&timeInForce=GTC&quantity=1&price=0.1&recvWindow=5000&timestamp=1499827319559";
    let sig = digest(query.as_bytes(), SECRET.as_bytes());
    assert_eq!(sig, "c8db56825ae71d6d79447849e617115f4a920fa2acdcab2b053c4b2838bd6b71");
    assert_eq!(sig.len(), 64);
}

#[test]
fn timestamp_is_current_millis() {
    let before = std::time::SystemTime::now().duration_since(std::time::UNIX_EPOCH).unwrap().as_millis();
    let ts = timestamp().unwrap();
    let after = std::time::SystemTime::now().duration_since(std::time::UNIX_EPOCH).unwrap().as_millis();
    assert!(ts.chars().all(|c| c.is_ascii_digit()));
    assert!(!ts.starts_with('0'));
    let millis: u128 = ts.parse().unwrap();
    assert!(before <= millis && millis <= after);
}

#[test]
fn side_names() {
    assert_eq!(Side::Buy.as_ref(), "BUY");
    assert_eq!(Side::Sell.as_ref(), "SELL");
}

#[test]
fn unsigned_url_without_query() {
    assert_eq!(unsigned_url("/fapi/v1/time", ""), "https://fapi.binance.com/fapi/v1/time");
}

#[test]
fn unsigned_url_with_query() {
    assert_eq!(unsigned_url("/fapi/v1/klines", "symbol=BTCUSDT"), "https://fapi.binance.com/fapi/v1/klines?symbol=BTCUSDT");
}

#[test]
fn unsigned_request_carries_key() {
    let req = unsigned_request(HttpMethod::Get, "/fapi/v1/ping", "", &account());
    assert_eq!(req.method, HttpMethod::Get);
    assert_eq!(req.url, format!("{}/fapi/v1/ping", BASE_HTTP));
    assert_eq!(req.api_key, account().api);
}

#[test]
fn signed_url_appends_timestamp_and_signature() {
    let url = signed_url(
        "/api/v3/order",
        "symbol=LTCBTC&side=BUY&type=LIMIT&timeInForce=GTC&quantity=1&price=0.1&recvWindow=5000",
        "1499827319559",
        SECRET,
    );
    assert_eq!(
        url,
        "https://fapi.binance.com/api/v3/order?symbol=LTCBTC&side=BUY&type=LIMIT&timeInForce=GTC&quantity=1&price=0.1&recvWindow=5000&timestamp=1499827319559&signature=c8db56825ae71d6d79447849e617115f4a920fa2acdcab2b053c4b2838bd6b71"
    );
}

#[test]
fn signed_url_with_empty_query() {
    let url = signed_url("/fapi/v2/balance", "", "42", "k");
    let sig = digest(b"timestamp=42", b"k");
    assert_eq!(url, format!("https://fapi.binance.com/fapi/v2/balance?timestamp=42&signature={}", sig));
}

#[test]
fn signed_url_extends_unsigned_url() {
    let query = "symbol=BTCUSDT&leverage=3";
    let ts = "1600000000000";
    let signed = signed_url("/fapi/v1/leverage", query, ts, "secret");
    let timestamped = format!("{}&timestamp={}", query, ts);
    let unsigned = unsigned_url("/fapi/v1/leverage", &timestamped);
    let sig = digest(timestamped.as_bytes(), b"secret");
    assert_eq!(signed, format!("{}&signature={}", unsigned, sig));
}

#[test]
fn signed_request_carries_key_and_method() {
    let req = signed_request(HttpMethod::Post, "/fapi/v1/order", "a=1", "5", &account());
    assert_eq!(req.method, HttpMethod::Post);
    assert_eq!(req.url, signed_url("/fapi/v1/order", "a=1", "5", SECRET));
    assert_eq!(req.api_key, account().api);
}

#[test]
fn leverage_query_text() {
    assert_eq!(leverage_query("BTCUSDT", 20), "symbol=BTCUSDT&leverage=20");
    assert_eq!(leverage_query("ETHUSDT", 125), "symbol=ETHUSDT&leverage=125");
    assert_eq!(LEVERAGE_ENDPOINT, "/fapi/v1/leverage");
}

#[test]
fn leverage_signed_request_url() {
    let q = leverage_query("BTCUSDT", 20);
    let req = signed_request(HttpMethod::Post, LEVERAGE_ENDPOINT, &q, "1600000000000", &account());
    assert!(req.url.starts_with("https://fapi.binance.com/fapi/v1/leverage?symbol=BTCUSDT&leverage=20&timestamp=1600000000000&signature="));
}

#[test]
fn market_order_query_text() {
    assert_eq!(market_order_query("BTCUSDT", Side::Buy, "0.001"), "symbol=BTCUSDT&side=BUY&type=MARKET&quantity=0.001");
    assert_eq!(market_order_query("BTCUSDT", Side::Sell, "2"), "symbol=BTCUSDT&side=SELL&type=MARKET&quantity=2");
    assert_eq!(ORDER_ENDPOINT, "/fapi/v1/order");
}

#[test]
fn balance_signed_request_url() {
    let req = signed_request(HttpMethod::Get, BALANCE_ENDPOINT, "", "99", &account());
    assert_eq!(req.method, HttpMethod::Get);
    assert!(req.url.starts_with("https://fapi.binance.com/fapi/v2/balance?timestamp=99&signature="));
}

#[test]
fn signed_request_now_signs_current_time() {
    let before = std::time::SystemTime::now().duration_since(std::time::UNIX_EPOCH).unwrap().as_millis();
    let req = signed_request_now(HttpMethod::Get, BALANCE_ENDPOINT, "", &account()).unwrap();
    let after = std::time::SystemTime::now().duration_since(std::time::UNIX_EPOCH).unwrap().as_millis();
    let prefix = "https://fapi.binance.com/fapi/v2/balance?timestamp=";
    assert!(req.url.starts_with(prefix));
    let rest = &req.url[prefix.len()..];
    let (ts, sig) = rest.split_once("&signature=").unwrap();
    let millis: u128 = ts.parse().unwrap();
    assert!(before <= millis && millis <= after);
    assert_eq!(req.url, signed_url(BALANCE_ENDPOINT, "", ts, SECRET));
    assert_eq!(sig.len(), 64);
    assert_eq!(req.api_key, account().api);
}

#[test]
fn klines_query_text() {
    assert_eq!(klines_query("BTCUSDT", "1m"), "symbol=BTCUSDT&interval=1m&limit=1500");
    let req = unsigned_request(HttpMethod::Get, KLINES_ENDPOINT, &klines_query("BTCUSDT", "1m"), &account());
    assert_eq!(req.url, "https://fapi.binance.com/fapi/v1/klines?symbol=BTCUSDT&interval=1m&limit=1500");
    assert_eq!(KLINES_LIMIT, 1500);
}

#[test]
fn stream_url_lowercases_symbol() {
    assert_eq!(kline_stream_url("BTCUSDT", "1m"), "wss://fstream.binance.com/ws/btcusdt@kline_1m");
    assert_eq!(kline_stream_url("ethusdt", "15m"), format!("{}/ws/ethusdt@kline_15m", BASE_WS));
}

#[test]
fn stream_url_keeps_symbol() {
    assert_eq!(stream_url("BTCUSDT", "1h"), "wss://fstream.binance.com/ws/BTCUSDT@kline_1h");
}
