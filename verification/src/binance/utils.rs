//! Endpoints, request signing and the clock.

use crate::config::BinanceConfig;
use crate::encoding::decimal;
use crate::encoding::decimal_string;
use crate::encoding::hex_decode;
use crate::encoding::hex_encode;
use crate::encoding::hex_lower;
use crate::encoding::is_decimal_digit;
use crate::encoding::is_lower_hex_digit;
use crate::encoding::lemma_decimal_canonical;
use crate::encoding::lemma_hex_round_trip;
use crate::encoding::numeral_value;
use hmac::Hmac;
use hmac::Mac;
use hmac::NewMac;
use sha2::Sha256;
use std::time::Duration;
use std::time::SystemTime;
use std::time::SystemTimeError;
use std::time::UNIX_EPOCH;
use vstd::prelude::*;
use vstd::utf8::encode_utf8;

verus! {

pub const BASE_HTTP: &'static str = "https://fapi.binance.com";

pub const BASE_WS: &'static str = "wss://fstream.binance.com";

/// The header that carries the account's API key.
pub const API_KEY_HEADER: &'static str = "X-MBX-APIKEY";

/// The side of an order.
#[derive(Clone, Copy, Debug, PartialEq, Eq, Structural)]
pub enum Side {
    Buy,
    Sell,
}

/// The name the exchange uses for a side.
pub open spec fn side_name(side: Side) -> Seq<char> {
    match side {
        Side::Buy => "BUY"@,
        Side::Sell => "SELL"@,
    }
}

impl Side {
    /// "BUY" or "SELL".
    pub fn as_ref(&self) -> (name: &'static str)
        ensures
            name@ == side_name(*self),
    {
        match self {
            Side::Buy => "BUY",
            Side::Sell => "SELL",
        }
    }
}

/// The two sides have different names.
pub proof fn lemma_side_names_differ()
    ensures
        side_name(Side::Buy) != side_name(Side::Sell),
{
    reveal_strlit("BUY");
    reveal_strlit("SELL");
    assert(side_name(Side::Buy).len() != side_name(Side::Sell).len());
}

/// HMAC-SHA256 of `message` under `key`, as `hmac::Hmac<sha2::Sha256>`
/// computes it.
pub uninterp spec fn hmac_sha256(key: Seq<u8>, message: Seq<u8>) -> Seq<u8>;

/// Calls `Hmac::<Sha256>::new_from_slice`, `Mac::update` and `Mac::finalize`
/// (hmac 0.11). Claimed: the tag is `hmac_sha256(key, message)` and is 32
/// bytes long (the output size of SHA-256). `new_from_slice` of `Hmac`
/// accepts keys of every length (it pads or hashes the key), so the
/// `unwrap` never fails.
#[verifier::external_body]
fn hmac_sha256_tag(message: &[u8], key: &[u8]) -> (tag: Vec<u8>)
    ensures
        tag@ == hmac_sha256(key@, message@),
        tag@.len() == 32,
{
    let mut mac = Hmac::<Sha256>::new_from_slice(key).unwrap();
    mac.update(message);
    mac.finalize().into_bytes().to_vec()
}

/// The HMAC-SHA256 of `message` under `key`, in lowercase hexadecimal.
pub fn digest(message: &[u8], key: &[u8]) -> (signature: String)
    ensures
        signature@ == hex_lower(hmac_sha256(key@, message@)),
        signature@.len() == 64,
        forall|i: int|
            0 <= i < signature@.len() ==> is_lower_hex_digit(#[trigger] signature@[i]),
{
    let tag = hmac_sha256_tag(message, key);
    proof {
        lemma_hex_round_trip(tag@);
    }
    hex_encode(tag.as_slice())
}

#[verifier::external_type_specification]
#[verifier::external_body]
pub struct ExSystemTime(SystemTime);

#[verifier::external_type_specification]
#[verifier::external_body]
pub struct ExSystemTimeError(SystemTimeError);

/// Calls `SystemTime::now`. Nothing is claimed of the time it reads.
#[verifier::external_body]
fn system_now() -> SystemTime {
    SystemTime::now()
}

/// Calls `SystemTime::duration_since(UNIX_EPOCH)`. It fails when `t` lies
/// before the epoch; nothing is claimed of the duration.
#[verifier::external_body]
fn duration_since_unix_epoch(t: &SystemTime) -> Result<Duration, SystemTimeError> {
    t.duration_since(UNIX_EPOCH)
}

/// Calls `Duration::as_millis`. Nothing is claimed of the number.
#[verifier::external_body]
fn duration_millis(d: &Duration) -> u128 {
    d.as_millis()
}

/// The clock reads a time before 1970-01-01 00:00:00 UTC.
#[derive(Clone, Copy, Debug, PartialEq, Eq, Structural)]
pub enum TimeError {
    BeforeUnixEpoch,
}

/// The milliseconds since the Unix epoch by the clock.
fn unix_millis() -> (millis: Result<u128, TimeError>) {
    let now = system_now();
    match duration_since_unix_epoch(&now) {
        Ok(elapsed) => Ok(duration_millis(&elapsed)),
        Err(_) => Err(TimeError::BeforeUnixEpoch),
    }
}

/// The current time in milliseconds since the Unix epoch, in decimal.
/// What the number is depends on the clock; whatever it reads, a success
/// is a decimal numeral without leading zeros.
pub fn timestamp() -> (ts: Result<String, TimeError>)
    ensures
        ts matches Ok(s) ==> exists|millis: u128| s@ == #[trigger] decimal(millis as nat),
        ts matches Ok(s) ==> s@.len() >= 1 && (s@[0] == '0' ==> s@.len() == 1),
        ts matches Ok(s) ==> forall|i: int| 0 <= i < s@.len() ==> is_decimal_digit(#[trigger] s@[i]),
{
    match unix_millis() {
        Ok(millis) => {
            let s = decimal_string(millis);
            proof {
                lemma_decimal_canonical(millis as nat);
                if s@[0] == '0' {
                    assert(millis == 0);
                }
            }
            Ok(s)
        },
        Err(e) => Err(e),
    }
}

/// The HTTP methods the bot uses.
#[derive(Clone, Copy, Debug, PartialEq, Eq, Structural)]
pub enum HttpMethod {
    Get,
    Post,
}

/// A request ready to be sent: the method, the full URL, and the API key
/// that goes in the `X-MBX-APIKEY` header.
#[derive(Clone, Debug)]
pub struct Request {
    pub method: HttpMethod,
    pub url: String,
    pub api_key: String,
}

/// The URL of an unsigned request: the base, the endpoint, and the query
/// string after a `?` unless it is empty.
pub open spec fn unsigned_url_of(endpoint: Seq<char>, qstring: Seq<char>) -> Seq<char> {
    if qstring.len() == 0 {
        BASE_HTTP@ + endpoint
    } else {
        BASE_HTTP@ + endpoint + "?"@ + qstring
    }
}

/// Builds the URL of an unsigned request.
pub fn unsigned_url(endpoint: &str, qstring: &str) -> (url: String)
    ensures
        url@ == unsigned_url_of(endpoint@, qstring@),
{
    let mut url = String::new();
    url.append(BASE_HTTP);
    url.append(endpoint);
    if !qstring.is_empty() {
        url.append("?");
        url.append(qstring);
    }
    url
}

/// An unsigned request to `endpoint` with the query string `qstring`.
pub fn unsigned_request(method: HttpMethod, endpoint: &str, qstring: &str, config: &BinanceConfig) -> (req: Request)
    ensures
        req.method == method,
        req.url@ == unsigned_url_of(endpoint@, qstring@),
        req.api_key@ == config.api@,
{
    Request { method, url: unsigned_url(endpoint, qstring), api_key: config.api.clone() }
}

/// The unsigned URL is the base and the endpoint as given, followed by
/// `?` and the query string exactly as given when it is not empty, and by
/// nothing when it is.
pub proof fn lemma_unsigned_url_fields(endpoint: Seq<char>, qstring: Seq<char>)
    ensures
        ({
            let url = unsigned_url_of(endpoint, qstring);
            let head = BASE_HTTP@ + endpoint;
            &&& head.is_prefix_of(url)
            &&& qstring.len() == 0 ==> url == head
            &&& qstring.len() > 0 ==> url.len() == head.len() + ("?"@).len() + qstring.len()
                && url.subrange(head.len() as int, (head + "?"@).len() as int) == "?"@
                && qstring.is_suffix_of(url)
        }),
{
    let url = unsigned_url_of(endpoint, qstring);
    let head = BASE_HTTP@ + endpoint;
    if qstring.len() == 0 {
        assert(url =~= head);
    } else {
        assert(url =~= head + "?"@ + qstring);
        assert(url.subrange(head.len() as int, (head + "?"@).len() as int) =~= "?"@);
        assert(url.subrange(url.len() - qstring.len(), url.len() as int) =~= qstring);
    }
    assert(url.subrange(0, head.len() as int) =~= head);
}

/// The query string with the `timestamp` parameter appended.
pub open spec fn timestamped_query(qstring: Seq<char>, timestamp: Seq<char>) -> Seq<char> {
    (if qstring.len() == 0 {
        qstring
    } else {
        qstring.push('&')
    }) + "timestamp="@ + timestamp
}

/// The signature of a query: its HMAC-SHA256 under the secret, in
/// lowercase hexadecimal, both taken as UTF-8 bytes.
pub open spec fn signature_of(query: Seq<char>, secret: Seq<char>) -> Seq<char> {
    hex_lower(hmac_sha256(encode_utf8(secret), encode_utf8(query)))
}

/// The URL of a signed request: the query string with its timestamp,
/// followed by the `signature` parameter that signs it.
pub open spec fn signed_url_of(
    endpoint: Seq<char>,
    qstring: Seq<char>,
    timestamp: Seq<char>,
    secret: Seq<char>,
) -> Seq<char> {
    let query = timestamped_query(qstring, timestamp);
    BASE_HTTP@ + endpoint + "?"@ + query + "&signature="@ + signature_of(query, secret)
}

/// Builds the URL of a signed request made at `timestamp` with the account
/// secret `secret`.
pub fn signed_url(endpoint: &str, qstring: &str, timestamp: &str, secret: &str) -> (url: String)
    ensures
        url@ == signed_url_of(endpoint@, qstring@, timestamp@, secret@),
        signature_of(timestamped_query(qstring@, timestamp@), secret@).len() == 64,
{
    let mut query = String::new();
    query.append(qstring);
    if !qstring.is_empty() {
        query.push('&');
    }
    query.append("timestamp=");
    query.append(timestamp);
    let signature = digest(query.as_str().as_bytes(), secret.as_bytes());
    let mut url = String::new();
    url.append(BASE_HTTP);
    url.append(endpoint);
    url.append("?");
    url.append(query.as_str());
    url.append("&signature=");
    url.append(signature.as_str());
    url
}

/// A signed request to `endpoint` with the query string `qstring`, made at
/// `timestamp` with the account's key and secret.
pub fn signed_request(
    method: HttpMethod,
    endpoint: &str,
    qstring: &str,
    timestamp: &str,
    config: &BinanceConfig,
) -> (req: Request)
    ensures
        req.method == method,
        req.url@ == signed_url_of(endpoint@, qstring@, timestamp@, config.sec@),
        req.api_key@ == config.api@,
{
    Request {
        method,
        url: signed_url(endpoint, qstring, timestamp, config.sec.as_str()),
        api_key: config.api.clone(),
    }
}

/// A signed request to `endpoint` with the query string `qstring`, made
/// now: the query carries the current time in milliseconds since the Unix
/// epoch. Which time that is depends on the clock.
pub fn signed_request_now(
    method: HttpMethod,
    endpoint: &str,
    qstring: &str,
    config: &BinanceConfig,
) -> (req: Result<Request, TimeError>)
    ensures
        req matches Ok(r) ==> {
            &&& r.method == method
            &&& r.api_key@ == config.api@
            &&& exists|millis: u128|
                r.url@ == signed_url_of(endpoint@, qstring@, #[trigger] decimal(millis as nat), config.sec@)
        },
{
    match unix_millis() {
        Ok(millis) => {
            let ts = decimal_string(millis);
            let r = signed_request(method, endpoint, qstring, ts.as_str(), config);
            assert(r.url@ == signed_url_of(endpoint@, qstring@, decimal(millis as nat), config.sec@));
            Ok(r)
        },
        Err(e) => Err(e),
    }
}

/// The timestamped query keeps the caller's parameters first, unchanged,
/// and ends with the `timestamp` parameter.
pub proof fn lemma_timestamped_query_shape(qstring: Seq<char>, timestamp: Seq<char>)
    ensures
        qstring.is_prefix_of(timestamped_query(qstring, timestamp)),
        ("timestamp="@ + timestamp).is_suffix_of(timestamped_query(qstring, timestamp)),
{
    let q = timestamped_query(qstring, timestamp);
    let head = if qstring.len() == 0 { qstring } else { qstring.push('&') };
    assert(q =~= head + ("timestamp="@ + timestamp));
    assert(q.subrange(0, qstring.len() as int) =~= qstring);
    assert(q.subrange(head.len() as int, q.len() as int) =~= "timestamp="@ + timestamp);
}

/// A signed URL is the unsigned URL of the timestamped query followed by
/// the `signature` parameter.
pub proof fn lemma_signed_url_extends_unsigned(
    endpoint: Seq<char>,
    qstring: Seq<char>,
    timestamp: Seq<char>,
    secret: Seq<char>,
)
    ensures
        signed_url_of(endpoint, qstring, timestamp, secret) == unsigned_url_of(
            endpoint,
            timestamped_query(qstring, timestamp),
        ) + "&signature="@ + signature_of(timestamped_query(qstring, timestamp), secret),
{
    reveal_strlit("timestamp=");
    let query = timestamped_query(qstring, timestamp);
    assert(query.len() > 0);
    assert((BASE_HTTP@ + endpoint + "?"@ + query + "&signature="@ + signature_of(query, secret))
        =~= (BASE_HTTP@ + endpoint + "?"@ + query) + "&signature="@ + signature_of(query, secret));
}

/// The signed URL sends the caller's endpoint and the query string
/// followed by the `timestamp` parameter, and the value of its `signature`
/// parameter, read as hexadecimal, is the HMAC-SHA256 keyed by the UTF-8
/// bytes of the secret over the UTF-8 bytes of exactly that query.
pub proof fn lemma_signed_url_signature(
    endpoint: Seq<char>,
    qstring: Seq<char>,
    timestamp: Seq<char>,
    secret: Seq<char>,
)
    ensures
        ({
            let query = if qstring.len() == 0 {
                "timestamp="@ + timestamp
            } else {
                qstring.push('&') + "timestamp="@ + timestamp
            };
            let url = signed_url_of(endpoint, qstring, timestamp, secret);
            let head = BASE_HTTP@ + endpoint + "?"@ + query + "&signature="@;
            &&& head.is_prefix_of(url)
            &&& hex_decode(url.subrange(head.len() as int, url.len() as int)) == hmac_sha256(
                encode_utf8(secret),
                encode_utf8(query),
            )
            &&& forall|i: int|
                head.len() <= i < url.len() ==> is_lower_hex_digit(#[trigger] url[i])
        }),
{
    let query = if qstring.len() == 0 {
        "timestamp="@ + timestamp
    } else {
        qstring.push('&') + "timestamp="@ + timestamp
    };
    assert(timestamped_query(qstring, timestamp) =~= query);
    let url = signed_url_of(endpoint, qstring, timestamp, secret);
    let head = BASE_HTTP@ + endpoint + "?"@ + query + "&signature="@;
    let tag = hmac_sha256(encode_utf8(secret), encode_utf8(query));
    assert(url =~= head + hex_lower(tag));
    assert(url.subrange(0, head.len() as int) =~= head);
    assert(url.subrange(head.len() as int, url.len() as int) =~= hex_lower(tag));
    lemma_hex_round_trip(tag);
    assert forall|i: int| head.len() <= i < url.len() implies is_lower_hex_digit(#[trigger] url[i]) by {
        assert(url[i] == hex_lower(tag)[i - head.len()]);
    }
}

/// The query string of a leverage change.
pub open spec fn leverage_query_of(symbol: Seq<char>, leverage: u64) -> Seq<char> {
    "symbol="@ + symbol + "&leverage="@ + decimal(leverage as nat)
}

pub const LEVERAGE_ENDPOINT: &'static str = "/fapi/v1/leverage";

/// The query string that sets the account's leverage for `symbol`; it goes
/// to `LEVERAGE_ENDPOINT` in a signed POST request.
pub fn leverage_query(symbol: &str, leverage: u64) -> (query: String)
    ensures
        query@ == leverage_query_of(symbol@, leverage),
{
    let mut query = String::new();
    query.append("symbol=");
    query.append(symbol);
    query.append("&leverage=");
    let lev = decimal_string(leverage as u128);
    query.append(lev.as_str());
    query
}

/// The leverage query names the symbol exactly as given, and the value of
/// its `leverage` parameter is a decimal numeral that reads back as the
/// requested leverage.
pub proof fn lemma_leverage_query_fields(symbol: Seq<char>, leverage: u64)
    ensures
        ({
            let q = leverage_query_of(symbol, leverage);
            let head = "symbol="@ + symbol + "&leverage="@;
            &&& head.is_prefix_of(q)
            &&& q.subrange(("symbol="@).len() as int, ("symbol="@ + symbol).len() as int) == symbol
            &&& q.len() > head.len()
            &&& numeral_value(q.subrange(head.len() as int, q.len() as int)) == leverage
            &&& forall|i: int| head.len() <= i < q.len() ==> is_decimal_digit(#[trigger] q[i])
        }),
{
    let q = leverage_query_of(symbol, leverage);
    let head = "symbol="@ + symbol + "&leverage="@;
    let d = decimal(leverage as nat);
    lemma_decimal_canonical(leverage as nat);
    assert(q =~= head + d);
    assert(q.subrange(0, head.len() as int) =~= head);
    assert(q.subrange(head.len() as int, q.len() as int) =~= d);
    assert(q.subrange(("symbol="@).len() as int, ("symbol="@ + symbol).len() as int) =~= symbol);
    assert forall|i: int| head.len() <= i < q.len() implies is_decimal_digit(#[trigger] q[i]) by {
        assert(q[i] == d[i - head.len()]);
    }
}

} // verus!
