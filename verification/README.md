# binance_macd

A trading bot for Binance USDⓈ-M futures that follows the MACD indicator of
one market and signals a buy or a sell when the MACD and signal series cross
beyond a threshold.

- `src/` is the library, verified with Verus: decimal and hexadecimal
  renderings (`encoding`), the settings (`config`), request URLs, HMAC-SHA256
  signing and the clock (`binance::utils`), the candle history query and
  stream URL (`binance::info`), and the order query and the trader's decision
  on each MACD value (`binance::trader`).
- `app/` is the program around it: loading the settings from the
  environment, the HTTP and WebSocket traffic, the f64 MACD indicator and the
  actors that connect them.
- `tests/` runs the library on concrete values, among them the RFC 4231
  HMAC test vectors and the exchange's documented signing example.
