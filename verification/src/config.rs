//! The settings the bot runs with. Loading them from the process
//! environment is the application's job; the library only holds them.

use vstd::prelude::*;

verus! {

/// All settings of the bot.
#[derive(Clone, Debug)]
pub struct Config {
    pub trade: TradeConfig,
    pub macd: MacdConfig,
    pub binance: BinanceConfig,
}

/// The market that is traded and the candle interval that is followed.
#[derive(Clone, Debug)]
pub struct TradeConfig {
    pub symbol: String,
    pub interval: String,
}

/// The periods of the three moving averages of the MACD indicator.
#[derive(Clone, Debug)]
pub struct MacdConfig {
    /// usually 12
    pub fast_period: usize,
    /// usually 26
    pub slow_period: usize,
    /// usually 9
    pub signal_period: usize,
}

/// The account's API key and secret.
#[derive(Clone, Debug)]
pub struct BinanceConfig {
    pub api: String,
    pub sec: String,
}

} // verus!
