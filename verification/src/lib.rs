//! Request building, signing and trading decisions for a MACD-driven
//! Binance futures bot.

pub mod binance;
pub mod config;
pub mod encoding;
