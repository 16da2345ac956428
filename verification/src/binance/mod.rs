//! Talking to the Binance futures API.

pub mod info;
pub mod trader;
pub mod utils;
