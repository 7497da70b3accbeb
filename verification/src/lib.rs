//! Consensus prices from several unreliable feeds, and a monitor of catalog changes.
//!
//! The crate performs no input or output and reads no clock. A caller fetches what a
//! source asks for and hands the reply back with the instant at which it came; every
//! decision in between is made here. Instants count nanoseconds from a moment that the
//! caller fixes.

pub mod cache;
pub mod coinbase_monitor;
pub mod datasources;
pub mod decimal;
pub mod json;
pub mod median;
pub mod members;
pub mod text;

pub use coinbase_monitor::{CoinbaseMonitor, Product};
pub use datasources::{
    Aggregator, BinanceTickerDataSource, CoinbaseTickerDataSource, GoldpriceTickerDataSource,
    KrakenTickerDataSource, TickerData, TickerDataSource, YahooFinanceTickerDataSource,
};
