//! The sources of prices, and the aggregator that makes one answer of several.

pub mod aggregator;
pub mod binance;
pub mod coinbase;
pub mod datasource;
pub mod goldprice;
pub mod kraken;
pub mod parse;
pub mod yfinance;

pub use aggregator::Aggregator;
pub use binance::BinanceTickerDataSource;
pub use coinbase::CoinbaseTickerDataSource;
pub use datasource::{TickerData, TickerDataSource};
pub use goldprice::GoldpriceTickerDataSource;
pub use kraken::KrakenTickerDataSource;
pub use yfinance::YahooFinanceTickerDataSource;
