//! The ticker of an order-book venue: the latest and the opening price of one pair.

use crate::cache::{
    answer_spec, outcome_view, settled_spec, CacheSlot, Outcome, OutcomeView, SlotView,
};
use crate::datasources::datasource::{TickerData, TickerDataSource, TickerDataView};
use crate::datasources::parse::{stats, stats_spec, JsonReply};
use crate::json::JsonView;
use vstd::prelude::*;
use vstd::string::StringExecFns;

verus! {

/// What the venue says in `doc`: an error where `msg` is not null, else the prices
/// written in `lastPrice` and `openPrice`.
pub open spec fn binance_spec(doc: JsonView) -> OutcomeView {
    stats_spec(
        doc,
        "Binance: "@,
        "msg"@,
        "lastPrice"@,
        "openPrice"@,
        "Failed to parse Binance response"@,
    )
}

/// The address of the ticker of `ticker`.
pub open spec fn binance_url_spec(ticker: Seq<char>) -> Seq<char> {
    "https://api-gcp.binance.com/api/v3/ticker/24hr?symbol="@ + ticker + "&type=MINI"@
}

/// The ticker of one pair, with the latest answer that it gave.
pub struct BinanceTickerDataSource {
    ticker: String,
    last_check_res: CacheSlot,
}

impl BinanceTickerDataSource {
    /// The pair that this source asks for.
    pub closed spec fn ticker_spec(&self) -> Seq<char> {
        self.ticker@
    }

    /// A source for the pair `ticker` that keeps no answer yet.
    pub fn new(ticker: String) -> (r: BinanceTickerDataSource)
        ensures
            r.ticker_spec() == ticker@,
            r.slot() is None,
    {
        BinanceTickerDataSource { ticker, last_check_res: CacheSlot::new() }
    }

    /// The address to fetch.
    pub fn url(&self) -> (r: String)
        ensures
            r@ == binance_url_spec(self.ticker_spec()),
    {
        let mut url = String::from_str("https://api-gcp.binance.com/api/v3/ticker/24hr?symbol=");
        url.append(self.ticker.as_str());
        url.append("&type=MINI");
        url
    }

    /// What this source reads from a reply.
    pub open spec fn outcome_of(&self, reply: &JsonReply) -> OutcomeView {
        match reply {
            Ok(doc) => binance_spec(doc@),
            Err(message) => Err(message@),
        }
    }

    /// Reads the prices from a reply.
    pub fn run_query(&self, reply: &JsonReply) -> (r: Outcome)
        ensures
            outcome_view(r) == self.outcome_of(reply),
    {
        match reply {
            Ok(doc) => stats(
                doc,
                "Binance: ",
                "msg",
                "lastPrice",
                "openPrice",
                "Failed to parse Binance response",
            ),
            Err(message) => Err(message.clone()),
        }
    }
}

impl TickerDataSource for BinanceTickerDataSource {
    type Reply = JsonReply;

    closed spec fn slot(&self) -> SlotView {
        self.last_check_res@
    }

    open spec fn answer_of(&self, reply: &JsonReply) -> TickerDataView {
        answer_spec(self.outcome_of(reply))
    }

    open spec fn slot_after(&self, now: nat, reply: &JsonReply) -> SlotView {
        settled_spec(self.slot(), now, self.outcome_of(reply))
    }

    fn cached(&self, now: u64) -> (r: Option<TickerData>) {
        self.last_check_res.fresh(now)
    }

    fn get_ticker_data(&mut self, now: u64, reply: &JsonReply) -> (r: TickerData)
        ensures
            final(self).ticker_spec() == old(self).ticker_spec(),
    {
        let outcome = self.run_query(reply);
        self.last_check_res.settle(now, outcome)
    }
}

} // verus!
