//! The public ticker of a venue that reports the latest price of one pair only.

use crate::cache::{
    answer_spec, outcome_view, settled_spec, CacheSlot, Outcome, OutcomeView, SlotView,
};
use crate::datasources::datasource::{TickerData, TickerDataSource, TickerDataView};
use crate::datasources::parse::{price_text, price_text_spec, signalled, JsonReply};
use crate::json::{element_spec, member_spec, render_spec, JsonView};
use vstd::prelude::*;
use vstd::string::StringExecFns;

verus! {

/// What the venue says in `doc` of the pair `ticker`: an error where the first element
/// of `error` is not null, else the price written in the first element of `c` under
/// the pair in `result`. The venue gives no earlier price.
pub open spec fn kraken_spec(doc: JsonView, ticker: Seq<char>) -> OutcomeView {
    let signal = element_spec(member_spec(doc, "error"@), 0);
    if !(signal is Null) {
        Err("Kraken: "@ + render_spec(signal))
    } else {
        let close = member_spec(member_spec(member_spec(doc, "result"@), ticker), "c"@);
        match price_text_spec(element_spec(close, 0), "Failed to parse Kraken response"@) {
            Err(e) => Err(e),
            Ok(last) => Ok((Some(last), None)),
        }
    }
}

/// The address of the ticker of `ticker`.
pub open spec fn kraken_url_spec(ticker: Seq<char>) -> Seq<char> {
    "https://api.kraken.com/0/public/Ticker?pair="@ + ticker
}

/// The ticker of one pair, with the latest answer that it gave.
pub struct KrakenTickerDataSource {
    ticker: String,
    last_check_res: CacheSlot,
}

impl KrakenTickerDataSource {
    /// The pair that this source asks for.
    pub closed spec fn ticker_spec(&self) -> Seq<char> {
        self.ticker@
    }

    /// A source for the pair `ticker` that keeps no answer yet.
    pub fn new(ticker: String) -> (r: KrakenTickerDataSource)
        ensures
            r.ticker_spec() == ticker@,
            r.slot() is None,
    {
        KrakenTickerDataSource { ticker, last_check_res: CacheSlot::new() }
    }

    /// The address to fetch.
    pub fn url(&self) -> (r: String)
        ensures
            r@ == kraken_url_spec(self.ticker_spec()),
    {
        let mut url = String::from_str("https://api.kraken.com/0/public/Ticker?pair=");
        url.append(self.ticker.as_str());
        url
    }

    /// What this source reads from a reply.
    pub open spec fn outcome_of(&self, reply: &JsonReply) -> OutcomeView {
        match reply {
            Ok(doc) => kraken_spec(doc@, self.ticker_spec()),
            Err(message) => Err(message@),
        }
    }

    /// Reads the price from a reply.
    pub fn run_query(&self, reply: &JsonReply) -> (r: Outcome)
        ensures
            outcome_view(r) == self.outcome_of(reply),
    {
        match reply {
            Ok(doc) => {
                let signal = doc.member("error").element(0);
                if !signal.is_null() {
                    return Err(signalled("Kraken: ", signal));
                }
                let close = doc.member("result").member(self.ticker.as_str()).member("c");
                match price_text(close.element(0), "Failed to parse Kraken response") {
                    Ok(last) => Ok((Some(last), None)),
                    Err(e) => Err(e),
                }
            },
            Err(message) => Err(message.clone()),
        }
    }
}

impl TickerDataSource for KrakenTickerDataSource {
    type Reply = JsonReply;

    closed spec fn slot(&self) -> SlotView {
        self.last_check_res@
    }

    open spec fn answer_of(&self, reply: &JsonReply) -> TickerDataView {
        answer_spec(self.outcome_of(reply))
    }

    open spec fn slot_after(&self, now: nat, reply: &JsonReply) -> SlotView {
        settled_spec(self.slot(), now, self.outcome_of(reply))
    }

    fn cached(&self, now: u64) -> (r: Option<TickerData>) {
        self.last_check_res.fresh(now)
    }

    fn get_ticker_data(&mut self, now: u64, reply: &JsonReply) -> (r: TickerData)
        ensures
            final(self).ticker_spec() == old(self).ticker_spec(),
    {
        let outcome = self.run_query(reply);
        self.last_check_res.settle(now, outcome)
    }
}

} // verus!
