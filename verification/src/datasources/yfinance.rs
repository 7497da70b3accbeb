//! The daily quotes of a finance feed: the latest close, and the close before it where
//! the feed has two days.

use crate::cache::{
    answer_spec, outcome_view, settled_spec, CacheSlot, Outcome, OutcomeView, SlotView,
};
use crate::datasources::datasource::{TickerData, TickerDataSource, TickerDataView};
use crate::decimal::{price_option_view, Price, PriceView};
use vstd::prelude::*;
use vstd::string::StringExecFns;

verus! {

/// What a [`Quote`] stands for.
pub struct QuoteView {
    pub close: Option<PriceView>,
    pub adjclose: Option<PriceView>,
}

/// One day of a quote range. The feed gives binary fractions: a quote holds the price
/// that each stands for, where it stands for one.
#[derive(Clone, Copy, Debug, PartialEq, Eq)]
pub struct Quote {
    pub close: Option<Price>,
    pub adjclose: Option<Price>,
}

impl View for Quote {
    type V = QuoteView;

    open spec fn view(&self) -> QuoteView {
        QuoteView {
            close: price_option_view(self.close),
            adjclose: price_option_view(self.adjclose),
        }
    }
}

/// What a fetch hands back: the days of the range, the oldest first, or the message of
/// what failed on the way.
pub type QuoteReply = Result<Vec<Quote>, String>;

/// The views of a sequence of quotes, in the same order.
pub open spec fn quote_views(quotes: Seq<Quote>) -> Seq<QuoteView> {
    quotes.map_values(|q: Quote| q@)
}

/// What the feed says with the days `quotes`, the oldest first.
///
/// No day is no failure: there is no price. Else the latest price is the close of the
/// last day, and the previous one the adjusted close of the day before, wherever there
/// is such a day. A binary fraction that stands for no price fails the fetch.
pub open spec fn yahoo_spec(quotes: Seq<QuoteView>) -> OutcomeView {
    let n = quotes.len() as int;
    let failure = "Failed to parse yfi price into decimal"@;
    if n == 0 {
        Ok((None, None))
    } else {
        match quotes[n - 1].close {
            None => Err(failure),
            Some(last) => if n < 2 {
                Ok((Some(last), None))
            } else {
                match quotes[n - 2].adjclose {
                    None => Err(failure),
                    Some(prev) => Ok((Some(last), Some(prev))),
                }
            },
        }
    }
}

/// The range of quotes to fetch.
#[derive(Clone, Debug, PartialEq, Eq)]
pub struct QuoteRange {
    pub ticker: String,
    pub interval: String,
    pub range: String,
}

/// The quotes of one instrument, with the latest answer that they gave.
pub struct YahooFinanceTickerDataSource {
    ticker: String,
    last_check_res: CacheSlot,
}

impl YahooFinanceTickerDataSource {
    /// The instrument that this source asks for.
    pub closed spec fn ticker_spec(&self) -> Seq<char> {
        self.ticker@
    }

    /// A source for the instrument `ticker` that keeps no answer yet.
    pub fn new(ticker: String) -> (r: YahooFinanceTickerDataSource)
        ensures
            r.ticker_spec() == ticker@,
            r.slot() is None,
    {
        YahooFinanceTickerDataSource { ticker, last_check_res: CacheSlot::new() }
    }

    /// The range to fetch: the last five days of the instrument, day by day.
    pub fn request(&self) -> (r: QuoteRange)
        ensures
            r.ticker@ == self.ticker_spec(),
            r.interval@ == "1d"@,
            r.range@ == "5d"@,
    {
        QuoteRange {
            ticker: self.ticker.clone(),
            interval: String::from_str("1d"),
            range: String::from_str("5d"),
        }
    }

    /// What this source reads from a reply.
    pub open spec fn outcome_of(&self, reply: &QuoteReply) -> OutcomeView {
        match reply {
            Ok(quotes) => yahoo_spec(quote_views(quotes@)),
            Err(message) => Err(message@),
        }
    }

    /// Reads the prices from a reply.
    pub fn run_query(&self, reply: &QuoteReply) -> (r: Outcome)
        ensures
            outcome_view(r) == self.outcome_of(reply),
    {
        match reply {
            Ok(quotes) => {
                let n = quotes.len();
                if n == 0 {
                    return Ok((None, None));
                }
                let last = match quotes[n - 1].close {
                    Some(p) => p,
                    None => {
                        return Err(String::from_str("Failed to parse yfi price into decimal"));
                    },
                };
                if n < 2 {
                    return Ok((Some(last), None));
                }
                match quotes[n - 2].adjclose {
                    Some(prev) => Ok((Some(last), Some(prev))),
                    None => Err(String::from_str("Failed to parse yfi price into decimal")),
                }
            },
            Err(message) => Err(message.clone()),
        }
    }
}

impl TickerDataSource for YahooFinanceTickerDataSource {
    type Reply = QuoteReply;

    closed spec fn slot(&self) -> SlotView {
        self.last_check_res@
    }

    open spec fn answer_of(&self, reply: &QuoteReply) -> TickerDataView {
        answer_spec(self.outcome_of(reply))
    }

    open spec fn slot_after(&self, now: nat, reply: &QuoteReply) -> SlotView {
        settled_spec(self.slot(), now, self.outcome_of(reply))
    }

    fn cached(&self, now: u64) -> (r: Option<TickerData>) {
        self.last_check_res.fresh(now)
    }

    fn get_ticker_data(&mut self, now: u64, reply: &QuoteReply) -> (r: TickerData)
        ensures
            final(self).ticker_spec() == old(self).ticker_spec(),
    {
        let outcome = self.run_query(reply);
        self.last_check_res.settle(now, outcome)
    }
}

} // verus!
