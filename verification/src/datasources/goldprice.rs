//! The rates of a metals feed: the price of one metal in one currency, now and at the
//! last close.

use crate::cache::{
    answer_spec, outcome_view, settled_spec, CacheSlot, Outcome, OutcomeView, SlotView,
};
use crate::datasources::datasource::{TickerData, TickerDataSource, TickerDataView};
use crate::datasources::parse::JsonReply;
use crate::decimal::PriceView;
use crate::json::{element_spec, member_spec, Json, JsonView};
use vstd::prelude::*;
use vstd::string::StringExecFns;

verus! {

/// The lower-case letter of an upper-case ASCII letter; every other character itself.
pub open spec fn ascii_lower(c: char) -> char {
    if 'A' <= c && c <= 'Z' {
        ((c as u8) + 32) as u8 as char
    } else {
        c
    }
}

/// The text with each of its characters mapped by [`ascii_lower`].
pub open spec fn ascii_lowercase_spec(text: Seq<char>) -> Seq<char> {
    text.map_values(|c: char| ascii_lower(c))
}

/// The price that a JSON number stands for; `None` for a number that stands for none
/// and for every other value.
pub open spec fn decimal_of(v: JsonView) -> Option<PriceView> {
    match v {
        JsonView::Number { text, decimal } => decimal,
        _ => None,
    }
}

/// What the feed says in `doc` of `metal`: in the first element of `items`, the numbers
/// under the metal's name in lower case followed by `Price` and by `Close`. The feed has
/// no report of its own for an error.
pub open spec fn goldprice_spec(doc: JsonView, metal: Seq<char>) -> OutcomeView {
    let item = element_spec(member_spec(doc, "items"@), 0);
    let failure = "Failed to parse Goldprice response"@;
    match decimal_of(member_spec(item, ascii_lowercase_spec(metal) + "Price"@)) {
        None => Err(failure),
        Some(last) => match decimal_of(
            member_spec(item, ascii_lowercase_spec(metal) + "Close"@),
        ) {
            None => Err(failure),
            Some(prev) => Ok((Some(last), Some(prev))),
        },
    }
}

/// The address of the rates in `currency`.
pub open spec fn goldprice_url_spec(currency: Seq<char>) -> Seq<char> {
    "https://data-asg.goldprice.org/dbXRates/"@ + currency
}

/// The rates of one metal in one currency, with the latest answer that they gave.
pub struct GoldpriceTickerDataSource {
    metal: String,
    currency: String,
    last_check_res: CacheSlot,
}

impl GoldpriceTickerDataSource {
    /// The metal that this source asks for.
    pub closed spec fn metal_spec(&self) -> Seq<char> {
        self.metal@
    }

    /// The currency in which this source asks for prices.
    pub closed spec fn currency_spec(&self) -> Seq<char> {
        self.currency@
    }

    /// A source for `metal` in `currency` that keeps no answer yet.
    pub fn new(metal: String, currency: String) -> (r: GoldpriceTickerDataSource)
        ensures
            r.metal_spec() == metal@,
            r.currency_spec() == currency@,
            r.slot() is None,
    {
        GoldpriceTickerDataSource { metal, currency, last_check_res: CacheSlot::new() }
    }

    /// The address to fetch.
    pub fn url(&self) -> (r: String)
        ensures
            r@ == goldprice_url_spec(self.currency_spec()),
    {
        let mut url = String::from_str("https://data-asg.goldprice.org/dbXRates/");
        url.append(self.currency.as_str());
        url
    }

    /// What this source reads from a reply.
    pub open spec fn outcome_of(&self, reply: &JsonReply) -> OutcomeView {
        match reply {
            Ok(doc) => goldprice_spec(doc@, self.metal_spec()),
            Err(message) => Err(message@),
        }
    }

    /// Reads the prices from a reply.
    pub fn run_query(&self, reply: &JsonReply) -> (r: Outcome)
        ensures
            outcome_view(r) == self.outcome_of(reply),
    {
        match reply {
            Ok(doc) => {
                let item = doc.member("items").element(0);
                let mut price_key = ascii_lowercase(self.metal.as_str());
                price_key.append("Price");
                let mut close_key = ascii_lowercase(self.metal.as_str());
                close_key.append("Close");
                let last = match item.member(price_key.as_str()).as_decimal() {
                    Some(p) => p,
                    None => {
                        return Err(String::from_str("Failed to parse Goldprice response"));
                    },
                };
                let prev = match item.member(close_key.as_str()).as_decimal() {
                    Some(p) => p,
                    None => {
                        return Err(String::from_str("Failed to parse Goldprice response"));
                    },
                };
                Ok((Some(last), Some(prev)))
            },
            Err(message) => Err(message.clone()),
        }
    }
}

impl TickerDataSource for GoldpriceTickerDataSource {
    type Reply = JsonReply;

    closed spec fn slot(&self) -> SlotView {
        self.last_check_res@
    }

    open spec fn answer_of(&self, reply: &JsonReply) -> TickerDataView {
        answer_spec(self.outcome_of(reply))
    }

    open spec fn slot_after(&self, now: nat, reply: &JsonReply) -> SlotView {
        settled_spec(self.slot(), now, self.outcome_of(reply))
    }

    fn cached(&self, now: u64) -> (r: Option<TickerData>) {
        self.last_check_res.fresh(now)
    }

    fn get_ticker_data(&mut self, now: u64, reply: &JsonReply) -> (r: TickerData)
        ensures
            final(self).metal_spec() == old(self).metal_spec(),
            final(self).currency_spec() == old(self).currency_spec(),
    {
        let outcome = self.run_query(reply);
        self.last_check_res.settle(now, outcome)
    }
}

/// `str::to_ascii_lowercase`: a copy in which the ASCII letters `A` to `Z` are replaced
/// by `a` to `z` and every other character is kept.
#[verifier::external_body]
fn ascii_lowercase(text: &str) -> (r: String)
    ensures
        r@ == ascii_lowercase_spec(text@),
{
    text.to_ascii_lowercase()
}

} // verus!
