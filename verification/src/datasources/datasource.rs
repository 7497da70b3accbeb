//! What a source of prices answers.

use crate::cache::{answer_view, fresh_spec, SlotView};
use crate::decimal::{price_option_view, Price, PriceView};
use vstd::prelude::*;

verus! {

/// What a [`TickerData`] stands for.
pub struct TickerDataView {
    pub last_price: Option<PriceView>,
    pub prev_price: Option<PriceView>,
    pub insufficient_data: bool,
    pub errors: Seq<Seq<char>>,
}

/// One answer of a source: the latest price, the price before it, whether the answer
/// rests on too little, and the messages of what went wrong on the way.
#[derive(Clone, Debug, PartialEq, Eq)]
pub struct TickerData {
    pub last_price: Option<Price>,
    pub prev_price: Option<Price>,
    pub insufficient_data: bool,
    pub errors: Vec<String>,
}

/// The texts of a sequence of strings, in the same order.
pub open spec fn texts(s: Seq<String>) -> Seq<Seq<char>> {
    s.map_values(|t: String| t@)
}

impl View for TickerData {
    type V = TickerDataView;

    open spec fn view(&self) -> TickerDataView {
        TickerDataView {
            last_price: price_option_view(self.last_price),
            prev_price: price_option_view(self.prev_price),
            insufficient_data: self.insufficient_data,
            errors: texts(self.errors@),
        }
    }
}

/// The views of a sequence of answers, in the same order.
pub open spec fn ticker_views(s: Seq<TickerData>) -> Seq<TickerDataView> {
    s.map_values(|t: TickerData| t@)
}

/// The answer of a source whose fetch gave these prices: a fetch that succeeded is
/// never too little, whether or not it brought a price.
pub open spec fn fetched_spec(last: Option<PriceView>, prev: Option<PriceView>) -> TickerDataView {
    TickerDataView {
        last_price: last,
        prev_price: prev,
        insufficient_data: false,
        errors: Seq::empty(),
    }
}

/// The answer of a source whose fetch failed with this message.
pub open spec fn failed_spec(message: Seq<char>) -> TickerDataView {
    TickerDataView {
        last_price: None,
        prev_price: None,
        insufficient_data: true,
        errors: seq![message],
    }
}

/// A copy of a list of strings.
pub fn copy_strings(list: &Vec<String>) -> (r: Vec<String>)
    ensures
        r@ == list@,
{
    let mut r: Vec<String> = Vec::new();
    let mut i: usize = 0;
    while i < list.len()
        invariant
            i <= list.len(),
            r@ == list@.take(i as int),
        decreases list.len() - i,
    {
        r.push(list[i].clone());
        i = i + 1;
    }
    r
}

impl TickerData {
    /// The answer of a source whose fetch gave these prices: no errors, and not too
    /// little.
    pub fn fetched(last: Option<Price>, prev: Option<Price>) -> (r: TickerData)
        ensures
            r@ == fetched_spec(price_option_view(last), price_option_view(prev)),
    {
        let r = TickerData {
            last_price: last,
            prev_price: prev,
            insufficient_data: false,
            errors: Vec::new(),
        };
        assert(r@.errors =~= Seq::empty());
        r
    }

    /// The answer of a source whose fetch failed: no prices, too little, and the message.
    pub fn failed(message: String) -> (r: TickerData)
        ensures
            r@ == failed_spec(message@),
    {
        let mut errors: Vec<String> = Vec::new();
        errors.push(message);
        let r = TickerData { last_price: None, prev_price: None, insufficient_data: true, errors };
        assert(r@.errors =~= seq![message@]);
        r
    }

    /// A copy of this answer.
    pub fn duplicate(&self) -> (r: TickerData)
        ensures
            r@ == self@,
    {
        TickerData {
            last_price: self.last_price,
            prev_price: self.prev_price,
            insufficient_data: self.insufficient_data,
            errors: copy_strings(&self.errors),
        }
    }
}

/// A source of prices that performs no fetch itself.
///
/// A caller first asks [`cached`](TickerDataSource::cached). Where that gives no answer
/// the caller fetches what the source names, and hands the reply to
/// [`get_ticker_data`](TickerDataSource::get_ticker_data), which answers in every case.
/// Callers of one source take turns, from the question to the answer.
pub trait TickerDataSource {
    /// What a fetch for this source hands back.
    type Reply;

    /// What the source keeps of its latest successful fetch.
    spec fn slot(&self) -> SlotView;

    /// The answer that the source gives to a reply.
    spec fn answer_of(&self, reply: &Self::Reply) -> TickerDataView;

    /// What the source keeps after a reply that came at `now`.
    spec fn slot_after(&self, now: nat, reply: &Self::Reply) -> SlotView;

    /// A copy of the kept answer while it is fresh at `now`; `None` asks for a fetch.
    fn cached(&self, now: u64) -> (r: Option<TickerData>)
        ensures
            answer_view(r) == fresh_spec(self.slot(), now as nat),
    ;

    /// The answer to a reply that came at `now`. How the source answers a reply does
    /// not change by it; what the source keeps may.
    fn get_ticker_data(&mut self, now: u64, reply: &Self::Reply) -> (r: TickerData)
        ensures
            r@ == old(self).answer_of(reply),
            final(self).slot() == old(self).slot_after(now as nat, reply),
            forall|other: &Self::Reply| final(self).answer_of(other) == old(self).answer_of(other),
    ;
}

} // verus!
