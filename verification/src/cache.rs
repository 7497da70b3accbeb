//! The answer that a source keeps for a short while, so that callers who ask within
//! that while share one fetch.

use crate::datasources::datasource::{failed_spec, fetched_spec, TickerData, TickerDataView};
use crate::decimal::{price_option_view, Price, PriceView};
use vstd::prelude::*;

verus! {

/// How long a kept answer is handed out, in nanoseconds: five seconds.
pub const TTL: u64 = 5_000_000_000;

/// What a [`CacheSlot`] stands for: nothing, or the instant of a fetch and its answer.
pub type SlotView = Option<(nat, TickerDataView)>;

/// What a fetch gave: the latest price and the one before it, or the message of its
/// failure.
pub type Outcome = Result<(Option<Price>, Option<Price>), String>;

/// What an [`Outcome`] stands for.
pub type OutcomeView = Result<(Option<PriceView>, Option<PriceView>), Seq<char>>;

/// The view of an outcome.
pub open spec fn outcome_view(outcome: Outcome) -> OutcomeView {
    match outcome {
        Ok((last, prev)) => Ok((price_option_view(last), price_option_view(prev))),
        Err(message) => Err(message@),
    }
}

/// The view of an optional answer.
pub open spec fn answer_view(answer: Option<TickerData>) -> Option<TickerDataView> {
    match answer {
        Some(t) => Some(t@),
        None => None,
    }
}

/// The kept answer, where there is one and fewer than [`TTL`] nanoseconds have passed
/// since its fetch. An instant before the fetch counts as no time passed.
pub open spec fn fresh_spec(slot: SlotView, now: nat) -> Option<TickerDataView> {
    match slot {
        Some((captured_at, value)) => if now - captured_at < TTL {
            Some(value)
        } else {
            None
        },
        None => None,
    }
}

/// The answer to the caller after a fetch.
pub open spec fn answer_spec(outcome: OutcomeView) -> TickerDataView {
    match outcome {
        Ok((last, prev)) => fetched_spec(last, prev),
        Err(message) => failed_spec(message),
    }
}

/// The slot after a fetch: a successful one replaces what was kept, a failed one
/// leaves it as it was.
pub open spec fn settled_spec(slot: SlotView, now: nat, outcome: OutcomeView) -> SlotView {
    match outcome {
        Ok(_) => Some((now, answer_spec(outcome))),
        Err(_) => slot,
    }
}

/// A kept answer with the instant of its fetch.
#[derive(Clone, Debug, PartialEq, Eq)]
pub struct CacheEntry {
    captured_at: u64,
    value: TickerData,
}

/// The one place where a source keeps its latest successful answer.
#[derive(Clone, Debug, PartialEq, Eq)]
pub struct CacheSlot {
    entry: Option<CacheEntry>,
}

impl View for CacheSlot {
    type V = SlotView;

    closed spec fn view(&self) -> SlotView {
        match self.entry {
            Some(e) => Some((e.captured_at as nat, e.value@)),
            None => None,
        }
    }
}

impl CacheSlot {
    /// A slot that keeps nothing.
    pub fn new() -> (r: CacheSlot)
        ensures
            r@ is None,
    {
        CacheSlot { entry: None }
    }

    /// A copy of the kept answer while it is fresh at `now`; `None` asks for a fetch.
    pub fn fresh(&self, now: u64) -> (r: Option<TickerData>)
        ensures
            answer_view(r) == fresh_spec(self@, now as nat),
    {
        match &self.entry {
            Some(e) => {
                if now < e.captured_at || now - e.captured_at < TTL {
                    Some(e.value.duplicate())
                } else {
                    None
                }
            },
            None => None,
        }
    }

    /// Takes in what a fetch that ended at `now` gave, and answers the caller. A
    /// success is kept with its instant; a failure is answered and not kept.
    pub fn settle(&mut self, now: u64, outcome: Outcome) -> (r: TickerData)
        ensures
            r@ == answer_spec(outcome_view(outcome)),
            final(self)@ == settled_spec(old(self)@, now as nat, outcome_view(outcome)),
    {
        match outcome {
            Ok((last, prev)) => {
                let answer = TickerData::fetched(last, prev);
                self.entry = Some(CacheEntry { captured_at: now, value: answer.duplicate() });
                answer
            },
            Err(message) => TickerData::failed(message),
        }
    }
}

/// While a kept answer is fresh, every caller is handed that answer and none is asked
/// to fetch: after a successful fetch at `fetched_at`, a call at any `now` less than
/// [`TTL`] later gets the answer of that fetch.
pub proof fn lemma_one_fetch_serves_the_window(
    slot: SlotView,
    fetched_at: nat,
    outcome: OutcomeView,
    now: nat,
)
    requires
        outcome is Ok,
        now - fetched_at < TTL,
    ensures
        fresh_spec(settled_spec(slot, fetched_at, outcome), now) == Some(answer_spec(outcome)),
{
}

/// Two callers inside one window get the same answer.
pub proof fn lemma_same_answer_in_window(slot: SlotView, first: nat, second: nat)
    requires
        fresh_spec(slot, first) is Some,
        fresh_spec(slot, second) is Some,
    ensures
        fresh_spec(slot, first) == fresh_spec(slot, second),
{
}

/// A failed fetch is not kept: the slot is as it was, so a caller who was asked to
/// fetch is asked again, at once.
pub proof fn lemma_failure_is_not_kept(slot: SlotView, failed_at: nat, message: Seq<char>, now: nat)
    ensures
        settled_spec(slot, failed_at, Err(message)) == slot,
        fresh_spec(settled_spec(slot, failed_at, Err(message)), now) == fresh_spec(slot, now),
{
}

/// A kept answer is no longer handed out once [`TTL`] nanoseconds have passed.
pub proof fn lemma_expiry(slot: SlotView, now: nat)
    requires
        slot matches Some(kept) && now - kept.0 >= TTL,
    ensures
        fresh_spec(slot, now) is None,
{
}

} // verus!
