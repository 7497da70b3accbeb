//! One answer from the answers of several sources: the median of what they report, and
//! whether enough of them reported.

use crate::cache::SlotView;
use crate::datasources::datasource::{
    texts, ticker_views, TickerData, TickerDataSource, TickerDataView,
};
use crate::decimal::{price_views, Price, PriceView};
use crate::median::{
    has_median, median, median_defined, median_spec, sort_spec, MeanOutOfRange,
};
use vstd::prelude::*;

verus! {

/// The number of answers with a latest price from which an aggregate is trusted even
/// where some members gave none.
pub const QUORUM: usize = 3;

/// The prices that are there, in the order given.
pub open spec fn reported(prices: Seq<Option<PriceView>>) -> Seq<PriceView>
    decreases prices.len(),
{
    if prices.len() == 0 {
        Seq::empty()
    } else {
        match prices.last() {
            Some(p) => reported(prices.drop_last()).push(p),
            None => reported(prices.drop_last()),
        }
    }
}

/// The latest prices of the answers, one entry for each.
pub open spec fn last_prices(samples: Seq<TickerDataView>) -> Seq<Option<PriceView>> {
    samples.map_values(|t: TickerDataView| t.last_price)
}

/// The previous prices of the answers, one entry for each.
pub open spec fn prev_prices(samples: Seq<TickerDataView>) -> Seq<Option<PriceView>> {
    samples.map_values(|t: TickerDataView| t.prev_price)
}

/// The errors of all answers, those of the first answer first.
pub open spec fn all_errors(samples: Seq<TickerDataView>) -> Seq<Seq<char>>
    decreases samples.len(),
{
    if samples.len() == 0 {
        Seq::empty()
    } else {
        all_errors(samples.drop_last()) + samples.last().errors
    }
}

/// Whether `reporting` latest prices from `members` members are too few: there are no
/// members, or not all of them reported and fewer than [`QUORUM`] did.
pub open spec fn too_few(members: nat, reporting: nat) -> bool {
    members == 0 || (reporting < members && reporting < QUORUM)
}

/// The aggregate of the answers of `members` members: the medians of the prices that
/// the answers report, too little where too few report a latest price, and all their
/// errors.
pub open spec fn aggregate_among(members: nat, samples: Seq<TickerDataView>) -> TickerDataView {
    TickerDataView {
        last_price: median_spec(reported(last_prices(samples))),
        prev_price: median_spec(reported(prev_prices(samples))),
        insufficient_data: too_few(members, reported(last_prices(samples)).len()),
        errors: all_errors(samples),
    }
}

/// The aggregate of the members' answers, one answer for each member.
pub open spec fn aggregate_spec(samples: Seq<TickerDataView>) -> TickerDataView {
    aggregate_among(samples.len(), samples)
}

/// Whether both medians of the aggregate can be represented.
pub open spec fn aggregate_defined(samples: Seq<TickerDataView>) -> bool {
    median_defined(reported(last_prices(samples))) && median_defined(
        reported(prev_prices(samples)),
    )
}

/// No more prices are reported than there are answers.
pub proof fn lemma_reported_len(prices: Seq<Option<PriceView>>)
    ensures
        reported(prices).len() <= prices.len(),
    decreases prices.len(),
{
    if prices.len() > 0 {
        lemma_reported_len(prices.drop_last());
    }
}

/// An aggregator without members answers with no prices, no errors and too little.
pub proof fn lemma_no_members()
    ensures
        aggregate_spec(Seq::empty()) == (TickerDataView {
            last_price: None,
            prev_price: None,
            insufficient_data: true,
            errors: Seq::empty(),
        }),
{
}

/// Two latest prices from three members are too few.
pub proof fn lemma_two_of_three(samples: Seq<TickerDataView>)
    requires
        samples.len() == 3,
        reported(last_prices(samples)).len() == 2,
    ensures
        aggregate_spec(samples).insufficient_data,
{
}

/// Three latest prices from three members are enough.
pub proof fn lemma_three_of_three(samples: Seq<TickerDataView>)
    requires
        samples.len() == 3,
        reported(last_prices(samples)).len() == 3,
    ensures
        !aggregate_spec(samples).insufficient_data,
{
}

/// Four latest prices from five members are enough.
pub proof fn lemma_four_of_five(samples: Seq<TickerDataView>)
    requires
        samples.len() == 5,
        reported(last_prices(samples)).len() == 4,
    ensures
        !aggregate_spec(samples).insufficient_data,
{
}

/// An aggregate is trusted exactly when there are members and either all of them gave a
/// latest price or at least [`QUORUM`] did.
pub proof fn lemma_trusted(samples: Seq<TickerDataView>)
    ensures
        !aggregate_spec(samples).insufficient_data <==> samples.len() > 0 && (reported(
            last_prices(samples),
        ).len() == samples.len() || reported(last_prices(samples)).len() >= QUORUM),
{
    lemma_reported_len(last_prices(samples));
}

/// The latest prices that the answers report, in their order.
fn collect_last(samples: &Vec<TickerData>) -> (r: Vec<Price>)
    ensures
        price_views(r@) == reported(last_prices(ticker_views(samples@))),
{
    let ghost all = last_prices(ticker_views(samples@));
    let mut r: Vec<Price> = Vec::new();
    let mut i: usize = 0;
    while i < samples.len()
        invariant
            i <= samples.len(),
            all == last_prices(ticker_views(samples@)),
            price_views(r@) == reported(all.take(i as int)),
        decreases samples.len() - i,
    {
        assert(all.take(i + 1).drop_last() =~= all.take(i as int));
        if let Some(p) = samples[i].last_price {
            r.push(p);
        }
        i = i + 1;
    }
    assert(all.take(i as int) =~= all);
    r
}

/// The previous prices that the answers report, in their order.
fn collect_prev(samples: &Vec<TickerData>) -> (r: Vec<Price>)
    ensures
        price_views(r@) == reported(prev_prices(ticker_views(samples@))),
{
    let ghost all = prev_prices(ticker_views(samples@));
    let mut r: Vec<Price> = Vec::new();
    let mut i: usize = 0;
    while i < samples.len()
        invariant
            i <= samples.len(),
            all == prev_prices(ticker_views(samples@)),
            price_views(r@) == reported(all.take(i as int)),
        decreases samples.len() - i,
    {
        assert(all.take(i + 1).drop_last() =~= all.take(i as int));
        if let Some(p) = samples[i].prev_price {
            r.push(p);
        }
        i = i + 1;
    }
    assert(all.take(i as int) =~= all);
    r
}

/// The errors of all answers, those of the first answer first.
fn collect_errors(samples: &Vec<TickerData>) -> (r: Vec<String>)
    ensures
        texts(r@) == all_errors(ticker_views(samples@)),
{
    let ghost all = ticker_views(samples@);
    let mut r: Vec<String> = Vec::new();
    let mut i: usize = 0;
    while i < samples.len()
        invariant
            i <= samples.len(),
            all == ticker_views(samples@),
            texts(r@) == all_errors(all.take(i as int)),
        decreases samples.len() - i,
    {
        let errors = &samples[i].errors;
        let ghost before = r@;
        let mut j: usize = 0;
        while j < errors.len()
            invariant
                j <= errors.len(),
                r@ == before + errors@.take(j as int),
            decreases errors.len() - j,
        {
            r.push(errors[j].clone());
            j = j + 1;
        }
        proof {
            assert(all.take(i + 1).drop_last() =~= all.take(i as int));
        }
        i = i + 1;
    }
    assert(all.take(i as int) =~= all);
    r
}

/// The aggregate of the answers of `members` members: the medians of the prices that
/// the answers report, too little where too few report a latest price, and all their
/// errors.
///
/// Both medians must be ones that a price can hold; [`can_aggregate`] tells whether
/// they are.
pub fn aggregate_of(members: usize, samples: &Vec<TickerData>) -> (r: TickerData)
    requires
        aggregate_defined(ticker_views(samples@)),
    ensures
        r@ == aggregate_among(members as nat, ticker_views(samples@)),
{
    let last = collect_last(samples);
    let prev = collect_prev(samples);
    let errors = collect_errors(samples);
    let reporting = last.len();
    TickerData {
        last_price: median(&last),
        prev_price: median(&prev),
        insufficient_data: members == 0 || (reporting < members && reporting < QUORUM),
        errors,
    }
}

/// The aggregate of the members' answers, one answer for each member.
///
/// Both medians must be ones that a price can hold; [`try_aggregate`] asks for nothing
/// and reports where one is not.
pub fn aggregate(samples: &Vec<TickerData>) -> (r: TickerData)
    requires
        aggregate_defined(ticker_views(samples@)),
    ensures
        r@ == aggregate_spec(ticker_views(samples@)),
{
    aggregate_of(samples.len(), samples)
}

/// Whether both medians of the aggregate can be represented.
pub fn can_aggregate(samples: &Vec<TickerData>) -> (r: bool)
    ensures
        r == aggregate_defined(ticker_views(samples@)),
{
    let last = collect_last(samples);
    let prev = collect_prev(samples);
    has_median(&last) && has_median(&prev)
}

/// The aggregate of the members' answers, or the report that one of its medians is
/// beyond what a price can hold.
pub fn try_aggregate(samples: &Vec<TickerData>) -> (r: Result<TickerData, MeanOutOfRange>)
    ensures
        r is Ok <==> aggregate_defined(ticker_views(samples@)),
        r is Ok ==> r->Ok_0@ == aggregate_spec(ticker_views(samples@)),
{
    if can_aggregate(samples) {
        Ok(aggregate(samples))
    } else {
        Err(MeanOutOfRange)
    }
}

/// The answers of the members of an aggregator, in the members' order: answers whose
/// medians are ones that a price can hold.
pub struct Answers {
    samples: Vec<TickerData>,
}

impl View for Answers {
    type V = Seq<TickerDataView>;

    closed spec fn view(&self) -> Seq<TickerDataView> {
        ticker_views(self.samples@)
    }
}

impl Answers {
    #[verifier::type_invariant]
    spec fn medians_defined(self) -> bool {
        aggregate_defined(ticker_views(self.samples@))
    }

    /// These answers, or the report that one of their medians is beyond what a price
    /// can hold.
    pub fn new(samples: Vec<TickerData>) -> (r: Result<Answers, MeanOutOfRange>)
        ensures
            r is Ok <==> aggregate_defined(ticker_views(samples@)),
            r is Ok ==> r->Ok_0@ == ticker_views(samples@),
    {
        if can_aggregate(&samples) {
            Ok(Answers { samples })
        } else {
            Err(MeanOutOfRange)
        }
    }

    /// The answers.
    pub fn samples(&self) -> (r: &Vec<TickerData>)
        ensures
            ticker_views(r@) == self@,
            aggregate_defined(self@),
    {
        proof {
            use_type_invariant(self);
        }
        &self.samples
    }
}

/// Why an aggregator refuses the answers that it is handed.
#[derive(Clone, Copy, Debug, PartialEq, Eq)]
pub enum MergeError {
    /// There is not one answer for each member.
    WrongCount,
    /// The mean of two middle prices is beyond what a price can hold.
    MeanOutOfRange,
}

/// A source made of several member sources.
///
/// The aggregator keeps its members for the caller, who asks each of them for its
/// answer and hands the answers back in the members' order.
pub struct Aggregator<S> {
    sources: Vec<S>,
}

impl<S> Aggregator<S> {
    /// The members of this aggregator, as a sequence.
    pub closed spec fn members(&self) -> Seq<S> {
        self.sources@
    }

    /// An aggregator of the given members.
    pub fn new(sources: Vec<S>) -> (r: Aggregator<S>)
        ensures
            r.members() == sources@,
    {
        Aggregator { sources }
    }

    /// The members, in the order in which their answers are expected.
    pub fn sources(&self) -> (r: &Vec<S>)
        ensures
            r@ == self.members(),
    {
        &self.sources
    }

    /// The number of members.
    pub fn len(&self) -> (r: usize)
        ensures
            r == self.members().len(),
    {
        self.sources.len()
    }

    /// The aggregate of the members' answers, which come in the members' order, one
    /// for each. Anything else is refused: first a wrong number of answers, then a
    /// median that is beyond what a price can hold.
    pub fn merge(&self, samples: &Vec<TickerData>) -> (r: Result<TickerData, MergeError>)
        ensures
            r == Err::<TickerData, MergeError>(MergeError::WrongCount) <==> samples.len()
                != self.members().len(),
            r == Err::<TickerData, MergeError>(MergeError::MeanOutOfRange) <==> samples.len()
                == self.members().len() && !aggregate_defined(ticker_views(samples@)),
            r is Ok ==> r->Ok_0@ == aggregate_spec(ticker_views(samples@)),
    {
        if samples.len() != self.sources.len() {
            Err(MergeError::WrongCount)
        } else if can_aggregate(samples) {
            Ok(aggregate(samples))
        } else {
            Err(MergeError::MeanOutOfRange)
        }
    }
}

/// An aggregator is a source: it keeps no answer, so that it asks its members every
/// time, and it answers with the aggregate of what they answered. Members that gave no
/// answer count as members that report no price.
impl<S> TickerDataSource for Aggregator<S> {
    type Reply = Answers;

    open spec fn slot(&self) -> SlotView {
        None
    }

    open spec fn answer_of(&self, reply: &Answers) -> TickerDataView {
        aggregate_among(self.members().len(), reply@)
    }

    open spec fn slot_after(&self, now: nat, reply: &Answers) -> SlotView {
        None
    }

    fn cached(&self, now: u64) -> (r: Option<TickerData>) {
        None
    }

    fn get_ticker_data(&mut self, now: u64, reply: &Answers) -> (r: TickerData)
        ensures
            final(self).members() == old(self).members(),
    {
        aggregate_of(self.sources.len(), reply.samples())
    }
}

} // verus!
