//! The median of a list of prices.

use crate::decimal::{
    mean_of_two, mean_spec, pow10, price_option_view, price_views, signed_magnitude, value_le,
    Price, PriceView,
};
use vstd::prelude::*;

verus! {

/// Where `x` goes into `s` so that it follows every element whose value is at most its
/// own: behind the last such element, at the front where there is none.
pub open spec fn insertion_point(s: Seq<PriceView>, x: PriceView) -> int
    decreases s.len(),
{
    if s.len() == 0 || value_le(s.last(), x) {
        s.len() as int
    } else {
        insertion_point(s.drop_last(), x)
    }
}

/// The prices of `s` in ascending order of value. Prices of one value keep the order
/// that they have in `s`.
pub open spec fn sort_spec(s: Seq<PriceView>) -> Seq<PriceView>
    decreases s.len(),
{
    if s.len() == 0 {
        s
    } else {
        let front = sort_spec(s.drop_last());
        front.insert(insertion_point(front, s.last()), s.last())
    }
}

/// Whether the values of `s` ascend.
pub open spec fn ascending(s: Seq<PriceView>) -> bool {
    forall|i: int, j: int| 0 <= i <= j < s.len() ==> #[trigger] value_le(s[i], s[j])
}

/// The median of `s`: of the prices in ascending order the middle one, or the mean of
/// the two middle ones where their number is even. `None` for no prices, and where that
/// mean has no representation.
pub open spec fn median_spec(s: Seq<PriceView>) -> Option<PriceView> {
    let t = sort_spec(s);
    let n = t.len() as int;
    if n == 0 {
        None
    } else if n % 2 == 0 {
        mean_spec(t[n / 2 - 1], t[n / 2])
    } else {
        Some(t[n / 2])
    }
}

/// Whether the median of `s` can be represented: always for an odd number of prices and
/// for none, else where the mean of the two middle prices can.
pub open spec fn median_defined(s: Seq<PriceView>) -> bool {
    let t = sort_spec(s);
    let n = t.len() as int;
    n == 0 || n % 2 == 1 || mean_spec(t[n / 2 - 1], t[n / 2]) is Some
}

/// The mean of the two middle prices is beyond what a price can hold.
#[derive(Clone, Copy, Debug, PartialEq, Eq)]
pub struct MeanOutOfRange;

proof fn lemma_pow10_positive(n: nat)
    ensures
        pow10(n) > 0,
    decreases n,
{
    if n > 0 {
        lemma_pow10_positive((n - 1) as nat);
    }
}

proof fn lemma_cross_transitive(a: int, b: int, c: int, pa: int, pb: int, pc: int)
    requires
        pa > 0,
        pb > 0,
        pc > 0,
        a * pb <= b * pa,
        b * pc <= c * pb,
    ensures
        a * pc <= c * pa,
{
    assert((a * pb) * pc <= (b * pa) * pc) by (nonlinear_arith)
        requires
            a * pb <= b * pa,
            pc > 0,
    ;
    assert((b * pc) * pa <= (c * pb) * pa) by (nonlinear_arith)
        requires
            b * pc <= c * pb,
            pa > 0,
    ;
    assert((b * pa) * pc == (b * pc) * pa) by (nonlinear_arith);
    assert((a * pb) * pc == (a * pc) * pb) by (nonlinear_arith);
    assert((c * pb) * pa == (c * pa) * pb) by (nonlinear_arith);
    assert(a * pc <= c * pa) by (nonlinear_arith)
        requires
            (a * pc) * pb <= (c * pa) * pb,
            pb > 0,
    ;
}

/// Of two prices, one is at most the other.
pub proof fn lemma_value_le_total(a: PriceView, b: PriceView)
    ensures
        value_le(a, b) || value_le(b, a),
{
}

/// The order of values is transitive.
pub proof fn lemma_value_le_transitive(a: PriceView, b: PriceView, c: PriceView)
    requires
        value_le(a, b),
        value_le(b, c),
    ensures
        value_le(a, c),
{
    lemma_pow10_positive(a.scale);
    lemma_pow10_positive(b.scale);
    lemma_pow10_positive(c.scale);
    lemma_cross_transitive(
        signed_magnitude(a),
        signed_magnitude(b),
        signed_magnitude(c),
        pow10(a.scale) as int,
        pow10(b.scale) as int,
        pow10(c.scale) as int,
    );
}

proof fn lemma_insertion_point(s: Seq<PriceView>, x: PriceView)
    ensures
        0 <= insertion_point(s, x) <= s.len(),
        insertion_point(s, x) > 0 ==> value_le(s[insertion_point(s, x) - 1], x),
        forall|j: int| insertion_point(s, x) <= j < s.len() ==> !value_le(#[trigger] s[j], x),
    decreases s.len(),
{
    if s.len() == 0 || value_le(s.last(), x) {
    } else {
        let front = s.drop_last();
        lemma_insertion_point(front, x);
        assert forall|j: int| insertion_point(s, x) <= j < s.len() implies !value_le(
            #[trigger] s[j],
            x,
        ) by {
            if j < front.len() {
                assert(s[j] == front[j]);
            }
        }
    }
}

proof fn lemma_insertion_point_found(s: Seq<PriceView>, x: PriceView, k: int)
    requires
        0 <= k <= s.len(),
        k > 0 ==> value_le(s[k - 1], x),
        forall|j: int| k <= j < s.len() ==> !value_le(#[trigger] s[j], x),
    ensures
        insertion_point(s, x) == k,
    decreases s.len(),
{
    if s.len() == 0 || value_le(s.last(), x) {
    } else {
        lemma_insertion_point_found(s.drop_last(), x, k);
    }
}

proof fn lemma_insert_keeps_ascending(s: Seq<PriceView>, x: PriceView)
    requires
        ascending(s),
    ensures
        ascending(s.insert(insertion_point(s, x), x)),
{
    let k = insertion_point(s, x);
    let t = s.insert(k, x);
    lemma_insertion_point(s, x);
    assert forall|i: int, j: int| 0 <= i <= j < t.len() implies #[trigger] value_le(
        t[i],
        t[j],
    ) by {
        if i < k && j == k {
            lemma_value_le_transitive(s[i], s[k - 1], x);
        } else if i == k && j > k {
            lemma_value_le_total(x, s[j - 1]);
        }
    }
}

/// Sorting keeps the number of prices.
pub proof fn lemma_sort_len(s: Seq<PriceView>)
    ensures
        sort_spec(s).len() == s.len(),
    decreases s.len(),
{
    if s.len() > 0 {
        lemma_sort_len(s.drop_last());
        lemma_insertion_point(sort_spec(s.drop_last()), s.last());
    }
}

/// The sorted prices ascend by value.
pub proof fn lemma_sort_ascending(s: Seq<PriceView>)
    ensures
        ascending(sort_spec(s)),
    decreases s.len(),
{
    if s.len() > 0 {
        lemma_sort_ascending(s.drop_last());
        lemma_insert_keeps_ascending(sort_spec(s.drop_last()), s.last());
    }
}

/// The sorted prices are the given ones, each as often as it was given.
pub proof fn lemma_sort_permutes(s: Seq<PriceView>)
    ensures
        sort_spec(s).to_multiset() == s.to_multiset(),
    decreases s.len(),
{
    broadcast use vstd::seq_lib::to_multiset_insert, vstd::seq_lib::to_multiset_build;

    if s.len() > 0 {
        let front = sort_spec(s.drop_last());
        lemma_sort_permutes(s.drop_last());
        lemma_insertion_point(front, s.last());
        assert(s.drop_last().push(s.last()) =~= s);
    }
}

/// The prices in ascending order of value, those of one value in the order given.
pub fn sorted_copy(data: &Vec<Price>) -> (out: Vec<Price>)
    ensures
        price_views(out@) == sort_spec(price_views(data@)),
        out.len() == data.len(),
        ascending(price_views(out@)),
        price_views(out@).to_multiset() == price_views(data@).to_multiset(),
{
    let ghost all = price_views(data@);
    let mut out: Vec<Price> = Vec::new();
    let mut i: usize = 0;
    while i < data.len()
        invariant
            i <= data.len(),
            all == price_views(data@),
            price_views(out@) == sort_spec(all.take(i as int)),
            out.len() == i,
        decreases data.len() - i,
    {
        let x = data[i];
        let ghost front = price_views(out@);
        let mut k: usize = out.len();
        while k > 0 && !out[k - 1].at_most(&x)
            invariant
                k <= out.len(),
                front == price_views(out@),
                forall|j: int| k <= j < front.len() ==> !value_le(#[trigger] front[j], x@),
            decreases k,
        {
            k = k - 1;
        }
        proof {
            lemma_insertion_point_found(front, x@, k as int);
            assert(all.take(i + 1).drop_last() =~= all.take(i as int));
        }
        out.insert(k, x);
        i = i + 1;
    }
    proof {
        assert(all.take(i as int) =~= all);
        lemma_sort_ascending(all);
        lemma_sort_permutes(all);
    }
    out
}

/// The median of the prices.
///
/// The mean of the two middle prices of an even number must be one that a price can
/// hold; [`try_median`] asks for nothing and reports where it is not.
pub fn median(data: &Vec<Price>) -> (r: Option<Price>)
    requires
        median_defined(price_views(data@)),
    ensures
        price_option_view(r) == median_spec(price_views(data@)),
        r is Some <==> data.len() > 0,
{
    let sorted = sorted_copy(data);
    let size = sorted.len();
    if size == 0 {
        None
    } else if size % 2 == 0 {
        mean_of_two(&sorted[size / 2 - 1], &sorted[size / 2])
    } else {
        Some(sorted[size / 2])
    }
}

/// Whether the median of the prices can be represented.
pub fn has_median(data: &Vec<Price>) -> (r: bool)
    ensures
        r == median_defined(price_views(data@)),
{
    let sorted = sorted_copy(data);
    let size = sorted.len();
    if size == 0 || size % 2 == 1 {
        true
    } else {
        mean_of_two(&sorted[size / 2 - 1], &sorted[size / 2]).is_some()
    }
}

/// The median of the prices, or the report that the mean of the two middle ones is
/// beyond what a price can hold.
pub fn try_median(data: &Vec<Price>) -> (r: Result<Option<Price>, MeanOutOfRange>)
    ensures
        r is Ok <==> median_defined(price_views(data@)),
        r is Ok ==> price_option_view(r->Ok_0) == median_spec(price_views(data@)),
        r is Ok ==> (r->Ok_0 is Some <==> data.len() > 0),
{
    if has_median(data) {
        Ok(median(data))
    } else {
        Err(MeanOutOfRange)
    }
}

} // verus!
