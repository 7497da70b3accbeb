//! What the feeds have in common in how their replies are read.

use crate::cache::{outcome_view, Outcome, OutcomeView};
use crate::decimal::{decimal_from_str, price_result_view, Price, PriceView};
use crate::json::{member_spec, render_spec, Json, JsonView};
use vstd::prelude::*;
use vstd::string::StringExecFns;

verus! {

/// What a fetch hands back for a feed that answers in JSON: the value that was read, or
/// the message of what failed on the way.
pub type JsonReply = Result<Json, String>;

/// The price that a JSON string writes. A value that is no string fails with
/// `failure`, a string that writes no price with the message of the refusal.
pub open spec fn price_text_spec(v: JsonView, failure: Seq<char>) -> Result<PriceView, Seq<char>> {
    match v {
        JsonView::Text(s) => decimal_from_str(s),
        _ => Err(failure),
    }
}

/// What a feed of the latest and the opening price says in `doc`.
///
/// A member `signal_key` that is not null is the feed's own report of an error: the
/// fetch fails with `label` and the text of that member. Else the members `last_key`
/// and `open_key` are read as prices, the latest first.
pub open spec fn stats_spec(
    doc: JsonView,
    label: Seq<char>,
    signal_key: Seq<char>,
    last_key: Seq<char>,
    open_key: Seq<char>,
    failure: Seq<char>,
) -> OutcomeView {
    let signal = member_spec(doc, signal_key);
    if !(signal is Null) {
        Err(label + render_spec(signal))
    } else {
        match price_text_spec(member_spec(doc, last_key), failure) {
            Err(e) => Err(e),
            Ok(last) => match price_text_spec(member_spec(doc, open_key), failure) {
                Err(e) => Err(e),
                Ok(open) => Ok((Some(last), Some(open))),
            },
        }
    }
}

/// The price that a JSON string writes.
pub fn price_text(v: &Json, failure: &str) -> (r: Result<Price, String>)
    ensures
        price_result_view(r) == price_text_spec(v@, failure@),
{
    match v.as_text() {
        Some(text) => Price::parse(text),
        None => Err(String::from_str(failure)),
    }
}

/// The message of an error that a feed reports itself: `label`, then the JSON text of
/// what it reports.
pub fn signalled(label: &str, signal: &Json) -> (r: String)
    ensures
        r@ == label@ + render_spec(signal@),
{
    let mut message = String::from_str(label);
    let text = signal.render();
    message.append(text.as_str());
    message
}

/// Reads the reply of a feed of the latest and the opening price.
pub fn stats(
    doc: &Json,
    label: &str,
    signal_key: &str,
    last_key: &str,
    open_key: &str,
    failure: &str,
) -> (r: Outcome)
    ensures
        outcome_view(r) == stats_spec(
            doc@,
            label@,
            signal_key@,
            last_key@,
            open_key@,
            failure@,
        ),
{
    let signal = doc.member(signal_key);
    if !signal.is_null() {
        return Err(signalled(label, signal));
    }
    let last = match price_text(doc.member(last_key), failure) {
        Ok(p) => p,
        Err(e) => {
            return Err(e);
        },
    };
    let open = match price_text(doc.member(open_key), failure) {
        Ok(p) => p,
        Err(e) => {
            return Err(e);
        },
    };
    Ok((Some(last), Some(open)))
}

} // verus!
