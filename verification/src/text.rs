//! Texts for display: the HTML of an item made safe to show, and the age of
//! an item in words. Both are the work of outside crates; this module gives
//! each of them a name and a contract.

use vstd::prelude::*;

verus! {

/// The longest span, in seconds, that can be put into words.
pub const MAX_SPAN: i64 = 9_223_372_036_854_775;

/// The HTML that `ammonia::clean` makes of `html` with its default rules:
/// the same text without the markup that those rules do not allow.
pub uninterp spec fn sanitized(html: Seq<char>) -> Seq<char>;

/// The words in which `chrono_humanize::HumanTime` puts a span of `seconds`
/// seconds, counted from now: a rough English phrase such as "now",
/// "an hour ago" or "in 3 days". A negative span lies in the past.
pub uninterp spec fn humanized(seconds: int) -> Seq<char>;

/// Calls `ammonia::clean`, which parses `html` as a fragment and writes it
/// out again with only the tags, attributes and URL schemes that its default
/// rules allow. The contract claims no more than that the result depends on
/// `html` alone.
#[verifier::external_body]
pub(crate) fn clean(html: &str) -> (out: String)
    ensures
        out@ == sanitized(html@),
{
    ammonia::clean(html)
}

/// Calls the `Display` of `chrono_humanize::HumanTime` on a span of `seconds`
/// whole seconds, which gives the rough English phrase for that span. The
/// span must be one that `chrono::Duration::seconds` accepts. The contract
/// claims no more than that the result depends on `seconds` alone.
#[verifier::external_body]
pub(crate) fn humanize(seconds: i64) -> (out: String)
    requires
        -MAX_SPAN <= seconds <= MAX_SPAN,
    ensures
        out@ == humanized(seconds as int),
{
    chrono_humanize::HumanTime::from(chrono::Duration::seconds(seconds)).to_string()
}

/// Whether the span from `now` to `time` can be put into words.
pub open spec fn span_fits(time: i64, now: i64) -> bool {
    -MAX_SPAN <= time - now <= MAX_SPAN
}

/// The time `time` in words, as seen at `now`; nothing where the span between
/// the two is too long to be put into words.
pub open spec fn time_in_words(time: i64, now: i64) -> Option<Seq<char>> {
    if span_fits(time, now) {
        Some(humanized(time - now))
    } else {
        None
    }
}

/// The HTML `html` made safe to show.
pub fn safe_text(html: &str) -> (out: String)
    ensures
        out@ == sanitized(html@),
{
    clean(html)
}

/// The time `time` in words, as seen at `now`; both in seconds since the
/// Unix epoch. `None` where the span between the two is too long to be put
/// into words.
pub fn human_time(time: i64, now: i64) -> (out: Option<String>)
    ensures
        out.deep_view() == time_in_words(time, now),
{
    let span: i128 = time as i128 - now as i128;
    if -(MAX_SPAN as i128) <= span && span <= MAX_SPAN as i128 {
        Some(humanize(span as i64))
    } else {
        None
    }
}

} // verus!
