//! The text of a finished-query report.
use vstd::prelude::*;
use crate::duration::{current_time, duration_text_spec, elapsed_seconds_spec, time_diff_text_at};
use crate::query::{QueryRecord, RunningQuery, Timestamp};
use crate::text::{escape_markdown_v2, escaped};

verus! {

/// The report for a finished query, given the sentence for how long it ran.
pub open spec fn report_spec(q: QueryRecord, duration: Seq<char>) -> Seq<char> {
    "Query done \\- "@ + escaped(duration) + " by "@ + escaped(q.2) + ": \n ```sql\n"@ + escaped(
        q.3,
    ) + "```"@
}

/// Builds the report for `q`: the duration sentence and the client label
/// escaped, and the escaped query text in a code block.
pub fn report_text(q: &RunningQuery, duration: &str) -> (r: String)
    ensures
        r@ == report_spec(q@, duration@),
{
    let mut out = String::new();
    out.append("Query done \\- ");
    out.append(escape_markdown_v2(duration).as_str());
    out.append(" by ");
    out.append(escape_markdown_v2(q.application_name.as_str()).as_str());
    out.append(": \n ```sql\n");
    out.append(escape_markdown_v2(q.query.as_str()).as_str());
    out.append("```");
    out
}

/// The report for `q` as it reads at time `now`.
pub fn report_at(q: &RunningQuery, now: Timestamp) -> (r: String)
    ensures
        r@ == report_spec(q@, duration_text_spec(elapsed_seconds_spec(q.query_start, now))),
{
    let d = time_diff_text_at(q.query_start, now);
    report_text(q, d.as_str())
}

/// The report for `q`, its duration measured up to the moment of the call.
pub fn report(q: &RunningQuery) -> (r: String)
    ensures
        exists|now: Timestamp|
            now.nanos < 1_000_000_000 && r@ == report_spec(q@, duration_text_spec(elapsed_seconds_spec(q.query_start, now))),
{
    let now = current_time();
    let d = time_diff_text_at(q.query_start, now);
    report_text(q, d.as_str())
}

} // verus!
