//! The JSON document of a run: one entry per result, and the totals.

use crate::dns::result::{
    count_successful, opt_text, result_views, LookupResult, LookupResultView, LookupStatus,
};
use crate::output::clock::{is_utc_timestamp, timestamp_now};
use vstd::prelude::*;

verus! {

/// One result as it appears in the JSON document.
#[derive(Debug, Clone)]
pub struct JsonResult {
    pub ip: String,
    pub hostname: Option<String>,
    /// The lowercase name of the status.
    pub status: String,
    pub ttl: Option<u32>,
    pub latency_ms: u128,
    pub resolver: String,
    /// Left out of the document where absent.
    pub error: Option<String>,
    /// When the entry was rendered, as an RFC 3339 text.
    pub timestamp: String,
}

/// The mathematical value of a [`JsonResult`].
pub struct JsonResultView {
    pub ip: Seq<char>,
    pub hostname: Option<Seq<char>>,
    pub status: Seq<char>,
    pub ttl: Option<u32>,
    pub latency_ms: u128,
    pub resolver: Seq<char>,
    pub error: Option<Seq<char>>,
    pub timestamp: Seq<char>,
}

impl View for JsonResult {
    type V = JsonResultView;

    open spec fn view(&self) -> JsonResultView {
        JsonResultView {
            ip: self.ip@,
            hostname: opt_text(self.hostname),
            status: self.status@,
            ttl: self.ttl,
            latency_ms: self.latency_ms,
            resolver: self.resolver@,
            error: opt_text(self.error),
            timestamp: self.timestamp@,
        }
    }
}

/// The entry for a result that is rendered at `timestamp`.
pub open spec fn json_result(r: LookupResultView, timestamp: Seq<char>) -> JsonResultView {
    JsonResultView {
        ip: r.ip,
        hostname: r.hostname,
        status: r.status.name(),
        ttl: r.ttl,
        latency_ms: r.latency_ms,
        resolver: r.resolver,
        error: r.error,
        timestamp,
    }
}

/// The totals of a run.
#[derive(Debug, Clone, Copy, PartialEq, Eq, Structural)]
pub struct JsonMetadata {
    pub total_lookups: usize,
    pub successful: usize,
    pub failed: usize,
    pub total_time_ms: u128,
}

/// The totals over `results` of a run that took `total_time_ms`.
pub open spec fn json_metadata(results: Seq<LookupResultView>, total_time_ms: u128) -> JsonMetadata {
    JsonMetadata {
        total_lookups: results.len() as usize,
        successful: count_successful(results) as usize,
        failed: (results.len() - count_successful(results)) as usize,
        total_time_ms,
    }
}

/// The JSON document of a run.
#[derive(Debug, Clone)]
pub struct JsonOutput {
    pub results: Vec<JsonResult>,
    pub metadata: JsonMetadata,
}

/// The values of a sequence of entries.
pub open spec fn json_result_views(entries: Seq<JsonResult>) -> Seq<JsonResultView> {
    Seq::new(entries.len(), |i: int| entries[i]@)
}

/// No more results are successes than there are results.
pub proof fn lemma_count_successful_bound(results: Seq<LookupResultView>)
    ensures
        count_successful(results) <= results.len(),
    decreases results.len(),
{
    if results.len() > 0 {
        lemma_count_successful_bound(results.drop_last());
    }
}

/// The totals add up: every result counts once, as successful or as
/// failed, and the total is the number of results.
pub proof fn lemma_totals_add_up(results: Seq<LookupResultView>, total_time_ms: u128)
    requires
        results.len() <= usize::MAX,
    ensures
        json_metadata(results, total_time_ms).total_lookups == results.len(),
        json_metadata(results, total_time_ms).successful + json_metadata(
            results,
            total_time_ms,
        ).failed == results.len(),
{
    lemma_count_successful_bound(results);
}

/// How many of the results are successes.
pub fn successful_count(results: &[LookupResult]) -> (n: usize)
    ensures
        n == count_successful(result_views(results@)),
        n <= results@.len(),
{
    let ghost views = result_views(results@);
    let mut n: usize = 0;
    let mut i: usize = 0;
    while i < results.len()
        invariant
            i <= results.len(),
            views == result_views(results@),
            n == count_successful(views.take(i as int)),
            n <= i,
        decreases results.len() - i,
    {
        assert(views.take(i + 1).drop_last() =~= views.take(i as int));
        assert(views.take(i + 1).last() == results@[i as int]@);
        if results[i].status == LookupStatus::Success {
            n += 1;
        }
        i += 1;
    }
    assert(views.take(results.len() as int) =~= views);
    n
}

impl JsonResult {
    /// The entry for `result`, rendered at `timestamp`.
    pub fn new(result: &LookupResult, timestamp: String) -> (entry: JsonResult)
        ensures
            entry@ == json_result(result@, timestamp@),
    {
        JsonResult {
            ip: result.ip.clone(),
            hostname: match &result.hostname {
                Some(h) => Some(h.clone()),
                None => None,
            },
            status: result.status.to_string(),
            ttl: result.ttl,
            latency_ms: result.latency_ms,
            resolver: result.resolver.clone(),
            error: match &result.error {
                Some(e) => Some(e.clone()),
                None => None,
            },
            timestamp,
        }
    }
}

/// The JSON document for `results` of a run that took `total_time_ms`:
/// one entry per result, in order, each stamped with the time at which it
/// was rendered, as an RFC 3339 text in UTC, and the totals. The totals add
/// up: every result counts once, as successful or as failed.
pub fn json_output(results: &[LookupResult], total_time_ms: u128) -> (out: JsonOutput)
    ensures
        out.results@.len() == results@.len(),
        forall|i: int|
            0 <= i < results@.len() ==> (#[trigger] out.results@[i])@ == json_result(
                results@[i]@,
                out.results@[i].timestamp@,
            ),
        forall|i: int|
            0 <= i < results@.len() ==> is_utc_timestamp((#[trigger] out.results@[i]).timestamp@),
        out.metadata == json_metadata(result_views(results@), total_time_ms),
        out.metadata.total_lookups == out.results@.len(),
        out.metadata.successful + out.metadata.failed == out.results@.len(),
{
    let successful = successful_count(results);
    let failed = results.len() - successful;
    let mut entries: Vec<JsonResult> = Vec::new();
    let mut i: usize = 0;
    while i < results.len()
        invariant
            i <= results.len(),
            entries@.len() == i,
            forall|k: int|
                0 <= k < i ==> (#[trigger] entries@[k])@ == json_result(
                    results@[k]@,
                    entries@[k].timestamp@,
                ),
            forall|k: int| 0 <= k < i ==> is_utc_timestamp((#[trigger] entries@[k]).timestamp@),
        decreases results.len() - i,
    {
        let entry = JsonResult::new(&results[i], timestamp_now());
        entries.push(entry);
        i += 1;
    }
    assert(result_views(results@).len() == results@.len());
    JsonOutput {
        results: entries,
        metadata: JsonMetadata {
            total_lookups: results.len(),
            successful,
            failed,
            total_time_ms,
        },
    }
}

} // verus!
