//! Answering a usage read: the report the state store gives, in the form the
//! app-server protocol carries.
use crate::protocol;
use crate::protocol::kind_from_core;
use crate::state;
use crate::text::concat;
use crate::models::clone_opt_string;
use vstd::prelude::*;

verus! {

/// The JSON-RPC code of an internal error.
pub const INTERNAL_ERROR_CODE: i64 = -32603;

/// A JSON-RPC error answer.
#[derive(Debug, PartialEq, Eq)]
pub struct JsonRpcError {
    pub code: i64,
    pub message: String,
}

/// An internal error with the given message.
pub fn internal_error(message: String) -> (r: JsonRpcError)
    ensures
        r.code == INTERNAL_ERROR_CODE,
        r.message == message,
{
    JsonRpcError { code: INTERNAL_ERROR_CODE, message }
}

/// The store's range for a protocol range.
pub open spec fn state_range_spec(value: protocol::UsageRange) -> state::UsageRange {
    match value {
        protocol::UsageRange::Day => state::UsageRange::Day,
        protocol::UsageRange::Week => state::UsageRange::Week,
    }
}

/// The protocol's range for a store range.
pub open spec fn api_range_spec(value: state::UsageRange) -> protocol::UsageRange {
    match value {
        state::UsageRange::Day => protocol::UsageRange::Day,
        state::UsageRange::Week => protocol::UsageRange::Week,
    }
}

/// The store's range for a protocol range.
pub fn state_usage_range(value: protocol::UsageRange) -> (r: state::UsageRange)
    ensures
        r == state_range_spec(value),
{
    match value {
        protocol::UsageRange::Day => state::UsageRange::Day,
        protocol::UsageRange::Week => state::UsageRange::Week,
    }
}

/// The protocol's range for a store range.
pub fn api_usage_range(value: state::UsageRange) -> (r: protocol::UsageRange)
    ensures
        r == api_range_spec(value),
{
    match value {
        state::UsageRange::Day => protocol::UsageRange::Day,
        state::UsageRange::Week => protocol::UsageRange::Week,
    }
}

/// `r` is the protocol form of the store entry `e`: the same fields, with
/// the kind of the same name.
pub open spec fn entry_converted(r: protocol::UsageEntry, e: state::UsageEntry) -> bool {
    &&& r.kind == kind_from_core(e.kind)
    &&& r.id == e.id
    &&& r.label == e.label
    &&& r.attributed_tokens == e.attributed_tokens
    &&& r.percent_of_usage == e.percent_of_usage
}

/// Each entry of `rs` is the protocol form of the entry of `es` at the same
/// position.
pub open spec fn entries_converted(rs: Seq<protocol::UsageEntry>, es: Seq<state::UsageEntry>) -> bool {
    &&& rs.len() == es.len()
    &&& forall|i: int| 0 <= i < rs.len() ==> entry_converted(#[trigger] rs[i], es[i])
}

/// `r` is the protocol form of the store report `s`.
pub open spec fn report_converted(r: protocol::UsageReport, s: state::UsageReport) -> bool {
    &&& r.range == api_range_spec(s.range)
    &&& r.generated_at == s.generated_at
    &&& r.tracked_from == s.tracked_from
    &&& r.total_tokens == s.total_tokens
    &&& match (r.headline, s.headline) {
        (Some(rh), Some(sh)) => entry_converted(rh.entry, sh.entry) && rh.note == sh.note,
        (None, None) => true,
        _ => false,
    }
    &&& entries_converted(r.skills@, s.skills@)
    &&& entries_converted(r.subagents@, s.subagents@)
    &&& entries_converted(r.agent_tasks@, s.agent_tasks@)
    &&& entries_converted(r.apps@, s.apps@)
    &&& entries_converted(r.mcp_servers@, s.mcp_servers@)
    &&& entries_converted(r.plugins@, s.plugins@)
}

/// The protocol form of a store entry.
pub fn usage_entry(entry: &state::UsageEntry) -> (r: protocol::UsageEntry)
    ensures
        entry_converted(r, *entry),
{
    protocol::UsageEntry {
        kind: protocol::UsageContributorKind::from(entry.kind),
        id: entry.id.clone(),
        label: entry.label.clone(),
        attributed_tokens: entry.attributed_tokens,
        percent_of_usage: entry.percent_of_usage,
    }
}

/// The protocol form of a list of store entries.
pub fn usage_entries(entries: &Vec<state::UsageEntry>) -> (r: Vec<protocol::UsageEntry>)
    ensures
        entries_converted(r@, entries@),
{
    let mut r: Vec<protocol::UsageEntry> = Vec::new();
    let mut i: usize = 0;
    while i < entries.len()
        invariant
            i <= entries@.len(),
            r@.len() == i,
            forall|j: int| 0 <= j < i ==> entry_converted(#[trigger] r@[j], entries@[j]),
        decreases entries@.len() - i,
    {
        r.push(usage_entry(&entries[i]));
        i = i + 1;
    }
    r
}

/// The protocol form of a store report.
pub fn usage_report(report: &state::UsageReport) -> (r: protocol::UsageReport)
    ensures
        report_converted(r, *report),
{
    let headline = match &report.headline {
        Some(h) => Some(protocol::UsageHeadline { entry: usage_entry(&h.entry), note: clone_opt_string(&h.note) }),
        None => None,
    };
    protocol::UsageReport {
        range: api_usage_range(report.range),
        generated_at: report.generated_at,
        tracked_from: report.tracked_from,
        total_tokens: report.total_tokens,
        headline,
        skills: usage_entries(&report.skills),
        subagents: usage_entries(&report.subagents),
        agent_tasks: usage_entries(&report.agent_tasks),
        apps: usage_entries(&report.apps),
        mcp_servers: usage_entries(&report.mcp_servers),
        plugins: usage_entries(&report.plugins),
    }
}

/// The answer to a usage read, given what reading the store gave: `None`
/// when there is no store, else the store's report or its error.
pub fn usage_read_response(read: Option<Result<state::UsageReport, String>>) -> (r: Result<protocol::UsageReadResponse, JsonRpcError>)
    ensures
        match read {
            None => r is Err && r->Err_0.code == INTERNAL_ERROR_CODE && r->Err_0.message@ == "sqlite state db unavailable for usage"@,
            Some(Err(e)) => r is Err && r->Err_0.code == INTERNAL_ERROR_CODE && r->Err_0.message@ == "failed to read usage report: "@ + e@,
            Some(Ok(report)) => r is Ok && report_converted(r->Ok_0.report, report),
        },
{
    match read {
        None => Err(internal_error("sqlite state db unavailable for usage".to_owned())),
        Some(Err(e)) => Err(internal_error(concat("failed to read usage report: ", e.as_str()))),
        Some(Ok(report)) => Ok(protocol::UsageReadResponse { report: usage_report(&report) }),
    }
}

/// The two forms of a range correspond one to one.
pub proof fn lemma_range_round_trip(a: protocol::UsageRange, b: state::UsageRange)
    ensures
        api_range_spec(state_range_spec(a)) == a,
        state_range_spec(api_range_spec(b)) == b,
{
}

} // verus!
