//! The usage report as the state store keeps it.
use crate::attribution::{UsageAttributionItem, UsageContributorKind};
use vstd::prelude::*;

verus! {

/// The span of time a usage report covers.
#[derive(Debug, Clone, Copy, PartialEq, Eq, Structural)]
pub enum UsageRange {
    Day,
    Week,
}

/// The length of a range in seconds.
pub open spec fn range_seconds(range: UsageRange) -> i64 {
    match range {
        UsageRange::Day => 86400,
        UsageRange::Week => 604800,
    }
}

impl UsageRange {
    /// The length of the range in seconds.
    pub fn seconds(self) -> (r: i64)
        ensures
            r == range_seconds(self),
    {
        match self {
            UsageRange::Day => 24 * 60 * 60,
            UsageRange::Week => 7 * 24 * 60 * 60,
        }
    }
}

/// One contributor's line in a report.
#[derive(Debug, PartialEq, Eq)]
pub struct UsageEntry {
    pub kind: UsageContributorKind,
    pub id: String,
    pub label: String,
    pub attributed_tokens: i64,
    pub percent_of_usage: u8,
}

/// The largest contributor of a report, with an optional note.
#[derive(Debug, PartialEq, Eq)]
pub struct UsageHeadline {
    pub entry: UsageEntry,
    pub note: Option<String>,
}

/// The usage of one range, grouped by kind of contributor.
#[derive(Debug, PartialEq, Eq)]
pub struct UsageReport {
    pub range: UsageRange,
    pub generated_at: i64,
    pub tracked_from: Option<i64>,
    pub total_tokens: i64,
    pub headline: Option<UsageHeadline>,
    pub skills: Vec<UsageEntry>,
    pub subagents: Vec<UsageEntry>,
    pub agent_tasks: Vec<UsageEntry>,
    pub apps: Vec<UsageEntry>,
    pub mcp_servers: Vec<UsageEntry>,
    pub plugins: Vec<UsageEntry>,
}

/// The id of a conversation thread.
#[derive(Debug, PartialEq, Eq)]
pub struct ThreadId {
    pub id: String,
}

/// The attribution of one response, with the thread it belongs to.
#[derive(Debug, PartialEq, Eq)]
pub struct UsageSample {
    pub thread_id: ThreadId,
    pub attribution: UsageAttributionItem,
}

} // verus!
