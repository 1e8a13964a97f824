//! The usage report as the app-server protocol carries it.
use crate::attribution;
use vstd::prelude::*;

verus! {

/// The span of time a usage report covers.
#[derive(Debug, Clone, Copy, PartialEq, Eq, Structural)]
pub enum UsageRange {
    Day,
    Week,
}

/// A request for the usage report of a range.
#[derive(Debug, Clone, Copy, PartialEq, Eq, Structural)]
pub struct UsageReadParams {
    pub range: UsageRange,
}

/// What kind of thing a report line is about.
#[derive(Debug, Clone, Copy, PartialEq, Eq, Structural)]
pub enum UsageContributorKind {
    Skill,
    Subagent,
    AgentTask,
    App,
    McpServer,
    Plugin,
}

/// The protocol kind of a contributor kind: the variant of the same name.
pub open spec fn kind_from_core(value: attribution::UsageContributorKind) -> UsageContributorKind {
    match value {
        attribution::UsageContributorKind::Skill => UsageContributorKind::Skill,
        attribution::UsageContributorKind::Subagent => UsageContributorKind::Subagent,
        attribution::UsageContributorKind::AgentTask => UsageContributorKind::AgentTask,
        attribution::UsageContributorKind::App => UsageContributorKind::App,
        attribution::UsageContributorKind::McpServer => UsageContributorKind::McpServer,
        attribution::UsageContributorKind::Plugin => UsageContributorKind::Plugin,
    }
}

/// Converting a contributor kind keeps it: each kind becomes the protocol
/// kind of the same name, so distinct kinds stay distinct.
pub proof fn lemma_kind_conversion_keeps_kind(a: attribution::UsageContributorKind, b: attribution::UsageContributorKind)
    ensures
        kind_from_core(a) == kind_from_core(b) ==> a == b,
        kind_from_core(attribution::UsageContributorKind::Skill) == UsageContributorKind::Skill,
        kind_from_core(attribution::UsageContributorKind::Subagent) == UsageContributorKind::Subagent,
        kind_from_core(attribution::UsageContributorKind::AgentTask) == UsageContributorKind::AgentTask,
        kind_from_core(attribution::UsageContributorKind::App) == UsageContributorKind::App,
        kind_from_core(attribution::UsageContributorKind::McpServer) == UsageContributorKind::McpServer,
        kind_from_core(attribution::UsageContributorKind::Plugin) == UsageContributorKind::Plugin,
{
}

impl From<attribution::UsageContributorKind> for UsageContributorKind {
    fn from(value: attribution::UsageContributorKind) -> (r: Self) {
        match value {
            attribution::UsageContributorKind::Skill => UsageContributorKind::Skill,
            attribution::UsageContributorKind::Subagent => UsageContributorKind::Subagent,
            attribution::UsageContributorKind::AgentTask => UsageContributorKind::AgentTask,
            attribution::UsageContributorKind::App => UsageContributorKind::App,
            attribution::UsageContributorKind::McpServer => UsageContributorKind::McpServer,
            attribution::UsageContributorKind::Plugin => UsageContributorKind::Plugin,
        }
    }
}

impl vstd::std_specs::convert::FromSpecImpl<attribution::UsageContributorKind> for UsageContributorKind {
    open spec fn obeys_from_spec() -> bool {
        true
    }

    open spec fn from_spec(v: attribution::UsageContributorKind) -> UsageContributorKind {
        kind_from_core(v)
    }
}

/// One contributor's line in a report.
#[derive(Debug, PartialEq, Eq)]
pub struct UsageEntry {
    pub kind: UsageContributorKind,
    pub id: String,
    pub label: String,
    pub attributed_tokens: i64,
    pub percent_of_usage: u8,
}

/// The largest contributor of a report, with an optional note.
#[derive(Debug, PartialEq, Eq)]
pub struct UsageHeadline {
    pub entry: UsageEntry,
    pub note: Option<String>,
}

/// The usage of one range, grouped by kind of contributor.
#[derive(Debug, PartialEq, Eq)]
pub struct UsageReport {
    pub range: UsageRange,
    pub generated_at: i64,
    pub tracked_from: Option<i64>,
    pub total_tokens: i64,
    pub headline: Option<UsageHeadline>,
    pub skills: Vec<UsageEntry>,
    pub subagents: Vec<UsageEntry>,
    pub agent_tasks: Vec<UsageEntry>,
    pub apps: Vec<UsageEntry>,
    pub mcp_servers: Vec<UsageEntry>,
    pub plugins: Vec<UsageEntry>,
}

/// The answer to a usage read.
#[derive(Debug, PartialEq, Eq)]
pub struct UsageReadResponse {
    pub report: UsageReport,
}

} // verus!
