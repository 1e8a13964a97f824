use codex_usage::attribution::UsageContributorKind as CoreKind;
use codex_usage::protocol;
use codex_usage::state;
use codex_usage::usage_processor::{
    api_usage_range, internal_error, state_usage_range, usage_entry, usage_read_response,
    INTERNAL_ERROR_CODE,
};

fn state_entry(kind: CoreKind, id: &str) -> state::UsageEntry {
    state::UsageEntry {
        kind,
        id: id.to_string(),
        label: id.to_uppercase(),
        attributed_tokens: 42,
        percent_of_usage: 7,
    }
}

#[test]
fn ranges_convert_both_ways() {
    assert_eq!(state_usage_range(protocol::UsageRange::Day), state::UsageRange::Day);
    assert_eq!(state_usage_range(protocol::UsageRange::Week), state::UsageRange::Week);
    assert_eq!(api_usage_range(state::UsageRange::Week), protocol::UsageRange::Week);
    assert_eq!(state::UsageRange::Day.seconds(), 86_400);
    assert_eq!(state::UsageRange::Week.seconds(), 7 * 86_400);
}

#[test]
fn kinds_convert_by_name() {
    assert_eq!(protocol::UsageContributorKind::from(CoreKind::McpServer), protocol::UsageContributorKind::McpServer);
    assert_eq!(protocol::UsageContributorKind::from(CoreKind::Skill), protocol::UsageContributorKind::Skill);
    let e = usage_entry(&state_entry(CoreKind::Plugin, "p"));
    assert_eq!(
        e,
        protocol::UsageEntry {
            kind: protocol::UsageContributorKind::Plugin,
            id: "p".to_string(),
            label: "P".to_string(),
            attributed_tokens: 42,
            percent_of_usage: 7,
        }
    );
}

#[test]
fn missing_store_is_an_internal_error() {
    let err = usage_read_response(None).expect_err("no store");
    assert_eq!(err.code, INTERNAL_ERROR_CODE);
    assert_eq!(err.code, -32603);
    assert_eq!(err.message, "sqlite state db unavailable for usage");
}

#[test]
fn read_failure_is_reported() {
    let err = usage_read_response(Some(Err("disk I/O error".to_string()))).expect_err("failure");
    assert_eq!(err, internal_error("failed to read usage report: disk I/O error".to_string()));
}

#[test]
fn report_is_carried_over() {
    let report = state::UsageReport {
        range: state::UsageRange::Week,
        generated_at: 1_700_000_000,
        tracked_from: Some(1_690_000_000),
        total_tokens: 1_000,
        headline: Some(state::UsageHeadline {
            entry: state_entry(CoreKind::App, "slack"),
            note: Some("note".to_string()),
        }),
        skills: vec![state_entry(CoreKind::Skill, "tmux")],
        subagents: vec![],
        agent_tasks: vec![state_entry(CoreKind::AgentTask, "task")],
        apps: vec![state_entry(CoreKind::App, "slack")],
        mcp_servers: vec![],
        plugins: vec![state_entry(CoreKind::Plugin, "p")],
    };
    let response = usage_read_response(Some(Ok(report))).expect("report");
    let r = response.report;
    assert_eq!(r.range, protocol::UsageRange::Week);
    assert_eq!(r.generated_at, 1_700_000_000);
    assert_eq!(r.tracked_from, Some(1_690_000_000));
    assert_eq!(r.total_tokens, 1_000);
    let headline = r.headline.expect("headline");
    assert_eq!(headline.note, Some("note".to_string()));
    assert_eq!(headline.entry.kind, protocol::UsageContributorKind::App);
    assert_eq!(r.skills.len(), 1);
    assert_eq!(r.skills[0].id, "tmux");
    assert_eq!(r.agent_tasks[0].kind, protocol::UsageContributorKind::AgentTask);
    assert!(r.subagents.is_empty());
    assert!(r.mcp_servers.is_empty());
    assert_eq!(r.plugins[0].label, "P");
}
