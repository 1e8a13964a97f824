use codex_usage::attribution::{
    aggregate_contributors, attributable_tokens, estimate_serialized_tokens, skill_contributors,
    tag_contents, tool_result_contributors, TokenUsage, ToolName, ToolRouter, ToolUsage,
    UsageAttributionContributor, UsageContributor, UsageContributorKind, UsagePromptAttribution,
    UsagePromptContributor,
};
use codex_usage::models::{ContentItem, ResponseItem};
use codex_usage::text::approx_token_count;

fn usage_prompt_contributor(
    kind: UsageContributorKind,
    id: &str,
    label: &str,
    source_estimated_tokens: i64,
) -> UsagePromptContributor {
    UsagePromptContributor {
        contributor: usage_contributor(kind, id, label),
        source_estimated_tokens,
    }
}

fn usage_contributor(kind: UsageContributorKind, id: &str, label: &str) -> UsageContributor {
    UsageContributor {
        kind,
        id: id.to_string(),
        label: label.to_string(),
    }
}

#[test]
fn complete_attributes_only_non_cached_input_tokens() {
    let attribution = UsagePromptAttribution {
        prompt_estimated_tokens: 100,
        contributors: vec![
            usage_prompt_contributor(UsageContributorKind::Skill, "/skills/tmux", "tmux", 25),
            usage_prompt_contributor(UsageContributorKind::App, "slack", "Slack", 10),
        ],
    };

    let usage = attribution.complete(
        "sample".to_string(),
        "turn".to_string(),
        "response".to_string(),
        1_700_000_000,
        TokenUsage {
            input_tokens: 100,
            cached_input_tokens: 40,
            output_tokens: 20,
            reasoning_output_tokens: 0,
            total_tokens: 120,
        },
    );

    assert_eq!(
        usage.contributors,
        vec![
            UsageAttributionContributor {
                contributor: usage_contributor(UsageContributorKind::Skill, "/skills/tmux", "tmux"),
                source_estimated_tokens: 25,
                attributed_tokens: 15,
            },
            UsageAttributionContributor {
                contributor: usage_contributor(UsageContributorKind::App, "slack", "Slack"),
                source_estimated_tokens: 10,
                attributed_tokens: 6,
            },
        ]
    );
    assert_eq!(usage.sample_id, "sample");
    assert_eq!(usage.turn_id, "turn");
    assert_eq!(usage.response_id, "response");
    assert_eq!(usage.occurred_at, 1_700_000_000);
    assert_eq!(usage.prompt_estimated_tokens, 100);
}

#[test]
fn skill_contributors_use_skill_path_as_stable_id() {
    let item = ResponseItem::Message {
        id: None,
        role: "developer".to_string(),
        content: vec![ContentItem::InputText {
            text: "<skill><name>tmux</name><path>/skills/tmux/SKILL.md</path></skill>".to_string(),
        }],
        phase: None,
    };

    assert_eq!(
        skill_contributors(&[item]),
        vec![UsagePromptContributor {
            contributor: usage_contributor(
                UsageContributorKind::Skill,
                "/skills/tmux/SKILL.md",
                "tmux",
            ),
            source_estimated_tokens: i64::try_from(approx_token_count(
                "<skill><name>tmux</name><path>/skills/tmux/SKILL.md</path></skill>",
            ))
            .expect("skill prompt token estimate should fit in i64"),
        }]
    );
}

#[test]
fn tool_results_reuse_tool_usage_provenance() {
    let contributor = usage_contributor(UsageContributorKind::App, "slack", "Slack");
    let tool_name = ToolName::plain("mcp__slack__search".to_string());
    let router = ToolRouter::from_parts(
        Vec::new(),
        vec![ToolUsage {
            tool_name: ToolName::plain("mcp__slack__search".to_string()),
            contributors: vec![contributor.clone()],
        }],
    );
    let tool_result = ResponseItem::FunctionCallOutput {
        call_id: "call-1".to_string(),
        output: "result".to_string(),
    };
    let input = vec![
        ResponseItem::FunctionCall {
            id: None,
            name: tool_name.name,
            namespace: tool_name.namespace,
            arguments: "{}".to_string(),
            call_id: "call-1".to_string(),
        },
        tool_result.clone(),
    ];
    let result_tokens = estimate_serialized_tokens(Some(
        r#"{"type":"function_call_output","call_id":"call-1","output":"result"}"#,
    ));
    let item_tokens = vec![
        estimate_serialized_tokens(Some(r#"{"type":"function_call"}"#)),
        result_tokens,
    ];

    assert_eq!(
        tool_result_contributors(&input, &item_tokens, &router),
        vec![UsagePromptContributor {
            contributor,
            source_estimated_tokens: result_tokens,
        }]
    );
}

#[test]
fn attributable_tokens_rounds_to_nearest() {
    assert_eq!(attributable_tokens(60, 25, 100), 15);
    assert_eq!(attributable_tokens(60, 10, 100), 6);
    assert_eq!(attributable_tokens(3, 1, 2), 2);
    assert_eq!(attributable_tokens(1, 1, 3), 0);
}

#[test]
fn attributable_tokens_is_zero_for_non_positive_inputs() {
    assert_eq!(attributable_tokens(0, 10, 100), 0);
    assert_eq!(attributable_tokens(60, 0, 100), 0);
    assert_eq!(attributable_tokens(60, 10, 0), 0);
    assert_eq!(attributable_tokens(-5, 10, 100), 0);
}

#[test]
fn attributable_tokens_saturates() {
    assert_eq!(attributable_tokens(i64::MAX, i64::MAX, i64::MAX), 1);
    assert_eq!(attributable_tokens(i64::MAX, 2, 2), i64::MAX / 2);
}

#[test]
fn non_cached_input_is_never_negative() {
    let usage = TokenUsage {
        input_tokens: 10,
        cached_input_tokens: 40,
        output_tokens: 0,
        reasoning_output_tokens: 0,
        total_tokens: 10,
    };
    assert_eq!(usage.non_cached_input(), 0);
    let usage = TokenUsage { cached_input_tokens: 4, ..usage };
    assert_eq!(usage.non_cached_input(), 6);
}

#[test]
fn complete_drops_contributors_without_share() {
    let attribution = UsagePromptAttribution {
        prompt_estimated_tokens: 1000,
        contributors: vec![
            usage_prompt_contributor(UsageContributorKind::Plugin, "p", "P", 1),
            usage_prompt_contributor(UsageContributorKind::App, "a", "A", 500),
        ],
    };
    let usage = attribution.complete(
        "s".to_string(),
        "t".to_string(),
        "r".to_string(),
        0,
        TokenUsage {
            input_tokens: 100,
            cached_input_tokens: 0,
            output_tokens: 0,
            reasoning_output_tokens: 0,
            total_tokens: 100,
        },
    );
    assert_eq!(
        usage.contributors,
        vec![UsageAttributionContributor {
            contributor: usage_contributor(UsageContributorKind::App, "a", "A"),
            source_estimated_tokens: 500,
            attributed_tokens: 50,
        }]
    );
}

#[test]
fn aggregate_merges_and_sorts_contributors() {
    let merged = aggregate_contributors(vec![
        usage_prompt_contributor(UsageContributorKind::App, "slack", "Slack", 10),
        usage_prompt_contributor(UsageContributorKind::Skill, "/b", "b", 3),
        usage_prompt_contributor(UsageContributorKind::App, "slack", "Slack", 5),
        usage_prompt_contributor(UsageContributorKind::Skill, "/a", "a", 7),
        usage_prompt_contributor(UsageContributorKind::App, "slack", "Slack2", 1),
    ]);
    assert_eq!(
        merged,
        vec![
            usage_prompt_contributor(UsageContributorKind::Skill, "/a", "a", 7),
            usage_prompt_contributor(UsageContributorKind::Skill, "/b", "b", 3),
            usage_prompt_contributor(UsageContributorKind::App, "slack", "Slack", 15),
            usage_prompt_contributor(UsageContributorKind::App, "slack", "Slack2", 1),
        ]
    );
}

#[test]
fn aggregate_saturates_token_sums() {
    let merged = aggregate_contributors(vec![
        usage_prompt_contributor(UsageContributorKind::App, "x", "X", i64::MAX),
        usage_prompt_contributor(UsageContributorKind::App, "x", "X", 5),
    ]);
    assert_eq!(
        merged,
        vec![usage_prompt_contributor(UsageContributorKind::App, "x", "X", i64::MAX)]
    );
}

#[test]
fn tag_contents_trims_and_requires_both_tags() {
    assert_eq!(
        tag_contents("<skill><name>  tmux </name></skill>", "name"),
        Some("tmux".to_string())
    );
    assert_eq!(tag_contents("<name>tmux", "name"), None);
    assert_eq!(tag_contents("tmux</name>", "name"), None);
    assert_eq!(tag_contents("</name><name>a</name>", "name"), Some("a".to_string()));
}

#[test]
fn skill_contributor_needs_name_and_path() {
    let item = ResponseItem::Message {
        id: None,
        role: "developer".to_string(),
        content: vec![ContentItem::InputText {
            text: "<skill><name>tmux</name></skill>".to_string(),
        }],
        phase: None,
    };
    assert_eq!(skill_contributors(&[item]), vec![]);
}

#[test]
fn from_prompt_adds_estimates_and_aggregates() {
    let router = ToolRouter::from_parts(
        vec![usage_prompt_contributor(UsageContributorKind::Plugin, "plug", "Plug", 4)],
        vec![ToolUsage {
            tool_name: ToolName::new(Some("ns".to_string()), "tool".to_string()),
            contributors: vec![usage_contributor(UsageContributorKind::Plugin, "plug", "Plug")],
        }],
    );
    let input = vec![
        ResponseItem::FunctionCall {
            id: None,
            name: "tool".to_string(),
            namespace: Some("ns".to_string()),
            arguments: "{}".to_string(),
            call_id: "c".to_string(),
        },
        ResponseItem::CustomToolCallOutput {
            call_id: "c".to_string(),
            output: "out".to_string(),
        },
    ];
    let attribution =
        UsagePromptAttribution::from_prompt(&input, &[10, 6], &router, &[20, 30], "12345678");
    assert_eq!(attribution.prompt_estimated_tokens, 2 + 16 + 50);
    assert_eq!(
        attribution.contributors,
        vec![usage_prompt_contributor(UsageContributorKind::Plugin, "plug", "Plug", 10)]
    );
}

#[test]
fn estimate_of_unserializable_value_is_zero() {
    assert_eq!(estimate_serialized_tokens(None), 0);
    assert_eq!(estimate_serialized_tokens(Some("abcde")), 2);
    assert_eq!(approx_token_count("é"), 1);
    assert_eq!(approx_token_count(""), 0);
}
