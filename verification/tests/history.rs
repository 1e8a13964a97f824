use codex_usage::history::{keep_current_and_previous_turn, recent_input, SearchInput, ASSISTANT_CONTEXT_TOKEN_LIMIT};
use codex_usage::models::{ContentItem, ResponseItem};

fn message(role: &str, text: &str) -> ResponseItem {
    ResponseItem::Message {
        id: None,
        role: role.to_string(),
        content: vec![if role == "assistant" {
            ContentItem::OutputText {
                text: text.to_string(),
            }
        } else {
            ContentItem::InputText {
                text: text.to_string(),
            }
        }],
        phase: None,
    }
}

/// A stand-in for the token-budget truncation: keeps four bytes per token
/// and marks the cut.
fn truncate_text(text: &String, tokens: usize) -> String {
    let keep = text.len().min(tokens * 4);
    format!("{}…", &text[..keep])
}

#[test]
fn keeps_current_user_and_previous_visible_turn() {
    let items = vec![
        message("system", "system"),
        message("user", "old user"),
        message("assistant", "old assistant"),
        message("user", "previous user"),
        ResponseItem::FunctionCall {
            id: None,
            name: "tool".to_string(),
            namespace: None,
            arguments: "{}".to_string(),
            call_id: "call-1".to_string(),
        },
        message("assistant", "previous assistant"),
        message("developer", "developer"),
        message("user", "current user"),
        message("assistant", "current commentary"),
    ];

    assert_eq!(
        recent_input(&items, &truncate_text),
        Some(SearchInput::Items(vec![
            message("user", "previous user"),
            message("assistant", "previous assistant"),
            message("user", "current user"),
        ]))
    );
}

#[test]
fn keeps_only_text_from_recent_user_messages() {
    let previous_user = ResponseItem::Message {
        id: None,
        role: "user".to_string(),
        content: vec![
            ContentItem::InputText {
                text: "previous user".to_string(),
            },
            ContentItem::InputImage {
                image_url: "data:image/png;base64,image".to_string(),
                detail: None,
            },
        ],
        phase: None,
    };
    let items = vec![
        previous_user,
        message("assistant", "previous assistant"),
        message("user", "current user"),
    ];

    assert_eq!(
        recent_input(&items, &truncate_text),
        Some(SearchInput::Items(vec![
            message("user", "previous user"),
            message("assistant", "previous assistant"),
            message("user", "current user"),
        ]))
    );
}

#[test]
fn caps_assistant_text_in_recent_tail() {
    let long_assistant = "a".repeat(4_100);
    let items = vec![
        message("user", "previous user"),
        message("assistant", &long_assistant),
        message("assistant", "after the assistant budget"),
        message("user", "current user"),
    ];

    assert_eq!(
        recent_input(&items, &truncate_text),
        Some(SearchInput::Items(vec![
            message("user", "previous user"),
            message(
                "assistant",
                &truncate_text(&long_assistant, ASSISTANT_CONTEXT_TOKEN_LIMIT),
            ),
            message("user", "current user"),
        ]))
    );
}

#[test]
fn no_user_message_gives_no_tail() {
    let items = vec![message("assistant", "hello"), message("system", "s")];
    assert_eq!(recent_input(&items, &truncate_text), None);
    assert_eq!(recent_input(&[], &truncate_text), None);
}

#[test]
fn user_message_without_text_is_not_visible() {
    let image_only = ResponseItem::Message {
        id: None,
        role: "user".to_string(),
        content: vec![ContentItem::InputImage {
            image_url: "data:image/png;base64,image".to_string(),
            detail: Some("high".to_string()),
        }],
        phase: None,
    };
    let items = vec![message("user", "first"), message("assistant", "reply"), image_only];
    assert_eq!(
        recent_input(&items, &truncate_text),
        Some(SearchInput::Items(vec![message("user", "first")]))
    );
}

#[test]
fn single_user_message_is_its_own_tail() {
    let kept = keep_current_and_previous_turn(vec![
        message("assistant", "a"),
        message("user", "only"),
        message("assistant", "b"),
    ]);
    assert_eq!(kept, vec![message("user", "only")]);
}

#[test]
fn budget_spans_assistant_messages_in_order() {
    let first = "b".repeat(3_000);
    let second = "c".repeat(2_000);
    let items = vec![
        message("user", "previous user"),
        message("assistant", &first),
        message("assistant", &second),
        message("user", "current user"),
    ];
    assert_eq!(
        recent_input(&items, &truncate_text),
        Some(SearchInput::Items(vec![
            message("user", "previous user"),
            message("assistant", &first),
            message("assistant", &truncate_text(&second, 250)),
            message("user", "current user"),
        ]))
    );
}
