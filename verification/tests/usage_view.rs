use codex_usage::protocol::{
    UsageContributorKind, UsageEntry, UsageHeadline, UsageRange, UsageReadResponse, UsageReport,
};
use codex_usage::usage_view::{
    contributor_kind_label, percent_label, truncate_to_width, usage_bar_segments,
    usage_card_available_width, usage_command_label, usage_content_width, usage_entry_line,
    usage_error_card, usage_header_lines, usage_label_column_width, usage_output_command,
    usage_period_label, usage_range_seconds, usage_report_card, usage_title, CardLine, HeaderLine,
    UsageBarLayout, UsageEntryLine, UsageOutput, UsageRequestTracker,
};

fn entry(kind: UsageContributorKind, label: &str, percent: u8) -> UsageEntry {
    UsageEntry {
        kind,
        id: label.to_lowercase(),
        label: label.to_string(),
        attributed_tokens: 10,
        percent_of_usage: percent,
    }
}

fn report(range: UsageRange, total_tokens: i64) -> UsageReport {
    UsageReport {
        range,
        generated_at: 1_700_000_000,
        tracked_from: None,
        total_tokens,
        headline: None,
        skills: Vec::new(),
        subagents: Vec::new(),
        agent_tasks: Vec::new(),
        apps: Vec::new(),
        mcp_servers: Vec::new(),
        plugins: Vec::new(),
    }
}

#[test]
fn available_width_leaves_room_for_the_border() {
    assert_eq!(usage_card_available_width(3), None);
    assert_eq!(usage_card_available_width(4), Some(0));
    assert_eq!(usage_card_available_width(50), Some(46));
    assert_eq!(usage_card_available_width(u16::MAX), Some(72));
}

#[test]
fn labels_and_titles() {
    assert_eq!(usage_title(UsageRange::Day), "Daily usage by token share");
    assert_eq!(usage_title(UsageRange::Week), "Weekly usage by token share");
    assert_eq!(usage_command_label(UsageRange::Day), "/usage");
    assert_eq!(usage_command_label(UsageRange::Week), "/usage week");
    assert_eq!(contributor_kind_label(UsageContributorKind::McpServer), "MCP server");
    assert_eq!(contributor_kind_label(UsageContributorKind::AgentTask), "agent task");
    assert_eq!(usage_range_seconds(UsageRange::Day), 86_400);
    assert_eq!(usage_range_seconds(UsageRange::Week), 604_800);
}

#[test]
fn bar_segments_round_up_and_fill_the_bar() {
    assert_eq!(usage_bar_segments(0), (0, 20));
    assert_eq!(usage_bar_segments(1), (1, 19));
    assert_eq!(usage_bar_segments(42), (9, 11));
    assert_eq!(usage_bar_segments(100), (20, 0));
    assert_eq!(usage_bar_segments(255), (20, 0));
}

#[test]
fn percent_is_right_aligned() {
    assert_eq!(percent_label(0), "  0%");
    assert_eq!(percent_label(42), " 42%");
    assert_eq!(percent_label(100), "100%");
    assert_eq!(percent_label(255), "255%");
}

#[test]
fn truncate_to_width_counts_columns() {
    assert_eq!(truncate_to_width("漢字abc", 3), "漢");
    assert_eq!(truncate_to_width("漢字abc", 4), "漢字");
    assert_eq!(truncate_to_width("abc", 10), "abc");
    assert_eq!(truncate_to_width("abc", 0), "");
    assert_eq!(truncate_to_width("a\u{7}b", 2), "a\u{7}b");
}

#[test]
fn label_column_is_widest_label_plus_three() {
    let mut r = report(UsageRange::Day, 10);
    assert_eq!(usage_label_column_width(&r), 3);
    r.apps.push(entry(UsageContributorKind::App, "Slack", 10));
    r.skills.push(entry(UsageContributorKind::Skill, "漢字漢字", 10));
    assert_eq!(usage_label_column_width(&r), 11);
}

#[test]
fn period_label_spans_the_range() {
    let week = report(UsageRange::Week, 10);
    assert_eq!(usage_period_label(&week), Some("Nov 7 to Nov 14".to_string()));
    let day = report(UsageRange::Day, 10);
    assert_eq!(usage_period_label(&day), Some("Nov 13 to Nov 14".to_string()));
    let mut far = report(UsageRange::Week, 10);
    far.generated_at = i64::MAX;
    assert_eq!(usage_period_label(&far), None);
}

#[test]
fn weekly_header_puts_the_period_on_the_title_when_it_fits() {
    let week = report(UsageRange::Week, 10);
    assert_eq!(
        usage_header_lines(&week, 72),
        vec![
            HeaderLine::Title("Weekly usage by token share, Nov 7 to Nov 14".to_string()),
            HeaderLine::Subtitle,
        ]
    );
    assert_eq!(
        usage_header_lines(&week, 30),
        vec![
            HeaderLine::Title("Weekly usage by token share".to_string()),
            HeaderLine::Period("Nov 7 to Nov 14".to_string()),
            HeaderLine::Subtitle,
        ]
    );
    let day = report(UsageRange::Day, 10);
    assert_eq!(
        usage_header_lines(&day, 72),
        vec![
            HeaderLine::Title("Daily usage by token share".to_string()),
            HeaderLine::Subtitle,
            HeaderLine::WeeklyHint,
        ]
    );
}

#[test]
fn entry_line_with_bar() {
    let e = entry(UsageContributorKind::Skill, "tmux", 42);
    assert_eq!(
        usage_entry_line(&e, false, 11, 60),
        UsageEntryLine {
            is_last: false,
            label: "tmux".to_string(),
            spacer_width: 0,
            bar: Some(UsageBarLayout {
                label_padding: 7,
                filled: 9,
                empty: 11,
            }),
            percent: " 42%".to_string(),
        }
    );
}

#[test]
fn entry_line_without_bar_cuts_the_label() {
    let e = entry(UsageContributorKind::App, "a long label name", 5);
    assert_eq!(
        usage_entry_line(&e, true, 11, 20),
        UsageEntryLine {
            is_last: true,
            label: "a long lab".to_string(),
            spacer_width: 1,
            bar: None,
            percent: "  5%".to_string(),
        }
    );
}

#[test]
fn empty_report_card_says_nothing_is_tracked() {
    let r = report(UsageRange::Day, 0);
    let card = usage_report_card(&r, 80).expect("card");
    assert_eq!(card.inner_width, 49);
    assert_eq!(
        card.lines,
        vec![
            CardLine::Header(HeaderLine::Title("Daily usage by token share".to_string())),
            CardLine::Header(HeaderLine::Subtitle),
            CardLine::Header(HeaderLine::WeeklyHint),
            CardLine::Blank,
            CardLine::Notice(" No tracked usage in this range yet.".to_string()),
        ]
    );
    assert_eq!(usage_report_card(&r, 3), None);
}

#[test]
fn card_without_attributions_says_so() {
    let mut r = report(UsageRange::Day, 100);
    r.headline = Some(UsageHeadline {
        entry: entry(UsageContributorKind::App, "Slack", 60),
        note: Some("mostly searches".to_string()),
    });
    let card = usage_report_card(&r, 80).expect("card");
    assert_eq!(
        card.lines[3..].to_vec_lines(),
        vec![
            CardLine::Blank,
            CardLine::Headline("60% of consumed tokens came from app \"Slack\"".to_string()),
            CardLine::Note(" mostly searches".to_string()),
            CardLine::Blank,
            CardLine::Notice(" No attributed skills, subagents, agent tasks,".to_string()),
            CardLine::Notice(" apps, MCP servers, or plugins in this range.".to_string()),
        ]
    );
    assert_eq!(card.inner_width, 49);
}

trait ToVecLines {
    fn to_vec_lines(&self) -> Vec<CardLine>;
}

impl ToVecLines for [CardLine] {
    fn to_vec_lines(&self) -> Vec<CardLine> {
        self.iter()
            .map(|l| match l {
                CardLine::Blank => CardLine::Blank,
                CardLine::Headline(s) => CardLine::Headline(s.clone()),
                CardLine::Note(s) => CardLine::Note(s.clone()),
                CardLine::Notice(s) => CardLine::Notice(s.clone()),
                CardLine::SectionTitle(s) => CardLine::SectionTitle(s.clone()),
                other => panic!("unexpected line {other:?}"),
            })
            .collect()
    }
}

#[test]
fn card_lists_sections_with_rows() {
    let mut r = report(UsageRange::Day, 100);
    r.skills.push(entry(UsageContributorKind::Skill, "tmux", 40));
    r.apps.push(entry(UsageContributorKind::App, "Slack", 35));
    r.apps.push(entry(UsageContributorKind::App, "Linear", 25));
    let card = usage_report_card(&r, 120).expect("card");
    let lcw = usage_label_column_width(&r);
    assert_eq!(lcw, 9);
    assert_eq!(card.inner_width, usage_content_width(&r, lcw, 72));
    assert_eq!(card.inner_width, 49);
    let titles: Vec<&str> = card
        .lines
        .iter()
        .filter_map(|l| match l {
            CardLine::SectionTitle(t) => Some(t.as_str()),
            _ => None,
        })
        .collect();
    assert_eq!(titles, vec![" Skills", " Apps"]);
    let rows: Vec<(String, bool)> = card
        .lines
        .iter()
        .filter_map(|l| match l {
            CardLine::Entry(e) => Some((e.label.clone(), e.is_last)),
            _ => None,
        })
        .collect();
    assert_eq!(
        rows,
        vec![
            ("tmux".to_string(), true),
            ("Slack".to_string(), false),
            ("Linear".to_string(), true),
        ]
    );
    assert_eq!(card.lines.len(), 3 + 3 + 4);
}

#[test]
fn error_card_measures_its_lines() {
    let card = usage_error_card("boom", 80).expect("card");
    assert_eq!(card.message, " Failed to load usage: boom");
    assert_eq!(card.inner_width, 49);
    let narrow = usage_error_card("boom", 20).expect("card");
    assert_eq!(narrow.inner_width, 16);
    assert_eq!(usage_error_card("boom", 2), None);
}

#[test]
fn stale_usage_answers_are_ignored() {
    let mut tracker = UsageRequestTracker::new();
    let first = tracker.add_usage_output();
    assert_eq!(first.request_id, 0);
    assert_eq!(first.range, UsageRange::Day);
    let second = tracker.add_usage_output_for_range(UsageRange::Week);
    assert_eq!(second.request_id, 1);
    assert_eq!(tracker.on_usage_loaded(0, Err("late".to_string())), None);
    assert_eq!(
        tracker.on_usage_loaded(1, Err("failed".to_string())),
        Some(UsageOutput::Error("failed".to_string()))
    );
    assert_eq!(tracker.active_usage_request_id, None);
    assert_eq!(tracker.on_usage_loaded(1, Err("again".to_string())), None);
}

#[test]
fn loaded_report_is_shown_with_its_command() {
    let mut tracker = UsageRequestTracker::new();
    let fetch = tracker.request_usage(UsageRange::Week);
    let out = tracker
        .on_usage_loaded(
            fetch.request_id,
            Ok(UsageReadResponse {
                report: report(UsageRange::Week, 5),
            }),
        )
        .expect("shown");
    assert_eq!(usage_output_command(&out), "/usage week");
    assert_eq!(out, UsageOutput::Report(report(UsageRange::Week, 5)));
    assert_eq!(usage_output_command(&UsageOutput::Error("x".to_string())), "/usage");
}

#[test]
fn request_ids_saturate() {
    let mut tracker = UsageRequestTracker {
        next_usage_request_id: u64::MAX,
        active_usage_request_id: None,
    };
    assert_eq!(tracker.request_usage(UsageRange::Day).request_id, u64::MAX);
    assert_eq!(tracker.next_usage_request_id, u64::MAX);
}

#[test]
fn bars_are_shown_exactly_when_the_card_has_room() {
    let mut r = report(UsageRange::Day, 100);
    r.skills = vec![entry(UsageContributorKind::Skill, "tmux", 60)];
    r.apps = vec![
        entry(UsageContributorKind::App, "Slack", 30),
        entry(UsageContributorKind::App, "Linear", 10),
    ];
    // label column: "Linear" is 6 wide, plus 3, so 9; a bar row needs 9 + 31 = 40.
    assert_eq!(usage_label_column_width(&r), 9);
    let rows = |width: u16| -> Vec<bool> {
        let card = usage_report_card(&r, width).expect("card");
        card.lines
            .iter()
            .filter_map(|l| match l {
                CardLine::Entry(e) => Some(e.bar.is_some()),
                _ => None,
            })
            .collect()
    };
    assert_eq!(usage_content_width(&r, 9, 40), 40);
    assert_eq!(rows(44), vec![true, true, true]);
    assert_eq!(usage_content_width(&r, 9, 39) <= 39, true);
    assert_eq!(rows(43), vec![false, false, false]);
}

#[test]
fn period_label_covers_the_days_chrono_represents() {
    // The last representable second is 262142-12-31 23:59:59 UTC.
    let mut last = report(UsageRange::Week, 10);
    last.generated_at = 8_210_266_876_799;
    assert_eq!(usage_period_label(&last), Some("Dec 24 to Dec 31".to_string()));
    last.generated_at = 8_210_266_876_800;
    assert_eq!(usage_period_label(&last), None);
    // The first representable second is -262143-01-01 00:00:00 UTC.
    let mut first = report(UsageRange::Day, 10);
    first.generated_at = -8_334_601_228_800 + 86_400;
    assert_eq!(usage_period_label(&first), Some("Jan 1 to Jan 2".to_string()));
    first.generated_at = -8_334_601_228_800 + 86_399;
    assert_eq!(usage_period_label(&first), None);
    // Leap days and the turn of a year.
    let mut leap = report(UsageRange::Day, 10);
    leap.generated_at = 1_709_251_199; // 2024-02-29 23:59:59
    assert_eq!(usage_period_label(&leap), Some("Feb 28 to Feb 29".to_string()));
    leap.generated_at = 1_704_067_200; // 2024-01-01 00:00:00
    assert_eq!(usage_period_label(&leap), Some("Dec 31 to Jan 1".to_string()));
}

#[test]
fn headline_and_note_wrap_to_the_card() {
    let mut r = report(UsageRange::Day, 0);
    r.headline = Some(UsageHeadline {
        entry: entry(UsageContributorKind::McpServer, "a rather long server name", 75),
        note: None,
    });
    // A terminal of 34 columns leaves 30 inside the border.
    let card = usage_report_card(&r, 34).expect("card");
    assert_eq!(card.inner_width, 30);
    let headline: Vec<String> = card
        .lines
        .iter()
        .filter_map(|l| match l {
            CardLine::Headline(t) => Some(t.clone()),
            _ => None,
        })
        .collect();
    assert_eq!(
        headline,
        vec![
            "75% of consumed tokens came".to_string(),
            " from MCP server \"a rather".to_string(),
            " long server name\"".to_string(),
        ]
    );
    let notice: Vec<String> = card
        .lines
        .iter()
        .filter_map(|l| match l {
            CardLine::Notice(t) => Some(t.clone()),
            _ => None,
        })
        .collect();
    assert_eq!(
        notice,
        vec![" No tracked usage in this".to_string(), " range yet.".to_string()]
    );
}
