//! The `/usage` card of the terminal interface: which request's answer is
//! shown, and the layout of the card (titles, sections, rows and bars) in
//! terminal columns.
use crate::protocol::{UsageContributorKind, UsageEntry, UsageRange, UsageReadResponse, UsageReport};
use crate::width::{
    char_columns, char_width, narrow_char, str_width_named, string_views, text_width, wrap_text, wrapped_lines,
};
use crate::text::{chars_of, concat, push_char, string_from_range};
use vstd::prelude::*;

verus! {

// ---------------------------------------------------------------------------
// Requests
// ---------------------------------------------------------------------------

/// A request for the usage of a range, to be fetched by the application.
#[derive(Debug, Clone, Copy, PartialEq, Eq, Structural)]
pub struct FetchUsage {
    pub request_id: u64,
    pub range: UsageRange,
}

/// What the interface shows for a loaded usage answer.
#[derive(Debug, PartialEq, Eq)]
pub enum UsageOutput {
    Report(UsageReport),
    Error(String),
}

/// Which usage request the interface waits for.
#[derive(Debug, Clone, Copy, PartialEq, Eq, Structural)]
pub struct UsageRequestTracker {
    pub next_usage_request_id: u64,
    pub active_usage_request_id: Option<u64>,
}

/// The tracker after starting a request, and the request's id: the next id is
/// taken (it stays at `u64::MAX` once there) and becomes the awaited one.
pub open spec fn request_step(t: UsageRequestTracker) -> (UsageRequestTracker, u64) {
    (
        UsageRequestTracker {
            next_usage_request_id: if t.next_usage_request_id == u64::MAX {
                u64::MAX
            } else {
                (t.next_usage_request_id + 1) as u64
            },
            active_usage_request_id: Some(t.next_usage_request_id),
        },
        t.next_usage_request_id,
    )
}

/// The tracker after an answer to `request_id` arrived, and whether the
/// answer is shown: only the awaited request's answer is, and it ends the
/// wait.
pub open spec fn loaded_step(t: UsageRequestTracker, request_id: u64) -> (UsageRequestTracker, bool) {
    if t.active_usage_request_id == Some(request_id) {
        (UsageRequestTracker { active_usage_request_id: None, ..t }, true)
    } else {
        (t, false)
    }
}

impl UsageRequestTracker {
    /// A tracker that waits for nothing, whose first request gets id 0.
    pub fn new() -> (r: Self)
        ensures
            r.next_usage_request_id == 0,
            r.active_usage_request_id is None,
    {
        UsageRequestTracker { next_usage_request_id: 0, active_usage_request_id: None }
    }

    /// Starts a request for the given range (see `request_step`).
    pub fn request_usage(&mut self, range: UsageRange) -> (r: FetchUsage)
        ensures
            (*final(self), r.request_id) == request_step(*old(self)),
            r.range == range,
    {
        let request_id = self.next_usage_request_id;
        self.next_usage_request_id = self.next_usage_request_id.saturating_add(1);
        self.active_usage_request_id = Some(request_id);
        FetchUsage { request_id, range }
    }

    /// Requests the daily usage.
    pub fn add_usage_output(&mut self) -> (r: FetchUsage)
        ensures
            (*final(self), r.request_id) == request_step(*old(self)),
            r.range == UsageRange::Day,
    {
        self.add_usage_output_for_range(UsageRange::Day)
    }

    /// Requests the usage of the given range.
    pub fn add_usage_output_for_range(&mut self, range: UsageRange) -> (r: FetchUsage)
        ensures
            (*final(self), r.request_id) == request_step(*old(self)),
            r.range == range,
    {
        self.request_usage(range)
    }

    /// Takes the answer to a request (see `loaded_step`): a shown answer gives
    /// the report, or the error.
    pub fn on_usage_loaded(&mut self, request_id: u64, result: Result<UsageReadResponse, String>) -> (r: Option<UsageOutput>)
        ensures
            (*final(self), r is Some) == loaded_step(*old(self), request_id),
            r is Some ==> r == Some(
                match result {
                    Ok(response) => UsageOutput::Report(response.report),
                    Err(e) => UsageOutput::Error(e),
                },
            ),
    {
        let waiting = match self.active_usage_request_id {
            Some(id) => id == request_id,
            None => false,
        };
        if !waiting {
            return None;
        }
        self.active_usage_request_id = None;
        Some(
            match result {
                Ok(response) => UsageOutput::Report(response.report),
                Err(e) => UsageOutput::Error(e),
            },
        )
    }
}

/// An answer is shown at most once: after it was shown, the same answer
/// again is ignored.
pub proof fn lemma_answer_shown_once(t: UsageRequestTracker, request_id: u64)
    requires
        loaded_step(t, request_id).1,
    ensures
        !loaded_step(loaded_step(t, request_id).0, request_id).1,
{
}

/// The answer to the latest request is shown.
pub proof fn lemma_latest_answer_shown(t: UsageRequestTracker)
    ensures
        loaded_step(request_step(t).0, request_step(t).1).1,
{
}

/// A newer request supersedes an older one: once a second request has
/// started, the answer to the first is ignored (unless the ids ran out).
pub proof fn lemma_newer_request_supersedes(t: UsageRequestTracker)
    requires
        t.next_usage_request_id < u64::MAX,
    ensures
        ({
            let (t1, first) = request_step(t);
            let (t2, second) = request_step(t1);
            !loaded_step(t2, first).1 && loaded_step(t2, second).1
        }),
{
}

// ---------------------------------------------------------------------------
// Labels
// ---------------------------------------------------------------------------

/// The card's title for a range.
pub open spec fn usage_title_spec(range: UsageRange) -> Seq<char> {
    match range {
        UsageRange::Day => "Daily usage by token share"@,
        UsageRange::Week => "Weekly usage by token share"@,
    }
}

/// The card's title for a range.
pub fn usage_title(range: UsageRange) -> (r: &'static str)
    ensures
        r@ == usage_title_spec(range),
{
    match range {
        UsageRange::Day => "Daily usage by token share",
        UsageRange::Week => "Weekly usage by token share",
    }
}

/// The command that shows a range.
pub open spec fn usage_command_label_spec(range: UsageRange) -> Seq<char> {
    match range {
        UsageRange::Day => "/usage"@,
        UsageRange::Week => "/usage week"@,
    }
}

/// The command that shows a range.
pub fn usage_command_label(range: UsageRange) -> (r: &'static str)
    ensures
        r@ == usage_command_label_spec(range),
{
    match range {
        UsageRange::Day => "/usage",
        UsageRange::Week => "/usage week",
    }
}

/// How a kind of contributor is named in prose.
pub open spec fn contributor_kind_label_spec(kind: UsageContributorKind) -> Seq<char> {
    match kind {
        UsageContributorKind::Skill => "skill"@,
        UsageContributorKind::Subagent => "subagent"@,
        UsageContributorKind::AgentTask => "agent task"@,
        UsageContributorKind::App => "app"@,
        UsageContributorKind::McpServer => "MCP server"@,
        UsageContributorKind::Plugin => "plugin"@,
    }
}

/// How a kind of contributor is named in prose.
pub fn contributor_kind_label(kind: UsageContributorKind) -> (r: &'static str)
    ensures
        r@ == contributor_kind_label_spec(kind),
{
    match kind {
        UsageContributorKind::Skill => "skill",
        UsageContributorKind::Subagent => "subagent",
        UsageContributorKind::AgentTask => "agent task",
        UsageContributorKind::App => "app",
        UsageContributorKind::McpServer => "MCP server",
        UsageContributorKind::Plugin => "plugin",
    }
}

/// The length of a range in seconds.
pub open spec fn usage_range_seconds_spec(range: UsageRange) -> i64 {
    match range {
        UsageRange::Day => 86400,
        UsageRange::Week => 604800,
    }
}

/// The length of a range in seconds.
pub fn usage_range_seconds(range: UsageRange) -> (r: i64)
    ensures
        r == usage_range_seconds_spec(range),
{
    match range {
        UsageRange::Day => 24 * 60 * 60,
        UsageRange::Week => 7 * 24 * 60 * 60,
    }
}

// ---------------------------------------------------------------------------
// Numbers
// ---------------------------------------------------------------------------

/// The decimal digit character for `d`.
pub open spec fn digit_char(d: nat) -> char {
    ((d + 48) as u8) as char
}

/// The decimal digits of `n`, without leading zeros.
pub open spec fn decimal(n: nat) -> Seq<char>
    decreases n,
{
    if n < 10 {
        seq![digit_char(n)]
    } else {
        decimal(n / 10).push(digit_char(n % 10))
    }
}

/// The decimal digit character for `d`.
fn digit(d: u8) -> (c: char)
    requires
        d < 10,
    ensures
        c == digit_char(d as nat),
{
    (d + 48) as char
}

/// The decimal digits of a byte, case by case.
proof fn lemma_decimal_u8(n: nat)
    requires
        n < 256,
    ensures
        n < 10 ==> decimal(n) == seq![digit_char(n)],
        10 <= n < 100 ==> decimal(n) == seq![digit_char(n / 10), digit_char(n % 10)],
        100 <= n ==> decimal(n) == seq![
            digit_char(n / 100),
            digit_char((n / 10) % 10),
            digit_char(n % 10),
        ],
        1 <= decimal(n).len() <= 3,
{
    if n >= 10 {
        let m = n / 10;
        assert(m < 26);
        if m >= 10 {
            assert(m / 10 == n / 100);
            assert(decimal(m / 10) == seq![digit_char(m / 10)]);
            assert(decimal(m) == seq![digit_char(m / 10), digit_char(m % 10)]);
        } else {
            assert(decimal(m) == seq![digit_char(m)]);
        }
    }
}

/// The decimal text of a byte.
pub fn u8_decimal(n: u8) -> (r: String)
    ensures
        r@ == decimal(n as nat),
{
    proof {
        lemma_decimal_u8(n as nat);
    }
    let mut s = String::new();
    if n >= 100 {
        push_char(&mut s, digit(n / 100));
        push_char(&mut s, digit((n / 10) % 10));
        push_char(&mut s, digit(n % 10));
    } else if n >= 10 {
        push_char(&mut s, digit(n / 10));
        push_char(&mut s, digit(n % 10));
    } else {
        push_char(&mut s, digit(n));
    }
    assert(s@ =~= decimal(n as nat));
    s
}

/// The percentage column of a row: the number right-aligned in three
/// columns, then `%`.
pub open spec fn percent_text(p: u8) -> Seq<char> {
    let d = decimal(p as nat);
    Seq::new((3 - d.len()) as nat, |i: int| ' ') + d + seq!['%']
}

/// The percentage column of a row.
pub fn percent_label(p: u8) -> (r: String)
    ensures
        r@ == percent_text(p),
{
    let d = u8_decimal(p);
    let mut s = String::new();
    let dv = chars_of(d.as_str());
    let pad: usize = if dv.len() >= 3 {
        0
    } else {
        3 - dv.len()
    };
    proof {
        lemma_decimal_u8(p as nat);
    }
    let mut i: usize = 0;
    while i < pad
        invariant
            i <= pad,
            s@ == Seq::new(i as nat, |k: int| ' '),
        decreases pad - i,
    {
        push_char(&mut s, ' ');
        assert(s@ =~= Seq::new((i + 1) as nat, |k: int| ' '));
        i = i + 1;
    }
    let mut j: usize = 0;
    while j < dv.len()
        invariant
            j <= dv@.len(),
            s@ == Seq::new(pad as nat, |k: int| ' ') + dv@.subrange(0, j as int),
        decreases dv@.len() - j,
    {
        push_char(&mut s, dv[j]);
        assert(dv@.subrange(0, j + 1) == dv@.subrange(0, j as int).push(dv@[j as int]));
        j = j + 1;
    }
    assert(dv@.subrange(0, dv@.len() as int) == dv@);
    push_char(&mut s, '%');
    s
}

// ---------------------------------------------------------------------------
// Bars
// ---------------------------------------------------------------------------

/// The width of a row's bar in columns.
pub const USAGE_BAR_WIDTH: usize = 20;

/// The filled part of a bar for a percentage: rounded up to whole columns,
/// never more than the bar.
pub open spec fn bar_filled(p: u8) -> nat {
    if p == 0 {
        0
    } else {
        let f = ((p as nat) * 20 + 99) / 100;
        if f > 20 {
            20
        } else {
            f as nat
        }
    }
}

/// The filled and empty parts of a bar for a percentage.
pub fn usage_bar_segments(percent: u8) -> (r: (usize, usize))
    ensures
        r.0 == bar_filled(percent),
        r.0 + r.1 == USAGE_BAR_WIDTH,
{
    let filled: usize = if percent == 0 {
        0
    } else {
        let f = ((percent as usize) * USAGE_BAR_WIDTH + 99) / 100;
        if f > USAGE_BAR_WIDTH {
            USAGE_BAR_WIDTH
        } else {
            f
        }
    };
    (filled, USAGE_BAR_WIDTH - filled)
}

/// A bar is empty exactly for zero percent, full from one hundred percent on,
/// and grows with the percentage.
pub proof fn lemma_bar_segments(p: u8, q: u8)
    ensures
        bar_filled(p) == 0 <==> p == 0,
        p >= 100 ==> bar_filled(p) == 20,
        p <= q ==> bar_filled(p) <= bar_filled(q),
        bar_filled(p) <= 20,
{
    if p <= q && p > 0 {
        assert(((p as nat) * 20 + 99) / 100 <= ((q as nat) * 20 + 99) / 100) by (nonlinear_arith)
            requires
                p <= q,
        ;
    }
}

// ---------------------------------------------------------------------------
// Widths
// ---------------------------------------------------------------------------

/// The widths of the first `k` characters of `s`, added up.
pub open spec fn columns_of_prefix(s: Seq<char>, k: int) -> nat
    decreases k,
{
    if k <= 0 {
        0
    } else {
        columns_of_prefix(s, k - 1) + char_columns(s[k - 1])
    }
}

/// How many characters of `s`, from index `k` on, fit in `width` columns:
/// characters are taken while the total stays within the width.
pub open spec fn fitting_len(s: Seq<char>, width: nat, k: int) -> int
    decreases s.len() - k,
{
    if k < 0 || k >= s.len() {
        s.len() as int
    } else if columns_of_prefix(s, k + 1) > width {
        k
    } else {
        fitting_len(s, width, k + 1)
    }
}

/// The longest start of `value` that fits in `width` columns.
pub open spec fn truncate_to_width_spec(value: Seq<char>, width: nat) -> Seq<char> {
    value.subrange(0, fitting_len(value, width, 0))
}

/// A search for the fitting length ends within the text.
proof fn lemma_fitting_len_bounds(s: Seq<char>, width: nat, k: int)
    requires
        0 <= k <= s.len(),
    ensures
        k <= fitting_len(s, width, k) <= s.len(),
    decreases s.len() - k,
{
    if k < s.len() && columns_of_prefix(s, k + 1) <= width {
        lemma_fitting_len_bounds(s, width, k + 1);
    }
}

/// The longest start of `value` that fits in `width` columns.
pub fn truncate_to_width(value: &str, width: usize) -> (r: String)
    ensures
        r@ == truncate_to_width_spec(value@, width as nat),
{
    let v = chars_of(value);
    let mut used: usize = 0;
    let mut k: usize = 0;
    assert(fitting_len(v@, width as nat, 0) == fitting_len(v@, width as nat, 0));
    while k < v.len()
        invariant
            k <= v@.len(),
            used == columns_of_prefix(v@, k as int),
            used <= width,
            fitting_len(v@, width as nat, k as int) == fitting_len(v@, width as nat, 0),
        ensures
            k <= v@.len(),
            fitting_len(v@, width as nat, 0) == k,
        decreases v@.len() - k,
    {
        let w: usize = match char_width(v[k]) {
            Some(w) => w,
            None => 0,
        };
        assert(w == char_columns(v@[k as int]));
        assert(columns_of_prefix(v@, k + 1) == used + w);
        if w > width - used {
            break;
        }
        used = used + w;
        k = k + 1;
    }
    proof {
        lemma_fitting_len_bounds(v@, width as nat, k as int);
    }
    string_from_range(&v, 0, k)
}

// ---------------------------------------------------------------------------
// Dates
// ---------------------------------------------------------------------------

/// The first day chrono represents, counted from 1970-01-01: January 1 of
/// the year -262143.
pub open spec fn chrono_first_day() -> int {
    -96465292
}

/// The last day chrono represents, counted from 1970-01-01: December 31 of
/// the year 262142.
pub open spec fn chrono_last_day() -> int {
    95026236
}

/// The month (1 to 12) and the day of the month of a day counted from
/// 1970-01-01, in the proleptic Gregorian calendar: counted in eras of 400
/// years (146097 days) and in years that start on March 1, so that the leap
/// day ends a year.
pub open spec fn civil_month_day(days: int) -> (int, int) {
    let z = days + 719468;
    let era = z / 146097;
    let doe = z - era * 146097;
    let yoe = (doe - doe / 1460 + doe / 36524 - doe / 146096) / 365;
    let doy = doe - (365 * yoe + yoe / 4 - yoe / 100);
    let mp = (5 * doy + 2) / 153;
    let d = doy - (153 * mp + 2) / 5 + 1;
    let m = if mp < 10 {
        mp + 3
    } else {
        mp - 9
    };
    (m, d)
}

/// The English abbreviation of a month (1 to 12).
pub open spec fn month_abbrev(m: int) -> Seq<char> {
    if m == 1 {
        "Jan"@
    } else if m == 2 {
        "Feb"@
    } else if m == 3 {
        "Mar"@
    } else if m == 4 {
        "Apr"@
    } else if m == 5 {
        "May"@
    } else if m == 6 {
        "Jun"@
    } else if m == 7 {
        "Jul"@
    } else if m == 8 {
        "Aug"@
    } else if m == 9 {
        "Sep"@
    } else if m == 10 {
        "Oct"@
    } else if m == 11 {
        "Nov"@
    } else {
        "Dec"@
    }
}

/// The UTC calendar day of a Unix time as `<month> <day>` (for example
/// `Jan 5`), or `None` outside the days chrono represents.
pub open spec fn utc_month_day(seconds: i64) -> Option<Seq<char>> {
    let day = (seconds as int) / 86400;
    if day < chrono_first_day() || day > chrono_last_day() {
        None
    } else {
        let (m, d) = civil_month_day(day);
        Some(month_abbrev(m) + " "@ + decimal(d as nat))
    }
}

/// Calls `chrono::DateTime::<Utc>::from_timestamp(seconds, 0)` and, when it
/// gives a time, formats it with `%b %-d`. The contract claims what chrono's
/// source shows: `from_timestamp` gives a time exactly for the seconds whose
/// UTC day lies between January 1 of -262143 and December 31 of 262142, and
/// the format writes the English month abbreviation, a space and the day of
/// the month without padding.
#[verifier::external_body]
pub(crate) fn format_usage_date(seconds: i64) -> (r: Option<String>)
    ensures
        match r {
            Some(s) => utc_month_day(seconds) == Some(s@),
            None => utc_month_day(seconds) is None,
        },
{
    match chrono::DateTime::<chrono::Utc>::from_timestamp(seconds, 0) {
        Some(t) => Some(t.format("%b %-d").to_string()),
        None => None,
    }
}

/// `a - b` on `i64`, saturating at the bounds.
fn saturating_sub_i64(a: i64, b: i64) -> (r: i64)
    ensures
        r == crate::arith::clamp_i64(a - b),
{
    match a.checked_sub(b) {
        Some(d) => d,
        None => {
            if b < 0 {
                i64::MAX
            } else {
                i64::MIN
            }
        },
    }
}

/// The days a report covers, `<start> to <end>`: from one range before the
/// report's time to the report's time.
pub open spec fn usage_period_label_spec(report: UsageReport) -> Option<Seq<char>> {
    let start = crate::arith::clamp_i64(report.generated_at - usage_range_seconds_spec(report.range)) as i64;
    match (utc_month_day(start), utc_month_day(report.generated_at)) {
        (Some(a), Some(b)) => Some(a + " to "@ + b),
        _ => None,
    }
}

/// The days a report covers.
pub fn usage_period_label(report: &UsageReport) -> (r: Option<String>)
    ensures
        match r {
            Some(s) => usage_period_label_spec(*report) == Some(s@),
            None => usage_period_label_spec(*report) is None,
        },
{
    let range_start = saturating_sub_i64(report.generated_at, usage_range_seconds(report.range));
    let start = match format_usage_date(range_start) {
        Some(s) => s,
        None => return None,
    };
    let end = match format_usage_date(report.generated_at) {
        Some(s) => s,
        None => return None,
    };
    let with_to = concat(start.as_str(), " to ");
    Some(concat(with_to.as_str(), end.as_str()))
}

// ---------------------------------------------------------------------------
// Header
// ---------------------------------------------------------------------------

/// The card's subtitle.
pub open spec fn usage_subtitle() -> Seq<char> {
    "Percent of consumed tokens in this selected range"@
}

/// A line of the card's header.
#[derive(Debug, PartialEq, Eq)]
pub enum HeaderLine {
    /// A bold title.
    Title(String),
    /// The dimmed subtitle.
    Subtitle,
    /// The dimmed hint `(/usage week for weekly)`, the command highlighted.
    WeeklyHint,
    /// The covered days.
    Period(String),
}

/// A header line as values.
pub ghost enum HeaderView {
    Title(Seq<char>),
    Subtitle,
    WeeklyHint,
    Period(Seq<char>),
}

impl View for HeaderLine {
    type V = HeaderView;

    open spec fn view(&self) -> HeaderView {
        match self {
            HeaderLine::Title(s) => HeaderView::Title(s@),
            HeaderLine::Subtitle => HeaderView::Subtitle,
            HeaderLine::WeeklyHint => HeaderView::WeeklyHint,
            HeaderLine::Period(s) => HeaderView::Period(s@),
        }
    }
}

/// The views of a list of header lines.
pub open spec fn header_views(s: Seq<HeaderLine>) -> Seq<HeaderView> {
    s.map_values(|h: HeaderLine| h@)
}

/// The header of a card: the daily card's title, subtitle and weekly hint;
/// the weekly card's title with the covered days when they fit on the title
/// line, else the title, the days and the subtitle (or just title and
/// subtitle when the days are unknown).
pub open spec fn header_lines_spec(report: UsageReport, inner_width: nat) -> Seq<HeaderView> {
    match report.range {
        UsageRange::Day => seq![
            HeaderView::Title(usage_title_spec(report.range)),
            HeaderView::Subtitle,
            HeaderView::WeeklyHint,
        ],
        UsageRange::Week => match usage_period_label_spec(report) {
            None => seq![HeaderView::Title(usage_title_spec(report.range)), HeaderView::Subtitle],
            Some(period) => {
                let combined = usage_title_spec(report.range) + ", "@ + period;
                if str_width_named(combined) <= inner_width {
                    seq![HeaderView::Title(combined), HeaderView::Subtitle]
                } else {
                    seq![
                        HeaderView::Title(usage_title_spec(report.range)),
                        HeaderView::Period(period),
                        HeaderView::Subtitle,
                    ]
                }
            },
        },
    }
}

/// The header of a card.
pub fn usage_header_lines(report: &UsageReport, inner_width: usize) -> (r: Vec<HeaderLine>)
    ensures
        header_views(r@) == header_lines_spec(*report, inner_width as nat),
{
    let title = usage_title(report.range);
    let r = match report.range {
        UsageRange::Day => vec![HeaderLine::Title(title.to_owned()), HeaderLine::Subtitle, HeaderLine::WeeklyHint],
        UsageRange::Week => match usage_period_label(report) {
            None => vec![HeaderLine::Title(title.to_owned()), HeaderLine::Subtitle],
            Some(period) => {
                let with_comma = concat(title, ", ");
                let combined = concat(with_comma.as_str(), period.as_str());
                if text_width(combined.as_str()) <= inner_width {
                    vec![HeaderLine::Title(combined), HeaderLine::Subtitle]
                } else {
                    vec![HeaderLine::Title(title.to_owned()), HeaderLine::Period(period), HeaderLine::Subtitle]
                }
            },
        },
    };
    assert(header_views(r@) =~= header_lines_spec(*report, inner_width as nat));
    r
}

/// The width of a header line: the width of its text, the hint's three parts
/// added up.
pub open spec fn header_width(h: HeaderView) -> int {
    match h {
        HeaderView::Title(s) => str_width_named(s) as int,
        HeaderView::Subtitle => str_width_named(usage_subtitle()) as int,
        HeaderView::WeeklyHint => crate::arith::clamp_usize(
            str_width_named("("@) + str_width_named("/usage week"@) + str_width_named(" for weekly)"@),
        ),
        HeaderView::Period(s) => str_width_named(s) as int,
    }
}

/// The width of a header line.
pub fn header_line_width(h: &HeaderLine) -> (r: usize)
    ensures
        r == header_width(h@),
{
    match h {
        HeaderLine::Title(s) => text_width(s.as_str()),
        HeaderLine::Subtitle => text_width("Percent of consumed tokens in this selected range"),
        HeaderLine::WeeklyHint => text_width("(").saturating_add(text_width("/usage week")).saturating_add(
            text_width(" for weekly)"),
        ),
        HeaderLine::Period(s) => text_width(s.as_str()),
    }
}

/// The widest of the header lines, zero when there are none.
pub open spec fn max_header_width(hs: Seq<HeaderView>) -> int
    decreases hs.len(),
{
    if hs.len() == 0 {
        0
    } else {
        let m = max_header_width(hs.drop_last());
        let w = header_width(hs.last());
        if w > m {
            w
        } else {
            m
        }
    }
}

// ---------------------------------------------------------------------------
// Columns
// ---------------------------------------------------------------------------

/// The widest label of the entries, zero when there are none.
pub open spec fn max_label_width(es: Seq<UsageEntry>) -> int
    decreases es.len(),
{
    if es.len() == 0 {
        0
    } else {
        let m = max_label_width(es.drop_last());
        let w = str_width_named(es.last().label@) as int;
        if w > m {
            w
        } else {
            m
        }
    }
}

/// The widest label of the entries.
pub fn max_label_width_exec(es: &Vec<UsageEntry>) -> (r: usize)
    ensures
        r == max_label_width(es@),
{
    let mut m: usize = 0;
    let mut i: usize = 0;
    while i < es.len()
        invariant
            i <= es@.len(),
            m == max_label_width(es@.subrange(0, i as int)),
        decreases es@.len() - i,
    {
        assert(es@.subrange(0, i + 1).drop_last() == es@.subrange(0, i as int));
        let w = text_width(es[i].label.as_str());
        if w > m {
            m = w;
        }
        i = i + 1;
    }
    assert(es@.subrange(0, es@.len() as int) == es@);
    m
}

/// The larger of two integers.
pub open spec fn imax(a: int, b: int) -> int {
    if a > b {
        a
    } else {
        b
    }
}

/// The smaller of two integers.
pub open spec fn imin(a: int, b: int) -> int {
    if a < b {
        a
    } else {
        b
    }
}

/// The width of the label column: the widest label of all sections plus
/// three, saturating.
pub open spec fn label_column_width_spec(report: UsageReport) -> int {
    crate::arith::clamp_usize(
        imax(
            imax(imax(max_label_width(report.skills@), max_label_width(report.subagents@)), imax(max_label_width(report.agent_tasks@), max_label_width(report.apps@))),
            imax(max_label_width(report.mcp_servers@), max_label_width(report.plugins@)),
        ) + 3,
    )
}

/// The larger of two sizes.
fn umax(a: usize, b: usize) -> (r: usize)
    ensures
        r == imax(a as int, b as int),
{
    if a > b {
        a
    } else {
        b
    }
}

/// The width of the label column.
pub fn usage_label_column_width(report: &UsageReport) -> (r: usize)
    ensures
        r == label_column_width_spec(*report),
{
    let m = umax(
        umax(
            umax(max_label_width_exec(&report.skills), max_label_width_exec(&report.subagents)),
            umax(max_label_width_exec(&report.agent_tasks), max_label_width_exec(&report.apps)),
        ),
        umax(max_label_width_exec(&report.mcp_servers), max_label_width_exec(&report.plugins)),
    );
    m.saturating_add(3)
}

/// The card's width available inside the border for a terminal width: four
/// columns less, at most seventy-two; none below four columns.
pub open spec fn available_width_spec(width: u16) -> Option<usize> {
    if width >= 4 {
        Some(imin(width - 4, 72) as usize)
    } else {
        None
    }
}

/// The card's width available inside the border.
pub fn usage_card_available_width(width: u16) -> (r: Option<usize>)
    ensures
        r == available_width_spec(width),
{
    if width >= 4 {
        let w = (width - 4) as usize;
        Some(if w < 72 {
            w
        } else {
            72
        })
    } else {
        None
    }
}

// ---------------------------------------------------------------------------
// Rows
// ---------------------------------------------------------------------------

/// The tree prefix of a row: the last row of a section closes the branch.
pub open spec fn row_prefix(is_last: bool) -> Seq<char> {
    if is_last {
        "  └─ "@
    } else {
        "  ├─ "@
    }
}

/// Both tree prefixes are five one-column characters.
proof fn lemma_row_prefix_narrow(is_last: bool)
    ensures
        row_prefix(is_last).len() == row_prefix_columns(),
        forall|i: int| 0 <= i < row_prefix(is_last).len() ==> narrow_char(#[trigger] row_prefix(is_last)[i]),
{
    reveal_strlit("  └─ ");
    reveal_strlit("  ├─ ");
}

/// A percentage column is four one-column characters.
proof fn lemma_percent_text_narrow(p: u8)
    ensures
        percent_text(p).len() == percent_columns(),
        forall|i: int| 0 <= i < percent_text(p).len() ==> narrow_char(#[trigger] percent_text(p)[i]),
{
    let n = p as nat;
    lemma_decimal_u8(n);
    let d = decimal(n);
    assert forall|i: int| 0 <= i < d.len() implies narrow_char(#[trigger] d[i]) by {
        if n < 10 {
            assert(d[i] == digit_char(n));
        } else if n < 100 {
            assert(d[i] == digit_char(n / 10) || d[i] == digit_char(n % 10));
        } else {
            assert(d[i] == digit_char(n / 100) || d[i] == digit_char((n / 10) % 10) || d[i] == digit_char(n % 10));
        }
    }
    let t = percent_text(p);
    let pad = Seq::new((3 - d.len()) as nat, |k: int| ' ');
    assert(t == pad + d + seq!['%']);
    assert forall|i: int| 0 <= i < t.len() implies narrow_char(#[trigger] t[i]) by {
        if i < pad.len() {
            assert(t[i] == ' ');
        } else if i < pad.len() + d.len() {
            assert(t[i] == d[i - pad.len()]);
        } else {
            assert(t[i] == '%');
        }
    }
}

/// `"100%"` is four one-column characters.
proof fn lemma_full_percent_narrow()
    ensures
        "100%"@.len() == percent_columns(),
        forall|i: int| 0 <= i < "100%"@.len() ==> narrow_char(#[trigger] "100%"@[i]),
{
    reveal_strlit("100%");
}

/// The shortest label column that shows bars.
pub const USAGE_BAR_MIN_LABEL_WIDTH: usize = 8;

/// The bar part of a row.
#[derive(Debug, Clone, Copy, PartialEq, Eq, Structural)]
pub struct UsageBarLayout {
    /// Blank columns after the label, to line the bars up.
    pub label_padding: usize,
    /// Filled bar columns.
    pub filled: usize,
    /// Empty bar columns.
    pub empty: usize,
}

/// The layout of one entry's row: the prefix, the label (cut to fit), a
/// spacer, the bar when there is room for one, and the percentage.
#[derive(Debug, PartialEq, Eq)]
pub struct UsageEntryLine {
    pub is_last: bool,
    pub label: String,
    pub spacer_width: usize,
    pub bar: Option<UsageBarLayout>,
    pub percent: String,
}

/// The columns of a row's tree prefix (`"  ├─ "` or `"  └─ "`).
pub open spec fn row_prefix_columns() -> nat {
    5
}

/// The columns of a row's percentage (`" 42%"`, `"100%"`).
pub open spec fn percent_columns() -> nat {
    4
}

/// The columns a row with a bar takes besides its label column: the prefix,
/// the bar, two columns of gap and the percentage.
pub open spec fn bar_row_extra_columns() -> nat {
    row_prefix_columns() + 22 + percent_columns()
}

/// Whether a row shows a bar: the prefix, the label column, the bar, two
/// columns of gap and the percentage fit in the card, and the label column is
/// wide enough.
pub open spec fn row_has_bar(is_last: bool, percent: u8, label_column_width: nat, inner_width: nat) -> bool {
    &&& inner_width >= label_column_width + bar_row_extra_columns()
    &&& label_column_width >= USAGE_BAR_MIN_LABEL_WIDTH
}

/// The columns a row's label may take: the label column with a bar, else
/// what the prefix, the percentage and one column of gap leave.
pub open spec fn row_label_width(is_last: bool, percent: u8, label_column_width: nat, inner_width: nat) -> nat {
    if row_has_bar(is_last, percent, label_column_width, inner_width) {
        label_column_width
    } else {
        imax(
            0,
            inner_width - (row_prefix_columns() + percent_columns() + 1),
        ) as nat
    }
}

/// The layout of an entry's row (see `UsageEntryLine`).
pub open spec fn entry_line_ok(
    r: UsageEntryLine,
    entry: UsageEntry,
    is_last: bool,
    label_column_width: nat,
    inner_width: nat,
) -> bool {
    let p = entry.percent_of_usage;
    let has_bar = row_has_bar(is_last, p, label_column_width, inner_width);
    let lw = row_label_width(is_last, p, label_column_width, inner_width);
    &&& r.is_last == is_last
    &&& r.label@ == truncate_to_width_spec(entry.label@, lw)
    &&& r.percent@ == percent_text(p)
    &&& if has_bar {
        &&& r.spacer_width == 0
        &&& r.bar == Some(
            UsageBarLayout {
                label_padding: imax(
                    0,
                    label_column_width - imin(str_width_named(entry.label@) as int, lw as int),
                ) as usize,
                filled: bar_filled(p) as usize,
                empty: (20 - bar_filled(p)) as usize,
            },
        )
    } else {
        &&& r.bar is None
        &&& r.spacer_width == imax(
            0,
            inner_width - (row_prefix_columns() + str_width_named(r.label@) + percent_columns()),
        )
    }
}

/// `a + b`, or `None` when it does not fit in `usize`.
fn add_or_none(a: Option<usize>, b: usize) -> (r: Option<usize>)
    ensures
        match a {
            Some(x) => if x + b <= usize::MAX {
                r == Some((x + b) as usize)
            } else {
                r is None
            },
            None => r is None,
        },
{
    match a {
        Some(x) => x.checked_add(b),
        None => None,
    }
}

/// `a - b`, or zero when `b` is larger; a `b` beyond `usize` counts as larger.
fn sub_or_zero(a: usize, b: Option<usize>) -> (r: usize)
    ensures
        match b {
            Some(y) => r == imax(0, a - y),
            None => r == 0,
        },
{
    match b {
        Some(y) => a.saturating_sub(y),
        None => 0,
    }
}

/// The layout of an entry's row.
pub fn usage_entry_line(entry: &UsageEntry, is_last: bool, label_column_width: usize, inner_width: usize) -> (r: UsageEntryLine)
    ensures
        entry_line_ok(r, *entry, is_last, label_column_width as nat, inner_width as nat),
{
    let prefix = if is_last {
        "  └─ "
    } else {
        "  ├─ "
    };
    let percent = percent_label(entry.percent_of_usage);
    let prefix_width = text_width(prefix);
    let percent_width = text_width(percent.as_str());
    proof {
        lemma_row_prefix_narrow(is_last);
        lemma_percent_text_narrow(entry.percent_of_usage);
    }
    assert(prefix_width == row_prefix_columns());
    assert(percent_width == percent_columns());
    let needed = add_or_none(
        add_or_none(add_or_none(Some(prefix_width), label_column_width), 22),
        percent_width,
    );
    let include_bar = match needed {
        Some(n) => inner_width >= n,
        None => false,
    } && label_column_width >= USAGE_BAR_MIN_LABEL_WIDTH;
    let label_width = if include_bar {
        label_column_width
    } else {
        sub_or_zero(inner_width, add_or_none(add_or_none(Some(prefix_width), percent_width), 1))
    };
    let label = truncate_to_width(entry.label.as_str(), label_width);
    if include_bar {
        let full = text_width(entry.label.as_str());
        let shown = if full < label_width {
            full
        } else {
            label_width
        };
        let (filled, empty) = usage_bar_segments(entry.percent_of_usage);
        UsageEntryLine {
            is_last,
            label,
            spacer_width: 0,
            bar: Some(UsageBarLayout { label_padding: label_column_width - shown, filled, empty }),
            percent,
        }
    } else {
        let used = add_or_none(add_or_none(Some(prefix_width), text_width(label.as_str())), percent_width);
        UsageEntryLine { is_last, label, spacer_width: sub_or_zero(inner_width, used), bar: None, percent }
    }
}

// ---------------------------------------------------------------------------
// The card
// ---------------------------------------------------------------------------

/// The headline sentence: `<p>% of consumed tokens came from <kind> "<label>"`.
pub open spec fn headline_text(h: crate::protocol::UsageHeadline) -> Seq<char> {
    decimal(h.entry.percent_of_usage as nat) + "% of consumed tokens came from "@
        + contributor_kind_label_spec(h.entry.kind) + " \""@ + h.entry.label@ + "\""@
}

/// The headline sentence.
pub fn headline_label(h: &crate::protocol::UsageHeadline) -> (r: String)
    ensures
        r@ == headline_text(*h),
{
    let p = u8_decimal(h.entry.percent_of_usage);
    let a = concat(p.as_str(), "% of consumed tokens came from ");
    let b = concat(a.as_str(), contributor_kind_label(h.entry.kind));
    let c = concat(b.as_str(), " \"");
    let d = concat(c.as_str(), h.entry.label.as_str());
    concat(d.as_str(), "\"")
}

/// No section has entries.
pub open spec fn all_sections_empty(r: UsageReport) -> bool {
    &&& r.skills@.len() == 0
    &&& r.subagents@.len() == 0
    &&& r.agent_tasks@.len() == 0
    &&& r.apps@.len() == 0
    &&& r.mcp_servers@.len() == 0
    &&& r.plugins@.len() == 0
}

/// The width of a section's title, or zero for a section without entries.
pub open spec fn section_title_width(label: Seq<char>, es: Seq<UsageEntry>) -> int {
    if es.len() > 0 {
        str_width_named(" "@ + label) as int
    } else {
        0
    }
}

/// The widest section title.
pub open spec fn max_section_title_width(r: UsageReport) -> int {
    imax(
        imax(
            imax(section_title_width("Skills"@, r.skills@), section_title_width("Subagents"@, r.subagents@)),
            imax(section_title_width("Agent tasks"@, r.agent_tasks@), section_title_width("Apps"@, r.apps@)),
        ),
        imax(section_title_width("MCP servers"@, r.mcp_servers@), section_title_width("Plugins"@, r.plugins@)),
    )
}

/// The widest row without bars among the entries: prefix, label, one column
/// and the percentage, saturating; zero when there are none.
pub open spec fn max_row_width(es: Seq<UsageEntry>, pw: nat, perw: nat) -> int
    decreases es.len(),
{
    if es.len() == 0 {
        0
    } else {
        imax(
            max_row_width(es.drop_last(), pw, perw),
            crate::arith::clamp_usize(pw + str_width_named(es.last().label@) + 1 + perw),
        )
    }
}

/// The widest row without bars of all sections.
pub open spec fn max_row_width_all(r: UsageReport, pw: nat, perw: nat) -> int {
    imax(
        imax(
            imax(max_row_width(r.skills@, pw, perw), max_row_width(r.subagents@, pw, perw)),
            imax(max_row_width(r.agent_tasks@, pw, perw), max_row_width(r.apps@, pw, perw)),
        ),
        imax(max_row_width(r.mcp_servers@, pw, perw), max_row_width(r.plugins@, pw, perw)),
    )
}

/// The width inside the card's border: the widest of the header lines, the
/// headline (cut to the available width), the section titles and the rows,
/// never more than the available width; rows count with their bars when
/// bars fit. With nothing tracked, or nothing attributed, only the header
/// and the headline count.
pub open spec fn content_width_spec(report: UsageReport, label_column_width: nat, available: nat) -> int {
    let w0 = max_header_width(header_lines_spec(report, available));
    let w1 = match report.headline {
        Some(h) => imax(w0, imin(str_width_named(headline_text(h)) as int, available as int)),
        None => w0,
    };
    if report.total_tokens == 0 || all_sections_empty(report) {
        imin(w1, available as int)
    } else {
        let w2 = imax(w1, max_section_title_width(report));
        let pw = row_prefix_columns();
        let perw = percent_columns();
        let with_bar = (label_column_width + bar_row_extra_columns()) as int;
        let row = if available >= with_bar && label_column_width >= USAGE_BAR_MIN_LABEL_WIDTH {
            with_bar
        } else {
            max_row_width_all(report, pw as nat, perw as nat)
        };
        imin(imax(w2, row), available as int)
    }
}

/// The widest row without bars among the entries.
fn max_row_width_exec(es: &Vec<UsageEntry>, pw: usize, perw: usize) -> (r: usize)
    ensures
        r == max_row_width(es@, pw as nat, perw as nat),
{
    let mut m: usize = 0;
    let mut i: usize = 0;
    while i < es.len()
        invariant
            i <= es@.len(),
            m == max_row_width(es@.subrange(0, i as int), pw as nat, perw as nat),
        decreases es@.len() - i,
    {
        assert(es@.subrange(0, i + 1).drop_last() == es@.subrange(0, i as int));
        let w = pw.saturating_add(text_width(es[i].label.as_str())).saturating_add(1).saturating_add(perw);
        m = umax(m, w);
        i = i + 1;
    }
    assert(es@.subrange(0, es@.len() as int) == es@);
    m
}

/// The width of a section's title, or zero for a section without entries.
fn section_title_width_exec(label: &str, es: &Vec<UsageEntry>) -> (r: usize)
    ensures
        r == section_title_width(label@, es@),
{
    if es.len() > 0 {
        let t = concat(" ", label);
        text_width(t.as_str())
    } else {
        0
    }
}

/// Whether no section has entries.
fn all_sections_empty_exec(r: &UsageReport) -> (b: bool)
    ensures
        b == all_sections_empty(*r),
{
    r.skills.len() == 0 && r.subagents.len() == 0 && r.agent_tasks.len() == 0 && r.apps.len() == 0
        && r.mcp_servers.len() == 0 && r.plugins.len() == 0
}

/// The width inside the card's border.
pub fn usage_content_width(report: &UsageReport, label_column_width: usize, available_width: usize) -> (r: usize)
    ensures
        r == content_width_spec(*report, label_column_width as nat, available_width as nat),
{
    let header = usage_header_lines(report, available_width);
    let ghost hv = header_views(header@);
    let mut width: usize = 0;
    let mut i: usize = 0;
    while i < header.len()
        invariant
            i <= header@.len(),
            hv == header_views(header@),
            width == max_header_width(hv.subrange(0, i as int)),
        decreases header@.len() - i,
    {
        assert(hv.subrange(0, i + 1).drop_last() == hv.subrange(0, i as int));
        width = umax(width, header_line_width(&header[i]));
        i = i + 1;
    }
    assert(hv.subrange(0, header@.len() as int) == hv);
    match &report.headline {
        Some(h) => {
            let t = headline_label(h);
            let tw = text_width(t.as_str());
            width = umax(width, if tw < available_width {
                tw
            } else {
                available_width
            });
        },
        None => {},
    }
    if report.total_tokens == 0 || all_sections_empty_exec(report) {
        return if width < available_width {
            width
        } else {
            available_width
        };
    }
    let titles = umax(
        umax(
            umax(
                section_title_width_exec("Skills", &report.skills),
                section_title_width_exec("Subagents", &report.subagents),
            ),
            umax(
                section_title_width_exec("Agent tasks", &report.agent_tasks),
                section_title_width_exec("Apps", &report.apps),
            ),
        ),
        umax(
            section_title_width_exec("MCP servers", &report.mcp_servers),
            section_title_width_exec("Plugins", &report.plugins),
        ),
    );
    width = umax(width, titles);
    let prefix_width = text_width("  ├─ ");
    let percent_width = text_width("100%");
    proof {
        lemma_row_prefix_narrow(false);
        lemma_full_percent_narrow();
    }
    assert(prefix_width == row_prefix_columns());
    assert(percent_width == percent_columns());
    let with_bar = add_or_none(add_or_none(add_or_none(Some(prefix_width), label_column_width), 22), percent_width);
    let can_show_bar = match with_bar {
        Some(n) => available_width >= n,
        None => false,
    } && label_column_width >= USAGE_BAR_MIN_LABEL_WIDTH;
    let row_width = if can_show_bar {
        match with_bar {
            Some(n) => n,
            None => 0,
        }
    } else {
        umax(
            umax(
                umax(
                    max_row_width_exec(&report.skills, prefix_width, percent_width),
                    max_row_width_exec(&report.subagents, prefix_width, percent_width),
                ),
                umax(
                    max_row_width_exec(&report.agent_tasks, prefix_width, percent_width),
                    max_row_width_exec(&report.apps, prefix_width, percent_width),
                ),
            ),
            umax(
                max_row_width_exec(&report.mcp_servers, prefix_width, percent_width),
                max_row_width_exec(&report.plugins, prefix_width, percent_width),
            ),
        )
    };
    let m = umax(width, row_width);
    if m < available_width {
        m
    } else {
        available_width
    }
}

/// A line of the card inside its border.
#[derive(Debug, PartialEq, Eq)]
pub enum CardLine {
    Header(HeaderLine),
    /// An empty line.
    Blank,
    /// A line of the headline sentence, italic and dimmed, wrapped to the
    /// card.
    Headline(String),
    /// A line of the headline's note, wrapped to the card.
    Note(String),
    /// A line of a notice that there is nothing to list, wrapped to the card.
    Notice(String),
    /// A section's title, highlighted.
    SectionTitle(String),
    /// An entry's row.
    Entry(UsageEntryLine),
}

/// A line of the card, as planned from the report.
pub ghost enum PlannedLine {
    Header(HeaderView),
    Blank,
    Headline(Seq<char>),
    Note(Seq<char>),
    Notice(Seq<char>),
    SectionTitle(Seq<char>),
    /// The row of this entry; the flag tells whether it is the section's last.
    Entry(UsageEntry, bool),
}

/// The notice for a range without tracked usage.
pub open spec fn no_tracked_notice() -> Seq<char> {
    " No tracked usage in this range yet."@
}

/// The notice for a range whose usage has no attributed contributors.
pub open spec fn no_attributed_notice() -> Seq<char> {
    " No attributed skills, subagents, agent tasks, apps, MCP servers, or plugins in this range."@
}

/// The lines of one section: nothing without entries, else a blank line, the
/// title and one row per entry.
pub open spec fn section_plan(label: Seq<char>, es: Seq<UsageEntry>) -> Seq<PlannedLine> {
    if es.len() == 0 {
        seq![]
    } else {
        seq![PlannedLine::Blank, PlannedLine::SectionTitle(" "@ + label)] + Seq::new(
            es.len(),
            |i: int| PlannedLine::Entry(es[i], i + 1 == es.len()),
        )
    }
}

/// The lines of a card inside its border: the header, the headline with its
/// note, and then a notice when nothing is tracked or nothing is attributed,
/// else the sections in order.
pub open spec fn card_plan(report: UsageReport, inner_width: nat) -> Seq<PlannedLine> {
    header_plan(report, inner_width) + headline_plan(report, inner_width) + body_plan(report, inner_width)
}

/// Which kind of wrapped text a card line holds.
#[derive(Debug, Clone, Copy, PartialEq, Eq, Structural)]
pub enum WrappedKind {
    Headline,
    Note,
    Notice,
}

/// A planned line of wrapped text.
pub open spec fn planned_wrapped(kind: WrappedKind, t: Seq<char>) -> PlannedLine {
    match kind {
        WrappedKind::Headline => PlannedLine::Headline(t),
        WrappedKind::Note => PlannedLine::Note(t),
        WrappedKind::Notice => PlannedLine::Notice(t),
    }
}

/// The columns text is wrapped to in a card: the card's inner width, at
/// least one.
pub open spec fn wrap_width(inner_width: nat) -> usize {
    if inner_width == 0 {
        1
    } else {
        inner_width as usize
    }
}

/// The planned lines of a text wrapped to the card, the lines after the
/// first indented by one space.
pub open spec fn wrapped_plan(text: Seq<char>, inner_width: nat, kind: WrappedKind) -> Seq<PlannedLine> {
    wrapped_lines(text, wrap_width(inner_width)).map_values(|t: Seq<char>| planned_wrapped(kind, t))
}

/// The header lines of a card.
pub open spec fn header_plan(report: UsageReport, inner_width: nat) -> Seq<PlannedLine> {
    header_lines_spec(report, inner_width).map_values(|h: HeaderView| PlannedLine::Header(h))
}

/// The headline lines of a card: a blank line, the headline and its note
/// (after a space), each wrapped to the card.
pub open spec fn headline_plan(report: UsageReport, inner_width: nat) -> Seq<PlannedLine> {
    match report.headline {
        Some(h) => seq![PlannedLine::Blank] + wrapped_plan(headline_text(h), inner_width, WrappedKind::Headline)
            + match h.note {
            Some(n) => wrapped_plan(" "@ + n@, inner_width, WrappedKind::Note),
            None => seq![],
        },
        None => seq![],
    }
}

/// The body of a card: a notice wrapped to the card, or the sections.
pub open spec fn body_plan(report: UsageReport, inner_width: nat) -> Seq<PlannedLine> {
    if report.total_tokens == 0 {
        seq![PlannedLine::Blank] + wrapped_plan(no_tracked_notice(), inner_width, WrappedKind::Notice)
    } else if all_sections_empty(report) {
        seq![PlannedLine::Blank] + wrapped_plan(no_attributed_notice(), inner_width, WrappedKind::Notice)
    } else {
        section_plan("Skills"@, report.skills@) + section_plan("Subagents"@, report.subagents@)
            + section_plan("Agent tasks"@, report.agent_tasks@) + section_plan("Apps"@, report.apps@)
            + section_plan("MCP servers"@, report.mcp_servers@) + section_plan("Plugins"@, report.plugins@)
    }
}

/// A card line is the planned line: the same text, and for a row, the layout
/// of that entry's row.
pub open spec fn line_matches(l: CardLine, p: PlannedLine, label_column_width: nat, inner_width: nat) -> bool {
    match p {
        PlannedLine::Header(h) => l is Header && l->Header_0@ == h,
        PlannedLine::Blank => l is Blank,
        PlannedLine::Headline(t) => l is Headline && l->Headline_0@ == t,
        PlannedLine::Note(t) => l is Note && l->Note_0@ == t,
        PlannedLine::Notice(t) => l is Notice && l->Notice_0@ == t,
        PlannedLine::SectionTitle(t) => l is SectionTitle && l->SectionTitle_0@ == t,
        PlannedLine::Entry(e, last) => l is Entry && entry_line_ok(l->Entry_0, e, last, label_column_width, inner_width),
    }
}

/// Each line is the planned line at the same position.
pub open spec fn lines_match(ls: Seq<CardLine>, ps: Seq<PlannedLine>, label_column_width: nat, inner_width: nat) -> bool {
    &&& ls.len() == ps.len()
    &&& forall|i: int| 0 <= i < ls.len() ==> line_matches(#[trigger] ls[i], ps[i], label_column_width, inner_width)
}

/// The section title a planned line leaves in force after `current`.
pub open spec fn next_title(p: PlannedLine, current: Option<Seq<char>>) -> Option<Seq<char>> {
    match p {
        PlannedLine::SectionTitle(t) => Some(t),
        _ => current,
    }
}

/// The entry of a planned row that stands under the title `title`, when
/// `current` is the title in force.
pub open spec fn row_under(p: PlannedLine, current: Option<Seq<char>>, title: Seq<char>) -> Seq<UsageEntry> {
    match p {
        PlannedLine::Entry(e, _) => if current == Some(title) {
            seq![e]
        } else {
            seq![]
        },
        _ => seq![],
    }
}

/// The entries of the rows that stand under the section title `title` in a
/// card's lines, in order: a row stands under the last section title above
/// it, `current` being the title in force before the first line.
pub open spec fn rows_under(plan: Seq<PlannedLine>, current: Option<Seq<char>>, title: Seq<char>) -> Seq<UsageEntry>
    decreases plan.len(),
{
    if plan.len() == 0 {
        seq![]
    } else {
        row_under(plan[0], current, title) + rows_under(plan.drop_first(), next_title(plan[0], current), title)
    }
}

/// The section title in force after a card's lines.
spec fn title_after(plan: Seq<PlannedLine>, current: Option<Seq<char>>) -> Option<Seq<char>>
    decreases plan.len(),
{
    if plan.len() == 0 {
        current
    } else {
        title_after(plan.drop_first(), next_title(plan[0], current))
    }
}

/// Rows under a title in two runs of lines one after the other.
proof fn lemma_rows_under_append(a: Seq<PlannedLine>, b: Seq<PlannedLine>, current: Option<Seq<char>>, title: Seq<char>)
    ensures
        rows_under(a + b, current, title) == rows_under(a, current, title) + rows_under(
            b,
            title_after(a, current),
            title,
        ),
    decreases a.len(),
{
    if a.len() == 0 {
        assert(a + b =~= b);
    } else {
        assert((a + b).drop_first() =~= a.drop_first() + b);
        assert((a + b)[0] == a[0]);
        lemma_rows_under_append(a.drop_first(), b, next_title(a[0], current), title);
        assert(rows_under(a + b, current, title) =~= rows_under(a, current, title) + rows_under(
            b,
            title_after(a, current),
            title,
        ));
    }
}

/// Lines without section titles and rows hold no rows and keep the title.
proof fn lemma_rows_under_plain(x: Seq<PlannedLine>, current: Option<Seq<char>>, title: Seq<char>)
    requires
        forall|i: int| 0 <= i < x.len() ==> !(#[trigger] x[i] is SectionTitle) && !(x[i] is Entry),
    ensures
        rows_under(x, current, title) == Seq::<UsageEntry>::empty(),
        title_after(x, current) == current,
    decreases x.len(),
{
    if x.len() > 0 {
        assert forall|i: int| 0 <= i < x.drop_first().len() implies !(#[trigger] x.drop_first()[i] is SectionTitle)
            && !(x.drop_first()[i] is Entry) by {
            assert(x.drop_first()[i] == x[i + 1]);
        }
        assert(!(x[0] is SectionTitle) && !(x[0] is Entry));
        lemma_rows_under_plain(x.drop_first(), current, title);
        assert(rows_under(x, current, title) =~= Seq::<UsageEntry>::empty());
    }
}

/// Rows alone all stand under the title in force, and keep it.
proof fn lemma_rows_under_rows(x: Seq<PlannedLine>, current: Option<Seq<char>>, title: Seq<char>)
    requires
        forall|i: int| 0 <= i < x.len() ==> #[trigger] x[i] is Entry,
    ensures
        current == Some(title) ==> rows_under(x, current, title).len() == x.len() && forall|i: int|
            0 <= i < x.len() ==> rows_under(x, current, title)[i] == #[trigger] x[i]->Entry_0,
        current != Some(title) ==> rows_under(x, current, title) == Seq::<UsageEntry>::empty(),
        title_after(x, current) == current,
    decreases x.len(),
{
    if x.len() > 0 {
        let rest = x.drop_first();
        assert forall|i: int| 0 <= i < rest.len() implies #[trigger] rest[i] is Entry by {
            assert(rest[i] == x[i + 1]);
        }
        assert(x[0] is Entry);
        lemma_rows_under_rows(rest, current, title);
        if current == Some(title) {
            assert forall|i: int| 0 <= i < x.len() implies rows_under(x, current, title)[i] == #[trigger] x[i]->Entry_0 by {
                if i > 0 {
                    assert(rest[i - 1] == x[i]);
                }
            }
        } else {
            assert(rows_under(x, current, title) =~= Seq::<UsageEntry>::empty());
        }
    }
}

/// The rows of a section stand under its own title, whatever title was in
/// force before it; a section with entries leaves its title in force.
proof fn lemma_rows_under_section(label: Seq<char>, es: Seq<UsageEntry>, current: Option<Seq<char>>, title: Seq<char>)
    ensures
        rows_under(section_plan(label, es), current, title) == if " "@ + label == title {
            es
        } else {
            Seq::<UsageEntry>::empty()
        },
        title_after(section_plan(label, es), current) == if es.len() > 0 {
            Some(" "@ + label)
        } else {
            current
        },
{
    let sp = section_plan(label, es);
    if es.len() == 0 {
        assert(sp =~= Seq::<PlannedLine>::empty());
        if " "@ + label == title {
            assert(es =~= Seq::<UsageEntry>::empty());
        }
    } else {
        let t = " "@ + label;
        let head = seq![PlannedLine::Blank, PlannedLine::SectionTitle(t)];
        let rs = Seq::new(es.len(), |i: int| PlannedLine::Entry(es[i], i + 1 == es.len()));
        assert(sp == head + rs);
        let h1 = head.drop_first();
        let h2 = h1.drop_first();
        assert(h1 =~= seq![PlannedLine::SectionTitle(t)]);
        assert(h2 =~= Seq::<PlannedLine>::empty());
        assert(head[0] == PlannedLine::Blank);
        assert(h1[0] == PlannedLine::SectionTitle(t));
        assert(rows_under(h2, Some(t), title) == Seq::<UsageEntry>::empty());
        assert(title_after(h2, Some(t)) == Some(t));
        assert(rows_under(h1, current, title) =~= Seq::<UsageEntry>::empty());
        assert(title_after(h1, current) == Some(t));
        assert(rows_under(head, current, title) =~= Seq::<UsageEntry>::empty());
        assert(title_after(head, current) == Some(t));
        lemma_rows_under_append(head, rs, current, title);
        assert(title_after(head + rs, current) == title_after(rs, Some(t))) by {
            lemma_title_after_append(head, rs, current);
        }
        lemma_rows_under_rows(rs, Some(t), title);
        if t == title {
            assert(rows_under(rs, Some(t), title) =~= es);
        }
        assert(rows_under(sp, current, title) =~= rows_under(rs, Some(t), title));
    }
}

/// The title in force after two runs of lines.
proof fn lemma_title_after_append(a: Seq<PlannedLine>, b: Seq<PlannedLine>, current: Option<Seq<char>>)
    ensures
        title_after(a + b, current) == title_after(b, title_after(a, current)),
    decreases a.len(),
{
    if a.len() == 0 {
        assert(a + b =~= b);
    } else {
        assert((a + b).drop_first() =~= a.drop_first() + b);
        assert((a + b)[0] == a[0]);
        lemma_title_after_append(a.drop_first(), b, next_title(a[0], current));
    }
}

/// The rows under a title in a run of sections: those of the section with
/// that title.
proof fn lemma_rows_under_sections(report: UsageReport, current: Option<Seq<char>>, title: Seq<char>)
    ensures
        ({
            let s1 = section_plan("Skills"@, report.skills@);
            let s2 = section_plan("Subagents"@, report.subagents@);
            let s3 = section_plan("Agent tasks"@, report.agent_tasks@);
            let s4 = section_plan("Apps"@, report.apps@);
            let s5 = section_plan("MCP servers"@, report.mcp_servers@);
            let s6 = section_plan("Plugins"@, report.plugins@);
            let pick = |l: Seq<char>, es: Seq<UsageEntry>| if " "@ + l == title {
                es
            } else {
                Seq::<UsageEntry>::empty()
            };
            rows_under(s1 + s2 + s3 + s4 + s5 + s6, current, title) == pick("Skills"@, report.skills@) + pick(
                "Subagents"@,
                report.subagents@,
            ) + pick("Agent tasks"@, report.agent_tasks@) + pick("Apps"@, report.apps@) + pick(
                "MCP servers"@,
                report.mcp_servers@,
            ) + pick("Plugins"@, report.plugins@)
        }),
{
    let s1 = section_plan("Skills"@, report.skills@);
    let s2 = section_plan("Subagents"@, report.subagents@);
    let s3 = section_plan("Agent tasks"@, report.agent_tasks@);
    let s4 = section_plan("Apps"@, report.apps@);
    let s5 = section_plan("MCP servers"@, report.mcp_servers@);
    let s6 = section_plan("Plugins"@, report.plugins@);
    let c1 = title_after(s1, current);
    let c2 = title_after(s1 + s2, current);
    let c3 = title_after(s1 + s2 + s3, current);
    let c4 = title_after(s1 + s2 + s3 + s4, current);
    let c5 = title_after(s1 + s2 + s3 + s4 + s5, current);
    lemma_rows_under_append(s1 + s2 + s3 + s4 + s5, s6, current, title);
    lemma_rows_under_append(s1 + s2 + s3 + s4, s5, current, title);
    lemma_rows_under_append(s1 + s2 + s3, s4, current, title);
    lemma_rows_under_append(s1 + s2, s3, current, title);
    lemma_rows_under_append(s1, s2, current, title);
    lemma_rows_under_section("Skills"@, report.skills@, current, title);
    lemma_rows_under_section("Subagents"@, report.subagents@, c1, title);
    lemma_rows_under_section("Agent tasks"@, report.agent_tasks@, c2, title);
    lemma_rows_under_section("Apps"@, report.apps@, c3, title);
    lemma_rows_under_section("MCP servers"@, report.mcp_servers@, c4, title);
    lemma_rows_under_section("Plugins"@, report.plugins@, c5, title);
}

/// Every row of a card stands under the title of the report list its entry
/// comes from: the rows under ` Skills` are the report's skills, in order,
/// those under ` Subagents` its subagents, and likewise for agent tasks,
/// apps, MCP servers and plugins; no row stands under any other title.
pub proof fn lemma_rows_stand_under_their_section(report: UsageReport, inner_width: nat, title: Seq<char>)
    requires
        report.total_tokens != 0,
        !all_sections_empty(report),
    ensures
        rows_under(card_plan(report, inner_width), None, " Skills"@) == report.skills@,
        rows_under(card_plan(report, inner_width), None, " Subagents"@) == report.subagents@,
        rows_under(card_plan(report, inner_width), None, " Agent tasks"@) == report.agent_tasks@,
        rows_under(card_plan(report, inner_width), None, " Apps"@) == report.apps@,
        rows_under(card_plan(report, inner_width), None, " MCP servers"@) == report.mcp_servers@,
        rows_under(card_plan(report, inner_width), None, " Plugins"@) == report.plugins@,
        title != " Skills"@ && title != " Subagents"@ && title != " Agent tasks"@ && title != " Apps"@ && title
            != " MCP servers"@ && title != " Plugins"@ ==> rows_under(card_plan(report, inner_width), None, title)
            == Seq::<UsageEntry>::empty(),
{
    reveal_strlit(" Skills");
    reveal_strlit(" Subagents");
    reveal_strlit(" Agent tasks");
    reveal_strlit(" Apps");
    reveal_strlit(" MCP servers");
    reveal_strlit(" Plugins");
    reveal_strlit(" ");
    reveal_strlit("Skills");
    reveal_strlit("Subagents");
    reveal_strlit("Agent tasks");
    reveal_strlit("Apps");
    reveal_strlit("MCP servers");
    reveal_strlit("Plugins");
    assert(" "@ + "Skills"@ =~= " Skills"@);
    assert(" "@ + "Subagents"@ =~= " Subagents"@);
    assert(" "@ + "Agent tasks"@ =~= " Agent tasks"@);
    assert(" "@ + "Apps"@ =~= " Apps"@);
    assert(" "@ + "MCP servers"@ =~= " MCP servers"@);
    assert(" "@ + "Plugins"@ =~= " Plugins"@);
    assert(" Agent tasks"@[1] != " MCP servers"@[1]);
    let top = header_plan(report, inner_width) + headline_plan(report, inner_width);
    assert forall|i: int| 0 <= i < top.len() implies !(#[trigger] top[i] is SectionTitle) && !(top[i] is Entry) by {
        let hp = header_plan(report, inner_width);
        if i < hp.len() {
            assert(top[i] == hp[i]);
        } else {
            let k = i - hp.len();
            assert(top[i] == headline_plan(report, inner_width)[k]);
            match report.headline {
                Some(h) => {
                    let a = seq![PlannedLine::Blank];
                    let b = wrapped_plan(headline_text(h), inner_width, WrappedKind::Headline);
                    let c = match h.note {
                        Some(n) => wrapped_plan(" "@ + n@, inner_width, WrappedKind::Note),
                        None => seq![],
                    };
                    assert(headline_plan(report, inner_width) == a + b + c);
                    if k < 1 {
                        assert((a + b + c)[k] == a[k]);
                    } else if k < 1 + b.len() {
                        assert((a + b + c)[k] == b[k - 1]);
                    } else {
                        assert((a + b + c)[k] == c[k - 1 - b.len()]);
                    }
                },
                None => {},
            }
        }
    }
    let body = body_plan(report, inner_width);
    assert(card_plan(report, inner_width) == top + body);
    let titles = seq![" Skills"@, " Subagents"@, " Agent tasks"@, " Apps"@, " MCP servers"@, " Plugins"@, title];
    assert forall|j: int| 0 <= j < 7 implies rows_under(card_plan(report, inner_width), None, #[trigger] titles[j])
        == rows_under(body, None, titles[j]) by {
        lemma_rows_under_append(top, body, None, titles[j]);
        lemma_rows_under_plain(top, None, titles[j]);
        assert(Seq::<UsageEntry>::empty() + rows_under(body, None, titles[j]) =~= rows_under(body, None, titles[j]));
    }
    assert forall|j: int| 0 <= j < 7 implies #[trigger] rows_under(body, None, titles[j]) == {
        let pick = |l: Seq<char>, es: Seq<UsageEntry>| if " "@ + l == titles[j] {
            es
        } else {
            Seq::<UsageEntry>::empty()
        };
        pick("Skills"@, report.skills@) + pick("Subagents"@, report.subagents@) + pick(
            "Agent tasks"@,
            report.agent_tasks@,
        ) + pick("Apps"@, report.apps@) + pick("MCP servers"@, report.mcp_servers@) + pick(
            "Plugins"@,
            report.plugins@,
        )
    } by {
        lemma_rows_under_sections(report, None, titles[j]);
    }
    assert(titles[0] == " Skills"@);
    assert(titles[1] == " Subagents"@);
    assert(titles[2] == " Agent tasks"@);
    assert(titles[3] == " Apps"@);
    assert(titles[4] == " MCP servers"@);
    assert(titles[5] == " Plugins"@);
    assert(titles[6] == title);
    assert(rows_under(body, None, titles[0]) =~= report.skills@);
    assert(rows_under(body, None, titles[1]) =~= report.subagents@);
    assert(rows_under(body, None, titles[2]) =~= report.agent_tasks@);
    assert(rows_under(body, None, titles[3]) =~= report.apps@);
    assert(rows_under(body, None, titles[4]) =~= report.mcp_servers@);
    assert(rows_under(body, None, titles[5]) =~= report.plugins@);
    if title != " Skills"@ && title != " Subagents"@ && title != " Agent tasks"@ && title != " Apps"@ && title
        != " MCP servers"@ && title != " Plugins"@ {
        assert(rows_under(body, None, titles[6]) =~= Seq::<UsageEntry>::empty());
    }
}

/// The usage card: the width inside its border and its lines.
#[derive(Debug, PartialEq, Eq)]
pub struct UsageCard {
    pub inner_width: usize,
    pub lines: Vec<CardLine>,
}

/// Adds one line to a card being built.
fn push_line(
    lines: &mut Vec<CardLine>,
    line: CardLine,
    Ghost(plan): Ghost<Seq<PlannedLine>>,
    Ghost(p): Ghost<PlannedLine>,
    Ghost(lcw): Ghost<nat>,
    Ghost(inner): Ghost<nat>,
)
    requires
        lines_match(old(lines)@, plan, lcw, inner),
        line_matches(line, p, lcw, inner),
    ensures
        lines_match(final(lines)@, plan.push(p), lcw, inner),
{
    lines.push(line);
    assert forall|i: int| 0 <= i < lines@.len() implies line_matches(#[trigger] lines@[i], plan.push(p)[i], lcw, inner) by {
        if i < plan.len() {
            assert(lines@[i] == old(lines)@[i]);
        }
    }
}

/// Adds a section to a card being built.
fn push_section(
    lines: &mut Vec<CardLine>,
    label: &str,
    entries: &Vec<UsageEntry>,
    label_column_width: usize,
    inner_width: usize,
    Ghost(plan): Ghost<Seq<PlannedLine>>,
)
    requires
        lines_match(old(lines)@, plan, label_column_width as nat, inner_width as nat),
    ensures
        lines_match(final(lines)@, plan + section_plan(label@, entries@), label_column_width as nat, inner_width as nat),
{
    if entries.len() == 0 {
        assert(plan + section_plan(label@, entries@) == plan);
        return;
    }
    let ghost lcw = label_column_width as nat;
    let ghost inner = inner_width as nat;
    push_line(lines, CardLine::Blank, Ghost(plan), Ghost(PlannedLine::Blank), Ghost(lcw), Ghost(inner));
    let title = concat(" ", label);
    push_line(
        lines,
        CardLine::SectionTitle(title),
        Ghost(plan.push(PlannedLine::Blank)),
        Ghost(PlannedLine::SectionTitle(" "@ + label@)),
        Ghost(lcw),
        Ghost(inner),
    );
    let ghost start = plan.push(PlannedLine::Blank).push(PlannedLine::SectionTitle(" "@ + label@));
    let ghost rows = Seq::new(entries@.len(), |i: int| PlannedLine::Entry(entries@[i], i + 1 == entries@.len()));
    let mut i: usize = 0;
    while i < entries.len()
        invariant
            i <= entries@.len(),
            rows == Seq::new(entries@.len(), |i: int| PlannedLine::Entry(entries@[i], i + 1 == entries@.len())),
            lines_match(lines@, start + rows.subrange(0, i as int), lcw, inner),
            lcw == label_column_width,
            inner == inner_width,
        decreases entries@.len() - i,
    {
        let is_last = i + 1 == entries.len();
        let row = usage_entry_line(&entries[i], is_last, label_column_width, inner_width);
        push_line(
            lines,
            CardLine::Entry(row),
            Ghost(start + rows.subrange(0, i as int)),
            Ghost(rows[i as int]),
            Ghost(lcw),
            Ghost(inner),
        );
        assert(start + rows.subrange(0, i + 1) == (start + rows.subrange(0, i as int)).push(rows[i as int]));
        i = i + 1;
    }
    assert(rows.subrange(0, entries@.len() as int) == rows);
    assert(start + rows == plan + section_plan(label@, entries@));
}

/// The usage card of a report for a terminal width: nothing below four
/// columns; else the card of `card_plan` at the width of `content_width_spec`,
/// with the label column of `label_column_width_spec`.
pub fn usage_report_card(report: &UsageReport, width: u16) -> (r: Option<UsageCard>)
    ensures
        match available_width_spec(width) {
            None => r is None,
            Some(available) => r is Some && {
                let card = r->Some_0;
                let lcw = label_column_width_spec(*report);
                &&& card.inner_width == content_width_spec(*report, lcw as nat, available as nat)
                &&& lines_match(card.lines@, card_plan(*report, card.inner_width as nat), lcw as nat, card.inner_width as nat)
            },
        },
{
    let available_width = match usage_card_available_width(width) {
        Some(a) => a,
        None => return None,
    };
    let label_column_width = usage_label_column_width(report);
    let inner_width = usage_content_width(report, label_column_width, available_width);
    let ghost lcw = label_column_width as nat;
    let ghost inner = inner_width as nat;
    let mut lines: Vec<CardLine> = Vec::new();
    assert(lines_match(lines@, seq![], lcw, inner));
    push_header(&mut lines, report, label_column_width, inner_width);
    assert(seq![] + header_plan(*report, inner) == header_plan(*report, inner));
    push_headline(&mut lines, report, label_column_width, inner_width, Ghost(header_plan(*report, inner)));
    push_body(
        &mut lines,
        report,
        label_column_width,
        inner_width,
        Ghost(header_plan(*report, inner) + headline_plan(*report, inner)),
    );
    Some(UsageCard { inner_width, lines })
}

/// Adds the header to an empty card.
fn push_header(lines: &mut Vec<CardLine>, report: &UsageReport, label_column_width: usize, inner_width: usize)
    requires
        old(lines)@.len() == 0,
    ensures
        lines_match(final(lines)@, header_plan(*report, inner_width as nat), label_column_width as nat, inner_width as nat),
{
    let ghost lcw = label_column_width as nat;
    let ghost inner = inner_width as nat;
    let header = usage_header_lines(report, inner_width);
    let ghost hplan = header_plan(*report, inner);
    let mut i: usize = 0;
    assert(lines_match(lines@, hplan.subrange(0, 0), lcw, inner));
    while i < header.len()
        invariant
            i <= header@.len(),
            header_views(header@) == header_lines_spec(*report, inner),
            hplan == header_plan(*report, inner),
            lcw == label_column_width,
            inner == inner_width,
            lines_match(lines@, hplan.subrange(0, i as int), lcw, inner),
        decreases header@.len() - i,
    {
        let h = clone_header_line(&header[i]);
        push_line(lines, CardLine::Header(h), Ghost(hplan.subrange(0, i as int)), Ghost(hplan[i as int]), Ghost(lcw), Ghost(inner));
        assert(hplan.subrange(0, i + 1) == hplan.subrange(0, i as int).push(hplan[i as int]));
        i = i + 1;
    }
    assert(hplan.subrange(0, header@.len() as int) == hplan);
}

/// The card line of a line of wrapped text.
fn wrapped_card_line(kind: WrappedKind, t: String) -> (r: CardLine)
    ensures
        forall|lcw: nat, inner: nat| line_matches(r, planned_wrapped(kind, t@), lcw, inner),
{
    match kind {
        WrappedKind::Headline => CardLine::Headline(t),
        WrappedKind::Note => CardLine::Note(t),
        WrappedKind::Notice => CardLine::Notice(t),
    }
}

/// Adds a text wrapped to the card to a card being built.
fn push_wrapped(
    lines: &mut Vec<CardLine>,
    text: &str,
    kind: WrappedKind,
    label_column_width: usize,
    inner_width: usize,
    Ghost(plan): Ghost<Seq<PlannedLine>>,
)
    requires
        lines_match(old(lines)@, plan, label_column_width as nat, inner_width as nat),
    ensures
        lines_match(
            final(lines)@,
            plan + wrapped_plan(text@, inner_width as nat, kind),
            label_column_width as nat,
            inner_width as nat,
        ),
{
    let ghost lcw = label_column_width as nat;
    let ghost inner = inner_width as nat;
    let width = if inner_width == 0 {
        1
    } else {
        inner_width
    };
    let wrapped = wrap_text(text, width);
    let ghost ws = string_views(wrapped@);
    let ghost wplan = wrapped_plan(text@, inner, kind);
    assert(wplan.len() == wrapped@.len());
    let n = wrapped.len();
    let mut i: usize = 0;
    while i < n
        invariant
            i <= n,
            n == wrapped@.len(),
            ws == string_views(wrapped@),
            wplan == ws.map_values(|t: Seq<char>| planned_wrapped(kind, t)),
            lcw == label_column_width,
            inner == inner_width,
            lines_match(lines@, plan + wplan.subrange(0, i as int), lcw, inner),
        decreases n - i,
    {
        let t = wrapped[i].clone();
        assert(t@ == ws[i as int]);
        let line = wrapped_card_line(kind, t);
        push_line(
            lines,
            line,
            Ghost(plan + wplan.subrange(0, i as int)),
            Ghost(wplan[i as int]),
            Ghost(lcw),
            Ghost(inner),
        );
        assert(plan + wplan.subrange(0, i + 1) == (plan + wplan.subrange(0, i as int)).push(wplan[i as int]));
        i = i + 1;
    }
    assert(wplan.subrange(0, n as int) == wplan);
}

/// Adds the headline lines to a card being built.
fn push_headline(
    lines: &mut Vec<CardLine>,
    report: &UsageReport,
    label_column_width: usize,
    inner_width: usize,
    Ghost(plan): Ghost<Seq<PlannedLine>>,
)
    requires
        lines_match(old(lines)@, plan, label_column_width as nat, inner_width as nat),
    ensures
        lines_match(
            final(lines)@,
            plan + headline_plan(*report, inner_width as nat),
            label_column_width as nat,
            inner_width as nat,
        ),
{
    let ghost lcw = label_column_width as nat;
    let ghost inner = inner_width as nat;
    match &report.headline {
        Some(h) => {
            push_line(lines, CardLine::Blank, Ghost(plan), Ghost(PlannedLine::Blank), Ghost(lcw), Ghost(inner));
            let ghost p1 = plan.push(PlannedLine::Blank);
            let text = headline_label(h);
            push_wrapped(lines, text.as_str(), WrappedKind::Headline, label_column_width, inner_width, Ghost(p1));
            let ghost p2 = p1 + wrapped_plan(headline_text(*h), inner, WrappedKind::Headline);
            match &h.note {
                Some(note) => {
                    let t = concat(" ", note.as_str());
                    push_wrapped(lines, t.as_str(), WrappedKind::Note, label_column_width, inner_width, Ghost(p2));
                    assert(p2 + wrapped_plan(" "@ + note@, inner, WrappedKind::Note) =~= plan + headline_plan(
                        *report,
                        inner,
                    ));
                },
                None => {
                    assert(p2 =~= plan + headline_plan(*report, inner));
                },
            }
        },
        None => {
            assert(plan + headline_plan(*report, inner) =~= plan);
        },
    }
}

/// Adds the body to a card being built.
fn push_body(
    lines: &mut Vec<CardLine>,
    report: &UsageReport,
    label_column_width: usize,
    inner_width: usize,
    Ghost(plan): Ghost<Seq<PlannedLine>>,
)
    requires
        lines_match(old(lines)@, plan, label_column_width as nat, inner_width as nat),
    ensures
        lines_match(
            final(lines)@,
            plan + body_plan(*report, inner_width as nat),
            label_column_width as nat,
            inner_width as nat,
        ),
{
    let ghost lcw = label_column_width as nat;
    let ghost inner = inner_width as nat;
    if report.total_tokens == 0 || all_sections_empty_exec(report) {
        let notice = if report.total_tokens == 0 {
            " No tracked usage in this range yet."
        } else {
            " No attributed skills, subagents, agent tasks, apps, MCP servers, or plugins in this range."
        };
        push_line(lines, CardLine::Blank, Ghost(plan), Ghost(PlannedLine::Blank), Ghost(lcw), Ghost(inner));
        push_wrapped(
            lines,
            notice,
            WrappedKind::Notice,
            label_column_width,
            inner_width,
            Ghost(plan.push(PlannedLine::Blank)),
        );
        assert(plan.push(PlannedLine::Blank) + wrapped_plan(notice@, inner, WrappedKind::Notice) =~= plan + body_plan(
            *report,
            inner,
        ));
    } else {
        let ghost p0 = plan;
        push_section(lines, "Skills", &report.skills, label_column_width, inner_width, Ghost(p0));
        let ghost p1 = p0 + section_plan("Skills"@, report.skills@);
        push_section(lines, "Subagents", &report.subagents, label_column_width, inner_width, Ghost(p1));
        let ghost p2 = p1 + section_plan("Subagents"@, report.subagents@);
        push_section(lines, "Agent tasks", &report.agent_tasks, label_column_width, inner_width, Ghost(p2));
        let ghost p3 = p2 + section_plan("Agent tasks"@, report.agent_tasks@);
        push_section(lines, "Apps", &report.apps, label_column_width, inner_width, Ghost(p3));
        let ghost p4 = p3 + section_plan("Apps"@, report.apps@);
        push_section(lines, "MCP servers", &report.mcp_servers, label_column_width, inner_width, Ghost(p4));
        let ghost p5 = p4 + section_plan("MCP servers"@, report.mcp_servers@);
        push_section(lines, "Plugins", &report.plugins, label_column_width, inner_width, Ghost(p5));
        let ghost p6 = p5 + section_plan("Plugins"@, report.plugins@);
        assert(p6 =~= plan + body_plan(*report, inner));
    }
}

/// A copy of a header line.
fn clone_header_line(h: &HeaderLine) -> (r: HeaderLine)
    ensures
        r@ == h@,
{
    match h {
        HeaderLine::Title(s) => HeaderLine::Title(s.clone()),
        HeaderLine::Subtitle => HeaderLine::Subtitle,
        HeaderLine::WeeklyHint => HeaderLine::WeeklyHint,
        HeaderLine::Period(s) => HeaderLine::Period(s.clone()),
    }
}

/// The card shown when usage could not be loaded.
#[derive(Debug, PartialEq, Eq)]
pub struct UsageErrorCard {
    pub inner_width: usize,
    /// The failure line; the title, the subtitle and a blank line come before it.
    pub message: String,
}

/// The title of the error card.
pub open spec fn usage_error_title() -> Seq<char> {
    "Usage by token share"@
}

/// The error card for a terminal width: nothing below four columns; else the
/// failure line ` Failed to load usage: <error>`, and the width of the widest
/// line (title, subtitle, blank line, failure line), at most the available
/// width.
pub fn usage_error_card(error: &str, width: u16) -> (r: Option<UsageErrorCard>)
    ensures
        match available_width_spec(width) {
            None => r is None,
            Some(available) => r is Some && {
                let card = r->Some_0;
                &&& card.message@ == " Failed to load usage: "@ + error@
                &&& card.inner_width == imin(
                    imax(
                        imax(str_width_named(usage_error_title()) as int, str_width_named(usage_subtitle()) as int),
                        str_width_named(card.message@) as int,
                    ),
                    available as int,
                )
            },
        },
{
    let available_width = match usage_card_available_width(width) {
        Some(a) => a,
        None => return None,
    };
    let message = concat(" Failed to load usage: ", error);
    let widest = umax(
        umax(text_width("Usage by token share"), text_width("Percent of consumed tokens in this selected range")),
        text_width(message.as_str()),
    );
    let inner_width = if widest < available_width {
        widest
    } else {
        available_width
    };
    Some(UsageErrorCard { inner_width, message })
}

/// The command line shown above a loaded answer: the command of the report's
/// range, or `/usage` for an error.
pub fn usage_output_command(output: &UsageOutput) -> (r: &'static str)
    ensures
        r@ == match output {
            UsageOutput::Report(report) => usage_command_label_spec(report.range),
            UsageOutput::Error(_) => "/usage"@,
        },
{
    match output {
        UsageOutput::Report(report) => usage_command_label(report.range),
        UsageOutput::Error(_) => "/usage",
    }
}

/// A cut label fits its width: its characters' widths add up to at most the
/// width, and it is a start of the label.
pub proof fn lemma_truncated_fits(value: Seq<char>, width: nat)
    ensures
        columns_of_prefix(value, fitting_len(value, width, 0)) <= width,
        truncate_to_width_spec(value, width).len() <= value.len(),
        truncate_to_width_spec(value, width) == value.subrange(0, fitting_len(value, width, 0)),
{
    lemma_fitting_len_fits(value, width, 0);
    lemma_fitting_len_bounds(value, width, 0);
}

/// From a position whose prefix fits, the search stops at a prefix that fits.
proof fn lemma_fitting_len_fits(s: Seq<char>, width: nat, k: int)
    requires
        0 <= k <= s.len(),
        columns_of_prefix(s, k) <= width,
    ensures
        columns_of_prefix(s, fitting_len(s, width, k)) <= width,
    decreases s.len() - k,
{
    if k < s.len() && columns_of_prefix(s, k + 1) <= width {
        lemma_fitting_len_fits(s, width, k + 1);
    }
}

/// With something tracked and attributed, the card leaves room for bars
/// exactly when the terminal does: when the room available holds the label
/// column plus the prefix, the bar, its gap and the percentage (thirty-one
/// columns), and the label column is at least eight wide, the card is that
/// wide, and then every row of the card shows its bar; otherwise no row does.
pub proof fn lemma_bars_shown_exactly_when_room(
    report: UsageReport,
    label_column_width: nat,
    available: nat,
    inner_width: nat,
    lines: Seq<CardLine>,
)
    requires
        report.total_tokens != 0,
        !all_sections_empty(report),
        inner_width == content_width_spec(report, label_column_width, available),
        lines_match(lines, card_plan(report, inner_width), label_column_width, inner_width),
    ensures
        bar_row_extra_columns() == 31,
        available >= label_column_width + 31 && label_column_width >= 8 ==> inner_width >= label_column_width + 31,
        forall|is_last: bool, p: u8|
            row_has_bar(is_last, p, label_column_width, inner_width) <==> (available >= label_column_width + 31
                && label_column_width >= 8),
        forall|i: int|
            0 <= i < lines.len() && (#[trigger] lines[i]) is Entry ==> (lines[i]->Entry_0.bar is Some <==> (
            available >= label_column_width + 31 && label_column_width >= 8)),
{
    let plan = card_plan(report, inner_width);
    assert forall|i: int| 0 <= i < lines.len() && (#[trigger] lines[i]) is Entry implies (lines[i]->Entry_0.bar is Some
        <==> (available >= label_column_width + 31 && label_column_width >= 8)) by {
        assert(line_matches(lines[i], plan[i], label_column_width, inner_width));
    }
}

/// The card is never wider than the room the terminal leaves for it, and
/// that room is never more than seventy-two columns.
pub proof fn lemma_card_width_bounded(report: UsageReport, label_column_width: nat, width: u16)
    ensures
        available_width_spec(width) matches Some(a) ==> a <= 72 && content_width_spec(
            report,
            label_column_width,
            a as nat,
        ) <= a,
{
}

} // verus!
