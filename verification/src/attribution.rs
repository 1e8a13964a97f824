//! Attribution of prompt tokens to the skills, apps, tools and other
//! contributors that put text into a prompt, and of the consumed non-cached
//! input tokens to those contributors once the model has answered.
use crate::arith::{clamp_i64, sat_add_i64, sat_mul_i64, usize_to_i64_saturating};
use crate::models::{ContentItem, ResponseItem, opt_view, clone_opt_string};
use crate::text::{
    approx_token_count, approx_tokens, chars_of, compare_chars, contains_chars, find_chars_from,
    find_from, find_seq, occurs_at, seq_lt, str_byte_len, string_from_range, trim_bounds, trim_seq,
    Comparison, lemma_seq_lt_irreflexive, lemma_seq_lt_total, lemma_seq_lt_transitive,
};
use vstd::prelude::*;

verus! {

/// What kind of thing contributed text to a prompt.
#[derive(Debug, Clone, Copy, PartialEq, Eq, Structural)]
pub enum UsageContributorKind {
    Skill,
    Subagent,
    AgentTask,
    App,
    McpServer,
    Plugin,
}

/// The position of a kind in declaration order; contributors sort by it first.
pub open spec fn kind_rank(kind: UsageContributorKind) -> u8 {
    match kind {
        UsageContributorKind::Skill => 0,
        UsageContributorKind::Subagent => 1,
        UsageContributorKind::AgentTask => 2,
        UsageContributorKind::App => 3,
        UsageContributorKind::McpServer => 4,
        UsageContributorKind::Plugin => 5,
    }
}

/// The position of a kind in declaration order.
pub fn kind_rank_exec(kind: UsageContributorKind) -> (r: u8)
    ensures
        r == kind_rank(kind),
{
    match kind {
        UsageContributorKind::Skill => 0,
        UsageContributorKind::Subagent => 1,
        UsageContributorKind::AgentTask => 2,
        UsageContributorKind::App => 3,
        UsageContributorKind::McpServer => 4,
        UsageContributorKind::Plugin => 5,
    }
}

/// One contributor: its kind, a stable id and a human-readable label.
#[derive(Debug, PartialEq, Eq)]
pub struct UsageContributor {
    pub kind: UsageContributorKind,
    pub id: String,
    pub label: String,
}

/// What a contributor is, as values.
pub ghost struct ContributorView {
    pub kind: UsageContributorKind,
    pub id: Seq<char>,
    pub label: Seq<char>,
}

impl View for UsageContributor {
    type V = ContributorView;

    open spec fn view(&self) -> ContributorView {
        ContributorView { kind: self.kind, id: self.id@, label: self.label@ }
    }
}

impl Clone for UsageContributor {
    fn clone(&self) -> (r: Self)
        ensures
            r == *self,
    {
        UsageContributor { kind: self.kind, id: self.id.clone(), label: self.label.clone() }
    }
}

/// A contributor together with the tokens of the prompt text it put there.
#[derive(Debug, PartialEq, Eq)]
pub struct UsagePromptContributor {
    pub contributor: UsageContributor,
    pub source_estimated_tokens: i64,
}

/// What a prompt contributor is, as values.
pub ghost struct PromptContributorView {
    pub contributor: ContributorView,
    pub source_estimated_tokens: i64,
}

impl View for UsagePromptContributor {
    type V = PromptContributorView;

    open spec fn view(&self) -> PromptContributorView {
        PromptContributorView {
            contributor: self.contributor@,
            source_estimated_tokens: self.source_estimated_tokens,
        }
    }
}

impl Clone for UsagePromptContributor {
    fn clone(&self) -> (r: Self)
        ensures
            r == *self,
    {
        UsagePromptContributor {
            contributor: self.contributor.clone(),
            source_estimated_tokens: self.source_estimated_tokens,
        }
    }
}

/// The views of a sequence of prompt contributors.
pub open spec fn prompt_views(s: Seq<UsagePromptContributor>) -> Seq<PromptContributorView> {
    s.map_values(|c: UsagePromptContributor| c@)
}

/// The views of a sequence of contributors.
pub open spec fn contributor_views(s: Seq<UsageContributor>) -> Seq<ContributorView> {
    s.map_values(|c: UsageContributor| c@)
}

/// The estimated prompt tokens of one prompt, and who contributed to them.
#[derive(Debug, PartialEq, Eq)]
pub struct UsagePromptAttribution {
    pub prompt_estimated_tokens: i64,
    pub contributors: Vec<UsagePromptContributor>,
}

/// A contributor's share of one model response.
#[derive(Debug, PartialEq, Eq)]
pub struct UsageAttributionContributor {
    pub contributor: UsageContributor,
    pub source_estimated_tokens: i64,
    pub attributed_tokens: i64,
}

/// What an attributed contributor is, as values.
pub ghost struct AttributionContributorView {
    pub contributor: ContributorView,
    pub source_estimated_tokens: i64,
    pub attributed_tokens: i64,
}

impl View for UsageAttributionContributor {
    type V = AttributionContributorView;

    open spec fn view(&self) -> AttributionContributorView {
        AttributionContributorView {
            contributor: self.contributor@,
            source_estimated_tokens: self.source_estimated_tokens,
            attributed_tokens: self.attributed_tokens,
        }
    }
}

/// The token counts a model reported for one response.
#[derive(Debug, Clone, Copy, PartialEq, Eq)]
pub struct TokenUsage {
    pub input_tokens: i64,
    pub cached_input_tokens: i64,
    pub output_tokens: i64,
    pub reasoning_output_tokens: i64,
    pub total_tokens: i64,
}

/// The input tokens that were not served from the cache, never negative.
pub open spec fn non_cached_input_spec(u: TokenUsage) -> i64 {
    let d = clamp_i64(u.input_tokens - u.cached_input_tokens);
    (if d < 0 {
        0
    } else {
        d
    }) as i64
}

impl TokenUsage {
    /// The input tokens that were not served from the cache, never negative.
    pub fn non_cached_input(&self) -> (r: i64)
        ensures
            r == non_cached_input_spec(*self),
    {
        let d = sat_add_i64_sub(self.input_tokens, self.cached_input_tokens);
        if d < 0 {
            0
        } else {
            d
        }
    }
}

/// The non-cached input is the input tokens less the cached input tokens,
/// never below zero and saturating at `i64::MAX`; no other count of the usage
/// (output, reasoning output, total) enters it.
pub proof fn lemma_non_cached_input_is_input_less_cached(u: TokenUsage, v: TokenUsage)
    ensures
        non_cached_input_spec(u) as int == if u.input_tokens - u.cached_input_tokens <= 0 {
            0
        } else if u.input_tokens - u.cached_input_tokens > i64::MAX {
            i64::MAX as int
        } else {
            u.input_tokens - u.cached_input_tokens
        },
        u.input_tokens == v.input_tokens && u.cached_input_tokens == v.cached_input_tokens
            ==> non_cached_input_spec(u) == non_cached_input_spec(v),
{
}

/// Saturating subtraction on `i64`.
fn sat_add_i64_sub(a: i64, b: i64) -> (r: i64)
    ensures
        r == clamp_i64(a - b),
{
    match a.checked_sub(b) {
        Some(d) => d,
        None => {
            if b < 0 {
                i64::MAX
            } else {
                i64::MIN
            }
        },
    }
}

/// The attribution of one model response to the contributors of its prompt.
#[derive(Debug, PartialEq, Eq)]
pub struct UsageAttributionItem {
    pub sample_id: String,
    pub turn_id: String,
    pub response_id: String,
    pub occurred_at: i64,
    pub token_usage: TokenUsage,
    pub prompt_estimated_tokens: i64,
    pub contributors: Vec<UsageAttributionContributor>,
}

/// The share of `non_cached_input` that falls to a source of `source_tokens`
/// out of `prompt_tokens`, rounded to the nearest token; zero when any of the
/// three is not positive.
pub open spec fn attributable_spec(non_cached_input: i64, source_tokens: i64, prompt_tokens: i64) -> int {
    if non_cached_input <= 0 || source_tokens <= 0 || prompt_tokens <= 0 {
        0
    } else {
        clamp_i64(clamp_i64(non_cached_input * source_tokens) + prompt_tokens / 2) / (prompt_tokens as int)
    }
}

/// The share of `non_cached_input` that falls to a source of `source_tokens`
/// out of `prompt_tokens`, rounded half up, with saturating arithmetic.
pub fn attributable_tokens(non_cached_input: i64, source_tokens: i64, prompt_tokens: i64) -> (r: i64)
    ensures
        r == attributable_spec(non_cached_input, source_tokens, prompt_tokens),
{
    if non_cached_input <= 0 || source_tokens <= 0 || prompt_tokens <= 0 {
        return 0;
    }
    let product = sat_mul_i64(non_cached_input, source_tokens);
    assert(non_cached_input * source_tokens > 0) by (nonlinear_arith)
        requires
            non_cached_input > 0,
            source_tokens > 0,
    ;
    let rounded = sat_add_i64(product, prompt_tokens / 2);
    rounded / prompt_tokens
}

/// A share never exceeds the non-cached input when the source is no larger
/// than the whole prompt, and it is never negative.
pub proof fn lemma_attribution_bounded(non_cached_input: i64, source_tokens: i64, prompt_tokens: i64)
    requires
        source_tokens <= prompt_tokens,
    ensures
        0 <= attributable_spec(non_cached_input, source_tokens, prompt_tokens),
        attributable_spec(non_cached_input, source_tokens, prompt_tokens) <= if non_cached_input
            > 0 {
            non_cached_input as int
        } else {
            0
        },
{
    if non_cached_input > 0 && source_tokens > 0 && prompt_tokens > 0 {
        let n = non_cached_input as int;
        let s = source_tokens as int;
        let p = prompt_tokens as int;
        assert(0 < n * s <= n * p) by (nonlinear_arith)
            requires
                0 < n,
                0 < s <= p,
        ;
        let m = clamp_i64(n * s);
        assert(0 < m <= n * p);
        let x = clamp_i64(m + p / 2);
        assert(0 < x <= n * p + p / 2);
        assert(x / p <= n) by (nonlinear_arith)
            requires
                0 < x <= n * p + p / 2,
                p > 0,
                n > 0,
        ;
        assert(x / p >= 0) by (nonlinear_arith)
            requires
                0 < x,
                p > 0,
        ;
    }
}

// ---------------------------------------------------------------------------
// Serialized-size estimates
// ---------------------------------------------------------------------------

/// The token estimate of a text as an `i64`, saturating at `i64::MAX`.
pub open spec fn text_tokens_i64(s: Seq<char>) -> int {
    let n = approx_tokens(str_byte_len(s) as nat);
    if n <= i64::MAX {
        n as int
    } else {
        i64::MAX as int
    }
}

/// The token estimate of a serialized value: that of its text, or zero when
/// the value could not be serialized.
pub fn estimate_serialized_tokens(serialized: Option<&str>) -> (r: i64)
    ensures
        r == (match serialized {
            Some(s) => text_tokens_i64(s@),
            None => 0,
        }),
{
    match serialized {
        Some(s) => usize_to_i64_saturating(approx_token_count(s)),
        None => 0,
    }
}

// ---------------------------------------------------------------------------
// Skills
// ---------------------------------------------------------------------------

/// `<tag>`
pub open spec fn open_tag(tag: Seq<char>) -> Seq<char> {
    seq!['<'] + tag + seq!['>']
}

/// `</tag>`
pub open spec fn close_tag(tag: Seq<char>) -> Seq<char> {
    seq!['<', '/'] + tag + seq!['>']
}

/// The trimmed text between the first `<tag>` of `text` and the first
/// `</tag>` after it.
pub open spec fn tag_contents_spec(text: Seq<char>, tag: Seq<char>) -> Option<Seq<char>> {
    match find_seq(text, open_tag(tag)) {
        None => None,
        Some(i) => {
            let start = i + open_tag(tag).len();
            match find_seq(text.subrange(start, text.len() as int), close_tag(tag)) {
                None => None,
                Some(j) => Some(trim_seq(text.subrange(start, start + j))),
            }
        },
    }
}

/// Searching a suffix is searching the whole from the suffix's start.
proof fn lemma_find_in_suffix(s: Seq<char>, p: Seq<char>, start: int, k: int)
    requires
        0 <= start <= s.len(),
        0 <= k,
    ensures
        find_from(s.subrange(start, s.len() as int), p, k) == (match find_from(
            s,
            p,
            start + k,
        ) {
            Some(i) => Some(i - start),
            None => None::<int>,
        }),
    decreases s.len() + 1 - start - k,
{
    let t = s.subrange(start, s.len() as int);
    if k + p.len() > t.len() {
    } else {
        if occurs_at(t, p, k) {
            assert(t.subrange(k, k + p.len()) == s.subrange(start + k, start + k + p.len()));
        } else {
            assert(t.subrange(k, k + p.len()) == s.subrange(start + k, start + k + p.len()));
            lemma_find_in_suffix(s, p, start, k + 1);
        }
    }
}

/// The characters of `tag` between the given delimiters.
fn delimited(prefix: &[char], tag: &[char], suffix: char) -> (r: Vec<char>)
    ensures
        r@ == prefix@ + tag@ + seq![suffix],
{
    let mut r: Vec<char> = Vec::new();
    let mut i: usize = 0;
    while i < prefix.len()
        invariant
            i <= prefix@.len(),
            r@ == prefix@.subrange(0, i as int),
        decreases prefix@.len() - i,
    {
        r.push(prefix[i]);
        assert(prefix@.subrange(0, i + 1) == prefix@.subrange(0, i as int).push(prefix@[i as int]));
        i = i + 1;
    }
    assert(prefix@.subrange(0, prefix@.len() as int) == prefix@);
    let mut j: usize = 0;
    while j < tag.len()
        invariant
            j <= tag@.len(),
            r@ == prefix@ + tag@.subrange(0, j as int),
        decreases tag@.len() - j,
    {
        r.push(tag[j]);
        assert(tag@.subrange(0, j + 1) == tag@.subrange(0, j as int).push(tag@[j as int]));
        j = j + 1;
    }
    assert(tag@.subrange(0, tag@.len() as int) == tag@);
    r.push(suffix);
    r
}

/// The trimmed text between the first `<tag>` in `text` and the first `</tag>`
/// after it, if both are there.
pub fn tag_contents(text: &str, tag: &str) -> (r: Option<String>)
    ensures
        match r {
            Some(s) => tag_contents_spec(text@, tag@) == Some(s@),
            None => tag_contents_spec(text@, tag@) is None,
        },
{
    let tv = chars_of(text);
    let tagv = chars_of(tag);
    let lt = ['<'];
    let lt_slash = ['<', '/'];
    let open = delimited(&lt, &tagv, '>');
    let close = delimited(&lt_slash, &tagv, '>');
    assert(lt@ == seq!['<']);
    assert(lt_slash@ == seq!['<', '/']);
    assert(open@ == open_tag(tag@));
    assert(close@ == close_tag(tag@));
    let n = tv.len();
    let i = match find_chars_from(&tv, &open, 0) {
        Some(i) => i,
        None => return None,
    };
    proof {
        lemma_find_result_occurs(tv@, open@, 0);
    }
    assert(find_seq(tv@, open@) == Some(i as int));
    let start = i + open.len();
    let ghost suffix = tv@.subrange(start as int, tv@.len() as int);
    proof {
        lemma_find_in_suffix(tv@, close@, start as int, 0);
    }
    let end = match find_chars_from(&tv, &close, start) {
        Some(e) => e,
        None => return None,
    };
    proof {
        lemma_find_result_occurs(tv@, close@, start as int);
    }
    assert(find_seq(suffix, close@) == Some(end - start));
    let (lo, hi) = trim_bounds(&tv, start, end);
    Some(string_from_range(&tv, lo, hi))
}

/// A position that a search reports is an occurrence.
proof fn lemma_find_result_occurs(s: Seq<char>, p: Seq<char>, i: int)
    requires
        find_from(s, p, i) is Some,
    ensures
        occurs_at(s, p, find_from(s, p, i)->0),
        i <= find_from(s, p, i)->0,
    decreases s.len() + 1 - i,
{
    if i < 0 || i + p.len() > s.len() {
    } else if occurs_at(s, p, i) {
    } else {
        lemma_find_result_occurs(s, p, i + 1);
    }
}

/// The first text item of `content` that mentions `<skill>`.
pub open spec fn first_skill_text(content: Seq<ContentItem>) -> Option<String>
    decreases content.len(),
{
    if content.len() == 0 {
        None
    } else if content[0] is InputText && find_seq(content[0]->InputText_text@, "<skill>"@) is Some {
        Some(content[0]->InputText_text)
    } else {
        first_skill_text(content.drop_first())
    }
}

/// The skill a message mentions: the first input text of the message that holds
/// `<skill>`, with the skill's `<path>` as id and its `<name>` as label, and the
/// token estimate of that whole text.
pub open spec fn skill_contributor_spec(item: ResponseItem) -> Option<PromptContributorView> {
    match item {
        ResponseItem::Message { content, .. } => match first_skill_text(content@) {
            None => None,
            Some(text) => match (
                tag_contents_spec(text@, "name"@),
                tag_contents_spec(text@, "path"@),
            ) {
                (Some(name), Some(path)) => Some(
                    PromptContributorView {
                        contributor: ContributorView {
                            kind: UsageContributorKind::Skill,
                            id: path,
                            label: name,
                        },
                        source_estimated_tokens: text_tokens_i64(text@) as i64,
                    },
                ),
                _ => None,
            },
        },
        _ => None,
    }
}

/// The first input text among `content[i..]` that mentions `<skill>`.
fn first_skill_text_from<'a>(content: &'a Vec<ContentItem>, marker: &Vec<char>) -> (r: Option<&'a String>)
    requires
        marker@ == "<skill>"@,
    ensures
        match r {
            Some(t) => first_skill_text(content@) == Some(*t),
            None => first_skill_text(content@) is None,
        },
{
    let mut i: usize = 0;
    assert(content@.skip(0) == content@);
    while i < content.len()
        invariant
            marker@ == "<skill>"@,
            i <= content@.len(),
            first_skill_text(content@.skip(i as int)) == first_skill_text(content@),
        decreases content@.len() - i,
    {
        assert(content@.skip(i as int)[0] == content@[i as int]);
        assert(content@.skip(i as int).drop_first() == content@.skip(i + 1));
        match &content[i] {
            ContentItem::InputText { text } => {
                let tv = chars_of(text.as_str());
                if contains_chars(&tv, marker) {
                    return Some(text);
                }
            },
            _ => {},
        }
        i = i + 1;
    }
    None
}

/// The skill contributor of one conversation item, if it names a skill.
pub fn skill_contributor(item: &ResponseItem) -> (r: Option<UsagePromptContributor>)
    ensures
        match r {
            Some(c) => skill_contributor_spec(*item) == Some(c@),
            None => skill_contributor_spec(*item) is None,
        },
{
    let content = match item {
        ResponseItem::Message { content, .. } => content,
        _ => return None,
    };
    let marker = chars_of("<skill>");
    let text = match first_skill_text_from(content, &marker) {
        Some(t) => t,
        None => return None,
    };
    let name = match tag_contents(text.as_str(), "name") {
        Some(n) => n,
        None => return None,
    };
    let path = match tag_contents(text.as_str(), "path") {
        Some(p) => p,
        None => return None,
    };
    let tokens = usize_to_i64_saturating(approx_token_count(text.as_str()));
    Some(
        UsagePromptContributor {
            contributor: UsageContributor { kind: UsageContributorKind::Skill, id: path, label: name },
            source_estimated_tokens: tokens,
        },
    )
}

/// The skill contributors of a conversation, in order.
pub open spec fn skill_contributors_spec(input: Seq<ResponseItem>) -> Seq<PromptContributorView>
    decreases input.len(),
{
    if input.len() == 0 {
        seq![]
    } else {
        let prev = skill_contributors_spec(input.drop_last());
        match skill_contributor_spec(input.last()) {
            Some(c) => prev.push(c),
            None => prev,
        }
    }
}

/// The skill contributors of a conversation, in order.
pub fn skill_contributors(input: &[ResponseItem]) -> (r: Vec<UsagePromptContributor>)
    ensures
        prompt_views(r@) == skill_contributors_spec(input@),
{
    let mut r: Vec<UsagePromptContributor> = Vec::new();
    let mut i: usize = 0;
    while i < input.len()
        invariant
            i <= input@.len(),
            prompt_views(r@) == skill_contributors_spec(input@.subrange(0, i as int)),
        decreases input@.len() - i,
    {
        let ghost before = r@;
        assert(input@.subrange(0, i + 1).drop_last() == input@.subrange(0, i as int));
        match skill_contributor(&input[i]) {
            Some(c) => {
                r.push(c);
                assert(prompt_views(r@) == prompt_views(before).push(r@.last()@));
            },
            None => {},
        }
        i = i + 1;
    }
    assert(input@.subrange(0, input@.len() as int) == input@);
    r
}

// ---------------------------------------------------------------------------
// Aggregation
// ---------------------------------------------------------------------------

/// Contributors sort by kind (in declaration order), then id, then label.
pub open spec fn contributor_lt(a: ContributorView, b: ContributorView) -> bool {
    ||| kind_rank(a.kind) < kind_rank(b.kind)
    ||| (kind_rank(a.kind) == kind_rank(b.kind) && seq_lt(a.id, b.id))
    ||| (kind_rank(a.kind) == kind_rank(b.kind) && a.id == b.id && seq_lt(a.label, b.label))
}

/// The contributor order is a strict total order.
pub proof fn lemma_contributor_order(a: ContributorView, b: ContributorView, c: ContributorView)
    ensures
        !contributor_lt(a, a),
        contributor_lt(a, b) ==> !contributor_lt(b, a),
        a != b ==> contributor_lt(a, b) || contributor_lt(b, a),
        contributor_lt(a, b) && contributor_lt(b, c) ==> contributor_lt(a, c),
{
    lemma_seq_lt_irreflexive(a.id);
    lemma_seq_lt_irreflexive(a.label);
    lemma_seq_lt_total(a.id, b.id);
    lemma_seq_lt_total(a.label, b.label);
    if contributor_lt(a, b) && contributor_lt(b, c) {
        if seq_lt(a.id, b.id) && seq_lt(b.id, c.id) {
            lemma_seq_lt_transitive(a.id, b.id, c.id);
        }
        if seq_lt(a.label, b.label) && seq_lt(b.label, c.label) {
            lemma_seq_lt_transitive(a.label, b.label, c.label);
        }
    }
    if a != b && kind_rank(a.kind) == kind_rank(b.kind) && a.id == b.id {
        assert(a.kind == b.kind);
        assert(a.label != b.label);
    }
}

/// The tokens of all entries of `s` for contributor `k`, added up in order
/// with saturation at the bounds of `i64`.
pub open spec fn key_tokens(s: Seq<PromptContributorView>, k: ContributorView) -> int
    decreases s.len(),
{
    if s.len() == 0 {
        0
    } else {
        let prev = key_tokens(s.drop_last(), k);
        if s.last().contributor == k {
            clamp_i64(prev + s.last().source_estimated_tokens)
        } else {
            prev
        }
    }
}

/// Some entry of `s` is for contributor `k`.
pub open spec fn has_contributor(s: Seq<PromptContributorView>, k: ContributorView) -> bool {
    exists|i: int| 0 <= i < s.len() && (#[trigger] s[i]).contributor == k
}

/// `r` holds one entry per contributor of `input`, sorted by contributor, each
/// with the saturating sum of that contributor's tokens.
pub open spec fn is_aggregation_of(
    r: Seq<PromptContributorView>,
    input: Seq<PromptContributorView>,
) -> bool {
    &&& forall|i: int, j: int|
        #![trigger r[i], r[j]]
        0 <= i < j < r.len() ==> contributor_lt(r[i].contributor, r[j].contributor)
    &&& forall|i: int|
        #![trigger r[i]]
        0 <= i < r.len() ==> has_contributor(input, r[i].contributor)
            && r[i].source_estimated_tokens == key_tokens(input, r[i].contributor)
    &&& forall|j: int| #![trigger input[j]] 0 <= j < input.len() ==> has_contributor(r, input[j].contributor)
}

/// A contributor without entries has no tokens.
proof fn lemma_key_tokens_absent(s: Seq<PromptContributorView>, k: ContributorView)
    requires
        !has_contributor(s, k),
    ensures
        key_tokens(s, k) == 0,
    decreases s.len(),
{
    if s.len() > 0 {
        assert(s.drop_last().len() < s.len());
        if has_contributor(s.drop_last(), k) {
            let i = choose|i: int| 0 <= i < s.drop_last().len() && (#[trigger] s.drop_last()[i]).contributor == k;
            assert(s[i] == s.drop_last()[i]);
        }
        assert(s[s.len() - 1] == s.last());
        lemma_key_tokens_absent(s.drop_last(), k);
    }
}

/// Every contributor of `s` is a contributor of `s.push(x)`.
proof fn lemma_has_contributor_push(s: Seq<PromptContributorView>, x: PromptContributorView)
    ensures
        forall|k: ContributorView| has_contributor(s, k) ==> #[trigger] has_contributor(s.push(x), k),
        has_contributor(s.push(x), x.contributor),
        s.push(x).drop_last() == s,
{
    assert(s.push(x).drop_last() == s);
    assert forall|k: ContributorView| has_contributor(s, k) implies #[trigger] has_contributor(s.push(x), k) by {
        let i = choose|i: int| 0 <= i < s.len() && (#[trigger] s[i]).contributor == k;
        assert(s.push(x)[i] == s[i]);
    }
    assert(s.push(x)[s.len() as int] == x);
}

/// Adding an entry for a contributor that is already aggregated at `pos`.
proof fn lemma_merge_step(
    agg: Seq<PromptContributorView>,
    s: Seq<PromptContributorView>,
    x: PromptContributorView,
    pos: int,
)
    requires
        is_aggregation_of(agg, s),
        0 <= pos < agg.len(),
        agg[pos].contributor == x.contributor,
    ensures
        is_aggregation_of(
            agg.update(
                pos,
                PromptContributorView {
                    contributor: x.contributor,
                    source_estimated_tokens: clamp_i64(
                        agg[pos].source_estimated_tokens + x.source_estimated_tokens,
                    ) as i64,
                },
            ),
            s.push(x),
        ),
{
    let s2 = s.push(x);
    let merged = PromptContributorView {
        contributor: x.contributor,
        source_estimated_tokens: clamp_i64(agg[pos].source_estimated_tokens + x.source_estimated_tokens) as i64,
    };
    let new_agg = agg.update(pos, merged);
    lemma_has_contributor_push(s, x);
    assert forall|i: int, j: int| #![trigger new_agg[i], new_agg[j]] 0 <= i < j < new_agg.len() implies contributor_lt(
        new_agg[i].contributor,
        new_agg[j].contributor,
    ) by {
        assert(contributor_lt(agg[i].contributor, agg[j].contributor));
    }
    assert forall|i: int| #![trigger new_agg[i]] 0 <= i < new_agg.len() implies has_contributor(s2, new_agg[i].contributor)
        && new_agg[i].source_estimated_tokens == key_tokens(s2, new_agg[i].contributor) by {
        if i != pos {
            if i < pos {
                assert(contributor_lt(agg[i].contributor, agg[pos].contributor));
            } else {
                assert(contributor_lt(agg[pos].contributor, agg[i].contributor));
            }
            lemma_contributor_order(agg[i].contributor, x.contributor, x.contributor);
            assert(agg[i] == new_agg[i]);
        }
    }
    assert forall|j: int| #![trigger s2[j]] 0 <= j < s2.len() implies has_contributor(new_agg, s2[j].contributor) by {
        if j < s.len() {
            assert(s2[j] == s[j]);
            let i = choose|i: int| 0 <= i < agg.len() && (#[trigger] agg[i]).contributor == s[j].contributor;
            assert(new_agg[i].contributor == agg[i].contributor);
        } else {
            assert(new_agg[pos].contributor == x.contributor);
        }
    }
}

/// Adding an entry for a contributor that is not aggregated yet, at the
/// position that keeps the order.
proof fn lemma_insert_step(
    agg: Seq<PromptContributorView>,
    s: Seq<PromptContributorView>,
    x: PromptContributorView,
    pos: int,
)
    requires
        is_aggregation_of(agg, s),
        0 <= pos <= agg.len(),
        forall|i: int| #![trigger agg[i]] 0 <= i < pos ==> contributor_lt(agg[i].contributor, x.contributor),
        forall|i: int| #![trigger agg[i]] pos <= i < agg.len() ==> contributor_lt(x.contributor, agg[i].contributor),
    ensures
        is_aggregation_of(agg.insert(pos, x), s.push(x)),
{
    let s2 = s.push(x);
    let new_agg = agg.insert(pos, x);
    lemma_has_contributor_push(s, x);
    assert forall|i: int| 0 <= i < agg.len() implies (#[trigger] agg[i]).contributor != x.contributor by {
        lemma_contributor_order(agg[i].contributor, x.contributor, x.contributor);
    }
    if has_contributor(s, x.contributor) {
        let j = choose|j: int| 0 <= j < s.len() && (#[trigger] s[j]).contributor == x.contributor;
        assert(has_contributor(agg, s[j].contributor));
        let i = choose|i: int| 0 <= i < agg.len() && (#[trigger] agg[i]).contributor == s[j].contributor;
        assert(false);
    }
    lemma_key_tokens_absent(s, x.contributor);
    assert forall|i: int, j: int| #![trigger new_agg[i], new_agg[j]] 0 <= i < j < new_agg.len() implies contributor_lt(
        new_agg[i].contributor,
        new_agg[j].contributor,
    ) by {
        if j < pos {
            assert(new_agg[i] == agg[i] && new_agg[j] == agg[j]);
        } else if j == pos {
            assert(new_agg[i] == agg[i]);
        } else if i == pos {
            assert(new_agg[j] == agg[j - 1]);
        } else if i < pos {
            assert(new_agg[i] == agg[i] && new_agg[j] == agg[j - 1]);
            lemma_contributor_order(agg[i].contributor, x.contributor, agg[j - 1].contributor);
        } else {
            assert(new_agg[i] == agg[i - 1] && new_agg[j] == agg[j - 1]);
        }
    }
    assert forall|i: int| #![trigger new_agg[i]] 0 <= i < new_agg.len() implies has_contributor(s2, new_agg[i].contributor)
        && new_agg[i].source_estimated_tokens == key_tokens(s2, new_agg[i].contributor) by {
        if i != pos {
            let oi = if i < pos {
                i
            } else {
                i - 1
            };
            assert(new_agg[i] == agg[oi]);
            assert(agg[oi].contributor != x.contributor);
        } else {
            assert(new_agg[i] == x);
        }
    }
    assert forall|j: int| #![trigger s2[j]] 0 <= j < s2.len() implies has_contributor(new_agg, s2[j].contributor) by {
        if j < s.len() {
            assert(s2[j] == s[j]);
            let i = choose|i: int| 0 <= i < agg.len() && (#[trigger] agg[i]).contributor == s[j].contributor;
            if i < pos {
                assert(new_agg[i] == agg[i]);
            } else {
                assert(new_agg[i + 1] == agg[i]);
            }
        } else {
            assert(new_agg[pos] == x);
        }
    }
}

/// Where contributor `k` goes in the sorted `agg`: the first position whose
/// contributor does not sort before `k`, and whether it is `k` itself.
fn find_slot(agg: &Vec<UsagePromptContributor>, k: &UsageContributor) -> (r: (usize, bool))
    requires
        forall|i: int, j: int|
            #![trigger prompt_views(agg@)[i], prompt_views(agg@)[j]]
            0 <= i < j < agg@.len() ==> contributor_lt(
                prompt_views(agg@)[i].contributor,
                prompt_views(agg@)[j].contributor,
            ),
    ensures
        r.0 <= agg@.len(),
        forall|i: int|
            #![trigger prompt_views(agg@)[i]]
            0 <= i < r.0 ==> contributor_lt(prompt_views(agg@)[i].contributor, k@),
        r.1 ==> r.0 < agg@.len() && prompt_views(agg@)[r.0 as int].contributor == k@,
        !r.1 ==> forall|i: int|
            #![trigger prompt_views(agg@)[i]]
            r.0 <= i < agg@.len() ==> contributor_lt(k@, prompt_views(agg@)[i].contributor),
{
    let ghost v = prompt_views(agg@);
    let krank = kind_rank_exec(k.kind);
    let kid = chars_of(k.id.as_str());
    let klabel = chars_of(k.label.as_str());
    let mut i: usize = 0;
    while i < agg.len()
        invariant
            i <= agg@.len(),
            v == prompt_views(agg@),
            krank == kind_rank(k.kind),
            kid@ == k.id@,
            klabel@ == k.label@,
            forall|a: int, b: int|
                #![trigger v[a], v[b]]
                0 <= a < b < agg@.len() ==> contributor_lt(v[a].contributor, v[b].contributor),
            forall|a: int| #![trigger v[a]] 0 <= a < i ==> contributor_lt(v[a].contributor, k@),
        decreases agg@.len() - i,
    {
        let e = &agg[i].contributor;
        assert(v[i as int].contributor == e@);
        let erank = kind_rank_exec(e.kind);
        proof {
            lemma_contributor_order(e@, k@, k@);
            lemma_seq_lt_total(e.id@, k.id@);
            lemma_seq_lt_total(e.label@, k.label@);
        }
        let less = if erank < krank {
            true
        } else if erank > krank {
            false
        } else {
            let eid = chars_of(e.id.as_str());
            match compare_chars(&eid, &kid) {
                Comparison::Less => true,
                Comparison::Greater => false,
                Comparison::Equal => {
                    let elabel = chars_of(e.label.as_str());
                    match compare_chars(&elabel, &klabel) {
                        Comparison::Less => true,
                        Comparison::Equal => {
                            assert(e.kind == k.kind);
                            assert(e@ == k@);
                            return (i, true);
                        },
                        Comparison::Greater => false,
                    }
                },
            }
        };
        if !less {
            assert(contributor_lt(k@, e@));
            assert forall|a: int| #![trigger v[a]] i <= a < agg@.len() implies contributor_lt(
                k@,
                v[a].contributor,
            ) by {
                if a > i {
                    lemma_contributor_order(k@, v[i as int].contributor, v[a].contributor);
                }
            }
            return (i, false);
        }
        i = i + 1;
    }
    (i, false)
}

/// Merges the entries of the same contributor (same kind, id and label) into
/// one, adding their tokens with saturation, and sorts the result by
/// contributor.
pub fn aggregate_contributors(contributors: Vec<UsagePromptContributor>) -> (r: Vec<UsagePromptContributor>)
    ensures
        is_aggregation_of(prompt_views(r@), prompt_views(contributors@)),
{
    let ghost input = prompt_views(contributors@);
    let mut agg: Vec<UsagePromptContributor> = Vec::new();
    let mut n: usize = 0;
    assert(prompt_views(agg@) =~= seq![]);
    while n < contributors.len()
        invariant
            n <= contributors@.len(),
            input == prompt_views(contributors@),
            is_aggregation_of(prompt_views(agg@), input.subrange(0, n as int)),
        decreases contributors@.len() - n,
    {
        let ghost s = input.subrange(0, n as int);
        let ghost old_agg = prompt_views(agg@);
        let c = &contributors[n];
        assert(input.subrange(0, n + 1) == s.push(c@));
        let (pos, found) = find_slot(&agg, &c.contributor);
        if found {
            let old_tokens = agg[pos].source_estimated_tokens;
            let merged = UsagePromptContributor {
                contributor: agg[pos].contributor.clone(),
                source_estimated_tokens: sat_add_i64(old_tokens, c.source_estimated_tokens),
            };
            agg.set(pos, merged);
            proof {
                lemma_merge_step(old_agg, s, c@, pos as int);
            }
            assert(prompt_views(agg@) =~= old_agg.update(pos as int, merged@));
        } else {
            agg.insert(pos, c.clone());
            proof {
                lemma_insert_step(old_agg, s, c@, pos as int);
            }
            assert(prompt_views(agg@) =~= old_agg.insert(pos as int, c@));
        }
        n = n + 1;
    }
    assert(input.subrange(0, contributors@.len() as int) == input);
    agg
}

// ---------------------------------------------------------------------------
// Tools and their results
// ---------------------------------------------------------------------------

/// A tool's name, possibly inside a namespace.
#[derive(Debug, PartialEq, Eq)]
pub struct ToolName {
    pub name: String,
    pub namespace: Option<String>,
}

/// A tool name as values: the namespace and the name.
pub open spec fn tool_name_view(t: ToolName) -> (Option<Seq<char>>, Seq<char>) {
    (opt_view(t.namespace), t.name@)
}

impl ToolName {
    /// A tool name inside an optional namespace.
    pub fn new(namespace: Option<String>, name: String) -> (r: Self)
        ensures
            r.namespace == namespace,
            r.name == name,
    {
        ToolName { name, namespace }
    }

    /// A tool name without a namespace.
    pub fn plain(name: String) -> (r: Self)
        ensures
            r.namespace is None,
            r.name == name,
    {
        ToolName { name, namespace: None }
    }
}

/// The contributors that stand behind one tool.
#[derive(Debug, PartialEq, Eq)]
pub struct ToolUsage {
    pub tool_name: ToolName,
    pub contributors: Vec<UsageContributor>,
}

/// What a tool router knows about usage: the contributors of the tool
/// definitions it shows the model, and the contributors behind each tool.
#[derive(Debug, PartialEq, Eq)]
pub struct ToolRouter {
    pub usage_contributors: Vec<UsagePromptContributor>,
    pub tool_usage: Vec<ToolUsage>,
}

/// The contributors behind the tool of the given name: those of the first
/// entry with that name, or none.
pub open spec fn tool_contributors_spec(
    entries: Seq<ToolUsage>,
    name: (Option<Seq<char>>, Seq<char>),
) -> Seq<ContributorView>
    decreases entries.len(),
{
    if entries.len() == 0 {
        seq![]
    } else if tool_name_view(entries[0].tool_name) == name {
        contributor_views(entries[0].contributors@)
    } else {
        tool_contributors_spec(entries.drop_first(), name)
    }
}

/// A copy of a list of contributors.
pub fn clone_contributors(v: &Vec<UsageContributor>) -> (r: Vec<UsageContributor>)
    ensures
        r@ == v@,
{
    let mut r: Vec<UsageContributor> = Vec::new();
    let mut i: usize = 0;
    while i < v.len()
        invariant
            i <= v@.len(),
            r@ == v@.subrange(0, i as int),
        decreases v@.len() - i,
    {
        r.push(v[i].clone());
        assert(v@.subrange(0, i + 1) == v@.subrange(0, i as int).push(v@[i as int]));
        i = i + 1;
    }
    assert(v@.subrange(0, v@.len() as int) == v@);
    r
}

/// A copy of a list of prompt contributors.
pub fn clone_prompt_contributors(v: &Vec<UsagePromptContributor>) -> (r: Vec<UsagePromptContributor>)
    ensures
        r@ == v@,
{
    let mut r: Vec<UsagePromptContributor> = Vec::new();
    let mut i: usize = 0;
    while i < v.len()
        invariant
            i <= v@.len(),
            r@ == v@.subrange(0, i as int),
        decreases v@.len() - i,
    {
        r.push(v[i].clone());
        assert(v@.subrange(0, i + 1) == v@.subrange(0, i as int).push(v@[i as int]));
        i = i + 1;
    }
    assert(v@.subrange(0, v@.len() as int) == v@);
    r
}

/// Whether two optional strings hold the same text.
fn opt_string_eq(a: &Option<String>, b: &Option<String>) -> (r: bool)
    ensures
        r == (opt_view(*a) == opt_view(*b)),
{
    match (a, b) {
        (Some(x), Some(y)) => *x == *y,
        (None, None) => true,
        _ => false,
    }
}

impl ToolRouter {
    /// A router from the contributors of its visible tool definitions and the
    /// contributors behind each tool.
    pub fn from_parts(usage_contributors: Vec<UsagePromptContributor>, tool_usage: Vec<ToolUsage>) -> (r: Self)
        ensures
            r.usage_contributors == usage_contributors,
            r.tool_usage == tool_usage,
    {
        ToolRouter { usage_contributors, tool_usage }
    }

    /// The contributors of the tool definitions shown to the model.
    pub fn usage_contributors(&self) -> (r: Vec<UsagePromptContributor>)
        ensures
            r@ == self.usage_contributors@,
    {
        clone_prompt_contributors(&self.usage_contributors)
    }

    /// The contributors behind the tool of the given name.
    pub fn usage_contributors_for_tool_name(&self, name: &ToolName) -> (r: Vec<UsageContributor>)
        ensures
            contributor_views(r@) == tool_contributors_spec(self.tool_usage@, tool_name_view(*name)),
    {
        let mut i: usize = 0;
        assert(self.tool_usage@.skip(0) == self.tool_usage@);
        while i < self.tool_usage.len()
            invariant
                i <= self.tool_usage@.len(),
                tool_contributors_spec(self.tool_usage@.skip(i as int), tool_name_view(*name))
                    == tool_contributors_spec(self.tool_usage@, tool_name_view(*name)),
            decreases self.tool_usage@.len() - i,
        {
            let entry = &self.tool_usage[i];
            assert(self.tool_usage@.skip(i as int)[0] == self.tool_usage@[i as int]);
            assert(self.tool_usage@.skip(i as int).drop_first() == self.tool_usage@.skip(i + 1));
            if entry.tool_name.name == name.name && opt_string_eq(
                &entry.tool_name.namespace,
                &name.namespace,
            ) {
                return clone_contributors(&entry.contributors);
            }
            i = i + 1;
        }
        let empty: Vec<UsageContributor> = Vec::new();
        assert(contributor_views(empty@) =~= seq![]);
        empty
    }
}

/// The contributors found for a tool are those of the first entry whose
/// namespace and name both equal the ones asked for; when no entry has that
/// exact namespace and name, there are none. In particular an entry of the
/// same name in another namespace is never taken.
pub proof fn lemma_tool_lookup_matches_namespace_and_name(
    entries: Seq<ToolUsage>,
    namespace: Option<Seq<char>>,
    name: Seq<char>,
)
    ensures
        forall|i: int|
            #![trigger entries[i]]
            0 <= i < entries.len() && opt_view(entries[i].tool_name.namespace) == namespace
                && entries[i].tool_name.name@ == name && (forall|j: int|
                0 <= j < i ==> !(opt_view(#[trigger] entries[j].tool_name.namespace) == namespace
                    && entries[j].tool_name.name@ == name)) ==> tool_contributors_spec(entries, (namespace, name))
                == contributor_views(entries[i].contributors@),
        (forall|j: int|
            0 <= j < entries.len() ==> !(opt_view(#[trigger] entries[j].tool_name.namespace) == namespace
                && entries[j].tool_name.name@ == name)) ==> tool_contributors_spec(entries, (namespace, name))
            == Seq::<ContributorView>::empty(),
    decreases entries.len(),
{
    if entries.len() > 0 {
        let rest = entries.drop_first();
        lemma_tool_lookup_matches_namespace_and_name(rest, namespace, name);
        assert forall|i: int|
            #![trigger entries[i]]
            0 <= i < entries.len() && opt_view(entries[i].tool_name.namespace) == namespace
                && entries[i].tool_name.name@ == name && (forall|j: int|
                0 <= j < i ==> !(opt_view(#[trigger] entries[j].tool_name.namespace) == namespace
                    && entries[j].tool_name.name@ == name)) implies tool_contributors_spec(entries, (namespace, name))
            == contributor_views(entries[i].contributors@) by {
            if i > 0 {
                assert(!(opt_view(entries[0].tool_name.namespace) == namespace && entries[0].tool_name.name@ == name));
                assert(rest[i - 1] == entries[i]);
                assert forall|j: int| 0 <= j < i - 1 implies !(opt_view(#[trigger] rest[j].tool_name.namespace)
                    == namespace && rest[j].tool_name.name@ == name) by {
                    assert(rest[j] == entries[j + 1]);
                }
            }
        }
        if forall|j: int|
            0 <= j < entries.len() ==> !(opt_view(#[trigger] entries[j].tool_name.namespace) == namespace
                && entries[j].tool_name.name@ == name) {
            assert(!(opt_view(entries[0].tool_name.namespace) == namespace && entries[0].tool_name.name@ == name));
            assert forall|j: int| 0 <= j < rest.len() implies !(opt_view(#[trigger] rest[j].tool_name.namespace)
                == namespace && rest[j].tool_name.name@ == name) by {
                assert(rest[j] == entries[j + 1]);
            }
        }
    }
}

/// The call id of a tool call and the contributors behind its tool, when there
/// are any.
pub open spec fn tool_call_spec(item: ResponseItem, router: ToolRouter) -> Option<
    (Seq<char>, Seq<ContributorView>),
> {
    match item {
        ResponseItem::FunctionCall { call_id, name, namespace, .. } => {
            let c = tool_contributors_spec(router.tool_usage@, (opt_view(namespace), name@));
            if c.len() > 0 {
                Some((call_id@, c))
            } else {
                None
            }
        },
        ResponseItem::CustomToolCall { call_id, name, .. } => {
            let c = tool_contributors_spec(router.tool_usage@, (None, name@));
            if c.len() > 0 {
                Some((call_id@, c))
            } else {
                None
            }
        },
        _ => None,
    }
}

/// The contributors of the last tool call in `input` with the given call id.
pub open spec fn call_lookup(input: Seq<ResponseItem>, router: ToolRouter, call_id: Seq<char>) -> Option<
    Seq<ContributorView>,
>
    decreases input.len(),
{
    if input.len() == 0 {
        None
    } else {
        match tool_call_spec(input.last(), router) {
            Some(p) => if p.0 == call_id {
                Some(p.1)
            } else {
                call_lookup(input.drop_last(), router, call_id)
            },
            None => call_lookup(input.drop_last(), router, call_id),
        }
    }
}

/// The entries a tool result adds: one per contributor behind the call it
/// answers, each with the result's own token estimate.
pub open spec fn tool_result_spec(
    item: ResponseItem,
    estimate: i64,
    input: Seq<ResponseItem>,
    router: ToolRouter,
) -> Seq<PromptContributorView> {
    let call_id = match item {
        ResponseItem::FunctionCallOutput { call_id, .. } => Some(call_id@),
        ResponseItem::CustomToolCallOutput { call_id, .. } => Some(call_id@),
        _ => None,
    };
    match call_id {
        Some(id) => match call_lookup(input, router, id) {
            Some(c) => c.map_values(
                |v: ContributorView|
                    PromptContributorView { contributor: v, source_estimated_tokens: estimate },
            ),
            None => seq![],
        },
        None => seq![],
    }
}

/// The entries of the tool results among the first `n` items of `input`, in order.
pub open spec fn tool_results_spec(
    input: Seq<ResponseItem>,
    estimates: Seq<i64>,
    router: ToolRouter,
    n: int,
) -> Seq<PromptContributorView>
    decreases n,
{
    if n <= 0 {
        seq![]
    } else {
        tool_results_spec(input, estimates, router, n - 1) + tool_result_spec(
            input[n - 1],
            estimates[n - 1],
            input,
            router,
        )
    }
}

/// The call id of a tool call and the contributors behind its tool, when there
/// are any.
pub fn tool_call_contributors(item: &ResponseItem, router: &ToolRouter) -> (r: Option<(String, Vec<UsageContributor>)>)
    ensures
        match r {
            Some(p) => tool_call_spec(*item, *router) == Some((p.0@, contributor_views(p.1@))),
            None => tool_call_spec(*item, *router) is None,
        },
{
    let (call_id, tool_name) = match item {
        ResponseItem::FunctionCall { call_id, name, namespace, .. } => (
            call_id,
            ToolName::new(clone_opt_string(namespace), name.clone()),
        ),
        ResponseItem::CustomToolCall { call_id, name, .. } => (call_id, ToolName::plain(name.clone())),
        _ => return None,
    };
    let contributors = router.usage_contributors_for_tool_name(&tool_name);
    if contributors.len() > 0 {
        Some((call_id.clone(), contributors))
    } else {
        None
    }
}

/// The contributors of the last pair with the given call id.
pub open spec fn pairs_lookup(pairs: Seq<(String, Vec<UsageContributor>)>, call_id: Seq<char>) -> Option<
    Seq<ContributorView>,
>
    decreases pairs.len(),
{
    if pairs.len() == 0 {
        None
    } else if pairs.last().0@ == call_id {
        Some(contributor_views(pairs.last().1@))
    } else {
        pairs_lookup(pairs.drop_last(), call_id)
    }
}

/// The contributors of the last pair with the given call id.
fn lookup_call<'a>(pairs: &'a Vec<(String, Vec<UsageContributor>)>, call_id: &String) -> (r: Option<&'a Vec<UsageContributor>>)
    ensures
        match r {
            Some(c) => pairs_lookup(pairs@, call_id@) == Some(contributor_views(c@)),
            None => pairs_lookup(pairs@, call_id@) is None,
        },
{
    let mut i = pairs.len();
    assert(pairs@.subrange(0, i as int) == pairs@);
    while i > 0
        invariant
            i <= pairs@.len(),
            pairs_lookup(pairs@.subrange(0, i as int), call_id@) == pairs_lookup(pairs@, call_id@),
        decreases i,
    {
        let ghost pre = pairs@.subrange(0, i as int);
        assert(pre.last() == pairs@[i - 1]);
        assert(pre.drop_last() == pairs@.subrange(0, i - 1));
        if pairs[i - 1].0 == *call_id {
            return Some(&pairs[i - 1].1);
        }
        i = i - 1;
    }
    None
}

/// The entries one tool result adds: one per contributor behind the last
/// call with its call id, each with the result's token estimate; none for
/// other items or for results of calls without contributors.
fn tool_result_contributor(
    item: &ResponseItem,
    estimate: i64,
    pairs: &Vec<(String, Vec<UsageContributor>)>,
    Ghost(input): Ghost<Seq<ResponseItem>>,
    Ghost(router): Ghost<ToolRouter>,
) -> (r: Vec<UsagePromptContributor>)
    requires
        forall|id: Seq<char>| #[trigger] pairs_lookup(pairs@, id) == call_lookup(input, router, id),
    ensures
        prompt_views(r@) == tool_result_spec(*item, estimate, input, router),
{
    let mut r: Vec<UsagePromptContributor> = Vec::new();
    let call_id = match item {
        ResponseItem::FunctionCallOutput { call_id, .. } => call_id,
        ResponseItem::CustomToolCallOutput { call_id, .. } => call_id,
        _ => {
            assert(prompt_views(r@) =~= seq![]);
            return r;
        },
    };
    let contributors = match lookup_call(pairs, call_id) {
        Some(c) => c,
        None => {
            assert(prompt_views(r@) =~= seq![]);
            return r;
        },
    };
    let mut k: usize = 0;
    while k < contributors.len()
        invariant
            k <= contributors@.len(),
            prompt_views(r@) == contributor_views(contributors@).subrange(0, k as int).map_values(
                |v: ContributorView| PromptContributorView { contributor: v, source_estimated_tokens: estimate },
            ),
        decreases contributors@.len() - k,
    {
        let ghost pv = prompt_views(r@);
        r.push(UsagePromptContributor { contributor: contributors[k].clone(), source_estimated_tokens: estimate });
        assert(prompt_views(r@) == pv.push(r@.last()@));
        assert(contributor_views(contributors@).subrange(0, k + 1) == contributor_views(contributors@).subrange(
            0,
            k as int,
        ).push(contributors@[k as int]@));
        k = k + 1;
    }
    assert(contributor_views(contributors@).subrange(0, contributors@.len() as int) == contributor_views(contributors@));
    r
}

/// The tool-result entries of a conversation: each tool output is attributed
/// to the contributors behind the last tool call with its call id, with the
/// output's own token estimate (`item_tokens[i]` for `input[i]`).
pub fn tool_result_contributors(input: &[ResponseItem], item_tokens: &[i64], router: &ToolRouter) -> (r: Vec<UsagePromptContributor>)
    requires
        item_tokens@.len() == input@.len(),
    ensures
        prompt_views(r@) == tool_results_spec(input@, item_tokens@, *router, input@.len() as int),
{
    let mut pairs: Vec<(String, Vec<UsageContributor>)> = Vec::new();
    let mut i: usize = 0;
    while i < input.len()
        invariant
            i <= input@.len(),
            forall|id: Seq<char>| #[trigger] pairs_lookup(pairs@, id) == call_lookup(input@.subrange(0, i as int), *router, id),
        decreases input@.len() - i,
    {
        let ghost old_pairs = pairs@;
        assert(input@.subrange(0, i + 1).drop_last() == input@.subrange(0, i as int));
        assert(input@.subrange(0, i + 1).last() == input@[i as int]);
        match tool_call_contributors(&input[i], router) {
            Some(p) => {
                pairs.push(p);
                assert(pairs@.drop_last() == old_pairs);
                assert forall|id: Seq<char>| #[trigger] pairs_lookup(pairs@, id) == call_lookup(
                    input@.subrange(0, i + 1),
                    *router,
                    id,
                ) by {
                    assert(pairs_lookup(old_pairs, id) == call_lookup(input@.subrange(0, i as int), *router, id));
                }
            },
            None => {
                assert forall|id: Seq<char>| #[trigger] pairs_lookup(pairs@, id) == call_lookup(
                    input@.subrange(0, i + 1),
                    *router,
                    id,
                ) by {
                    assert(pairs_lookup(old_pairs, id) == call_lookup(input@.subrange(0, i as int), *router, id));
                }
            },
        }
        i = i + 1;
    }
    assert(input@.subrange(0, input@.len() as int) == input@);
    let mut r: Vec<UsagePromptContributor> = Vec::new();
    let mut j: usize = 0;
    while j < input.len()
        invariant
            j <= input@.len(),
            item_tokens@.len() == input@.len(),
            forall|id: Seq<char>| #[trigger] pairs_lookup(pairs@, id) == call_lookup(input@, *router, id),
            prompt_views(r@) == tool_results_spec(input@, item_tokens@, *router, j as int),
        decreases input@.len() - j,
    {
        let ghost before = prompt_views(r@);
        let mut found = tool_result_contributor(&input[j], item_tokens[j], &pairs, Ghost(input@), Ghost(*router));
        r.append(&mut found);
        assert(prompt_views(r@) =~= before + tool_result_spec(input@[j as int], item_tokens@[j as int], input@, *router));
        assert(tool_results_spec(input@, item_tokens@, *router, j + 1) == tool_results_spec(input@, item_tokens@, *router, j as int) + tool_result_spec(input@[j as int], item_tokens@[j as int], input@, *router));
        assert(prompt_views(r@) =~= tool_results_spec(input@, item_tokens@, *router, j + 1));
        j = j + 1;
    }
    r
}

// ---------------------------------------------------------------------------
// Prompts and responses
// ---------------------------------------------------------------------------

/// The saturating sum of `s`, added from the left starting at zero.
pub open spec fn saturating_sum(s: Seq<i64>) -> int
    decreases s.len(),
{
    if s.len() == 0 {
        0
    } else {
        clamp_i64(saturating_sum(s.drop_last()) + s.last())
    }
}

/// The saturating sum of `s`, added from the left starting at zero.
pub fn saturating_sum_exec(s: &[i64]) -> (r: i64)
    ensures
        r == saturating_sum(s@),
{
    let mut acc: i64 = 0;
    let mut i: usize = 0;
    while i < s.len()
        invariant
            i <= s@.len(),
            acc == saturating_sum(s@.subrange(0, i as int)),
        decreases s@.len() - i,
    {
        assert(s@.subrange(0, i + 1).drop_last() == s@.subrange(0, i as int));
        acc = sat_add_i64(acc, s[i]);
        i = i + 1;
    }
    assert(s@.subrange(0, s@.len() as int) == s@);
    acc
}

/// The entries of a completed response: every prompt contributor with its
/// share of the non-cached input, keeping only those with a positive share,
/// in order.
pub open spec fn completed_spec(
    cs: Seq<PromptContributorView>,
    non_cached_input: i64,
    prompt_tokens: i64,
) -> Seq<AttributionContributorView>
    decreases cs.len(),
{
    if cs.len() == 0 {
        seq![]
    } else {
        let prev = completed_spec(cs.drop_last(), non_cached_input, prompt_tokens);
        let c = cs.last();
        let a = attributable_spec(non_cached_input, c.source_estimated_tokens, prompt_tokens);
        if a > 0 {
            prev.push(
                AttributionContributorView {
                    contributor: c.contributor,
                    source_estimated_tokens: c.source_estimated_tokens,
                    attributed_tokens: a as i64,
                },
            )
        } else {
            prev
        }
    }
}

/// The views of a sequence of attributed contributors.
pub open spec fn attribution_views(s: Seq<UsageAttributionContributor>) -> Seq<AttributionContributorView> {
    s.map_values(|c: UsageAttributionContributor| c@)
}

/// The estimated prompt tokens: those of the base instructions, of the input
/// items and of the visible tool definitions, added with saturation.
pub open spec fn prompt_tokens_spec(base: Seq<char>, item_tokens: Seq<i64>, tool_spec_tokens: Seq<i64>) -> int {
    clamp_i64(clamp_i64(text_tokens_i64(base) + saturating_sum(item_tokens)) + saturating_sum(tool_spec_tokens))
}

impl UsagePromptAttribution {
    /// The attribution of a prompt built from the base instructions, the
    /// conversation `input` and the tools of `router`. `item_tokens[i]` is
    /// the token estimate of `input[i]` serialized, and `tool_spec_tokens`
    /// those of the tool definitions shown to the model. The contributors
    /// are the skills the input names, the tool-definition contributors of
    /// the router and the tool results of the input, merged per contributor.
    pub fn from_prompt(
        input: &[ResponseItem],
        item_tokens: &[i64],
        router: &ToolRouter,
        tool_spec_tokens: &[i64],
        base_instructions: &str,
    ) -> (r: Self)
        requires
            item_tokens@.len() == input@.len(),
        ensures
            r.prompt_estimated_tokens == prompt_tokens_spec(base_instructions@, item_tokens@, tool_spec_tokens@),
            is_aggregation_of(
                prompt_views(r.contributors@),
                skill_contributors_spec(input@) + prompt_views(router.usage_contributors@)
                    + tool_results_spec(input@, item_tokens@, *router, input@.len() as int),
            ),
    {
        let mut contributors = skill_contributors(input);
        let ghost skills = prompt_views(contributors@);
        let mut from_router = router.usage_contributors();
        contributors.append(&mut from_router);
        let ghost with_router = prompt_views(contributors@);
        assert(with_router == skills + prompt_views(router.usage_contributors@));
        let mut from_results = tool_result_contributors(input, item_tokens, router);
        let ghost results = prompt_views(from_results@);
        contributors.append(&mut from_results);
        assert(prompt_views(contributors@) == with_router + results);
        let input_tokens = saturating_sum_exec(item_tokens);
        let tool_tokens = saturating_sum_exec(tool_spec_tokens);
        let base_tokens = usize_to_i64_saturating(approx_token_count(base_instructions));
        UsagePromptAttribution {
            prompt_estimated_tokens: sat_add_i64(sat_add_i64(base_tokens, input_tokens), tool_tokens),
            contributors: aggregate_contributors(contributors),
        }
    }

    /// The attribution of one model response: each contributor gets its share
    /// of the response's non-cached input tokens, in proportion to its
    /// tokens in the prompt; contributors whose share is zero are left out.
    pub fn complete(
        &self,
        sample_id: String,
        turn_id: String,
        response_id: String,
        occurred_at: i64,
        token_usage: TokenUsage,
    ) -> (r: UsageAttributionItem)
        ensures
            r.sample_id == sample_id,
            r.turn_id == turn_id,
            r.response_id == response_id,
            r.occurred_at == occurred_at,
            r.token_usage == token_usage,
            r.prompt_estimated_tokens == self.prompt_estimated_tokens,
            attribution_views(r.contributors@) == completed_spec(
                prompt_views(self.contributors@),
                non_cached_input_spec(token_usage),
                self.prompt_estimated_tokens,
            ),
    {
        let non_cached_input = token_usage.non_cached_input();
        let mut contributors: Vec<UsageAttributionContributor> = Vec::new();
        let mut i: usize = 0;
        while i < self.contributors.len()
            invariant
                i <= self.contributors@.len(),
                non_cached_input == non_cached_input_spec(token_usage),
                attribution_views(contributors@) == completed_spec(
                    prompt_views(self.contributors@).subrange(0, i as int),
                    non_cached_input,
                    self.prompt_estimated_tokens,
                ),
            decreases self.contributors@.len() - i,
        {
            let c = &self.contributors[i];
            let ghost pv = prompt_views(self.contributors@);
            assert(pv.subrange(0, i + 1).drop_last() == pv.subrange(0, i as int));
            assert(pv.subrange(0, i + 1).last() == c@);
            let attributed = attributable_tokens(
                non_cached_input,
                c.source_estimated_tokens,
                self.prompt_estimated_tokens,
            );
            if attributed > 0 {
                let ghost before = attribution_views(contributors@);
                contributors.push(
                    UsageAttributionContributor {
                        contributor: c.contributor.clone(),
                        source_estimated_tokens: c.source_estimated_tokens,
                        attributed_tokens: attributed,
                    },
                );
                assert(attribution_views(contributors@) == before.push(contributors@.last()@));
            }
            i = i + 1;
        }
        assert(prompt_views(self.contributors@).subrange(0, self.contributors@.len() as int)
            == prompt_views(self.contributors@));
        UsageAttributionItem {
            sample_id,
            turn_id,
            response_id,
            occurred_at,
            token_usage,
            prompt_estimated_tokens: self.prompt_estimated_tokens,
            contributors,
        }
    }
}

/// Every contributor of a completed response got a positive share, and none
/// got more than the response's non-cached input when its prompt tokens are
/// no more than the prompt's estimate.
pub proof fn lemma_completed_shares_positive_and_bounded(
    cs: Seq<PromptContributorView>,
    non_cached_input: i64,
    prompt_tokens: i64,
)
    requires
        forall|i: int| #![trigger cs[i]] 0 <= i < cs.len() ==> cs[i].source_estimated_tokens <= prompt_tokens,
    ensures
        forall|i: int|
            #![trigger completed_spec(cs, non_cached_input, prompt_tokens)[i]]
            0 <= i < completed_spec(cs, non_cached_input, prompt_tokens).len() ==> {
                let a = completed_spec(cs, non_cached_input, prompt_tokens)[i].attributed_tokens;
                0 < a <= non_cached_input
            },
        completed_spec(cs, non_cached_input, prompt_tokens).len() <= cs.len(),
    decreases cs.len(),
{
    if cs.len() > 0 {
        let prev = cs.drop_last();
        assert forall|i: int| #![trigger prev[i]] 0 <= i < prev.len() implies prev[i].source_estimated_tokens <= prompt_tokens by {
            assert(prev[i] == cs[i]);
        }
        lemma_completed_shares_positive_and_bounded(prev, non_cached_input, prompt_tokens);
        assert(cs.last() == cs[cs.len() - 1]);
        lemma_attribution_bounded(non_cached_input, cs.last().source_estimated_tokens, prompt_tokens);
        let p = completed_spec(prev, non_cached_input, prompt_tokens);
        let r = completed_spec(cs, non_cached_input, prompt_tokens);
        assert forall|i: int| #![trigger r[i]] 0 <= i < r.len() implies 0 < r[i].attributed_tokens <= non_cached_input by {
            if i < p.len() {
                assert(r[i] == p[i]);
            }
        }
    }
}

} // verus!
