//! The conversation tail that a standalone web search sees: the previous user
//! text message, up to a budget of assistant text that followed it, and the
//! current user text message.
use crate::models::{ContentItem, ResponseItem, ResponseItemView, clone_opt_string, items_view};
use crate::text::{approx_token_count, approx_tokens, str_byte_len, str_eq};
use vstd::prelude::*;

verus! {

/// The most assistant text, in estimated tokens, that the tail keeps.
pub const ASSISTANT_CONTEXT_TOKEN_LIMIT: usize = 1000;

/// The input handed to a web search.
#[derive(Debug, PartialEq, Eq)]
pub enum SearchInput {
    Items(Vec<ResponseItem>),
}

/// The input text items of a message's content, in order.
pub open spec fn input_texts(content: Seq<ContentItem>) -> Seq<ContentItem>
    decreases content.len(),
{
    if content.len() == 0 {
        seq![]
    } else {
        let prev = input_texts(content.drop_last());
        if content.last() is InputText {
            prev.push(content.last())
        } else {
            prev
        }
    }
}

/// A message from the given role.
pub open spec fn is_role(item: ResponseItemView, role: Seq<char>) -> bool {
    item is Message && item->Message_role@ == role
}

/// A message from the user.
pub open spec fn is_user_message(item: ResponseItemView) -> bool {
    is_role(item, "user"@)
}

/// A message from the assistant.
pub open spec fn is_assistant_message(item: ResponseItemView) -> bool {
    is_role(item, "assistant"@)
}

/// What one conversation item contributes to the visible messages: an
/// assistant message as it is, a user message with only its input texts
/// (nothing if it has none), and nothing for anything else.
pub open spec fn visible_message(item: ResponseItemView) -> Option<ResponseItemView> {
    if is_assistant_message(item) {
        Some(item)
    } else if is_user_message(item) {
        let texts = input_texts(item->Message_content);
        if texts.len() > 0 {
            Some(
                ResponseItemView::Message {
                    id: item->Message_id,
                    role: item->Message_role,
                    content: texts,
                    phase: item->Message_phase,
                },
            )
        } else {
            None
        }
    } else {
        None
    }
}

/// Whether a content item is an input text.
pub open spec fn input_text_item() -> spec_fn(ContentItem) -> bool {
    |c: ContentItem| c is InputText
}

/// A user message's input texts are all its `InputText` items, in order, and
/// nothing else.
pub proof fn lemma_input_texts_are_all_input_text_items(content: Seq<ContentItem>)
    ensures
        input_texts(content) == content.filter(input_text_item()),
    decreases content.len(),
{
    reveal(Seq::filter);
    if content.len() > 0 {
        lemma_input_texts_are_all_input_text_items(content.drop_last());
    }
}

/// What a conversation item shows a web search: an assistant message as it
/// is; a user message with exactly its `InputText` items, in order, keeping
/// its id, role and phase, or nothing when it has none; nothing for any other
/// item.
pub proof fn lemma_visible_message_keeps_input_texts(item: ResponseItemView)
    ensures
        (item is Message && item->Message_role@ == "assistant"@) ==> visible_message(item) == Some(item),
        (item is Message && item->Message_role@ == "user"@) ==> {
            let texts = item->Message_content.filter(input_text_item());
            visible_message(item) == if texts.len() > 0 {
                Some(
                    ResponseItemView::Message {
                        id: item->Message_id,
                        role: item->Message_role,
                        content: texts,
                        phase: item->Message_phase,
                    },
                )
            } else {
                None
            }
        },
        !(item is Message && (item->Message_role@ == "assistant"@ || item->Message_role@ == "user"@))
            ==> visible_message(item) is None,
{
    reveal_strlit("user");
    reveal_strlit("assistant");
    assert("user"@[0] != "assistant"@[0]);
    if item is Message {
        lemma_input_texts_are_all_input_text_items(item->Message_content);
    }
}

/// The visible messages of a conversation, in order.
pub open spec fn visible_messages(items: Seq<ResponseItemView>) -> Seq<ResponseItemView>
    decreases items.len(),
{
    if items.len() == 0 {
        seq![]
    } else {
        let prev = visible_messages(items.drop_last());
        match visible_message(items.last()) {
            Some(m) => prev.push(m),
            None => prev,
        }
    }
}

/// Whether a conversation item is a message from the given role.
fn has_role(item: &ResponseItem, role: &str) -> (r: bool)
    ensures
        r == is_role(item@, role@),
{
    match item {
        ResponseItem::Message { role: r, .. } => str_eq(r.as_str(), role),
        _ => false,
    }
}

/// Whether a conversation item is a message from the user.
pub fn is_user_message_exec(item: &ResponseItem) -> (r: bool)
    ensures
        r == is_user_message(item@),
{
    has_role(item, "user")
}

/// Adds what `item` contributes to the visible messages.
pub fn push_visible_message(messages: &mut Vec<ResponseItem>, item: &ResponseItem)
    ensures
        items_view(final(messages)@) == match visible_message(item@) {
            Some(m) => items_view(old(messages)@).push(m),
            None => items_view(old(messages)@),
        },
{
    let ghost before = items_view(messages@);
    if has_role(item, "assistant") {
        messages.push(item.clone());
        assert(items_view(messages@) == before.push(item@));
        return;
    }
    if !has_role(item, "user") {
        return;
    }
    match item {
        ResponseItem::Message { id, role, content, phase } => {
            let mut texts: Vec<ContentItem> = Vec::new();
            let mut i: usize = 0;
            while i < content.len()
                invariant
                    i <= content@.len(),
                    texts@ == input_texts(content@.subrange(0, i as int)),
                decreases content@.len() - i,
            {
                assert(content@.subrange(0, i + 1).drop_last() == content@.subrange(0, i as int));
                assert(content@.subrange(0, i + 1).last() == content@[i as int]);
                match &content[i] {
                    ContentItem::InputText { .. } => {
                        texts.push(content[i].clone());
                    },
                    _ => {},
                }
                i = i + 1;
            }
            assert(content@.subrange(0, content@.len() as int) == content@);
            if texts.len() > 0 {
                let m = ResponseItem::Message {
                    id: clone_opt_string(id),
                    role: role.clone(),
                    content: texts,
                    phase: clone_opt_string(phase),
                };
                messages.push(m);
                assert(items_view(messages@) == before.push(messages@.last()@));
            }
        },
        _ => {},
    }
}

/// The index of the last user message among the first `n` items.
pub open spec fn last_user_before(s: Seq<ResponseItemView>, n: int) -> Option<int>
    decreases n,
{
    if n <= 0 {
        None
    } else if is_user_message(s[n - 1]) {
        Some(n - 1)
    } else {
        last_user_before(s, n - 1)
    }
}

/// The tail from the previous user message (or the current one, if there is
/// no previous one) through the current, that is the last, user message;
/// nothing when there is no user message.
pub open spec fn keep_spec(s: Seq<ResponseItemView>) -> Seq<ResponseItemView> {
    match last_user_before(s, s.len() as int) {
        None => seq![],
        Some(cur) => {
            let prev = match last_user_before(s, cur) {
                Some(p) => p,
                None => cur,
            };
            s.subrange(prev, cur + 1)
        },
    }
}

/// A found user message lies within bounds.
proof fn lemma_last_user_bounds(s: Seq<ResponseItemView>, n: int)
    requires
        n <= s.len(),
    ensures
        last_user_before(s, n) matches Some(i) ==> 0 <= i < n && is_user_message(s[i]),
        forall|j: int| #![trigger s[j]]
            (match last_user_before(s, n) {
                Some(i) => i < j,
                None => 0 <= j,
            }) && j < n ==> !is_user_message(s[j]),
    decreases n,
{
    if n > 0 {
        lemma_last_user_bounds(s, n - 1);
    }
}

/// The index of the last user message among the first `n` messages.
fn rposition_user(messages: &Vec<ResponseItem>, n: usize) -> (r: Option<usize>)
    requires
        n <= messages@.len(),
    ensures
        match r {
            Some(i) => last_user_before(items_view(messages@), n as int) == Some(i as int),
            None => last_user_before(items_view(messages@), n as int) is None,
        },
{
    let ghost v = items_view(messages@);
    let mut k = n;
    while k > 0
        invariant
            k <= n <= messages@.len(),
            v == items_view(messages@),
            last_user_before(v, k as int) == last_user_before(v, n as int),
        decreases k,
    {
        assert(v[k - 1] == messages@[k - 1]@);
        if is_user_message_exec(&messages[k - 1]) {
            return Some(k - 1);
        }
        k = k - 1;
    }
    None
}

/// Keeps the tail from the previous user message through the current one.
pub fn keep_current_and_previous_turn(messages: Vec<ResponseItem>) -> (r: Vec<ResponseItem>)
    ensures
        items_view(r@) == keep_spec(items_view(messages@)),
{
    let mut messages = messages;
    let ghost v = items_view(messages@);
    let current_user_idx = match rposition_user(&messages, messages.len()) {
        Some(i) => i,
        None => {
            let empty: Vec<ResponseItem> = Vec::new();
            assert(items_view(empty@) =~= seq![]);
            return empty;
        },
    };
    proof {
        lemma_last_user_bounds(v, v.len() as int);
    }
    messages.truncate(current_user_idx + 1);
    let previous_user_idx = match rposition_user(&messages, current_user_idx) {
        Some(p) => p,
        None => current_user_idx,
    };
    let ghost w = items_view(messages@);
    assert(w == v.subrange(0, current_user_idx + 1));
    assert forall|k: int| 0 <= k <= current_user_idx implies last_user_before(w, k) == last_user_before(v, k) by {
        lemma_last_user_prefix(v, current_user_idx + 1, k);
    }
    proof {
        lemma_last_user_bounds(v, current_user_idx as int);
    }
    let tail = messages.split_off(previous_user_idx);
    assert(items_view(tail@) =~= v.subrange(previous_user_idx as int, current_user_idx + 1));
    tail
}

/// Searching a prefix long enough gives the same answer.
proof fn lemma_last_user_prefix(s: Seq<ResponseItemView>, m: int, k: int)
    requires
        0 <= k <= m <= s.len(),
    ensures
        last_user_before(s.subrange(0, m), k) == last_user_before(s, k),
    decreases k,
{
    if k > 0 {
        assert(s.subrange(0, m)[k - 1] == s[k - 1]);
        lemma_last_user_prefix(s, m, k - 1);
    }
}

/// What the assistant-text budget does to one content item.
#[derive(Debug, Clone, Copy, PartialEq, Eq, Structural)]
pub enum CapAction {
    /// The item stays as it is.
    Keep,
    /// The item's text is cut down to the given number of tokens.
    Truncate(usize),
    /// The item is dropped.
    Drop,
}

/// The action on one content item with `budget` tokens left, and the budget
/// after it: output text is dropped once the budget is spent, kept while it
/// fits, and otherwise cut to the remaining budget, which spends it; other
/// items are kept and cost nothing.
pub open spec fn content_step(c: ContentItem, budget: nat) -> (CapAction, nat) {
    match c {
        ContentItem::OutputText { text } => {
            let n = approx_tokens(str_byte_len(text@) as nat);
            if budget == 0 {
                (CapAction::Drop, 0)
            } else if n <= budget {
                (CapAction::Keep, (budget - n) as nat)
            } else {
                (CapAction::Truncate(budget as usize), 0)
            }
        },
        _ => (CapAction::Keep, budget),
    }
}

/// The budget left before content item `i`.
pub open spec fn budget_at(ins: Seq<ContentItem>, budget: nat, i: int) -> nat
    decreases i,
{
    if i <= 0 {
        budget
    } else {
        content_step(ins[i - 1], budget_at(ins, budget, i - 1)).1
    }
}

/// The action on content item `i`.
pub open spec fn action_at(ins: Seq<ContentItem>, budget: nat, i: int) -> CapAction {
    content_step(ins[i], budget_at(ins, budget, i)).0
}

/// How many of the first `i` content items stay.
pub open spec fn kept_at(ins: Seq<ContentItem>, budget: nat, i: int) -> nat
    decreases i,
{
    if i <= 0 {
        0
    } else {
        kept_at(ins, budget, i - 1) + if action_at(ins, budget, i - 1) is Drop {
            0nat
        } else {
            1nat
        }
    }
}

/// `outs` is `ins` with the budget applied: the items that stay, in order,
/// unchanged or, when cut, with the text `truncate` gave for them.
pub open spec fn contents_capped<F: Fn(&String, usize) -> String>(
    truncate: F,
    ins: Seq<ContentItem>,
    outs: Seq<ContentItem>,
    budget: nat,
) -> bool {
    &&& outs.len() == kept_at(ins, budget, ins.len() as int)
    &&& forall|i: int|
        #![trigger ins[i]]
        0 <= i < ins.len() ==> match action_at(ins, budget, i) {
            CapAction::Drop => true,
            CapAction::Keep => outs[kept_at(ins, budget, i) as int] == ins[i],
            CapAction::Truncate(n) => {
                let o = outs[kept_at(ins, budget, i) as int];
                &&& o is OutputText
                &&& call_ensures(truncate, (&ins[i]->OutputText_text, n), o->OutputText_text)
            },
        }
}

/// The budget left before message `i`: only assistant messages spend it.
pub open spec fn message_budget_at(ms: Seq<ResponseItemView>, budget: nat, i: int) -> nat
    decreases i,
{
    if i <= 0 {
        budget
    } else {
        let b = message_budget_at(ms, budget, i - 1);
        if is_assistant_message(ms[i - 1]) {
            let c = ms[i - 1]->Message_content;
            budget_at(c, b, c.len() as int)
        } else {
            b
        }
    }
}

/// Whether message `i` stays: every message but an assistant message all of
/// whose content is dropped.
pub open spec fn message_stays(ms: Seq<ResponseItemView>, budget: nat, i: int) -> bool {
    !is_assistant_message(ms[i]) || {
        let c = ms[i]->Message_content;
        kept_at(c, message_budget_at(ms, budget, i), c.len() as int) > 0
    }
}

/// How many of the first `i` messages stay.
pub open spec fn messages_kept_at(ms: Seq<ResponseItemView>, budget: nat, i: int) -> nat
    decreases i,
{
    if i <= 0 {
        0
    } else {
        messages_kept_at(ms, budget, i - 1) + if message_stays(ms, budget, i - 1) {
            1nat
        } else {
            0nat
        }
    }
}

/// `outs` is `ms` with the assistant-text budget applied across the assistant
/// messages in order: other messages stay as they are, and an assistant
/// message keeps its id, role and phase with its content capped, or goes
/// when nothing of its content stays.
pub open spec fn messages_capped<F: Fn(&String, usize) -> String>(
    truncate: F,
    ms: Seq<ResponseItemView>,
    outs: Seq<ResponseItemView>,
    budget: nat,
) -> bool {
    &&& outs.len() == messages_kept_at(ms, budget, ms.len() as int)
    &&& forall|i: int|
        #![trigger ms[i]]
        0 <= i < ms.len() && message_stays(ms, budget, i) ==> {
            let o = outs[messages_kept_at(ms, budget, i) as int];
            if is_assistant_message(ms[i]) {
                &&& o is Message
                &&& o->Message_id == ms[i]->Message_id
                &&& o->Message_role == ms[i]->Message_role
                &&& o->Message_phase == ms[i]->Message_phase
                &&& contents_capped(
                    truncate,
                    ms[i]->Message_content,
                    o->Message_content,
                    message_budget_at(ms, budget, i),
                )
            } else {
                o == ms[i]
            }
        }
}

/// Applies the budget to the content of one assistant message, returning the
/// content that stays and the budget left.
#[verifier::rlimit(80)]
fn cap_contents<F: Fn(&String, usize) -> String>(
    content: &Vec<ContentItem>,
    budget: usize,
    truncate: &F,
) -> (r: (Vec<ContentItem>, usize))
    requires
        forall|t: &String, n: usize| call_requires(*truncate, (t, n)),
    ensures
        contents_capped(*truncate, content@, r.0@, budget as nat),
        r.1 == budget_at(content@, budget as nat, content@.len() as int),
{
    let mut out: Vec<ContentItem> = Vec::new();
    let mut remaining = budget;
    let mut i: usize = 0;
    while i < content.len()
        invariant
            i <= content@.len(),
            forall|t: &String, n: usize| call_requires(*truncate, (t, n)),
            remaining == budget_at(content@, budget as nat, i as int),
            out@.len() == kept_at(content@, budget as nat, i as int),
            forall|j: int|
                #![trigger content@[j]]
                0 <= j < i ==> match action_at(content@, budget as nat, j) {
                    CapAction::Drop => true,
                    CapAction::Keep => out@[kept_at(content@, budget as nat, j) as int] == content@[j],
                    CapAction::Truncate(n) => {
                        let o = out@[kept_at(content@, budget as nat, j) as int];
                        &&& o is OutputText
                        &&& call_ensures(*truncate, (&content@[j]->OutputText_text, n), o->OutputText_text)
                    },
                },
        decreases content@.len() - i,
    {
        let ghost before = out@;
        let item = &content[i];
        match item {
            ContentItem::OutputText { text } => {
                if remaining == 0 {
                } else {
                    let token_count = approx_token_count(text.as_str());
                    if token_count <= remaining {
                        remaining = remaining - token_count;
                        out.push(item.clone());
                    } else {
                        let cut = truncate(text, remaining);
                        out.push(ContentItem::OutputText { text: cut });
                        remaining = 0;
                    }
                }
            },
            _ => {
                out.push(item.clone());
            },
        }
        assert forall|j: int|
            #![trigger content@[j]]
            0 <= j < i ==> match action_at(content@, budget as nat, j) {
                CapAction::Drop => true,
                CapAction::Keep => out@[kept_at(content@, budget as nat, j) as int] == content@[j],
                CapAction::Truncate(n) => {
                    let o = out@[kept_at(content@, budget as nat, j) as int];
                    &&& o is OutputText
                    &&& call_ensures(*truncate, (&content@[j]->OutputText_text, n), o->OutputText_text)
                },
            } by {
            if 0 <= j < i {
                lemma_kept_at_monotone(content@, budget as nat, j + 1, i as int);
                if !(action_at(content@, budget as nat, j) is Drop) {
                    assert(out@[kept_at(content@, budget as nat, j) as int] == before[kept_at(
                        content@,
                        budget as nat,
                        j,
                    ) as int]);
                }
            }
        }
        i = i + 1;
    }
    (out, remaining)
}

/// Counting kept items never goes down.
proof fn lemma_kept_at_monotone(ins: Seq<ContentItem>, budget: nat, a: int, b: int)
    requires
        a <= b,
    ensures
        kept_at(ins, budget, a) <= kept_at(ins, budget, b),
    decreases b - a,
{
    if a < b {
        lemma_kept_at_monotone(ins, budget, a, b - 1);
    }
}

/// Counting kept messages never goes down.
proof fn lemma_messages_kept_monotone(ms: Seq<ResponseItemView>, budget: nat, a: int, b: int)
    requires
        a <= b,
    ensures
        messages_kept_at(ms, budget, a) <= messages_kept_at(ms, budget, b),
    decreases b - a,
{
    if a < b {
        lemma_messages_kept_monotone(ms, budget, a, b - 1);
    }
}

/// Applies the assistant-text budget of `ASSISTANT_CONTEXT_TOKEN_LIMIT`
/// tokens to the messages in order, cutting the text that crosses it with
/// `truncate`.
#[verifier::rlimit(80)]
pub fn cap_assistant_text<F: Fn(&String, usize) -> String>(messages: Vec<ResponseItem>, truncate: &F) -> (r: Vec<ResponseItem>)
    requires
        forall|t: &String, n: usize| call_requires(*truncate, (t, n)),
    ensures
        messages_capped(*truncate, items_view(messages@), items_view(r@), ASSISTANT_CONTEXT_TOKEN_LIMIT as nat),
{
    let ghost ms = items_view(messages@);
    let ghost b0 = ASSISTANT_CONTEXT_TOKEN_LIMIT as nat;
    let mut out: Vec<ResponseItem> = Vec::new();
    let mut remaining = ASSISTANT_CONTEXT_TOKEN_LIMIT;
    let mut i: usize = 0;
    while i < messages.len()
        invariant
            i <= messages@.len(),
            ms == items_view(messages@),
            b0 == ASSISTANT_CONTEXT_TOKEN_LIMIT as nat,
            forall|t: &String, n: usize| call_requires(*truncate, (t, n)),
            remaining == message_budget_at(ms, b0, i as int),
            out@.len() == messages_kept_at(ms, b0, i as int),
            forall|j: int|
                #![trigger ms[j]]
                0 <= j < i && message_stays(ms, b0, j) ==> {
                    let o = items_view(out@)[messages_kept_at(ms, b0, j) as int];
                    if is_assistant_message(ms[j]) {
                        &&& o is Message
                        &&& o->Message_id == ms[j]->Message_id
                        &&& o->Message_role == ms[j]->Message_role
                        &&& o->Message_phase == ms[j]->Message_phase
                        &&& contents_capped(
                            *truncate,
                            ms[j]->Message_content,
                            o->Message_content,
                            message_budget_at(ms, b0, j),
                        )
                    } else {
                        o == ms[j]
                    }
                },
        decreases messages@.len() - i,
    {
        let ghost before = items_view(out@);
        let item = &messages[i];
        assert(ms[i as int] == item@);
        if has_role(item, "assistant") {
            match item {
                ResponseItem::Message { id, role, content, phase } => {
                    let (capped, left) = cap_contents(content, remaining, truncate);
                    remaining = left;
                    if capped.len() > 0 {
                        out.push(
                            ResponseItem::Message {
                                id: clone_opt_string(id),
                                role: role.clone(),
                                content: capped,
                                phase: clone_opt_string(phase),
                            },
                        );
                    }
                },
                _ => {},
            }
        } else {
            out.push(item.clone());
        }
        assert forall|j: int|
            #![trigger ms[j]]
            0 <= j < i + 1 && message_stays(ms, b0, j) implies {
                let o = items_view(out@)[messages_kept_at(ms, b0, j) as int];
                if is_assistant_message(ms[j]) {
                    &&& o is Message
                    &&& o->Message_id == ms[j]->Message_id
                    &&& o->Message_role == ms[j]->Message_role
                    &&& o->Message_phase == ms[j]->Message_phase
                    &&& contents_capped(
                        *truncate,
                        ms[j]->Message_content,
                        o->Message_content,
                        message_budget_at(ms, b0, j),
                    )
                } else {
                    o == ms[j]
                }
            } by {
            if j < i {
                lemma_messages_kept_monotone(ms, b0, j + 1, i as int);
                assert(items_view(out@)[messages_kept_at(ms, b0, j) as int] == before[messages_kept_at(
                    ms,
                    b0,
                    j,
                ) as int]);
            }
        }
        i = i + 1;
    }
    out
}

/// The tail of a conversation for a standalone web search: the previous user
/// text message, the assistant text that followed it within the budget (cut
/// with `truncate` where it crosses the budget), and the current user text
/// message; nothing when no user text message is left.
pub fn recent_input<F: Fn(&String, usize) -> String>(items: &[ResponseItem], truncate: &F) -> (r: Option<SearchInput>)
    requires
        forall|t: &String, n: usize| call_requires(*truncate, (t, n)),
    ensures
        match r {
            Some(SearchInput::Items(v)) => v@.len() > 0 && messages_capped(
                *truncate,
                keep_spec(visible_messages(items_view(items@))),
                items_view(v@),
                ASSISTANT_CONTEXT_TOKEN_LIMIT as nat,
            ),
            None => messages_kept_at(
                keep_spec(visible_messages(items_view(items@))),
                ASSISTANT_CONTEXT_TOKEN_LIMIT as nat,
                keep_spec(visible_messages(items_view(items@))).len() as int,
            ) == 0,
        },
{
    let mut messages: Vec<ResponseItem> = Vec::new();
    let mut i: usize = 0;
    while i < items.len()
        invariant
            i <= items@.len(),
            items_view(messages@) == visible_messages(items_view(items@.subrange(0, i as int))),
        decreases items@.len() - i,
    {
        assert(items_view(items@.subrange(0, i + 1)).drop_last() == items_view(items@.subrange(0, i as int)));
        assert(items_view(items@.subrange(0, i + 1)).last() == items@[i as int]@);
        push_visible_message(&mut messages, &items[i]);
        i = i + 1;
    }
    assert(items@.subrange(0, items@.len() as int) == items@);
    let kept = keep_current_and_previous_turn(messages);
    let capped = cap_assistant_text(kept, truncate);
    if capped.len() > 0 {
        Some(SearchInput::Items(capped))
    } else {
        None
    }
}

/// The tail starts and ends with a user message and holds at most two: the
/// previous and the current one. Everything after the current user message
/// is left out.
pub proof fn lemma_tail_shape(s: Seq<ResponseItemView>)
    ensures
        keep_spec(s).len() > 0 ==> {
            let t = keep_spec(s);
            &&& is_user_message(t[0])
            &&& is_user_message(t.last())
            &&& forall|i: int| 0 < i < t.len() - 1 ==> !is_user_message(#[trigger] t[i])
        },
        keep_spec(s).len() == 0 <==> forall|i: int| 0 <= i < s.len() ==> !is_user_message(#[trigger] s[i]),
{
    lemma_last_user_bounds(s, s.len() as int);
    match last_user_before(s, s.len() as int) {
        None => {},
        Some(cur) => {
            lemma_last_user_bounds(s, cur);
            let prev = match last_user_before(s, cur) {
                Some(p) => p,
                None => cur,
            };
            let t = s.subrange(prev, cur + 1);
            assert(t[0] == s[prev]);
            assert(t.last() == s[cur]);
            assert forall|i: int| 0 < i < t.len() - 1 implies !is_user_message(#[trigger] t[i]) by {
                assert(t[i] == s[prev + i]);
            }
            assert(!(forall|i: int| 0 <= i < s.len() ==> !is_user_message(#[trigger] s[i])));
        },
    }
}

/// The output text kept whole among the first `i` content items, in tokens.
pub open spec fn kept_tokens(ins: Seq<ContentItem>, budget: nat, i: int) -> nat
    decreases i,
{
    if i <= 0 {
        0
    } else {
        kept_tokens(ins, budget, i - 1) + if ins[i - 1] is OutputText && action_at(ins, budget, i - 1) is Keep {
            approx_tokens(str_byte_len(ins[i - 1]->OutputText_text@) as nat)
        } else {
            0nat
        }
    }
}

/// The output text kept whole never exceeds the budget: what was kept and
/// what is left add up to at most the budget.
pub proof fn lemma_kept_within_budget(ins: Seq<ContentItem>, budget: nat, i: int)
    requires
        0 <= i <= ins.len(),
    ensures
        kept_tokens(ins, budget, i) + budget_at(ins, budget, i) <= budget,
    decreases i,
{
    if i > 0 {
        lemma_kept_within_budget(ins, budget, i - 1);
    }
}

/// The output text kept whole in the first `i` messages, in tokens.
pub open spec fn messages_kept_tokens(ms: Seq<ResponseItemView>, budget: nat, i: int) -> nat
    decreases i,
{
    if i <= 0 {
        0
    } else {
        messages_kept_tokens(ms, budget, i - 1) + if is_assistant_message(ms[i - 1]) {
            let c = ms[i - 1]->Message_content;
            kept_tokens(c, message_budget_at(ms, budget, i - 1), c.len() as int)
        } else {
            0nat
        }
    }
}

/// Across all assistant messages of the tail, the output text kept whole adds
/// up to at most the budget, together with what is left of it.
pub proof fn lemma_messages_within_budget(ms: Seq<ResponseItemView>, budget: nat, i: int)
    requires
        0 <= i <= ms.len(),
    ensures
        messages_kept_tokens(ms, budget, i) + message_budget_at(ms, budget, i) <= budget,
    decreases i,
{
    if i > 0 {
        lemma_messages_within_budget(ms, budget, i - 1);
        if is_assistant_message(ms[i - 1]) {
            let c = ms[i - 1]->Message_content;
            lemma_kept_within_budget(c, message_budget_at(ms, budget, i - 1), c.len() as int);
        }
    }
}

} // verus!
