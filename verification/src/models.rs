//! The conversation items that prompts are built from.
use vstd::prelude::*;

verus! {

/// One piece of a message's content.
#[derive(Debug, PartialEq, Eq)]
pub enum ContentItem {
    InputText { text: String },
    InputImage { image_url: String, detail: Option<String> },
    OutputText { text: String },
}

/// One item of a conversation as it is sent to the model.
#[derive(Debug, PartialEq, Eq)]
pub enum ResponseItem {
    Message { id: Option<String>, role: String, content: Vec<ContentItem>, phase: Option<String> },
    FunctionCall {
        id: Option<String>,
        name: String,
        namespace: Option<String>,
        arguments: String,
        call_id: String,
    },
    FunctionCallOutput { call_id: String, output: String },
    CustomToolCall { id: Option<String>, call_id: String, name: String, input: String },
    CustomToolCallOutput { call_id: String, output: String },
    /// Any other kind of item (reasoning, shell calls, searches, ...).
    Other,
}

/// What a conversation item holds, with a message's content as a sequence.
pub ghost enum ResponseItemView {
    Message { id: Option<String>, role: String, content: Seq<ContentItem>, phase: Option<String> },
    FunctionCall {
        id: Option<String>,
        name: String,
        namespace: Option<String>,
        arguments: String,
        call_id: String,
    },
    FunctionCallOutput { call_id: String, output: String },
    CustomToolCall { id: Option<String>, call_id: String, name: String, input: String },
    CustomToolCallOutput { call_id: String, output: String },
    Other,
}

impl View for ResponseItem {
    type V = ResponseItemView;

    open spec fn view(&self) -> ResponseItemView {
        match self {
            ResponseItem::Message { id, role, content, phase } => ResponseItemView::Message {
                id: *id,
                role: *role,
                content: content@,
                phase: *phase,
            },
            ResponseItem::FunctionCall { id, name, namespace, arguments, call_id } =>
                ResponseItemView::FunctionCall {
                id: *id,
                name: *name,
                namespace: *namespace,
                arguments: *arguments,
                call_id: *call_id,
            },
            ResponseItem::FunctionCallOutput { call_id, output } =>
                ResponseItemView::FunctionCallOutput { call_id: *call_id, output: *output },
            ResponseItem::CustomToolCall { id, call_id, name, input } =>
                ResponseItemView::CustomToolCall {
                id: *id,
                call_id: *call_id,
                name: *name,
                input: *input,
            },
            ResponseItem::CustomToolCallOutput { call_id, output } =>
                ResponseItemView::CustomToolCallOutput { call_id: *call_id, output: *output },
            ResponseItem::Other => ResponseItemView::Other,
        }
    }
}

/// The views of a sequence of conversation items.
pub open spec fn items_view(s: Seq<ResponseItem>) -> Seq<ResponseItemView> {
    s.map_values(|r: ResponseItem| r@)
}

/// The characters of an optional string.
pub open spec fn opt_view(o: Option<String>) -> Option<Seq<char>> {
    match o {
        Some(s) => Some(s@),
        None => None,
    }
}

/// A copy of an optional string.
pub fn clone_opt_string(o: &Option<String>) -> (r: Option<String>)
    ensures
        r == *o,
{
    match o {
        Some(s) => Some(s.clone()),
        None => None,
    }
}

impl Clone for ContentItem {
    fn clone(&self) -> (r: Self)
        ensures
            r == *self,
    {
        match self {
            ContentItem::InputText { text } => ContentItem::InputText { text: text.clone() },
            ContentItem::InputImage { image_url, detail } => ContentItem::InputImage {
                image_url: image_url.clone(),
                detail: clone_opt_string(detail),
            },
            ContentItem::OutputText { text } => ContentItem::OutputText { text: text.clone() },
        }
    }
}

/// A copy of a list of content items.
pub fn clone_contents(v: &Vec<ContentItem>) -> (r: Vec<ContentItem>)
    ensures
        r@ == v@,
{
    let mut r: Vec<ContentItem> = Vec::new();
    let mut i: usize = 0;
    while i < v.len()
        invariant
            i <= v@.len(),
            r@ == v@.subrange(0, i as int),
        decreases v@.len() - i,
    {
        r.push(v[i].clone());
        assert(v@.subrange(0, i + 1) == v@.subrange(0, i as int).push(v@[i as int]));
        i = i + 1;
    }
    assert(v@.subrange(0, v@.len() as int) == v@);
    r
}

impl Clone for ResponseItem {
    fn clone(&self) -> (r: Self)
        ensures
            r@ == self@,
    {
        match self {
            ResponseItem::Message { id, role, content, phase } => ResponseItem::Message {
                id: clone_opt_string(id),
                role: role.clone(),
                content: clone_contents(content),
                phase: clone_opt_string(phase),
            },
            ResponseItem::FunctionCall { id, name, namespace, arguments, call_id } =>
                ResponseItem::FunctionCall {
                id: clone_opt_string(id),
                name: name.clone(),
                namespace: clone_opt_string(namespace),
                arguments: arguments.clone(),
                call_id: call_id.clone(),
            },
            ResponseItem::FunctionCallOutput { call_id, output } =>
                ResponseItem::FunctionCallOutput { call_id: call_id.clone(), output: output.clone() },
            ResponseItem::CustomToolCall { id, call_id, name, input } =>
                ResponseItem::CustomToolCall {
                id: clone_opt_string(id),
                call_id: call_id.clone(),
                name: name.clone(),
                input: input.clone(),
            },
            ResponseItem::CustomToolCallOutput { call_id, output } =>
                ResponseItem::CustomToolCallOutput {
                call_id: call_id.clone(),
                output: output.clone(),
            },
            ResponseItem::Other => ResponseItem::Other,
        }
    }
}

} // verus!
