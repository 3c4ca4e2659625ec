//! Replies to completions that are streamed.
use vstd::prelude::*;

use crate::chunks;
use crate::chunks::{
    build_reasoning_delta, build_stream_chunk, build_tool_call_stream_chunks, estimate_tokens,
};
use crate::detect;
use crate::detect::{client_visible_content, CallModel, ToolCall};
use crate::gate::{GateModel, GateSettings, ToolGateResult};
use crate::json;
use crate::json::{json_string, parse_json, Json, JsonModel};
use crate::patterns;
use crate::patterns::strip_json_codeblock;
use crate::reply;
use crate::reply::{
    build_response_usage, build_text_item, build_text_message, decide_on, fresh_ids, with_prefix,
    HeadModel, ReplyHead,
};
use crate::sse;
use crate::sse::{
    extract_qwen_sse_delta, extract_response_parent_id, parse_qwen_sse_line,
    process_structured_output, AccumulatedText, ContinuationResponse, TextModel,
};
use crate::text;
use crate::text::{byte_slice, push_text};
use crate::tool_error;
use crate::tool_error::{
    build_synthetic_tool_ok_feedback_for_name, build_tool_hallucination_feedback,
    checked_tool_error, extract_tool_name_from_error, invalid_calls_text, tools_error_json,
};

verus! {

/// What a stream is a reply to.
#[derive(Debug)]
pub struct StreamContext {
    pub head: ReplyHead,
    pub tools: Vec<Json>,
    pub response_format: Option<Json>,
    pub settings: GateSettings,
}

impl StreamContext {
    /// The tools that may be called.
    pub open spec fn tool_list(&self) -> Seq<JsonModel> {
        json::elements(self.tools@)
    }

    /// Tools may be called.
    pub open spec fn has_tools(&self) -> bool {
        self.tools@.len() > 0
    }

    /// The format that is asked for.
    pub open spec fn format(&self) -> Option<JsonModel> {
        match self.response_format {
            Some(format) => Some(format@),
            None => None,
        }
    }
}

/// How far a streamed reply has come.
#[derive(Debug)]
pub struct StreamState {
    /// The text of the reply so far.
    pub text: AccumulatedText,
    /// Whether calls, or an error over them, have gone out.
    pub tool_emitted: bool,
    /// Whether text may go out though there are tools.
    pub content_emitted: bool,
    /// Whether the stream is closed.
    pub done: bool,
    /// How many bytes of the visible text have gone out.
    pub prev_len: usize,
    /// Whether the role has gone out with a thought.
    pub thinking_role_sent: bool,
    /// Whether a response has been announced.
    pub resp_created: bool,
    /// Whether an item of a response has been announced.
    pub output_started: bool,
    /// The id of that item.
    pub item_id: String,
}

/// What a [`StreamState`] says.
pub struct StateModel {
    pub text: TextModel,
    pub tool_emitted: bool,
    pub content_emitted: bool,
    pub done: bool,
    pub prev_len: int,
    pub thinking_role_sent: bool,
    pub resp_created: bool,
    pub output_started: bool,
    pub item_id: Seq<char>,
}

/// The start of a streamed reply.
pub open spec fn fresh_state() -> StateModel {
    StateModel {
        text: sse::no_text(),
        tool_emitted: false,
        content_emitted: false,
        done: false,
        prev_len: 0,
        thinking_role_sent: false,
        resp_created: false,
        output_started: false,
        item_id: Seq::empty(),
    }
}

/// What an event means for the client, once its text is taken up.
#[derive(Debug)]
pub enum Emission {
    /// Nothing.
    Silent,
    /// These tools are unknown.
    Blocked(Vec<String>),
    /// These calls go out.
    Calls(Vec<ToolCall>),
    /// This text goes out; it may be the first.
    Content { delta: String, at_start: bool },
}

/// What an [`Emission`] says.
pub enum EmissionModel {
    Silent,
    Blocked(Seq<Seq<char>>),
    Calls(Seq<CallModel>),
    Content { delta: Seq<char>, at_start: bool },
}

impl Emission {
    /// What the emission says.
    pub open spec fn view(&self) -> EmissionModel {
        match self {
            Emission::Silent => EmissionModel::Silent,
            Emission::Blocked(names) => EmissionModel::Blocked(text::texts(names@)),
            Emission::Calls(calls) => EmissionModel::Calls(detect::calls(calls@)),
            Emission::Content { delta, at_start } => EmissionModel::Content {
                delta: delta@,
                at_start: *at_start,
            },
        }
    }
}

/// What a line of the upstream stream brings.
#[derive(Debug)]
pub struct LineNews {
    /// The response that the next message of the chat follows, where the line names one.
    pub parent_id: Option<String>,
    /// What the model went on to think.
    pub thinking: String,
    /// What goes to the client.
    pub emission: Emission,
    /// What goes to the model.
    pub feedback: Vec<String>,
}

/// What a [`LineNews`] says.
pub struct NewsModel {
    pub parent_id: Option<Seq<char>>,
    pub thinking: Seq<char>,
    pub emission: EmissionModel,
    pub feedback: Seq<Seq<char>>,
}

impl LineNews {
    /// What the news say.
    pub open spec fn view(&self) -> NewsModel {
        NewsModel {
            parent_id: text::string_option(self.parent_id),
            thinking: self.thinking@,
            emission: self.emission@,
            feedback: text::texts(self.feedback@),
        }
    }
}

/// The event that a line carries.
pub open spec fn line_event(line: Seq<char>) -> Option<JsonModel> {
    match sse::line_data(line) {
        Some(data) => match json::json_parse(data) {
            Ok(event) => Some(event),
            Err(_) => None,
        },
        None => None,
    }
}

/// The text of a reply after an event.
pub open spec fn text_after(text: TextModel, event: Option<JsonModel>) -> TextModel {
    match event {
        Some(e) => sse::with_event(text, e),
        None => text,
    }
}

/// An event ends the reply.
pub open spec fn ends_reply(event: Option<JsonModel>) -> bool {
    match event {
        Some(e) => match sse::delta_in(e) {
            Some(delta) => delta.finished,
            None => false,
        },
        None => false,
    }
}

/// The response id that an event names.
pub open spec fn event_id(event: Option<JsonModel>) -> Option<Seq<char>> {
    match event {
        Some(e) => sse::response_id(e),
        None => None,
    }
}

/// What the client may see of an answer so far; where a format is asked for, without a fence.
pub open spec fn shown(answer: Seq<char>, tools_present: bool, formatted: bool) -> Seq<char> {
    let visible = detect::visible(answer, false, tools_present);
    if formatted {
        patterns::stripped_codeblock(visible)
    } else {
        visible
    }
}

/// The calls in a finished answer are decided on, unless something has gone out before.
pub open spec fn is_deciding(state: StateModel, event: Option<JsonModel>) -> bool {
    !state.tool_emitted && !state.content_emitted && ends_reply(event)
}

/// What an event brings, and the state of the reply after it. There is no telling where the text
/// that has gone out ends in the middle of a character of the text to be shown.
pub open spec fn observed(
    context: StreamContext,
    state: StateModel,
    event: Option<JsonModel>,
) -> Option<(StateModel, NewsModel)> {
    let text = text_after(state.text, event);
    let thinking = text.thinking.skip(state.text.thinking.len() as int);
    let parent_id = event_id(event);
    let decision = reply::decision_on(text.answer, context.tool_list(), context.settings);
    let deciding = is_deciding(state, event);
    if deciding && decision is Blocked {
        let names = decision->Blocked_0;
        let told = tool_error::unknown_tools_message(tool_error::debug_list(names));
        Some(
            (
                StateModel { text, tool_emitted: true, ..state },
                NewsModel {
                    parent_id,
                    thinking,
                    emission: EmissionModel::Blocked(names),
                    feedback: seq![told],
                },
            ),
        )
    } else if deciding && decision->emit.len() > 0 {
        Some(
            (
                StateModel { text, tool_emitted: true, ..state },
                NewsModel {
                    parent_id,
                    thinking,
                    emission: EmissionModel::Calls(decision->emit),
                    feedback: decision->feedback,
                },
            ),
        )
    } else {
        let feedback = if deciding {
            decision->feedback
        } else {
            Seq::empty()
        };
        let content_emitted = state.content_emitted || (deciding && detect::visible(
            text.answer,
            false,
            context.has_tools(),
        ).len() > 0);
        let next = StateModel { text, content_emitted, ..state };
        let whole = shown(text.answer, context.has_tools(), context.format() is Some);
        let len = text::byte_len(whole) as int;
        if state.tool_emitted || (context.has_tools() && !content_emitted) {
            Some(
                (next, NewsModel { parent_id, thinking, emission: EmissionModel::Silent, feedback }),
            )
        } else if len <= state.prev_len {
            Some(
                (
                    StateModel { prev_len: len, ..next },
                    NewsModel { parent_id, thinking, emission: EmissionModel::Silent, feedback },
                ),
            )
        } else if text::cuts(whole, state.prev_len) {
            Some(
                (
                    StateModel { prev_len: len, ..next },
                    NewsModel {
                        parent_id,
                        thinking,
                        emission: EmissionModel::Content {
                            delta: text::byte_range(whole, state.prev_len, len),
                            at_start: state.prev_len == 0,
                        },
                        feedback,
                    },
                ),
            )
        } else {
            None
        }
    }
}

/// What is behind the start of a text.
fn added_text(before: &str, after: &str) -> (added: String)
    requires
        before@.len() <= after@.len(),
    ensures
        added@ == after@.skip(before@.len() as int),
{
    let old_chars = text::chars_of(before);
    let chars = text::chars_of(after);
    let added = text::text_of(&chars, old_chars.len(), chars.len());
    assert(added@ =~= after@.skip(before@.len() as int));
    added
}

/// Thoughts are only ever added.
proof fn lemma_thinking_grows(text: TextModel, event: Option<JsonModel>)
    ensures
        text.thinking.len() <= text_after(text, event).thinking.len(),
{
}

/// The text to be shown of an answer so far.
fn show(answer: &str, tools_present: bool, formatted: bool) -> (whole: String)
    ensures
        whole@ == shown(answer@, tools_present, formatted),
{
    let visible = client_visible_content(answer, None, tools_present);
    if formatted {
        strip_json_codeblock(visible.as_str())
    } else {
        visible
    }
}

/// The event that a line carries.
pub fn event_in_line(line: &str) -> (event: Option<Json>)
    ensures
        match event {
            Some(e) => line_event(line@) == Some(e@),
            None => line_event(line@) is None,
        },
{
    match parse_qwen_sse_line(line) {
        Some(data) => match parse_json(data.as_str()) {
            Ok(event) => Some(event),
            Err(_) => None,
        },
        None => None,
    }
}

/// What an optional event says.
pub open spec fn event_option(event: Option<Json>) -> Option<JsonModel> {
    match event {
        Some(e) => Some(e@),
        None => None,
    }
}

impl StreamState {
    /// What the state says.
    pub open spec fn view(&self) -> StateModel {
        StateModel {
            text: self.text@,
            tool_emitted: self.tool_emitted,
            content_emitted: self.content_emitted,
            done: self.done,
            prev_len: self.prev_len as int,
            thinking_role_sent: self.thinking_role_sent,
            resp_created: self.resp_created,
            output_started: self.output_started,
            item_id: self.item_id@,
        }
    }

    /// The start of a streamed reply.
    pub fn new() -> (state: StreamState)
        ensures
            state@ == fresh_state(),
    {
        StreamState {
            text: AccumulatedText::new(),
            tool_emitted: false,
            content_emitted: false,
            done: false,
            prev_len: 0,
            thinking_role_sent: false,
            resp_created: false,
            output_started: false,
            item_id: String::new(),
        }
    }

    /// Takes up an event, and says what it brings. Where there is no telling, the state stays.
    pub fn observe(&mut self, context: &StreamContext, event: &Option<Json>) -> (news: Option<
        LineNews,
    >)
        ensures
            match news {
                Some(n) => observed(*context, old(self)@, event_option(*event)) == Some(
                    (final(self)@, n@),
                ),
                None => observed(*context, old(self)@, event_option(*event)) is None
                    && final(self)@ == old(self)@,
            },
    {
        let ghost before = self@;
        proof {
            json::lemma_elements(context.tools@);
            lemma_thinking_grows(before.text, event_option(*event));
        }
        let has_tools = context.tools.len() > 0;
        let mut text = self.text.copy();
        let mut finished = false;
        let mut parent_id: Option<String> = None;
        if let Some(e) = event {
            parent_id = extract_response_parent_id(e);
            if let Some(delta) = extract_qwen_sse_delta(e) {
                finished = delta.finished;
                text.append(&delta);
            }
        }
        assert(text@ == text_after(before.text, event_option(*event)));
        let thinking = added_text(self.text.thinking(), text.thinking());
        let deciding = !self.tool_emitted && !self.content_emitted && finished;
        let mut feedback: Vec<String> = Vec::new();
        let mut content_emitted = self.content_emitted;
        assert(text::texts(feedback@) =~= Seq::empty());
        if deciding {
            match decide_on(text.full_answer(), &context.tools, &context.settings) {
                ToolGateResult::Blocked(names) => {
                    push_text(&mut feedback, build_tool_hallucination_feedback(&names));
                    assert(text::texts(feedback@) =~= seq![
                        tool_error::unknown_tools_message(
                            tool_error::debug_list(text::texts(names@)),
                        ),
                    ]);
                    self.text = text;
                    self.tool_emitted = true;
                    return Some(
                        LineNews { parent_id, thinking, emission: Emission::Blocked(names), feedback },
                    );
                },
                ToolGateResult::Emit { emit, synthetic_feedback } => {
                    assert(detect::calls(emit@).len() == emit@.len());
                    if emit.len() > 0 {
                        self.text = text;
                        self.tool_emitted = true;
                        return Some(
                            LineNews {
                                parent_id,
                                thinking,
                                emission: Emission::Calls(emit),
                                feedback: synthetic_feedback,
                            },
                        );
                    }
                    feedback = synthetic_feedback;
                },
            }
            let visible = client_visible_content(text.full_answer(), None, has_tools);
            content_emitted = !visible.as_str().is_empty();
        }
        if self.tool_emitted || (has_tools && !content_emitted) {
            self.text = text;
            self.content_emitted = content_emitted;
            return Some(LineNews { parent_id, thinking, emission: Emission::Silent, feedback });
        }
        let whole = show(text.full_answer(), has_tools, context.response_format.is_some());
        let len: usize = whole.as_str().as_bytes().len();
        if len <= self.prev_len {
            self.text = text;
            self.content_emitted = content_emitted;
            self.prev_len = len;
            return Some(LineNews { parent_id, thinking, emission: Emission::Silent, feedback });
        }
        if !whole.as_str().is_char_boundary(self.prev_len) {
            return None;
        }
        proof {
            text::lemma_end_cuts(whole@);
        }
        let delta = byte_slice(whole.as_str(), self.prev_len, len);
        let at_start = self.prev_len == 0;
        self.text = text;
        self.content_emitted = content_emitted;
        self.prev_len = len;
        Some(LineNews { parent_id, thinking, emission: Emission::Content { delta, at_start }, feedback })
    }
}

/// The chunks of a stream, each as an event.
pub open spec fn framed(chunks: Seq<Seq<char>>) -> Seq<char>
    decreases chunks.len(),
{
    if chunks.len() == 0 {
        Seq::empty()
    } else {
        framed(chunks.drop_last()) + "data: "@ + chunks.last() + "\n\n"@
    }
}

/// Writes the chunks of a stream, each as an event.
pub fn frame(list: &Vec<String>) -> (data: String)
    ensures
        data@ == framed(text::texts(list@)),
{
    let ghost all = text::texts(list@);
    let mut data = String::new();
    let mut i: usize = 0;
    assert(all.take(0) =~= Seq::empty());
    assert(data@ =~= Seq::<char>::empty());
    while i < list.len()
        invariant
            i <= list@.len(),
            all == text::texts(list@),
            data@ == framed(all.take(i as int)),
        decreases list@.len() - i,
    {
        assert(all.take(i + 1).drop_last() =~= all.take(i as int));
        data.push_str("data: ");
        data.push_str(list[i].as_str());
        data.push_str("\n\n");
        i += 1;
    }
    assert(all.take(i as int) =~= all);
    data
}

/// The event that announces a response.
pub open spec fn created_event(head: HeadModel) -> JsonModel {
    JsonModel::Object(
        map![
            "type"@ => JsonModel::Str("response.created"@),
            "response"@ => JsonModel::Object(map![
                "id"@ => JsonModel::Str(head.id),
                "created_at"@ => json::json_int(head.created),
                "model"@ => JsonModel::Str(head.model),
            ]),
        ],
    )
}

/// The event that announces an item of a response.
pub open spec fn item_added(index: int, item: JsonModel) -> JsonModel {
    JsonModel::Object(
        map![
            "type"@ => JsonModel::Str("response.output_item.added"@),
            "output_index"@ => json::json_int(index),
            "item"@ => item,
        ],
    )
}

/// The event that closes an item of a response.
pub open spec fn item_done(item: JsonModel) -> JsonModel {
    JsonModel::Object(
        map![
            "type"@ => JsonModel::Str("response.output_item.done"@),
            "output_index"@ => json::json_int(0),
            "item"@ => item,
        ],
    )
}

/// An item of a response that is a call.
pub open spec fn call_item(id: Seq<char>, name: Seq<char>, arguments: Seq<char>) -> JsonModel {
    JsonModel::Object(
        map![
            "id"@ => JsonModel::Str(id),
            "type"@ => JsonModel::Str("function_call"@),
            "call_id"@ => JsonModel::Str(id),
            "name"@ => JsonModel::Str(name),
            "arguments"@ => JsonModel::Str(arguments),
        ],
    )
}

/// The event that carries the arguments of a call.
pub open spec fn arguments_event(id: Seq<char>, index: int, arguments: Seq<char>) -> JsonModel {
    JsonModel::Object(
        map![
            "type"@ => JsonModel::Str("response.function_call_arguments.delta"@),
            "item_id"@ => JsonModel::Str(id),
            "output_index"@ => json::json_int(index),
            "delta"@ => JsonModel::Str(arguments),
        ],
    )
}

/// The event that carries text.
pub open spec fn text_event(id: Seq<char>, delta: Seq<char>) -> JsonModel {
    JsonModel::Object(
        map![
            "type"@ => JsonModel::Str("response.output_text.delta"@),
            "item_id"@ => JsonModel::Str(id),
            "delta"@ => JsonModel::Str(delta),
        ],
    )
}

/// The event that reports an error over tools.
pub open spec fn error_event(message: Seq<char>) -> JsonModel {
    JsonModel::Object(
        map![
            "type"@ => JsonModel::Str("error"@),
            "error"@ => JsonModel::Object(map![
                "message"@ => JsonModel::Str(message),
                "type"@ => JsonModel::Str("tool_error"@),
            ]),
        ],
    )
}

/// The event that completes a response.
pub open spec fn completed_event(head: HeadModel, tokens: int) -> JsonModel {
    JsonModel::Object(
        map![
            "type"@ => JsonModel::Str("response.completed"@),
            "response"@ => JsonModel::Object(map![
                "id"@ => JsonModel::Str(head.id),
                "object"@ => JsonModel::Str("response"@),
                "created_at"@ => json::json_int(head.created),
                "model"@ => JsonModel::Str(head.model),
                "usage"@ => reply::response_usage(head.prompt_tokens, tokens),
            ]),
        ],
    )
}

/// Builds the event that announces a response.
fn build_created(head: &ReplyHead) -> (event: Json)
    ensures
        event@ == created_event(head@),
{
    Json::object().with("type", Json::text("response.created")).with(
        "response",
        Json::object().with("id", Json::text(head.id.as_str())).with(
            "created_at",
            Json::integer(head.created as i128),
        ).with("model", Json::text(head.model.as_str())),
    )
}

/// Builds the event that announces an item of a response.
fn build_item_added(item: Json) -> (event: Json)
    ensures
        event@ == item_added(0, item@),
{
    Json::object().with("type", Json::text("response.output_item.added")).with(
        "output_index",
        Json::integer(0),
    ).with("item", item)
}

/// Builds the event that closes an item of a response.
fn build_item_done(item: Json) -> (event: Json)
    ensures
        event@ == item_done(item@),
{
    Json::object().with("type", Json::text("response.output_item.done")).with(
        "output_index",
        Json::integer(0),
    ).with("item", item)
}

/// Builds an item of a response that is a call.
fn build_call_item(id: &str, name: &str, arguments: &str) -> (item: Json)
    ensures
        item@ == call_item(id@, name@, arguments@),
{
    Json::object().with("id", Json::text(id)).with("type", Json::text("function_call")).with(
        "call_id",
        Json::text(id),
    ).with("name", Json::text(name)).with("arguments", Json::text(arguments))
}

/// Builds the event that carries the arguments of a call.
fn build_arguments(id: &str, index: usize, arguments: &str) -> (event: Json)
    ensures
        event@ == arguments_event(id@, index as int, arguments@),
{
    Json::object().with("type", Json::text("response.function_call_arguments.delta")).with(
        "item_id",
        Json::text(id),
    ).with("output_index", Json::integer(index as i128)).with("delta", Json::text(arguments))
}

/// Builds the event that carries text.
fn build_text_event(id: &str, delta: &str) -> (event: Json)
    ensures
        event@ == text_event(id@, delta@),
{
    Json::object().with("type", Json::text("response.output_text.delta")).with(
        "item_id",
        Json::text(id),
    ).with("delta", Json::text(delta))
}

/// Builds the event that completes a response.
fn build_completed(head: &ReplyHead, tokens: usize) -> (event: Json)
    requires
        head.valid(),
        tokens <= usize::MAX / 4,
    ensures
        event@ == completed_event(head@, tokens as int),
{
    Json::object().with("type", Json::text("response.completed")).with(
        "response",
        Json::object().with("id", Json::text(head.id.as_str())).with(
            "object",
            Json::text("response"),
        ).with("created_at", Json::integer(head.created as i128)).with(
            "model",
            Json::text(head.model.as_str()),
        ).with("usage", build_response_usage(head.prompt_tokens, tokens)),
    )
}

/// A chunk of a completion.
pub open spec fn chat_chunk(
    head: HeadModel,
    delta: JsonModel,
    finish_reason: Option<Seq<char>>,
) -> Seq<char> {
    chunks::chunk_text(head.id, head.model, head.created, delta, finish_reason)
}

/// A delta that carries text.
pub open spec fn content_delta(content: Seq<char>) -> JsonModel {
    JsonModel::Object(map!["content"@ => JsonModel::Str(content)])
}

/// A delta that carries nothing.
pub open spec fn empty_delta() -> JsonModel {
    JsonModel::Object(Map::empty())
}

/// Builds a chunk of a completion.
fn build_chat_chunk(head: &ReplyHead, delta: Json, finish_reason: Option<&str>) -> (chunk: String)
    ensures
        chunk@ == chat_chunk(head@, delta@, text::text_option(finish_reason)),
{
    build_stream_chunk(head.id.as_str(), head.model.as_str(), head.created, delta, finish_reason)
}

/// The chunk that reports calls of unknown tools.
pub open spec fn blocked_chunk(head: HeadModel, names: Seq<Seq<char>>) -> Seq<char> {
    let message = tool_error::invalid_calls_message(names);
    if head.responses_api {
        json::json_text(error_event(message))
    } else {
        chat_chunk(head, content_delta("[Tool Error: "@ + message + "]"@), Some("stop"@))
    }
}

/// Builds the chunk that reports calls of unknown tools.
fn build_blocked_chunk(head: &ReplyHead, names: &Vec<String>) -> (chunk: String)
    ensures
        chunk@ == blocked_chunk(head@, text::texts(names@)),
{
    let message = invalid_calls_text(names);
    if head.responses_api {
        json_string(
            &Json::object().with("type", Json::text("error")).with(
                "error",
                Json::object().with("message", Json::text(message.as_str())).with(
                    "type",
                    Json::text("tool_error"),
                ),
            ),
        )
    } else {
        let mut content = "[Tool Error: ".to_owned();
        content.push_str(message.as_str());
        content.push_str("]");
        build_chat_chunk(
            head,
            Json::object().with("content", Json::text(content.as_str())),
            Some("stop"),
        )
    }
}

/// The chunks of some streamed calls, one call behind the other.
pub open spec fn calls_chunks(
    head: HeadModel,
    calls: Seq<CallModel>,
    ids: Seq<Seq<char>>,
) -> Seq<Seq<char>>
    decreases calls.len(),
{
    if calls.len() == 0 {
        Seq::empty()
    } else {
        let last = calls.len() - 1;
        calls_chunks(head, calls.drop_last(), ids) + chunks::call_chunks(
            head.id,
            head.model,
            head.created,
            last,
            "call_"@ + ids[last],
            calls.last().name,
            json::json_text(calls.last().args),
        )
    }
}

/// Builds the chunks of some streamed calls.
fn build_calls_chunks(head: &ReplyHead, calls: &Vec<ToolCall>, ids: &Vec<String>) -> (list: Vec<
    String,
>)
    requires
        calls@.len() <= ids@.len(),
    ensures
        text::texts(list@) == calls_chunks(head@, detect::calls(calls@), text::texts(ids@)),
{
    let ghost all = detect::calls(calls@);
    let ghost fresh = text::texts(ids@);
    let mut list: Vec<String> = Vec::new();
    let mut i: usize = 0;
    assert(all.take(0) =~= Seq::empty());
    assert(text::texts(list@) =~= Seq::empty());
    while i < calls.len()
        invariant
            i <= calls@.len() <= ids@.len(),
            all == detect::calls(calls@),
            fresh == text::texts(ids@),
            text::texts(list@) == calls_chunks(head@, all.take(i as int), fresh),
        decreases calls@.len() - i,
    {
        let id = with_prefix("call_", ids[i].as_str());
        let args = json_string(&calls[i].args);
        let mut more = build_tool_call_stream_chunks(
            head.id.as_str(),
            head.model.as_str(),
            head.created,
            i,
            id.as_str(),
            calls[i].name.as_str(),
            args.as_str(),
        );
        let ghost before = text::texts(list@);
        let ghost added = text::texts(more@);
        list.append(&mut more);
        proof {
            assert(text::texts(list@) =~= before + added);
            assert(all.take(i + 1).drop_last() =~= all.take(i as int));
            assert(all.take(i + 1).last() == calls@[i as int]@);
            assert(fresh[i as int] == ids@[i as int]@);
        }
        i += 1;
    }
    assert(all.take(i as int) =~= all);
    list
}

/// The events that carry the arguments of some calls.
pub open spec fn arguments_events(calls: Seq<CallModel>, ids: Seq<Seq<char>>) -> Seq<Seq<char>> {
    Seq::new(
        calls.len(),
        |i: int|
            json::json_text(
                arguments_event("call_"@ + ids[i], i, json::json_text(calls[i].args)),
            ),
    )
}

/// Builds the events that carry the arguments of some calls.
fn build_arguments_events(calls: &Vec<ToolCall>, ids: &Vec<String>) -> (list: Vec<String>)
    requires
        calls@.len() <= ids@.len(),
    ensures
        text::texts(list@) == arguments_events(detect::calls(calls@), text::texts(ids@)),
{
    let ghost all = arguments_events(detect::calls(calls@), text::texts(ids@));
    let mut list: Vec<String> = Vec::new();
    let mut i: usize = 0;
    while i < calls.len()
        invariant
            i <= calls@.len() <= ids@.len(),
            all == arguments_events(detect::calls(calls@), text::texts(ids@)),
            list@.len() == i,
            forall|j: int| 0 <= j < i ==> (#[trigger] list@[j])@ == all[j],
        decreases calls@.len() - i,
    {
        let id = with_prefix("call_", ids[i].as_str());
        let args = json_string(&calls[i].args);
        let event = json_string(&build_arguments(id.as_str(), i, args.as_str()));
        assert(event@ == all[i as int]);
        list.push(event);
        i += 1;
    }
    assert(text::texts(list@) =~= all);
    list
}

/// How many fresh ids it takes to render an emission.
pub open spec fn line_ids(head: HeadModel, state: StateModel, emission: EmissionModel) -> int {
    match emission {
        EmissionModel::Calls(calls) => calls.len() as int,
        EmissionModel::Content { .. } => if head.responses_api && !state.output_started {
            1
        } else {
            0
        },
        _ => 0,
    }
}

/// The chunks that stand before those of an emission: the announcement of a response, and what the
/// model went on to think.
pub open spec fn leading_chunks(
    head: HeadModel,
    state: StateModel,
    thinking: Seq<char>,
) -> Seq<Seq<char>> {
    let announced = if head.responses_api && !state.resp_created {
        seq![json::json_text(created_event(head))]
    } else {
        Seq::empty()
    };
    if thinking.len() > 0 {
        announced.push(
            chat_chunk(
                head,
                chunks::reasoning_delta(thinking, !state.thinking_role_sent),
                None,
            ),
        )
    } else {
        announced
    }
}

/// The state after the chunks that stand before those of an emission.
pub open spec fn after_leading(
    head: HeadModel,
    state: StateModel,
    thinking: Seq<char>,
) -> StateModel {
    StateModel {
        resp_created: state.resp_created || head.responses_api,
        thinking_role_sent: state.thinking_role_sent || thinking.len() > 0,
        ..state
    }
}

/// The chunks of an emission.
pub open spec fn emission_chunks(
    head: HeadModel,
    state: StateModel,
    emission: EmissionModel,
    ids: Seq<Seq<char>>,
) -> Seq<Seq<char>> {
    match emission {
        EmissionModel::Silent => Seq::empty(),
        EmissionModel::Blocked(names) => seq![blocked_chunk(head, names)],
        EmissionModel::Calls(calls) => if !head.responses_api {
            calls_chunks(head, calls, ids)
        } else if state.output_started || calls.len() == 0 {
            arguments_events(calls, ids)
        } else {
            seq![
                json::json_text(
                    item_added(0, call_item("call_"@ + ids[0], calls[0].name, ""@)),
                ),
            ] + arguments_events(calls, ids)
        },
        EmissionModel::Content { delta, at_start } => if !head.responses_api {
            seq![
                chat_chunk(
                    head,
                    if at_start {
                        reply::text_message(delta)
                    } else {
                        content_delta(delta)
                    },
                    None,
                ),
            ]
        } else if state.output_started {
            seq![json::json_text(text_event(state.item_id, delta))]
        } else {
            seq![
                json::json_text(item_added(0, reply::text_item("msg_"@ + ids[0], ""@))),
                json::json_text(text_event("msg_"@ + ids[0], delta)),
            ]
        },
    }
}

/// The state after the chunks of an emission.
pub open spec fn after_emission(
    head: HeadModel,
    state: StateModel,
    emission: EmissionModel,
    ids: Seq<Seq<char>>,
) -> StateModel {
    if head.responses_api && !state.output_started {
        match emission {
            EmissionModel::Calls(calls) => if calls.len() > 0 {
                StateModel { output_started: true, item_id: "call_"@ + ids[0], ..state }
            } else {
                state
            },
            EmissionModel::Content { .. } => StateModel {
                output_started: true,
                item_id: "msg_"@ + ids[0],
                ..state
            },
            _ => state,
        }
    } else {
        state
    }
}

/// The chunks that a line sends to the client.
pub open spec fn line_chunks(
    head: HeadModel,
    state: StateModel,
    news: NewsModel,
    ids: Seq<Seq<char>>,
) -> Seq<Seq<char>> {
    leading_chunks(head, state, news.thinking) + emission_chunks(head, state, news.emission, ids)
}

/// The state after the chunks that a line sends to the client.
pub open spec fn after_line(
    head: HeadModel,
    state: StateModel,
    news: NewsModel,
    ids: Seq<Seq<char>>,
) -> StateModel {
    after_emission(head, after_leading(head, state, news.thinking), news.emission, ids)
}

impl StreamState {
    /// Writes the chunks that stand before those of an emission.
    fn lead(&mut self, head: &ReplyHead, thinking: &str) -> (list: Vec<String>)
        ensures
            text::texts(list@) == leading_chunks(head@, old(self)@, thinking@),
            final(self)@ == after_leading(head@, old(self)@, thinking@),
    {
        let mut list: Vec<String> = Vec::new();
        assert(text::texts(list@) =~= Seq::empty());
        if head.responses_api && !self.resp_created {
            push_text(&mut list, json_string(&build_created(head)));
            assert(text::texts(list@) =~= seq![json::json_text(created_event(head@))]);
            self.resp_created = true;
        }
        if !thinking.is_empty() {
            let delta = build_reasoning_delta(thinking, !self.thinking_role_sent);
            push_text(&mut list, build_chat_chunk(head, delta, None));
            self.thinking_role_sent = true;
        }
        list
    }

    /// Writes the chunks of an emission.
    fn pronounce(&mut self, head: &ReplyHead, emission: &Emission, ids: &Vec<String>) -> (list: Vec<
        String,
    >)
        requires
            ids@.len() >= line_ids(head@, old(self)@, emission@),
        ensures
            text::texts(list@) == emission_chunks(
                head@,
                old(self)@,
                emission@,
                text::texts(ids@),
            ),
            final(self)@ == after_emission(head@, old(self)@, emission@, text::texts(ids@)),
    {
        let ghost expected = emission_chunks(head@, self@, emission@, text::texts(ids@));
        let mut list: Vec<String> = Vec::new();
        assert(text::texts(list@) =~= Seq::empty());
        match emission {
            Emission::Silent => {},
            Emission::Blocked(names) => {
                push_text(&mut list, build_blocked_chunk(head, names));
            },
            Emission::Calls(calls) => {
                assert(detect::calls(calls@).len() == calls@.len());
                if !head.responses_api {
                    return build_calls_chunks(head, calls, ids);
                }
                if !self.output_started && calls.len() > 0 {
                    let id = with_prefix("call_", ids[0].as_str());
                    let item = build_call_item(id.as_str(), calls[0].name.as_str(), "");
                    push_text(&mut list, json_string(&build_item_added(item)));
                    self.output_started = true;
                    self.item_id = id;
                }
                let ghost so_far = text::texts(list@);
                let mut more = build_arguments_events(calls, ids);
                let ghost added = text::texts(more@);
                list.append(&mut more);
                assert(text::texts(list@) =~= so_far + added);
            },
            Emission::Content { delta, at_start } => {
                if head.responses_api {
                    if !self.output_started {
                        let id = with_prefix("msg_", ids[0].as_str());
                        let item = build_text_item(id.as_str(), "");
                        push_text(&mut list, json_string(&build_item_added(item)));
                        self.output_started = true;
                        self.item_id = id;
                    }
                    push_text(
                        &mut list,
                        json_string(&build_text_event(self.item_id.as_str(), delta.as_str())),
                    );
                } else {
                    let value = if *at_start {
                        build_text_message(delta.as_str())
                    } else {
                        Json::object().with("content", Json::text(delta.as_str()))
                    };
                    push_text(&mut list, build_chat_chunk(head, value, None));
                }
            },
        }
        assert(text::texts(list@) =~= expected);
        list
    }

    /// Writes what a line sends to the client.
    pub fn render(&mut self, head: &ReplyHead, news: &LineNews, ids: &Vec<String>) -> (data: String)
        requires
            ids@.len() >= line_ids(head@, old(self)@, news@.emission),
        ensures
            data@ == framed(line_chunks(head@, old(self)@, news@, text::texts(ids@))),
            final(self)@ == after_line(head@, old(self)@, news@, text::texts(ids@)),
    {
        let mut list = self.lead(head, news.thinking.as_str());
        let ghost before = text::texts(list@);
        let mut more = self.pronounce(head, &news.emission, ids);
        let ghost added = text::texts(more@);
        list.append(&mut more);
        assert(text::texts(list@) =~= before + added);
        frame(&list)
    }
}

/// What a line of the upstream stream leads to.
#[derive(Debug)]
pub struct LineOutput {
    /// What goes to the client.
    pub data: String,
    /// The response that the next message of the chat follows, where the line names one.
    pub parent_id: Option<String>,
    /// What goes to the model.
    pub feedback: Vec<String>,
}

/// A line of the upstream stream leads from one state to another, with some fresh ids. Once the
/// stream is closed, a line leads to nothing.
pub open spec fn line_leads(
    context: StreamContext,
    before: StateModel,
    line: Seq<char>,
    ids: Seq<Seq<char>>,
    after: StateModel,
    output: LineOutput,
) -> bool {
    if before.done {
        &&& ids.len() == 0
        &&& output.data@ == Seq::<char>::empty()
        &&& after == before
        &&& output.parent_id is None
        &&& output.feedback@.len() == 0
    } else {
        line_goes_on(context, before, line, ids, after, output)
    }
}

/// A line of the upstream stream leads from one state of a stream that is open to another.
pub open spec fn line_goes_on(
    context: StreamContext,
    before: StateModel,
    line: Seq<char>,
    ids: Seq<Seq<char>>,
    after: StateModel,
    output: LineOutput,
) -> bool {
    match observed(context, before, line_event(line)) {
        Some((state, news)) => {
            &&& reply::all_ids(ids)
            &&& ids.len() == line_ids(context.head@, state, news.emission)
            &&& output.data@ == framed(line_chunks(context.head@, state, news, ids))
            &&& after == after_line(context.head@, state, news, ids)
            &&& text::string_option(output.parent_id) == news.parent_id
            &&& text::texts(output.feedback@) == news.feedback
        },
        None => false,
    }
}

/// The end of a stream, as the client sees it.
pub open spec fn done_mark() -> Seq<char> {
    "data: [DONE]\n\n"@
}

/// The chunks that close a stream, and the mark of its end; nothing where it is closed already.
pub open spec fn ending(state: StateModel, chunks: Seq<Seq<char>>) -> Seq<char> {
    if state.done {
        Seq::empty()
    } else {
        framed(chunks) + done_mark()
    }
}

/// Writes the chunks that close a stream, and the mark of its end.
fn write_ending(list: &Vec<String>) -> (data: String)
    ensures
        data@ == framed(text::texts(list@)) + done_mark(),
{
    let mut data = frame(list);
    data.push_str("data: [DONE]\n\n");
    data
}

/// The chunk that closes a stream that breaks off.
pub open spec fn error_chunk(head: HeadModel, error: Seq<char>) -> Seq<char> {
    chat_chunk(head, content_delta("[Error: "@ + error + "]"@), Some("stop"@))
}

/// What closes a stream that breaks off.
pub open spec fn error_data(head: HeadModel, state: StateModel, error: Seq<char>) -> Seq<char> {
    ending(state, seq![error_chunk(head, error)])
}

impl StreamState {
    /// Takes up a line of the upstream stream. Where there is no telling what it brings, the state
    /// stays. Once the stream is closed, a line brings nothing.
    pub fn on_line(&mut self, context: &StreamContext, line: &str) -> (output: Option<LineOutput>)
        ensures
            match output {
                Some(o) => exists|ids: Seq<Seq<char>>| #[trigger]
                    line_leads(*context, old(self)@, line@, ids, final(self)@, o),
                None => !old(self)@.done && observed(*context, old(self)@, line_event(line@)) is None
                    && final(self)@ == old(self)@,
            },
    {
        let ghost before = self@;
        if self.done {
            let output = LineOutput {
                data: String::new(),
                parent_id: None,
                feedback: Vec::new(),
            };
            assert(output.data@ =~= Seq::<char>::empty());
            assert(line_leads(*context, before, line@, Seq::empty(), self@, output));
            return Some(output);
        }
        let event = event_in_line(line);
        match self.observe(context, &event) {
            Some(news) => {
                let count: usize = match &news.emission {
                    Emission::Calls(calls) => calls.len(),
                    Emission::Content { .. } => if context.head.responses_api
                        && !self.output_started {
                        1
                    } else {
                        0
                    },
                    _ => 0,
                };
                let ids = fresh_ids(count);
                let data = self.render(&context.head, &news, &ids);
                let output = LineOutput {
                    data,
                    parent_id: news.parent_id,
                    feedback: news.feedback,
                };
                assert(line_leads(*context, before, line@, text::texts(ids@), self@, output));
                Some(output)
            },
            None => None,
        }
    }

    /// Closes a stream that breaks off.
    pub fn on_error(&mut self, context: &StreamContext, error: &str) -> (data: String)
        ensures
            data@ == error_data(context.head@, old(self)@, error@),
            final(self)@ == (StateModel { done: true, ..old(self)@ }),
    {
        if self.done {
            return String::new();
        }
        let mut content = "[Error: ".to_owned();
        content.push_str(error);
        content.push_str("]");
        let mut list: Vec<String> = Vec::new();
        push_text(
            &mut list,
            build_chat_chunk(
                &context.head,
                Json::object().with("content", Json::text(content.as_str())),
                Some("stop"),
            ),
        );
        assert(text::texts(list@) =~= seq![error_chunk(context.head@, error@)]);
        self.done = true;
        write_ending(&list)
    }
}

/// What is left to send when the upstream stream ends.
#[derive(Debug)]
pub enum Closing {
    /// Nothing: calls or text have gone out.
    Sent,
    /// These tools are unknown.
    Blocked(Vec<String>),
    /// These calls.
    Calls(Vec<ToolCall>),
    /// This text, if there is any.
    Content(String),
}

/// What a [`Closing`] says.
pub enum ClosingModel {
    Sent,
    Blocked(Seq<Seq<char>>),
    Calls(Seq<CallModel>),
    Content(Seq<char>),
}

impl Closing {
    /// What the closing says.
    pub open spec fn view(&self) -> ClosingModel {
        match self {
            Closing::Sent => ClosingModel::Sent,
            Closing::Blocked(names) => ClosingModel::Blocked(text::texts(names@)),
            Closing::Calls(calls) => ClosingModel::Calls(detect::calls(calls@)),
            Closing::Content(content) => ClosingModel::Content(content@),
        }
    }
}

/// What is to be done when the upstream stream ends.
#[derive(Debug)]
pub enum EndStep {
    /// Send these messages to the model, and close the stream.
    Close { feedback: Vec<String>, closing: Closing },
    /// Send this message to the model, and close the stream with what it says then, or else with
    /// this error.
    Recover { message: String, error: String },
}

/// What an [`EndStep`] says.
pub enum EndModel {
    Close { feedback: Seq<Seq<char>>, closing: ClosingModel },
    Recover { message: Seq<char>, error: Seq<char> },
}

impl EndStep {
    /// What the step says.
    pub open spec fn view(&self) -> EndModel {
        match self {
            EndStep::Close { feedback, closing } => EndModel::Close {
                feedback: text::texts(feedback@),
                closing: closing@,
            },
            EndStep::Recover { message, error } => EndModel::Recover {
                message: message@,
                error: error@,
            },
        }
    }
}

/// The text that a stream closes with, in the format that was asked for; where it is not, a note
/// of that.
pub open spec fn closing_text(
    answer: Seq<char>,
    tools_present: bool,
    format: Option<JsonModel>,
) -> Seq<char> {
    match sse::formatted(detect::visible(answer, false, tools_present), format) {
        Ok(content) => content,
        Err(message) => "[Structured Output Error: "@ + message,
    }
}

/// What is to be done when the upstream stream ends: nothing more where the stream is closed. There
/// is no telling where the report of a tool error would have to be cut in the middle of a
/// character.
pub open spec fn end_step(context: StreamContext, state: StateModel) -> Option<EndModel> {
    let answer = state.text.answer;
    if state.done || state.tool_emitted || state.content_emitted {
        Some(EndModel::Close { feedback: Seq::empty(), closing: ClosingModel::Sent })
    } else if context.has_tools() && !tool_error::cleanly_cut(answer) {
        None
    } else if context.has_tools() && tool_error::tool_error(answer) is Some {
        Some(
            EndModel::Recover {
                message: "ok pretend it does exist and call it properly anyway"@,
                error: tool_error::tool_error(answer)->0,
            },
        )
    } else {
        match reply::decision_on(answer, context.tool_list(), context.settings) {
            GateModel::Blocked(names) => Some(
                EndModel::Close {
                    feedback: seq![
                        tool_error::unknown_tools_message(tool_error::debug_list(names)),
                    ],
                    closing: ClosingModel::Blocked(names),
                },
            ),
            GateModel::Emit { emit, feedback } => Some(
                EndModel::Close {
                    feedback,
                    closing: if emit.len() > 0 {
                        ClosingModel::Calls(emit)
                    } else {
                        ClosingModel::Content(
                            closing_text(answer, context.has_tools(), context.format()),
                        )
                    },
                },
            ),
        }
    }
}

/// How many fresh ids it takes to close a stream.
pub open spec fn closing_ids(head: HeadModel, state: StateModel, closing: ClosingModel) -> int {
    match closing {
        _ if state.done => 0,
        ClosingModel::Calls(calls) => if !head.responses_api {
            calls.len() as int
        } else if state.output_started || calls.len() == 0 {
            0
        } else {
            1
        },
        ClosingModel::Content(content) => if head.responses_api && content.len() > 0 {
            1
        } else {
            0
        },
        _ => 0,
    }
}

/// The chunks of what is left to send when the upstream stream ends. Of several calls a response
/// carries the first.
pub open spec fn left_chunks(
    head: HeadModel,
    state: StateModel,
    closing: ClosingModel,
    ids: Seq<Seq<char>>,
) -> Seq<Seq<char>> {
    match closing {
        ClosingModel::Sent => Seq::empty(),
        ClosingModel::Blocked(names) => seq![blocked_chunk(head, names)],
        ClosingModel::Calls(calls) => if !head.responses_api {
            calls_chunks(head, calls, ids)
        } else if state.output_started || calls.len() == 0 {
            Seq::empty()
        } else {
            seq![
                json::json_text(
                    item_added(
                        0,
                        call_item(
                            "call_"@ + ids[0],
                            calls[0].name,
                            json::json_text(calls[0].args),
                        ),
                    ),
                ),
            ]
        },
        ClosingModel::Content(content) => if content.len() == 0 {
            Seq::empty()
        } else if head.responses_api {
            seq![json::json_text(item_added(0, reply::text_item("msg_"@ + ids[0], content)))]
        } else {
            seq![chat_chunk(head, reply::text_message(content), Some("stop"@))]
        },
    }
}

/// An item of a response has been announced once what is left is sent.
pub open spec fn item_announced(
    head: HeadModel,
    state: StateModel,
    closing: ClosingModel,
) -> bool {
    state.output_started || match closing {
        ClosingModel::Calls(calls) => head.responses_api && calls.len() > 0,
        _ => false,
    }
}

/// The chunks that complete a reply.
pub open spec fn completing_chunks(
    context: StreamContext,
    state: StateModel,
    closing: ClosingModel,
) -> Seq<Seq<char>> {
    let head = context.head@;
    let answer = state.text.answer;
    if closing is Blocked {
        Seq::empty()
    } else if head.responses_api {
        let completed = json::json_text(
            completed_event(head, chunks::token_count(answer) as int),
        );
        if item_announced(head, state, closing) && !state.tool_emitted {
            let item = reply::text_item(
                state.item_id,
                detect::visible(answer, false, context.has_tools()),
            );
            seq![json::json_text(item_done(item)), completed]
        } else {
            seq![completed]
        }
    } else if state.tool_emitted {
        seq![chat_chunk(head, empty_delta(), Some("tool_calls"@))]
    } else if state.content_emitted || closing == ClosingModel::Content(Seq::empty()) {
        seq![chat_chunk(head, empty_delta(), Some("stop"@))]
    } else {
        Seq::empty()
    }
}

/// The chunks that close a stream whose upstream stream has ended.
pub open spec fn closing_chunks(
    context: StreamContext,
    state: StateModel,
    closing: ClosingModel,
    ids: Seq<Seq<char>>,
) -> Seq<Seq<char>> {
    left_chunks(context.head@, state, closing, ids) + completing_chunks(context, state, closing)
}

/// What closes a stream whose upstream stream has ended.
pub open spec fn closing_data(
    context: StreamContext,
    state: StateModel,
    closing: ClosingModel,
    ids: Seq<Seq<char>>,
) -> Seq<char> {
    ending(state, closing_chunks(context, state, closing, ids))
}

impl StreamState {
    /// Decides what is to be done when the upstream stream ends.
    pub fn on_end(&self, context: &StreamContext) -> (step: Option<EndStep>)
        ensures
            match step {
                Some(s) => end_step(*context, self@) == Some(s@),
                None => end_step(*context, self@) is None,
            },
    {
        let mut feedback: Vec<String> = Vec::new();
        proof {
            json::lemma_elements(context.tools@);
            assert(text::texts(feedback@) =~= Seq::empty());
        }
        if self.done || self.tool_emitted || self.content_emitted {
            return Some(EndStep::Close { feedback, closing: Closing::Sent });
        }
        let has_tools = context.tools.len() > 0;
        let answer = self.text.full_answer();
        if has_tools {
            match checked_tool_error(answer) {
                None => {
                    return None;
                },
                Some(Some(error)) => {
                    let name = extract_tool_name_from_error(error.as_str());
                    let message = build_synthetic_tool_ok_feedback_for_name(name.as_str());
                    return Some(EndStep::Recover { message, error });
                },
                Some(None) => {},
            }
        }
        match decide_on(answer, &context.tools, &context.settings) {
            ToolGateResult::Blocked(names) => {
                push_text(&mut feedback, build_tool_hallucination_feedback(&names));
                assert(text::texts(feedback@) =~= seq![
                    tool_error::unknown_tools_message(
                        tool_error::debug_list(text::texts(names@)),
                    ),
                ]);
                Some(EndStep::Close { feedback, closing: Closing::Blocked(names) })
            },
            ToolGateResult::Emit { emit, synthetic_feedback } => {
                assert(detect::calls(emit@).len() == emit@.len());
                if emit.len() > 0 {
                    return Some(
                        EndStep::Close {
                            feedback: synthetic_feedback,
                            closing: Closing::Calls(emit),
                        },
                    );
                }
                let visible = client_visible_content(answer, None, has_tools);
                let format = match &context.response_format {
                    Some(f) => Some(f),
                    None => None,
                };
                let content = match process_structured_output(visible.as_str(), format) {
                    Ok(content) => content,
                    Err(message) => {
                        let mut note = "[Structured Output Error: ".to_owned();
                        note.push_str(message.as_str());
                        note
                    },
                };
                Some(
                    EndStep::Close {
                        feedback: synthetic_feedback,
                        closing: Closing::Content(content),
                    },
                )
            },
        }
    }

    /// Writes what is left to send when the upstream stream ends.
    fn write_left(&self, head: &ReplyHead, closing: &Closing, ids: &Vec<String>) -> (list: Vec<
        String,
    >)
        requires
            !self@.done,
            ids@.len() >= closing_ids(head@, self@, closing@),
        ensures
            text::texts(list@) == left_chunks(head@, self@, closing@, text::texts(ids@)),
    {
        let mut list: Vec<String> = Vec::new();
        assert(text::texts(list@) =~= Seq::empty());
        match closing {
            Closing::Sent => {},
            Closing::Blocked(names) => {
                push_text(&mut list, build_blocked_chunk(head, names));
            },
            Closing::Calls(calls) => {
                assert(detect::calls(calls@).len() == calls@.len());
                if !head.responses_api {
                    return build_calls_chunks(head, calls, ids);
                }
                if !self.output_started && calls.len() > 0 {
                    let id = with_prefix("call_", ids[0].as_str());
                    let args = json_string(&calls[0].args);
                    let item = build_call_item(
                        id.as_str(),
                        calls[0].name.as_str(),
                        args.as_str(),
                    );
                    push_text(&mut list, json_string(&build_item_added(item)));
                }
            },
            Closing::Content(content) => {
                if !content.as_str().is_empty() {
                    if head.responses_api {
                        let id = with_prefix("msg_", ids[0].as_str());
                        let item = build_text_item(id.as_str(), content.as_str());
                        push_text(&mut list, json_string(&build_item_added(item)));
                    } else {
                        let message = build_text_message(content.as_str());
                        push_text(&mut list, build_chat_chunk(head, message, Some("stop")));
                    }
                }
            },
        }
        assert(text::texts(list@) =~= left_chunks(head@, self@, closing@, text::texts(ids@)));
        list
    }

    /// Writes the chunks that complete a reply.
    fn write_completing(&self, context: &StreamContext, closing: &Closing) -> (list: Vec<String>)
        requires
            context.head.valid(),
        ensures
            text::texts(list@) == completing_chunks(*context, self@, closing@),
    {
        let mut list: Vec<String> = Vec::new();
        assert(text::texts(list@) =~= Seq::empty());
        let head = &context.head;
        let mut announced = self.output_started;
        let mut nothing_said = false;
        match closing {
            Closing::Blocked(_) => {
                return list;
            },
            Closing::Calls(calls) => {
                assert(detect::calls(calls@).len() == calls@.len());
                announced = announced || (head.responses_api && calls.len() > 0);
            },
            Closing::Content(content) => {
                nothing_said = content.as_str().is_empty();
                assert(nothing_said == (content@ =~= Seq::<char>::empty()));
            },
            Closing::Sent => {},
        }
        if head.responses_api {
            if announced && !self.tool_emitted {
                let visible = client_visible_content(
                    self.text.full_answer(),
                    None,
                    context.tools.len() > 0,
                );
                let item = build_text_item(self.item_id.as_str(), visible.as_str());
                push_text(&mut list, json_string(&build_item_done(item)));
            }
            let tokens: usize = estimate_tokens(self.text.full_answer());
            push_text(&mut list, json_string(&build_completed(head, tokens)));
        } else if self.tool_emitted {
            push_text(&mut list, build_chat_chunk(head, Json::object(), Some("tool_calls")));
        } else if self.content_emitted || nothing_said {
            push_text(&mut list, build_chat_chunk(head, Json::object(), Some("stop")));
        }
        assert(text::texts(list@) =~= completing_chunks(*context, self@, closing@));
        list
    }

    /// Closes a stream whose upstream stream has ended, with some fresh ids.
    pub fn close_with(&mut self, context: &StreamContext, closing: &Closing, ids: &Vec<String>) -> (data:
        String)
        requires
            context.head.valid(),
            ids@.len() >= closing_ids(context.head@, old(self)@, closing@),
        ensures
            data@ == closing_data(*context, old(self)@, closing@, text::texts(ids@)),
            final(self)@ == (StateModel { done: true, ..old(self)@ }),
    {
        if self.done {
            return String::new();
        }
        let mut list = self.write_left(&context.head, closing, ids);
        let ghost before = text::texts(list@);
        let mut more = self.write_completing(context, closing);
        let ghost added = text::texts(more@);
        list.append(&mut more);
        assert(text::texts(list@) =~= before + added);
        self.done = true;
        write_ending(&list)
    }

    /// Closes a stream whose upstream stream has ended.
    pub fn close(&mut self, context: &StreamContext, closing: &Closing) -> (data: String)
        requires
            context.head.valid(),
        ensures
            exists|ids: Seq<Seq<char>>|
                reply::all_ids(ids) && ids.len() == closing_ids(
                    context.head@,
                    old(self)@,
                    closing@,
                ) && data@ == #[trigger] closing_data(*context, old(self)@, closing@, ids),
            final(self)@ == (StateModel { done: true, ..old(self)@ }),
    {
        let count: usize = match closing {
            _ if self.done => 0,
            Closing::Calls(calls) => {
                assert(detect::calls(calls@).len() == calls@.len());
                if !context.head.responses_api {
                    calls.len()
                } else if self.output_started || calls.len() == 0 {
                    0
                } else {
                    1
                }
            },
            Closing::Content(content) => if context.head.responses_api
                && !content.as_str().is_empty() {
                1
            } else {
                0
            },
            _ => 0,
        };
        let ids = fresh_ids(count);
        self.close_with(context, closing, &ids)
    }
}

/// The chunks of a reply that the model gave when it was asked to use a tool all the same.
pub open spec fn recovered_chunks(head: HeadModel, said: Seq<char>, id: Seq<char>) -> Seq<Seq<char>> {
    if head.responses_api {
        let item = "msg_"@ + id;
        seq![
            json::json_text(item_added(0, reply::text_item(item, ""@))),
            json::json_text(text_event(item, said)),
            json::json_text(item_done(reply::text_item(item, said))),
            json::json_text(completed_event(head, chunks::token_count(said) as int)),
        ]
    } else {
        seq![
            chat_chunk(head, reply::text_message(said), None),
            chat_chunk(head, empty_delta(), Some("stop"@)),
        ]
    }
}

/// The chunks that close a stream once the model was asked to use a tool all the same: what it said
/// then, or else the error, with the tools that may be called.
pub open spec fn recovery_chunks(
    context: StreamContext,
    error: Seq<char>,
    said: Option<Seq<char>>,
    id: Seq<char>,
) -> Seq<Seq<char>> {
    let head = context.head@;
    let report = json::json_text(tool_error::tools_error(error, context.tool_list()));
    if said is Some && said->0.len() > 0 {
        recovered_chunks(head, said->0, id)
    } else if head.responses_api {
        seq![report]
    } else {
        seq![report, chat_chunk(head, empty_delta(), Some("stop"@))]
    }
}

/// What closes a stream once the model was asked to use a tool all the same.
pub open spec fn recovery_data(
    context: StreamContext,
    state: StateModel,
    error: Seq<char>,
    said: Option<Seq<char>>,
    id: Seq<char>,
) -> Seq<char> {
    ending(state, recovery_chunks(context, error, said, id))
}

/// Writes the chunks of a reply that the model gave when it was asked to use a tool all the same.
fn write_recovered(head: &ReplyHead, said: &str, id: &str) -> (list: Vec<String>)
    requires
        head.valid(),
    ensures
        text::texts(list@) == recovered_chunks(head@, said@, id@),
{
    let mut list: Vec<String> = Vec::new();
    assert(text::texts(list@) =~= Seq::empty());
    if head.responses_api {
        let item = with_prefix("msg_", id);
        push_text(&mut list, json_string(&build_item_added(build_text_item(item.as_str(), ""))));
        push_text(&mut list, json_string(&build_text_event(item.as_str(), said)));
        push_text(&mut list, json_string(&build_item_done(build_text_item(item.as_str(), said))));
        let tokens: usize = estimate_tokens(said);
        push_text(&mut list, json_string(&build_completed(head, tokens)));
    } else {
        push_text(&mut list, build_chat_chunk(head, build_text_message(said), None));
        push_text(&mut list, build_chat_chunk(head, Json::object(), Some("stop")));
    }
    assert(text::texts(list@) =~= recovered_chunks(head@, said@, id@));
    list
}

impl StreamState {
    /// Closes a stream once the model was asked to use a tool all the same, with a fresh id.
    pub fn recover_with(
        &mut self,
        context: &StreamContext,
        error: &str,
        outcome: &Option<ContinuationResponse>,
        id: &str,
    ) -> (data: String)
        requires
            context.head.valid(),
        ensures
            data@ == recovery_data(*context, old(self)@, error@, reply::said_then(*outcome), id@),
            final(self)@ == (StateModel { done: true, ..old(self)@ }),
    {
        if self.done {
            return String::new();
        }
        let mut list: Vec<String> = Vec::new();
        let mut said = false;
        if let Some(response) = outcome {
            if !response.response_text.as_str().is_empty() {
                list = write_recovered(&context.head, response.response_text.as_str(), id);
                said = true;
            }
        }
        if !said {
            assert(text::texts(list@) =~= Seq::empty());
            push_text(&mut list, json_string(&tools_error_json(error, &context.tools)));
            if !context.head.responses_api {
                push_text(&mut list, build_chat_chunk(&context.head, Json::object(), Some("stop")));
            }
            assert(text::texts(list@) =~= recovery_chunks(
                *context,
                error@,
                reply::said_then(*outcome),
                id@,
            ));
        }
        self.done = true;
        write_ending(&list)
    }

    /// Closes a stream once the model was asked to use a tool all the same.
    pub fn after_recovery(
        &mut self,
        context: &StreamContext,
        error: &str,
        outcome: &Option<ContinuationResponse>,
    ) -> (data: String)
        requires
            context.head.valid(),
        ensures
            exists|id: Seq<char>|
                crate::machine::is_id(id) && data@ == #[trigger] recovery_data(
                    *context,
                    old(self)@,
                    error@,
                    reply::said_then(*outcome),
                    id,
                ),
            final(self)@ == (StateModel { done: true, ..old(self)@ }),
    {
        let id = crate::machine::random_id();
        self.recover_with(context, error, outcome, id.as_str())
    }
}

/// A stream that is open closes, however it ends, with the mark of its end.
pub proof fn law_every_end_is_marked(
    context: StreamContext,
    state: StateModel,
    closing: ClosingModel,
    ids: Seq<Seq<char>>,
    error: Seq<char>,
    said: Option<Seq<char>>,
    id: Seq<char>,
)
    requires
        !state.done,
    ensures
        done_mark().is_suffix_of(closing_data(context, state, closing, ids)),
        done_mark().is_suffix_of(error_data(context.head@, state, error)),
        done_mark().is_suffix_of(recovery_data(context, state, error, said, id)),
{
    let mark = done_mark();
    lemma_ends_with(closing_data(context, state, closing, ids), mark);
    lemma_ends_with(error_data(context.head@, state, error), mark);
    lemma_ends_with(recovery_data(context, state, error, said, id), mark);
}

/// Nothing follows the end of a stream: once it is closed, no line and no further end sends
/// anything, and it stays as it is. So the mark of its end comes once.
pub proof fn law_nothing_follows_the_end(
    context: StreamContext,
    state: StateModel,
    line: Seq<char>,
    line_ids: Seq<Seq<char>>,
    after: StateModel,
    output: LineOutput,
    closing: ClosingModel,
    ids: Seq<Seq<char>>,
    error: Seq<char>,
    said: Option<Seq<char>>,
    id: Seq<char>,
)
    requires
        state.done,
    ensures
        line_leads(context, state, line, line_ids, after, output) ==> output.data@.len() == 0
            && after == state,
        end_step(context, state) == Some(
            EndModel::Close { feedback: Seq::empty(), closing: ClosingModel::Sent },
        ),
        closing_data(context, state, closing, ids).len() == 0,
        error_data(context.head@, state, error).len() == 0,
        recovery_data(context, state, error, said, id).len() == 0,
        (StateModel { done: true, ..state }) == state,
{
}

/// What is put behind a text ends it.
proof fn lemma_ends_with(whole: Seq<char>, end: Seq<char>)
    requires
        exists|start: Seq<char>| whole == #[trigger] (start + end),
    ensures
        end.is_suffix_of(whole),
{
    let start = choose|start: Seq<char>| whole == #[trigger] (start + end);
    assert((start + end).skip(start.len() as int) =~= end);
}

/// The text that goes out with an event.
pub open spec fn content_of(emission: EmissionModel) -> Seq<char> {
    match emission {
        EmissionModel::Content { delta, .. } => delta,
        _ => Seq::empty(),
    }
}

/// Without tools and without a format to keep to, what goes out event by event adds up to the
/// answer: each event sends what it added, and there is always telling what that is.
pub proof fn law_content_adds_up_to_answer(
    context: StreamContext,
    state: StateModel,
    event: Option<JsonModel>,
)
    requires
        !context.has_tools(),
        context.format() is None,
        !state.tool_emitted,
        state.prev_len == text::byte_len(state.text.answer),
    ensures
        observed(context, state, event) matches Some((next, news)) && (news.emission is Calls
            || news.emission is Blocked || (next.text.answer == state.text.answer + content_of(
            news.emission,
        ) && next.prev_len == text::byte_len(next.text.answer) && !next.tool_emitted)),
{
    let after = text_after(state.text, event);
    let old_answer = state.text.answer;
    if let Some(e) = event {
        sse::law_text_only_grows(state.text, e);
    }
    let added = after.answer.skip(old_answer.len() as int);
    assert(after.answer =~= old_answer + added);
    text::lemma_joined_bytes(old_answer, added);
    if added.len() == 0 {
        assert(after.answer =~= old_answer);
    }
}

/// A stream took up some lines, one after the other, from its start on: `states` holds its states
/// before, between and after them.
pub open spec fn took_up(
    context: StreamContext,
    lines: Seq<Seq<char>>,
    states: Seq<StateModel>,
    ids: Seq<Seq<Seq<char>>>,
    outputs: Seq<LineOutput>,
) -> bool {
    &&& states.len() == lines.len() + 1
    &&& states[0] == fresh_state()
    &&& forall|i: int|
        #![trigger lines[i]]
        0 <= i < lines.len() ==> line_leads(
            context,
            states[i],
            lines[i],
            ids[i],
            states[i + 1],
            outputs[i],
        )
}

/// The text that a line sends in a state.
pub open spec fn line_content(context: StreamContext, state: StateModel, line: Seq<char>) -> Seq<
    char,
> {
    match observed(context, state, line_event(line)) {
        Some((_, news)) => content_of(news.emission),
        None => Seq::empty(),
    }
}

/// The text that the first `count` lines of a stream send.
pub open spec fn streamed_content(
    context: StreamContext,
    lines: Seq<Seq<char>>,
    states: Seq<StateModel>,
    count: int,
) -> Seq<char>
    decreases count,
{
    if count <= 0 {
        Seq::empty()
    } else {
        streamed_content(context, lines, states, count - 1) + line_content(
            context,
            states[count - 1],
            lines[count - 1],
        )
    }
}

/// The text that closes a stream.
pub open spec fn closing_content(step: Option<EndModel>) -> Seq<char> {
    match step {
        Some(EndModel::Close { closing: ClosingModel::Content(content), .. }) => content,
        _ => Seq::empty(),
    }
}

/// As long as no calls go out, the lines of a stream without tools and without a format to keep to
/// send its answer.
proof fn lemma_lines_send_the_answer(
    context: StreamContext,
    lines: Seq<Seq<char>>,
    states: Seq<StateModel>,
    ids: Seq<Seq<Seq<char>>>,
    outputs: Seq<LineOutput>,
    count: int,
)
    requires
        took_up(context, lines, states, ids, outputs),
        0 <= count <= lines.len(),
        !context.has_tools(),
        context.format() is None,
    ensures
        !states[count].done,
        !states[count].tool_emitted ==> streamed_content(context, lines, states, count)
            == states[count].text.answer && states[count].prev_len == text::byte_len(
            states[count].text.answer,
        ),
    decreases count,
{
    if count == 0 {
        assert(fresh_state().text.answer =~= Seq::<char>::empty());
        text::lemma_joined_bytes(Seq::empty(), Seq::empty());
        assert(Seq::<char>::empty() + Seq::<char>::empty() =~= Seq::<char>::empty());
    } else {
        let i = count - 1;
        lemma_lines_send_the_answer(context, lines, states, ids, outputs, i);
        assert(line_leads(context, states[i], lines[i], ids[i], states[i + 1], outputs[i]));
        if !states[i].tool_emitted {
            law_content_adds_up_to_answer(context, states[i], line_event(lines[i]));
        }
    }
}

/// Without tools and without a format to keep to, and unless calls go out, the text that a stream
/// sends, line by line and at its close, adds up to the answer. Where text went out and none of it
/// was marked as sent, for want of an event that ends the reply, the close repeats it.
pub proof fn law_stream_adds_up_to_answer(
    context: StreamContext,
    lines: Seq<Seq<char>>,
    states: Seq<StateModel>,
    ids: Seq<Seq<Seq<char>>>,
    outputs: Seq<LineOutput>,
)
    requires
        took_up(context, lines, states, ids, outputs),
        !context.has_tools(),
        context.format() is None,
        !states.last().tool_emitted,
        states.last().content_emitted || states.last().text.answer.len() == 0,
    ensures
        streamed_content(context, lines, states, lines.len() as int) + closing_content(
            end_step(context, states.last()),
        ) == states.last().text.answer,
{
    lemma_lines_send_the_answer(context, lines, states, ids, outputs, lines.len() as int);
    let answer = states.last().text.answer;
    let closing = closing_content(end_step(context, states.last()));
    assert(closing =~= Seq::<char>::empty());
    assert(answer + closing =~= answer);
}

/// With tools and without a format to keep to, and as long as no calls go out, the lines of a stream
/// send nothing until text may go out, and then its answer.
proof fn lemma_lines_send_what_is_free(
    context: StreamContext,
    lines: Seq<Seq<char>>,
    states: Seq<StateModel>,
    ids: Seq<Seq<Seq<char>>>,
    outputs: Seq<LineOutput>,
    count: int,
)
    requires
        took_up(context, lines, states, ids, outputs),
        0 <= count <= lines.len(),
        context.has_tools(),
        context.format() is None,
        forall|i: int|
            0 <= i <= count && (#[trigger] states[i]).content_emitted ==> !detect::looks_like_call(
                states[i].text.answer,
            ),
    ensures
        !states[count].done,
        !states[count].tool_emitted && !states[count].content_emitted ==> streamed_content(
            context,
            lines,
            states,
            count,
        ).len() == 0 && states[count].prev_len == 0,
        !states[count].tool_emitted && states[count].content_emitted ==> streamed_content(
            context,
            lines,
            states,
            count,
        ) == states[count].text.answer && states[count].prev_len == text::byte_len(
            states[count].text.answer,
        ),
    decreases count,
{
    if count > 0 {
        let i = count - 1;
        lemma_lines_send_what_is_free(context, lines, states, ids, outputs, i);
        let state = states[i];
        let event = line_event(lines[i]);
        assert(line_leads(context, state, lines[i], ids[i], states[i + 1], outputs[i]));
        let after = text_after(state.text, event);
        if !state.tool_emitted && states[count].content_emitted {
            assert(states[count].text == after);
            if state.content_emitted {
                if let Some(e) = event {
                    sse::law_text_only_grows(state.text, e);
                }
                let added = after.answer.skip(state.text.answer.len() as int);
                assert(after.answer =~= state.text.answer + added);
                text::lemma_joined_bytes(state.text.answer, added);
                if added.len() == 0 {
                    assert(after.answer =~= state.text.answer);
                }
            } else {
                let nothing = Seq::<char>::empty();
                text::lemma_joined_bytes(nothing, nothing);
                text::lemma_joined_bytes(nothing, after.answer);
                assert(nothing + after.answer =~= after.answer);
            }
        }
    }
}

/// With tools and without a format to keep to, and unless calls go out, the text that a stream
/// sends, line by line and at its close, adds up to what the client may see of the answer; unless
/// the text goes on to look like a call after some of it went out.
pub proof fn law_stream_with_tools_adds_up_to_what_is_visible(
    context: StreamContext,
    lines: Seq<Seq<char>>,
    states: Seq<StateModel>,
    ids: Seq<Seq<Seq<char>>>,
    outputs: Seq<LineOutput>,
)
    requires
        took_up(context, lines, states, ids, outputs),
        context.has_tools(),
        context.format() is None,
        !states.last().tool_emitted,
        end_step(context, states.last()) matches Some(EndModel::Close { closing, .. })
            && !(closing is Calls) && !(closing is Blocked),
        forall|i: int|
            0 <= i < states.len() && (#[trigger] states[i]).content_emitted
                ==> !detect::looks_like_call(states[i].text.answer),
    ensures
        streamed_content(context, lines, states, lines.len() as int) + closing_content(
            end_step(context, states.last()),
        ) == detect::visible(states.last().text.answer, false, true),
{
    lemma_lines_send_what_is_free(context, lines, states, ids, outputs, lines.len() as int);
    let last = states.last();
    let streamed = streamed_content(context, lines, states, lines.len() as int);
    let closing = closing_content(end_step(context, last));
    assert(last == states[lines.len() as int]);
    if last.content_emitted {
        assert(streamed + closing =~= streamed);
    } else {
        assert(streamed + closing =~= closing);
    }
}

/// Without pass-through, a stream never carries a call of a tool that the client did not list,
/// neither while it runs nor at its end.
pub proof fn law_streams_call_listed_tools_only(
    context: StreamContext,
    state: StateModel,
    event: Option<JsonModel>,
)
    requires
        crate::gate::tool_names(context.tool_list()).len() > 0,
        !context.settings.pass_through(),
    ensures
        observed(context, state, event) matches Some((_, news)) ==> (
        news.emission matches EmissionModel::Calls(calls) ==> reply::all_listed(
            calls,
            crate::gate::tool_names(context.tool_list()),
        )),
        end_step(context, state) matches Some(
            EndModel::Close { closing: ClosingModel::Calls(calls), .. },
        ) ==> reply::all_listed(calls, crate::gate::tool_names(context.tool_list())),
{
    let names = crate::gate::tool_names(context.tool_list());
    crate::gate::law_unlisted_names_stay_in(
        detect::detected(text_after(state.text, event).answer),
        names,
        context.settings.strict(),
        context.settings.synthetic_ok(),
    );
    crate::gate::law_unlisted_names_stay_in(
        detect::detected(state.text.answer),
        names,
        context.settings.strict(),
        context.settings.synthetic_ok(),
    );
}

/// A chunk finishes a completion.
pub open spec fn finishes(head: HeadModel, chunk: Seq<char>) -> bool {
    exists|delta: JsonModel|
        chunk == #[trigger] chat_chunk(head, delta, Some("stop"@)) || chunk == chat_chunk(
            head,
            delta,
            Some("tool_calls"@),
        )
}

/// The chunks of some calls end with one that finishes the completion.
proof fn lemma_calls_finish(head: HeadModel, calls: Seq<CallModel>, ids: Seq<Seq<char>>)
    requires
        calls.len() > 0,
    ensures
        calls_chunks(head, calls, ids).len() > 0,
        calls_chunks(head, calls, ids).last() == chat_chunk(
            head,
            empty_delta(),
            Some("tool_calls"@),
        ),
{
}

/// The last chunk of a streamed completion says why it is finished, however the stream ends.
pub proof fn law_completions_say_why_they_finish(
    context: StreamContext,
    state: StateModel,
    closing: ClosingModel,
    ids: Seq<Seq<char>>,
    error: Seq<char>,
    said: Option<Seq<char>>,
    id: Seq<char>,
)
    requires
        !context.head@.responses_api,
        !state.done,
        end_step(context, state) matches Some(EndModel::Close { closing: c, .. }) ==> c == closing,
    ensures
        end_step(context, state) matches Some(EndModel::Close { .. }) ==> closing_chunks(
            context,
            state,
            closing,
            ids,
        ).len() > 0 && finishes(
            context.head@,
            closing_chunks(context, state, closing, ids).last(),
        ),
        finishes(context.head@, error_chunk(context.head@, error)),
        recovery_chunks(context, error, said, id).len() > 0,
        finishes(context.head@, recovery_chunks(context, error, said, id).last()),
{
    let head = context.head@;
    let stop = chat_chunk(head, empty_delta(), Some("stop"@));
    assert(finishes(head, stop));
    assert(finishes(head, chat_chunk(head, empty_delta(), Some("tool_calls"@)))) by {
        assert(stop == chat_chunk(head, empty_delta(), Some("stop"@)));
    }
    let left = left_chunks(head, state, closing, ids);
    let all = closing_chunks(context, state, closing, ids);
    if end_step(context, state) matches Some(EndModel::Close { .. }) {
        match closing {
            ClosingModel::Sent => {
                assert(all.last() == completing_chunks(context, state, closing)[0]);
            },
            ClosingModel::Blocked(names) => {
                assert(all.last() == blocked_chunk(head, names));
            },
            ClosingModel::Calls(calls) => {
                lemma_calls_finish(head, calls, ids);
                assert(all =~= left);
            },
            ClosingModel::Content(content) => {
                if content.len() > 0 {
                    assert(all.last() == chat_chunk(
                        head,
                        reply::text_message(content),
                        Some("stop"@),
                    ));
                } else {
                    assert(content =~= Seq::empty());
                    assert(all.last() == stop);
                }
            },
        }
    }
}

/// The event of a line is what its data reads as; a line without data, or with data that is no JSON,
/// carries none.
pub proof fn law_lines_carry_their_events(line: Seq<char>, data: Seq<char>, event: JsonModel)
    ensures
        sse::line_data(line) == Some(data) && json::json_parse(data) == Ok::<JsonModel, Seq<char>>(event)
            ==> line_event(line) == Some(event),
        sse::line_data(line) == Some(data) && json::json_parse(data) is Err ==> line_event(line) is None,
        sse::line_data(line) is None ==> line_event(line) is None,
{
}

/// An event is taken up whole, whatever goes out: its text, what it adds to the thoughts, and the
/// response that it names. A line without an event changes no text.
pub proof fn law_events_are_taken_up_whole(context: StreamContext, state: StateModel, event: JsonModel)
    ensures
        observed(context, state, Some(event)) matches Some((next, news)) ==> {
            &&& next.text == sse::with_event(state.text, event)
            &&& news.thinking == next.text.thinking.skip(state.text.thinking.len() as int)
            &&& news.parent_id == sse::response_id(event)
            &&& next.done == state.done
        },
        observed(context, state, None) matches Some((next, news)) ==> {
            &&& next.text == state.text
            &&& news.thinking.len() == 0
            &&& news.parent_id is None
            &&& news.feedback.len() == 0
            &&& !(news.emission is Calls) && !(news.emission is Blocked)
        },
{
}

/// When an event finishes a reply of which nothing has gone out, all the calls that validation lets
/// out go out, in order, and the model hears what it is to hear; unknown ones are reported by name.
pub proof fn law_finished_streams_send_their_calls(
    context: StreamContext,
    state: StateModel,
    event: JsonModel,
)
    requires
        !state.tool_emitted,
        !state.content_emitted,
        sse::delta_in(event) is Some,
        sse::delta_in(event)->0.finished,
    ensures
        ({
            let answer = sse::with_event(state.text, event).answer;
            let decision = reply::decision_on(answer, context.tool_list(), context.settings);
            &&& decision is Emit && decision->emit.len() > 0 ==> (observed(context, state, Some(event))
                matches Some((next, news)) && news.emission == EmissionModel::Calls(decision->emit)
                && news.feedback == decision->feedback && next.tool_emitted)
            &&& decision is Blocked ==> (observed(context, state, Some(event)) matches Some((next, news))
                && news.emission == EmissionModel::Blocked(decision->Blocked_0) && news.feedback.len() == 1
                && next.tool_emitted)
            &&& decision is Emit && decision->emit.len() == 0 ==> (observed(context, state, Some(event))
                matches Some((next, news)) ==> !next.tool_emitted && news.feedback
                == decision->feedback && !(news.emission is Calls) && !(news.emission is Blocked))
        }),
{
}

/// Nothing goes out twice: once calls have gone out, no text and no more calls do; and calls go out only
/// with an event that finishes the reply.
pub proof fn law_calls_go_out_once(context: StreamContext, state: StateModel, event: JsonModel)
    ensures
        state.tool_emitted ==> (observed(context, state, Some(event)) matches Some((next, news))
            && news.emission is Silent && next.tool_emitted),
        state.content_emitted || sse::delta_in(event) is None || !sse::delta_in(event)->0.finished ==> (
        observed(context, state, Some(event)) matches Some((next, news)) ==> !(news.emission is Calls)
            && !(news.emission is Blocked) && next.tool_emitted == state.tool_emitted
            && news.feedback.len() == 0),
{
}

/// While tools are offered, no text goes out before the reply is finished; without tools it goes out as
/// it comes.
pub proof fn law_text_waits_for_the_decision(
    context: StreamContext,
    state: StateModel,
    event: JsonModel,
)
    requires
        !state.tool_emitted,
        !state.content_emitted,
        sse::delta_in(event) is None || !sse::delta_in(event)->0.finished,
        context.format() is None,
    ensures
        context.has_tools() ==> (observed(context, state, Some(event)) matches Some((_, news))
            && news.emission is Silent),
        !context.has_tools() && state.prev_len == text::byte_len(state.text.answer) && sse::with_event(
            state.text,
            event,
        ).answer != state.text.answer ==> (observed(context, state, Some(event)) matches Some(
            (next, news),
        ) && (news.emission matches EmissionModel::Content { delta, at_start } && state.text.answer
            + delta == next.text.answer && at_start == (state.prev_len == 0))),
{
    if !context.has_tools() && state.prev_len == text::byte_len(state.text.answer) {
        law_content_adds_up_to_answer(context, state, Some(event));
        if let Some((next, news)) = observed(context, state, Some(event)) {
            if !(news.emission is Content) {
                assert(state.text.answer + content_of(news.emission) =~= state.text.answer);
            }
        }
    }
}

/// When the upstream stream ends and nothing has gone out, all calls that validation lets out close the
/// stream, or else the text; a tool error is recovered from; and where something has gone out, nothing is
/// left.
pub proof fn law_what_is_left_at_the_end(context: StreamContext, state: StateModel)
    ensures
        state.done || state.tool_emitted || state.content_emitted ==> end_step(context, state) == Some(
            EndModel::Close { feedback: Seq::empty(), closing: ClosingModel::Sent },
        ),
        !state.done && !state.tool_emitted && !state.content_emitted ==> {
            let answer = state.text.answer;
            let decision = reply::decision_on(answer, context.tool_list(), context.settings);
            &&& context.has_tools() && tool_error::cleanly_cut(answer) && tool_error::tool_error(answer)
                is Some ==> (end_step(context, state) matches Some(EndModel::Recover { message, error })
                && error == tool_error::tool_error(answer)->0 && message
                == "ok pretend it does exist and call it properly anyway"@)
            &&& !context.has_tools() || (tool_error::cleanly_cut(answer) && tool_error::tool_error(answer)
                is None) ==> {
                &&& decision is Emit && decision->emit.len() > 0 ==> end_step(context, state) == Some(
                    EndModel::Close {
                        feedback: decision->feedback,
                        closing: ClosingModel::Calls(decision->emit),
                    },
                )
                &&& decision is Blocked ==> (end_step(context, state) matches Some(
                    EndModel::Close { feedback, closing },
                ) && closing == ClosingModel::Blocked(decision->Blocked_0) && feedback.len() == 1)
                &&& decision is Emit && decision->emit.len() == 0 && !sse::wants_json(context.format())
                    ==> end_step(context, state) == Some(
                    EndModel::Close {
                        feedback: decision->feedback,
                        closing: ClosingModel::Content(
                            if context.has_tools() && detect::looks_like_call(answer) {
                                Seq::empty()
                            } else {
                                answer
                            },
                        ),
                    },
                )
            }
        },
{
}

/// The chunks of several calls are those of each call, one behind the other, each with the name, the
/// arguments and the place of its call.
pub proof fn law_calls_are_streamed_one_by_one(
    head: HeadModel,
    calls: Seq<CallModel>,
    call: CallModel,
    ids: Seq<Seq<char>>,
)
    ensures
        calls_chunks(head, Seq::empty(), ids).len() == 0,
        calls_chunks(head, calls.push(call), ids) == calls_chunks(head, calls, ids)
            + chunks::call_chunks(
            head.id,
            head.model,
            head.created,
            calls.len() as int,
            "call_"@ + ids[calls.len() as int],
            call.name,
            json::json_text(call.args),
        ),
{
    assert(calls.push(call).drop_last() =~= calls);
}

/// Each chunk goes out as an event of its own, in order, as it is.
pub proof fn law_chunks_go_out_as_events(list: Seq<Seq<char>>, more: Seq<Seq<char>>, chunk: Seq<char>)
    ensures
        framed(Seq::empty()) == Seq::<char>::empty(),
        framed(list.push(chunk)) == framed(list) + "data: "@ + chunk + "\n\n"@,
        framed(list + more) == framed(list) + framed(more),
    decreases more.len(),
{
    assert(list.push(chunk).drop_last() =~= list);
    if more.len() == 0 {
        assert(list + more =~= list);
        assert(framed(list) + framed(more) =~= framed(list));
    } else {
        law_chunks_go_out_as_events(list, more.drop_last(), chunk);
        assert((list + more).drop_last() =~= list + more.drop_last());
        assert(framed(list + more) =~= framed(list) + framed(more));
    }
}

/// What goes out with a line is the announcement of a response, where it is one and has not been
/// announced; then what was thought, where anything was; then the text or the calls.
pub proof fn law_what_goes_out_with_a_line(
    head: HeadModel,
    state: StateModel,
    news: NewsModel,
    ids: Seq<Seq<char>>,
)
    ensures
        line_chunks(head, state, news, ids) == leading_chunks(head, state, news.thinking)
            + emission_chunks(head, state, news.emission, ids),
        !head.responses_api && news.thinking.len() > 0 ==> leading_chunks(head, state, news.thinking)
            == seq![
            chunks::chunk_text(
                head.id,
                head.model,
                head.created,
                chunks::reasoning_delta(news.thinking, !state.thinking_role_sent),
                None,
            ),
        ],
        !head.responses_api && news.thinking.len() == 0 ==> leading_chunks(
            head,
            state,
            news.thinking,
        ).len() == 0,
        head.responses_api && !state.resp_created ==> leading_chunks(head, state, news.thinking).len() > 0
            && leading_chunks(head, state, news.thinking)[0] == json::json_text(created_event(head)),
        news.thinking.len() > 0 ==> leading_chunks(head, state, news.thinking).last()
            == chunks::chunk_text(
            head.id,
            head.model,
            head.created,
            chunks::reasoning_delta(news.thinking, !state.thinking_role_sent),
            None,
        ),
        head.responses_api ==> after_line(head, state, news, ids).resp_created,
        news.thinking.len() > 0 ==> after_line(head, state, news, ids).thinking_role_sent,
        after_line(head, state, news, ids).text == state.text,
        after_line(head, state, news, ids).prev_len == state.prev_len,
        after_line(head, state, news, ids).tool_emitted == state.tool_emitted,
        after_line(head, state, news, ids).content_emitted == state.content_emitted,
        after_line(head, state, news, ids).done == state.done,
{
    let thought = chunks::chunk_text(
        head.id,
        head.model,
        head.created,
        chunks::reasoning_delta(news.thinking, !state.thinking_role_sent),
        None,
    );
    assert(Seq::<Seq<char>>::empty().push(thought) =~= seq![thought]);
}

/// Text goes out as it is: in a completion as the content of one chunk, with the role where it is the
/// first; in a response as the last event, under the item that was announced for it.
pub proof fn law_text_goes_out_as_it_is(
    head: HeadModel,
    state: StateModel,
    delta: Seq<char>,
    at_start: bool,
    ids: Seq<Seq<char>>,
)
    ensures
        ({
            let sent = emission_chunks(head, state, EmissionModel::Content { delta, at_start }, ids);
            &&& !head.responses_api ==> exists|value: JsonModel|
                value.str_at("content"@) == Some(delta) && (at_start ==> value.str_at("role"@) == Some(
                    "assistant"@,
                )) && sent == seq![
                    #[trigger] chunks::chunk_text(head.id, head.model, head.created, value, None),
                ]
            &&& head.responses_api && state.output_started ==> sent == seq![
                json::json_text(text_event(state.item_id, delta)),
            ]
            &&& head.responses_api && !state.output_started ==> sent.len() == 2 && sent[0]
                == json::json_text(item_added(0, reply::text_item("msg_"@ + ids[0], ""@))) && sent[1]
                == json::json_text(text_event("msg_"@ + ids[0], delta))
        }),
        text_event(state.item_id, delta).str_at("delta"@) == Some(delta),
        text_event(state.item_id, delta).str_at("item_id"@) == Some(state.item_id),
{
    lemma_delta_fields(state.item_id, delta);
    let value = if at_start {
        reply::text_message(delta)
    } else {
        content_delta(delta)
    };
    assert(value.str_at("content"@) == Some(delta));
    assert(!head.responses_api ==> emission_chunks(
        head,
        state,
        EmissionModel::Content { delta, at_start },
        ids,
    ) == seq![chunks::chunk_text(head.id, head.model, head.created, value, None)]);
}

/// The fields of deltas that carry text.
proof fn lemma_delta_fields(id: Seq<char>, delta: Seq<char>)
    ensures
        content_delta(delta).str_at("content"@) == Some(delta),
        reply::text_message(delta).str_at("content"@) == Some(delta),
        reply::text_message(delta).str_at("role"@) == Some("assistant"@),
        text_event(id, delta).str_at("delta"@) == Some(delta),
        text_event(id, delta).str_at("item_id"@) == Some(id),
{
    reveal_strlit("role");
    reveal_strlit("content");
    reveal_strlit("type");
    reveal_strlit("item_id");
    reveal_strlit("delta");
    assert("role"@.len() == 4 && "content"@.len() == 7 && "type"@.len() == 4 && "item_id"@.len() == 7
        && "delta"@.len() == 5);
}

/// Calls go out all: in a completion each with its chunks; in a response the first is announced by its
/// name, where nothing was, and each sends its arguments in its place.
pub proof fn law_calls_go_out_all(
    head: HeadModel,
    state: StateModel,
    calls: Seq<CallModel>,
    ids: Seq<Seq<char>>,
    i: int,
)
    requires
        0 <= i < calls.len(),
    ensures
        ({
            let sent = emission_chunks(head, state, EmissionModel::Calls(calls), ids);
            let event = arguments_event("call_"@ + ids[i], i, json::json_text(calls[i].args));
            &&& !head.responses_api ==> sent == calls_chunks(head, calls, ids)
            &&& head.responses_api && state.output_started ==> sent.len() == calls.len() && sent[i]
                == json::json_text(event)
            &&& head.responses_api && !state.output_started ==> sent.len() == calls.len() + 1 && sent[i + 1]
                == json::json_text(event) && sent[0] == json::json_text(
                item_added(0, call_item("call_"@ + ids[0], calls[0].name, ""@)),
            )
            &&& event.str_at("delta"@) == Some(json::json_text(calls[i].args))
            &&& event.get("output_index"@) == Some(json::json_int(i))
            &&& event.str_at("item_id"@) == Some("call_"@ + ids[i])
        }),
        line_ids(head, state, EmissionModel::Calls(calls)) == calls.len(),
{
    reveal_strlit("type");
    reveal_strlit("item_id");
    reveal_strlit("output_index");
    reveal_strlit("delta");
    assert("type"@.len() == 4 && "item_id"@.len() == 7 && "output_index"@.len() == 12 && "delta"@.len()
        == 5);
}

/// An item that is announced is named with what it is: a call by its name and its arguments.
pub proof fn law_items_say_what_they_are(
    index: int,
    item: JsonModel,
    id: Seq<char>,
    name: Seq<char>,
    arguments: Seq<char>,
)
    ensures
        item_added(index, item).get("item"@) == Some(item),
        item_done(item).get("item"@) == Some(item),
        call_item(id, name, arguments).str_at("name"@) == Some(name),
        call_item(id, name, arguments).str_at("arguments"@) == Some(arguments),
        call_item(id, name, arguments).str_at("call_id"@) == Some(id),
        call_item(id, name, arguments).str_at("type"@) == Some("function_call"@),
{
    reveal_strlit("type");
    reveal_strlit("output_index");
    reveal_strlit("item");
    reveal_strlit("id");
    reveal_strlit("call_id");
    reveal_strlit("name");
    reveal_strlit("arguments");
    assert("type"@.len() == 4 && "output_index"@.len() == 12 && "item"@.len() == 4 && "id"@.len() == 2);
    assert("call_id"@.len() == 7 && "name"@.len() == 4 && "arguments"@.len() == 9);
    assert("type"@[0] == 't' && "item"@[0] == 'i' && "name"@[0] == 'n');
}

/// A stream closes with all that is left: the calls, each with its chunks, or the text as it is; and a
/// completion says that it stopped, or that it stopped for calls. Of several calls left at the end a
/// response carries the first.
pub proof fn law_streams_close_with_what_is_left(
    context: StreamContext,
    state: StateModel,
    calls: Seq<CallModel>,
    content: Seq<char>,
    ids: Seq<Seq<char>>,
)
    requires
        content.len() > 0,
        calls.len() > 0,
    ensures
        ({
            let head = context.head@;
            &&& !head.responses_api ==> left_chunks(head, state, ClosingModel::Calls(calls), ids)
                == calls_chunks(head, calls, ids)
            &&& head.responses_api && !state.output_started ==> left_chunks(
                head,
                state,
                ClosingModel::Calls(calls),
                ids,
            ) == seq![
                json::json_text(
                    item_added(
                        0,
                        call_item("call_"@ + ids[0], calls[0].name, json::json_text(calls[0].args)),
                    ),
                ),
            ]
            &&& !head.responses_api ==> left_chunks(head, state, ClosingModel::Content(content), ids)
                == seq![
                chunks::chunk_text(
                    head.id,
                    head.model,
                    head.created,
                    reply::text_message(content),
                    Some("stop"@),
                ),
            ]
            &&& head.responses_api ==> left_chunks(head, state, ClosingModel::Content(content), ids)
                == seq![json::json_text(item_added(0, reply::text_item("msg_"@ + ids[0], content)))]
            &&& !head.responses_api && state.tool_emitted ==> completing_chunks(
                context,
                state,
                ClosingModel::Sent,
            ) == seq![
                chunks::chunk_text(
                    head.id,
                    head.model,
                    head.created,
                    JsonModel::Object(Map::empty()),
                    Some("tool_calls"@),
                ),
            ]
            &&& !head.responses_api && !state.tool_emitted && state.content_emitted ==> completing_chunks(
                context,
                state,
                ClosingModel::Sent,
            ) == seq![
                chunks::chunk_text(
                    head.id,
                    head.model,
                    head.created,
                    JsonModel::Object(Map::empty()),
                    Some("stop"@),
                ),
            ]
            &&& head.responses_api ==> completing_chunks(context, state, ClosingModel::Sent).len() > 0
                && completing_chunks(context, state, ClosingModel::Sent).last() == json::json_text(
                completed_event(head, chunks::token_count(state.text.answer) as int),
            )
            &&& closing_chunks(context, state, ClosingModel::Calls(calls), ids) == left_chunks(
                head,
                state,
                ClosingModel::Calls(calls),
                ids,
            ) + completing_chunks(context, state, ClosingModel::Calls(calls))
        }),
{
}

/// A stream that breaks off says why, and one that is blocked names the unknown tools.
pub proof fn law_broken_streams_say_why(
    head: HeadModel,
    error: Seq<char>,
    names: Seq<Seq<char>>,
    i: int,
)
    requires
        0 <= i < names.len(),
    ensures
        error_chunk(head, error) == chunks::chunk_text(
            head.id,
            head.model,
            head.created,
            content_delta("[Error: "@ + error + "]"@),
            Some("stop"@),
        ),
        head.responses_api ==> blocked_chunk(head, names) == json::json_text(
            error_event(tool_error::invalid_calls_message(names)),
        ),
        !head.responses_api ==> blocked_chunk(head, names) == chunks::chunk_text(
            head.id,
            head.model,
            head.created,
            content_delta("[Tool Error: "@ + tool_error::invalid_calls_message(names) + "]"@),
            Some("stop"@),
        ),
        text::has_part(tool_error::invalid_calls_message(names), names[i]),
        error_event(error).at("error"@).str_at("message"@) == Some(error),
{
    tool_error::law_unknown_tools_are_named(names, error, error, Seq::empty(), i);
    reveal_strlit("type");
    reveal_strlit("error");
    reveal_strlit("message");
    assert("type"@.len() == 4 && "error"@.len() == 5 && "message"@.len() == 7);
}

/// What the model said once it was asked to go on goes out as it is; where it said nothing, the error
/// does, with the tools that may be called.
pub proof fn law_recovered_text_goes_out(
    context: StreamContext,
    error: Seq<char>,
    said: Seq<char>,
    id: Seq<char>,
)
    ensures
        ({
            let head = context.head@;
            let chunks_sent = recovery_chunks(context, error, Some(said), id);
            let report = json::json_text(tool_error::tools_error(error, context.tool_list()));
            &&& said.len() > 0 && !head.responses_api ==> chunks_sent.len() == 2 && chunks_sent[0]
                == chunks::chunk_text(
                head.id,
                head.model,
                head.created,
                reply::text_message(said),
                None,
            )
            &&& said.len() > 0 && head.responses_api ==> chunks_sent.len() == 4 && chunks_sent[1]
                == json::json_text(text_event("msg_"@ + id, said)) && chunks_sent[2] == json::json_text(
                item_done(reply::text_item("msg_"@ + id, said)),
            ) && chunks_sent[3] == json::json_text(
                completed_event(head, chunks::token_count(said) as int),
            )
            &&& recovery_chunks(context, error, None, id)[0] == report
            &&& said.len() == 0 ==> chunks_sent == recovery_chunks(context, error, None, id)
        }),
{
}

/// An answer is shown as it is, unless tools are offered and it looks like a call; where a format is
/// asked for, without its fence.
pub proof fn law_answers_are_shown_as_they_are(answer: Seq<char>, tools_present: bool)
    ensures
        shown(answer, false, false) == answer,
        !detect::looks_like_call(answer) ==> shown(answer, tools_present, false) == answer,
        detect::looks_like_call(answer) ==> shown(answer, true, false).len() == 0,
        shown(answer, tools_present, true) == patterns::stripped_codeblock(
            shown(answer, tools_present, false),
        ),
{
}

/// Whatever is shown of an answer goes out once: what goes out with an event is what is shown now, from
/// where the last that went out ended; and nothing is held back that may go out.
pub proof fn law_what_is_shown_goes_out_once(
    context: StreamContext,
    state: StateModel,
    event: JsonModel,
)
    requires
        !state.tool_emitted,
        state.content_emitted || !context.has_tools(),
        state.content_emitted || sse::delta_in(event) is None || !sse::delta_in(event)->0.finished,
    ensures
        ({
            let answer = sse::with_event(state.text, event).answer;
            let whole = shown(answer, context.has_tools(), context.format() is Some);
            let len = text::byte_len(whole) as int;
            &&& len <= state.prev_len ==> (observed(context, state, Some(event)) matches Some((next, news))
                && news.emission is Silent && next.prev_len == len)
            &&& len > state.prev_len && text::cuts(whole, state.prev_len) ==> (observed(
                context,
                state,
                Some(event),
            ) matches Some((next, news)) && news.emission == (EmissionModel::Content {
                delta: text::byte_range(whole, state.prev_len, len),
                at_start: state.prev_len == 0,
            }) && next.prev_len == len)
        }),
{
}

/// The events that announce and complete a response carry its id and its model, and the last what it
/// took.
pub proof fn law_responses_are_announced_and_completed(head: HeadModel, tokens: int)
    ensures
        created_event(head).str_at("type"@) == Some("response.created"@),
        created_event(head).at("response"@).str_at("id"@) == Some(head.id),
        created_event(head).at("response"@).str_at("model"@) == Some(head.model),
        completed_event(head, tokens).str_at("type"@) == Some("response.completed"@),
        completed_event(head, tokens).at("response"@).str_at("id"@) == Some(head.id),
        completed_event(head, tokens).at("response"@).str_at("model"@) == Some(head.model),
        completed_event(head, tokens).at("response"@).get("usage"@) == Some(
            reply::response_usage(head.prompt_tokens, tokens),
        ),
{
    reveal_strlit("type");
    reveal_strlit("response");
    reveal_strlit("id");
    reveal_strlit("object");
    reveal_strlit("created_at");
    reveal_strlit("model");
    reveal_strlit("usage");
    assert("type"@.len() == 4 && "response"@.len() == 8 && "id"@.len() == 2 && "object"@.len() == 6);
    assert("created_at"@.len() == 10 && "model"@.len() == 5 && "usage"@.len() == 5);
    assert("model"@[0] == 'm' && "usage"@[0] == 'u');
}

/// Where JSON is asked for, a stream closes with the answer without its fence, where that is JSON, and
/// else says that it is not.
pub proof fn law_streams_close_in_the_format_asked_for(answer: Seq<char>, format: JsonModel)
    requires
        format.get("type"@) == Some(JsonModel::Str("json_object"@)) || format.get("type"@) == Some(
            JsonModel::Str("json_schema"@),
        ),
    ensures
        json::json_parse(patterns::stripped_codeblock(answer)) is Ok ==> closing_text(
            answer,
            false,
            Some(format),
        ) == patterns::stripped_codeblock(answer),
        json::json_parse(patterns::stripped_codeblock(answer)) is Err
            ==> "[Structured Output Error: "@.is_prefix_of(closing_text(answer, false, Some(format))),
{
    sse::law_formats_are_kept_to(answer, Some(format));
    if json::json_parse(patterns::stripped_codeblock(answer)) is Err {
        let start = "[Structured Output Error: "@;
        let whole = closing_text(answer, false, Some(format));
        assert(whole.subrange(0, start.len() as int) =~= start);
    }
}

/// A response whose text went out closes the item with all that the client may see of the answer.
pub proof fn law_items_are_closed_with_their_text(context: StreamContext, state: StateModel)
    requires
        context.head@.responses_api,
        state.output_started,
        !state.tool_emitted,
    ensures
        completing_chunks(context, state, ClosingModel::Sent).len() == 2,
        completing_chunks(context, state, ClosingModel::Sent)[0] == json::json_text(
            item_done(
                reply::text_item(
                    state.item_id,
                    detect::visible(state.text.answer, false, context.has_tools()),
                ),
            ),
        ),
{
}

} // verus!
