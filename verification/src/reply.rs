//! Replies to completions that are not streamed.
use vstd::prelude::*;

use crate::chunks;
use crate::chunks::estimate_tokens;
use crate::detect;
use crate::detect::{client_visible_content, detect_tools, CallModel, ToolCall};
use crate::gate;
use crate::gate::{validate_tool_calls, GateModel, GateSettings, ToolGateResult};
use crate::json;
use crate::json::{json_string, Json, JsonModel};
use crate::machine;
use crate::machine::random_id;
use crate::numeral;
use crate::numeral::decimal_text;
use crate::replies;
use crate::replies::{
    internal_error, json_response, openai_error_response, HttpReply, ReplyModel,
};
use crate::sse;
use crate::sse::{
    accumulate, last_response_id, parse_qwen_upstream_error, process_structured_output,
    read_events, ContinuationResponse,
};
use crate::text;
use crate::text::{contains, push_text};
use crate::tool_error;
use crate::tool_error::{
    build_synthetic_tool_ok_feedback_for_name, build_tool_hallucination_feedback,
    checked_tool_error, construct_tool_error_json, extract_tool_name_from_error, tools_error_json,
};

verus! {

/// What every part of a reply carries.
#[derive(Debug)]
pub struct ReplyHead {
    pub id: String,
    pub model: String,
    pub created: i64,
    pub prompt_tokens: usize,
    pub responses_api: bool,
}

/// What a [`ReplyHead`] says.
pub struct HeadModel {
    pub id: Seq<char>,
    pub model: Seq<char>,
    pub created: int,
    pub prompt_tokens: int,
    pub responses_api: bool,
}

impl ReplyHead {
    /// What the head says.
    pub open spec fn view(&self) -> HeadModel {
        HeadModel {
            id: self.id@,
            model: self.model@,
            created: self.created as int,
            prompt_tokens: self.prompt_tokens as int,
            responses_api: self.responses_api,
        }
    }

    /// The prompt has as many tokens as a text can have.
    pub open spec fn valid(&self) -> bool {
        self.prompt_tokens <= usize::MAX / 4
    }
}

/// The tokens that a completion took.
pub open spec fn chat_usage(prompt: int, completion: int) -> JsonModel {
    JsonModel::Object(
        map![
            "prompt_tokens"@ => json::json_int(prompt),
            "completion_tokens"@ => json::json_int(completion),
            "total_tokens"@ => json::json_int(prompt + completion),
        ],
    )
}

/// The tokens that a response took.
pub open spec fn response_usage(input: int, output: int) -> JsonModel {
    JsonModel::Object(
        map![
            "input_tokens"@ => json::json_int(input),
            "output_tokens"@ => json::json_int(output),
            "total_tokens"@ => json::json_int(input + output),
        ],
    )
}

/// Builds the tokens that a completion took.
pub fn build_chat_usage(prompt: usize, completion: usize) -> (usage: Json)
    requires
        prompt <= usize::MAX / 4,
        completion <= usize::MAX / 4,
    ensures
        usage@ == chat_usage(prompt as int, completion as int),
{
    Json::object().with("prompt_tokens", Json::integer(prompt as i128)).with(
        "completion_tokens",
        Json::integer(completion as i128),
    ).with("total_tokens", Json::integer(prompt as i128 + completion as i128))
}

/// Builds the tokens that a response took.
pub fn build_response_usage(input: usize, output: usize) -> (usage: Json)
    requires
        input <= usize::MAX / 4,
        output <= usize::MAX / 4,
    ensures
        usage@ == response_usage(input as int, output as int),
{
    Json::object().with("input_tokens", Json::integer(input as i128)).with(
        "output_tokens",
        Json::integer(output as i128),
    ).with("total_tokens", Json::integer(input as i128 + output as i128))
}

/// A completion that holds one message.
pub open spec fn chat_body(
    head: HeadModel,
    message: JsonModel,
    finish_reason: Seq<char>,
    tokens: int,
) -> JsonModel {
    JsonModel::Object(
        map![
            "id"@ => JsonModel::Str(head.id),
            "object"@ => JsonModel::Str("chat.completion"@),
            "created"@ => json::json_int(head.created),
            "model"@ => JsonModel::Str(head.model),
            "choices"@ => JsonModel::Array(seq![JsonModel::Object(map![
                "index"@ => json::json_int(0),
                "message"@ => message,
                "finish_reason"@ => JsonModel::Str(finish_reason),
            ])]),
            "usage"@ => chat_usage(head.prompt_tokens, tokens),
        ],
    )
}

/// A response that holds some items.
pub open spec fn response_body(head: HeadModel, output: Seq<JsonModel>, tokens: int) -> JsonModel {
    JsonModel::Object(
        map![
            "id"@ => JsonModel::Str(head.id),
            "object"@ => JsonModel::Str("response"@),
            "created_at"@ => json::json_int(head.created),
            "model"@ => JsonModel::Str(head.model),
            "output"@ => JsonModel::Array(output),
            "usage"@ => response_usage(head.prompt_tokens, tokens),
        ],
    )
}

/// Builds a completion that holds one message.
pub fn build_chat_body(head: &ReplyHead, message: Json, finish_reason: &str, tokens: usize) -> (body:
    Json)
    requires
        head.valid(),
        tokens <= usize::MAX / 4,
    ensures
        body@ == chat_body(head@, message@, finish_reason@, tokens as int),
{
    Json::object().with("id", Json::text(head.id.as_str())).with(
        "object",
        Json::text("chat.completion"),
    ).with("created", Json::integer(head.created as i128)).with(
        "model",
        Json::text(head.model.as_str()),
    ).with(
        "choices",
        Json::single(
            Json::object().with("index", Json::integer(0)).with("message", message).with(
                "finish_reason",
                Json::text(finish_reason),
            ),
        ),
    ).with("usage", build_chat_usage(head.prompt_tokens, tokens))
}

/// Builds a response that holds some items.
pub fn build_response_body(head: &ReplyHead, output: Vec<Json>, tokens: usize) -> (body: Json)
    requires
        head.valid(),
        tokens <= usize::MAX / 4,
    ensures
        body@ == response_body(head@, json::elements(output@), tokens as int),
{
    Json::object().with("id", Json::text(head.id.as_str())).with(
        "object",
        Json::text("response"),
    ).with("created_at", Json::integer(head.created as i128)).with(
        "model",
        Json::text(head.model.as_str()),
    ).with("output", Json::Array(output)).with(
        "usage",
        build_response_usage(head.prompt_tokens, tokens),
    )
}

/// A message of the assistant that holds text.
pub open spec fn text_message(content: Seq<char>) -> JsonModel {
    JsonModel::Object(
        map!["role"@ => JsonModel::Str("assistant"@), "content"@ => JsonModel::Str(content)],
    )
}

/// Builds a message of the assistant that holds text.
pub fn build_text_message(content: &str) -> (message: Json)
    ensures
        message@ == text_message(content@),
{
    Json::object().with("role", Json::text("assistant")).with("content", Json::text(content))
}

/// An item of a response that holds text.
pub open spec fn text_item(id: Seq<char>, content: Seq<char>) -> JsonModel {
    JsonModel::Object(
        map![
            "id"@ => JsonModel::Str(id),
            "type"@ => JsonModel::Str("message"@),
            "role"@ => JsonModel::Str("assistant"@),
            "content"@ => JsonModel::Array(seq![JsonModel::Object(map![
                "type"@ => JsonModel::Str("output_text"@),
                "text"@ => JsonModel::Str(content),
                "annotations"@ => JsonModel::Array(Seq::empty()),
            ])]),
        ],
    )
}

/// Builds an item of a response that holds text.
pub fn build_text_item(id: &str, content: &str) -> (item: Json)
    ensures
        item@ == text_item(id@, content@),
{
    Json::object().with("id", Json::text(id)).with("type", Json::text("message")).with(
        "role",
        Json::text("assistant"),
    ).with(
        "content",
        Json::single(
            Json::object().with("type", Json::text("output_text")).with(
                "text",
                Json::text(content),
            ).with("annotations", Json::no_items()),
        ),
    )
}

/// A call in a completion.
pub open spec fn chat_call(index: int, id: Seq<char>, call: CallModel) -> JsonModel {
    JsonModel::Object(
        map![
            "index"@ => json::json_int(index),
            "id"@ => JsonModel::Str("call_"@ + id),
            "type"@ => JsonModel::Str("function"@),
            "function"@ => JsonModel::Object(map![
                "name"@ => JsonModel::Str(call.name),
                "arguments"@ => JsonModel::Str(json::json_text(call.args)),
            ]),
        ],
    )
}

/// A call in a response.
pub open spec fn response_call(id: Seq<char>, call_id: Seq<char>, call: CallModel) -> JsonModel {
    JsonModel::Object(
        map![
            "type"@ => JsonModel::Str("function_call"@),
            "id"@ => JsonModel::Str("call_"@ + id),
            "call_id"@ => JsonModel::Str("call_"@ + call_id),
            "name"@ => JsonModel::Str(call.name),
            "arguments"@ => JsonModel::Str(json::json_text(call.args)),
        ],
    )
}

/// An id behind a prefix.
pub fn with_prefix(prefix: &str, id: &str) -> (whole: String)
    ensures
        whole@ == prefix@ + id@,
{
    let mut whole = prefix.to_owned();
    whole.push_str(id);
    whole
}

/// Builds a call in a completion.
fn build_chat_call(index: usize, id: &str, call: &ToolCall) -> (value: Json)
    ensures
        value@ == chat_call(index as int, id@, call@),
{
    Json::object().with("index", Json::integer(index as i128)).with(
        "id",
        Json::text(with_prefix("call_", id).as_str()),
    ).with("type", Json::text("function")).with(
        "function",
        Json::object().with("name", Json::text(call.name.as_str())).with(
            "arguments",
            Json::text(json_string(&call.args).as_str()),
        ),
    )
}

/// Builds a call in a response.
fn build_response_call(id: &str, call_id: &str, call: &ToolCall) -> (value: Json)
    ensures
        value@ == response_call(id@, call_id@, call@),
{
    Json::object().with("type", Json::text("function_call")).with(
        "id",
        Json::text(with_prefix("call_", id).as_str()),
    ).with("call_id", Json::text(with_prefix("call_", call_id).as_str())).with(
        "name",
        Json::text(call.name.as_str()),
    ).with("arguments", Json::text(json_string(&call.args).as_str()))
}

/// The calls of a completion.
pub open spec fn chat_calls(calls: Seq<CallModel>, ids: Seq<Seq<char>>) -> Seq<JsonModel> {
    Seq::new(calls.len(), |i: int| chat_call(i, ids[i], calls[i]))
}

/// The calls of a response; each takes two ids.
pub open spec fn response_calls(calls: Seq<CallModel>, ids: Seq<Seq<char>>) -> Seq<JsonModel> {
    Seq::new(calls.len(), |i: int| response_call(ids[2 * i], ids[2 * i + 1], calls[i]))
}

/// Builds the calls of a completion.
fn build_chat_calls(calls: &Vec<ToolCall>, ids: &Vec<String>) -> (values: Vec<Json>)
    requires
        calls@.len() <= ids@.len(),
    ensures
        json::elements(values@) == chat_calls(detect::calls(calls@), text::texts(ids@)),
{
    let ghost all = chat_calls(detect::calls(calls@), text::texts(ids@));
    let mut values: Vec<Json> = Vec::new();
    let mut i: usize = 0;
    assert(all.take(0) =~= Seq::empty());
    while i < calls.len()
        invariant
            i <= calls@.len() <= ids@.len(),
            all == chat_calls(detect::calls(calls@), text::texts(ids@)),
            json::elements(values@) == all.take(i as int),
        decreases calls@.len() - i,
    {
        let value = build_chat_call(i, ids[i].as_str(), &calls[i]);
        proof {
            json::lemma_elements_push(values@, value);
            assert(all[i as int] == value@);
            assert(all.take(i + 1) =~= all.take(i as int).push(value@));
        }
        values.push(value);
        i += 1;
    }
    assert(all.take(i as int) =~= all);
    values
}

/// Builds the calls of a response.
fn build_response_calls(calls: &Vec<ToolCall>, ids: &Vec<String>) -> (values: Vec<Json>)
    requires
        2 * calls@.len() <= ids@.len(),
    ensures
        json::elements(values@) == response_calls(detect::calls(calls@), text::texts(ids@)),
{
    let ghost all = response_calls(detect::calls(calls@), text::texts(ids@));
    let total: usize = ids.len();
    let mut values: Vec<Json> = Vec::new();
    let mut i: usize = 0;
    assert(all.take(0) =~= Seq::empty());
    while i < calls.len()
        invariant
            i <= calls@.len(),
            2 * calls@.len() <= ids@.len() == total,
            all == response_calls(detect::calls(calls@), text::texts(ids@)),
            json::elements(values@) == all.take(i as int),
        decreases calls@.len() - i,
    {
        let value = build_response_call(ids[2 * i].as_str(), ids[2 * i + 1].as_str(), &calls[i]);
        proof {
            json::lemma_elements_push(values@, value);
            assert(all[i as int] == value@);
            assert(all.take(i + 1) =~= all.take(i as int).push(value@));
        }
        values.push(value);
        i += 1;
    }
    assert(all.take(i as int) =~= all);
    values
}

/// What a completion comes to, before it is written as a reply.
#[derive(Debug)]
pub enum Answer {
    /// A reply as it stands.
    Reply(HttpReply),
    /// Calls, in the form of a completion or in that of the request.
    Calls { calls: Vec<ToolCall>, tokens: usize, chat_form: bool },
    /// Text.
    Text { content: String, tokens: usize },
}

/// What an [`Answer`] says.
pub enum AnswerModel {
    Reply(ReplyModel),
    Calls { calls: Seq<CallModel>, tokens: int, chat_form: bool },
    Text { content: Seq<char>, tokens: int },
}

impl Answer {
    /// What the answer says.
    pub open spec fn view(&self) -> AnswerModel {
        match self {
            Answer::Reply(reply) => AnswerModel::Reply(reply@),
            Answer::Calls { calls, tokens, chat_form } => AnswerModel::Calls {
                calls: detect::calls(calls@),
                tokens: *tokens as int,
                chat_form: *chat_form,
            },
            Answer::Text { content, tokens } => AnswerModel::Text {
                content: content@,
                tokens: *tokens as int,
            },
        }
    }

    /// The answer has as many tokens as a text can have.
    pub open spec fn valid(&self) -> bool {
        match self {
            Answer::Reply(_) => true,
            Answer::Calls { tokens, .. } => *tokens <= usize::MAX / 4,
            Answer::Text { tokens, .. } => *tokens <= usize::MAX / 4,
        }
    }
}

/// How many fresh ids it takes to write an answer.
pub open spec fn ids_needed(answer: AnswerModel, responses_api: bool) -> int {
    match answer {
        AnswerModel::Reply(_) => 0,
        AnswerModel::Calls { calls, chat_form, .. } => if chat_form || !responses_api {
            calls.len() as int
        } else {
            2 * calls.len() as int
        },
        AnswerModel::Text { .. } => if responses_api {
            1
        } else {
            0
        },
    }
}

/// An answer, written as a reply with some fresh ids.
pub open spec fn written(
    head: HeadModel,
    answer: AnswerModel,
    ids: Seq<Seq<char>>,
) -> ReplyModel {
    match answer {
        AnswerModel::Reply(reply) => reply,
        AnswerModel::Calls { calls, tokens, chat_form } => if chat_form || !head.responses_api {
            let message = JsonModel::Object(
                map![
                    "role"@ => JsonModel::Str("assistant"@),
                    "content"@ => JsonModel::Null,
                    "tool_calls"@ => JsonModel::Array(chat_calls(calls, ids)),
                ],
            );
            replies::json_reply(200, chat_body(head, message, "tool_calls"@, tokens))
        } else {
            replies::json_reply(200, response_body(head, response_calls(calls, ids), tokens))
        },
        AnswerModel::Text { content, tokens } => if head.responses_api {
            replies::json_reply(
                200,
                response_body(head, seq![text_item("msg_"@ + ids[0], content)], tokens),
            )
        } else {
            replies::json_reply(200, chat_body(head, text_message(content), "stop"@, tokens))
        },
    }
}

/// Writes an answer as a reply with some fresh ids.
pub fn write_answer(head: &ReplyHead, answer: Answer, ids: &Vec<String>) -> (reply: HttpReply)
    requires
        head.valid(),
        answer.valid(),
        ids@.len() >= ids_needed(answer@, head@.responses_api),
    ensures
        reply@ == written(head@, answer@, text::texts(ids@)),
{
    match answer {
        Answer::Reply(reply) => reply,
        Answer::Calls { calls, tokens, chat_form } => {
            if chat_form || !head.responses_api {
                let message = Json::object().with("role", Json::text("assistant")).with(
                    "content",
                    Json::Null,
                ).with("tool_calls", Json::Array(build_chat_calls(&calls, ids)));
                json_response(200, &build_chat_body(head, message, "tool_calls", tokens))
            } else {
                let output = build_response_calls(&calls, ids);
                json_response(200, &build_response_body(head, output, tokens))
            }
        },
        Answer::Text { content, tokens } => {
            if head.responses_api {
                let id = with_prefix("msg_", ids[0].as_str());
                let item = build_text_item(id.as_str(), content.as_str());
                let mut output: Vec<Json> = Vec::new();
                proof {
                    json::lemma_elements_push(output@, item);
                    assert(json::elements(output@) =~= Seq::empty());
                    assert(Seq::<JsonModel>::empty().push(item@) =~= seq![item@]);
                }
                output.push(item);
                json_response(200, &build_response_body(head, output, tokens))
            } else {
                let message = build_text_message(content.as_str());
                json_response(200, &build_chat_body(head, message, "stop", tokens))
            }
        },
    }
}

/// Some fresh ids.
pub open spec fn all_ids(ids: Seq<Seq<char>>) -> bool {
    forall|i: int| 0 <= i < ids.len() ==> machine::is_id(#[trigger] ids[i])
}

/// Draws fresh ids.
pub fn fresh_ids(count: usize) -> (ids: Vec<String>)
    ensures
        ids@.len() == count,
        all_ids(text::texts(ids@)),
{
    let mut ids: Vec<String> = Vec::new();
    let mut i: usize = 0;
    while i < count
        invariant
            i <= count,
            ids@.len() == i,
            forall|j: int| 0 <= j < i ==> machine::is_id((#[trigger] ids@[j])@),
        decreases count - i,
    {
        ids.push(random_id());
        i += 1;
    }
    ids
}

/// Writes an answer as a reply, with ids drawn for it.
pub fn answer_now(head: &ReplyHead, answer: Answer) -> (reply: HttpReply)
    requires
        head.valid(),
        answer.valid(),
        ids_needed(answer@, head@.responses_api) <= usize::MAX,
    ensures
        exists|ids: Seq<Seq<char>>|
            all_ids(ids) && ids.len() == ids_needed(answer@, head@.responses_api) && reply@
                == #[trigger] written(head@, answer@, ids),
{
    let count: usize = match &answer {
        Answer::Reply(_) => 0,
        Answer::Calls { calls, chat_form, .. } => if *chat_form || !head.responses_api {
            calls.len()
        } else {
            2 * calls.len()
        },
        Answer::Text { .. } => if head.responses_api {
            1
        } else {
            0
        },
    };
    let ids = fresh_ids(count);
    write_answer(head, answer, &ids)
}

/// What is to be done about a completion.
#[derive(Debug)]
pub enum Step {
    /// Send these messages to the model, one by one, then answer.
    Answer { feedback: Vec<String>, answer: Answer },
    /// Send this message to the model, and answer with what it says then, or else with this error.
    Recover { message: String, error: String },
}

/// What a [`Step`] says.
pub enum StepModel {
    Answer { feedback: Seq<Seq<char>>, answer: AnswerModel },
    Recover { message: Seq<char>, error: Seq<char> },
}

impl Step {
    /// What the step says.
    pub open spec fn view(&self) -> StepModel {
        match self {
            Step::Answer { feedback, answer } => StepModel::Answer {
                feedback: text::texts(feedback@),
                answer: answer@,
            },
            Step::Recover { message, error } => StepModel::Recover {
                message: message@,
                error: error@,
            },
        }
    }

    /// The answer, if it is one, has as many tokens as a text can have.
    pub open spec fn valid(&self) -> bool {
        match self {
            Step::Answer { answer, .. } => answer.valid(),
            Step::Recover { .. } => true,
        }
    }
}

/// The reply to a completion that reports a tool error or calls unknown tools.
pub open spec fn tools_error_reply(message: Seq<char>, tools: Seq<JsonModel>) -> ReplyModel {
    replies::json_reply(400, tool_error::tools_error(message, tools))
}

/// What is done about calls of unknown tools: the model is told, and the client gets an error.
pub open spec fn blocked_step(
    feedback: Seq<Seq<char>>,
    names: Seq<Seq<char>>,
    tools: Seq<JsonModel>,
) -> StepModel {
    StepModel::Answer {
        feedback: feedback.push(
            tool_error::unknown_tools_message(tool_error::debug_list(names)),
        ),
        answer: AnswerModel::Reply(
            tools_error_reply(tool_error::invalid_calls_message(names), tools),
        ),
    }
}

/// What is done about calls of unknown tools.
pub fn handle_blocked_tools(feedback: Vec<String>, bad_names: &Vec<String>, tools: &Vec<Json>) -> (step:
    Step)
    ensures
        step@ == blocked_step(
            text::texts(feedback@),
            text::texts(bad_names@),
            json::elements(tools@),
        ),
        step.valid(),
{
    let mut feedback = feedback;
    push_text(&mut feedback, build_tool_hallucination_feedback(bad_names));
    let reply = json_response(400, &construct_tool_error_json(bad_names, tools));
    Step::Answer { feedback, answer: Answer::Reply(reply) }
}

/// The answer that holds the text of a completion, in the format that was asked for.
pub open spec fn text_answer(
    full: Seq<char>,
    tools_present: bool,
    format: Option<JsonModel>,
) -> AnswerModel {
    match sse::formatted(detect::visible(full, false, tools_present), format) {
        Ok(content) => AnswerModel::Text {
            content,
            tokens: chunks::token_count(full) as int,
        },
        Err(message) => AnswerModel::Reply(
            replies::error_reply(422, message, "invalid_response_error"@),
        ),
    }
}

/// The answer that holds the text of a completion.
pub fn answer_with_text(full: &str, tools_present: bool, format: Option<&Json>) -> (answer: Answer)
    ensures
        answer@ == text_answer(full@, tools_present, sse::json_option(format)),
        answer.valid(),
{
    let visible = client_visible_content(full, None, tools_present);
    match process_structured_output(visible.as_str(), format) {
        Ok(content) => Answer::Text { content, tokens: estimate_tokens(full) },
        Err(message) => Answer::Reply(
            openai_error_response(422, message.as_str(), "invalid_response_error", None, None),
        ),
    }
}

/// What is done about a completion once validation has decided on its calls: `feedback` has gone to
/// the model before.
pub open spec fn gated_step(
    decision: GateModel,
    feedback: Seq<Seq<char>>,
    full: Seq<char>,
    tools: Seq<JsonModel>,
    format: Option<JsonModel>,
) -> StepModel {
    match decision {
        GateModel::Blocked(names) => blocked_step(feedback, names, tools),
        GateModel::Emit { emit, feedback: more } => StepModel::Answer {
            feedback: feedback + more,
            answer: if emit.len() > 0 {
                AnswerModel::Calls {
                    calls: emit,
                    tokens: chunks::token_count(full) as int,
                    chat_form: false,
                }
            } else {
                text_answer(full, tools.len() > 0, format)
            },
        },
    }
}

/// What is done about a completion once validation has decided on its calls.
pub fn step_after_gate(
    decision: ToolGateResult,
    feedback: Vec<String>,
    full: &str,
    tools: &Vec<Json>,
    format: Option<&Json>,
) -> (step: Step)
    ensures
        step@ == gated_step(
            decision@,
            text::texts(feedback@),
            full@,
            json::elements(tools@),
            sse::json_option(format),
        ),
        step.valid(),
        decision@ is Emit && decision@->emit.len() > 0 ==> (step@ matches StepModel::Answer {
            feedback: told,
            answer: AnswerModel::Calls { calls, .. },
        } && calls == decision@->emit && told == text::texts(feedback@) + decision@->feedback),
{
    proof {
        json::lemma_elements(tools@);
    }
    match decision {
        ToolGateResult::Blocked(names) => handle_blocked_tools(feedback, &names, tools),
        ToolGateResult::Emit { emit, synthetic_feedback } => {
            let mut all = feedback;
            let mut more = synthetic_feedback;
            let ghost before = text::texts(all@);
            let ghost added = text::texts(more@);
            all.append(&mut more);
            assert(text::texts(all@) =~= before + added);
            assert(detect::calls(emit@).len() == emit@.len());
            let answer = if emit.len() > 0 {
                Answer::Calls { calls: emit, tokens: estimate_tokens(full), chat_form: false }
            } else {
                answer_with_text(full, tools.len() > 0, format)
            };
            Step::Answer { feedback: all, answer }
        },
    }
}

/// What validation decides on the calls in a text.
pub open spec fn decision_on(
    text: Seq<char>,
    tools: Seq<JsonModel>,
    settings: GateSettings,
) -> GateModel {
    gate::gate(
        detect::detected(text),
        gate::tool_names(tools),
        settings.strict(),
        settings.pass_through(),
        settings.synthetic_ok(),
    )
}

/// What validation decides on the calls in a text.
pub fn decide_on(text: &str, tools: &Vec<Json>, settings: &GateSettings) -> (decision:
    ToolGateResult)
    ensures
        decision@ == decision_on(text@, json::elements(tools@), *settings),
{
    validate_tool_calls(detect_tools(text, tools), tools, settings)
}

/// What is done about a completion without text, by what its raw body says: where that calls tools
/// these go to the client as a completion, in whatever form the request came.
pub open spec fn raw_step(
    decision: GateModel,
    tools: Seq<JsonModel>,
    format: Option<JsonModel>,
    settings: GateSettings,
) -> StepModel {
    match decision {
        GateModel::Blocked(names) => blocked_step(Seq::empty(), names, tools),
        GateModel::Emit { emit, feedback } => if emit.len() > 0 {
            StepModel::Answer {
                feedback,
                answer: AnswerModel::Calls { calls: emit, tokens: 0, chat_form: true },
            }
        } else {
            gated_step(
                decision_on(Seq::empty(), tools, settings),
                feedback,
                Seq::empty(),
                tools,
                format,
            )
        },
    }
}

/// What is done about a completion without text, by what its raw body says.
fn step_on_raw(
    decision: ToolGateResult,
    tools: &Vec<Json>,
    format: Option<&Json>,
    settings: &GateSettings,
) -> (step: Step)
    ensures
        step@ == raw_step(
            decision@,
            json::elements(tools@),
            sse::json_option(format),
            *settings,
        ),
        step.valid(),
{
    match decision {
        ToolGateResult::Blocked(names) => {
            let none: Vec<String> = Vec::new();
            assert(text::texts(none@) =~= Seq::empty());
            handle_blocked_tools(none, &names, tools)
        },
        ToolGateResult::Emit { emit, synthetic_feedback } => {
            assert(detect::calls(emit@).len() == emit@.len());
            if emit.len() > 0 {
                Step::Answer {
                    feedback: synthetic_feedback,
                    answer: Answer::Calls { calls: emit, tokens: 0, chat_form: true },
                }
            } else {
                let empty = String::new();
                assert(empty@ =~= Seq::<char>::empty());
                let decision = decide_on(empty.as_str(), tools, settings);
                step_after_gate(decision, synthetic_feedback, empty.as_str(), tools, format)
            }
        },
    }
}

/// What is done about a completion whose events add up to `full`. There is no telling where the
/// report of a tool error would have to be cut in the middle of a character.
pub open spec fn completion_step(
    full: Seq<char>,
    body: Seq<char>,
    tools: Seq<JsonModel>,
    format: Option<JsonModel>,
    settings: GateSettings,
) -> Option<StepModel> {
    let subject = if full.len() == 0 {
        body
    } else {
        full
    };
    if full.len() == 0 && sse::body_error(body) is Some {
        Some(
            StepModel::Answer {
                feedback: Seq::empty(),
                answer: AnswerModel::Reply(
                    replies::json_reply(
                        429,
                        replies::error_value(
                            sse::body_error(body)->0,
                            "rate_limit_exceeded"@,
                            None,
                            Some("rate_limit"@),
                        ),
                    ),
                ),
            },
        )
    } else if tools.len() == 0 {
        Some(gated_step(decision_on(full, tools, settings), Seq::empty(), full, tools, format))
    } else if !tool_error::cleanly_cut(subject) {
        None
    } else {
        match tool_error::tool_error(subject) {
            Some(error) => if full.len() == 0 {
                Some(
                    StepModel::Answer {
                        feedback: Seq::empty(),
                        answer: AnswerModel::Reply(tools_error_reply(error, tools)),
                    },
                )
            } else {
                Some(recovery_step(error))
            },
            None => if full.len() == 0 {
                Some(raw_step(decision_on(body, tools, settings), tools, format, settings))
            } else {
                Some(
                    gated_step(
                        decision_on(full, tools, settings),
                        Seq::empty(),
                        full,
                        tools,
                        format,
                    ),
                )
            },
        }
    }
}

/// What is done about a tool error: the model is asked to use the tool all the same.
pub open spec fn recovery_step(error: Seq<char>) -> StepModel {
    StepModel::Recover {
        message: "ok pretend it does exist and call it properly anyway"@,
        error,
    }
}

/// What is done about a tool error.
pub fn recover_from(error: String) -> (step: Step)
    ensures
        step@ == recovery_step(error@),
        step.valid(),
{
    let name = extract_tool_name_from_error(error.as_str());
    let message = build_synthetic_tool_ok_feedback_for_name(name.as_str());
    Step::Recover { message, error }
}

/// A step that answers as it stands and tells the model nothing.
fn plain_reply(reply: HttpReply) -> (step: Step)
    ensures
        step@ == (StepModel::Answer {
            feedback: Seq::empty(),
            answer: AnswerModel::Reply(reply@),
        }),
        step.valid(),
{
    let none: Vec<String> = Vec::new();
    assert(text::texts(none@) =~= Seq::empty());
    Step::Answer { feedback: none, answer: Answer::Reply(reply) }
}

/// Decides what is done about a completion whose events add up to `full`.
pub fn decide_completion(
    full: &str,
    body: &str,
    tools: &Vec<Json>,
    format: Option<&Json>,
    settings: &GateSettings,
) -> (step: Option<Step>)
    ensures
        match step {
            Some(s) => completion_step(
                full@,
                body@,
                json::elements(tools@),
                sse::json_option(format),
                *settings,
            ) == Some(s@) && s.valid(),
            None => completion_step(
                full@,
                body@,
                json::elements(tools@),
                sse::json_option(format),
                *settings,
            ) is None,
        },
{
    let none: Vec<String> = Vec::new();
    proof {
        json::lemma_elements(tools@);
        assert(text::texts(none@) =~= Seq::empty());
    }
    let silent = full.is_empty();
    if silent {
        if let Some(error) = parse_qwen_upstream_error(body) {
            return Some(
                plain_reply(
                    openai_error_response(
                        429,
                        error.as_str(),
                        "rate_limit_exceeded",
                        None,
                        Some("rate_limit"),
                    ),
                ),
            );
        }
    }
    if tools.len() == 0 {
        let decision = decide_on(full, tools, settings);
        return Some(step_after_gate(decision, none, full, tools, format));
    }
    let subject = if silent {
        body
    } else {
        full
    };
    match checked_tool_error(subject) {
        None => None,
        Some(Some(error)) => {
            if silent {
                Some(
                    plain_reply(json_response(400, &tools_error_json(error.as_str(), tools))),
                )
            } else {
                Some(recover_from(error))
            }
        },
        Some(None) => {
            if silent {
                Some(step_on_raw(decide_on(body, tools, settings), tools, format, settings))
            } else {
                let decision = decide_on(full, tools, settings);
                Some(step_after_gate(decision, none, full, tools, format))
            }
        },
    }
}

/// What is to be done about an answer from upstream.
#[derive(Debug)]
pub struct Plan {
    /// The response that the next message of the chat follows, where the answer names one.
    pub parent_id: Option<String>,
    pub step: Step,
}

/// What is wrong with an answer from upstream, by its status.
pub open spec fn upstream_failure(status: int, body: Seq<char>) -> Option<ReplyModel> {
    if 200 <= status < 300 {
        None
    } else if status == 429 || text::has_part(body, "in progress"@) {
        Some(
            replies::internal_error_reply(
                "Qwen chat is busy (another message in flight on this chat_id)"@,
            ),
        )
    } else {
        Some(
            replies::internal_error_reply(
                "Qwen API returned "@ + numeral::decimal(status as nat),
            ),
        )
    }
}

/// What is wrong with an answer from upstream, by its status.
pub fn failure_reply(status: u16, body: &str) -> (reply: Option<HttpReply>)
    ensures
        match reply {
            Some(r) => upstream_failure(status as int, body@) == Some(r@),
            None => upstream_failure(status as int, body@) is None,
        },
{
    if 200 <= status && status < 300 {
        return None;
    }
    if status == 429 || contains(body, "in progress") {
        return Some(
            internal_error("Qwen chat is busy (another message in flight on this chat_id)"),
        );
    }
    let mut message = "Qwen API returned ".to_owned();
    message.push_str(decimal_text(status as u64).as_str());
    Some(internal_error(message.as_str()))
}

/// What is done about an answer from upstream.
pub open spec fn plan_step(
    status: int,
    body: Seq<char>,
    tools: Seq<JsonModel>,
    format: Option<JsonModel>,
    settings: GateSettings,
) -> Option<StepModel> {
    match upstream_failure(status, body) {
        Some(reply) => Some(
            StepModel::Answer { feedback: Seq::empty(), answer: AnswerModel::Reply(reply) },
        ),
        None => completion_step(
            sse::accumulated(sse::body_events(body, false)).answer,
            body,
            tools,
            format,
            settings,
        ),
    }
}

/// The response id that an answer from upstream names last.
pub open spec fn plan_parent(status: int, body: Seq<char>) -> Option<Seq<char>> {
    match upstream_failure(status, body) {
        Some(_) => None,
        None => sse::last_id(sse::body_events(body, false)),
    }
}

/// Decides what is done about an answer from upstream. There is no telling where the report of a
/// tool error would have to be cut in the middle of a character.
pub fn plan_reply(
    status: u16,
    body: &str,
    tools: &Vec<Json>,
    format: Option<&Json>,
    settings: &GateSettings,
) -> (plan: Option<Plan>)
    ensures
        match plan {
            Some(p) => plan_step(
                status as int,
                body@,
                json::elements(tools@),
                sse::json_option(format),
                *settings,
            ) == Some(p.step@) && text::string_option(p.parent_id) == plan_parent(
                status as int,
                body@,
            ) && p.step.valid(),
            None => plan_step(
                status as int,
                body@,
                json::elements(tools@),
                sse::json_option(format),
                *settings,
            ) is None,
        },
{
    if let Some(reply) = failure_reply(status, body) {
        return Some(Plan { parent_id: None, step: plain_reply(reply) });
    }
    let events = read_events(body, false);
    let acc = accumulate(&events);
    let parent_id = last_response_id(&events);
    match decide_completion(acc.full_answer(), body, tools, format, settings) {
        Some(step) => Some(Plan { parent_id, step }),
        None => None,
    }
}

/// The reply to a tool error, once the model was asked to use the tool all the same: what it said
/// then, or else the error.
pub open spec fn recovered_reply(
    head: HeadModel,
    error: Seq<char>,
    tools: Seq<JsonModel>,
    said: Option<Seq<char>>,
) -> ReplyModel {
    if said is Some && said->0.len() > 0 {
        replies::json_reply(
            200,
            chat_body(
                head,
                text_message(said->0),
                "stop"@,
                chunks::token_count(said->0) as int,
            ),
        )
    } else {
        tools_error_reply(error, tools)
    }
}

/// What the model said when it was asked to use the tool all the same, if it was reached.
pub open spec fn said_then(outcome: Option<ContinuationResponse>) -> Option<Seq<char>> {
    match outcome {
        Some(response) => Some(response.response_text@),
        None => None,
    }
}

/// The reply to a tool error, once the model was asked to use the tool all the same.
pub fn after_recovery(
    head: &ReplyHead,
    error: &str,
    tools: &Vec<Json>,
    outcome: &Option<ContinuationResponse>,
) -> (reply: HttpReply)
    requires
        head.valid(),
    ensures
        reply@ == recovered_reply(
            head@,
            error@,
            json::elements(tools@),
            said_then(*outcome),
        ),
{
    if let Some(response) = outcome {
        if !response.response_text.as_str().is_empty() {
            let tokens: usize = estimate_tokens(response.response_text.as_str());
            let message = build_text_message(response.response_text.as_str());
            return json_response(200, &build_chat_body(head, message, "stop", tokens));
        }
    }
    json_response(400, &tools_error_json(error, tools))
}

/// Every name among some calls is listed.
pub open spec fn all_listed(calls: Seq<CallModel>, names: Seq<Seq<char>>) -> bool {
    forall|i: int| 0 <= i < calls.len() ==> names.contains((#[trigger] calls[i]).name)
}

/// Without pass-through, a reply never carries a call of a tool that the client did not list.
pub proof fn law_replies_call_listed_tools_only(
    full: Seq<char>,
    body: Seq<char>,
    tools: Seq<JsonModel>,
    format: Option<JsonModel>,
    settings: GateSettings,
)
    requires
        gate::tool_names(tools).len() > 0,
        !settings.pass_through(),
    ensures
        completion_step(full, body, tools, format, settings) matches Some(
            StepModel::Answer { answer: AnswerModel::Calls { calls, .. }, .. },
        ) ==> all_listed(calls, gate::tool_names(tools)),
{
    let names = gate::tool_names(tools);
    gate::law_unlisted_names_stay_in(
        detect::detected(full),
        names,
        settings.strict(),
        settings.synthetic_ok(),
    );
    gate::law_unlisted_names_stay_in(
        detect::detected(body),
        names,
        settings.strict(),
        settings.synthetic_ok(),
    );
    gate::law_unlisted_names_stay_in(
        detect::detected(Seq::empty()),
        names,
        settings.strict(),
        settings.synthetic_ok(),
    );
}

/// Where validation lets calls out, the answer holds all of them, in order, each as it is; and the
/// model hears all that it is to hear.
pub proof fn law_all_calls_are_answered(
    emit: Seq<CallModel>,
    more: Seq<Seq<char>>,
    feedback: Seq<Seq<char>>,
    full: Seq<char>,
    tools: Seq<JsonModel>,
    format: Option<JsonModel>,
)
    requires
        emit.len() > 0,
    ensures
        gated_step(GateModel::Emit { emit, feedback: more }, feedback, full, tools, format) matches StepModel::Answer {
            feedback: told,
            answer: AnswerModel::Calls { calls, tokens, .. },
        } && calls.len() == emit.len() && (forall|i: int|
            0 <= i < emit.len() ==> #[trigger] calls[i] == emit[i]) && told == feedback + more
            && tokens == chunks::token_count(full),
{
}

/// Where validation lets no call out, the answer is the text.
pub proof fn law_text_is_answered(
    more: Seq<Seq<char>>,
    feedback: Seq<Seq<char>>,
    full: Seq<char>,
    tools: Seq<JsonModel>,
    format: Option<JsonModel>,
)
    ensures
        gated_step(
            GateModel::Emit { emit: Seq::empty(), feedback: more },
            feedback,
            full,
            tools,
            format,
        ) == (StepModel::Answer {
            feedback: feedback + more,
            answer: text_answer(full, tools.len() > 0, format),
        }),
        !sse::wants_json(format) ==> text_answer(full, false, format) == (AnswerModel::Text {
            content: full,
            tokens: chunks::token_count(full) as int,
        }),
        !sse::wants_json(format) && !detect::looks_like_call(full) ==> text_answer(
            full,
            true,
            format,
        ) == (AnswerModel::Text { content: full, tokens: chunks::token_count(full) as int }),
        !sse::wants_json(format) && detect::looks_like_call(full) ==> text_answer(
            full,
            true,
            format,
        ) == (AnswerModel::Text {
            content: Seq::empty(),
            tokens: chunks::token_count(full) as int,
        }),
{
}

/// A text that must be JSON and is not is answered with status 422; one that is, is answered without
/// its fence.
pub proof fn law_texts_that_must_be_json(full: Seq<char>, format: JsonModel)
    requires
        format.get("type"@) == Some(JsonModel::Str("json_object"@)) || format.get("type"@) == Some(
            JsonModel::Str("json_schema"@),
        ),
    ensures
        json::json_parse(crate::patterns::stripped_codeblock(full)) is Ok ==> text_answer(
            full,
            false,
            Some(format),
        ) == (AnswerModel::Text {
            content: crate::patterns::stripped_codeblock(full),
            tokens: chunks::token_count(full) as int,
        }),
        json::json_parse(crate::patterns::stripped_codeblock(full)) is Err ==> (text_answer(
            full,
            false,
            Some(format),
        ) matches AnswerModel::Reply(reply) && reply.status == 422),
{
    sse::law_formats_are_kept_to(full, Some(format));
}

/// A completion with text that reports no tool error is answered by its calls, all that validation
/// lets out, or by its text; whatever its raw body says.
pub proof fn law_completions_are_answered_by_their_text(
    full: Seq<char>,
    body: Seq<char>,
    tools: Seq<JsonModel>,
    format: Option<JsonModel>,
    settings: GateSettings,
)
    requires
        full.len() > 0,
        tools.len() > 0 ==> tool_error::cleanly_cut(full) && tool_error::tool_error(full) is None,
    ensures
        completion_step(full, body, tools, format, settings) is Some,
        decision_on(full, tools, settings) is Emit && decision_on(full, tools, settings)->emit.len() > 0
            ==> (completion_step(full, body, tools, format, settings)->0 matches StepModel::Answer {
            feedback: told,
            answer: AnswerModel::Calls { calls, .. },
        } && calls == decision_on(full, tools, settings)->emit && told == decision_on(
            full,
            tools,
            settings,
        )->feedback),
        decision_on(full, tools, settings) is Emit && decision_on(full, tools, settings)->emit.len()
            == 0 ==> (completion_step(full, body, tools, format, settings)->0 matches StepModel::Answer {
            feedback: told,
            answer,
        } && answer == text_answer(full, tools.len() > 0, format) && told == decision_on(
            full,
            tools,
            settings,
        )->feedback),
        decision_on(full, tools, settings) matches GateModel::Blocked(names) ==> (completion_step(
            full,
            body,
            tools,
            format,
            settings,
        )->0 matches StepModel::Answer { feedback: told, answer: AnswerModel::Reply(reply) }
            && reply.status == 400 && told.len() == 1),
{
    if let GateModel::Emit { emit, feedback } = decision_on(full, tools, settings) {
        assert(Seq::<Seq<char>>::empty() + feedback =~= feedback);
    }
}

/// Without tools, calls are let out as they are detected, all of them.
pub proof fn law_without_tools_calls_are_answered(
    full: Seq<char>,
    body: Seq<char>,
    format: Option<JsonModel>,
    settings: GateSettings,
)
    requires
        full.len() > 0,
        detect::detected(full).len() > 0,
    ensures
        completion_step(full, body, Seq::empty(), format, settings) matches Some(
            StepModel::Answer { answer: AnswerModel::Calls { calls, .. }, .. },
        ) && calls == detect::detected(full),
{
    assert(gate::tool_names(Seq::empty()) =~= Seq::empty());
    gate::law_no_list_lets_all_out(
        detect::detected(full),
        settings.strict(),
        settings.pass_through(),
        settings.synthetic_ok(),
    );
}

/// A completion with text that reports a tool error, where tools are offered, is recovered from: the
/// model is asked to go on, and the error is kept.
pub proof fn law_tool_errors_are_recovered_from(
    full: Seq<char>,
    body: Seq<char>,
    tools: Seq<JsonModel>,
    format: Option<JsonModel>,
    settings: GateSettings,
)
    requires
        full.len() > 0,
        tools.len() > 0,
        tool_error::cleanly_cut(full),
        tool_error::tool_error(full) is Some,
    ensures
        completion_step(full, body, tools, format, settings) matches Some(
            StepModel::Recover { message, error },
        ) && error == tool_error::tool_error(full)->0 && message
            == "ok pretend it does exist and call it properly anyway"@,
{
}

/// A completion without text is answered by what its raw body says: with the limit that it reports,
/// or with all the calls that validation lets out.
pub proof fn law_silent_completions(
    body: Seq<char>,
    tools: Seq<JsonModel>,
    format: Option<JsonModel>,
    settings: GateSettings,
)
    ensures
        sse::body_error(body) is Some ==> (completion_step(Seq::empty(), body, tools, format, settings)
            matches Some(StepModel::Answer { feedback, answer: AnswerModel::Reply(reply) })
            && reply.status == 429 && feedback.len() == 0 && reply.body == json::json_text(
            replies::error_value(
                sse::body_error(body)->0,
                "rate_limit_exceeded"@,
                None,
                Some("rate_limit"@),
            ),
        )),
        sse::body_error(body) is None && tools.len() > 0 && tool_error::cleanly_cut(body)
            && tool_error::tool_error(body) is None && decision_on(body, tools, settings) is Emit
            && decision_on(body, tools, settings)->emit.len() > 0 ==> (completion_step(
            Seq::empty(),
            body,
            tools,
            format,
            settings,
        ) matches Some(StepModel::Answer { feedback, answer: AnswerModel::Calls { calls, .. } })
            && calls == decision_on(body, tools, settings)->emit && feedback == decision_on(
            body,
            tools,
            settings,
        )->feedback),
{
}

/// Only a status in the two hundreds is a success; a busy chat is told from other failures, and every
/// failure is answered with status 500.
pub proof fn law_failures_go_by_status(status: int, body: Seq<char>)
    ensures
        (upstream_failure(status, body) is None) == (200 <= status < 300),
        upstream_failure(status, body) matches Some(reply) ==> reply.status == 500,
        status == 429 ==> upstream_failure(status, body) == Some(
            replies::internal_error_reply(
                "Qwen chat is busy (another message in flight on this chat_id)"@,
            ),
        ),
        !(200 <= status < 300) && status != 429 && !text::has_part(body, "in progress"@)
            ==> upstream_failure(status, body) == Some(
            replies::internal_error_reply("Qwen API returned "@ + numeral::decimal(status as nat)),
        ),
{
}

/// An answer from upstream is read as a whole: its events add up to the completion that is decided
/// on, and the last of them that names a response says where the chat goes on.
pub proof fn law_answers_are_read_whole(
    status: int,
    body: Seq<char>,
    tools: Seq<JsonModel>,
    format: Option<JsonModel>,
    settings: GateSettings,
)
    requires
        200 <= status < 300,
    ensures
        plan_step(status, body, tools, format, settings) == completion_step(
            sse::accumulated(sse::body_events(body, false)).answer,
            body,
            tools,
            format,
            settings,
        ),
        plan_parent(status, body) == sse::last_id(sse::body_events(body, false)),
{
}

/// The fields of a completion or a response are those that it is made of.
proof fn lemma_body_fields(
    head: HeadModel,
    message: JsonModel,
    reason: Seq<char>,
    output: Seq<JsonModel>,
    tokens: int,
)
    ensures
        ({
            let body = chat_body(head, message, reason, tokens);
            let choice = body.array_at("choices"@)->0[0];
            &&& body.str_at("id"@) == Some(head.id)
            &&& body.str_at("model"@) == Some(head.model)
            &&& body.get("created"@) == Some(json::json_int(head.created))
            &&& body.array_at("choices"@)->0.len() == 1
            &&& choice.get("message"@) == Some(message)
            &&& choice.str_at("finish_reason"@) == Some(reason)
            &&& body.get("usage"@) == Some(chat_usage(head.prompt_tokens, tokens))
        }),
        ({
            let body = response_body(head, output, tokens);
            &&& body.str_at("id"@) == Some(head.id)
            &&& body.str_at("model"@) == Some(head.model)
            &&& body.array_at("output"@) == Some(output)
            &&& body.get("usage"@) == Some(response_usage(head.prompt_tokens, tokens))
        }),
{
    reveal_strlit("id");
    reveal_strlit("object");
    reveal_strlit("created");
    reveal_strlit("created_at");
    reveal_strlit("model");
    reveal_strlit("choices");
    reveal_strlit("usage");
    reveal_strlit("output");
    reveal_strlit("index");
    reveal_strlit("message");
    reveal_strlit("finish_reason");
    assert("id"@.len() == 2 && "object"@.len() == 6 && "created"@.len() == 7 && "created_at"@.len() == 10);
    assert("model"@.len() == 5 && "choices"@.len() == 7 && "usage"@.len() == 5 && "output"@.len() == 6);
    assert("index"@.len() == 5 && "message"@.len() == 7 && "finish_reason"@.len() == 13);
    assert("created"@[1] != "choices"@[1]);
    assert("model"@[0] != "usage"@[0]);
    assert("object"@[1] != "output"@[1]);
}

/// The reply to a completion carries what it is made of: its id, its model, its message, why it is
/// finished, and the tokens that it took; and so does that to a response.
pub proof fn law_replies_carry_what_they_are_made_of(
    head: HeadModel,
    message: JsonModel,
    reason: Seq<char>,
    output: Seq<JsonModel>,
    tokens: int,
)
    ensures
        ({
            let body = chat_body(head, message, reason, tokens);
            let choice = body.array_at("choices"@)->0[0];
            &&& body.str_at("id"@) == Some(head.id)
            &&& body.str_at("model"@) == Some(head.model)
            &&& body.get("created"@) == Some(json::json_int(head.created))
            &&& body.array_at("choices"@)->0.len() == 1
            &&& choice.get("message"@) == Some(message)
            &&& choice.str_at("finish_reason"@) == Some(reason)
            &&& body.at("usage"@).get("prompt_tokens"@) == Some(json::json_int(head.prompt_tokens))
            &&& body.at("usage"@).get("completion_tokens"@) == Some(json::json_int(tokens))
            &&& body.at("usage"@).get("total_tokens"@) == Some(
                json::json_int(head.prompt_tokens + tokens),
            )
        }),
        ({
            let body = response_body(head, output, tokens);
            &&& body.str_at("id"@) == Some(head.id)
            &&& body.str_at("model"@) == Some(head.model)
            &&& body.array_at("output"@) == Some(output)
            &&& body.at("usage"@).get("input_tokens"@) == Some(json::json_int(head.prompt_tokens))
            &&& body.at("usage"@).get("output_tokens"@) == Some(json::json_int(tokens))
            &&& body.at("usage"@).get("total_tokens"@) == Some(
                json::json_int(head.prompt_tokens + tokens),
            )
        }),
{
    lemma_body_fields(head, message, reason, output, tokens);
    lemma_usage_fields(head.prompt_tokens, tokens);
}

/// The fields of a count of tokens.
proof fn lemma_usage_fields(prompt: int, completion: int)
    ensures
        chat_usage(prompt, completion).get("prompt_tokens"@) == Some(json::json_int(prompt)),
        chat_usage(prompt, completion).get("completion_tokens"@) == Some(json::json_int(completion)),
        chat_usage(prompt, completion).get("total_tokens"@) == Some(
            json::json_int(prompt + completion),
        ),
        response_usage(prompt, completion).get("input_tokens"@) == Some(json::json_int(prompt)),
        response_usage(prompt, completion).get("output_tokens"@) == Some(json::json_int(completion)),
        response_usage(prompt, completion).get("total_tokens"@) == Some(
            json::json_int(prompt + completion),
        ),
{
    reveal_strlit("prompt_tokens");
    reveal_strlit("completion_tokens");
    reveal_strlit("total_tokens");
    reveal_strlit("input_tokens");
    reveal_strlit("output_tokens");
    assert("prompt_tokens"@.len() == 13 && "completion_tokens"@.len() == 17 && "total_tokens"@.len()
        == 12 && "input_tokens"@.len() == 12 && "output_tokens"@.len() == 13);
    assert("total_tokens"@[0] != "input_tokens"@[0]);
}

/// Calls are written one by one, as many as there are, each with its name, its arguments as JSON,
/// and an id of its own; in a completion each with its place, too.
pub proof fn law_calls_are_written_one_by_one(calls: Seq<CallModel>, ids: Seq<Seq<char>>, i: int)
    requires
        0 <= i < calls.len(),
    ensures
        chat_calls(calls, ids).len() == calls.len(),
        response_calls(calls, ids).len() == calls.len(),
        ({
            let call = chat_calls(calls, ids)[i];
            &&& call.get("index"@) == Some(json::json_int(i))
            &&& call.str_at("id"@) == Some("call_"@ + ids[i])
            &&& call.at("function"@).str_at("name"@) == Some(calls[i].name)
            &&& call.at("function"@).str_at("arguments"@) == Some(json::json_text(calls[i].args))
        }),
        ({
            let call = response_calls(calls, ids)[i];
            &&& call.str_at("type"@) == Some("function_call"@)
            &&& call.str_at("name"@) == Some(calls[i].name)
            &&& call.str_at("arguments"@) == Some(json::json_text(calls[i].args))
        }),
{
    reveal_strlit("index");
    reveal_strlit("id");
    reveal_strlit("type");
    reveal_strlit("function");
    reveal_strlit("name");
    reveal_strlit("arguments");
    reveal_strlit("call_id");
    assert("index"@.len() == 5 && "id"@.len() == 2 && "type"@.len() == 4 && "function"@.len() == 8);
    assert("name"@.len() == 4 && "arguments"@.len() == 9 && "call_id"@.len() == 7);
    assert("name"@[0] != "type"@[0]);
}

/// A written answer is a success, unless it is a reply as it stands; text is carried as it is, and
/// calls are carried all.
pub proof fn law_answers_are_written_whole(
    head: HeadModel,
    content: Seq<char>,
    calls: Seq<CallModel>,
    tokens: int,
    chat_form: bool,
    ids: Seq<Seq<char>>,
    reply: ReplyModel,
)
    ensures
        written(head, AnswerModel::Reply(reply), ids) == reply,
        !head.responses_api ==> written(head, AnswerModel::Text { content, tokens }, ids)
            == replies::json_reply(200, chat_body(head, text_message(content), "stop"@, tokens)),
        head.responses_api ==> written(head, AnswerModel::Text { content, tokens }, ids)
            == replies::json_reply(
            200,
            response_body(head, seq![text_item("msg_"@ + ids[0], content)], tokens),
        ),
        head.responses_api && !chat_form ==> written(
            head,
            AnswerModel::Calls { calls, tokens, chat_form },
            ids,
        ) == replies::json_reply(200, response_body(head, response_calls(calls, ids), tokens)),
        chat_form || !head.responses_api ==> exists|message: JsonModel|
            message.array_at("tool_calls"@) == Some(chat_calls(calls, ids)) && message.str_at("role"@)
                == Some("assistant"@) && written(
                head,
                AnswerModel::Calls { calls, tokens, chat_form },
                ids,
            ) == replies::json_reply(
                200,
                #[trigger] chat_body(head, message, "tool_calls"@, tokens),
            ),
        text_message(content).str_at("content"@) == Some(content),
        text_message(content).str_at("role"@) == Some("assistant"@),
        text_item(ids[0], content).array_at("content"@)->0[0].str_at("text"@) == Some(content),
{
    reveal_strlit("role");
    reveal_strlit("content");
    reveal_strlit("id");
    reveal_strlit("type");
    reveal_strlit("text");
    reveal_strlit("annotations");
    assert("role"@.len() == 4 && "content"@.len() == 7 && "id"@.len() == 2 && "type"@.len() == 4);
    assert("text"@.len() == 4 && "annotations"@.len() == 11);
    assert("text"@[1] != "type"@[1]);
    assert("role"@[0] != "type"@[0]);
    reveal_strlit("tool_calls");
    assert("tool_calls"@.len() == 10);
    let message = JsonModel::Object(
        map![
            "role"@ => JsonModel::Str("assistant"@),
            "content"@ => JsonModel::Null,
            "tool_calls"@ => JsonModel::Array(chat_calls(calls, ids)),
        ],
    );
    assert(message.array_at("tool_calls"@) == Some(chat_calls(calls, ids)));
    assert(message.str_at("role"@) == Some("assistant"@));
    assert(chat_form || !head.responses_api ==> written(
        head,
        AnswerModel::Calls { calls, tokens, chat_form },
        ids,
    ) == replies::json_reply(200, chat_body(head, message, "tool_calls"@, tokens)));
}

/// Once the model was asked to go on, what it said is answered as it is; where it said nothing, the
/// error is.
pub proof fn law_recovered_text_is_answered(
    head: HeadModel,
    error: Seq<char>,
    tools: Seq<JsonModel>,
    said: Seq<char>,
)
    ensures
        said.len() > 0 ==> recovered_reply(head, error, tools, Some(said)) == replies::json_reply(
            200,
            chat_body(head, text_message(said), "stop"@, chunks::token_count(said) as int),
        ),
        recovered_reply(head, error, tools, None).status == 400,
        recovered_reply(head, error, tools, Some(Seq::empty())) == recovered_reply(
            head,
            error,
            tools,
            None,
        ),
        recovered_reply(head, error, tools, None).body == json::json_text(
            tool_error::tools_error(error, tools),
        ),
{
}

/// What is decided on a text is decided on the calls that are detected in it, by the names of the
/// tools and the settings.
pub proof fn law_decisions_are_on_detected_calls(
    text: Seq<char>,
    tools: Seq<JsonModel>,
    settings: GateSettings,
)
    ensures
        decision_on(text, tools, settings) == gate::gate(
            detect::detected(text),
            gate::tool_names(tools),
            settings.strict(),
            settings.pass_through(),
            settings.synthetic_ok(),
        ),
{
}

/// A completion that is one block of JSON, with the name of a tool that the client listed and an object
/// of arguments, is answered with exactly that call, whatever the settings and whatever white space
/// stands in it.
pub proof fn law_listed_call_in_a_block_is_answered(
    full: Seq<char>,
    body: Seq<char>,
    content: Seq<char>,
    value: JsonModel,
    tools: Seq<JsonModel>,
    format: Option<JsonModel>,
    settings: GateSettings,
)
    requires
        full.len() > 0,
        crate::patterns::fenced_contents(crate::patterns::clean_text(full)) == seq![content],
        json::json_parse(crate::patterns::clean_text(text::trimmed(content))) == Ok::<
            JsonModel,
            Seq<char>,
        >(value),
        value.at("tool"@) is Str,
        text::trimmed(value.at("tool"@)->Str_0).len() > 0,
        value.at("args"@) is Object,
        gate::tool_names(tools).contains(text::trimmed(value.at("tool"@)->Str_0)),
        tool_error::cleanly_cut(full),
        tool_error::tool_error(full) is None,
    ensures
        completion_step(full, body, tools, format, settings) matches Some(
            StepModel::Answer { answer: AnswerModel::Calls { calls, .. }, .. },
        ) && calls.len() == 1 && calls[0].name == text::trimmed(value.at("tool"@)->Str_0)
            && calls[0].args == detect::sanitized(value.at("args"@)),
{
    let bare = text::trimmed(content);
    detect::law_json_asks_for_a_call(bare, value);
    let call = detect::call_in_text(bare)->0;
    detect::law_lone_block_is_the_call(crate::patterns::clean_text(full), content);
    let list = detect::detected(full);
    assert(list == seq![call]);
    assert(forall|i: int| 0 <= i < list.len() ==> #[trigger] list[i] == call);
    gate::law_listed_calls_all_go_out(
        list,
        gate::tool_names(tools),
        settings.strict(),
        settings.pass_through(),
        settings.synthetic_ok(),
    );
    law_completions_are_answered_by_their_text(full, body, tools, format, settings);
}

/// Calls of unknown tools are refused with status 400: the client hears of each, and of the tools that may
/// be called; the model hears of them behind what it heard before.
pub proof fn law_blocked_calls_are_refused(
    feedback: Seq<Seq<char>>,
    names: Seq<Seq<char>>,
    full: Seq<char>,
    tools: Seq<JsonModel>,
    format: Option<JsonModel>,
)
    ensures
        gated_step(GateModel::Blocked(names), feedback, full, tools, format) matches StepModel::Answer {
            feedback: told,
            answer: AnswerModel::Reply(reply),
        } && told == feedback.push(
            tool_error::unknown_tools_message(tool_error::debug_list(names)),
        ) && reply.status == 400 && reply.body == json::json_text(
            tool_error::tools_error(tool_error::invalid_calls_message(names), tools),
        ),
{
}

/// A completion without text whose raw body reports a tool error, where tools are offered, is refused
/// with that error; one that says nothing at all is answered with what nothing comes to.
pub proof fn law_silent_completions_that_fail(
    body: Seq<char>,
    tools: Seq<JsonModel>,
    format: Option<JsonModel>,
    settings: GateSettings,
)
    requires
        sse::body_error(body) is None,
        tools.len() > 0,
        tool_error::cleanly_cut(body),
    ensures
        tool_error::tool_error(body) matches Some(error) ==> (completion_step(
            Seq::empty(),
            body,
            tools,
            format,
            settings,
        ) matches Some(StepModel::Answer { feedback, answer: AnswerModel::Reply(reply) })
            && feedback.len() == 0 && reply.status == 400 && reply.body == json::json_text(
            tool_error::tools_error(error, tools),
        )),
        tool_error::tool_error(body) is None && decision_on(body, tools, settings) is Blocked ==> (
        completion_step(Seq::empty(), body, tools, format, settings) matches Some(
            StepModel::Answer { feedback, answer: AnswerModel::Reply(reply) },
        ) && feedback.len() == 1 && reply.status == 400),
        tool_error::tool_error(body) is None && decision_on(body, tools, settings) is Emit && decision_on(
            body,
            tools,
            settings,
        )->emit.len() == 0 ==> completion_step(Seq::empty(), body, tools, format, settings) == Some(
            gated_step(
                decision_on(Seq::empty(), tools, settings),
                decision_on(body, tools, settings)->feedback,
                Seq::empty(),
                tools,
                format,
            ),
        ),
{
}

/// A busy chat is told by the status or by what the body says.
pub proof fn law_busy_chats_are_told(status: int, before: Seq<char>, after: Seq<char>)
    requires
        !(200 <= status < 300),
    ensures
        upstream_failure(status, before + "in progress"@ + after) == Some(
            replies::internal_error_reply(
                "Qwen chat is busy (another message in flight on this chat_id)"@,
            ),
        ),
{
    let body = before + "in progress"@ + after;
    let at = before.len() as int;
    assert(body.subrange(at, at + "in progress"@.len()) =~= "in progress"@);
    assert(text::occurs_at(body, "in progress"@, at));
}

/// An answer from upstream that failed is passed on as a failure, by its status, and names no response to
/// follow.
pub proof fn law_failed_answers_are_passed_on(
    status: int,
    body: Seq<char>,
    tools: Seq<JsonModel>,
    format: Option<JsonModel>,
    settings: GateSettings,
)
    requires
        !(200 <= status < 300),
    ensures
        plan_step(status, body, tools, format, settings) matches Some(
            StepModel::Answer { feedback, answer: AnswerModel::Reply(reply) },
        ) && feedback.len() == 0 && Some(reply) == upstream_failure(status, body) && reply.status == 500,
        plan_parent(status, body) is None,
{
}

} // verus!
