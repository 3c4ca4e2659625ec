//! Requests to the upstream API.
use vstd::prelude::*;

use crate::constants;
use crate::constants::QWEN_API_BASE;
use crate::json;
use crate::json::{Json, JsonModel};
use crate::machine;
use crate::machine::utc_millis;
use crate::numeral;
use crate::numeral::decimal_text;
use crate::sse;
use crate::sse::{read_continuation, ContinuationResponse};
use crate::text;

verus! {

/// How the model is to work on a message.
pub open spec fn feature_config() -> JsonModel {
    JsonModel::Object(
        map![
            "thinking_enabled"@ => JsonModel::Bool(true),
            "auto_search"@ => JsonModel::Bool(true),
            "research_mode"@ => JsonModel::Str("normal"@),
            "output_schema"@ => JsonModel::Str("phase"@),
            "auto_thinking"@ => JsonModel::Bool(true),
            "thinking_mode"@ => JsonModel::Str("Auto"@),
            "thinking_format"@ => JsonModel::Str("summary"@),
        ],
    )
}

/// The message of a request to complete a chat, sent at `sent`.
pub open spec fn message_value(
    chat_id: Seq<char>,
    parent_id: Option<Seq<char>>,
    prompt: Seq<char>,
    model: Seq<char>,
    sent: int,
) -> JsonModel {
    JsonModel::Object(
        map![
            "fid"@ => JsonModel::Str(chat_id),
            "parentId"@ => json::optional_str(parent_id),
            "role"@ => JsonModel::Str("user"@),
            "content"@ => JsonModel::Str(prompt),
            "user_action"@ => JsonModel::Str("chat"@),
            "files"@ => JsonModel::Array(Seq::empty()),
            "timestamp"@ => json::json_int(sent),
            "models"@ => JsonModel::Array(seq![JsonModel::Str(model)]),
            "chat_type"@ => JsonModel::Str("t2t"@),
            "feature_config"@ => feature_config(),
            "extra"@ => JsonModel::Object(map![
                "meta"@ => JsonModel::Object(map!["subChatType"@ => JsonModel::Str("t2t"@)]),
            ]),
            "sub_chat_type"@ => JsonModel::Str("t2t"@),
        ],
    )
}

/// A request to complete a chat, made at `made` with a message sent at `sent`.
pub open spec fn payload_value(
    chat_id: Seq<char>,
    parent_id: Option<Seq<char>>,
    prompt: Seq<char>,
    model: Seq<char>,
    sent: int,
    made: int,
) -> JsonModel {
    JsonModel::Object(
        map![
            "stream"@ => JsonModel::Bool(true),
            "version"@ => JsonModel::Str("2.1"@),
            "incremental_output"@ => JsonModel::Bool(true),
            "chat_id"@ => JsonModel::Str(chat_id),
            "chat_mode"@ => JsonModel::Str("normal"@),
            "model"@ => JsonModel::Str(model),
            "parent_id"@ => json::optional_str(parent_id),
            "messages"@ => JsonModel::Array(
                seq![message_value(chat_id, parent_id, prompt, model, sent)],
            ),
            "timestamp"@ => json::json_int(made),
        ],
    )
}

/// Builds how the model is to work on a message.
fn build_feature_config() -> (config: Json)
    ensures
        config@ == feature_config(),
{
    Json::object().with("thinking_enabled", Json::Bool(true)).with(
        "auto_search",
        Json::Bool(true),
    ).with("research_mode", Json::text("normal")).with("output_schema", Json::text("phase")).with(
        "auto_thinking",
        Json::Bool(true),
    ).with("thinking_mode", Json::text("Auto")).with("thinking_format", Json::text("summary"))
}

/// Builds the message of a request to complete a chat.
fn build_message_value(
    chat_id: &str,
    parent_id: Option<&str>,
    prompt: &str,
    model: &str,
    sent: i64,
) -> (message: Json)
    ensures
        message@ == message_value(
            chat_id@,
            text::text_option(parent_id),
            prompt@,
            model@,
            sent as int,
        ),
{
    Json::object().with("fid", Json::text(chat_id)).with(
        "parentId",
        Json::optional_text(parent_id),
    ).with("role", Json::text("user")).with("content", Json::text(prompt)).with(
        "user_action",
        Json::text("chat"),
    ).with("files", Json::no_items()).with("timestamp", Json::integer(sent as i128)).with(
        "models",
        Json::single(Json::text(model)),
    ).with("chat_type", Json::text("t2t")).with("feature_config", build_feature_config()).with(
        "extra",
        Json::object().with("meta", Json::object().with("subChatType", Json::text("t2t"))),
    ).with("sub_chat_type", Json::text("t2t"))
}

/// Builds a request to complete a chat, made at `made` with a message sent at `sent`.
pub fn qwen_payload_at(
    chat_id: &str,
    parent_id: Option<&str>,
    prompt: &str,
    upstream_model: &str,
    sent: i64,
    made: i64,
) -> (payload: Json)
    ensures
        payload@ == payload_value(
            chat_id@,
            text::text_option(parent_id),
            prompt@,
            upstream_model@,
            sent as int,
            made as int,
        ),
{
    Json::object().with("stream", Json::Bool(true)).with("version", Json::text("2.1")).with(
        "incremental_output",
        Json::Bool(true),
    ).with("chat_id", Json::text(chat_id)).with("chat_mode", Json::text("normal")).with(
        "model",
        Json::text(upstream_model),
    ).with("parent_id", Json::optional_text(parent_id)).with(
        "messages",
        Json::single(build_message_value(chat_id, parent_id, prompt, upstream_model, sent)),
    ).with("timestamp", Json::integer(made as i128))
}

/// Builds a request to complete a chat, made now.
pub fn qwen_payload(
    chat_id: &str,
    parent_id: Option<&str>,
    prompt: &str,
    upstream_model: &str,
) -> (payload: Json)
    ensures
        exists|sent: chrono::NaiveDateTime, made: chrono::NaiveDateTime|
            payload@ == payload_value(
                chat_id@,
                text::text_option(parent_id),
                prompt@,
                upstream_model@,
                #[trigger] machine::timestamp_millis(sent) as int,
                #[trigger] machine::timestamp_millis(made) as int,
            ),
{
    let sent: i64 = utc_millis();
    let made: i64 = utc_millis();
    qwen_payload_at(chat_id, parent_id, prompt, upstream_model, sent, made)
}

/// A request to open a chat, made at `made`.
pub open spec fn new_chat_value(model: Seq<char>, made: int) -> JsonModel {
    JsonModel::Object(
        map![
            "title"@ => JsonModel::Str("Agent Chat"@),
            "models"@ => JsonModel::Array(seq![JsonModel::Str(model)]),
            "chat_mode"@ => JsonModel::Str("normal"@),
            "chat_type"@ => JsonModel::Str("t2t"@),
            "timestamp"@ => json::json_int(made),
        ],
    )
}

/// Builds a request to open a chat, made at `made`.
pub fn new_chat_payload_at(model: &str, made: i64) -> (payload: Json)
    ensures
        payload@ == new_chat_value(model@, made as int),
{
    Json::object().with("title", Json::text("Agent Chat")).with(
        "models",
        Json::single(Json::text(model)),
    ).with("chat_mode", Json::text("normal")).with("chat_type", Json::text("t2t")).with(
        "timestamp",
        Json::integer(made as i128),
    )
}

/// Builds a request to open a chat, made now.
pub fn new_chat_payload(model: &str) -> (payload: Json)
    ensures
        exists|made: chrono::NaiveDateTime|
            payload@ == new_chat_value(model@, #[trigger] machine::timestamp_millis(made) as int),
{
    let made: i64 = utc_millis();
    new_chat_payload_at(model, made)
}

/// The pairs of a list of headers.
pub open spec fn header_pairs(headers: Seq<(String, String)>) -> Seq<(Seq<char>, Seq<char>)> {
    Seq::new(headers.len(), |i: int| (headers[i].0@, headers[i].1@))
}

/// The headers of a request upstream, of which `accepted` says what may come back.
pub open spec fn upstream_headers(accepted: Seq<char>, token: Seq<char>) -> Seq<
    (Seq<char>, Seq<char>),
> {
    seq![
        ("accept"@, accepted),
        ("content-type"@, "application/json"@),
        ("referer"@, "https://chat.qwen.ai/"@),
        ("source"@, "web"@),
        ("version"@, "0.8.0"@),
        ("cookie"@, "token="@ + token),
    ]
}

/// A header.
pub(crate) fn header(name: &str, value: &str) -> (pair: (String, String))
    ensures
        pair.0@ == name@,
        pair.1@ == value@,
{
    (name.to_owned(), value.to_owned())
}

/// Builds the headers of a request upstream.
fn build_headers(accepted: &str, token: &str) -> (headers: Vec<(String, String)>)
    ensures
        header_pairs(headers@) == upstream_headers(accepted@, token@),
{
    let mut cookie = "token=".to_owned();
    cookie.push_str(token);
    let mut headers: Vec<(String, String)> = Vec::new();
    headers.push(header("accept", accepted));
    headers.push(header("content-type", "application/json"));
    headers.push(header("referer", "https://chat.qwen.ai/"));
    headers.push(header("source", "web"));
    headers.push(header("version", "0.8.0"));
    headers.push(header("cookie", cookie.as_str()));
    assert(header_pairs(headers@) =~= upstream_headers(accepted@, token@));
    headers
}

/// The headers of a request to complete a chat, which is answered by a stream of events.
pub fn qwen_request_headers(token: &str) -> (headers: Vec<(String, String)>)
    ensures
        header_pairs(headers@) == upstream_headers("text/event-stream"@, token@),
{
    build_headers("text/event-stream", token)
}

/// The headers of a request to open a chat, which is answered by JSON.
pub fn new_chat_headers(token: &str) -> (headers: Vec<(String, String)>)
    ensures
        header_pairs(headers@) == upstream_headers("application/json"@, token@),
{
    build_headers("application/json", token)
}

/// Where a chat is completed.
pub fn completion_url(chat_id: &str) -> (url: String)
    ensures
        url@ == constants::QWEN_API_BASE@ + "/chat/completions?chat_id="@ + chat_id@,
{
    let mut url = QWEN_API_BASE.to_owned();
    url.push_str("/chat/completions?chat_id=");
    url.push_str(chat_id);
    url
}

/// Where a chat is opened.
pub fn new_chat_url() -> (url: String)
    ensures
        url@ == constants::QWEN_API_BASE@ + "/chats/new"@,
{
    let mut url = QWEN_API_BASE.to_owned();
    url.push_str("/chats/new");
    url
}

/// The id of the chat that an upstream value reports as opened.
pub open spec fn opened_chat(value: JsonModel) -> Result<Seq<char>, Seq<char>> {
    match value.at("data"@).str_at("id"@) {
        Some(id) => Ok(id),
        None => Err("No chat ID in response"@),
    }
}

/// The id of the chat that an upstream value reports as opened.
pub fn opened_chat_id(value: &Json) -> (id: Result<String, String>)
    ensures
        text::string_result(id) == opened_chat(value@),
{
    if let Some(data) = value.get("data") {
        if let Some(id) = data.str_at("id") {
            return Ok(id.to_owned());
        }
    }
    Err("No chat ID in response".to_owned())
}

/// The answer to a request to open a chat: the id of the chat, or what went wrong.
pub open spec fn new_chat_answer(status: int, body: Result<JsonModel, Seq<char>>) -> Result<
    Seq<char>,
    Seq<char>,
> {
    if status == 401 {
        Err("Qwen token expired or invalid"@)
    } else {
        match body {
            Ok(value) => opened_chat(value),
            Err(message) => Err("Failed to parse chat response: "@ + message),
        }
    }
}

/// Reads the answer to a request to open a chat, given its body as JSON.
pub fn new_chat_result(status: u16, body: &Result<Json, String>) -> (id: Result<String, String>)
    ensures
        text::string_result(id) == new_chat_answer(status as int, json::json_result(*body)),
{
    if status == 401 {
        return Err("Qwen token expired or invalid".to_owned());
    }
    match body {
        Ok(value) => opened_chat_id(value),
        Err(message) => {
            let mut error = "Failed to parse chat response: ".to_owned();
            error.push_str(message.as_str());
            Err(error)
        },
    }
}

/// Reads the answer to a request to open a chat.
pub fn read_new_chat(status: u16, body: &str) -> (id: Result<String, String>)
    ensures
        text::string_result(id) == new_chat_answer(status as int, json::json_parse(body@)),
{
    let parsed = json::parse_json(body);
    new_chat_result(status, &parsed)
}

/// What is wrong with the answer to a message that continues a chat, by its status.
pub open spec fn continuation_error(status: int) -> Option<Seq<char>> {
    if status == 401 {
        Some("Qwen token expired"@)
    } else if 200 <= status < 300 {
        None
    } else {
        Some("Qwen returned status "@ + numeral::decimal(status as nat))
    }
}

/// What is wrong with the answer to a message that continues a chat, by its status.
pub fn continuation_failure(status: u16) -> (error: Option<String>)
    ensures
        text::string_option(error) == continuation_error(status as int),
{
    if status == 401 {
        return Some("Qwen token expired".to_owned());
    }
    if 200 <= status && status < 300 {
        return None;
    }
    let mut error = "Qwen returned status ".to_owned();
    error.push_str(decimal_text(status as u64).as_str());
    Some(error)
}

/// What the answer to a message that continues a chat comes to: its status decides before its body
/// is read.
pub fn continuation_result(status: u16, body: &str) -> (result: Result<ContinuationResponse, String>)
    ensures
        (result is Err) == (continuation_error(status as int) is Some),
        result matches Err(e) ==> Some(e@) == continuation_error(status as int),
        result matches Ok(c) ==> c.response_text@ == sse::accumulated(
            sse::body_events(body@, true),
        ).answer && text::string_option(c.new_parent_id) == sse::continuation_id(
            sse::body_events(body@, true),
            json::json_parse(body@),
        ),
{
    match continuation_failure(status) {
        Some(error) => Err(error),
        None => Ok(read_continuation(body)),
    }
}

/// The response that the next message of a chat follows once the model was told something: the one
/// that its reply names, and none where it could not be told.
pub fn noted_response(outcome: Result<ContinuationResponse, String>) -> (id: Option<String>)
    ensures
        id == (match outcome {
            Ok(response) => response.new_parent_id,
            Err(_) => None,
        }),
{
    match outcome {
        Ok(response) => response.new_parent_id,
        Err(_) => None,
    }
}

/// What the model is told: in a streamed reply everything, in a whole one only where there is a
/// response to follow.
pub open spec fn told(feedback: Seq<Seq<char>>, followed: bool, streamed: bool) -> Seq<Seq<char>> {
    if streamed || followed {
        feedback
    } else {
        Seq::empty()
    }
}

/// What the model is told, given the response that the message would follow.
pub fn messages_to_tell(feedback: Vec<String>, parent_id: Option<&str>, streamed: bool) -> (messages:
    Vec<String>)
    ensures
        text::texts(messages@) == told(text::texts(feedback@), parent_id is Some, streamed),
{
    if streamed || parent_id.is_some() {
        feedback
    } else {
        let messages: Vec<String> = Vec::new();
        assert(text::texts(messages@) =~= Seq::empty());
        messages
    }
}

/// The fields of a request to complete a chat.
proof fn lemma_payload_fields(
    chat_id: Seq<char>,
    parent_id: Option<Seq<char>>,
    prompt: Seq<char>,
    model: Seq<char>,
    sent: int,
    made: int,
)
    ensures
        ({
            let payload = payload_value(chat_id, parent_id, prompt, model, sent, made);
            &&& payload.get("stream"@) == Some(JsonModel::Bool(true))
            &&& payload.str_at("chat_id"@) == Some(chat_id)
            &&& payload.str_at("model"@) == Some(model)
            &&& payload.get("parent_id"@) == Some(json::optional_str(parent_id))
            &&& payload.get("timestamp"@) == Some(json::json_int(made))
            &&& payload.array_at("messages"@) == Some(
                seq![message_value(chat_id, parent_id, prompt, model, sent)],
            )
        }),
{
    reveal_strlit("stream");
    reveal_strlit("version");
    reveal_strlit("incremental_output");
    reveal_strlit("chat_id");
    reveal_strlit("chat_mode");
    reveal_strlit("model");
    reveal_strlit("parent_id");
    reveal_strlit("messages");
    reveal_strlit("timestamp");
    assert("stream"@.len() == 6 && "version"@.len() == 7 && "incremental_output"@.len() == 18);
    assert("chat_id"@.len() == 7 && "chat_mode"@.len() == 9 && "model"@.len() == 5);
    assert("parent_id"@.len() == 9 && "messages"@.len() == 8 && "timestamp"@.len() == 9);
    assert("version"@[0] == 'v' && "chat_id"@[0] == 'c');
    assert("chat_mode"@[0] == 'c' && "parent_id"@[0] == 'p' && "timestamp"@[0] == 't');
}

/// The fields of the message of a request to complete a chat.
proof fn lemma_message_fields(
    chat_id: Seq<char>,
    parent_id: Option<Seq<char>>,
    prompt: Seq<char>,
    model: Seq<char>,
    sent: int,
)
    ensures
        ({
            let message = message_value(chat_id, parent_id, prompt, model, sent);
            &&& message.str_at("fid"@) == Some(chat_id)
            &&& message.get("parentId"@) == Some(json::optional_str(parent_id))
            &&& message.str_at("role"@) == Some("user"@)
            &&& message.str_at("content"@) == Some(prompt)
            &&& message.get("timestamp"@) == Some(json::json_int(sent))
            &&& message.array_at("models"@) == Some(seq![JsonModel::Str(model)])
            &&& message.get("feature_config"@) == Some(feature_config())
        }),
{
    reveal_strlit("fid");
    reveal_strlit("parentId");
    reveal_strlit("role");
    reveal_strlit("content");
    reveal_strlit("user_action");
    reveal_strlit("files");
    reveal_strlit("timestamp");
    reveal_strlit("models");
    reveal_strlit("chat_type");
    reveal_strlit("feature_config");
    reveal_strlit("extra");
    reveal_strlit("sub_chat_type");
    assert("fid"@.len() == 3 && "parentId"@.len() == 8 && "role"@.len() == 4 && "content"@.len() == 7);
    assert("user_action"@.len() == 11 && "files"@.len() == 5 && "timestamp"@.len() == 9);
    assert("models"@.len() == 6 && "chat_type"@.len() == 9 && "feature_config"@.len() == 14);
    assert("extra"@.len() == 5 && "sub_chat_type"@.len() == 13);
    assert("timestamp"@[0] == 't' && "chat_type"@[0] == 'c');
}

/// A request to complete a chat carries the prompt as it is, to the chat and the model that it is
/// for, behind the response that it follows; and the answer is to be streamed.
pub proof fn law_prompt_goes_up_as_it_is(
    chat_id: Seq<char>,
    parent_id: Option<Seq<char>>,
    prompt: Seq<char>,
    model: Seq<char>,
    sent: int,
    made: int,
)
    ensures
        ({
            let payload = payload_value(chat_id, parent_id, prompt, model, sent, made);
            let message = payload.array_at("messages"@)->0[0];
            &&& payload.get("stream"@) == Some(JsonModel::Bool(true))
            &&& payload.str_at("chat_id"@) == Some(chat_id)
            &&& payload.str_at("model"@) == Some(model)
            &&& payload.str_at("parent_id"@) == parent_id
            &&& payload.array_at("messages"@)->0.len() == 1
            &&& message.str_at("content"@) == Some(prompt)
            &&& message.str_at("role"@) == Some("user"@)
            &&& message.str_at("fid"@) == Some(chat_id)
            &&& message.str_at("parentId"@) == parent_id
            &&& message.array_at("models"@) == Some(seq![JsonModel::Str(model)])
            &&& message.get("timestamp"@) == Some(json::json_int(sent))
            &&& payload.get("timestamp"@) == Some(json::json_int(made))
        }),
{
    lemma_payload_fields(chat_id, parent_id, prompt, model, sent, made);
    lemma_message_fields(chat_id, parent_id, prompt, model, sent);
}

/// A chat is opened for one model.
pub proof fn law_chats_are_opened_for_a_model(model: Seq<char>, made: int)
    ensures
        new_chat_value(model, made).array_at("models"@) == Some(seq![JsonModel::Str(model)]),
        new_chat_value(model, made).get("timestamp"@) == Some(json::json_int(made)),
{
    reveal_strlit("title");
    reveal_strlit("models");
    reveal_strlit("chat_mode");
    reveal_strlit("chat_type");
    reveal_strlit("timestamp");
    assert("title"@.len() == 5 && "models"@.len() == 6 && "chat_mode"@.len() == 9);
    assert("chat_type"@.len() == 9 && "timestamp"@.len() == 9);
    assert("chat_mode"@[0] == 'c' && "chat_type"@[0] == 'c' && "timestamp"@[0] == 't');
}

/// A chat is open exactly where the token was good and the answer names it.
pub proof fn law_opened_chats_are_named(
    status: int,
    value: JsonModel,
    id: Seq<char>,
    message: Seq<char>,
)
    ensures
        new_chat_answer(401, Ok(value)) == Err::<Seq<char>, Seq<char>>(
            "Qwen token expired or invalid"@,
        ),
        status != 401 && value.at("data"@).get("id"@) == Some(JsonModel::Str(id)) ==> new_chat_answer(
            status,
            Ok(value),
        ) == Ok::<Seq<char>, Seq<char>>(id),
        status != 401 && !(value.at("data"@).at("id"@) is Str) ==> new_chat_answer(
            status,
            Ok(value),
        ) is Err,
        status != 401 ==> new_chat_answer(status, Err(message)) == Err::<Seq<char>, Seq<char>>(
            "Failed to parse chat response: "@ + message,
        ),
{
}

/// Only a status in the two hundreds lets a continuation be read; any other is named.
pub proof fn law_continuations_go_by_status(status: int)
    ensures
        (continuation_error(status) is None) == (200 <= status < 300),
        status != 401 && !(200 <= status < 300) ==> continuation_error(status) == Some(
            "Qwen returned status "@ + numeral::decimal(status as nat),
        ),
{
}

/// In a streamed reply, and wherever there is a response to follow, the model is told everything; else
/// nothing.
pub proof fn law_what_the_model_is_told(feedback: Seq<Seq<char>>, followed: bool)
    ensures
        told(feedback, followed, true) == feedback,
        told(feedback, true, false) == feedback,
        told(feedback, false, false).len() == 0,
{
}

/// Every request upstream carries the token, and says what may come back.
pub proof fn law_requests_carry_the_token(accepted: Seq<char>, token: Seq<char>)
    ensures
        upstream_headers(accepted, token).contains(("cookie"@, "token="@ + token)),
        upstream_headers(accepted, token).contains(("accept"@, accepted)),
        upstream_headers(accepted, token).contains(("content-type"@, "application/json"@)),
{
    let headers = upstream_headers(accepted, token);
    assert(headers[5] == ("cookie"@, "token="@ + token));
    assert(headers[0] == ("accept"@, accepted));
    assert(headers[1] == ("content-type"@, "application/json"@));
}

} // verus!
