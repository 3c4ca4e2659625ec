//! What a client asks for.
use vstd::prelude::*;
use vstd::utf8::*;

use crate::chunks;
use crate::chunks::estimate_tokens;
use crate::constants;
use crate::constants::{qwen_upstream_model, MAX_PROMPT_CHARS};
use crate::json;
use crate::json::{json_string, parse_json_bytes, Json, JsonModel};
use crate::machine;
use crate::machine::random_id;
use crate::numeral;
use crate::numeral::hexadecimal_text;
use crate::prompt;
use crate::prompt::{build_message, messages_of, parse_tools};
use crate::replies;
use crate::replies::{bad_request, HttpReply, ReplyModel};
use crate::text;
use crate::text::same_text;
use crate::truncate;
use crate::truncate::truncate_for_context_limit;

verus! {

/// Where the hash of a text starts.
pub const FNV_OFFSET: u64 = 14695981039346656037;

/// What the hash of a text is multiplied by at every byte.
pub const FNV_PRIME: u64 = 1099511628211;

/// The 64-bit FNV-1a hash of some bytes.
pub open spec fn fnv1a(bytes: Seq<u8>) -> u64
    decreases bytes.len(),
{
    if bytes.len() == 0 {
        FNV_OFFSET
    } else {
        (fnv1a(bytes.drop_last()) ^ (bytes.last() as u64)).wrapping_mul(FNV_PRIME)
    }
}

/// The 64-bit FNV-1a hash of the bytes of a text.
pub fn fnv1a_hash(s: &str) -> (hash: u64)
    ensures
        hash == fnv1a(encode_utf8(s@)),
{
    let bytes: &[u8] = s.as_bytes();
    let mut hash: u64 = FNV_OFFSET;
    let mut i: usize = 0;
    assert(bytes@.take(0) =~= Seq::empty());
    while i < bytes.len()
        invariant
            i <= bytes@.len(),
            hash == fnv1a(bytes@.take(i as int)),
        decreases bytes@.len() - i,
    {
        assert(bytes@.take(i + 1).drop_last() =~= bytes@.take(i as int));
        hash = (hash ^ (bytes[i] as u64)).wrapping_mul(FNV_PRIME);
        i += 1;
    }
    assert(bytes@.take(i as int) =~= bytes@);
    hash
}

/// A number that tells the tools of one request from those of another: the hash of their JSON, and
/// none without tools.
pub open spec fn tools_hash(request: JsonModel) -> u64 {
    match request.array_at("tools"@) {
        Some(tools) => if tools.len() == 0 {
            0
        } else {
            fnv1a(encode_utf8(json::json_text(JsonModel::Array(tools))))
        },
        None => 0,
    }
}

/// A number that tells the tools of one request from those of another.
pub fn tools_fingerprint(v: &Json) -> (hash: u64)
    ensures
        hash == tools_hash(v@),
{
    match v.array_at("tools") {
        Some(tools) => {
            proof {
                json::lemma_elements(tools@);
            }
            if tools.len() == 0 {
                return 0;
            }
            fnv1a_hash(json_string(&Json::array(tools)).as_str())
        },
        None => 0,
    }
}

/// What a fingerprint of tools adds to the key of a client.
pub open spec fn fingerprint_suffix(hash: int) -> Seq<char> {
    if hash == 0 {
        Seq::empty()
    } else {
        ":t"@ + numeral::hexadecimal(hash as nat)
    }
}

/// What a fingerprint of tools adds to the key of a client.
pub fn suffix_of(hash: u64) -> (suffix: String)
    ensures
        suffix@ == fingerprint_suffix(hash as int),
{
    if hash == 0 {
        return String::new();
    }
    let mut suffix = ":t".to_owned();
    suffix.push_str(hexadecimal_text(hash).as_str());
    suffix
}

/// What the tools of a request add to the key of its client.
pub fn session_tools_suffix(v: &Json) -> (suffix: String)
    ensures
        suffix@ == fingerprint_suffix(tools_hash(v@) as int),
{
    suffix_of(tools_fingerprint(v))
}

/// A member that is a string and not empty.
pub open spec fn filled(value: JsonModel, key: Seq<char>) -> Option<Seq<char>> {
    match value.str_at(key) {
        Some(t) => if t.len() > 0 {
            Some(t)
        } else {
            None
        },
        None => None,
    }
}

/// A member that is a string and not empty.
fn filled_at<'a>(value: &'a Json, key: &str) -> (found: Option<&'a str>)
    ensures
        text::text_option(found) == filled(value@, key@),
{
    match value.str_at(key) {
        Some(t) => if t.is_empty() {
            None
        } else {
            Some(t)
        },
        None => None,
    }
}

/// The part of a key that the metadata of a request give under one of their names.
pub open spec fn metadata_part(metadata: JsonModel, name: Seq<char>) -> Option<Seq<char>> {
    match filled(metadata, name) {
        Some(id) => Some("meta:"@ + name + ":"@ + id),
        None => None,
    }
}

/// The part of a key that the metadata of a request give.
pub open spec fn metadata_key(metadata: JsonModel) -> Option<Seq<char>> {
    match metadata_part(metadata, "session_id"@) {
        Some(key) => Some(key),
        None => match metadata_part(metadata, "conversation_id"@) {
            Some(key) => Some(key),
            None => metadata_part(metadata, "chat_id"@),
        },
    }
}

/// The first text among the parts of a message.
pub open spec fn first_part_text(parts: Seq<JsonModel>) -> Option<Seq<char>>
    decreases parts.len(),
{
    if parts.len() == 0 {
        None
    } else {
        match parts[0].str_at("text"@) {
            Some(t) => Some(t),
            None => match parts[0].str_at("input_text"@) {
                Some(t) => Some(t),
                None => match parts[0].str_at("output_text"@) {
                    Some(t) => Some(t),
                    None => first_part_text(parts.skip(1)),
                },
            },
        }
    }
}

/// What a message says first.
pub open spec fn opening_text(message: JsonModel) -> Seq<char> {
    match message.at("content"@) {
        JsonModel::Str(t) => t,
        JsonModel::Array(parts) => prompt::text_or(first_part_text(parts), Seq::empty()),
        _ => Seq::empty(),
    }
}

/// What the first message of the user that says anything says.
pub open spec fn first_user_text(messages: Seq<JsonModel>) -> Option<Seq<char>>
    decreases messages.len(),
{
    if messages.len() == 0 {
        None
    } else if messages[0].str_at("role"@) == Some("user"@) && opening_text(messages[0]).len() > 0 {
        Some(opening_text(messages[0]))
    } else {
        first_user_text(messages.skip(1))
    }
}

/// The messages by which a client is told: those under `messages`, whatever they are, else those
/// under `input`.
pub open spec fn telling_messages(request: JsonModel) -> Option<Seq<JsonModel>> {
    match request.get("messages"@) {
        Some(messages) => messages.as_array(),
        None => request.array_at("input"@),
    }
}

/// The part of a key that the first message of the user gives.
pub open spec fn conversation_key(request: JsonModel) -> Option<Seq<char>> {
    match telling_messages(request) {
        Some(messages) => match first_user_text(messages) {
            Some(t) => Some(
                "conv:"@ + numeral::hexadecimal(fnv1a(encode_utf8(t)) as nat),
            ),
            None => None,
        },
        None => None,
    }
}

/// The part of a key that says who asks: the user, else the metadata, else how the conversation
/// starts.
pub open spec fn asker(request: JsonModel) -> Option<Seq<char>> {
    match filled(request, "user"@) {
        Some(user) => Some("user:"@ + user),
        None => match metadata_key(request.at("metadata"@)) {
            Some(key) => Some(key),
            None => conversation_key(request),
        },
    }
}

/// The key under which a client comes back to its chat, where the request tells who asks.
pub open spec fn stable_key(request: JsonModel) -> Option<Seq<char>> {
    match asker(request) {
        Some(who) => Some(who + fingerprint_suffix(tools_hash(request) as int)),
        None => None,
    }
}

/// The part of a key that the metadata of a request give under one of their names.
fn metadata_part_text(metadata: &Json, name: &str) -> (part: Option<String>)
    ensures
        text::string_option(part) == metadata_part(metadata@, name@),
{
    match filled_at(metadata, name) {
        Some(id) => {
            let mut part = "meta:".to_owned();
            part.push_str(name);
            part.push_str(":");
            part.push_str(id);
            Some(part)
        },
        None => None,
    }
}

/// The part of a key that the metadata of a request give.
fn metadata_key_text(metadata: &Json) -> (key: Option<String>)
    ensures
        text::string_option(key) == metadata_key(metadata@),
{
    if let Some(key) = metadata_part_text(metadata, "session_id") {
        return Some(key);
    }
    if let Some(key) = metadata_part_text(metadata, "conversation_id") {
        return Some(key);
    }
    metadata_part_text(metadata, "chat_id")
}

/// The first text among the parts of a message.
fn find_part_text(parts: &Vec<Json>) -> (found: Option<&str>)
    ensures
        text::text_option(found) == first_part_text(json::elements(parts@)),
{
    let ghost all = json::elements(parts@);
    let mut i: usize = 0;
    proof {
        json::lemma_elements(parts@);
    }
    assert(all.skip(0) =~= all);
    while i < parts.len()
        invariant
            i <= parts@.len(),
            all == json::elements(parts@),
            all.len() == parts@.len(),
            forall|j: int| 0 <= j < all.len() ==> #[trigger] all[j] == parts@[j]@,
            first_part_text(all) == first_part_text(all.skip(i as int)),
        decreases parts@.len() - i,
    {
        assert(all.skip(i as int).skip(1) =~= all.skip(i + 1));
        assert(all.skip(i as int)[0] == parts@[i as int]@);
        if let Some(t) = parts[i].str_at("text") {
            return Some(t);
        }
        if let Some(t) = parts[i].str_at("input_text") {
            return Some(t);
        }
        if let Some(t) = parts[i].str_at("output_text") {
            return Some(t);
        }
        i += 1;
    }
    None
}

/// What a message says first.
fn opening_of(message: &Json) -> (opening: String)
    ensures
        opening@ == opening_text(message@),
{
    match message.get("content") {
        Some(Json::Str(t)) => t.clone(),
        Some(Json::Array(parts)) => match find_part_text(parts) {
            Some(t) => t.to_owned(),
            None => String::new(),
        },
        _ => String::new(),
    }
}

/// What the first message of the user that says anything says.
fn find_user_text(messages: &Vec<Json>) -> (found: Option<String>)
    ensures
        text::string_option(found) == first_user_text(json::elements(messages@)),
{
    let ghost all = json::elements(messages@);
    let mut i: usize = 0;
    proof {
        json::lemma_elements(messages@);
    }
    assert(all.skip(0) =~= all);
    while i < messages.len()
        invariant
            i <= messages@.len(),
            all == json::elements(messages@),
            all.len() == messages@.len(),
            forall|j: int| 0 <= j < all.len() ==> #[trigger] all[j] == messages@[j]@,
            first_user_text(all) == first_user_text(all.skip(i as int)),
        decreases messages@.len() - i,
    {
        assert(all.skip(i as int).skip(1) =~= all.skip(i + 1));
        assert(all.skip(i as int)[0] == messages@[i as int]@);
        let by_user = match messages[i].str_at("role") {
            Some(role) => same_text(role, "user"),
            None => false,
        };
        if by_user {
            let opening = opening_of(&messages[i]);
            if !opening.as_str().is_empty() {
                return Some(opening);
            }
        }
        i += 1;
    }
    None
}

/// The part of a key that the first message of the user gives.
fn conversation_key_text(v: &Json) -> (key: Option<String>)
    ensures
        text::string_option(key) == conversation_key(v@),
{
    let messages = match v.get("messages") {
        Some(messages) => messages.as_array(),
        None => v.array_at("input"),
    };
    match messages {
        Some(list) => match find_user_text(list) {
            Some(t) => {
                let mut key = "conv:".to_owned();
                key.push_str(hexadecimal_text(fnv1a_hash(t.as_str())).as_str());
                Some(key)
            },
            None => None,
        },
        None => None,
    }
}

/// The part of a key that says who asks.
fn asker_text(v: &Json) -> (who: Option<String>)
    ensures
        text::string_option(who) == asker(v@),
{
    if let Some(user) = filled_at(v, "user") {
        let mut who = "user:".to_owned();
        who.push_str(user);
        return Some(who);
    }
    if let Some(metadata) = v.get("metadata") {
        if let Some(key) = metadata_key_text(metadata) {
            return Some(key);
        }
    }
    conversation_key_text(v)
}

/// The key under which a client comes back to its chat, where the request tells who asks.
pub fn stable_session_key(v: &Json) -> (key: Option<String>)
    ensures
        text::string_option(key) == stable_key(v@),
{
    match asker_text(v) {
        Some(who) => {
            let mut key = who;
            key.push_str(session_tools_suffix(v).as_str());
            Some(key)
        },
        None => None,
    }
}

/// The key of a client: that under which it comes back to its chat, or one that will not be seen
/// again.
pub fn client_session_key(v: &Json) -> (key: String)
    ensures
        match stable_key(v@) {
            Some(k) => key@ == k,
            None => exists|fresh: Seq<char>|
                machine::is_id(fresh) && key@ == #[trigger] ("ephemeral:"@ + fresh),
        },
{
    match stable_session_key(v) {
        Some(key) => key,
        None => {
            let fresh = random_id();
            let mut key = "ephemeral:".to_owned();
            key.push_str(fresh.as_str());
            assert(key@ == "ephemeral:"@ + fresh@);
            key
        },
    }
}

/// The upstream model for a request, given the value of `QWEN_MODEL`.
pub open spec fn model_for(request: JsonModel, env_model: Option<Seq<char>>) -> Seq<char> {
    constants::upstream_model(env_model, filled(request, "model"@))
}

/// The upstream model for a request, given the value of `QWEN_MODEL`.
pub fn request_model(v: &Json, env_model: Option<&str>) -> (model: String)
    ensures
        model@ == model_for(v@, text::text_option(env_model)),
{
    qwen_upstream_model(env_model, filled_at(v, "model"))
}

/// A request that is ready to go upstream.
#[derive(Debug)]
pub struct Prepared {
    /// The request, its history cut down to what the model takes.
    pub request: Json,
    /// Whether it came in the form of the responses API.
    pub responses_api: bool,
    /// Whether the reply is to be streamed.
    pub stream: bool,
    /// The format that is asked for.
    pub response_format: Option<Json>,
    /// The tools that may be called.
    pub tools: Vec<Json>,
    /// What is sent to the model.
    pub prompt: String,
    /// A rough count of its tokens.
    pub prompt_tokens: usize,
    /// The upstream model.
    pub model: String,
}

/// What a [`Prepared`] says.
pub struct PreparedModel {
    pub request: JsonModel,
    pub responses_api: bool,
    pub stream: bool,
    pub response_format: Option<JsonModel>,
    pub tools: Seq<JsonModel>,
    pub prompt: Seq<char>,
    pub prompt_tokens: int,
    pub model: Seq<char>,
}

impl Prepared {
    /// What the request says.
    pub open spec fn view(&self) -> PreparedModel {
        PreparedModel {
            request: self.request@,
            responses_api: self.responses_api,
            stream: self.stream,
            response_format: match self.response_format {
                Some(format) => Some(format@),
                None => None,
            },
            tools: json::elements(self.tools@),
            prompt: self.prompt@,
            prompt_tokens: self.prompt_tokens as int,
            model: self.model@,
        }
    }
}

/// A request, made ready to go upstream.
pub open spec fn prepared(request: JsonModel, env_model: Option<Seq<char>>) -> PreparedModel {
    let kept = truncate::kept_request(request, MAX_PROMPT_CHARS as int);
    let tools = prompt::request_tools(kept);
    let text = prompt::request_text(kept);
    PreparedModel {
        request: kept,
        responses_api: kept.get("input"@) is Some && kept.get("messages"@) is None,
        stream: kept.get("stream"@) == Some(JsonModel::Bool(true)),
        response_format: kept.get("response_format"@),
        tools,
        prompt: text,
        prompt_tokens: chunks::token_count(text) as int,
        model: model_for(kept, env_model),
    }
}

/// A request, made ready to go upstream, or the reply that refuses it: one without messages.
pub open spec fn preparation(request: JsonModel, env_model: Option<Seq<char>>) -> Result<
    PreparedModel,
    ReplyModel,
> {
    match prompt::request_messages(request) {
        None => Err(replies::bad_request_reply("messages or input array is required"@)),
        Some(messages) => if messages.len() == 0 {
            Err(replies::bad_request_reply("messages array cannot be empty"@))
        } else {
            Ok(prepared(request, env_model))
        },
    }
}

/// What a preparation comes to.
pub open spec fn preparation_result(result: Result<Prepared, HttpReply>) -> Result<
    PreparedModel,
    ReplyModel,
> {
    match result {
        Ok(p) => Ok(p@),
        Err(r) => Err(r@),
    }
}

/// Makes a request ready to go upstream, given the value of `QWEN_MODEL`.
pub fn prepare_request(request: Json, env_model: Option<&str>) -> (result: Result<
    Prepared,
    HttpReply,
>)
    ensures
        preparation_result(result) == preparation(request@, text::text_option(env_model)),
        result matches Ok(p) ==> p.stream == (request@.get("stream"@) == Some(JsonModel::Bool(true))),
        result matches Ok(p) ==> p.responses_api == (request@.get("input"@) is Some && request@.get(
            "messages"@,
        ) is None),
        result matches Ok(p) ==> p@.response_format == request@.get("response_format"@),
        (result is Ok) == (prompt::request_messages(request@) is Some
            && prompt::request_messages(request@)->0.len() > 0),
{
    proof {
        law_requests_are_taken_at_their_word(request@, text::text_option(env_model));
    }
    match messages_of(&request) {
        None => {
            return Err(bad_request("messages or input array is required"));
        },
        Some(messages) => {
            proof {
                json::lemma_elements(messages@);
            }
            if messages.len() == 0 {
                return Err(bad_request("messages array cannot be empty"));
            }
        },
    }
    let mut kept = request;
    let _truncated = truncate_for_context_limit(&mut kept, MAX_PROMPT_CHARS);
    let responses_api = kept.get("input").is_some() && kept.get("messages").is_none();
    let stream = match kept.get("stream") {
        Some(Json::Bool(true)) => true,
        _ => false,
    };
    let response_format = match kept.get("response_format") {
        Some(format) => Some(format.copy()),
        None => None,
    };
    let tools = parse_tools(&kept);
    let prompt = build_message(&kept);
    let prompt_tokens: usize = estimate_tokens(prompt.as_str());
    let model = request_model(&kept, env_model);
    Ok(
        Prepared {
            request: kept,
            responses_api,
            stream,
            response_format,
            tools,
            prompt,
            prompt_tokens,
            model,
        },
    )
}

/// The body of a request, made ready to go upstream, or the reply that refuses it.
pub open spec fn body_preparation(
    body: Result<JsonModel, Seq<char>>,
    env_model: Option<Seq<char>>,
) -> Result<PreparedModel, ReplyModel> {
    match body {
        Ok(request) => preparation(request, env_model),
        Err(message) => Err(replies::bad_request_reply("Invalid JSON: "@ + message)),
    }
}

/// Makes a request ready to go upstream, given what its body reads as.
pub fn prepare_parsed(body: Result<Json, String>, env_model: Option<&str>) -> (result: Result<
    Prepared,
    HttpReply,
>)
    ensures
        preparation_result(result) == body_preparation(
            json::json_result(body),
            text::text_option(env_model),
        ),
        result matches Ok(p) ==> (json::json_result(body) matches Ok(request) && p.stream == (
        request.get("stream"@) == Some(JsonModel::Bool(true)))),
{
    match body {
        Ok(request) => prepare_request(request, env_model),
        Err(message) => {
            let mut error = "Invalid JSON: ".to_owned();
            error.push_str(message.as_str());
            Err(bad_request(error.as_str()))
        },
    }
}

/// Makes the body of a request ready to go upstream, given the value of `QWEN_MODEL`.
pub fn prepare_body(body: &[u8], env_model: Option<&str>) -> (result: Result<Prepared, HttpReply>)
    ensures
        preparation_result(result) == body_preparation(
            json::json_parse_bytes(body@),
            text::text_option(env_model),
        ),
        result matches Ok(p) ==> (json::json_parse_bytes(body@) matches Ok(request) && p.stream == (
        request.get("stream"@) == Some(JsonModel::Bool(true)))),
{
    prepare_parsed(parse_json_bytes(body), env_model)
}

/// A request that names its user belongs to one chat per user and set of tools, whatever else it
/// says.
pub proof fn law_user_decides_the_chat(first: JsonModel, second: JsonModel)
    requires
        filled(first, "user"@) is Some,
        filled(first, "user"@) == filled(second, "user"@),
        first.array_at("tools"@) == second.array_at("tools"@),
    ensures
        stable_key(first) is Some,
        stable_key(first) == stable_key(second),
{
}

/// A request that is not refused keeps at least one message.
pub proof fn law_prepared_request_has_messages(request: JsonModel, env_model: Option<Seq<char>>)
    requires
        preparation(request, env_model) is Ok,
    ensures
        prompt::request_messages(preparation(request, env_model)->Ok_0.request) matches Some(
            messages,
        ) && messages.len() > 0,
{
    let messages = prompt::request_messages(request)->0;
    truncate::law_truncation_keeps_both_ends(messages, MAX_PROMPT_CHARS as int);
    reveal_strlit("messages");
    reveal_strlit("input");
    assert("messages"@.len() != "input"@.len());
}

/// A request is accepted exactly where it has messages, and then it is taken at its word, in either
/// form: whether it asks for a stream, which form it came in, what format it asks for, its tools,
/// and its model.
pub proof fn law_requests_are_taken_at_their_word(request: JsonModel, env_model: Option<Seq<char>>)
    ensures
        (preparation(request, env_model) is Ok) == (prompt::request_messages(request) is Some
            && prompt::request_messages(request)->0.len() > 0),
        preparation(request, env_model) matches Ok(p) ==> {
            &&& p.stream == (request.get("stream"@) == Some(JsonModel::Bool(true)))
            &&& p.responses_api == (request.get("input"@) is Some && request.get("messages"@) is None)
            &&& p.response_format == request.get("response_format"@)
            &&& p.tools == prompt::request_tools(request)
            &&& p.model == constants::upstream_model(env_model, filled(request, "model"@))
            &&& p.prompt == prompt::request_text(p.request)
            &&& p.prompt_tokens == chunks::token_count(p.prompt)
        },
{
    lemma_member_names();
    truncate::law_truncation_touches_histories_only(request, "stream"@, MAX_PROMPT_CHARS as int);
    truncate::law_truncation_touches_histories_only(
        request,
        "response_format"@,
        MAX_PROMPT_CHARS as int,
    );
    truncate::law_truncation_touches_histories_only(request, "tools"@, MAX_PROMPT_CHARS as int);
    truncate::law_truncation_touches_histories_only(request, "model"@, MAX_PROMPT_CHARS as int);
}

/// The members of a request have other names than its histories.
proof fn lemma_member_names()
    ensures
        "stream"@ != "messages"@ && "stream"@ != "input"@,
        "response_format"@ != "messages"@ && "response_format"@ != "input"@,
        "tools"@ != "messages"@ && "tools"@ != "input"@,
        "model"@ != "messages"@ && "model"@ != "input"@,
        "user"@ != "messages"@ && "user"@ != "input"@,
        "metadata"@ != "messages"@ && "metadata"@ != "input"@,
{
    reveal_strlit("stream");
    reveal_strlit("messages");
    reveal_strlit("input");
    reveal_strlit("response_format");
    reveal_strlit("tools");
    reveal_strlit("model");
    reveal_strlit("user");
    reveal_strlit("metadata");
    assert("stream"@.len() == 6 && "messages"@.len() == 8 && "input"@.len() == 5);
    assert("response_format"@.len() == 15 && "tools"@.len() == 5 && "model"@.len() == 5);
    assert("user"@.len() == 4 && "metadata"@.len() == 8);
    assert("tools"@[0] != "input"@[0]);
    assert("model"@[0] != "input"@[0]);
    assert("metadata"@[2] != "messages"@[2]);
}

/// A request that is refused is answered with status 400, and one that is not JSON is refused with
/// what is wrong with it.
pub proof fn law_refusals_are_bad_requests(
    request: JsonModel,
    env_model: Option<Seq<char>>,
    message: Seq<char>,
)
    ensures
        preparation(request, env_model) matches Err(reply) ==> reply.status == 400,
        body_preparation(Err(message), env_model) matches Err(reply) && reply.status == 400
            && reply.body == json::json_text(
            replies::error_value("Invalid JSON: "@ + message, "invalid_request_error"@, None, None),
        ),
        body_preparation(Ok(request), env_model) == preparation(request, env_model),
{
}

/// A request within the limits goes on as it came.
pub proof fn law_short_requests_go_on_as_they_came(request: JsonModel, env_model: Option<Seq<char>>)
    requires
        preparation(request, env_model) is Ok,
        request.array_at("messages"@) matches Some(messages) ==> truncate::history_len(messages)
            <= 3500000,
        request.array_at("input"@) matches Some(messages) ==> truncate::history_len(messages)
            <= 3500000,
    ensures
        preparation(request, env_model)->Ok_0.request == request,
        preparation(request, env_model)->Ok_0.prompt == prompt::request_text(request),
{
    truncate::law_short_request_stays(request, MAX_PROMPT_CHARS as int);
}

/// Who asks is told by the user, where the request names one; else by the metadata, in the order
/// session, conversation, chat; else by how the user starts the conversation; else by nothing.
pub proof fn law_who_asks(request: JsonModel, id: Seq<char>)
    requires
        id.len() > 0,
    ensures
        request.get("user"@) == Some(JsonModel::Str(id)) ==> asker(request) == Some("user:"@ + id),
        filled(request, "user"@) is None && request.at("metadata"@).get("session_id"@) == Some(
            JsonModel::Str(id),
        ) ==> asker(request) == Some("meta:"@ + "session_id"@ + ":"@ + id),
        filled(request, "user"@) is None && filled(request.at("metadata"@), "session_id"@) is None
            && request.at("metadata"@).get("conversation_id"@) == Some(JsonModel::Str(id)) ==> asker(
            request,
        ) == Some("meta:"@ + "conversation_id"@ + ":"@ + id),
        filled(request, "user"@) is None && filled(request.at("metadata"@), "session_id"@) is None
            && filled(request.at("metadata"@), "conversation_id"@) is None && request.at(
            "metadata"@,
        ).get("chat_id"@) == Some(JsonModel::Str(id)) ==> asker(request) == Some(
            "meta:"@ + "chat_id"@ + ":"@ + id,
        ),
        filled(request, "user"@) is None && filled(request.at("metadata"@), "session_id"@) is None
            && filled(request.at("metadata"@), "conversation_id"@) is None && filled(
            request.at("metadata"@),
            "chat_id"@,
        ) is None ==> asker(request) == conversation_key(request),
{
}

/// A member counts as filled exactly where it is a string with something in it.
pub proof fn law_filled_members(value: JsonModel, key: Seq<char>)
    ensures
        (filled(value, key) is Some) == (value.get(key) is Some && value.get(key)->0 is Str
            && value.get(key)->0->Str_0.len() > 0),
        filled(value, key) matches Some(text) ==> value.get(key) == Some(JsonModel::Str(text)),
{
}

/// A conversation is told by what the user says first: whatever follows, and whoever spoke before,
/// it is the same one.
pub proof fn law_conversation_is_told_by_its_start(
    before: Seq<JsonModel>,
    message: JsonModel,
    after: Seq<JsonModel>,
    said: Seq<char>,
)
    requires
        forall|i: int|
            0 <= i < before.len() ==> (#[trigger] before[i]).str_at("role"@) != Some("user"@),
        message.get("role"@) == Some(JsonModel::Str("user"@)),
        message.get("content"@) == Some(JsonModel::Str(said)),
        said.len() > 0,
    ensures
        first_user_text(before + seq![message] + after) == Some(said),
    decreases before.len(),
{
    let whole = before + seq![message] + after;
    if before.len() == 0 {
        assert(whole[0] == message);
        assert(message.str_at("role"@) == Some("user"@));
    } else {
        let rest = before.skip(1);
        assert forall|i: int| 0 <= i < rest.len() implies (#[trigger] rest[i]).str_at("role"@)
            != Some("user"@) by {
            assert(before[i + 1].str_at("role"@) != Some("user"@));
        }
        law_conversation_is_told_by_its_start(rest, message, after, said);
        assert(whole[0] == before[0]);
        assert(whole.skip(1) =~= rest + seq![message] + after);
    }
}

/// The key of a client tells who asks and, where there are tools, which; two requests that differ in
/// nothing of that belong to one chat.
pub proof fn law_keys_tell_who_asks_with_which_tools(first: JsonModel, second: JsonModel)
    ensures
        asker(first) == asker(second) && first.array_at("tools"@) == second.array_at("tools"@)
            ==> stable_key(first) == stable_key(second),
        (stable_key(first) is Some) == (asker(first) is Some),
        stable_key(first) matches Some(key) ==> asker(first)->0.is_prefix_of(key),
        stable_key(first) is Some && first.get("tools"@) is None ==> stable_key(first) == asker(first),
        asker(first) is Some ==> (first.array_at("tools"@) matches Some(tools) ==> {
            let hash = fnv1a(encode_utf8(json::json_text(JsonModel::Array(tools))));
            tools.len() > 0 && hash != 0 ==> stable_key(first) == Some(
                asker(first)->0 + ":t"@ + numeral::hexadecimal(hash as nat),
            )
        }),
{
    if let Some(key) = stable_key(first) {
        let who = asker(first)->0;
        assert(key.take(who.len() as int) =~= who);
        if first.get("tools"@) is None {
            assert(key =~= who);
        }
        if let Some(tools) = first.array_at("tools"@) {
            let hash = fnv1a(encode_utf8(json::json_text(JsonModel::Array(tools))));
            assert(who + (":t"@ + numeral::hexadecimal(hash as nat)) =~= who + ":t"@
                + numeral::hexadecimal(hash as nat));
        }
    }
}

/// The hash of some bytes starts from a constant and takes them up one by one.
pub proof fn law_hash_takes_up_bytes(bytes: Seq<u8>, byte: u8)
    ensures
        fnv1a(Seq::empty()) == 14695981039346656037,
        fnv1a(bytes.push(byte)) == (fnv1a(bytes) ^ (byte as u64)).wrapping_mul(1099511628211),
{
    assert(bytes.push(byte).drop_last() =~= bytes);
}

/// What goes on of a request is the request, its histories cut down to the limit that the upstream
/// model has.
pub proof fn law_long_requests_are_cut_down(request: JsonModel, env_model: Option<Seq<char>>)
    requires
        preparation(request, env_model) is Ok,
    ensures
        preparation(request, env_model)->Ok_0.request == truncate::kept_request(request, 3500000),
{
}

/// Where nothing else tells who asks, a conversation is told by a hash of what the user says first, in
/// either form of a request.
pub proof fn law_conversations_are_told_by_their_start(
    request: JsonModel,
    messages: Seq<JsonModel>,
    said: Seq<char>,
)
    requires
        request.get("messages"@) == Some(JsonModel::Array(messages)) || (request.get("messages"@) is None
            && request.get("input"@) == Some(JsonModel::Array(messages))),
    ensures
        first_user_text(messages) == Some(said) ==> conversation_key(request) == Some(
            "conv:"@ + numeral::hexadecimal(fnv1a(encode_utf8(said)) as nat),
        ),
        first_user_text(messages) is None ==> conversation_key(request) is None,
{
}

/// What a message says first: its text, or of several parts the first that has text, under any of
/// three names; nothing where it has none.
pub proof fn law_what_messages_say_first(
    message: JsonModel,
    before: Seq<JsonModel>,
    part: JsonModel,
    after: Seq<JsonModel>,
    said: Seq<char>,
)
    requires
        forall|i: int|
            0 <= i < before.len() ==> (#[trigger] before[i]).str_at("text"@) is None && before[i].str_at(
                "input_text"@,
            ) is None && before[i].str_at("output_text"@) is None,
    ensures
        message.get("content"@) == Some(JsonModel::Str(said)) ==> opening_text(message) == said,
        message.get("content"@) is None ==> opening_text(message).len() == 0,
        message.get("content"@) == Some(JsonModel::Array(before)) ==> opening_text(message).len() == 0,
        message.get("content"@) == Some(JsonModel::Array(before + seq![part] + after)) && (part.get(
            "text"@,
        ) == Some(JsonModel::Str(said)) || (part.str_at("text"@) is None && part.get("input_text"@)
            == Some(JsonModel::Str(said))) || (part.str_at("text"@) is None && part.str_at("input_text"@)
            is None && part.get("output_text"@) == Some(JsonModel::Str(said)))) ==> opening_text(message)
            == said,
{
    if part.str_at("text"@) is Some || part.str_at("input_text"@) is Some || part.str_at("output_text"@)
        is Some {
        lemma_first_part(before, part, after);
    }
    lemma_no_part(before);
}

/// Parts without text are passed over.
proof fn lemma_first_part(before: Seq<JsonModel>, part: JsonModel, after: Seq<JsonModel>)
    requires
        forall|i: int|
            0 <= i < before.len() ==> (#[trigger] before[i]).str_at("text"@) is None && before[i].str_at(
                "input_text"@,
            ) is None && before[i].str_at("output_text"@) is None,
        part.str_at("text"@) is Some || part.str_at("input_text"@) is Some || part.str_at("output_text"@)
            is Some,
    ensures
        first_part_text(before + seq![part] + after) == if part.str_at("text"@) is Some {
            part.str_at("text"@)
        } else if part.str_at("input_text"@) is Some {
            part.str_at("input_text"@)
        } else {
            part.str_at("output_text"@)
        },
    decreases before.len(),
{
    let whole = before + seq![part] + after;
    if before.len() == 0 {
        assert(whole[0] == part);
    } else {
        let rest = before.skip(1);
        assert(before[0].str_at("text"@) is None);
        assert forall|i: int| 0 <= i < rest.len() implies (#[trigger] rest[i]).str_at("text"@) is None
            && rest[i].str_at("input_text"@) is None && rest[i].str_at("output_text"@) is None by {
            assert(before[i + 1].str_at("text"@) is None);
        }
        lemma_first_part(rest, part, after);
        assert(whole[0] == before[0]);
        assert(whole.skip(1) =~= rest + seq![part] + after);
    }
}

/// Parts without text have no first text.
proof fn lemma_no_part(parts: Seq<JsonModel>)
    requires
        forall|i: int|
            0 <= i < parts.len() ==> (#[trigger] parts[i]).str_at("text"@) is None && parts[i].str_at(
                "input_text"@,
            ) is None && parts[i].str_at("output_text"@) is None,
    ensures
        first_part_text(parts) is None,
    decreases parts.len(),
{
    if parts.len() > 0 {
        let rest = parts.skip(1);
        assert(parts[0].str_at("text"@) is None);
        assert forall|i: int| 0 <= i < rest.len() implies (#[trigger] rest[i]).str_at("text"@) is None
            && rest[i].str_at("input_text"@) is None && rest[i].str_at("output_text"@) is None by {
            assert(parts[i + 1].str_at("text"@) is None);
        }
        lemma_no_part(rest);
    }
}

/// A message that says nothing, or is not the user's, does not start a conversation.
pub proof fn law_silent_messages_start_nothing(message: JsonModel, after: Seq<JsonModel>)
    requires
        message.str_at("role"@) != Some("user"@) || opening_text(message).len() == 0,
    ensures
        first_user_text(seq![message] + after) == first_user_text(after),
        first_user_text(Seq::empty()) is None,
{
    let whole = seq![message] + after;
    assert(whole[0] == message);
    assert(whole.skip(1) =~= after);
}

/// A request without tools, or with an empty list of them, is told by who asks alone.
pub proof fn law_without_tools_only_the_asker_counts(request: JsonModel)
    requires
        request.array_at("tools"@) is None || request.array_at("tools"@)->0.len() == 0,
    ensures
        stable_key(request) == asker(request),
        tools_hash(request) == 0,
{
    if let Some(who) = asker(request) {
        assert(who + fingerprint_suffix(0) =~= who);
    }
}

} // verus!
