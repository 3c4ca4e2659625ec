//! Replies that need nothing from upstream, and what all replies have in common.
use vstd::prelude::*;

use crate::constants;
use crate::constants::{qwen_upstream_model, MODEL_NAME};
use crate::json;
use crate::json::{json_string, Json, JsonModel};
use crate::numeral;
use crate::numeral::decimal_text;
use crate::payload;
use crate::payload::header;
use crate::text;
use crate::text::{same_text, starts_with, strip_prefix};

verus! {

/// A reply: its status and its body, which is JSON or empty.
#[derive(Debug)]
pub struct HttpReply {
    pub status: u16,
    pub body: String,
}

/// What an [`HttpReply`] says.
pub struct ReplyModel {
    pub status: int,
    pub body: Seq<char>,
}

impl HttpReply {
    /// What the reply says.
    pub open spec fn view(&self) -> ReplyModel {
        ReplyModel { status: self.status as int, body: self.body@ }
    }
}

/// A reply with a JSON value as its body.
pub open spec fn json_reply(status: int, body: JsonModel) -> ReplyModel {
    ReplyModel { status, body: json::json_text(body) }
}

/// A reply with a JSON value as its body.
pub fn json_response(status: u16, body: &Json) -> (reply: HttpReply)
    ensures
        reply@ == json_reply(status as int, body@),
{
    HttpReply { status, body: json_string(body) }
}

/// The body of a reply that reports an error.
pub open spec fn error_value(
    message: Seq<char>,
    kind: Seq<char>,
    param: Option<Seq<char>>,
    code: Option<Seq<char>>,
) -> JsonModel {
    let bare = map!["message"@ => JsonModel::Str(message), "type"@ => JsonModel::Str(kind)];
    let with_param = match param {
        Some(p) => bare.insert("param"@, JsonModel::Str(p)),
        None => bare,
    };
    let error = match code {
        Some(c) => with_param.insert("code"@, JsonModel::Str(c)),
        None => with_param,
    };
    JsonModel::Object(map!["error"@ => JsonModel::Object(error)])
}

/// A reply that reports an error.
pub open spec fn error_reply(status: int, message: Seq<char>, kind: Seq<char>) -> ReplyModel {
    json_reply(status, error_value(message, kind, None, None))
}

/// Builds the body of a reply that reports an error.
pub fn error_body(message: &str, kind: &str, param: Option<&str>, code: Option<&str>) -> (body:
    Json)
    ensures
        body@ == error_value(
            message@,
            kind@,
            text::text_option(param),
            text::text_option(code),
        ),
{
    let mut error = Json::object().with("message", Json::text(message)).with(
        "type",
        Json::text(kind),
    );
    if let Some(p) = param {
        error = error.with("param", Json::text(p));
    }
    if let Some(c) = code {
        error = error.with("code", Json::text(c));
    }
    Json::object().with("error", error)
}

/// Builds a reply that reports an error.
pub fn openai_error_response(
    status: u16,
    message: &str,
    kind: &str,
    param: Option<&str>,
    code: Option<&str>,
) -> (reply: HttpReply)
    ensures
        reply@ == json_reply(
            status as int,
            error_value(message@, kind@, text::text_option(param), text::text_option(code)),
        ),
{
    json_response(status, &error_body(message, kind, param, code))
}

/// The reply to a request that makes no sense.
pub open spec fn bad_request_reply(message: Seq<char>) -> ReplyModel {
    error_reply(400, message, "invalid_request_error"@)
}

/// The reply to a request that makes no sense.
pub fn bad_request(message: &str) -> (reply: HttpReply)
    ensures
        reply@ == bad_request_reply(message@),
{
    openai_error_response(400, message, "invalid_request_error", None, None)
}

/// The reply to a request that failed.
pub open spec fn internal_error_reply(message: Seq<char>) -> ReplyModel {
    error_reply(500, message, "server_error"@)
}

/// The reply to a request that failed.
pub fn internal_error(message: &str) -> (reply: HttpReply)
    ensures
        reply@ == internal_error_reply(message@),
{
    openai_error_response(500, message, "server_error", None, None)
}

/// The reply to a request for what is not there.
pub fn not_found_response() -> (reply: HttpReply)
    ensures
        reply@ == error_reply(404, "Not found"@, "not_found"@),
{
    openai_error_response(404, "Not found", "not_found", None, None)
}

/// The list of models.
pub const MODELS_JSON: &'static str = r#"{"object":"list","data":[
{"id":"qwen3.7-max","object":"model","created":1700000000,"owned_by":"qwen","permission":[],"root":"qwen3.7-max","parent":null},
{"id":"qwen3.7-max-preview","object":"model","created":1700000000,"owned_by":"qwen","permission":[],"root":"qwen3.7-max-preview","parent":null},
{"id":"qwen3.6-plus","object":"model","created":1700000000,"owned_by":"qwen","permission":[],"root":"qwen3.6-plus","parent":null},
{"id":"qwen3.6-max-preview","object":"model","created":1700000000,"owned_by":"qwen","permission":[],"root":"qwen3.6-max-preview","parent":null}
]}"#;

/// The reply to a request for the list of models.
pub fn models_handler() -> (reply: HttpReply)
    ensures
        reply@ == (ReplyModel { status: 200, body: MODELS_JSON@ }),
{
    HttpReply { status: 200, body: MODELS_JSON.to_owned() }
}

/// What is said of a model.
pub open spec fn model_value(id: Seq<char>) -> JsonModel {
    JsonModel::Object(
        map![
            "id"@ => JsonModel::Str(id),
            "object"@ => JsonModel::Str("model"@),
            "created"@ => json::json_int(1700000000),
            "owned_by"@ => JsonModel::Str("qwen"@),
            "permission"@ => JsonModel::Array(Seq::empty()),
            "root"@ => JsonModel::Str(id),
            "parent"@ => JsonModel::Null,
        ],
    )
}

/// What is said of a model.
pub fn model_info(id: &str) -> (info: Json)
    ensures
        info@ == model_value(id@),
{
    Json::object().with("id", Json::text(id)).with("object", Json::text("model")).with(
        "created",
        Json::integer(1700000000),
    ).with("owned_by", Json::text("qwen")).with("permission", Json::no_items()).with(
        "root",
        Json::text(id),
    ).with("parent", Json::Null)
}

/// A model that clients may ask for by name.
pub open spec fn known_model(id: Seq<char>) -> bool {
    ||| id == MODEL_NAME@
    ||| id == "qwen3.7-max-preview"@
    ||| id == "qwen3.6-plus"@
    ||| id == "qwen3.6-max-preview"@
    ||| id == "gpt-4"@
    ||| id == "gpt-4o"@
    ||| id == "gpt-3.5-turbo"@
}

/// The reply to a request for one model: what is said of the upstream model that it stands for, or
/// an error where it is not known.
pub open spec fn model_reply(id: Seq<char>, env_model: Option<Seq<char>>) -> ReplyModel {
    if known_model(id) {
        json_reply(200, model_value(constants::upstream_model(env_model, Some(id))))
    } else {
        json_reply(
            404,
            error_value(
                "Model '"@ + id + "' not found"@,
                "invalid_request_error"@,
                Some("model"@),
                Some("model_not_found"@),
            ),
        )
    }
}

/// The reply to a request for one model, given the value of `QWEN_MODEL`.
pub fn model_handler(model_id: &str, env_model: Option<&str>) -> (reply: HttpReply)
    ensures
        reply@ == model_reply(model_id@, text::text_option(env_model)),
{
    if same_text(model_id, MODEL_NAME) || same_text(model_id, "qwen3.7-max-preview") || same_text(
        model_id,
        "qwen3.6-plus",
    ) || same_text(model_id, "qwen3.6-max-preview") || same_text(model_id, "gpt-4") || same_text(
        model_id,
        "gpt-4o",
    ) || same_text(model_id, "gpt-3.5-turbo") {
        let resolved = qwen_upstream_model(env_model, Some(model_id));
        json_response(200, &model_info(resolved.as_str()))
    } else {
        let mut message = "Model '".to_owned();
        message.push_str(model_id);
        message.push_str("' not found");
        openai_error_response(
            404,
            message.as_str(),
            "invalid_request_error",
            Some("model"),
            Some("model_not_found"),
        )
    }
}

/// The reply to a question after the health of the service.
pub fn health_handler() -> (reply: HttpReply)
    ensures
        reply@ == json_reply(
            200,
            JsonModel::Object(
                map!["status"@ => JsonModel::Str("ok"@), "model"@ => JsonModel::Str(MODEL_NAME@)],
            ),
        ),
{
    json_response(
        200,
        &Json::object().with("status", Json::text("ok")).with("model", Json::text(MODEL_NAME)),
    )
}

/// The reply to a request for the root.
pub fn root_handler() -> (reply: HttpReply)
    ensures
        reply@ == json_reply(
            200,
            JsonModel::Object(
                map![
                    "message"@ => JsonModel::Str("Qwen OpenAI Proxy (tokio+hyper)"@),
                    "version"@ => JsonModel::Str("0.1.0"@),
                ],
            ),
        ),
{
    json_response(
        200,
        &Json::object().with("message", Json::text("Qwen OpenAI Proxy (tokio+hyper)")).with(
            "version",
            Json::text("0.1.0"),
        ),
    )
}

/// The reply to a browser that asks what it may do: its headers say it all.
pub fn preflight_handler() -> (reply: HttpReply)
    ensures
        reply@ == (ReplyModel { status: 204, body: Seq::empty() }),
{
    HttpReply { status: 204, body: String::new() }
}

/// The headers that let browsers use a reply, wherever their page comes from.
pub open spec fn cors_pairs() -> Seq<(Seq<char>, Seq<char>)> {
    seq![
        ("access-control-allow-origin"@, "*"@),
        ("access-control-allow-methods"@, "*"@),
        ("access-control-allow-headers"@, "*"@),
    ]
}

/// The headers that let browsers use a reply, wherever their page comes from.
pub fn cors_headers() -> (headers: Vec<(String, String)>)
    ensures
        payload::header_pairs(headers@) == cors_pairs(),
{
    let mut headers: Vec<(String, String)> = Vec::new();
    headers.push(header("access-control-allow-origin", "*"));
    headers.push(header("access-control-allow-methods", "*"));
    headers.push(header("access-control-allow-headers", "*"));
    assert(payload::header_pairs(headers@) =~= cors_pairs());
    headers
}

/// The headers of a reply: what its body is and how long, where it has one, and those that let
/// browsers use it.
pub open spec fn reply_pairs(reply: ReplyModel) -> Seq<(Seq<char>, Seq<char>)> {
    if reply.status == 204 {
        cors_pairs()
    } else {
        seq![
            ("content-type"@, "application/json"@),
            ("content-length"@, numeral::decimal(text::byte_len(reply.body))),
        ] + cors_pairs()
    }
}

/// The headers of a reply.
pub fn reply_headers(reply: &HttpReply) -> (headers: Vec<(String, String)>)
    ensures
        payload::header_pairs(headers@) == reply_pairs(reply@),
{
    let mut cors = cors_headers();
    if reply.status == 204 {
        return cors;
    }
    let ghost allowed = cors@;
    let len: usize = reply.body.as_str().as_bytes().len();
    let mut headers: Vec<(String, String)> = Vec::new();
    headers.push(header("content-type", "application/json"));
    headers.push(header("content-length", decimal_text(len as u64).as_str()));
    let ghost own = headers@;
    headers.append(&mut cors);
    proof {
        assert(headers@ =~= own + allowed);
        assert(forall|i: int|
            0 <= i < allowed.len() ==> #[trigger] payload::header_pairs(allowed)[i] == (
            allowed[i].0@, allowed[i].1@));
        assert(payload::header_pairs(headers@) =~= reply_pairs(reply@));
    }
    headers
}

/// The headers of a streamed reply: what its body is, and those that let browsers use it.
pub open spec fn stream_pairs() -> Seq<(Seq<char>, Seq<char>)> {
    seq![
        ("content-type"@, "text/event-stream"@),
        ("cache-control"@, "no-cache"@),
        ("connection"@, "keep-alive"@),
    ] + cors_pairs()
}

/// The headers of a streamed reply.
pub fn stream_headers() -> (headers: Vec<(String, String)>)
    ensures
        payload::header_pairs(headers@) == stream_pairs(),
{
    let mut cors = cors_headers();
    let ghost allowed = cors@;
    let mut headers: Vec<(String, String)> = Vec::new();
    headers.push(header("content-type", "text/event-stream"));
    headers.push(header("cache-control", "no-cache"));
    headers.push(header("connection", "keep-alive"));
    let ghost own = headers@;
    headers.append(&mut cors);
    proof {
        assert(headers@ =~= own + allowed);
        assert(forall|i: int|
            0 <= i < allowed.len() ==> #[trigger] payload::header_pairs(allowed)[i] == (
            allowed[i].0@, allowed[i].1@));
        assert(payload::header_pairs(headers@) =~= stream_pairs());
    }
    headers
}

/// Every reply, streamed or not, can be used by browsers.
pub proof fn law_browsers_may_use_every_reply(reply: ReplyModel)
    ensures
        cors_pairs().is_suffix_of(reply_pairs(reply)),
        cors_pairs().is_suffix_of(stream_pairs()),
{
    let whole = reply_pairs(reply);
    assert(whole.subrange(whole.len() - 3, whole.len() as int) =~= cors_pairs());
    assert(stream_pairs().subrange(3, 6) =~= cors_pairs());
}

/// What a request asks for.
#[derive(Debug)]
pub enum Route {
    /// What a browser may do.
    Preflight,
    Health,
    Models,
    /// One model, by its id.
    Model(String),
    /// A completion of a chat.
    Chat,
    Embeddings,
    Root,
    NotFound,
}

/// What a [`Route`] says.
pub enum RouteModel {
    Preflight,
    Health,
    Models,
    Model(Seq<char>),
    Chat,
    Embeddings,
    Root,
    NotFound,
}

impl Route {
    /// What the route says.
    pub open spec fn view(&self) -> RouteModel {
        match self {
            Route::Preflight => RouteModel::Preflight,
            Route::Health => RouteModel::Health,
            Route::Models => RouteModel::Models,
            Route::Model(id) => RouteModel::Model(id@),
            Route::Chat => RouteModel::Chat,
            Route::Embeddings => RouteModel::Embeddings,
            Route::Root => RouteModel::Root,
            Route::NotFound => RouteModel::NotFound,
        }
    }
}

/// A text without the prefix that it starts with, however often.
pub open spec fn without_prefixes(text: Seq<char>, prefix: Seq<char>) -> Seq<char>
    decreases text.len(),
{
    match text::after_prefix(text, prefix) {
        Some(rest) => if rest.len() < text.len() {
            without_prefixes(rest, prefix)
        } else {
            text
        },
        None => text,
    }
}

/// A text without the prefix that it starts with, however often.
fn strip_prefixes(text: &str, prefix: &str) -> (rest: String)
    requires
        prefix@.len() > 0,
    ensures
        rest@ == without_prefixes(text@, prefix@),
{
    let mut rest = text.to_owned();
    loop
        invariant
            prefix@.len() > 0,
            without_prefixes(text@, prefix@) == without_prefixes(rest@, prefix@),
        decreases rest@.len(),
    {
        match strip_prefix(rest.as_str(), prefix) {
            Some(shorter) => {
                rest = shorter;
            },
            None => {
                return rest;
            },
        }
    }
}

/// What a request asks for. Whatever is posted to an unknown path is taken for a chat.
pub open spec fn route_of(method: Seq<char>, path: Seq<char>) -> RouteModel {
    if method == "OPTIONS"@ {
        RouteModel::Preflight
    } else if method == "GET"@ {
        if path == "/health"@ {
            RouteModel::Health
        } else if path == "/v1/models"@ {
            RouteModel::Models
        } else if text::occurs_at(path, "/v1/models/"@, 0) {
            RouteModel::Model(without_prefixes(path, "/v1/models/"@))
        } else if path == "/"@ || path == ""@ {
            RouteModel::Root
        } else {
            RouteModel::NotFound
        }
    } else if method == "POST"@ {
        if path == "/v1/embeddings"@ {
            RouteModel::Embeddings
        } else {
            RouteModel::Chat
        }
    } else {
        RouteModel::NotFound
    }
}

/// What a request asks for.
pub fn route(method: &str, path: &str) -> (route: Route)
    ensures
        route@ == route_of(method@, path@),
{
    if same_text(method, "OPTIONS") {
        return Route::Preflight;
    }
    if same_text(method, "GET") {
        if same_text(path, "/health") {
            return Route::Health;
        }
        if same_text(path, "/v1/models") {
            return Route::Models;
        }
        if starts_with(path, "/v1/models/") {
            proof {
                reveal_strlit("/v1/models/");
            }
            return Route::Model(strip_prefixes(path, "/v1/models/"));
        }
        if same_text(path, "/") || same_text(path, "") {
            return Route::Root;
        }
        return Route::NotFound;
    }
    if same_text(method, "POST") {
        if same_text(path, "/v1/embeddings") {
            return Route::Embeddings;
        }
        return Route::Chat;
    }
    Route::NotFound
}

/// The body of an error says what went wrong and of which kind it is, and nothing of a parameter or a
/// code that it has not.
pub proof fn law_errors_say_what_went_wrong(
    message: Seq<char>,
    kind: Seq<char>,
    param: Option<Seq<char>>,
    code: Option<Seq<char>>,
)
    ensures
        ({
            let error = error_value(message, kind, param, code).at("error"@);
            &&& error.str_at("message"@) == Some(message)
            &&& error.str_at("type"@) == Some(kind)
            &&& error.str_at("param"@) == param
            &&& error.str_at("code"@) == code
            &&& param is None ==> error.get("param"@) is None
            &&& code is None ==> error.get("code"@) is None
        }),
        forall|status: int| #[trigger]
            error_reply(status, message, kind) == json_reply(
                status,
                error_value(message, kind, None, None),
            ),
        bad_request_reply(message) == json_reply(
            400,
            error_value(message, "invalid_request_error"@, None, None),
        ),
        internal_error_reply(message) == json_reply(
            500,
            error_value(message, "server_error"@, None, None),
        ),
{
    reveal_strlit("message");
    reveal_strlit("type");
    reveal_strlit("param");
    reveal_strlit("code");
    assert("message"@.len() == 7 && "type"@.len() == 4 && "param"@.len() == 5 && "code"@.len() == 4);
    assert("type"@[0] == 't' && "code"@[0] == 'c');
}

/// The reply about a model: for those that are known, the one that serves it; for any other, that it
/// is not found, by its name.
pub proof fn law_models_are_told_of(id: Seq<char>, env_model: Option<Seq<char>>)
    ensures
        id == "qwen3.7-max"@ || id == "qwen3.7-max-preview"@ || id == "qwen3.6-plus"@ || id
            == "qwen3.6-max-preview"@ || id == "gpt-4"@ || id == "gpt-4o"@ || id == "gpt-3.5-turbo"@
            ==> model_reply(id, env_model) == json_reply(
            200,
            model_value(constants::upstream_model(env_model, Some(id))),
        ),
        !(id == "qwen3.7-max"@ || id == "qwen3.7-max-preview"@ || id == "qwen3.6-plus"@ || id
            == "qwen3.6-max-preview"@ || id == "gpt-4"@ || id == "gpt-4o"@ || id == "gpt-3.5-turbo"@)
            ==> model_reply(id, env_model).status == 404 && model_reply(id, env_model).body
            == json::json_text(
            error_value(
                "Model '"@ + id + "' not found"@,
                "invalid_request_error"@,
                Some("model"@),
                Some("model_not_found"@),
            ),
        ),
        model_value(id).str_at("id"@) == Some(id),
        model_value(id).str_at("root"@) == Some(id),
        model_value(id).str_at("object"@) == Some("model"@),
{
    reveal_strlit("id");
    reveal_strlit("object");
    reveal_strlit("created");
    reveal_strlit("owned_by");
    reveal_strlit("permission");
    reveal_strlit("root");
    reveal_strlit("parent");
    assert("id"@.len() == 2 && "object"@.len() == 6 && "created"@.len() == 7 && "owned_by"@.len() == 8);
    assert("permission"@.len() == 10 && "root"@.len() == 4 && "parent"@.len() == 6);
    assert("object"@[0] == 'o' && "parent"@[0] == 'p');
}

/// The methods and paths that requests are told apart by differ.
proof fn lemma_methods_and_paths()
    ensures
        "OPTIONS"@ != "GET"@ && "OPTIONS"@ != "POST"@ && "GET"@ != "POST"@,
        "/health"@ != "/v1/models"@,
        !text::occurs_at("/health"@, "/v1/models/"@, 0),
        !text::occurs_at("/v1/models"@, "/v1/models/"@, 0),
        !text::occurs_at("/"@, "/v1/models/"@, 0),
        "/"@ != "/health"@ && "/"@ != "/v1/models"@,
        "/v1/models/"@.len() == 11,
        "/health"@.len() == 7,
        "/v1/models"@.len() == 10,
{
    reveal_strlit("OPTIONS");
    reveal_strlit("GET");
    reveal_strlit("POST");
    reveal_strlit("/health");
    reveal_strlit("/v1/models");
    reveal_strlit("/v1/models/");
    reveal_strlit("/");
    assert("OPTIONS"@.len() == 7 && "GET"@.len() == 3 && "POST"@.len() == 4);
    assert("/health"@.len() == 7 && "/v1/models"@.len() == 10 && "/"@.len() == 1);
    assert("/v1/models/"@.len() == 11);
}

/// Each thing that is asked for has its method and its path; a model is asked for by its id; whatever
/// else is posted is a chat, and whatever else is asked for is not there.
pub proof fn law_requests_find_their_way(method: Seq<char>, path: Seq<char>, id: Seq<char>)
    ensures
        route_of("OPTIONS"@, path) is Preflight,
        route_of("GET"@, "/health"@) is Health,
        route_of("GET"@, "/v1/models"@) is Models,
        route_of("GET"@, "/"@) is Root,
        route_of("POST"@, "/v1/embeddings"@) is Embeddings,
        path != "/v1/embeddings"@ ==> route_of("POST"@, path) is Chat,
        !text::occurs_at(id, "/v1/models/"@, 0) ==> route_of("GET"@, "/v1/models/"@ + id)
            == RouteModel::Model(id),
        method != "GET"@ && method != "POST"@ && method != "OPTIONS"@ ==> route_of(method, path)
            is NotFound,
        path != "/health"@ && path != "/v1/models"@ && path != "/"@ && path != ""@
            && !text::occurs_at(path, "/v1/models/"@, 0) ==> route_of("GET"@, path) is NotFound,
{
    lemma_methods_and_paths();
    let whole = "/v1/models/"@ + id;
    text::law_prefixes_and_suffixes(whole, "/v1/models/"@, id);
    assert(whole.len() == 11 + id.len());
    assert(without_prefixes(whole, "/v1/models/"@) == without_prefixes(id, "/v1/models/"@));
    assert(text::occurs_at(whole, "/v1/models/"@, 0));
}

/// A reply says how long it is, where it has a body, and that it is JSON; a streamed one that it is a
/// stream of events.
pub proof fn law_replies_say_what_they_are(reply: ReplyModel)
    ensures
        reply.status != 204 ==> reply_pairs(reply).contains(
            ("content-length"@, numeral::decimal(text::byte_len(reply.body))),
        ),
        reply.status != 204 ==> reply_pairs(reply).contains(("content-type"@, "application/json"@)),
        stream_pairs().contains(("content-type"@, "text/event-stream"@)),
        reply_pairs(reply).contains(("access-control-allow-origin"@, "*"@)),
        stream_pairs().contains(("access-control-allow-origin"@, "*"@)),
{
    let pairs = reply_pairs(reply);
    if reply.status != 204 {
        assert(pairs[0] == ("content-type"@, "application/json"@));
        assert(pairs[1] == ("content-length"@, numeral::decimal(text::byte_len(reply.body))));
        assert(pairs[2] == ("access-control-allow-origin"@, "*"@));
    } else {
        assert(pairs[0] == ("access-control-allow-origin"@, "*"@));
    }
    assert(stream_pairs()[0] == ("content-type"@, "text/event-stream"@));
    assert(stream_pairs()[3] == ("access-control-allow-origin"@, "*"@));
}

} // verus!
