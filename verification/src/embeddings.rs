//! Embeddings, of which only the shape is offered.
use vstd::prelude::*;

use crate::chunks;
use crate::chunks::estimate_tokens;
use crate::json;
use crate::json::{parse_json_bytes, Json, JsonModel};
use crate::replies;
use crate::replies::{bad_request, json_response, HttpReply, ReplyModel};
use crate::request;
use crate::request::request_model;
use crate::text;

verus! {

/// How many dimensions an embedding has unless the request says otherwise.
pub const DEFAULT_DIMENSIONS: u64 = 1536;

/// What a request for an embedding asks for.
#[derive(Debug)]
pub struct EmbeddingRequest {
    pub dimensions: u64,
    pub tokens: usize,
    pub model: String,
}

/// What an [`EmbeddingRequest`] says.
pub struct EmbeddingModel {
    pub dimensions: int,
    pub tokens: int,
    pub model: Seq<char>,
}

impl EmbeddingRequest {
    /// What the request says.
    pub open spec fn view(&self) -> EmbeddingModel {
        EmbeddingModel {
            dimensions: self.dimensions as int,
            tokens: self.tokens as int,
            model: self.model@,
        }
    }
}

/// What a request for an embedding asks for.
pub open spec fn embedding_asked(
    request: JsonModel,
    env_model: Option<Seq<char>>,
) -> EmbeddingModel {
    EmbeddingModel {
        dimensions: match request.get("dimensions"@) {
            Some(value) => match value.as_u64() {
                Some(n) => n as int,
                None => DEFAULT_DIMENSIONS as int,
            },
            None => DEFAULT_DIMENSIONS as int,
        },
        tokens: chunks::token_count(
            match request.str_at("input"@) {
                Some(input) => input,
                None => Seq::empty(),
            },
        ) as int,
        model: request::model_for(request, env_model),
    }
}

/// Reads what a request for an embedding asks for.
pub fn embedding_request(v: &Json, env_model: Option<&str>) -> (asked: EmbeddingRequest)
    ensures
        asked@ == embedding_asked(v@, text::text_option(env_model)),
        asked.tokens <= usize::MAX / 4,
{
    let dimensions: u64 = match v.get("dimensions") {
        Some(value) => match value.as_u64() {
            Some(n) => n,
            None => DEFAULT_DIMENSIONS,
        },
        None => DEFAULT_DIMENSIONS,
    };
    let tokens: usize = match v.str_at("input") {
        Some(input) => estimate_tokens(input),
        None => {
            let empty = String::new();
            assert(empty@ =~= Seq::<char>::empty());
            estimate_tokens(empty.as_str())
        },
    };
    EmbeddingRequest { dimensions, tokens, model: request_model(v, env_model) }
}

/// What a request for an embedding comes to, given what its body reads as.
pub open spec fn embedding_preparation(
    body: Result<JsonModel, Seq<char>>,
    env_model: Option<Seq<char>>,
) -> Result<EmbeddingModel, ReplyModel> {
    match body {
        Ok(request) => Ok(embedding_asked(request, env_model)),
        Err(message) => Err(replies::bad_request_reply("Invalid JSON: "@ + message)),
    }
}

/// What reading a request for an embedding comes to.
pub open spec fn embedding_result(result: Result<EmbeddingRequest, HttpReply>) -> Result<
    EmbeddingModel,
    ReplyModel,
> {
    match result {
        Ok(asked) => Ok(asked@),
        Err(reply) => Err(reply@),
    }
}

/// Reads the body of a request for an embedding, given the value of `QWEN_MODEL`.
pub fn prepare_embedding(body: &[u8], env_model: Option<&str>) -> (result: Result<
    EmbeddingRequest,
    HttpReply,
>)
    ensures
        embedding_result(result) == embedding_preparation(
            json::json_parse_bytes(body@),
            text::text_option(env_model),
        ),
        result matches Ok(asked) ==> asked.tokens <= usize::MAX / 4,
{
    match parse_json_bytes(body) {
        Ok(v) => Ok(embedding_request(&v, env_model)),
        Err(message) => {
            let mut error = "Invalid JSON: ".to_owned();
            error.push_str(message.as_str());
            Err(bad_request(error.as_str()))
        },
    }
}

/// An embedding whose every dimension is `zero`.
pub open spec fn embedding_value(asked: EmbeddingModel, zero: JsonModel) -> JsonModel {
    JsonModel::Object(
        map![
            "object"@ => JsonModel::Str("list"@),
            "data"@ => JsonModel::Array(seq![JsonModel::Object(map![
                "object"@ => JsonModel::Str("embedding"@),
                "embedding"@ => JsonModel::Array(Seq::new(asked.dimensions as nat, |i: int| zero)),
                "index"@ => json::json_int(0),
            ])]),
            "model"@ => JsonModel::Str(asked.model),
            "usage"@ => JsonModel::Object(map![
                "prompt_tokens"@ => json::json_int(asked.tokens),
                "total_tokens"@ => json::json_int(asked.tokens),
            ]),
        ],
    )
}

/// A value, repeated.
fn repeat(value: &Json, count: u64) -> (items: Vec<Json>)
    ensures
        json::elements(items@) == Seq::new(count as nat, |i: int| value@),
{
    let mut items: Vec<Json> = Vec::new();
    let mut i: u64 = 0;
    assert(Seq::new(0, |i: int| value@) =~= Seq::empty());
    while i < count
        invariant
            i <= count,
            json::elements(items@) == Seq::new(i as nat, |k: int| value@),
        decreases count - i,
    {
        let item = value.copy();
        proof {
            json::lemma_elements_push(items@, item);
            assert(Seq::new((i + 1) as nat, |k: int| value@) =~= Seq::new(
                i as nat,
                |k: int| value@,
            ).push(value@));
        }
        items.push(item);
        i += 1;
    }
    items
}

/// The reply to a request for an embedding: every dimension is `zero`.
pub fn embedding_reply(asked: &EmbeddingRequest, zero: &Json) -> (reply: HttpReply)
    requires
        asked.dimensions * 8 <= isize::MAX,
    ensures
        reply@ == replies::json_reply(200, embedding_value(asked@, zero@)),
{
    let values = repeat(zero, asked.dimensions);
    let data = Json::object().with("object", Json::text("embedding")).with(
        "embedding",
        Json::Array(values),
    ).with("index", Json::integer(0));
    let usage = Json::object().with("prompt_tokens", Json::integer(asked.tokens as i128)).with(
        "total_tokens",
        Json::integer(asked.tokens as i128),
    );
    let body = Json::object().with("object", Json::text("list")).with(
        "data",
        Json::single(data),
    ).with("model", Json::text(asked.model.as_str())).with("usage", usage);
    json_response(200, &body)
}

/// What a request for an embedding says is taken at its word: its dimensions where it gives a number
/// for them, the length of its input, its model.
pub proof fn law_embeddings_are_as_asked(request: JsonModel, env_model: Option<Seq<char>>)
    ensures
        ({
            let asked = embedding_asked(request, env_model);
            &&& request.at("dimensions"@).as_u64() matches Some(n) ==> asked.dimensions == n
            &&& request.get("dimensions"@) is None ==> asked.dimensions == 1536
            &&& request.get("input"@) matches Some(JsonModel::Str(input)) ==> asked.tokens
                == chunks::token_count(input)
            &&& !(request.at("input"@) is Str) ==> asked.tokens == chunks::token_count(Seq::empty())
            &&& asked.model == crate::constants::upstream_model(
                env_model,
                request::filled(request, "model"@),
            )
        }),
{
}

/// An embedding has as many dimensions as were asked for, each of them zero, and says what it took.
pub proof fn law_embeddings_have_their_dimensions(asked: EmbeddingModel, zero: JsonModel)
    requires
        asked.dimensions >= 0,
    ensures
        ({
            let value = embedding_value(asked, zero);
            let values = value.array_at("data"@)->0[0].array_at("embedding"@)->0;
            &&& value.array_at("data"@)->0.len() == 1
            &&& values.len() == asked.dimensions
            &&& forall|i: int| 0 <= i < values.len() ==> #[trigger] values[i] == zero
            &&& value.str_at("model"@) == Some(asked.model)
            &&& value.at("usage"@).get("prompt_tokens"@) == Some(json::json_int(asked.tokens))
            &&& value.at("usage"@).get("total_tokens"@) == Some(json::json_int(asked.tokens))
        }),
{
    reveal_strlit("object");
    reveal_strlit("data");
    reveal_strlit("model");
    reveal_strlit("usage");
    reveal_strlit("embedding");
    reveal_strlit("index");
    reveal_strlit("prompt_tokens");
    reveal_strlit("total_tokens");
    assert("object"@.len() == 6 && "data"@.len() == 4 && "model"@.len() == 5 && "usage"@.len() == 5);
    assert("model"@[0] == 'm' && "usage"@[0] == 'u');
    assert("embedding"@.len() == 9 && "index"@.len() == 5);
    assert("prompt_tokens"@.len() == 13 && "total_tokens"@.len() == 12);
}

/// A request for an embedding whose body is JSON is taken as it is; any other is refused with status 400
/// and what is wrong with it.
pub proof fn law_embeddings_of_what_is_no_json(
    request: JsonModel,
    message: Seq<char>,
    env_model: Option<Seq<char>>,
)
    ensures
        embedding_preparation(Ok(request), env_model) == Ok::<EmbeddingModel, ReplyModel>(
            embedding_asked(request, env_model),
        ),
        embedding_preparation(Err(message), env_model) matches Err(reply) && reply.status == 400
            && reply.body == json::json_text(
            replies::error_value("Invalid JSON: "@ + message, "invalid_request_error"@, None, None),
        ),
{
}

} // verus!
