use qwen_proxy::chunks::estimate_tokens;
use qwen_proxy::json::{parse_json, Json};
use qwen_proxy::reply::{write_answer, Answer, ReplyHead};
use qwen_proxy::replies::{
    bad_request, cors_headers, health_handler, internal_error, model_handler, model_info,
    models_handler, not_found_response, openai_error_response, preflight_handler, reply_headers,
    root_handler, route, stream_headers, Route,
};

fn json(text: &str) -> Json {
    parse_json(text).unwrap()
}

fn assert_openai_error(resp: &Json) {
    assert!(resp.get("error").is_some(), "Response must have 'error' field");
    let err = resp.get("error").unwrap();
    assert!(err.get("message").is_some(), "Error must have 'message' field");
    assert!(err.str_at("message").is_some(), "Error message must be a string");
    assert!(err.get("type").is_some(), "Error must have 'type' field");
}

fn assert_chat_completion_shape(resp: &Json) {
    assert!(resp.get("id").is_some(), "Missing 'id'");
    assert!(
        resp.str_at("id").unwrap_or("").starts_with("chatcmpl-"),
        "id must start with 'chatcmpl-'"
    );
    assert_eq!(
        resp.str_at("object"),
        Some("chat.completion"),
        "object must be 'chat.completion'"
    );
    assert!(resp.get("created").is_some(), "Missing 'created'");
    assert!(
        matches!(resp.get("created"), Some(Json::Number(_))),
        "created must be a number"
    );
    assert!(resp.get("model").is_some(), "Missing 'model'");
    assert!(resp.str_at("model").is_some(), "model must be a string");
    assert!(resp.get("choices").is_some(), "Missing 'choices'");
    let choices = resp.array_at("choices").expect("choices must be an array");
    assert!(!choices.is_empty(), "choices must not be empty");
    for choice in choices {
        assert!(choice.get("index").is_some(), "Choice must have 'index'");
        assert!(choice.get("message").is_some(), "Choice must have 'message'");
        assert!(choice.get("finish_reason").is_some(), "Choice must have 'finish_reason'");
        let msg = choice.get("message").unwrap();
        assert_eq!(
            msg.str_at("role"),
            Some("assistant"),
            "Message role must be 'assistant'"
        );
    }
    assert!(resp.get("usage").is_some(), "Missing 'usage'");
    let usage = resp.get("usage").unwrap();
    assert!(usage.get("prompt_tokens").is_some(), "Missing 'prompt_tokens'");
    assert!(usage.get("completion_tokens").is_some(), "Missing 'completion_tokens'");
    assert!(usage.get("total_tokens").is_some(), "Missing 'total_tokens'");
    let count = |key: &str| usage.get(key).and_then(|n| n.as_u64()).unwrap_or(0);
    assert_eq!(
        count("total_tokens"),
        count("prompt_tokens") + count("completion_tokens"),
        "total_tokens must equal prompt_tokens + completion_tokens"
    );
}

fn assert_models_format(models: &Json) {
    assert_eq!(models.str_at("object"), Some("list"));
    let data = models.array_at("data").unwrap();
    assert!(!data.is_empty());
    assert_eq!(data[0].str_at("object"), Some("model"));
    assert!(data[0].str_at("id").is_some());
}

#[test]
fn test_models_json_format() {
    let models = json(
        r#"{"object":"list","data":[
{"id":"qwen3.6-plus","object":"model","created":1700000000,"owned_by":"qwen","permission":[],"root":"qwen3.6-plus","parent":null}
]}"#,
    );
    assert_models_format(&models);
    assert_models_format(&json(&models_handler().body));
}

#[test]
fn test_model_info_format() {
    let model = json(
        r#"{"id":"qwen3.6-plus","object":"model","created":1700000000,"owned_by":"qwen"}"#,
    );
    assert_eq!(model.str_at("id"), Some("qwen3.6-plus"));
    assert_eq!(model.str_at("object"), Some("model"));
    let built = model_info("qwen3.6-plus");
    assert_eq!(built.str_at("id"), Some("qwen3.6-plus"));
    assert_eq!(built.str_at("object"), Some("model"));
    assert_eq!(built.get("created"), model.get("created"));
}

#[test]
fn test_openai_error_format() {
    let err = json(
        r#"{"error": {
            "message": "test error",
            "type": "invalid_request_error",
            "param": "messages",
            "code": null
        }}"#,
    );
    assert_openai_error(&err);
    let built =
        openai_error_response(400, "test error", "invalid_request_error", Some("messages"), None);
    assert_openai_error(&json(&built.body));
}

fn head() -> ReplyHead {
    ReplyHead {
        id: "chatcmpl-abc123".to_string(),
        model: "qwen3.6-plus".to_string(),
        created: 1700000000,
        prompt_tokens: 10,
        responses_api: false,
    }
}

#[test]
fn test_chat_completion_response_shape() {
    let resp = json(
        r#"{
        "id": "chatcmpl-abc123",
        "object": "chat.completion",
        "created": 1700000000,
        "model": "qwen3.6-plus",
        "choices": [{
            "index": 0,
            "message": {"role": "assistant", "content": "Hello!"},
            "finish_reason": "stop"
        }],
        "usage": {"prompt_tokens": 10, "completion_tokens": 5, "total_tokens": 15}
    }"#,
    );
    assert_chat_completion_shape(&resp);
    let answer = Answer::Text { content: "Hello!".to_string(), tokens: 5 };
    let reply = write_answer(&head(), answer, &vec![]);
    assert_eq!(reply.status, 200);
    assert_eq!(json(&reply.body), resp);
}

#[test]
fn test_chat_completion_tool_call_shape() {
    let resp = json(
        r#"{
        "id": "chatcmpl-abc123",
        "object": "chat.completion",
        "created": 1700000000,
        "model": "qwen3.6-plus",
        "choices": [{
            "index": 0,
            "message": {
                "role": "assistant",
                "content": null,
                "tool_calls": [{
                    "id": "call_abc",
                    "type": "function",
                    "function": {"name": "read", "arguments": "{\"path\":\"/tmp\"}"}
                }]
            },
            "finish_reason": "tool_calls"
        }],
        "usage": {"prompt_tokens": 10, "completion_tokens": 20, "total_tokens": 30}
    }"#,
    );
    assert_chat_completion_shape(&resp);
}

#[test]
fn test_token_estimation() {
    let text = "Hello world, this is a test message.";
    let tokens = estimate_tokens(text);
    assert_eq!(tokens, std::cmp::max(1, text.len() / 4));
    assert!(tokens > 0);
}

#[test]
fn tokens_are_counted_by_fours() {
    assert_eq!(estimate_tokens(""), 1);
    assert_eq!(estimate_tokens("abcdefg"), 1);
    assert_eq!(estimate_tokens("abcdefgh"), 2);
    assert_eq!(estimate_tokens("ééé"), 1);
    assert_eq!(estimate_tokens("éééé"), 2);
}

#[test]
fn fixed_replies_read_as_documented() {
    assert_eq!(health_handler().status, 200);
    assert_eq!(health_handler().body, r#"{"model":"qwen3.7-max","status":"ok"}"#);
    assert_eq!(
        root_handler().body,
        r#"{"message":"Qwen OpenAI Proxy (tokio+hyper)","version":"0.1.0"}"#
    );
    let missing = not_found_response();
    assert_eq!(missing.status, 404);
    assert_eq!(missing.body, r#"{"error":{"message":"Not found","type":"not_found"}}"#);
    let bad = bad_request("no");
    assert_eq!(bad.status, 400);
    assert_eq!(bad.body, r#"{"error":{"message":"no","type":"invalid_request_error"}}"#);
    let failed = internal_error("no");
    assert_eq!(failed.status, 500);
    assert_eq!(failed.body, r#"{"error":{"message":"no","type":"server_error"}}"#);
    let models = json(&models_handler().body);
    let ids: Vec<&str> =
        models.array_at("data").unwrap().iter().map(|m| m.str_at("id").unwrap()).collect();
    assert_eq!(
        ids,
        vec!["qwen3.7-max", "qwen3.7-max-preview", "qwen3.6-plus", "qwen3.6-max-preview"]
    );
}

#[test]
fn models_resolve_to_what_serves_them() {
    let known = model_handler("gpt-4", None);
    assert_eq!(known.status, 200);
    assert_eq!(
        known.body,
        r#"{"created":1700000000,"id":"qwen3.7-max","object":"model","owned_by":"qwen","parent":null,"permission":[],"root":"qwen3.7-max"}"#
    );
    assert!(model_handler("qwen3.7-max-preview", None).body.contains("qwen3.7-max-preview"));
    assert!(model_handler("gpt-4", Some("own")).body.contains("\"id\":\"own\""));
    let unknown = model_handler("nonexistent-model", None);
    assert_eq!(unknown.status, 404);
    assert_eq!(
        unknown.body,
        r#"{"error":{"code":"model_not_found","message":"Model 'nonexistent-model' not found","param":"model","type":"invalid_request_error"}}"#
    );
    assert_eq!(model_handler("qwen3.7-other", None).status, 404);
}

#[test]
fn requests_find_their_way() {
    assert!(matches!(route("OPTIONS", "/anything"), Route::Preflight));
    assert!(matches!(route("GET", "/health"), Route::Health));
    assert!(matches!(route("GET", "/v1/models"), Route::Models));
    assert!(matches!(route("GET", "/"), Route::Root));
    assert!(matches!(route("GET", ""), Route::Root));
    assert!(matches!(route("GET", "/v1/chat/completions"), Route::NotFound));
    assert!(matches!(route("POST", "/v1/chat/completions"), Route::Chat));
    assert!(matches!(route("POST", "/v1/responses"), Route::Chat));
    assert!(matches!(route("POST", "/elsewhere"), Route::Chat));
    assert!(matches!(route("POST", "/v1/embeddings"), Route::Embeddings));
    assert!(matches!(route("DELETE", "/health"), Route::NotFound));
    assert!(matches!(route("get", "/health"), Route::NotFound));
    match route("GET", "/v1/models//v1/models/x") {
        Route::Model(id) => assert_eq!(id, "x"),
        other => panic!("{:?}", other),
    }
    match route("GET", "/v1/models/a/v1/models/x") {
        Route::Model(id) => assert_eq!(id, "a/v1/models/x"),
        other => panic!("{:?}", other),
    }
    match route("GET", "/v1/models/") {
        Route::Model(id) => assert_eq!(id, ""),
        other => panic!("{:?}", other),
    }
}

fn pairs(headers: &[(&str, &str)]) -> Vec<(String, String)> {
    headers.iter().map(|(name, value)| (name.to_string(), value.to_string())).collect()
}

#[test]
fn browsers_may_use_every_reply() {
    let cors = pairs(&[
        ("access-control-allow-origin", "*"),
        ("access-control-allow-methods", "*"),
        ("access-control-allow-headers", "*"),
    ]);
    assert_eq!(cors_headers(), cors);
    let preflight = preflight_handler();
    assert_eq!(preflight.status, 204);
    assert_eq!(preflight.body, "");
    assert_eq!(reply_headers(&preflight), cors);
    let refused = bad_request("é");
    let own = pairs(&[
        ("content-type", "application/json"),
        ("content-length", &refused.body.len().to_string()),
    ]);
    assert_eq!(reply_headers(&refused), [own, cors.clone()].concat());
    let own = pairs(&[
        ("content-type", "text/event-stream"),
        ("cache-control", "no-cache"),
        ("connection", "keep-alive"),
    ]);
    assert_eq!(stream_headers(), [own, cors].concat());
}
