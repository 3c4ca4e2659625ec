use qwen_proxy::embeddings::{embedding_reply, prepare_embedding};
use qwen_proxy::json::{json_string, parse_json, Json};
use qwen_proxy::payload::{
    completion_url, continuation_failure, continuation_result, messages_to_tell, noted_response, new_chat_headers, new_chat_payload, new_chat_payload_at, new_chat_result,
    new_chat_url, qwen_payload, qwen_payload_at, qwen_request_headers, read_new_chat,
};
use qwen_proxy::startup::{load_token, port, token_in_file};
use qwen_proxy::request::{
    client_session_key, fnv1a_hash, prepare_body, prepare_parsed, request_model,
    session_tools_suffix, stable_session_key, suffix_of, tools_fingerprint,
};

fn json(text: &str) -> Json {
    parse_json(text).unwrap()
}

#[test]
fn hashes_are_stable() {
    assert_eq!(fnv1a_hash(""), 0xcbf29ce484222325);
    assert_eq!(fnv1a_hash("a"), 0xaf63dc4c8601ec8c);
    assert_eq!(fnv1a_hash("foobar"), 0x85944171f73967e8);
}

#[test]
fn users_come_first_in_keys() {
    let v = json(r#"{"user":"u","metadata":{"session_id":"s"},"messages":[{"role":"user","content":"x"}]}"#);
    assert_eq!(client_session_key(&v), "user:u");
    let w = json(r#"{"user":"u","messages":[{"role":"user","content":"other"}]}"#);
    assert_eq!(stable_session_key(&w), Some("user:u".to_string()));
}

#[test]
fn metadata_come_next_in_keys() {
    let v = json(r#"{"user":"","metadata":{"session_id":"","conversation_id":"c","chat_id":"d"}}"#);
    assert_eq!(client_session_key(&v), "meta:conversation_id:c");
    assert_eq!(client_session_key(&json(r#"{"metadata":{"chat_id":"d"}}"#)), "meta:chat_id:d");
    assert_eq!(
        client_session_key(&json(r#"{"metadata":{"session_id":"s","chat_id":"d"}}"#)),
        "meta:session_id:s"
    );
}

#[test]
fn conversations_are_told_by_how_they_start() {
    let v = json(
        r#"{"messages":[{"role":"system","content":"s"},{"role":"user","content":""},{"role":"user","content":"foobar"},{"role":"user","content":"y"}]}"#,
    );
    assert_eq!(client_session_key(&v), "conv:85944171f73967e8");
    let parts = json(
        r#"{"input":[{"role":"user","content":[{"image":1},{"output_text":"foobar","text":3},{"text":"later"}]}]}"#,
    );
    assert_eq!(client_session_key(&parts), "conv:85944171f73967e8");
    let blocked = json(r#"{"messages":1,"input":[{"role":"user","content":"foobar"}]}"#);
    assert_eq!(stable_session_key(&blocked), None);
}

#[test]
fn tools_set_keys_apart() {
    let v = json(r#"{"user":"u","tools":[{"b":1,"a":2}]}"#);
    let hash = fnv1a_hash(r#"[{"a":2,"b":1}]"#);
    assert_eq!(tools_fingerprint(&v), hash);
    assert_eq!(session_tools_suffix(&v), format!(":t{:x}", hash));
    assert_eq!(client_session_key(&v), format!("user:u:t{:x}", hash));
    assert_eq!(client_session_key(&json(r#"{"user":"u","tools":[]}"#)), "user:u");
    assert_eq!(suffix_of(0), "");
    assert_eq!(suffix_of(255), ":tff");
}

#[test]
fn unknown_clients_get_a_key_of_their_own() {
    let first = client_session_key(&json(r#"{"messages":[]}"#));
    let second = client_session_key(&json(r#"{"messages":[]}"#));
    assert!(first.starts_with("ephemeral:"));
    assert_eq!(first.len(), 46);
    assert_ne!(first, second);
}

#[test]
fn requests_are_made_ready() {
    let body = br#"{"model":"qwen3.7-x","stream":true,"messages":[{"role":"user","content":"hi"}],"tools":[{"name":"a"},{}],"response_format":{"type":"text"}}"#;
    let ready = prepare_body(body, None).unwrap();
    assert!(ready.stream && !ready.responses_api);
    assert_eq!(ready.model, "qwen3.7-x");
    assert_eq!(ready.tools.len(), 1);
    assert_eq!(json_string(&ready.response_format.unwrap()), r#"{"type":"text"}"#);
    assert!(ready.prompt.starts_with("USER: hi\n\n## Tool Use Format"));
    assert!(ready.prompt.contains("Available Tools (exact names only"));
    assert_eq!(ready.prompt_tokens, ready.prompt.len() / 4);
    let plain = prepare_body(br#"{"input":[{"content":"hi"}],"stream":1}"#, Some("m")).unwrap();
    assert!(plain.responses_api && !plain.stream);
    assert_eq!(plain.prompt, "USER: hi");
    assert_eq!(plain.model, "m");
    assert!(plain.response_format.is_none());
}

#[test]
fn long_requests_are_cut_before_they_go_up() {
    let long = "x".repeat(2_000_000);
    let message = Json::object().with("role", Json::text("user")).with("content", Json::text(&long));
    let list = vec![message.clone(), message.clone(), message];
    let request = Json::object().with("messages", Json::Array(list));
    let ready = prepare_parsed(Ok(request), None).unwrap();
    assert_eq!(ready.request.array_at("messages").unwrap().len(), 2);
}

#[test]
fn senseless_requests_are_refused() {
    let refused = |body: &[u8]| {
        let reply = prepare_body(body, None).unwrap_err();
        assert_eq!(reply.status, 400);
        json(&reply.body).get("error").unwrap().str_at("message").unwrap().to_string()
    };
    assert_eq!(refused(br#"{"model":"qwen3.6-plus"}"#), "messages or input array is required");
    assert_eq!(refused(br#"{"messages":"x"}"#), "messages or input array is required");
    assert_eq!(refused(br#"{"messages":[]}"#), "messages array cannot be empty");
    assert_eq!(
        refused(br#"{"messages":[],"input":[{"content":"x"}]}"#),
        "messages array cannot be empty"
    );
    assert!(refused(b"not json").starts_with("Invalid JSON: expected"));
    assert!(refused(b"\xff").starts_with("Invalid JSON: "));
}

#[test]
fn models_are_asked_for_by_name() {
    assert_eq!(request_model(&json(r#"{"model":""}"#), None), "qwen3.7-max");
    assert_eq!(request_model(&json(r#"{"model":3}"#), None), "qwen3.7-max");
    assert_eq!(request_model(&json(r#"{"model":"qwen3.7-y"}"#), None), "qwen3.7-y");
}

#[test]
fn completions_are_asked_for_upstream() {
    let payload = qwen_payload_at("c", Some("p"), "hello", "m", 5, -6);
    assert_eq!(
        payload,
        json(
            r#"{"stream":true,"version":"2.1","incremental_output":true,"chat_id":"c","chat_mode":"normal","model":"m","parent_id":"p","messages":[{"fid":"c","parentId":"p","role":"user","content":"hello","user_action":"chat","files":[],"timestamp":5,"models":["m"],"chat_type":"t2t","feature_config":{"thinking_enabled":true,"auto_search":true,"research_mode":"normal","output_schema":"phase","auto_thinking":true,"thinking_mode":"Auto","thinking_format":"summary"},"extra":{"meta":{"subChatType":"t2t"}},"sub_chat_type":"t2t"}],"timestamp":-6}"#
        )
    );
    let now = qwen_payload("c", None, "hello", "m");
    assert_eq!(now.get("parent_id"), Some(&Json::Null));
    assert!(now.get("timestamp").unwrap().as_u64().unwrap() > 1_600_000_000_000);
    assert_eq!(
        completion_url("c"),
        "https://chat.qwen.ai/api/v2/chat/completions?chat_id=c"
    );
}

#[test]
fn chats_are_opened_upstream() {
    assert_eq!(
        json_string(&new_chat_payload_at("m", 7)),
        r#"{"chat_mode":"normal","chat_type":"t2t","models":["m"],"timestamp":7,"title":"Agent Chat"}"#
    );
    assert_eq!(new_chat_payload("m").str_at("title"), Some("Agent Chat"));
    assert_eq!(new_chat_url(), "https://chat.qwen.ai/api/v2/chats/new");
    assert_eq!(read_new_chat(200, r#"{"data":{"id":"x"}}"#), Ok("x".to_string()));
    assert_eq!(
        read_new_chat(401, r#"{"data":{"id":"x"}}"#),
        Err("Qwen token expired or invalid".to_string())
    );
    assert_eq!(read_new_chat(200, "{}"), Err("No chat ID in response".to_string()));
    assert!(read_new_chat(200, "x").unwrap_err().starts_with("Failed to parse chat response: "));
    assert_eq!(
        new_chat_result(500, &Err("e".to_string())),
        Err("Failed to parse chat response: e".to_string())
    );
}

#[test]
fn requests_upstream_carry_the_token() {
    let pair = |a: &str, b: &str| (a.to_string(), b.to_string());
    assert_eq!(
        qwen_request_headers("T"),
        vec![
            pair("accept", "text/event-stream"),
            pair("content-type", "application/json"),
            pair("referer", "https://chat.qwen.ai/"),
            pair("source", "web"),
            pair("version", "0.8.0"),
            pair("cookie", "token=T"),
        ]
    );
    assert_eq!(new_chat_headers("T")[0], pair("accept", "application/json"));
}

#[test]
fn embeddings_have_their_shape() {
    let asked = prepare_embedding(br#"{"input":"abcdefgh","dimensions":3,"model":"qwen3.7-e"}"#, None)
        .unwrap();
    assert_eq!((asked.dimensions, asked.tokens), (3, 2));
    let reply = embedding_reply(&asked, &json("0.0"));
    assert_eq!(
        reply.body,
        r#"{"data":[{"embedding":[0.0,0.0,0.0],"index":0,"object":"embedding"}],"model":"qwen3.7-e","object":"list","usage":{"prompt_tokens":2,"total_tokens":2}}"#
    );
    let bare = prepare_embedding(br#"{"input":["x"],"dimensions":-1}"#, None).unwrap();
    assert_eq!((bare.dimensions, bare.tokens), (1536, 1));
    assert_eq!(bare.model, "qwen3.7-max");
    assert_eq!(prepare_embedding(b"{", None).unwrap_err().status, 400);
}

#[test]
fn the_token_is_looked_for_in_two_places() {
    let file = Some(r#"{"token":"f"}"#);
    assert_eq!(load_token(Some("e"), file), Ok("e".to_string()));
    assert_eq!(load_token(Some(""), file), Ok("f".to_string()));
    assert_eq!(load_token(None, file), Ok("f".to_string()));
    let missing = "No QWEN_TOKEN found. Set QWEN_TOKEN env var or create ~/.qwen_session.json";
    assert_eq!(load_token(None, None), Err(missing.to_string()));
    assert_eq!(load_token(None, Some(r#"{"token":""}"#)), Err(missing.to_string()));
    assert_eq!(
        load_token(None, Some("{")),
        Err("Failed to parse .qwen_session.json".to_string())
    );
    assert_eq!(token_in_file(&json(r#"{"token":3}"#)), None);
}

#[test]
fn the_port_has_a_default() {
    assert_eq!(port(None), 8765);
    assert_eq!(port(Some("3000")), 3000);
    assert_eq!(port(Some("65536")), 8765);
    assert_eq!(port(Some("http")), 8765);
}

#[test]
fn continuations_fail_by_status() {
    assert_eq!(continuation_failure(200), None);
    assert_eq!(continuation_failure(299), None);
    assert_eq!(continuation_failure(401), Some("Qwen token expired".to_string()));
    assert_eq!(continuation_failure(300), Some("Qwen returned status 300".to_string()));
    assert_eq!(continuation_failure(7), Some("Qwen returned status 7".to_string()));
}

#[test]
fn the_status_of_a_continuation_decides_first() {
    let body = "data: {\"response_id\":\"r\",\"choices\":[{\"delta\":{\"content\":\"hi\"}}]}\n";
    let fine = continuation_result(200, body).unwrap();
    assert_eq!(fine.response_text, "hi");
    assert_eq!(fine.new_parent_id.as_deref(), Some("r"));
    assert_eq!(noted_response(Ok(fine)).as_deref(), Some("r"));
    assert_eq!(continuation_result(401, body).unwrap_err(), "Qwen token expired");
    assert_eq!(continuation_result(500, body).unwrap_err(), "Qwen returned status 500");
    assert_eq!(noted_response(continuation_result(500, body)), None);
    assert_eq!(noted_response(continuation_result(200, "")), None);
}

#[test]
fn whole_replies_tell_only_what_can_follow() {
    let feedback = || vec!["a".to_string(), "b".to_string()];
    assert_eq!(messages_to_tell(feedback(), None, false).len(), 0);
    assert_eq!(messages_to_tell(feedback(), Some("p"), false), feedback());
    assert_eq!(messages_to_tell(feedback(), None, true), feedback());
    assert_eq!(messages_to_tell(feedback(), Some("p"), true), feedback());
}
