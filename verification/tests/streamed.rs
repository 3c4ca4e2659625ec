use qwen_proxy::chunks::{
    argument_pieces, build_reasoning_delta, build_stream_chunk, build_tool_call_stream_chunks,
};
use qwen_proxy::gate::GateSettings;
use qwen_proxy::json::{json_string, parse_json, Json};
use qwen_proxy::reply::ReplyHead;
use qwen_proxy::sse::ContinuationResponse;
use qwen_proxy::stream::{frame, Closing, EndStep, StreamContext, StreamState};

fn json(text: &str) -> Json {
    parse_json(text).unwrap()
}

fn context(responses_api: bool, tools: &str, format: Option<&str>, pass: &str) -> StreamContext {
    StreamContext {
        head: ReplyHead {
            id: "I".to_string(),
            model: "M".to_string(),
            created: 9,
            prompt_tokens: 10,
            responses_api,
        },
        tools: json(tools).as_array().unwrap().clone(),
        response_format: format.map(|f| json(f)),
        settings: GateSettings {
            strict_tool_validation: None,
            tool_pass_through: Some(pass.to_string()),
            tool_synthetic_ok: None,
        },
    }
}

fn delta_line(delta: &str) -> String {
    format!("data: {{\"choices\":[{{\"delta\":{}}}]}}", delta)
}

fn say(content: &str) -> String {
    delta_line(&json_string(&Json::object().with("content", Json::text(content))))
}

fn finish() -> String {
    delta_line("{\"status\":\"finished\"}")
}

fn events(data: &str) -> Vec<Json> {
    let mut out = vec![];
    for part in data.split("\n\n") {
        if let Some(rest) = part.strip_prefix("data: ") {
            if rest != "[DONE]" {
                out.push(json(rest));
            }
        }
    }
    out
}

fn send(state: &mut StreamState, context: &StreamContext, line: &str) -> Vec<Json> {
    events(&state.on_line(context, line).unwrap().data)
}

fn delta_of(chunk: &Json) -> &Json {
    chunk.array_at("choices").unwrap()[0].get("delta").unwrap()
}

fn finish_of(chunk: &Json) -> Option<&str> {
    chunk.array_at("choices").unwrap()[0].str_at("finish_reason")
}

fn close(state: &mut StreamState, context: &StreamContext) -> (Vec<Json>, Vec<String>) {
    match state.on_end(context).unwrap() {
        EndStep::Close { feedback, closing } => {
            let data = state.close(context, &closing);
            assert!(data.ends_with("data: [DONE]\n\n"));
            assert!(state.done);
            (events(&data), feedback)
        }
        other => panic!("{:?}", other),
    }
}

#[test]
fn chunks_have_their_shape() {
    assert_eq!(
        build_stream_chunk("I", "M", -3, Json::object(), Some("stop")),
        r#"{"choices":[{"delta":{},"finish_reason":"stop","index":0}],"created":-3,"id":"I","model":"M","object":"chat.completion.chunk"}"#
    );
    assert!(build_stream_chunk("I", "M", 1, Json::Null, None).contains("\"finish_reason\":null"));
    assert_eq!(
        json_string(&build_reasoning_delta("t", true)),
        r#"{"reasoning_content":"t","role":"assistant","thinking":"t"}"#
    );
    assert_eq!(
        json_string(&build_reasoning_delta("t", false)),
        r#"{"reasoning_content":"t","thinking":"t"}"#
    );
    assert_eq!(frame(&vec!["a".to_string(), "b".to_string()]), "data: a\n\ndata: b\n\n");
}

#[test]
fn arguments_stream_in_pieces() {
    let pieces = |n: usize| argument_pieces(&"é".repeat(n));
    assert_eq!(pieces(0).len(), 0);
    assert_eq!(pieces(8), vec!["é".repeat(8)]);
    assert_eq!(pieces(17), vec!["é".repeat(8), "é".repeat(8), "é".to_string()]);
    let args = r#"{"path":"/tmp/file.txt"}"#;
    let chunks: Vec<Json> = build_tool_call_stream_chunks("I", "M", 1, 2, "call_x", "w", args)
        .iter()
        .map(|c| json(c))
        .collect();
    assert_eq!(
        delta_of(&chunks[0]),
        &json(r#"{"role":"assistant","content":null,"tool_calls":[{"index":2,"id":"call_x","type":"function","function":{"name":"w","arguments":""}}]}"#)
    );
    let mut joined = String::new();
    for chunk in &chunks[1..chunks.len() - 1] {
        let call = &delta_of(chunk).array_at("tool_calls").unwrap()[0];
        assert_eq!(call.get("index"), Some(&json("2")));
        joined.push_str(call.get("function").unwrap().str_at("arguments").unwrap());
    }
    assert_eq!(joined, args);
    let last = chunks.last().unwrap();
    assert_eq!(delta_of(last), &Json::object());
    assert_eq!(finish_of(last), Some("tool_calls"));
}

#[test]
fn text_streams_as_it_comes() {
    let context = context(false, "[]", None, "1");
    let mut state = StreamState::new();
    let first = send(&mut state, &context, &say("Hé"));
    assert_eq!(delta_of(&first[0]), &json(r#"{"role":"assistant","content":"Hé"}"#));
    let next = send(&mut state, &context, &say("llo"));
    assert_eq!(delta_of(&next[0]), &json(r#"{"content":"llo"}"#));
    assert_eq!(send(&mut state, &context, ": comment").len(), 0);
    assert_eq!(send(&mut state, &context, &finish()).len(), 0);
    let (chunks, feedback) = close(&mut state, &context);
    assert_eq!((chunks.len(), feedback.len()), (1, 0));
    assert_eq!(delta_of(&chunks[0]), &Json::object());
    assert_eq!(finish_of(&chunks[0]), Some("stop"));
}

#[test]
fn thoughts_stream_with_one_role() {
    let context = context(false, "[]", None, "1");
    let mut state = StreamState::new();
    let think = |t: &str| delta_line(&format!("{{\"phase\":\"thinking\",\"content\":\"{}\"}}", t));
    let first = send(&mut state, &context, &think("a"));
    assert_eq!(
        delta_of(&first[0]),
        &json(r#"{"reasoning_content":"a","thinking":"a","role":"assistant"}"#)
    );
    let next = send(&mut state, &context, &think("b"));
    assert_eq!(
        delta_of(&next[0]),
        &json(r#"{"reasoning_content":"\nb","thinking":"\nb"}"#)
    );
    assert_eq!(send(&mut state, &context, &think("")).len(), 0);
}

#[test]
fn the_parent_id_is_passed_on() {
    let context = context(false, "[]", None, "1");
    let mut state = StreamState::new();
    let out = state.on_line(&context, "data: {\"response_id\":\"r\"}").unwrap();
    assert_eq!(out.parent_id, Some("r".to_string()));
    assert_eq!(out.data, "");
}

#[test]
fn calls_stream_once_the_reply_is_finished() {
    let context = context(false, r#"[{"name":"ls"}]"#, None, "0");
    let mut state = StreamState::new();
    assert_eq!(send(&mut state, &context, &say("{\"tool\":\"run_ls\",")).len(), 0);
    assert_eq!(send(&mut state, &context, &say("\"args\":{}}")).len(), 0);
    let chunks = send(&mut state, &context, &finish());
    assert_eq!(chunks.len(), 3);
    let call = &delta_of(&chunks[0]).array_at("tool_calls").unwrap()[0];
    assert_eq!(call.get("function").unwrap().str_at("name"), Some("ls"));
    assert!(call.str_at("id").unwrap().starts_with("call_"));
    let (closing, _) = close(&mut state, &context);
    assert_eq!(finish_of(&closing[0]), Some("tool_calls"));
}

#[test]
fn text_waits_for_the_end_where_tools_are_offered() {
    let context = context(false, r#"[{"name":"ls"}]"#, None, "0");
    let mut state = StreamState::new();
    assert_eq!(send(&mut state, &context, &say("plain")).len(), 0);
    let chunks = send(&mut state, &context, &finish());
    assert_eq!(delta_of(&chunks[0]), &json(r#"{"role":"assistant","content":"plain"}"#));
    let (closing, _) = close(&mut state, &context);
    assert_eq!(finish_of(&closing[0]), Some("stop"));
}

#[test]
fn unknown_tools_are_reported_in_the_stream() {
    let chat = context(false, r#"[{"name":"ls"}]"#, None, "0");
    let mut state = StreamState::new();
    let line = delta_line(
        &json_string(
            &Json::object()
                .with("content", Json::text("{\"tool\":\"rm\",\"args\":{}}"))
                .with("status", Json::text("finished")),
        ),
    );
    let out = state.on_line(&chat, &line).unwrap();
    let chunks = events(&out.data);
    assert_eq!(
        delta_of(&chunks[0]).str_at("content"),
        Some("[Tool Error: Invalid tool call(s): rm. Only use exact names from the client's Available Tools list.]")
    );
    assert_eq!(finish_of(&chunks[0]), Some("stop"));
    assert_eq!(out.feedback.len(), 1);
    assert!(state.tool_emitted);

    let api = context(true, r#"[{"name":"ls"}]"#, None, "0");
    let mut late = StreamState::new();
    assert_eq!(send(&mut late, &api, &say("{\"tool\":\"rm\",\"args\":{}}")).len(), 1);
    let (closing, feedback) = close(&mut late, &api);
    assert_eq!(closing.len(), 1);
    assert_eq!(closing[0].str_at("type"), Some("error"));
    assert_eq!(closing[0].get("error").unwrap().str_at("type"), Some("tool_error"));
    assert_eq!(feedback.len(), 1);
}

#[test]
fn responses_are_announced_and_completed() {
    let context = context(true, "[]", None, "1");
    let mut state = StreamState::new();
    let first = send(&mut state, &context, &say("Hi"));
    assert_eq!(
        first[0],
        json(r#"{"type":"response.created","response":{"id":"I","created_at":9,"model":"M"}}"#)
    );
    assert_eq!(first[1].str_at("type"), Some("response.output_item.added"));
    let id = first[1].get("item").unwrap().str_at("id").unwrap().to_string();
    assert!(id.starts_with("msg_"));
    assert_eq!(
        first[2],
        Json::object()
            .with("type", Json::text("response.output_text.delta"))
            .with("item_id", Json::text(&id))
            .with("delta", Json::text("Hi"))
    );
    let next = send(&mut state, &context, &say("!"));
    assert_eq!(next.len(), 1);
    assert_eq!(next[0].str_at("item_id"), Some(id.as_str()));
    send(&mut state, &context, &finish());
    let (closing, _) = close(&mut state, &context);
    assert_eq!(closing[0].str_at("type"), Some("response.output_item.done"));
    assert_eq!(closing[0].get("item").unwrap().str_at("id"), Some(id.as_str()));
    assert_eq!(
        closing[1],
        json(r#"{"type":"response.completed","response":{"id":"I","object":"response","created_at":9,"model":"M","usage":{"input_tokens":10,"output_tokens":1,"total_tokens":11}}}"#)
    );
}

#[test]
fn response_calls_carry_their_arguments() {
    let context = context(true, r#"[{"name":"a"},{"name":"b"}]"#, None, "0");
    let mut state = StreamState::new();
    let text = "{\"tool\":\"a\",\"args\":{\"x\":1}} {\"tool\":\"b\",\"args\":{}}";
    send(&mut state, &context, &say(text));
    let chunks = send(&mut state, &context, &finish());
    let kinds: Vec<&str> = chunks.iter().map(|c| c.str_at("type").unwrap()).collect();
    assert_eq!(
        kinds,
        vec![
            "response.output_item.added",
            "response.function_call_arguments.delta",
            "response.function_call_arguments.delta",
        ]
    );
    assert_eq!(chunks[0].get("item").unwrap().str_at("arguments"), Some(""));
    assert_eq!(chunks[1].str_at("delta"), Some("{\"x\":1}"));
    assert_eq!(chunks[2].get("output_index"), Some(&json("1")));
    let (closing, _) = close(&mut state, &context);
    assert_eq!(closing.len(), 1);
}

#[test]
fn calls_left_at_the_end_are_sent() {
    let chat = context(false, "[]", None, "1");
    let mut state = StreamState::new();
    let mut silent = StreamState::new();
    silent.text.answer.push_str("{\"tool\":\"a\",\"args\":{}} {\"tool\":\"b\",\"args\":{}}");
    let (chunks, _) = close(&mut silent, &chat);
    assert_eq!(chunks.len(), 6);
    state.text.answer.push_str("{\"tool\":\"a\",\"args\":{\"k\":2}} {\"tool\":\"b\",\"args\":{}}");
    let api = context(true, "[]", None, "1");
    let (events, _) = close(&mut state, &api);
    let kinds: Vec<&str> = events.iter().map(|c| c.str_at("type").unwrap()).collect();
    assert_eq!(
        kinds,
        vec!["response.output_item.added", "response.output_item.done", "response.completed"]
    );
    assert_eq!(events[0].get("item").unwrap().str_at("arguments"), Some("{\"k\":2}"));
}

#[test]
fn text_left_at_the_end_is_sent() {
    let chat = context(false, r#"[{"name":"ls"}]"#, None, "0");
    let mut state = StreamState::new();
    assert_eq!(send(&mut state, &chat, &say("plain")).len(), 0);
    let (chunks, _) = close(&mut state, &chat);
    assert_eq!(delta_of(&chunks[0]), &json(r#"{"role":"assistant","content":"plain"}"#));
    assert_eq!(finish_of(&chunks[0]), Some("stop"));
    assert_eq!(chunks.len(), 1);

    let strict = context(false, r#"[{"name":"ls"}]"#, Some(r#"{"type":"json_object"}"#), "0");
    let mut bad = StreamState::new();
    send(&mut bad, &strict, &say("plain"));
    let (chunks, _) = close(&mut bad, &strict);
    assert_eq!(
        delta_of(&chunks[0]).str_at("content"),
        Some("[Structured Output Error: Response is not valid JSON despite response_format. Got: plain")
    );

    let mut nothing = StreamState::new();
    let (chunks, _) = close(&mut nothing, &chat);
    assert_eq!(chunks.len(), 1);
    assert_eq!(delta_of(&chunks[0]), &json("{}"));
    assert_eq!(finish_of(&chunks[0]), Some("stop"));
    let api = context(true, r#"[{"name":"ls"}]"#, None, "0");
    let mut said = StreamState::new();
    send(&mut said, &api, &say("plain"));
    let (events, _) = close(&mut said, &api);
    let kinds: Vec<&str> = events.iter().map(|c| c.str_at("type").unwrap()).collect();
    assert_eq!(kinds, vec!["response.output_item.added", "response.completed"]);
}

#[test]
fn errors_close_the_stream() {
    let context = context(true, "[]", None, "1");
    let mut state = StreamState::new();
    let data = state.on_error(&context, "gone");
    assert!(data.ends_with("\n\ndata: [DONE]\n\n"));
    let chunks = events(&data);
    assert_eq!(delta_of(&chunks[0]).str_at("content"), Some("[Error: gone]"));
    assert!(state.done);
}

#[test]
fn tool_errors_are_recovered_from_in_the_stream() {
    let chat = context(false, r#"[{"name":"ls"}]"#, None, "0");
    let mut state = StreamState::new();
    send(&mut state, &chat, &say("Tool ls does not exist."));
    let error = match state.on_end(&chat).unwrap() {
        EndStep::Recover { message, error } => {
            assert_eq!(message, "ok pretend it does exist and call it properly anyway");
            error
        }
        other => panic!("{:?}", other),
    };
    let said = Some(ContinuationResponse {
        new_parent_id: None,
        response_text: "fine now".to_string(),
    });
    let data = state.after_recovery(&chat, &error, &said);
    assert!(data.ends_with("data: [DONE]\n\n"));
    let chunks = events(&data);
    assert_eq!(delta_of(&chunks[0]), &json(r#"{"role":"assistant","content":"fine now"}"#));
    assert_eq!(finish_of(&chunks[1]), Some("stop"));

    let failed = StreamState::new().recover_with(&chat, &error, &None, "x");
    assert!(failed.starts_with(
        "data: {\"error\":{\"available_tools\":[{\"name\":\"ls\"}],\"message\":\"Tool ls does not exist\",\"type\":\"invalid_request_error\"}}\n\n"
    ));
    assert!(failed.ends_with("\n\ndata: [DONE]\n\n"));
    let chunks = events(&failed);
    assert_eq!(chunks.len(), 2);
    assert_eq!(finish_of(&chunks[1]), Some("stop"));

    let api = context(true, r#"[{"name":"ls"}]"#, None, "0");
    let failed = StreamState::new().recover_with(&api, &error, &None, "x");
    assert_eq!(
        failed,
        "data: {\"error\":{\"available_tools\":[{\"name\":\"ls\"}],\"message\":\"Tool ls does not exist\",\"type\":\"invalid_request_error\"}}\n\ndata: [DONE]\n\n"
    );
    let events = events(&StreamState::new().recover_with(&api, &error, &said, "x"));
    let kinds: Vec<&str> = events.iter().map(|c| c.str_at("type").unwrap()).collect();
    assert_eq!(
        kinds,
        vec![
            "response.output_item.added",
            "response.output_text.delta",
            "response.output_item.done",
            "response.completed",
        ]
    );
    assert_eq!(events[1].str_at("item_id"), Some("msg_x"));
}

#[test]
fn fences_are_stripped_while_streaming() {
    let context = context(false, "[]", Some(r#"{"type":"json_object"}"#), "1");
    let mut state = StreamState::new();
    let first = send(&mut state, &context, &say("```json\n{\"a\""));
    assert_eq!(delta_of(&first[0]).str_at("content"), Some("```json\n{\"a\""));
    let next = send(&mut state, &context, &say(":1}\n```"));
    assert_eq!(next.len(), 0);
    assert_eq!(state.prev_len, 7);
}

#[test]
fn a_cut_inside_a_character_has_no_telling() {
    let context = context(false, "[]", Some(r#"{"type":"json_object"}"#), "1");
    let mut state = StreamState::new();
    state.text.answer.push_str("é");
    state.prev_len = 1;
    assert!(state.on_line(&context, &say("x")).is_none());
    assert_eq!(state.text.full_answer(), "é");
    assert_eq!(state.prev_len, 1);
}

#[test]
fn a_report_that_cannot_be_cut_has_no_end() {
    let context = context(false, r#"[{"name":"ls"}]"#, None, "0");
    let mut state = StreamState::new();
    state.text.answer.push_str(&format!("tool not found {}é{}", "x".repeat(184), "x".repeat(20)));
    assert!(state.on_end(&context).is_none());
    state.content_emitted = true;
    assert!(matches!(
        state.on_end(&context),
        Some(EndStep::Close { closing: Closing::Sent, .. })
    ));
}

#[test]
fn nothing_follows_the_end() {
    let context = context(false, r#"[{"name":"ls"}]"#, None, "0");
    let mut state = StreamState::new();
    send(&mut state, &context, &say("Tool ls does not exist."));
    assert!(state.on_error(&context, "gone").ends_with("data: [DONE]\n\n"));
    let output = state.on_line(&context, &say("more")).unwrap();
    assert_eq!(output.data, "");
    assert!(output.parent_id.is_none() && output.feedback.is_empty());
    assert_eq!(state.text.full_answer(), "Tool ls does not exist.");
    match state.on_end(&context).unwrap() {
        EndStep::Close { feedback, closing } => {
            assert!(feedback.is_empty());
            assert_eq!(state.close(&context, &closing), "");
        }
        other => panic!("{:?}", other),
    }
    assert_eq!(state.on_error(&context, "again"), "");
    assert_eq!(state.after_recovery(&context, "again", &None), "");
    assert!(state.done);
}

#[test]
fn the_stream_adds_up_to_the_answer() {
    let context = context(false, "[]", None, "1");
    let text_of = |chunks: Vec<Json>| -> String {
        chunks.iter().filter_map(|c| delta_of(c).str_at("content")).collect()
    };
    let mut state = StreamState::new();
    let mut sent = String::new();
    for line in [say("Hé"), say("llo"), say(" you"), finish()] {
        sent.push_str(&text_of(send(&mut state, &context, &line)));
    }
    sent.push_str(&text_of(close(&mut state, &context).0));
    assert_eq!(sent, "Héllo you");
    assert_eq!(state.text.full_answer(), sent);

    let mut unfinished = StreamState::new();
    let mut sent = text_of(send(&mut unfinished, &context, &say("Hi")));
    sent.push_str(&text_of(close(&mut unfinished, &context).0));
    assert_eq!(sent, "HiHi");
}

#[test]
fn with_tools_the_stream_adds_up_to_what_is_visible() {
    let context = context(false, r#"[{"name":"ls"}]"#, None, "0");
    let text_of = |chunks: Vec<Json>| -> String {
        chunks.iter().filter_map(|c| delta_of(c).str_at("content")).collect()
    };
    for (lines, answer) in [
        (vec![say("Hé"), say("llo"), finish()], "Héllo"),
        (vec![say("Hé"), finish(), say("llo")], "Héllo"),
        (vec![say("Hé"), say("llo")], "Héllo"),
        (vec![say("```not a call"), finish()], ""),
        (vec![], ""),
    ] {
        let mut state = StreamState::new();
        let mut sent = String::new();
        for line in lines {
            sent.push_str(&text_of(send(&mut state, &context, &line)));
        }
        sent.push_str(&text_of(close(&mut state, &context).0));
        assert_eq!(sent, answer);
    }
}
