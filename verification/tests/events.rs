use qwen_proxy::json::{parse_json, Json};
use qwen_proxy::sse::{
    accumulate, continuation_of, extract_qwen_sse_delta, extract_response_parent_id,
    first_response_id, last_response_id, parse_qwen_sse_line, parse_qwen_upstream_error,
    process_structured_output, read_continuation, read_events, AccumulatedText, QwenPhase,
    QwenSseDelta,
};

fn json(text: &str) -> Json {
    parse_json(text).unwrap()
}

#[test]
fn test_extract_thinking_from_extra_summary_thought() {
    let ch = json(
        r#"{"choices": [{"delta": {
            "phase": "thinking",
            "extra": {
                "summary_thought": {"content": "Let me think about this step by step."}
            }
        }}]}"#,
    );
    let delta = extract_qwen_sse_delta(&ch);
    assert!(delta.is_some(), "should extract thinking from extra.summary_thought");
    let d = delta.unwrap();
    assert_eq!(d.phase, QwenPhase::Thinking);
    assert!(d.text.contains("think about this"), "thinking text extracted: {}", d.text);
}

#[test]
fn test_extract_thinking_from_extra_both_fields() {
    let ch = json(
        r#"{"choices": [{"delta": {
            "phase": "thinking_summary",
            "extra": {
                "summary_title": {"content": "Analyzing request"},
                "summary_thought": {"content": "Breaking down the problem."}
            }
        }}]}"#,
    );
    let delta = extract_qwen_sse_delta(&ch);
    assert!(delta.is_some());
    let d = delta.unwrap();
    assert!(d.text.contains("Analyzing"), "title in text");
    assert!(d.text.contains("Breaking down"), "thought in text");
    assert_eq!(d.text, "Analyzing request\nBreaking down the problem.");
}

#[test]
fn test_extract_thinking_from_array_content() {
    let ch = json(
        r#"{"choices": [{"delta": {
            "phase": "thinking",
            "extra": {
                "summary_thought": {"content": ["First thought.", "Second thought."]}
            }
        }}]}"#,
    );
    let delta = extract_qwen_sse_delta(&ch);
    assert!(delta.is_some());
    let d = delta.unwrap();
    assert!(d.text.contains("First thought."));
    assert!(d.text.contains("Second thought."));
    assert_eq!(d.text, "First thought.\nSecond thought.");
}

#[test]
fn test_extract_qwen_sse_delta_answer_phase() {
    let ch = json(
        r#"{"choices": [{"delta": {"phase": "answer", "content": ""}}],
            "response": {"content": "Hello"},
            "content": ""}"#,
    );
    let delta = extract_qwen_sse_delta(&ch);
    assert!(delta.is_some());
    assert_eq!(delta.unwrap().text, "Hello");
}

#[test]
fn test_extract_qwen_sse_delta_skips_thinking_empty() {
    let ch = json(r#"{"choices": [{"delta": {"phase": "thinking", "content": ""}}]}"#);
    let delta = extract_qwen_sse_delta(&ch);
    assert!(delta.is_some(), "empty thinking phase should return Some for accumulation");
    assert_eq!(delta.unwrap().text, "");
}

#[test]
fn test_extract_qwen_sse_delta_chunk_content() {
    let ch = json(r#"{"choices": [{"delta": {"phase": "answer"}}], "content": "world"}"#);
    let delta = extract_qwen_sse_delta(&ch);
    assert!(delta.is_some());
    assert_eq!(delta.unwrap().text, "world");
}

#[test]
fn phases_are_told_apart() {
    let phase = |name: &str| {
        let ch = json(&format!(r#"{{"choices":[{{"delta":{{"phase":"{}","content":"x"}}}}]}}"#, name));
        extract_qwen_sse_delta(&ch).unwrap().phase
    };
    assert_eq!(phase("thinking_summary"), QwenPhase::ThinkingSummary);
    assert_eq!(phase("search"), QwenPhase::Search);
    assert_eq!(phase("answer"), QwenPhase::Answer);
    assert_eq!(phase(""), QwenPhase::Answer);
    assert_eq!(phase("image"), QwenPhase::Other("image".to_string()));
    assert_ne!(phase("image"), QwenPhase::Other("video".to_string()));
    let outer = json(r#"{"phase":"search","content":"x"}"#);
    assert_eq!(extract_qwen_sse_delta(&outer).unwrap().phase.clone(), QwenPhase::Search);
}

#[test]
fn content_comes_in_many_shapes() {
    let text = |content: &str| {
        let ch = json(&format!(r#"{{"choices":[{{"delta":{{"content":{}}}}}]}}"#, content));
        extract_qwen_sse_delta(&ch).map(|d| d.text)
    };
    assert_eq!(text(r#"["a",1,"b"]"#), Some("ab".to_string()));
    assert_eq!(text(r#"{"content":"c"}"#), Some("c".to_string()));
    assert_eq!(text(r#"{"content":["c","d"]}"#), Some("cd".to_string()));
    assert_eq!(text("7"), None);
    let done = json(r#"{"choices":[{"delta":{"status":"finished"}}]}"#);
    let delta = extract_qwen_sse_delta(&done).unwrap();
    assert!(delta.finished && delta.text.is_empty());
    assert!(extract_qwen_sse_delta(&json(r#"{"choices":[]}"#)).is_none());
    let titled = json(
        r#"{"choices":[{"delta":{"phase":"thinking","extra":{"summary_title":{"content":["A","B"]}}}}]}"#,
    );
    assert_eq!(extract_qwen_sse_delta(&titled).unwrap().text, "AB");
    let plain = json(r#"{"choices":[{"delta":{"phase":"thinking","content":["t","u"]}}]}"#);
    assert_eq!(extract_qwen_sse_delta(&plain).unwrap().text, "tu");
}

fn delta(phase: QwenPhase, text: &str) -> QwenSseDelta {
    QwenSseDelta { phase, text: text.to_string(), finished: false }
}

#[test]
fn thoughts_and_answers_accumulate_apart() {
    let mut acc = AccumulatedText::new();
    acc.append(&delta(QwenPhase::Thinking, "one"));
    acc.append(&delta(QwenPhase::ThinkingSummary, ""));
    acc.append(&delta(QwenPhase::ThinkingSummary, "two"));
    acc.append(&delta(QwenPhase::Search, "lost"));
    acc.append(&delta(QwenPhase::Answer, "a"));
    acc.append(&delta(QwenPhase::Other("image".to_string()), "b"));
    assert_eq!(acc.thinking(), "one\ntwo");
    assert_eq!(acc.full_answer(), "ab");
}

#[test]
fn lines_carry_data() {
    assert_eq!(parse_qwen_sse_line("data: {\"a\":1} \r"), Some("{\"a\":1}".to_string()));
    assert_eq!(parse_qwen_sse_line("data:x"), None);
    assert_eq!(parse_qwen_sse_line("  "), None);
    assert_eq!(parse_qwen_sse_line("[DONE]"), None);
    assert_eq!(parse_qwen_sse_line("data: [DONE]"), Some("[DONE]".to_string()));
    assert_eq!(parse_qwen_sse_line(": comment"), None);
}

#[test]
fn response_ids_are_found() {
    let nested = json(r#"{"response":{"created":{"response_id":"r1"}},"response_id":"r2"}"#);
    assert_eq!(extract_response_parent_id(&nested), Some("r1".to_string()));
    let flat = json(r#"{"response":{"created":1},"response_id":"r2"}"#);
    assert_eq!(extract_response_parent_id(&flat), Some("r2".to_string()));
    assert_eq!(extract_response_parent_id(&json("{}")), None);
}

const BODY: &str = "data: {\"response_id\":\"r1\"}\n\ndata: not json\ndata: {\"choices\":[{\"delta\":{\"content\":\"He\"}}]}\r\n{\"choices\":[{\"delta\":{\"content\":\"??\"}}]}\ndata: {\"response_id\":\"r2\",\"choices\":[{\"delta\":{\"content\":\"y\"}}]}\ndata: [DONE]\n";

#[test]
fn bodies_are_read_event_by_event() {
    let events = read_events(BODY, false);
    assert_eq!(events.len(), 3);
    assert_eq!(accumulate(&events).full_answer(), "Hey");
    assert_eq!(last_response_id(&events), Some("r2".to_string()));
    assert_eq!(first_response_id(&events), Some("r1".to_string()));
    assert_eq!(read_events(BODY, true).len(), 4);
}

#[test]
fn continuations_take_loose_lines_and_the_first_id() {
    let reply = read_continuation(BODY);
    assert_eq!(reply.new_parent_id, Some("r1".to_string()));
    assert_eq!(reply.response_text, "He??y");
    let whole = read_continuation("{\n\"response_id\":\"w\"\n}");
    assert_eq!(whole.new_parent_id, Some("w".to_string()));
    assert_eq!(whole.response_text, "");
    let nothing = continuation_of(&vec![], &Err("broken".to_string()));
    assert_eq!(nothing.new_parent_id, None);
}

#[test]
fn upstream_errors_are_read() {
    let error = |text: &str| parse_qwen_upstream_error(text);
    assert_eq!(
        error(r#" {"success":false,"data":{"details":"d","template":"t"}} "#),
        Some("d".to_string())
    );
    assert_eq!(error(r#"{"success":false,"data":{"template":"t"}}"#), Some("t".to_string()));
    assert_eq!(error(r#"{"success":false,"message":"m"}"#), Some("m".to_string()));
    assert_eq!(error(r#"{"success":false}"#), Some("Qwen API error".to_string()));
    assert_eq!(error(r#"{"success":true}"#), None);
    assert_eq!(error(r#"{}"#), None);
    assert_eq!(error(r#"[{"success":false}]"#), None);
    assert_eq!(error(r#"{"success":false"#), None);
}

#[test]
fn formats_are_kept_to() {
    let object = json(r#"{"type":"json_object"}"#);
    let schema = json(r#"{"type":"json_schema"}"#);
    let plain = json(r#"{"type":"text"}"#);
    let fenced = "```json\n{\"a\":1}\n```";
    assert_eq!(process_structured_output(fenced, None), Ok(fenced.to_string()));
    assert_eq!(process_structured_output(fenced, Some(&plain)), Ok(fenced.to_string()));
    assert_eq!(process_structured_output(fenced, Some(&object)), Ok("{\"a\":1}".to_string()));
    assert_eq!(process_structured_output(fenced, Some(&schema)), Ok("{\"a\":1}".to_string()));
    let long = "é".repeat(300);
    let error = process_structured_output(&long, Some(&object)).unwrap_err();
    assert_eq!(
        error,
        format!("Response is not valid JSON despite response_format. Got: {}", "é".repeat(200))
    );
}
