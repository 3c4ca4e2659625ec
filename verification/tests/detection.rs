use qwen_proxy::detect::{
    client_visible_content, detect_in_clean, detect_tools, distinct_calls, extract_json_blocks,
    find_json_object_end, looks_like_tool_call_attempt, sanitize_tool_args, tool_call_of,
    try_parse_tool_json, ToolCall,
};
use qwen_proxy::json::{json_string, parse_json, Json};
use qwen_proxy::patterns::{normalize_tool_call_text, strip_json_codeblock};

fn json(text: &str) -> Json {
    parse_json(text).unwrap()
}

fn tool(name: &str) -> Json {
    Json::object()
        .with("name", Json::text(name))
        .with("description", Json::text(""))
        .with("parameters", Json::object())
}

#[test]
fn test_detect_tool_simple() {
    let text = r#"{"tool":"write","args":{"path":"test.txt","content":"hello"}}"#;
    let tools = vec![tool("write")];
    let tcs = detect_tools(text, &tools);
    assert_eq!(tcs.len(), 1);
    assert_eq!(tcs[0].name, "write");
}

#[test]
fn test_detect_tool_in_markdown() {
    let text = "Here is the tool call:\n```json\n{\"tool\":\"bash\",\"args\":{\"command\":\"ls\"}}\n```\nDone.";
    let tools = vec![tool("bash")];
    let tcs = detect_tools(text, &tools);
    assert_eq!(tcs.len(), 1);
    assert_eq!(tcs[0].name, "bash");
}

#[test]
fn test_detect_tool_embedded_in_text() {
    let text = "I've created the file. {\"tool\":\"write\",\"args\":{\"path\":\"demo.py\",\"content\":\"print('hi')\"}} The file is ready.";
    let tools = vec![tool("write")];
    let tcs = detect_tools(text, &tools);
    assert_eq!(tcs.len(), 1);
    assert_eq!(tcs[0].name, "write");
}

#[test]
fn test_detect_tool_unknown_tool() {
    let text = r#"{"tool":"unknown","args":{}}"#;
    let tools: Vec<Json> = vec![];
    let tcs = detect_tools(text, &tools);
    assert_eq!(tcs.len(), 1);
    assert_eq!(tcs[0].name, "unknown");
}

#[test]
fn test_detect_tool_nested_braces_in_string() {
    let text = r#"{"tool":"bash","args":{"command":"echo {hello}"}}"#;
    let tools = vec![tool("bash")];
    let tcs = detect_tools(text, &tools);
    assert_eq!(tcs.len(), 1);
    assert_eq!(tcs[0].name, "bash");
    assert_eq!(tcs[0].args.str_at("command"), Some("echo {hello}"));
}

#[test]
fn test_detect_tool_deeply_nested_json() {
    let text = r#"{"tool":"write","args":{"path":"test.json","content":"{\"key\": \"value\"}"}}"#;
    let tools = vec![tool("write")];
    let tcs = detect_tools(text, &tools);
    assert_eq!(tcs.len(), 1);
    assert_eq!(tcs[0].name, "write");
}

#[test]
fn test_detect_tool_escaped_quotes() {
    let text = r#"{"tool":"write","args":{"content":"He said \"hello\""}}"#;
    let tools = vec![tool("write")];
    let tcs = detect_tools(text, &tools);
    assert_eq!(tcs.len(), 1);
    assert_eq!(tcs[0].name, "write");
    assert_eq!(tcs[0].args.str_at("content"), Some("He said \"hello\""));
}

#[test]
fn test_detect_multiple_tools() {
    let text = "First I'll read the file:\n```json\n{\"tool\":\"read\",\"args\":{\"path\":\"test.txt\"}}\n```\nThen I'll write:\n```json\n{\"tool\":\"write\",\"args\":{\"path\":\"out.txt\",\"content\":\"done\"}}\n```\nFinished.";
    let tools = vec![tool("read"), tool("write")];
    let tcs = detect_tools(text, &tools);
    assert_eq!(tcs.len(), 2, "should detect both tool calls");
    assert_eq!(tcs[0].name, "read");
    assert_eq!(tcs[1].name, "write");
}

#[test]
fn test_detect_multiple_tools_no_markdown() {
    let text = r#"{"tool":"read","args":{"path":"a.txt"}}{"tool":"write","args":{"path":"b.txt","content":"x"}}"#;
    let tools = vec![tool("read"), tool("write")];
    let tcs = detect_tools(text, &tools);
    assert_eq!(tcs.len(), 2, "should detect both bare JSON tool calls");
}

#[test]
fn test_find_json_object_end() {
    let text = r#"{"tool":"bash","args":{"command":"echo {hello}"}}"#;
    let end = find_json_object_end(text, 0).expect("should find end");
    assert_eq!(end, text.len() - 1);
}

#[test]
fn test_find_json_object_end_with_escaped() {
    let text = r#"{"tool":"write","args":{"content":"He said \"hi\""}}"#;
    let end = find_json_object_end(text, 0).expect("should find end");
    assert_eq!(end, text.len() - 1);
}

#[test]
fn test_detect_tool_spinner_in_args() {
    let text = r#"{"tool":"bash","args":{"⠧ Thinking...command":"echo TOOLCALL-LIVE"}}"#;
    let tools = vec![tool("bash")];
    let tcs = detect_tools(text, &tools);
    assert_eq!(tcs.len(), 1, "should detect tool with spinner in args");
    assert_eq!(tcs[0].name, "bash");
    assert_eq!(tcs[0].args.str_at("command"), Some("echo TOOLCALL-LIVE"));
}

#[test]
fn test_client_visible_content_hides_tool_json() {
    let raw = r#"{"tool":"bash","args":{"command":"ls"}}"#;
    assert_eq!(client_visible_content(raw, None, true), "");
    assert_eq!(client_visible_content("hello", None, true), "hello");
}

#[test]
fn test_looks_like_tool_call_backtick() {
    assert!(looks_like_tool_call_attempt("```json\n{\"tool\":\"bash\"}"));
    assert!(looks_like_tool_call_attempt("```"));
    assert!(looks_like_tool_call_attempt("text ```json more"));
    assert!(!looks_like_tool_call_attempt("hello world"));
}

#[test]
fn test_adversarial_unknown_tool_name_with_empty_list_is_permissive_baseline() {
    let text = r#"```json
{"tool":"get_terminal_output","args":{"command":"ls -la"}}
```"#;
    let tools: Vec<Json> = vec![];
    let tcs = detect_tools(text, &tools);
    assert_eq!(tcs.len(), 1);
    assert_eq!(tcs[0].name, "get_terminal_output");
}

#[test]
fn test_large_tool_list_20_plus_still_detects_correctly_via_codeblock() {
    let mut tools = vec![];
    for i in 0..25 {
        tools.push(
            Json::object()
                .with("name", Json::text(&format!("tool_{}", i)))
                .with("description", Json::text("synthetic"))
                .with("parameters", Json::object()),
        );
    }
    let text = r#"I need to use one.
```json
{"tool":"tool_17","args":{"x":42}}
```
Done."#;
    let tcs = detect_tools(text, &tools);
    assert_eq!(tcs.len(), 1);
    assert_eq!(tcs[0].name, "tool_17");
}

#[test]
fn test_codeblock_vs_raw_json_prefers_fast_markdown_path() {
    let text = "Some thinking...\n```json\n{\"tool\":\"bash\",\"args\":{\"cmd\":\"date\"}}\n```\n";
    let tools = vec![tool("bash")];
    let tcs = detect_tools(text, &tools);
    assert_eq!(tcs.len(), 1);
    assert_eq!(tcs[0].name, "bash");
}

#[test]
fn test_response_format_json_schema_does_not_break_tool_detection() {
    let text = r#"```json
{"tool":"search","args":{"q":"rust"}}
```"#;
    let tools = vec![tool("search")];
    let tcs = detect_tools(text, &tools);
    assert_eq!(tcs.len(), 1);
    assert_eq!(tcs[0].name, "search");
}

#[test]
fn test_normalization_strips_spinner_and_thinking_before_detection() {
    let text = "⠋ Thinking...\n```json\n{\"tool\":\"ls\",\"args\":{}}\n```";
    let tools = vec![tool("ls")];
    let tcs = detect_tools(text, &tools);
    assert_eq!(tcs.len(), 1);
    assert_eq!(tcs[0].name, "ls");
}

#[test]
fn clean_text_drops_spinners_and_thinking_marks() {
    assert_eq!(normalize_tool_call_text("⠋⠙ a ⠿ b ⠇"), " a  b ");
    assert_eq!(normalize_tool_call_text("THINKING.... then thinking"), ". then ");
    assert_eq!(normalize_tool_call_text("thin king.."), "thin king..");
    assert_eq!(normalize_tool_call_text("thin\u{212A}ing.x"), "x");
    assert_eq!(normalize_tool_call_text("\u{2806}\u{280A}\u{2840}"), "\u{2806}\u{280A}\u{2840}");
    assert_eq!(normalize_tool_call_text("ThinkThinkinging"), "Thinking");
}

#[test]
fn code_fences_are_stripped() {
    assert_eq!(strip_json_codeblock("```json\n{\"a\":1}\n```"), "{\"a\":1}");
    assert_eq!(strip_json_codeblock("```\n[1]\n``` tail"), "[1]");
    assert_eq!(strip_json_codeblock("  plain  "), "plain");
    assert_eq!(strip_json_codeblock("```json unclosed"), "```json unclosed");
    assert_eq!(strip_json_codeblock("a ```x``` b ```y```"), "x");
    assert_eq!(strip_json_codeblock("``````"), "``````");
}

#[test]
fn object_ends_are_found_outside_strings() {
    assert_eq!(find_json_object_end("{}", 0), Some(1));
    assert_eq!(find_json_object_end("{{}", 0), None);
    assert_eq!(find_json_object_end("{{}", 1), Some(2));
    assert_eq!(find_json_object_end("{\"}\"}", 0), Some(4));
    assert_eq!(find_json_object_end("{\"\\\"}\"}", 0), Some(6));
    assert_eq!(find_json_object_end("}{}", 0), None);
    assert_eq!(find_json_object_end("}{{}", 0), Some(3));
    assert_eq!(find_json_object_end("{}", 7), None);
    assert_eq!(find_json_object_end("é{}", 2), Some(3));
}

#[test]
fn objects_are_cut_out_of_text() {
    assert_eq!(extract_json_blocks("a {x} b {y{z}} c"), vec!["{x}", "{y{z}}"]);
    assert_eq!(extract_json_blocks("{ {a} "), vec!["{a}"]);
    assert_eq!(extract_json_blocks("ß{ü}→{}"), vec!["{ü}", "{}"]);
    let none: Vec<String> = vec![];
    assert_eq!(extract_json_blocks("no braces"), none);
    assert_eq!(extract_json_blocks("{{{"), none);
}

#[test]
fn arguments_lose_blank_keys_and_padding() {
    let args = json(r#"{" a ":1,"  ":2,"b":3}"#);
    assert_eq!(json_string(&sanitize_tool_args(&args)), r#"{"a":1,"b":3}"#);
    let clash = json(r#"{"a":"last"," a":"first","a ":"later"}"#);
    assert_eq!(json_string(&sanitize_tool_args(&clash)), r#"{"a":"later"}"#);
    let list = json("[1,2]");
    assert_eq!(json_string(&sanitize_tool_args(&list)), "[1,2]");
}

#[test]
fn only_well_formed_calls_are_read() {
    assert!(tool_call_of(&json(r#"{"tool":" ","args":{}}"#)).is_none());
    assert!(tool_call_of(&json(r#"{"tool":"x","args":[]}"#)).is_none());
    assert!(tool_call_of(&json(r#"{"tool":"x"}"#)).is_none());
    assert!(tool_call_of(&json(r#"{"tool":1,"args":{}}"#)).is_none());
    assert!(tool_call_of(&json(r#"[]"#)).is_none());
    let call = tool_call_of(&json(r#"{"tool":" x ","args":{" k ":null}}"#)).unwrap();
    assert_eq!(call.name, "x");
    assert_eq!(json_string(&call.args), r#"{"k":null}"#);
    assert!(try_parse_tool_json("{\"tool\":\"x\"").is_none());
    assert_eq!(try_parse_tool_json("⠋{\"tool\":\"x\",\"args\":{}}").unwrap().name, "x");
}

#[test]
fn equal_calls_count_once() {
    let a = ToolCall { name: "a".to_string(), args: json(r#"{"n":1}"#) };
    let b = ToolCall { name: "a".to_string(), args: json(r#"{"n":2}"#) };
    let list = vec![a.clone(), b.clone(), a.clone(), b.clone()];
    let found = distinct_calls(&list);
    assert_eq!(found.len(), 2);
    assert_eq!(found[0], a);
    assert_eq!(found[1], b);
    let text = r#"{"tool":"a","args":{"x":1,"y":2}} {"tool":"a","args":{"y":2,"x":1}}"#;
    assert_eq!(detect_tools(text, &vec![]).len(), 1);
    let apart = r#"{"tool":"a","args":{"x":1}} {"tool":"a","args":{"x":1.0}}"#;
    assert_eq!(detect_tools(apart, &vec![]).len(), 2);
}

#[test]
fn code_blocks_come_before_loose_objects_and_lines() {
    let loose = "{\"tool\":\"loose\",\"args\":{}}";
    let fenced = vec!["{\"tool\":\"fenced\",\"args\":{}}".to_string()];
    assert_eq!(detect_in_clean(loose, &fenced)[0].name, "fenced");
    assert_eq!(detect_in_clean(loose, &vec!["no json".to_string()])[0].name, "loose");
    let line = "{ {\nx {\"tool\":\"line\",\"args\":{}}";
    assert_eq!(detect_in_clean(line, &vec![])[0].name, "line");
    let hidden = "\"a {\n{\"tool\":\"line\",\"args\":{}}";
    assert_eq!(detect_in_clean(hidden, &vec![])[0].name, "line");
    assert_eq!(detect_in_clean("plain", &vec![]).len(), 0);
}

#[test]
fn visible_text_never_looks_like_a_call() {
    let call = ToolCall { name: "a".to_string(), args: Json::object() };
    assert_eq!(client_visible_content("text", Some(&call), false), "");
    assert_eq!(client_visible_content("```x```", None, false), "```x```");
    for text in ["```", "x {\"tool\" y", "\"tool\": 1", "fine"] {
        let seen = client_visible_content(text, None, true);
        assert!(!looks_like_tool_call_attempt(&seen));
    }
}
