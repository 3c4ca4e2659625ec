use qwen_proxy::json::{json_string, parse_json, Json};
use qwen_proxy::prompt::{build_message, build_prompt, message_content_to_string, parse_tools};

fn json(text: &str) -> Json {
    parse_json(text).unwrap()
}

#[test]
fn test_build_message() {
    let v = json(
        r#"{
            "messages": [
                {"role":"system","content":"You are helpful."},
                {"role":"user","content":"Hello"}
            ],
            "tools": [{"function":{"name":"bash","description":"run commands","parameters":{}}}]
        }"#,
    );
    let msg = build_message(&v);
    assert!(msg.contains("You are helpful"), "system prompt included");
    assert!(msg.contains("USER: Hello"), "user message included");
    assert!(msg.contains("Tool Use Format"), "tool instructions present");
    assert!(msg.contains("```json"), "code block instruction present");
    assert!(
        msg.contains("CRITICAL RULES") || msg.contains("exact `name`"),
        "loud 'only exact names' rule present"
    );
    assert!(
        msg.contains("exact tool name spelling from the client's list")
            || msg.contains("exact `name` appears"),
        "reinforced exact-name guidance"
    );
    assert!(msg.starts_with("You are helpful.\n\nUSER: Hello\n\n## Tool Use Format"));
    assert!(msg.contains("```json\n{\"tool\":\"bash\",\"args\":{...}}\n```\n"));
}

#[test]
fn histories_read_as_a_dialogue() {
    let v = json(
        r#"{"messages":[
            {"role":"system","content":"S"},
            {"content":"no role"},
            {"role":"assistant","content":null,"tool_calls":[
                {"function":{"name":"ls","arguments":"{\"a\":1}"}},
                {"function":{}},
                {}
            ]},
            {"role":"tool","content":"out"},
            {"role":"tool","content":""},
            {"role":"user","content":[{"text":"a"},{"image":1},{"input_text":"b"},{"output":"c"}]},
            {"role":"straße","content":"x"},
            "stray"
        ]}"#,
    );
    assert_eq!(
        build_message(&v),
        "S\n\nUSER: no role\n\nASSISTANT used tool: ls({\"a\":1})\n\nASSISTANT used tool: ?({})\n\nASSISTANT used tool: ?({})\n\nTOOL: out\n\nTOOL RESULT: out\n\nTOOL RESULT: \n\nUSER: a\nb\nc\n\nSTRASSE: x"
    );
}

#[test]
fn response_inputs_read_as_a_dialogue() {
    let v = json(
        r#"{"input":[
            {"type":"function_call","name":"ls","arguments":"{}","content":"said"},
            {"type":"function_call_output","output":"files","content":"unseen"},
            {"type":"function_call_output","output":[]},
            {"type":"function_call","role":"assistant"}
        ]}"#,
    );
    assert_eq!(
        build_message(&v),
        "ASSISTANT used tool: ls({})\n\nUSER: said\n\nTOOL RESULT: files\n\nASSISTANT used tool: ?({})"
    );
    assert_eq!(build_message(&json("{}")), "");
    assert_eq!(build_message(&json(r#"{"messages":1,"input":[{"content":"x"}]}"#)), "USER: x");
}

#[test]
fn formats_are_asked_for() {
    let schema = json(
        r#"{"messages":[{"content":"x"}],"response_format":{"type":"json_schema","json_schema":{"schema":{"b":1,"a":[]}}}}"#,
    );
    assert_eq!(
        build_message(&schema),
        "USER: x\n\nRespond with valid JSON only (no markdown) matching this schema:\n{\"a\":[],\"b\":1}"
    );
    let object = json(r#"{"messages":[],"response_format":{"type":"json_object"}}"#);
    assert_eq!(build_message(&object), "\n\nRespond with valid JSON only, no markdown fences.\n");
    let text = json(r#"{"messages":[],"response_format":{"type":"text"}}"#);
    assert_eq!(build_message(&text), "");
}

#[test]
fn the_example_tool_is_the_first() {
    let example = |tools: &str| build_message(&json(&format!(r#"{{"tools":{}}}"#, tools)));
    assert!(example(r#"[{"name":"own"},{"name":"next"}]"#).contains("{\"tool\":\"own\""));
    assert!(example(r#"[{"function":{"name":1},"name":"own"}]"#).contains("\"example_tool\""));
    assert!(example(r#"[7]"#).contains("\"example_tool\""));
    assert_eq!(example("[]"), "");
}

#[test]
fn message_texts_come_in_parts() {
    let parts = json(r#"[{"output_text":"a","input_text":"b"},{"text":"c","output":"d"},3]"#);
    assert_eq!(message_content_to_string(Some(&parts)), "a\nc");
    assert_eq!(message_content_to_string(Some(&json("3"))), "");
    assert_eq!(message_content_to_string(None), "");
}

#[test]
fn tools_are_listed_in_one_form() {
    let v = json(
        r#"{"tools":[
            {"function":{"name":"a","description":"d","parameters":{"p":1}}},
            {"name":"b","input_schema":{"s":1}},
            {"function":{"name":"c","parameters":null},"description":"outer","parameters":{"q":2}},
            {"description":"nameless"}
        ]}"#,
    );
    let listed: Vec<String> = parse_tools(&v).iter().map(|t| json_string(t)).collect();
    assert_eq!(
        listed,
        vec![
            r#"{"description":"d","name":"a","parameters":{"p":1}}"#,
            r#"{"description":"","name":"b","parameters":{"s":1}}"#,
            r#"{"description":"outer","name":"c","parameters":null}"#,
        ]
    );
    assert_eq!(parse_tools(&json("{}")).len(), 0);
}

#[test]
fn prompts_end_with_the_tools() {
    assert_eq!(build_prompt("m".to_string(), &vec![]), "m");
    let prompt = build_prompt("m".to_string(), &vec![json(r#"{"name":"a"}"#)]);
    assert_eq!(
        prompt,
        "m\n\nAvailable Tools (exact names only — use these verbatim):\n[{\"name\":\"a\"}]\n\nWhen you need to call a tool, output ONLY a complete ```json fenced code block as the very last thing in your response, using an exact name from the list above. Never invent names. The block must contain nothing except the JSON."
    );
}

#[test]
fn histories_keep_their_order() {
    let whole = json(
        r#"{"messages":[{"role":"user","content":"one"},{"role":"assistant","content":"two"},{"role":"user","content":"three"}]}"#,
    );
    let message = build_message(&whole);
    let one = message.find("USER: one").unwrap();
    let two = message.find("ASSISTANT: two").unwrap();
    let three = message.find("USER: three").unwrap();
    assert!(one < two && two < three);
}

#[test]
fn prompts_list_every_tool() {
    let tools = vec![json(r#"{"name":"bash"}"#), json(r#"{"name":"read"}"#)];
    let prompt = build_prompt("hello".to_string(), &tools);
    assert!(prompt.starts_with("hello"));
    assert!(prompt.contains(r#"[{"name":"bash"},{"name":"read"}]"#));
}

#[test]
fn messages_list_every_declared_tool() {
    let v = json(
        r#"{"messages":[{"role":"user","content":"hi"}],"tools":[
            {"function":{"name":"bash","description":"run","parameters":{}}},
            {"function":{"name":"read_file"}},
            {"name":"own"},
            {"description":"nameless"}
        ]}"#,
    );
    let message = build_message(&v);
    for name in ["bash", "read_file", "own"] {
        assert!(message.contains(name));
    }
    let list = json_string(&Json::Array(parse_tools(&v)));
    assert!(message.contains(&list));
    assert_eq!(message.matches(list.as_str()).count(), 1);
    let bare = json(r#"{"messages":[{"role":"user","content":"hi"}],"tools":[{"x":1}]}"#);
    assert!(!build_message(&bare).contains("Available Tools ("));
}

#[test]
fn later_members_replace_earlier_ones() {
    let twice = Json::object().with("a", Json::text("old")).with("b", Json::Null).with(
        "a",
        Json::single(Json::text("new")),
    );
    assert_eq!(json_string(&twice), r#"{"a":["new"],"b":null}"#);
}
