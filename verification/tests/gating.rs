use qwen_proxy::constants::{
    env_flag, qwen_upstream_model, strict_tool_validation, tool_pass_through, tool_synthetic_ok,
};
use qwen_proxy::detect::{detect_tools, ToolCall};
use qwen_proxy::gate::{
    build_synthetic_tool_ok_feedback, validate_tool_calls, validate_tool_calls_with_flags,
    FirstSettings, GateSettings, ToolGateResult,
};
use qwen_proxy::json::{parse_json, Json};
use qwen_proxy::names::{is_tool_name_allowed, normalize_tool_name};

fn json(text: &str) -> Json {
    parse_json(text).unwrap()
}

fn tool(name: &str) -> Json {
    Json::object()
        .with("name", Json::text(name))
        .with("description", Json::text(""))
        .with("parameters", Json::object())
}

fn call(name: &str) -> ToolCall {
    ToolCall { name: name.to_string(), args: Json::object() }
}

fn unset() -> GateSettings {
    GateSettings { strict_tool_validation: None, tool_pass_through: None, tool_synthetic_ok: None }
}

#[test]
fn test_default_pass_through_emits_unknown_tool_to_client() {
    let text = r#"```json
{"tool":"cursor_bash_run","args":{"cmd":"whoami"}}
```"#;
    let tools = vec![tool("read_file"), tool("write_file")];
    let tcs = detect_tools(text, &tools);
    assert_eq!(tcs.len(), 1);
    match validate_tool_calls(tcs, &tools, &unset()) {
        ToolGateResult::Emit { emit, .. } => assert_eq!(emit[0].name, "cursor_bash_run"),
        ToolGateResult::Blocked(_) => panic!("default pass-through should emit unknown tools"),
    }
}

#[test]
fn test_strict_mode_blocks_unknown_when_pass_through_disabled() {
    let text = r#"```json
{"tool":"cursor_bash_run","args":{"cmd":"whoami"}}
```"#;
    let tools = vec![tool("read_file"), tool("write_file")];
    let tcs = detect_tools(text, &tools);
    let gate = validate_tool_calls_with_flags(tcs, &tools, true, false, false);
    assert!(matches!(gate, ToolGateResult::Blocked(_)));
}

#[test]
fn test_normalize_tool_name_strips_common_agent_prefixes_suffixes() {
    assert_eq!(normalize_tool_name("Get_Terminal_Output"), "terminal_output");
    assert_eq!(normalize_tool_name("bash_run"), "run");
    assert_eq!(normalize_tool_name("execute_command"), "command");
    assert_eq!(normalize_tool_name("cursor_foo_tool"), "foo");
    assert_eq!(normalize_tool_name("api__call"), "call");
    assert_eq!(normalize_tool_name("foo"), "foo");
    assert_eq!(normalize_tool_name("  Run_Bash_Cmd  "), "bash");
    assert_eq!(normalize_tool_name("write_file"), "write_file");
}

#[test]
fn test_adversarial_validate_with_normalization_accepts_prefixed_and_emits_canonical() {
    let allowed = vec![tool("foo"), tool("terminal")];
    let bad_prefixed = vec![call("get_foo"), call("bash_terminal"), call("unknown_weird")];
    let res = validate_tool_calls_with_flags(bad_prefixed, &allowed, true, false, false);
    assert!(
        matches!(res, ToolGateResult::Blocked(_)),
        "unknown must still be rejected even with norm"
    );
    let text = r#"```json
{"tool":"get_foo","args":{}}
{"tool":"bash_terminal","args":{}}
```"#;
    let tcs = detect_tools(text, &allowed);
    assert_eq!(tcs.len(), 2);
    let names: Vec<_> = tcs.iter().map(|t| t.name.as_str()).collect();
    assert!(names.contains(&"get_foo"));
    assert!(names.contains(&"bash_terminal"));
}

#[test]
fn test_full_detect_validate_norm_roundtrip_blocks_true_unknowns() {
    let allowed = vec![tool("ls")];
    let text = r#"```json
{"tool":"bash_ls","args":{"cmd":"."}}
```"#;
    let raw = detect_tools(text, &allowed);
    assert_eq!(raw.len(), 1);
    assert_eq!(raw[0].name, "bash_ls");
    let validated = validate_tool_calls_with_flags(raw, &allowed, true, false, false);
    match validated {
        ToolGateResult::Emit { emit, .. } => {
            assert_eq!(emit.len(), 1);
            assert_eq!(emit[0].name, "ls");
        }
        ToolGateResult::Blocked(bads) => {
            panic!("expected 1 good via norm, got blocked {:?}", bads)
        }
    }
}

#[test]
fn test_adversarial_validate_blocks_20_weird_invented_names_including_cursor_like() {
    let allowed = vec![
        tool("read_file"),
        tool("write_file"),
        tool("list_dir"),
        tool("run_terminal"),
        tool("search"),
    ];
    let mixed = || {
        vec![
            call("read_file"),
            call("get_terminal_output"),
            call("bash_run"),
            call("execute_command"),
            call("cursor_get_output"),
            call("run_bash"),
            call("tool_foo"),
            call("api__call"),
            call("X7y9Z"),
            call("Get_File"),
            call("WRITE_FILE_TOOL"),
            call("listdir_cmd"),
            call("search_op"),
            call("cursor_write"),
            call("bash_list_dir"),
            call("run_foo_bar"),
            call("execute_ls"),
            call("tool_unknown_1"),
            call("weird__name__here"),
            call("API_SEARCH_V2"),
            call("run_terminal"),
            call("search"),
        ]
    };
    let res = validate_tool_calls_with_flags(mixed(), &allowed, true, false, false);
    match res {
        ToolGateResult::Blocked(bads) => {
            for b in &bads {
                assert!(
                    !["read_file", "write_file", "list_dir", "run_terminal", "search"]
                        .contains(&b.as_str()),
                    "good name leaked to bad list: {}",
                    b
                );
            }
            assert!(!bads.is_empty(), "should have detected some hallucinations");
        }
        ToolGateResult::Emit { .. } => {
            panic!("expected Blocked for unknowns in list under strict mode");
        }
    }

    let pass = validate_tool_calls_with_flags(mixed(), &allowed, true, true, false);
    match pass {
        ToolGateResult::Emit { emit, synthetic_feedback } => {
            assert!(synthetic_feedback.is_empty());
            let names: Vec<_> = emit.iter().map(|t| t.name.as_str()).collect();
            assert!(names.contains(&"get_terminal_output"));
            assert!(names.contains(&"read_file"));
        }
        ToolGateResult::Blocked(_) => panic!("pass-through should not block"),
    }

    let syn = validate_tool_calls_with_flags(mixed(), &allowed, true, false, true);
    match syn {
        ToolGateResult::Emit { emit, synthetic_feedback } => {
            assert!(!synthetic_feedback.is_empty());
            assert!(synthetic_feedback[0].contains("TOOL RESULT: OK"));
            assert!(!emit.iter().any(|t| t.name == "get_terminal_output"));
            assert!(emit.iter().any(|t| t.name == "read_file"));
        }
        ToolGateResult::Blocked(_) => panic!("synthetic_ok should not block"),
    }

    let only_goods = vec![call("read_file"), call("bash_search")];
    let ok_res = validate_tool_calls_with_flags(only_goods, &allowed, true, false, false);
    match ok_res {
        ToolGateResult::Emit { emit, .. } => {
            let emitted: Vec<_> = emit.iter().map(|t| t.name.clone()).collect();
            assert!(emitted.contains(&"read_file".to_string()));
            assert!(emitted.contains(&"search".to_string()));
        }
        ToolGateResult::Blocked(_) => panic!("expected emit for good-only list"),
    }
}

#[test]
fn test_upstream_model_upgrades_qwen36_aliases_to_37_max() {
    assert_eq!(qwen_upstream_model(None, Some("qwen3.6-plus")), "qwen3.7-max");
    assert_eq!(qwen_upstream_model(None, Some("qwen3.7-max-preview")), "qwen3.7-max-preview");
    assert_eq!(qwen_upstream_model(None, Some("qwen3.7-max")), "qwen3.7-max");
}

#[test]
fn upstream_model_follows_environment_then_client() {
    assert_eq!(qwen_upstream_model(Some("other"), Some("qwen3.7-x")), "other");
    assert_eq!(qwen_upstream_model(Some(""), Some("qwen3.7-x")), "qwen3.7-x");
    assert_eq!(qwen_upstream_model(None, Some("gpt-4o")), "qwen3.7-max");
    assert_eq!(qwen_upstream_model(None, Some("qwen3")), "qwen3.7-max");
    assert_eq!(qwen_upstream_model(None, None), "qwen3.7-max");
}

#[test]
fn flags_read_their_environment() {
    assert!(env_flag(None, true) && !env_flag(None, false));
    for off in ["false", "FALSE", "0", "No"] {
        assert!(!env_flag(Some(off), true));
    }
    for on in ["", "true", "1", "off", "00"] {
        assert!(env_flag(Some(on), false));
    }
    assert!(strict_tool_validation(None) && tool_pass_through(None) && !tool_synthetic_ok(None));
    assert!(tool_synthetic_ok(Some("yes")) && !tool_pass_through(Some("no")));
}

#[test]
fn listed_names_are_kept_and_similar_ones_mapped() {
    let allowed: Vec<String> = ["Bash", "get_file", "file"].iter().map(|s| s.to_string()).collect();
    assert_eq!(is_tool_name_allowed("Bash", &allowed), Some("Bash".to_string()));
    assert_eq!(is_tool_name_allowed("BASH", &allowed), Some("Bash".to_string()));
    assert_eq!(is_tool_name_allowed("file", &allowed), Some("file".to_string()));
    assert_eq!(is_tool_name_allowed("run_file_tool", &allowed), Some("get_file".to_string()));
    assert_eq!(is_tool_name_allowed("other", &allowed), None);
    assert_eq!(is_tool_name_allowed("other", &vec![]), Some("other".to_string()));
    assert_eq!(normalize_tool_name("ÄPFEL_op"), "äpfel");
}

#[test]
fn pass_through_puts_unknown_calls_last() {
    let allowed = vec![tool("a"), Json::text("no tool"), Json::object()];
    let list = vec![call("x"), call("a"), call("y")];
    match validate_tool_calls_with_flags(list, &allowed, true, true, true) {
        ToolGateResult::Emit { emit, synthetic_feedback } => {
            let names: Vec<&str> = emit.iter().map(|t| t.name.as_str()).collect();
            assert_eq!(names, vec!["a", "x", "y"]);
            assert_eq!(synthetic_feedback.len(), 2);
        }
        ToolGateResult::Blocked(_) => panic!("pass-through should not block"),
    }
}

#[test]
fn unknown_calls_are_dropped_when_nothing_else_is_set() {
    let list = vec![call("x"), call("a")];
    match validate_tool_calls_with_flags(list, &vec![tool("a")], false, false, false) {
        ToolGateResult::Emit { emit, synthetic_feedback } => {
            assert_eq!(emit.len(), 1);
            assert_eq!(emit[0].name, "a");
            assert!(synthetic_feedback.is_empty());
        }
        ToolGateResult::Blocked(_) => panic!("only strict validation blocks"),
    }
}

#[test]
fn settings_reach_the_gate() {
    let mut settings = unset();
    settings.tool_pass_through = Some("false".to_string());
    match validate_tool_calls(vec![call("x"), call("y")], &vec![tool("a")], &settings) {
        ToolGateResult::Blocked(names) => assert_eq!(names, vec!["x", "y"]),
        ToolGateResult::Emit { .. } => panic!("validation is strict by default"),
    }
    settings.tool_synthetic_ok = Some("1".to_string());
    match validate_tool_calls(vec![call("x")], &vec![tool("a")], &settings) {
        ToolGateResult::Emit { emit, synthetic_feedback } => {
            assert!(emit.is_empty());
            assert_eq!(synthetic_feedback.len(), 1);
        }
        ToolGateResult::Blocked(_) => panic!("synthetic success does not block"),
    }
}

#[test]
fn synthetic_success_reads_like_a_result() {
    let tc = ToolCall { name: "x".to_string(), args: json(r#"{"b":[1],"a":"é"}"#) };
    assert_eq!(
        build_synthetic_tool_ok_feedback(&tc),
        "TOOL RESULT: OK — proxy executed tool \"x\" successfully (synthetic; name was not in the client's tools list). Result: {\"ok\":true,\"args\":{\"a\":\"é\",\"b\":[1]}}"
    );
}

#[test]
fn settings_are_read_once() {
    let mut first = FirstSettings::new();
    let read = GateSettings {
        strict_tool_validation: None,
        tool_pass_through: Some("No".to_string()),
        tool_synthetic_ok: Some("1".to_string()),
    };
    for later in [read, unset()] {
        let settings = first.settings(later);
        assert_eq!(settings.strict_tool_validation, None);
        assert_eq!(settings.tool_pass_through.as_deref(), Some("No"));
        assert_eq!(settings.tool_synthetic_ok.as_deref(), Some("1"));
    }
    let mut none = FirstSettings::new();
    assert_eq!(none.settings(unset()).tool_pass_through, None);
}

#[test]
fn case_and_blanks_do_not_matter_in_names() {
    for name in ["read_file", "Get_Weather_Tool", " ls ", "__x__", "", "_", "api_cmd"] {
        let normal = normalize_tool_name(name);
        assert_eq!(normalize_tool_name(&format!(" {} ", name.to_uppercase())), normal);
        assert_eq!(normalize_tool_name(&format!("\n\u{a0}{}\t", name.to_lowercase())), normal);
        assert!(!normal.starts_with('_') && !normal.ends_with('_'));
        assert!(normal.chars().all(|c| !c.is_ascii_uppercase()));
    }
    assert_eq!(normalize_tool_name(" GET_Weather_TOOL\t"), "weather");
}
