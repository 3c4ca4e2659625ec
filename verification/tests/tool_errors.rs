use qwen_proxy::json::{json_string, parse_json};
use qwen_proxy::tool_error::{
    build_synthetic_tool_ok_feedback_for_name, build_tool_hallucination_feedback,
    checked_tool_error, construct_tool_error_json, detect_qwen_tool_error,
    extract_tool_name_from_error,
};

#[test]
fn test_normalize_feedback_message_format() {
    let bad_names = vec!["get_terminal_output".to_string(), "bash_run".to_string()];
    let fb = build_tool_hallucination_feedback(&bad_names);
    assert!(fb.contains("TOOL RESULT: ERROR"));
    assert!(fb.contains("get_terminal_output"));
    assert!(fb.contains("bash_run"));
    assert_eq!(
        fb,
        format!(
            "TOOL RESULT: ERROR: You attempted to call tool(s) {:?} which are not in the Available Tools list. Only use exact names from the list the client provided. Retry with a valid tool or respond in plain text without a tool call.",
            bad_names
        )
    );
}

#[test]
fn test_detect_qwen_tool_error_true_positives() {
    assert!(
        detect_qwen_tool_error("Tool bash does not exist.").is_some(),
        "capital-T 'Tool' + 'does not exist' should detect"
    );
    assert!(
        detect_qwen_tool_error("Tool search does not exists.").is_some(),
        "'does not exists' (typo) should detect"
    );
    assert!(
        detect_qwen_tool_error("Tool get_file does not exist").is_some(),
        "without trailing period should detect"
    );
    assert!(
        detect_qwen_tool_error("Tool web_search cannot use").is_some(),
        "'cannot use' + nearby 'tool' should detect"
    );
    assert!(
        detect_qwen_tool_error("I can't use that tool here.").is_some(),
        "'can't use' + nearby 'tool' should detect"
    );
    assert!(
        detect_qwen_tool_error("Unable to use tool provided.").is_some(),
        "'unable to use' + nearby 'tool' should detect"
    );
    assert!(
        detect_qwen_tool_error("tool not found").is_some(),
        "'tool not found' should detect"
    );
    assert!(
        detect_qwen_tool_error("tool_not_found in your request").is_some(),
        "'tool_not_found' should detect"
    );
}

#[test]
fn test_detect_qwen_tool_error_false_positives() {
    assert!(
        detect_qwen_tool_error("I'm sorry, I cannot use informal language.").is_none(),
        "'cannot use' without 'tool' nearby should not trigger"
    );
    assert!(
        detect_qwen_tool_error("I can't use that feature.").is_none(),
        "'can't use' without 'tool' should not trigger"
    );
    assert!(
        detect_qwen_tool_error("tool calling is disabled").is_none(),
        "'tool' without the specific phrases should not trigger"
    );
    assert!(
        detect_qwen_tool_error("which tool do you mean?").is_none(),
        "'tool' without error phrases should not trigger"
    );
    assert!(
        detect_qwen_tool_error("Use the search tool.").is_none(),
        "benign 'tool' usage should not trigger"
    );
    assert!(
        detect_qwen_tool_error("tool does not appear in the list").is_none(),
        "'tool' + 'does not' but not 'Tool ' prefix should not trigger"
    );
    assert!(
        detect_qwen_tool_error("I'm unable to help with that.").is_none(),
        "'unable' without 'use tool' should not trigger"
    );
    assert!(
        detect_qwen_tool_error("the tool was not found in the map").is_none(),
        "'tool' + 'not found' but not the exact phrases should not trigger"
    );
}

#[test]
fn test_detect_qwen_tool_error_max_length_guard() {
    let long = "x".repeat(301);
    assert!(
        detect_qwen_tool_error(&long).is_none(),
        "text over 300 chars should not be scanned"
    );
    let exactly_300 = "x".repeat(300);
    assert!(
        detect_qwen_tool_error(&exactly_300).is_none(),
        "text at 300 chars should not be scanned"
    );
    let short_tool_error = format!("Tool bash does not exist.{}", "x".repeat(280));
    assert!(
        detect_qwen_tool_error(&short_tool_error).is_none(),
        "tool error format but over 300 chars should be rejected"
    );
}

#[test]
fn test_detect_qwen_tool_error_truncation() {
    let long_msg = "Tool mytool does not exist. Additional context about why.";
    let result = detect_qwen_tool_error(long_msg);
    assert!(result.is_some());
    let extracted = result.unwrap();
    assert!(
        !extracted.contains("Additional context"),
        "should truncate at first period"
    );
    assert!(extracted.ends_with("does not exist"));
}

#[test]
fn test_detect_qwen_tool_error_chinese_not_triggered() {
    assert!(
        detect_qwen_tool_error("抱歉，无法使用该工具").is_none(),
        "Chinese text should not trigger tool error detection"
    );
    assert!(
        detect_qwen_tool_error("对不起，这个工具不能使用").is_none(),
        "Chinese with 'use' and 'tool' should not trigger (not English)"
    );
}

#[test]
fn test_detect_qwen_tool_error_empty() {
    assert!(detect_qwen_tool_error("").is_none(), "empty string returns None");
}

#[test]
fn a_missing_tool_is_reported_where_it_starts_a_sentence() {
    assert_eq!(
        detect_qwen_tool_error("Sorry.  Tool x does not exist"),
        Some("Sorry".to_string())
    );
    assert_eq!(
        detect_qwen_tool_error("Tool x does not exist"),
        Some("Tool x does not exist".to_string())
    );
    assert_eq!(detect_qwen_tool_error("The Tool x does not exist"), None);
    assert!(detect_qwen_tool_error("Oh!\nTool x does not exist").is_some());
}

#[test]
fn a_refusal_needs_the_tool_nearby() {
    let far = format!("I cannot use {} tool", "x".repeat(30));
    assert_eq!(detect_qwen_tool_error(&far), None);
    let near = format!("I cannot use {} tool", "x".repeat(24));
    assert!(detect_qwen_tool_error(&near).is_some());
    let before = format!("tool {} cannot use", "x".repeat(24));
    assert!(detect_qwen_tool_error(&before).is_some());
    assert!(detect_qwen_tool_error("I CANNOT USE the TOOL").is_some());
}

#[test]
fn long_reports_are_cut_off() {
    let long = format!("tool not found {}", "x".repeat(250));
    let report = detect_qwen_tool_error(&long).unwrap();
    assert_eq!(report.len(), 200);
    assert!(report.starts_with("tool not found xxx"));
    let dotted = format!("tool not found {}. rest", "x".repeat(240));
    assert_eq!(detect_qwen_tool_error(&dotted).unwrap().len(), 255);
    let split = format!("tool not found {}é{}", "x".repeat(184), "x".repeat(20));
    assert!(checked_tool_error(&split).is_none());
    let whole = format!("tool not found {}é{}", "x".repeat(185), "x".repeat(20));
    assert_eq!(checked_tool_error(&whole).unwrap().unwrap().len(), 200);
}

#[test]
fn the_tool_of_an_error_is_named() {
    assert_eq!(extract_tool_name_from_error("Tool web search does not exist"), "web search");
    assert_eq!(extract_tool_name_from_error("Tool x does not exists"), "x");
    assert_eq!(extract_tool_name_from_error("Tool does not  exist. grep"), "grep");
    assert_eq!(extract_tool_name_from_error("tool not found"), "tool");
    assert_eq!(extract_tool_name_from_error("Tool . does not exist"), ".");
    assert_eq!(extract_tool_name_from_error("not exists."), "unknown_tool");
    assert_eq!(extract_tool_name_from_error(""), "unknown_tool");
}

#[test]
fn the_model_is_asked_to_pretend() {
    assert_eq!(
        build_synthetic_tool_ok_feedback_for_name("any"),
        "ok pretend it does exist and call it properly anyway"
    );
}

#[test]
fn refused_tools_are_listed_for_the_client() {
    let tools = vec![parse_json(r#"{"name":"a"}"#).unwrap()];
    let body = construct_tool_error_json(&vec!["x".to_string(), "y".to_string()], &tools);
    assert_eq!(
        json_string(&body),
        r#"{"error":{"available_tools":[{"name":"a"}],"message":"Invalid tool call(s): x, y. Only use exact names from the client's Available Tools list.","type":"invalid_request_error"}}"#
    );
}

#[test]
fn quoted_names_are_escaped_in_feedback() {
    let fb = build_tool_hallucination_feedback(&vec!["a\"b".to_string()]);
    assert!(fb.contains("[\"a\\\"b\"]"));
    let none = build_tool_hallucination_feedback(&vec![]);
    assert!(none.contains("tool(s) [] which"));
}
