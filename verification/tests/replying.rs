use qwen_proxy::detect::ToolCall;
use qwen_proxy::gate::GateSettings;
use qwen_proxy::json::{parse_json, Json};
use qwen_proxy::reply::{
    after_recovery, answer_now, plan_reply, write_answer, Answer, Plan, ReplyHead, Step,
};
use qwen_proxy::sse::ContinuationResponse;

fn json(text: &str) -> Json {
    parse_json(text).unwrap()
}

fn head(responses_api: bool) -> ReplyHead {
    ReplyHead {
        id: "chatcmpl-1".to_string(),
        model: "m".to_string(),
        created: 9,
        prompt_tokens: 10,
        responses_api,
    }
}

fn settings(pass_through: &str, synthetic: &str) -> GateSettings {
    GateSettings {
        strict_tool_validation: None,
        tool_pass_through: Some(pass_through.to_string()),
        tool_synthetic_ok: Some(synthetic.to_string()),
    }
}

fn tools() -> Vec<Json> {
    vec![json(r#"{"name":"ls"}"#)]
}

fn event(content: &str) -> String {
    let value = Json::object().with(
        "choices",
        Json::single(Json::object().with("delta", Json::object().with("content", Json::text(content)))),
    );
    format!("data: {}\n", qwen_proxy::json::json_string(&value))
}

fn plan(status: u16, body: &str, tools: &Vec<Json>, pass: &str, synthetic: &str) -> Plan {
    plan_reply(status, body, tools, None, &settings(pass, synthetic)).unwrap()
}

fn reply_of(plan: Plan) -> (u16, Json, Vec<String>) {
    match plan.step {
        Step::Answer { feedback, answer: Answer::Reply(reply) } => {
            (reply.status, json(&reply.body), feedback)
        }
        other => panic!("{:?}", other),
    }
}

fn error_message(body: &Json) -> String {
    body.get("error").unwrap().str_at("message").unwrap().to_string()
}

#[test]
fn failures_upstream_are_reported() {
    let (status, body, _) = reply_of(plan(429, "", &tools(), "1", "0"));
    assert_eq!(status, 500);
    assert_eq!(
        error_message(&body),
        "Qwen chat is busy (another message in flight on this chat_id)"
    );
    let (_, body, _) = reply_of(plan(400, "still in progress", &tools(), "1", "0"));
    assert!(error_message(&body).starts_with("Qwen chat is busy"));
    let (_, body, _) = reply_of(plan(503, "x", &tools(), "1", "0"));
    assert_eq!(error_message(&body), "Qwen API returned 503");
    let limited = r#"{"success":false,"data":{"details":"slow down"}}"#;
    let (status, body, _) = reply_of(plan(200, limited, &tools(), "1", "0"));
    assert_eq!(status, 429);
    assert_eq!(
        body,
        json(r#"{"error":{"message":"slow down","type":"rate_limit_exceeded","code":"rate_limit"}}"#)
    );
}

#[test]
fn text_is_answered_with_text() {
    let body = format!("{}{}data: {{\"response_id\":\"r\"}}\n", event("Hello "), event("you"));
    let planned = plan(200, &body, &vec![], "1", "0");
    assert_eq!(planned.parent_id, Some("r".to_string()));
    match planned.step {
        Step::Answer { feedback, answer: Answer::Text { content, tokens } } => {
            assert!(feedback.is_empty());
            assert_eq!((content.as_str(), tokens), ("Hello you", 2));
            let reply =
                write_answer(&head(true), Answer::Text { content, tokens }, &vec!["i".to_string()]);
            assert_eq!(
                json(&reply.body),
                json(r#"{"id":"chatcmpl-1","object":"response","created_at":9,"model":"m","output":[{"id":"msg_i","type":"message","role":"assistant","content":[{"type":"output_text","text":"Hello you","annotations":[]}]}],"usage":{"input_tokens":10,"output_tokens":2,"total_tokens":12}}"#)
            );
        }
        other => panic!("{:?}", other),
    }
}

#[test]
fn calls_are_answered_with_calls() {
    let body = event("```json\n{\"tool\":\"run_ls\",\"args\":{\"p\":1}}\n```");
    match plan(200, &body, &tools(), "0", "0").step {
        Step::Answer { feedback, answer } => {
            assert!(feedback.is_empty());
            let ids = vec!["i".to_string(), "j".to_string()];
            match &answer {
                Answer::Calls { calls, chat_form, tokens } => {
                    assert_eq!(calls[0].name, "ls");
                    assert!(!*chat_form);
                    assert_eq!(*tokens, 11);
                }
                other => panic!("{:?}", other),
            }
            let chat = write_answer(&head(false), copy(&answer), &ids);
            assert_eq!(
                json(&chat.body).array_at("choices").unwrap()[0],
                json(r#"{"index":0,"message":{"role":"assistant","content":null,"tool_calls":[{"index":0,"id":"call_i","type":"function","function":{"name":"ls","arguments":"{\"p\":1}"}}]},"finish_reason":"tool_calls"}"#)
            );
            let response = write_answer(&head(true), answer, &ids);
            assert_eq!(
                json(&response.body).array_at("output").unwrap()[0],
                json(r#"{"type":"function_call","id":"call_i","call_id":"call_j","name":"ls","arguments":"{\"p\":1}"}"#)
            );
        }
        other => panic!("{:?}", other),
    }
}

fn copy(answer: &Answer) -> Answer {
    match answer {
        Answer::Calls { calls, tokens, chat_form } => {
            Answer::Calls { calls: calls.clone(), tokens: *tokens, chat_form: *chat_form }
        }
        other => panic!("{:?}", other),
    }
}

#[test]
fn unknown_tools_are_refused_with_the_list() {
    let body = event("{\"tool\":\"rm\",\"args\":{}}");
    let (status, body, feedback) = reply_of(plan(200, &body, &tools(), "0", "0"));
    assert_eq!(status, 400);
    assert_eq!(
        body,
        json(r#"{"error":{"message":"Invalid tool call(s): rm. Only use exact names from the client's Available Tools list.","type":"invalid_request_error","available_tools":[{"name":"ls"}]}}"#)
    );
    assert_eq!(feedback.len(), 1);
    assert!(feedback[0].starts_with("TOOL RESULT: ERROR: You attempted to call tool(s) [\"rm\"]"));
}

#[test]
fn unknown_tools_can_pass_or_seem_to_work() {
    let body = event("{\"tool\":\"rm\",\"args\":{}}");
    match plan(200, &body, &tools(), "1", "1").step {
        Step::Answer { feedback, answer: Answer::Calls { calls, .. } } => {
            assert_eq!(calls[0].name, "rm");
            assert_eq!(feedback.len(), 1);
        }
        other => panic!("{:?}", other),
    }
    match plan(200, &body, &tools(), "0", "1").step {
        Step::Answer { feedback, answer: Answer::Text { content, .. } } => {
            assert_eq!(content, "");
            assert_eq!(feedback.len(), 1);
        }
        other => panic!("{:?}", other),
    }
}

#[test]
fn raw_bodies_are_searched_where_no_text_came() {
    let raw = "{\"tool\":\"ls\",\"args\":{}}";
    match plan(200, raw, &tools(), "0", "0").step {
        Step::Answer { answer: Answer::Calls { calls, tokens, chat_form }, .. } => {
            assert_eq!(calls.len(), 1);
            assert_eq!(tokens, 0);
            assert!(chat_form);
        }
        other => panic!("{:?}", other),
    }
    let (status, body, _) =
        reply_of(plan(200, "Tool ls does not exist. Sorry", &tools(), "0", "0"));
    assert_eq!(status, 400);
    assert_eq!(error_message(&body), "Tool ls does not exist");
    match plan(200, "nothing", &tools(), "0", "0").step {
        Step::Answer { answer: Answer::Text { content, tokens }, .. } => {
            assert_eq!((content.as_str(), tokens), ("", 1));
        }
        other => panic!("{:?}", other),
    }
    let (status, _, feedback) =
        reply_of(plan(200, "{\"tool\":\"rm\",\"args\":{}}", &tools(), "0", "0"));
    assert_eq!((status, feedback.len()), (400, 1));
}

#[test]
fn tool_errors_are_recovered_from() {
    let body = event("Tool ls does not exist.");
    match plan(200, &body, &tools(), "0", "0").step {
        Step::Recover { message, error } => {
            assert_eq!(message, "ok pretend it does exist and call it properly anyway");
            assert_eq!(error, "Tool ls does not exist");
        }
        other => panic!("{:?}", other),
    }
    assert!(matches!(plan(200, &body, &vec![], "0", "0").step, Step::Answer { .. }));
    let said = Some(ContinuationResponse {
        new_parent_id: None,
        response_text: "fine now".to_string(),
    });
    let reply = after_recovery(&head(true), "e", &tools(), &said);
    assert_eq!(reply.status, 200);
    assert_eq!(
        json(&reply.body).array_at("choices").unwrap()[0],
        json(r#"{"index":0,"message":{"role":"assistant","content":"fine now"},"finish_reason":"stop"}"#)
    );
    let empty = Some(ContinuationResponse { new_parent_id: None, response_text: String::new() });
    for outcome in [empty, None] {
        let reply = after_recovery(&head(false), "e", &tools(), &outcome);
        assert_eq!(reply.status, 400);
        assert_eq!(
            json(&reply.body),
            json(r#"{"error":{"message":"e","type":"invalid_request_error","available_tools":[{"name":"ls"}]}}"#)
        );
    }
}

#[test]
fn reports_that_cannot_be_cut_have_no_plan() {
    let text = format!("tool not found {}é{}", "x".repeat(184), "x".repeat(20));
    assert!(plan_reply(200, &event(&text), &tools(), None, &settings("1", "0")).is_none());
    assert!(plan_reply(200, &event(&text), &vec![], None, &settings("1", "0")).is_some());
}

#[test]
fn formats_are_enforced() {
    let format = json(r#"{"type":"json_object"}"#);
    let planned =
        plan_reply(200, &event("no json"), &vec![], Some(&format), &settings("1", "0")).unwrap();
    let (status, body, _) = reply_of(planned);
    assert_eq!(status, 422);
    assert_eq!(
        body,
        json(r#"{"error":{"message":"Response is not valid JSON despite response_format. Got: no json","type":"invalid_response_error"}}"#)
    );
}

#[test]
fn answers_draw_ids_of_their_own() {
    let call = || ToolCall { name: "a".to_string(), args: Json::object() };
    let calls = Answer::Calls { calls: vec![call(), call()], tokens: 1, chat_form: false };
    let reply = answer_now(&head(true), calls);
    let body = json(&reply.body);
    let output = body.array_at("output").unwrap();
    let mut ids: Vec<&str> = vec![];
    for item in output {
        ids.push(item.str_at("id").unwrap());
        ids.push(item.str_at("call_id").unwrap());
    }
    for id in &ids {
        assert!(id.starts_with("call_") && id.len() == 41);
    }
    ids.sort();
    ids.dedup();
    assert_eq!(ids.len(), 4);
}
