use qwen_proxy::json::{json_string, parse_json, Json};
use qwen_proxy::truncate::truncate_for_context_limit;

fn json(text: &str) -> Json {
    parse_json(text).unwrap()
}

fn message(role: &str, content: &str) -> Json {
    Json::object().with("role", Json::text(role)).with("content", Json::text(content))
}

#[test]
fn test_truncate_preserves_system_message() {
    let mut v = json(
        r#"{"messages": [
            {"role": "system", "content": "You are a helpful assistant."},
            {"role": "user", "content": "Hello"},
            {"role": "assistant", "content": "Hi there!"}
        ]}"#,
    );
    let changed = truncate_for_context_limit(&mut v, 100);
    assert!(changed, "should truncate when under limit");
    let msgs = v.array_at("messages").unwrap();
    assert!(msgs[0].str_at("role") == Some("system"), "system message must be preserved");
    assert!(
        msgs[0].str_at("content") == Some("You are a helpful assistant."),
        "system content must not change"
    );
}

#[test]
fn test_truncate_keeps_recent_messages() {
    let mut list = vec![message("system", "You are helpful.")];
    for i in 0..50 {
        list.push(message("user", &format!("message {}", i)));
    }
    let mut v = Json::object().with("messages", Json::Array(list));
    let before = v.array_at("messages").unwrap().len();
    truncate_for_context_limit(&mut v, 500);
    let after = v.array_at("messages").unwrap().len();
    assert!(after < before, "should have removed messages: {} -> {}", before, after);
    assert!(
        v.array_at("messages")
            .unwrap()
            .last()
            .map(|m| m.str_at("content").unwrap().contains("49"))
            .unwrap_or(false),
        "most recent messages should be kept"
    );
}

#[test]
fn test_truncate_under_limit_does_nothing() {
    let mut v = json(
        r#"{"messages": [
            {"role": "user", "content": "hi"},
            {"role": "assistant", "content": "hello"}
        ]}"#,
    );
    let result = truncate_for_context_limit(&mut v, 10_000);
    assert!(!result, "should not truncate when under limit");
    assert_eq!(v.array_at("messages").unwrap().len(), 2);
}

#[test]
fn test_truncate_handles_both_messages_and_input_fields() {
    let mut v = json(
        r#"{"input": [
            {"role": "system", "content": "system prompt"},
            {"role": "user", "content": "long message"}
        ]}"#,
    );
    let result = truncate_for_context_limit(&mut v, 200);
    assert!(!result, "small input should not truncate");
    assert_eq!(v.array_at("input").unwrap().len(), 2);
}

#[test]
fn test_truncate_only_system_message_preserved() {
    let mut v = json(
        r#"{"messages": [
            {"role": "system", "content": "You are a helpful assistant."},
            {"role": "user", "content": "msg1"},
            {"role": "assistant", "content": "msg2"},
            {"role": "user", "content": "msg3"}
        ]}"#,
    );
    truncate_for_context_limit(&mut v, 500);
    let msgs = v.array_at("messages").unwrap();
    assert!(
        !msgs.is_empty() && msgs[0].str_at("role") == Some("system"),
        "system message should always be at index 0"
    );
    assert!(msgs.len() < 5, "non-system messages should have been removed");
}

fn contents(v: &Json, field: &str) -> Vec<String> {
    v.array_at(field).unwrap().iter().map(|m| m.str_at("content").unwrap().to_string()).collect()
}

#[test]
fn all_leading_system_messages_stay() {
    let mut list = vec![message("system", "A"), message("system", "B"), message("system", "C")];
    for i in 0..30 {
        list.push(message("user", &format!("{}", i)));
    }
    let mut v = Json::object().with("input", Json::Array(list));
    assert!(truncate_for_context_limit(&mut v, 10));
    assert_eq!(contents(&v, "input"), vec!["A", "B", "C", "29"]);
}

#[test]
fn the_oldest_messages_go_first() {
    let mut list = vec![];
    for i in 0..30 {
        list.push(message("user", &format!("{}", i)));
    }
    let one = json_string(&message("user", "10")).len() + 1;
    let mut v = Json::object().with("messages", Json::Array(list));
    assert!(truncate_for_context_limit(&mut v, 10 * one));
    let kept: Vec<String> = (22..30).map(|i| format!("{}", i)).collect();
    assert_eq!(contents(&v, "messages"), kept);
}

#[test]
fn at_most_twenty_recent_messages_stay() {
    let mut list = vec![message("system", "S")];
    for i in 0..25 {
        list.push(message("user", &format!("{}", i)));
    }
    list.push(message("user", &"x".repeat(100)));
    let len = json_string(&Json::Array(list.clone())).len();
    let mut v = Json::object().with("messages", Json::Array(list));
    assert!(truncate_for_context_limit(&mut v, len - 4));
    let kept = contents(&v, "messages");
    assert_eq!(kept.len(), 21);
    assert_eq!(kept[0], "S");
    assert_eq!(kept[1], "6");
}

#[test]
fn any_overrun_is_cut() {
    let list = vec![message("system", "A"), message("user", "aaaaa"), message("user", "bbbbb")];
    assert_eq!(json_string(&Json::Array(list.clone())).len(), 101);
    let mut v = Json::object().with("messages", Json::Array(list));
    assert!(!truncate_for_context_limit(&mut v, 101));
    assert_eq!(contents(&v, "messages"), vec!["A", "aaaaa", "bbbbb"]);
    assert!(truncate_for_context_limit(&mut v, 100));
    assert_eq!(contents(&v, "messages"), vec!["A", "bbbbb"]);
}

#[test]
fn system_only_histories_stay() {
    let mut systems = Json::object().with(
        "messages",
        Json::Array(vec![message("system", "A"), message("system", "B"), message("system", "C")]),
    );
    assert!(!truncate_for_context_limit(&mut systems, 3));
    assert_eq!(contents(&systems, "messages"), vec!["A", "B", "C"]);
    let mut none = json(r#"{"messages":[],"input":3}"#);
    assert!(!truncate_for_context_limit(&mut none, 0));
    assert_eq!(json_string(&none), r#"{"input":3,"messages":[]}"#);
}

#[test]
fn one_run_of_messages_is_dropped() {
    let mut list = vec![message("system", "rules"), message("system", "more rules")];
    for i in 0..30 {
        list.push(message("user", &format!("message {}", i)));
    }
    let all: Vec<String> =
        list.iter().map(|m| m.str_at("content").unwrap().to_string()).collect();
    let mut v = Json::object().with("messages", Json::Array(list));
    assert!(truncate_for_context_limit(&mut v, 600));
    let left = contents(&v, "messages");
    assert!(left.len() > 3 && left.len() < all.len());
    assert_eq!(left[..2], all[..2]);
    assert_eq!(left[2..], all[all.len() - (left.len() - 2)..]);
}
