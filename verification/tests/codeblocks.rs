use qwen_proxy::patterns::{fenced_blocks, strip_json_codeblock};

#[test]
fn fences_are_undone() {
    for value in ["{\"a\":1}", "`", "``x``", "a `b` c", "[1,\n 2]", "json"] {
        assert_eq!(strip_json_codeblock(&format!("```json\n{}\n```", value)), value);
        assert_eq!(strip_json_codeblock(&format!("  {} \n", value)), value);
    }
    assert_eq!(strip_json_codeblock("```json\n{} ```"), "{}");
}

#[test]
fn what_is_stripped_stays() {
    for text in [
        "",
        " x ",
        "``` ```",
        "``````",
        "```````",
        "``````abc```",
        "```json```",
        "```json\n```\nx\n``` y",
        "a ```b``` c ```d```",
        "```\n ```json\n{} ``` ```",
    ] {
        let once = strip_json_codeblock(text);
        assert_eq!(strip_json_codeblock(&once), once, "{:?}", text);
    }
    assert_eq!(strip_json_codeblock("``````abc```"), "```abc");
}

#[test]
fn blocks_need_something_between_their_fences() {
    assert_eq!(fenced_blocks("``````").len(), 0);
    assert_eq!(fenced_blocks("```````"), vec!["`"]);
    assert_eq!(fenced_blocks("``` ```"), vec![" "]);
    assert_eq!(fenced_blocks("```json```"), vec!["json"]);
    assert_eq!(fenced_blocks("```a").len(), 0);
    assert_eq!(fenced_blocks("a ```b``` c ```json\nd``` e"), vec!["b", "d"]);
}
