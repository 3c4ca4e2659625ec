use qwen_proxy::streaming::{
    should_flush, stream_error_text, stream_of_answer, QwenSseStream, StreamStep,
};
use qwen_proxy::text::{lines, trim};

fn drain(stream: &mut QwenSseStream) -> Vec<String> {
    let mut out = vec![];
    loop {
        match stream.next() {
            StreamStep::Line(line) => out.push(line.raw),
            StreamStep::NeedBytes => {
                out.push("?".to_string());
                return out;
            }
            StreamStep::End => {
                out.push("!".to_string());
                return out;
            }
        }
    }
}

#[test]
fn lines_that_have_arrived_are_handed_out() {
    let mut stream =
        QwenSseStream::from_lines("id".to_string(), vec!["a".to_string(), "".to_string()]);
    match stream.next() {
        StreamStep::Line(line) => assert_eq!((line.raw, line.request_id), ("a".to_string(), "id".to_string())),
        other => panic!("{:?}", other),
    }
    assert_eq!(drain(&mut stream), vec!["", "!"]);
}

#[test]
fn bytes_are_cut_into_lines() {
    let mut stream = QwenSseStream::open("id".to_string());
    stream.feed(b"one\r\r\ntw");
    assert_eq!(drain(&mut stream), vec!["one", "?"]);
    stream.feed("o é\n\nrest".as_bytes());
    assert_eq!(drain(&mut stream), vec!["two é", "", "?"]);
    stream.finish();
    assert_eq!(drain(&mut stream), vec!["rest", "!"]);
}

#[test]
fn it_does_not_matter_how_text_is_cut() {
    let text = "a\r\nb\n\r\n\nc\rd\ne";
    for cut in 0..text.len() {
        let mut whole = QwenSseStream::open(String::new());
        whole.feed_text(text);
        let mut pieces = QwenSseStream::open(String::new());
        pieces.feed_text(&text[..cut]);
        pieces.feed_text(&text[cut..]);
        assert_eq!(drain(&mut whole), drain(&mut pieces));
    }
}

#[test]
fn broken_bytes_are_replaced() {
    let mut stream = QwenSseStream::open(String::new());
    stream.feed(b"a\xffb\n");
    assert_eq!(drain(&mut stream), vec!["a\u{FFFD}b", "?"]);
}

#[test]
fn answers_become_streams() {
    let mut stream = stream_of_answer(204, "id".to_string(), "x\r\ny").unwrap();
    assert_eq!(drain(&mut stream), vec!["x", "y", "!"]);
    let error = |status: u16, body: &str| stream_of_answer(status, String::new(), body).unwrap_err();
    assert_eq!(error(429, ""), "Qwen chat is busy (another message in flight)");
    assert_eq!(error(500, "chat is in progress"), "Qwen chat is busy (another message in flight)");
    assert_eq!(
        error(302, &"é".repeat(201)),
        format!("Qwen API returned 302: {}", "é".repeat(200))
    );
    assert_eq!(stream_error_text("e"), "Upstream stream error: e");
}

#[test]
fn large_buffers_are_flushed() {
    assert!(!should_flush(1023));
    assert!(should_flush(1024));
}

#[test]
fn text_helpers_agree_with_std() {
    for text in ["", "a", "a\n", "a\r\nb", "\n\n", "a\rb", "a\r\r\nb\n", " \u{2003}x\u{85} ", "\t"] {
        let expected: Vec<String> = text.lines().map(|l| l.to_string()).collect();
        assert_eq!(lines(text), expected);
        assert_eq!(trim(text), text.trim());
    }
}
