//! Tool errors: those that the model reports, and those that it and the client are told of.
use vstd::prelude::*;
use vstd::utf8::*;

use crate::json;
use crate::json::{Json, JsonModel};
use crate::text;
use crate::text::{
    byte_slice, chars_of, contains, find_from, join, matches_at, same_text, strip_prefix, text_of,
};

verus! {

/// The longest text, in bytes, that is taken for a tool error.
pub const MAX_ERROR_LEN: usize = 300;

/// The longest report, in bytes, of a tool error without a full stop.
pub const MAX_REPORT_LEN: usize = 200;

/// How far, in characters, the word `tool` may stand from a refusal to use it.
pub const TOOL_DISTANCE: usize = 30;

/// A sentence starts at `at`: the text does, or only spaces stand between it and the end of a
/// sentence or of a line.
pub open spec fn sentence_starts(text: Seq<char>, at: int) -> bool
    decreases at,
{
    if at <= 0 || at > text.len() {
        at == 0
    } else if text[at - 1] == ' ' {
        sentence_starts(text, at - 1)
    } else {
        text[at - 1] == '.' || text[at - 1] == '!' || text[at - 1] == '?' || text[at - 1] == '\n'
    }
}

/// The text says that a tool does not exist: a sentence starts with `Tool`.
pub open spec fn tool_missing(text: Seq<char>) -> bool {
    &&& exists|at: int| #[trigger] text::occurs_at(text, "Tool "@, at) && sentence_starts(text, at)
    &&& text::has_part(text, " does not exist"@)
}

/// A text with its ASCII letters in lower case.
pub open spec fn lowered(text: Seq<char>) -> Seq<char> {
    text.map_values(|c: char| text::ascii_lower(c))
}

/// What stands around a part that occurs at `at`, up to [`TOOL_DISTANCE`] away.
pub open spec fn around(text: Seq<char>, at: int, len: int) -> Seq<char> {
    let from = if at < TOOL_DISTANCE {
        0
    } else {
        at - TOOL_DISTANCE
    };
    let to = if at + len + TOOL_DISTANCE > text.len() {
        text.len() as int
    } else {
        at + len + TOOL_DISTANCE
    };
    text.subrange(from, to)
}

/// A phrase occurs with the word `tool` around it.
pub open spec fn near_tool(text: Seq<char>, phrase: Seq<char>) -> bool {
    exists|at: int| #[trigger]
        text::occurs_at(text, phrase, at) && text::has_part(
            around(text, at, phrase.len() as int),
            "tool"@,
        )
}

/// The text refuses to use a tool, in any case.
pub open spec fn tool_refused(text: Seq<char>) -> bool {
    let low = lowered(text);
    ||| near_tool(low, "cannot use"@)
    ||| near_tool(low, "can't use"@)
    ||| near_tool(low, "unable to use"@)
}

/// The text says in so many words that a tool was not found.
pub open spec fn tool_not_found(text: Seq<char>) -> bool {
    text::has_part(text, "tool not found"@) || text::has_part(text, "tool_not_found"@)
}

/// Where the first full stop stands.
pub open spec fn full_stop(text: Seq<char>) -> Option<int> {
    text::position(text, "."@, 0)
}

/// How many bytes of a text without a full stop are reported.
pub open spec fn report_len(text: Seq<char>) -> int {
    if text::byte_len(text) < MAX_REPORT_LEN {
        text::byte_len(text) as int
    } else {
        MAX_REPORT_LEN as int
    }
}

/// The tool error that a short text reports, up to its first full stop. Without one, that a tool
/// does not exist is reported whole, and anything else up to [`MAX_REPORT_LEN`].
pub open spec fn tool_error(text: Seq<char>) -> Option<Seq<char>> {
    if text.len() == 0 || text::byte_len(text) > MAX_ERROR_LEN {
        None
    } else if tool_missing(text) || tool_refused(text) || tool_not_found(text) {
        match full_stop(text) {
            Some(at) => Some(text.take(at)),
            None => if tool_missing(text) {
                Some(text)
            } else {
                Some(text::byte_range(text, 0, report_len(text)))
            },
        }
    } else {
        None
    }
}

/// Where a tool error is cut off for its length, the cut does not split a character.
pub open spec fn cleanly_cut(text: Seq<char>) -> bool {
    tool_error(text) is Some && full_stop(text) is None && !tool_missing(text) ==> text::cuts(
        text,
        report_len(text),
    )
}

/// Whether a sentence starts at `at`.
fn starts_sentence(text: &Vec<char>, at: usize) -> (yes: bool)
    requires
        at <= text@.len(),
    ensures
        yes == sentence_starts(text@, at as int),
{
    let mut i: usize = at;
    while i > 0 && text[i - 1] == ' '
        invariant
            i <= at <= text@.len(),
            sentence_starts(text@, at as int) == sentence_starts(text@, i as int),
        decreases i,
    {
        i -= 1;
    }
    i == 0 || text[i - 1] == '.' || text[i - 1] == '!' || text[i - 1] == '?' || text[i - 1] == '\n'
}

/// Whether the text says that a tool does not exist.
fn says_missing(text: &str) -> (yes: bool)
    ensures
        yes == tool_missing(text@),
{
    let chars = chars_of(text);
    let word = chars_of("Tool ");
    let mut i: usize = 0;
    while i < chars.len()
        invariant
            i <= chars@.len(),
            chars@ == text@,
            word@ == "Tool "@,
            forall|at: int|
                0 <= at < i && #[trigger] text::occurs_at(text@, "Tool "@, at) ==> !sentence_starts(
                    text@,
                    at,
                ),
        decreases chars@.len() - i,
    {
        if matches_at(&chars, &word, i) && starts_sentence(&chars, i) {
            return contains(text, " does not exist");
        }
        i += 1;
    }
    proof {
        reveal_strlit("Tool ");
    }
    assert(forall|at: int| text::occurs_at(text@, "Tool "@, at) ==> 0 <= at < text@.len());
    false
}

/// A text with its ASCII letters in lower case.
fn lower_chars(text: &str) -> (low: Vec<char>)
    ensures
        low@ == lowered(text@),
{
    let chars = chars_of(text);
    let mut low: Vec<char> = Vec::new();
    let mut i: usize = 0;
    while i < chars.len()
        invariant
            i <= chars@.len(),
            low@.len() == i,
            forall|j: int| 0 <= j < i ==> #[trigger] low@[j] == text::ascii_lower(chars@[j]),
        decreases chars@.len() - i,
    {
        low.push(lower_char(chars[i]));
        i += 1;
    }
    assert(low@ =~= lowered(text@));
    low
}

/// A character in lower case, if it is an ASCII letter.
fn lower_char(c: char) -> (low: char)
    ensures
        low == text::ascii_lower(c),
{
    if 'A' <= c && c <= 'Z' {
        (c as u8 + 32) as char
    } else {
        c
    }
}

/// Whether a phrase occurs with the word `tool` around it.
fn phrase_near_tool(low: &Vec<char>, phrase: &str) -> (yes: bool)
    requires
        0 < phrase@.len() <= 100,
    ensures
        yes == near_tool(low@, phrase@),
{
    let part = chars_of(phrase);
    let tool = chars_of("tool");
    let len: usize = low.len();
    let mut i: usize = 0;
    while i < len
        invariant
            i <= len == low@.len(),
            part@ == phrase@,
            0 < phrase@.len() <= 100,
            tool@ == "tool"@,
            forall|at: int|
                0 <= at < i && #[trigger] text::occurs_at(low@, phrase@, at) ==> !text::has_part(
                    around(low@, at, phrase@.len() as int),
                    "tool"@,
                ),
        decreases len - i,
    {
        if matches_at(low, &part, i) {
            let from: usize = if i < TOOL_DISTANCE {
                0
            } else {
                i - TOOL_DISTANCE
            };
            let end: usize = i + part.len();
            let to: usize = if len - end < TOOL_DISTANCE {
                len
            } else {
                end + TOOL_DISTANCE
            };
            let near = text_of(low, from, to);
            assert(near@ =~= around(low@, i as int, phrase@.len() as int));
            if contains(near.as_str(), "tool") {
                assert(text::occurs_at(low@, phrase@, i as int));
                return true;
            }
        }
        i += 1;
    }
    assert(forall|at: int| text::occurs_at(low@, phrase@, at) ==> 0 <= at < low@.len());
    false
}

/// Whether the text refuses to use a tool.
fn says_refused(text: &str) -> (yes: bool)
    ensures
        yes == tool_refused(text@),
{
    proof {
        reveal_strlit("cannot use");
        reveal_strlit("can't use");
        reveal_strlit("unable to use");
    }
    let low = lower_chars(text);
    phrase_near_tool(&low, "cannot use") || phrase_near_tool(&low, "can't use")
        || phrase_near_tool(&low, "unable to use")
}

/// Detects a tool error that the model reports, where it can be cut out without splitting a
/// character.
pub fn checked_tool_error(text: &str) -> (checked: Option<Option<String>>)
    ensures
        match checked {
            Some(error) => cleanly_cut(text@) && text::string_option(error) == tool_error(text@),
            None => !cleanly_cut(text@),
        },
{
    let len: usize = text.as_bytes().len();
    if text.is_empty() || len > MAX_ERROR_LEN {
        return Some(None);
    }
    let missing = says_missing(text);
    if !missing && !says_refused(text) && !contains(text, "tool not found") && !contains(
        text,
        "tool_not_found",
    ) {
        return Some(None);
    }
    let chars = chars_of(text);
    let stop = chars_of(".");
    proof {
        text::lemma_position(text@, stop@, 0);
    }
    match find_from(&chars, &stop, 0) {
        Some(at) => {
            let report = text_of(&chars, 0, at);
            assert(report@ =~= text@.take(at as int));
            Some(Some(report))
        },
        None => if missing {
            Some(Some(text.to_owned()))
        } else {
            let end: usize = if len < MAX_REPORT_LEN {
                len
            } else {
                MAX_REPORT_LEN
            };
            proof {
                text::lemma_end_cuts(text@);
            }
            if text.is_char_boundary(end) {
                Some(Some(byte_slice(text, 0, end)))
            } else {
                None
            }
        },
    }
}

/// Detects a tool error that the model reports, and cuts the report out.
pub fn detect_qwen_tool_error(text: &str) -> (error: Option<String>)
    requires
        cleanly_cut(text@),
    ensures
        text::string_option(error) == tool_error(text@),
{
    match checked_tool_error(text) {
        Some(error) => error,
        None => None,
    }
}

/// How many characters stand before the first space or full stop.
pub open spec fn word_len(text: Seq<char>) -> nat
    decreases text.len(),
{
    if text.len() == 0 || text[0] == ' ' || text[0] == '.' {
        0
    } else {
        1 + word_len(text.skip(1))
    }
}

/// A word of every report that a tool does not exist.
pub open spec fn common_word(word: Seq<char>) -> bool {
    word == "Tool"@ || word == "does"@ || word == "not"@ || word == "exist"@ || word == "exists"@
}

/// The first word of a text that is not common to all reports.
pub open spec fn telling_word(text: Seq<char>) -> Option<Seq<char>>
    decreases text.len(),
{
    let len = word_len(text);
    let word = text.take(len as int);
    if len > 0 && !common_word(word) {
        Some(word)
    } else if len < text.len() {
        telling_word(text.skip(len as int + 1))
    } else {
        None
    }
}

/// The name of the tool that an error speaks of: what stands between `Tool` and `does not exist`;
/// failing that, the first telling word; failing that, `unknown_tool`.
pub open spec fn tool_in_error(text: Seq<char>) -> Seq<char> {
    let named = match text::after_prefix(text, "Tool "@) {
        Some(rest) => match text::position(rest, " does not exist"@, 0) {
            Some(at) => Some(rest.take(at)),
            None => None,
        },
        None => None,
    };
    match named {
        Some(name) => name,
        None => match telling_word(text) {
            Some(word) => word,
            None => "unknown_tool"@,
        },
    }
}

/// How many characters, from `from` on, stand before the first space or full stop.
fn measure_word(text: &Vec<char>, from: usize) -> (len: usize)
    requires
        from <= text@.len(),
    ensures
        len == word_len(text@.skip(from as int)),
        from + len <= text@.len(),
{
    let mut i: usize = from;
    while i < text.len() && text[i] != ' ' && text[i] != '.'
        invariant
            from <= i <= text@.len(),
            word_len(text@.skip(from as int)) == (i - from) + word_len(text@.skip(i as int)),
        decreases text@.len() - i,
    {
        assert(text@.skip(i as int).skip(1) =~= text@.skip(i + 1));
        i += 1;
    }
    i - from
}

/// The first word of a text that is not common to all reports.
fn find_telling_word(text: &str) -> (word: Option<String>)
    ensures
        match word {
            Some(w) => telling_word(text@) == Some(w@),
            None => telling_word(text@) is None,
        },
{
    let chars = chars_of(text);
    let total: usize = chars.len();
    let mut i: usize = 0;
    assert(text@.skip(0) =~= text@);
    loop
        invariant
            i <= total == chars@.len(),
            chars@ == text@,
            telling_word(text@) == telling_word(text@.skip(i as int)),
        decreases chars@.len() - i,
    {
        let len: usize = measure_word(&chars, i);
        let word = text_of(&chars, i, i + len);
        assert(word@ =~= text@.skip(i as int).take(len as int));
        if len > 0 && !same_text(word.as_str(), "Tool") && !same_text(word.as_str(), "does")
            && !same_text(word.as_str(), "not") && !same_text(word.as_str(), "exist")
            && !same_text(word.as_str(), "exists") {
            return Some(word);
        }
        if i + len >= total {
            return None;
        }
        assert(text@.skip(i as int).skip(len + 1) =~= text@.skip(i + len + 1));
        i = i + len + 1;
    }
}

/// The name of the tool that an error speaks of.
pub fn extract_tool_name_from_error(err_msg: &str) -> (name: String)
    ensures
        name@ == tool_in_error(err_msg@),
{
    if let Some(rest) = strip_prefix(err_msg, "Tool ") {
        let chars = chars_of(rest.as_str());
        let phrase = chars_of(" does not exist");
        proof {
            text::lemma_position(rest@, phrase@, 0);
        }
        if let Some(at) = find_from(&chars, &phrase, 0) {
            let name = text_of(&chars, 0, at);
            assert(name@ =~= rest@.take(at as int));
            return name;
        }
    }
    match find_telling_word(err_msg) {
        Some(word) => word,
        None => "unknown_tool".to_owned(),
    }
}

/// The message that asks the model to use a tool that it took for missing.
pub fn build_synthetic_tool_ok_feedback_for_name(_tool_name: &str) -> (message: String)
    ensures
        message@ == "ok pretend it does exist and call it properly anyway"@,
{
    "ok pretend it does exist and call it properly anyway".to_owned()
}

/// How `format!` writes a list of strings with `{:?}`.
pub uninterp spec fn debug_list(items: Seq<Seq<char>>) -> Seq<char>;

/// A name made of ASCII letters, digits, `_` and `-` only.
pub open spec fn plain_name(name: Seq<char>) -> bool {
    forall|i: int|
        0 <= i < name.len() ==> {
            let c = #[trigger] name[i];
            'a' <= c <= 'z' || 'A' <= c <= 'Z' || '0' <= c <= '9' || c == '_' || c == '-'
        }
}

/// A list of names, each in double quotes, in brackets.
pub open spec fn quoted_list(names: Seq<Seq<char>>) -> Seq<char> {
    "["@ + text::joined(names.map_values(|n: Seq<char>| "\""@ + n + "\""@), ", "@) + "]"@
}

/// `format!` with `{:?}` on a list of strings: each in double quotes with what needs it escaped.
/// In plain names nothing does.
#[verifier::external_body]
fn format_list(items: &Vec<String>) -> (written: String)
    ensures
        written@ == debug_list(text::texts(items@)),
        (forall|i: int| 0 <= i < items@.len() ==> plain_name((#[trigger] items@[i])@)) ==> written@
            == quoted_list(text::texts(items@)),
{
    format!("{:?}", items)
}

/// The message that tells the model which of its tools are unknown.
pub open spec fn unknown_tools_message(listed: Seq<char>) -> Seq<char> {
    "TOOL RESULT: ERROR: You attempted to call tool(s) "@ + listed
        + " which are not in the Available Tools list. Only use exact names from the list the client provided. Retry with a valid tool or respond in plain text without a tool call."@
}

/// The message that tells the model which of its tools are unknown, given how the names are
/// listed.
pub fn tool_feedback(listed: &str) -> (message: String)
    ensures
        message@ == unknown_tools_message(listed@),
{
    let mut message = "TOOL RESULT: ERROR: You attempted to call tool(s) ".to_owned();
    message.push_str(listed);
    message.push_str(
        " which are not in the Available Tools list. Only use exact names from the list the client provided. Retry with a valid tool or respond in plain text without a tool call.",
    );
    message
}

/// The message that tells the model which of its tools are unknown.
pub fn build_tool_hallucination_feedback(bad_names: &Vec<String>) -> (message: String)
    ensures
        message@ == unknown_tools_message(debug_list(text::texts(bad_names@))),
        (forall|i: int| 0 <= i < bad_names@.len() ==> plain_name((#[trigger] bad_names@[i])@))
            ==> message@ == unknown_tools_message(quoted_list(text::texts(bad_names@))),
{
    tool_feedback(format_list(bad_names).as_str())
}

/// The message that tells the client which tools are unknown.
pub open spec fn invalid_calls_message(names: Seq<Seq<char>>) -> Seq<char> {
    "Invalid tool call(s): "@ + text::joined(names, ", "@)
        + ". Only use exact names from the client's Available Tools list."@
}

/// Builds the message that tells the client which tools are unknown.
pub fn invalid_calls_text(names: &Vec<String>) -> (message: String)
    ensures
        message@ == invalid_calls_message(text::texts(names@)),
{
    let mut message = "Invalid tool call(s): ".to_owned();
    message.push_str(join(names, ", ").as_str());
    message.push_str(". Only use exact names from the client's Available Tools list.");
    message
}

/// The body of a reply that refuses a request over its tools, and lists those that may be called.
pub open spec fn tools_error(message: Seq<char>, tools: Seq<JsonModel>) -> JsonModel {
    JsonModel::Object(
        map!["error"@ => JsonModel::Object(map![
            "message"@ => JsonModel::Str(message),
            "type"@ => JsonModel::Str("invalid_request_error"@),
            "available_tools"@ => JsonModel::Array(tools),
        ])],
    )
}

/// Builds the body of a reply that refuses a request over its tools.
pub fn tools_error_json(message: &str, tools: &Vec<Json>) -> (body: Json)
    ensures
        body@ == tools_error(message@, json::elements(tools@)),
{
    Json::object().with(
        "error",
        Json::object().with("message", Json::text(message)).with(
            "type",
            Json::text("invalid_request_error"),
        ).with("available_tools", Json::array(tools)),
    )
}

/// The body of the reply to calls of unknown tools.
pub fn construct_tool_error_json(bad_names: &Vec<String>, tools: &Vec<Json>) -> (body: Json)
    ensures
        body@ == tools_error(
            invalid_calls_message(text::texts(bad_names@)),
            json::elements(tools@),
        ),
{
    tools_error_json(invalid_calls_text(bad_names).as_str(), tools)
}

/// A short text that says, at the start of a sentence, that a tool does not exist reports a tool
/// error; so does one that says that a tool was not found. The report goes up to the first full stop,
/// and holds all where there is none.
pub proof fn law_missing_tools_are_reported(text: Seq<char>)
    requires
        0 < text.len(),
        text::byte_len(text) <= 300,
    ensures
        text::occurs_at(text, "Tool "@, 0) && text::has_part(text, " does not exist"@) ==> tool_error(
            text,
        ) is Some,
        text::has_part(text, "tool not found"@) || text::has_part(text, "tool_not_found"@)
            ==> tool_error(text) is Some,
        tool_error(text) is Some ==> (forall|i: int| 0 <= i < text.len() ==> #[trigger] text[i] != '.')
            && text::byte_len(text) < 200 ==> tool_error(text) == Some(text),
        tool_error(text) matches Some(report) ==> (forall|i: int|
            0 <= i < report.len() && full_stop(text) is Some ==> #[trigger] report[i] == text[i]
                && report[i] != '.'),
{
    reveal_strlit(".");
    assert("."@.len() == 1 && "."@[0] == '.');
    text::lemma_position(text, "."@, 0);
    if text::occurs_at(text, "Tool "@, 0) {
        assert(sentence_starts(text, 0));
    }
    if forall|i: int| 0 <= i < text.len() ==> #[trigger] text[i] != '.' {
        if let Some(at) = full_stop(text) {
            assert(text.subrange(at, at + 1)[0] == text[at]);
        }
        let bytes = encode_utf8(text);
        assert(bytes.subrange(0, bytes.len() as int) =~= bytes);
        encode_utf8_decode_utf8(text);
    }
    if let Some(report) = tool_error(text) {
        if let Some(at) = full_stop(text) {
            assert forall|i: int| 0 <= i < report.len() implies #[trigger] report[i] == text[i]
                && report[i] != '.' by {
                if text[i] == '.' {
                    assert(text.subrange(i, i + 1) =~= "."@);
                    assert(text::occurs_at(text, "."@, i));
                }
            }
        }
    }
}

/// A short text that refuses to use a tool, in any case and in any of three wordings, reports a tool
/// error where it names the tool shortly behind.
pub proof fn law_refusals_are_reported(
    text: Seq<char>,
    before: Seq<char>,
    phrase: Seq<char>,
    between: Seq<char>,
    after: Seq<char>,
)
    requires
        text::byte_len(text) <= 300,
        lowered(text) == before + phrase + between + "tool"@ + after,
        phrase == "cannot use"@ || phrase == "can't use"@ || phrase == "unable to use"@,
        between.len() <= 26,
    ensures
        tool_error(text) is Some,
{
    let low = lowered(text);
    let at = before.len() as int;
    reveal_strlit("tool");
    assert("tool"@.len() == 4);
    assert(low.subrange(at, at + phrase.len()) =~= phrase);
    assert(text::occurs_at(low, phrase, at));
    let near = around(low, at, phrase.len() as int);
    let from: int = if at < 30 {
        0
    } else {
        at - 30
    };
    let there = at - from + phrase.len() + between.len();
    assert(low.len() == at + phrase.len() + between.len() + 4 + after.len());
    assert(near.len() >= there + 4);
    assert(near.subrange(there, there + 4) =~= "tool"@);
    assert(text::occurs_at(near, "tool"@, there));
    assert(near_tool(low, phrase));
    assert(text.len() == low.len());
}

/// A long text reports no tool error, nor does one that does not speak of tools.
pub proof fn law_other_texts_report_nothing(text: Seq<char>)
    ensures
        text::byte_len(text) > 300 ==> tool_error(text) is None,
        !text::has_part(text, "Tool "@) && !text::has_part(lowered(text), "tool"@)
            && !tool_not_found(text) ==> tool_error(text) is None,
{
    let low = lowered(text);
    if !text::has_part(low, "tool"@) && tool_refused(text) {
        if near_tool(low, "cannot use"@) {
            lemma_near_is_in(low, "cannot use"@);
        } else if near_tool(low, "can't use"@) {
            lemma_near_is_in(low, "can't use"@);
        } else {
            lemma_near_is_in(low, "unable to use"@);
        }
    }
}

/// Where a phrase stands near the word `tool`, the text has that word.
proof fn lemma_near_is_in(text: Seq<char>, phrase: Seq<char>)
    requires
        near_tool(text, phrase),
    ensures
        text::has_part(text, "tool"@),
{
    let at = choose|at: int| #[trigger]
        text::occurs_at(text, phrase, at) && text::has_part(
            around(text, at, phrase.len() as int),
            "tool"@,
        );
    let near = around(text, at, phrase.len() as int);
    let from: int = if at < TOOL_DISTANCE {
        0
    } else {
        at - TOOL_DISTANCE
    };
    let k = choose|k: int| text::occurs_at(near, "tool"@, k);
    assert(text.subrange(from + k, from + k + "tool"@.len()) =~= near.subrange(
        k,
        k + "tool"@.len(),
    ));
    assert(text::occurs_at(text, "tool"@, from + k));
}

/// The tool that a report says does not exist is found by its name.
pub proof fn law_missing_tool_is_named(name: Seq<char>, rest: Seq<char>)
    requires
        forall|i: int| 0 <= i < name.len() ==> #[trigger] name[i] != ' ',
    ensures
        tool_in_error("Tool "@ + name + " does not exist"@ + rest) == name,
{
    let phrase = " does not exist"@;
    let whole = "Tool "@ + name + phrase + rest;
    let behind = name + phrase + rest;
    assert(whole =~= "Tool "@ + behind);
    text::law_prefixes_and_suffixes(whole, "Tool "@, behind);
    lemma_phrase_start();
    lemma_first_blank(name, phrase, rest);
    assert(behind.take(name.len() as int) =~= name);
}

/// The phrase that a tool does not exist starts with a blank.
proof fn lemma_phrase_start()
    ensures
        " does not exist"@.len() > 0,
        " does not exist"@[0] == ' ',
{
    reveal_strlit(" does not exist");
}

/// A phrase that starts with a blank is found behind a name without one.
proof fn lemma_first_blank(name: Seq<char>, phrase: Seq<char>, rest: Seq<char>)
    requires
        forall|i: int| 0 <= i < name.len() ==> #[trigger] name[i] != ' ',
        phrase.len() > 0,
        phrase[0] == ' ',
    ensures
        text::position(name + phrase + rest, phrase, 0) == Some(name.len() as int),
{
    let behind = name + phrase + rest;
    let end = name.len() as int;
    lemma_stands_behind(name, phrase, rest);
    assert forall|i: int| 0 <= i < end implies #[trigger] behind[i] != phrase[0] by {
        assert(behind[i] == name[i]);
    }
    lemma_first_found(behind, phrase, end);
}

/// A part is found where it stands, if its first letter does not occur before.
proof fn lemma_first_found(text: Seq<char>, part: Seq<char>, end: int)
    requires
        part.len() > 0,
        text::occurs_at(text, part, end),
        forall|i: int| 0 <= i < end ==> #[trigger] text[i] != part[0],
    ensures
        text::position(text, part, 0) == Some(end),
{
    text::lemma_position(text, part, 0);
    match text::position(text, part, 0) {
        Some(at) => {
            lemma_first_letter(text, part, at);
            assert(at >= end);
            if at > end {
                assert(!text::occurs_at(text, part, end));
            }
        },
        None => {
            assert(!text::occurs_at(text, part, end));
        },
    }
}

/// What is put behind a text stands there.
proof fn lemma_stands_behind(name: Seq<char>, phrase: Seq<char>, rest: Seq<char>)
    ensures
        text::occurs_at(name + phrase + rest, phrase, name.len() as int),
{
    let behind = name + phrase + rest;
    let end = name.len() as int;
    assert(behind.subrange(end, end + phrase.len()) =~= phrase);
}

/// Where a part stands, its first letter does.
proof fn lemma_first_letter(text: Seq<char>, part: Seq<char>, at: int)
    requires
        text::occurs_at(text, part, at),
        part.len() > 0,
    ensures
        text[at] == part[0],
{
    assert(text.subrange(at, at + part.len())[0] == text[at]);
}

/// A word that all reports have in common is passed over; any other is what a report is about.
pub proof fn law_telling_words(word: Seq<char>, rest: Seq<char>)
    requires
        word.len() > 0,
        forall|i: int| 0 <= i < word.len() ==> #[trigger] word[i] != ' ' && word[i] != '.',
    ensures
        word != "Tool"@ && word != "does"@ && word != "not"@ && word != "exist"@ && word != "exists"@
            ==> telling_word(word + seq![' '] + rest) == Some(word) && telling_word(word) == Some(word),
        word == "Tool"@ || word == "does"@ || word == "not"@ || word == "exist"@ || word == "exists"@
            ==> telling_word(word + seq![' '] + rest) == telling_word(rest),
{
    let whole = word + seq![' '] + rest;
    lemma_word_len(word, seq![' '] + rest);
    assert(word + (seq![' '] + rest) =~= whole);
    assert(whole.take(word.len() as int) =~= word);
    assert(whole.skip(word.len() as int + 1) =~= rest);
    lemma_word_len(word, Seq::empty());
    assert(word + Seq::<char>::empty() =~= word);
    assert(word.take(word.len() as int) =~= word);
}

/// A word goes up to the first space.
proof fn lemma_word_len(word: Seq<char>, behind: Seq<char>)
    requires
        forall|i: int| 0 <= i < word.len() ==> #[trigger] word[i] != ' ' && word[i] != '.',
        behind.len() == 0 || behind[0] == ' ' || behind[0] == '.',
    ensures
        word_len(word + behind) == word.len(),
    decreases word.len(),
{
    let whole = word + behind;
    if word.len() == 0 {
        assert(whole =~= behind);
    } else {
        let rest = word.skip(1);
        assert(whole[0] == word[0]);
        assert forall|i: int| 0 <= i < rest.len() implies #[trigger] rest[i] != ' ' && rest[i] != '.' by {
            assert(rest[i] == word[i + 1]);
        }
        lemma_word_len(rest, behind);
        assert(whole.skip(1) =~= rest + behind);
    }
}

/// What the model and the client are told of unknown tools names each of them, and the client hears
/// of all the tools that may be called.
pub proof fn law_unknown_tools_are_named(
    names: Seq<Seq<char>>,
    listed: Seq<char>,
    message: Seq<char>,
    tools: Seq<JsonModel>,
    i: int,
)
    requires
        0 <= i < names.len(),
    ensures
        text::has_part(unknown_tools_message(listed), listed),
        text::has_part(quoted_list(names), "\""@ + names[i] + "\""@),
        text::has_part(invalid_calls_message(names), names[i]),
        tools_error(message, tools).at("error"@).str_at("message"@) == Some(message),
        tools_error(message, tools).at("error"@).str_at("type"@) == Some("invalid_request_error"@),
        tools_error(message, tools).at("error"@).array_at("available_tools"@) == Some(tools),
{
    let start = "TOOL RESULT: ERROR: You attempted to call tool(s) "@;
    let told = unknown_tools_message(listed);
    let at = start.len() as int;
    assert(told.subrange(at, at + listed.len()) =~= listed);
    assert(text::occurs_at(told, listed, at));
    let quoted = names.map_values(|n: Seq<char>| "\""@ + n + "\""@);
    assert(quoted[i] == "\""@ + names[i] + "\""@);
    lemma_in_joined(quoted, ", "@, i, "["@, "]"@);
    lemma_in_joined(
        names,
        ", "@,
        i,
        "Invalid tool call(s): "@,
        ". Only use exact names from the client's Available Tools list."@,
    );
    reveal_strlit("message");
    reveal_strlit("type");
    reveal_strlit("available_tools");
    assert("message"@.len() == 7 && "type"@.len() == 4 && "available_tools"@.len() == 15);
}

/// A joined text stands in what is put around the joined texts.
proof fn lemma_in_joined(
    parts: Seq<Seq<char>>,
    sep: Seq<char>,
    i: int,
    before: Seq<char>,
    after: Seq<char>,
)
    requires
        0 <= i < parts.len(),
    ensures
        text::has_part(before + text::joined(parts, sep) + after, parts[i]),
{
    text::law_joined_texts_are_parts(parts, sep, i);
    let inner = text::joined(parts, sep);
    let whole = before + inner + after;
    let k = choose|k: int| text::occurs_at(inner, parts[i], k);
    let at = before.len() + k;
    assert(whole.subrange(at, at + parts[i].len()) =~= inner.subrange(k, k + parts[i].len()));
    assert(text::occurs_at(whole, parts[i], at));
}

} // verus!
