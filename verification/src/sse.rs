//! The events that the upstream model streams.
use vstd::prelude::*;

use crate::json;
use crate::json::{parse_json, Json, JsonModel};
use crate::patterns;
use crate::patterns::strip_json_codeblock;
use crate::text;
use crate::text::{join, lines, same_text, starts_with, strip_prefix, take_chars, trim};

verus! {

/// The phase of a reply that an event belongs to.
#[derive(Debug)]
pub enum QwenPhase {
    ThinkingSummary,
    Thinking,
    Search,
    Answer,
    Other(String),
}

/// What a [`QwenPhase`] says.
pub enum PhaseModel {
    ThinkingSummary,
    Thinking,
    Search,
    Answer,
    Other(Seq<char>),
}

impl QwenPhase {
    /// What the phase says.
    pub open spec fn view(&self) -> PhaseModel {
        match self {
            QwenPhase::ThinkingSummary => PhaseModel::ThinkingSummary,
            QwenPhase::Thinking => PhaseModel::Thinking,
            QwenPhase::Search => PhaseModel::Search,
            QwenPhase::Answer => PhaseModel::Answer,
            QwenPhase::Other(name) => PhaseModel::Other(name@),
        }
    }
}

impl PartialEq for QwenPhase {
    fn eq(&self, other: &QwenPhase) -> (same: bool) {
        match (self, other) {
            (QwenPhase::ThinkingSummary, QwenPhase::ThinkingSummary) => true,
            (QwenPhase::Thinking, QwenPhase::Thinking) => true,
            (QwenPhase::Search, QwenPhase::Search) => true,
            (QwenPhase::Answer, QwenPhase::Answer) => true,
            (QwenPhase::Other(a), QwenPhase::Other(b)) => same_text(a.as_str(), b.as_str()),
            _ => false,
        }
    }
}

impl vstd::std_specs::cmp::PartialEqSpecImpl for QwenPhase {
    open spec fn obeys_eq_spec() -> bool {
        true
    }

    open spec fn eq_spec(&self, other: &QwenPhase) -> bool {
        self@ == other@
    }
}

impl Clone for QwenPhase {
    fn clone(&self) -> (phase: QwenPhase)
        ensures
            phase@ == self@,
    {
        match self {
            QwenPhase::ThinkingSummary => QwenPhase::ThinkingSummary,
            QwenPhase::Thinking => QwenPhase::Thinking,
            QwenPhase::Search => QwenPhase::Search,
            QwenPhase::Answer => QwenPhase::Answer,
            QwenPhase::Other(name) => QwenPhase::Other(name.clone()),
        }
    }
}

/// What one event adds to a reply.
#[derive(Debug)]
pub struct QwenSseDelta {
    pub phase: QwenPhase,
    pub text: String,
    pub finished: bool,
}

/// What a [`QwenSseDelta`] says.
pub struct DeltaModel {
    pub phase: PhaseModel,
    pub text: Seq<char>,
    pub finished: bool,
}

impl QwenSseDelta {
    /// What the delta says.
    pub open spec fn view(&self) -> DeltaModel {
        DeltaModel { phase: self.phase@, text: self.text@, finished: self.finished }
    }
}

/// The text of a reply so far: what the model thought and what it answered.
#[derive(Debug)]
pub struct AccumulatedText {
    pub thinking: String,
    pub answer: String,
}

/// What an [`AccumulatedText`] says.
pub struct TextModel {
    pub thinking: Seq<char>,
    pub answer: Seq<char>,
}

/// No text yet.
pub open spec fn no_text() -> TextModel {
    TextModel { thinking: Seq::empty(), answer: Seq::empty() }
}

/// The text of a reply with one more delta. Thoughts stand on lines of their own, empty ones
/// apart; answers follow each other; what belongs to a search is left out.
pub open spec fn with_delta(text: TextModel, delta: DeltaModel) -> TextModel {
    match delta.phase {
        PhaseModel::ThinkingSummary | PhaseModel::Thinking => if delta.text.len() == 0 {
            text
        } else {
            TextModel { thinking: with_line(text.thinking, delta.text), ..text }
        },
        PhaseModel::Answer | PhaseModel::Other(_) => TextModel {
            answer: text.answer + delta.text,
            ..text
        },
        PhaseModel::Search => text,
    }
}

/// A text with one more line.
pub open spec fn with_line(text: Seq<char>, line: Seq<char>) -> Seq<char> {
    if text.len() == 0 {
        line
    } else {
        text + "\n"@ + line
    }
}

/// Adds a line to a text.
fn add_line(text: &mut String, line: &str)
    ensures
        final(text)@ == with_line(old(text)@, line@),
{
    if !text.as_str().is_empty() {
        text.push_str("\n");
    }
    text.push_str(line);
    assert(old(text)@.len() == 0 ==> text@ =~= line@);
}

impl AccumulatedText {
    /// What the text says.
    pub open spec fn view(&self) -> TextModel {
        TextModel { thinking: self.thinking@, answer: self.answer@ }
    }

    /// No text yet.
    pub fn new() -> (text: AccumulatedText)
        ensures
            text@ == no_text(),
    {
        AccumulatedText { thinking: String::new(), answer: String::new() }
    }

    /// Adds a delta.
    pub fn append(&mut self, delta: &QwenSseDelta)
        ensures
            final(self)@ == with_delta(old(self)@, delta@),
            delta@.phase is Answer || delta@.phase is Other ==> final(self)@.answer == old(self)@.answer
                + delta@.text,
    {
        match delta.phase {
            QwenPhase::ThinkingSummary | QwenPhase::Thinking => {
                if !delta.text.as_str().is_empty() {
                    add_line(&mut self.thinking, delta.text.as_str());
                }
            },
            QwenPhase::Answer | QwenPhase::Other(_) => {
                self.answer.push_str(delta.text.as_str());
            },
            QwenPhase::Search => {},
        }
    }

    /// What the model answered.
    pub fn full_answer(&self) -> (answer: &str)
        ensures
            answer@ == self@.answer,
    {
        self.answer.as_str()
    }

    /// What the model thought.
    pub fn thinking(&self) -> (thinking: &str)
        ensures
            thinking@ == self@.thinking,
    {
        self.thinking.as_str()
    }

    /// A text that says the same.
    pub fn copy(&self) -> (text: AccumulatedText)
        ensures
            text@ == self@,
    {
        AccumulatedText { thinking: self.thinking.clone(), answer: self.answer.clone() }
    }
}

/// The strings among some values, in order.
pub open spec fn strings_in(items: Seq<JsonModel>) -> Seq<Seq<char>>
    decreases items.len(),
{
    if items.len() == 0 {
        Seq::empty()
    } else {
        match items.last().as_str() {
            Some(s) => strings_in(items.drop_last()).push(s),
            None => strings_in(items.drop_last()),
        }
    }
}

/// The strings among some values, in order.
fn collect_strings(items: &Vec<Json>) -> (found: Vec<String>)
    ensures
        text::texts(found@) == strings_in(json::elements(items@)),
{
    let ghost all = json::elements(items@);
    let mut found: Vec<String> = Vec::new();
    let mut i: usize = 0;
    proof {
        json::lemma_elements(items@);
    }
    assert(all.take(0) =~= Seq::empty());
    assert(text::texts(found@) =~= Seq::empty());
    while i < items.len()
        invariant
            i <= items@.len(),
            all.len() == items@.len(),
            forall|j: int| 0 <= j < all.len() ==> #[trigger] all[j] == items@[j]@,
            text::texts(found@) == strings_in(all.take(i as int)),
        decreases items@.len() - i,
    {
        let ghost before = text::texts(found@);
        assert(all.take(i + 1).drop_last() =~= all.take(i as int));
        assert(all.take(i + 1).last() == items@[i as int]@);
        if let Some(s) = items[i].as_str() {
            found.push(s.to_owned());
            assert(text::texts(found@) =~= before.push(s@));
        }
        i += 1;
    }
    assert(all.take(i as int) =~= all);
    found
}

/// The text of a value that may come as a string, or as an array of strings.
pub open spec fn flat_text(value: JsonModel) -> Seq<char> {
    match value {
        JsonModel::Str(s) => s,
        JsonModel::Array(items) => text::joined(strings_in(items), ""@),
        _ => Seq::empty(),
    }
}

/// The text of a value that may come as a string, as an array of strings, or as an object with
/// either as its `content`.
pub open spec fn content_text(value: JsonModel) -> Seq<char> {
    match value {
        JsonModel::Object(_) => flat_text(value.at("content"@)),
        _ => flat_text(value),
    }
}

/// The text of a value that may come as a string, or as an array of strings.
fn flat_value(value: &Json) -> (found: String)
    ensures
        found@ == flat_text(value@),
{
    match value {
        Json::Str(s) => s.clone(),
        Json::Array(items) => join(&collect_strings(items), ""),
        _ => String::new(),
    }
}

/// The text of a value that may come as a string, as an array of strings, or as an object with
/// either as its `content`.
fn extract_string_value(value: &Json) -> (found: String)
    ensures
        found@ == content_text(value@),
{
    match value {
        Json::Object(_) => match value.get("content") {
            Some(content) => flat_value(content),
            None => String::new(),
        },
        _ => flat_value(value),
    }
}

/// The text of an optional value.
fn optional_value(value: Option<&Json>) -> (found: String)
    ensures
        found@ == (match value {
            Some(v) => content_text(v@),
            None => Seq::empty(),
        }),
{
    match value {
        Some(v) => extract_string_value(v),
        None => String::new(),
    }
}

/// The delta of the first choice of an event.
pub open spec fn first_delta(event: JsonModel) -> Option<JsonModel> {
    match event.array_at("choices"@) {
        Some(choices) => if choices.len() > 0 {
            choices[0].get("delta"@)
        } else {
            None
        },
        None => None,
    }
}

/// A member of an optional object.
pub open spec fn get_in(value: Option<JsonModel>, key: Seq<char>) -> Option<JsonModel> {
    match value {
        Some(v) => v.get(key),
        None => None,
    }
}

/// A string member of an optional object.
pub open spec fn str_in(value: Option<JsonModel>, key: Seq<char>) -> Option<Seq<char>> {
    match value {
        Some(v) => v.str_at(key),
        None => None,
    }
}

/// The text of an optional value.
pub open spec fn text_in(value: Option<JsonModel>) -> Seq<char> {
    match value {
        Some(v) => content_text(v),
        None => Seq::empty(),
    }
}

/// The name of the phase of an event: that of its delta, else its own, else none.
pub open spec fn phase_name(event: JsonModel) -> Seq<char> {
    match str_in(first_delta(event), "phase"@) {
        Some(name) => name,
        None => match event.str_at("phase"@) {
            Some(name) => name,
            None => Seq::empty(),
        },
    }
}

/// The phase of a name; none counts as an answer.
pub open spec fn named_phase(name: Seq<char>) -> PhaseModel {
    if name == "thinking_summary"@ {
        PhaseModel::ThinkingSummary
    } else if name == "thinking"@ {
        PhaseModel::Thinking
    } else if name == "search"@ {
        PhaseModel::Search
    } else if name == "answer"@ || name.len() == 0 {
        PhaseModel::Answer
    } else {
        PhaseModel::Other(name)
    }
}

/// A phase in which the model thinks.
pub open spec fn is_thinking(phase: PhaseModel) -> bool {
    phase is ThinkingSummary || phase is Thinking
}

/// A text with more lines.
pub open spec fn with_lines(text: Seq<char>, more: Seq<Seq<char>>) -> Seq<char>
    decreases more.len(),
{
    if more.len() == 0 {
        text
    } else {
        with_line(with_lines(text, more.drop_last()), more.last())
    }
}

/// The thoughts of a delta that is told in a summary: the title, then each thought on a line of
/// its own.
pub open spec fn summary_text(delta: Option<JsonModel>) -> Seq<char> {
    let extra = get_in(delta, "extra"@);
    let title = match get_in(get_in(extra, "summary_title"@), "content"@) {
        Some(content) => flat_text(content),
        None => Seq::empty(),
    };
    match get_in(get_in(extra, "summary_thought"@), "content"@) {
        Some(JsonModel::Array(items)) => with_lines(title, strings_in(items)),
        Some(JsonModel::Str(s)) => with_line(title, s),
        _ => title,
    }
}

/// The text of an event in which the model thinks: the summary, or else the content.
pub open spec fn thinking_text(event: JsonModel) -> Seq<char> {
    let delta = first_delta(event);
    if summary_text(delta).len() > 0 {
        summary_text(delta)
    } else {
        text_in(get_in(delta, "content"@))
    }
}

/// The text of any other event: the content of its delta, else that of its response, else its
/// own.
pub open spec fn answer_text(event: JsonModel) -> Seq<char> {
    let content = text_in(get_in(first_delta(event), "content"@));
    let response = text_in(get_in(event.get("response"@), "content"@));
    if content.len() > 0 {
        content
    } else if response.len() > 0 {
        response
    } else {
        text_in(event.get("content"@))
    }
}

/// What an event adds to a reply. One without text adds something only where the model thinks, or
/// where it ends the reply.
pub open spec fn delta_in(event: JsonModel) -> Option<DeltaModel> {
    let phase = named_phase(phase_name(event));
    let finished = str_in(first_delta(event), "status"@) == Some("finished"@);
    let text = if is_thinking(phase) {
        thinking_text(event)
    } else {
        answer_text(event)
    };
    if text.len() == 0 && !finished && !is_thinking(phase) {
        None
    } else {
        Some(DeltaModel { phase, text, finished })
    }
}

/// The delta of the first choice of an event.
fn first_choice_delta(event: &Json) -> (delta: Option<&Json>)
    ensures
        match delta {
            Some(d) => first_delta(event@) == Some(d@),
            None => first_delta(event@) is None,
        },
{
    match event.array_at("choices") {
        Some(choices) => {
            proof {
                json::lemma_elements(choices@);
            }
            if choices.len() > 0 {
                choices[0].get("delta")
            } else {
                None
            }
        },
        None => None,
    }
}

/// A member of an optional object.
fn member<'a>(value: Option<&'a Json>, key: &str) -> (found: Option<&'a Json>)
    ensures
        match found {
            Some(f) => get_in(json_option(value), key@) == Some(f@),
            None => get_in(json_option(value), key@) is None,
        },
{
    match value {
        Some(v) => v.get(key),
        None => None,
    }
}

/// What an optional value says.
pub open spec fn json_option(value: Option<&Json>) -> Option<JsonModel> {
    match value {
        Some(v) => Some(v@),
        None => None,
    }
}

/// The phase of a name.
fn phase_of(name: &str) -> (phase: QwenPhase)
    ensures
        phase@ == named_phase(name@),
{
    if same_text(name, "thinking_summary") {
        QwenPhase::ThinkingSummary
    } else if same_text(name, "thinking") {
        QwenPhase::Thinking
    } else if same_text(name, "search") {
        QwenPhase::Search
    } else if same_text(name, "answer") || name.is_empty() {
        QwenPhase::Answer
    } else {
        QwenPhase::Other(name.to_owned())
    }
}

/// Adds lines to a text.
fn add_lines(text: &mut String, more: &Vec<String>)
    ensures
        final(text)@ == with_lines(old(text)@, text::texts(more@)),
{
    let ghost start = text@;
    let ghost all = text::texts(more@);
    let mut i: usize = 0;
    assert(all.take(0) =~= Seq::empty());
    while i < more.len()
        invariant
            i <= more@.len(),
            all == text::texts(more@),
            text@ == with_lines(start, all.take(i as int)),
        decreases more@.len() - i,
    {
        assert(all.take(i + 1).drop_last() =~= all.take(i as int));
        add_line(text, more[i].as_str());
        i += 1;
    }
    assert(all.take(i as int) =~= all);
}

/// The thoughts of a delta that is told in a summary.
fn summary_of(delta: Option<&Json>) -> (found: String)
    ensures
        found@ == summary_text(json_option(delta)),
{
    let extra = member(delta, "extra");
    let mut found = match member(member(extra, "summary_title"), "content") {
        Some(content) => flat_value(content),
        None => String::new(),
    };
    match member(member(extra, "summary_thought"), "content") {
        Some(Json::Array(items)) => {
            add_lines(&mut found, &collect_strings(items));
        },
        Some(Json::Str(s)) => {
            add_line(&mut found, s.as_str());
        },
        _ => {},
    }
    found
}

/// The text of an event in which the model thinks.
fn thinking_of(event: &Json) -> (found: String)
    ensures
        found@ == thinking_text(event@),
{
    let delta = first_choice_delta(event);
    let summary = summary_of(delta);
    if !summary.as_str().is_empty() {
        return summary;
    }
    optional_value(member(delta, "content"))
}

/// The text of any other event.
fn answer_of(event: &Json) -> (found: String)
    ensures
        found@ == answer_text(event@),
{
    let content = optional_value(member(first_choice_delta(event), "content"));
    if !content.as_str().is_empty() {
        return content;
    }
    let response = optional_value(member(event.get("response"), "content"));
    if !response.as_str().is_empty() {
        return response;
    }
    optional_value(event.get("content"))
}

/// What an event adds to a reply.
pub fn extract_qwen_sse_delta(ch: &Json) -> (delta: Option<QwenSseDelta>)
    ensures
        match delta {
            Some(d) => delta_in(ch@) == Some(d@),
            None => delta_in(ch@) is None,
        },
{
    let inner = first_choice_delta(ch);
    let named = match inner {
        Some(d) => d.str_at("phase"),
        None => None,
    };
    let phase = match named {
        Some(name) => phase_of(name),
        None => match ch.str_at("phase") {
            Some(name) => phase_of(name),
            None => QwenPhase::Answer,
        },
    };
    proof {
        reveal_strlit("thinking_summary");
        reveal_strlit("thinking");
        reveal_strlit("search");
    }
    let status = match inner {
        Some(d) => d.str_at("status"),
        None => None,
    };
    let finished = match status {
        Some(s) => same_text(s, "finished"),
        None => false,
    };
    let thinks = match phase {
        QwenPhase::ThinkingSummary | QwenPhase::Thinking => true,
        _ => false,
    };
    let text = if thinks {
        thinking_of(ch)
    } else {
        answer_of(ch)
    };
    if text.as_str().is_empty() && !finished && !thinks {
        None
    } else {
        Some(QwenSseDelta { phase, text, finished })
    }
}

/// The text of a reply with what one more event adds.
pub open spec fn with_event(text: TextModel, event: JsonModel) -> TextModel {
    match delta_in(event) {
        Some(delta) => with_delta(text, delta),
        None => text,
    }
}

/// Adds to a reply what an event says.
pub fn append_sse_delta(acc: &mut AccumulatedText, ch: &Json)
    ensures
        final(acc)@ == with_event(old(acc)@, ch@),
{
    if let Some(delta) = extract_qwen_sse_delta(ch) {
        acc.append(&delta);
    }
}

/// The id of the response that an event belongs to.
pub open spec fn response_id(event: JsonModel) -> Option<Seq<char>> {
    match str_in(get_in(event.get("response"@), "created"@), "response_id"@) {
        Some(id) => Some(id),
        None => event.str_at("response_id"@),
    }
}

/// The id of the response that an event belongs to: the next message of the chat names it as its
/// parent.
pub fn extract_response_parent_id(ch: &Json) -> (id: Option<String>)
    ensures
        match id {
            Some(i) => response_id(ch@) == Some(i@),
            None => response_id(ch@) is None,
        },
{
    if let Some(created) = member(ch.get("response"), "created") {
        if let Some(id) = created.str_at("response_id") {
            return Some(id.to_owned());
        }
    }
    match ch.str_at("response_id") {
        Some(id) => Some(id.to_owned()),
        None => None,
    }
}

/// What a line of an event stream carries: its data, unless it is blank or ends the stream.
pub open spec fn line_data(line: Seq<char>) -> Option<Seq<char>> {
    let bare = text::trimmed(line);
    if bare.len() == 0 || bare == "[DONE]"@ {
        None
    } else {
        match text::after_prefix(bare, "data: "@) {
            Some(rest) => Some(text::trimmed(rest)),
            None => None,
        }
    }
}

/// What a line of an event stream carries.
pub fn parse_qwen_sse_line(line: &str) -> (data: Option<String>)
    ensures
        match data {
            Some(d) => line_data(line@) == Some(d@),
            None => line_data(line@) is None,
        },
{
    let bare = trim(line);
    if bare.as_str().is_empty() || same_text(bare.as_str(), "[DONE]") {
        return None;
    }
    match strip_prefix(bare.as_str(), "data: ") {
        Some(rest) => Some(trim(rest.as_str())),
        None => None,
    }
}

/// What a line carries, whether or not it is marked as data.
pub open spec fn loose_data(line: Seq<char>) -> Option<Seq<char>> {
    let bare = text::trimmed(line);
    let data = match text::after_prefix(bare, "data: "@) {
        Some(rest) => text::trimmed(rest),
        None => bare,
    };
    if bare.len() == 0 || data == "[DONE]"@ {
        None
    } else {
        Some(data)
    }
}

/// What a line carries, whether or not it is marked as data.
fn loose_line_data(line: &str) -> (data: Option<String>)
    ensures
        match data {
            Some(d) => loose_data(line@) == Some(d@),
            None => loose_data(line@) is None,
        },
{
    let bare = trim(line);
    if bare.as_str().is_empty() {
        return None;
    }
    let data = match strip_prefix(bare.as_str(), "data: ") {
        Some(rest) => trim(rest.as_str()),
        None => bare,
    };
    if same_text(data.as_str(), "[DONE]") {
        None
    } else {
        Some(data)
    }
}

/// What the lines of an event stream carry, in order; `loose` takes unmarked lines too.
pub open spec fn data_in(lines: Seq<Seq<char>>, loose: bool) -> Seq<Seq<char>>
    decreases lines.len(),
{
    if lines.len() == 0 {
        Seq::empty()
    } else {
        let found = if loose {
            loose_data(lines.last())
        } else {
            line_data(lines.last())
        };
        match found {
            Some(data) => data_in(lines.drop_last(), loose).push(data),
            None => data_in(lines.drop_last(), loose),
        }
    }
}

/// The events in some data, in order; what is no JSON is passed over.
pub open spec fn events_in(data: Seq<Seq<char>>) -> Seq<JsonModel>
    decreases data.len(),
{
    if data.len() == 0 {
        Seq::empty()
    } else {
        match json::json_parse(data.last()) {
            Ok(event) => events_in(data.drop_last()).push(event),
            Err(_) => events_in(data.drop_last()),
        }
    }
}

/// What the lines of an event stream carry, in order.
pub fn collect_data(lines: &Vec<String>, loose: bool) -> (found: Vec<String>)
    ensures
        text::texts(found@) == data_in(text::texts(lines@), loose),
{
    let ghost all = text::texts(lines@);
    let mut found: Vec<String> = Vec::new();
    let mut i: usize = 0;
    assert(all.take(0) =~= Seq::empty());
    assert(text::texts(found@) =~= Seq::empty());
    while i < lines.len()
        invariant
            i <= lines@.len(),
            all == text::texts(lines@),
            text::texts(found@) == data_in(all.take(i as int), loose),
        decreases lines@.len() - i,
    {
        let ghost before = text::texts(found@);
        assert(all.take(i + 1).drop_last() =~= all.take(i as int));
        let data = if loose {
            loose_line_data(lines[i].as_str())
        } else {
            parse_qwen_sse_line(lines[i].as_str())
        };
        if let Some(d) = data {
            found.push(d);
            assert(text::texts(found@) =~= before.push(d@));
        }
        i += 1;
    }
    assert(all.take(i as int) =~= all);
    found
}

/// The events in some data, in order.
fn parse_events(data: &Vec<String>) -> (events: Vec<Json>)
    ensures
        json::elements(events@) == events_in(text::texts(data@)),
{
    let ghost all = text::texts(data@);
    let mut events: Vec<Json> = Vec::new();
    let mut i: usize = 0;
    assert(all.take(0) =~= Seq::empty());
    while i < data.len()
        invariant
            i <= data@.len(),
            all == text::texts(data@),
            json::elements(events@) == events_in(all.take(i as int)),
        decreases data@.len() - i,
    {
        assert(all.take(i + 1).drop_last() =~= all.take(i as int));
        if let Ok(event) = parse_json(data[i].as_str()) {
            proof {
                json::lemma_elements_push(events@, event);
            }
            events.push(event);
        }
        i += 1;
    }
    assert(all.take(i as int) =~= all);
    events
}

/// The events in the body of a reply.
pub open spec fn body_events(body: Seq<char>, loose: bool) -> Seq<JsonModel> {
    events_in(data_in(text::lines_of(body), loose))
}

/// The events in the body of a reply.
pub fn read_events(body: &str, loose: bool) -> (events: Vec<Json>)
    ensures
        json::elements(events@) == body_events(body@, loose),
{
    parse_events(&collect_data(&lines(body), loose))
}

/// The text that some events add up to.
pub open spec fn accumulated(events: Seq<JsonModel>) -> TextModel
    decreases events.len(),
{
    if events.len() == 0 {
        no_text()
    } else {
        with_event(accumulated(events.drop_last()), events.last())
    }
}

/// The text that some events add up to.
pub fn accumulate(events: &Vec<Json>) -> (acc: AccumulatedText)
    ensures
        acc@ == accumulated(json::elements(events@)),
{
    let ghost all = json::elements(events@);
    let mut acc = AccumulatedText::new();
    let mut i: usize = 0;
    proof {
        json::lemma_elements(events@);
    }
    assert(all.take(0) =~= Seq::empty());
    while i < events.len()
        invariant
            i <= events@.len(),
            all.len() == events@.len(),
            forall|j: int| 0 <= j < all.len() ==> #[trigger] all[j] == events@[j]@,
            acc@ == accumulated(all.take(i as int)),
        decreases events@.len() - i,
    {
        assert(all.take(i + 1).drop_last() =~= all.take(i as int));
        assert(all.take(i + 1).last() == events@[i as int]@);
        append_sse_delta(&mut acc, &events[i]);
        i += 1;
    }
    assert(all.take(i as int) =~= all);
    acc
}

/// The last response id that some events name.
pub open spec fn last_id(events: Seq<JsonModel>) -> Option<Seq<char>>
    decreases events.len(),
{
    if events.len() == 0 {
        None
    } else {
        match response_id(events.last()) {
            Some(id) => Some(id),
            None => last_id(events.drop_last()),
        }
    }
}

/// The first response id that some events name.
pub open spec fn first_id(events: Seq<JsonModel>) -> Option<Seq<char>>
    decreases events.len(),
{
    if events.len() == 0 {
        None
    } else {
        match response_id(events[0]) {
            Some(id) => Some(id),
            None => first_id(events.skip(1)),
        }
    }
}

/// The last response id that some events name.
pub fn last_response_id(events: &Vec<Json>) -> (id: Option<String>)
    ensures
        text::string_option(id) == last_id(json::elements(events@)),
{
    let ghost all = json::elements(events@);
    let mut i: usize = events.len();
    proof {
        json::lemma_elements(events@);
    }
    assert(all.take(i as int) =~= all);
    while i > 0
        invariant
            i <= events@.len(),
            all.len() == events@.len(),
            forall|j: int| 0 <= j < all.len() ==> #[trigger] all[j] == events@[j]@,
            last_id(all) == last_id(all.take(i as int)),
            all == json::elements(events@),
        decreases i,
    {
        assert(all.take(i as int).drop_last() =~= all.take(i - 1));
        assert(all.take(i as int).last() == events@[i - 1]@);
        if let Some(id) = extract_response_parent_id(&events[i - 1]) {
            return Some(id);
        }
        i -= 1;
    }
    None
}

/// The first response id that some events name.
pub fn first_response_id(events: &Vec<Json>) -> (id: Option<String>)
    ensures
        text::string_option(id) == first_id(json::elements(events@)),
{
    let ghost all = json::elements(events@);
    let mut i: usize = 0;
    proof {
        json::lemma_elements(events@);
    }
    assert(all.skip(0) =~= all);
    while i < events.len()
        invariant
            i <= events@.len(),
            all.len() == events@.len(),
            forall|j: int| 0 <= j < all.len() ==> #[trigger] all[j] == events@[j]@,
            first_id(all) == first_id(all.skip(i as int)),
            all == json::elements(events@),
        decreases events@.len() - i,
    {
        assert(all.skip(i as int).skip(1) =~= all.skip(i + 1));
        assert(all.skip(i as int)[0] == events@[i as int]@);
        if let Some(id) = extract_response_parent_id(&events[i]) {
            return Some(id);
        }
        i += 1;
    }
    None
}

/// What a message that continues a chat brought back.
#[derive(Debug)]
pub struct ContinuationResponse {
    pub new_parent_id: Option<String>,
    pub response_text: String,
}

/// The response id in the reply to a message that continues a chat: the first that its events
/// name, else that of the whole body.
pub open spec fn continuation_id(
    events: Seq<JsonModel>,
    whole: Result<JsonModel, Seq<char>>,
) -> Option<Seq<char>> {
    match first_id(events) {
        Some(id) => Some(id),
        None => match whole {
            Ok(value) => response_id(value),
            Err(_) => None,
        },
    }
}

/// What the reply to a message that continues a chat says, given its events and the whole body as
/// JSON, if it is any.
pub fn continuation_of(events: &Vec<Json>, whole: &Result<Json, String>) -> (reply:
    ContinuationResponse)
    ensures
        text::string_option(reply.new_parent_id) == continuation_id(
            json::elements(events@),
            json::json_result(*whole),
        ),
        reply.response_text@ == accumulated(json::elements(events@)).answer,
{
    let new_parent_id = match first_response_id(events) {
        Some(id) => Some(id),
        None => match whole {
            Ok(value) => extract_response_parent_id(value),
            Err(_) => None,
        },
    };
    let acc = accumulate(events);
    ContinuationResponse { new_parent_id, response_text: acc.full_answer().to_owned() }
}

/// Reads the reply to a message that continues a chat.
pub fn read_continuation(body: &str) -> (reply: ContinuationResponse)
    ensures
        text::string_option(reply.new_parent_id) == continuation_id(
            body_events(body@, true),
            json::json_parse(body@),
        ),
        reply.response_text@ == accumulated(body_events(body@, true)).answer,
{
    let events = read_events(body, true);
    let whole = parse_json(body);
    continuation_of(&events, &whole)
}

/// The error that an upstream value reports.
pub open spec fn upstream_error(value: JsonModel) -> Option<Seq<char>> {
    if get_in(Some(value), "success"@) == Some(JsonModel::Bool(false)) {
        let data = value.at("data"@);
        match data.str_at("details"@) {
            Some(message) => Some(message),
            None => match data.str_at("template"@) {
                Some(message) => Some(message),
                None => match value.str_at("message"@) {
                    Some(message) => Some(message),
                    None => Some("Qwen API error"@),
                },
            },
        }
    } else {
        None
    }
}

/// The error that an upstream value reports.
pub fn upstream_error_of(value: &Json) -> (error: Option<String>)
    ensures
        text::string_option(error) == upstream_error(value@),
{
    match value.get("success") {
        Some(Json::Bool(false)) => {},
        _ => {
            return None;
        },
    }
    if let Some(data) = value.get("data") {
        if let Some(message) = data.str_at("details") {
            return Some(message.to_owned());
        }
        if let Some(message) = data.str_at("template") {
            return Some(message.to_owned());
        }
    }
    match value.str_at("message") {
        Some(message) => Some(message.to_owned()),
        None => Some("Qwen API error".to_owned()),
    }
}

/// The error that the body of a reply reports, where it is a JSON object.
pub open spec fn body_error(body: Seq<char>) -> Option<Seq<char>> {
    let bare = text::trimmed(body);
    if text::occurs_at(bare, "{"@, 0) {
        match json::json_parse(bare) {
            Ok(value) => upstream_error(value),
            Err(_) => None,
        }
    } else {
        None
    }
}

/// The error that the body of a reply reports.
pub fn parse_qwen_upstream_error(raw: &str) -> (error: Option<String>)
    ensures
        text::string_option(error) == body_error(raw@),
{
    let bare = trim(raw);
    if !starts_with(bare.as_str(), "{") {
        return None;
    }
    match parse_json(bare.as_str()) {
        Ok(value) => upstream_error_of(&value),
        Err(_) => None,
    }
}

/// A request asks for JSON in reply.
pub open spec fn wants_json(format: Option<JsonModel>) -> bool {
    str_in(format, "type"@) == Some("json_schema"@) || str_in(format, "type"@) == Some(
        "json_object"@,
    )
}

/// A reply in the format that was asked for: JSON without its fence, or an error where it is no
/// JSON.
pub open spec fn formatted(text: Seq<char>, format: Option<JsonModel>) -> Result<
    Seq<char>,
    Seq<char>,
> {
    if wants_json(format) {
        formatted_json(
            patterns::stripped_codeblock(text),
            json::json_parse(patterns::stripped_codeblock(text)) is Ok,
        )
    } else {
        Ok(text)
    }
}

/// A reply that must be JSON, given whether it is.
pub open spec fn formatted_json(inner: Seq<char>, valid: bool) -> Result<Seq<char>, Seq<char>> {
    if valid {
        Ok(inner)
    } else {
        Err(
            "Response is not valid JSON despite response_format. Got: "@ + text::first_chars(inner, 200),
        )
    }
}

/// A reply that must be JSON, given whether it is.
pub fn require_json(inner: String, valid: bool) -> (result: Result<String, String>)
    ensures
        text::string_result(result) == formatted_json(inner@, valid),
{
    if valid {
        Ok(inner)
    } else {
        let mut message = "Response is not valid JSON despite response_format. Got: ".to_owned();
        message.push_str(take_chars(inner.as_str(), 200).as_str());
        Err(message)
    }
}

/// Puts a reply into the format that was asked for.
pub fn process_structured_output(text: &str, rf: Option<&Json>) -> (result: Result<String, String>)
    ensures
        text::string_result(result) == formatted(text@, json_option(rf)),
{
    let wanted = match rf {
        Some(format) => match format.str_at("type") {
            Some(kind) => same_text(kind, "json_schema") || same_text(kind, "json_object"),
            None => false,
        },
        None => false,
    };
    if !wanted {
        return Ok(text.to_owned());
    }
    let inner = strip_json_codeblock(text);
    let valid = match parse_json(inner.as_str()) {
        Ok(_) => true,
        Err(_) => false,
    };
    require_json(inner, valid)
}

/// What has been thought and answered stays: an event only adds to it.
pub proof fn law_text_only_grows(text: TextModel, event: JsonModel)
    ensures
        text.thinking.is_prefix_of(with_event(text, event).thinking),
        text.answer.is_prefix_of(with_event(text, event).answer),
{
    if let Some(delta) = delta_in(event) {
        let after = with_delta(text, delta);
        assert(after.thinking.take(text.thinking.len() as int) =~= text.thinking);
        assert(after.answer.take(text.answer.len() as int) =~= text.answer);
    }
}

/// Searches leave no trace in a reply.
pub proof fn law_searches_are_left_out(text: TextModel, event: JsonModel)
    requires
        named_phase(phase_name(event)) is Search,
    ensures
        with_event(text, event) == text,
{
}

/// Texts, one behind the other.
pub open spec fn run_together(texts: Seq<Seq<char>>) -> Seq<char>
    decreases texts.len(),
{
    if texts.len() == 0 {
        Seq::empty()
    } else {
        run_together(texts.drop_last()) + texts.last()
    }
}

/// A reply after some deltas.
pub open spec fn with_deltas(text: TextModel, deltas: Seq<DeltaModel>) -> TextModel
    decreases deltas.len(),
{
    if deltas.len() == 0 {
        text
    } else {
        with_delta(with_deltas(text, deltas.drop_last()), deltas.last())
    }
}

/// A run of answer deltas adds their texts to the answer, one behind the other and unchanged, white
/// space and all; what was thought stays.
pub proof fn law_answer_is_what_was_said(text: TextModel, deltas: Seq<DeltaModel>)
    requires
        forall|i: int|
            0 <= i < deltas.len() ==> (#[trigger] deltas[i]).phase is Answer
                || deltas[i].phase is Other,
    ensures
        with_deltas(text, deltas).answer == text.answer + run_together(
            Seq::new(deltas.len(), |i: int| deltas[i].text),
        ),
        with_deltas(text, deltas).thinking == text.thinking,
    decreases deltas.len(),
{
    let texts = Seq::new(deltas.len(), |i: int| deltas[i].text);
    if deltas.len() == 0 {
        assert(text.answer + run_together(texts) =~= text.answer);
    } else {
        let rest = deltas.drop_last();
        assert forall|i: int| 0 <= i < rest.len() implies (#[trigger] rest[i]).phase is Answer
            || rest[i].phase is Other by {
            assert(deltas[i].phase is Answer || deltas[i].phase is Other);
        }
        law_answer_is_what_was_said(text, rest);
        assert(texts.drop_last() =~= Seq::new(rest.len(), |i: int| rest[i].text));
        assert(deltas[deltas.len() - 1].phase is Answer || deltas[deltas.len() - 1].phase is Other);
        assert((text.answer + run_together(texts.drop_last())) + texts.last() =~= text.answer
            + run_together(texts));
    }
}

/// A thought adds a line of its own to what was thought, an empty one nothing; the answer stays.
pub proof fn law_thoughts_stand_on_lines(text: TextModel, delta: DeltaModel)
    requires
        delta.phase is Thinking || delta.phase is ThinkingSummary,
    ensures
        with_delta(text, delta).answer == text.answer,
        delta.text.len() == 0 ==> with_delta(text, delta).thinking == text.thinking,
        delta.text.len() > 0 && text.thinking.len() == 0 ==> with_delta(text, delta).thinking
            == delta.text,
        delta.text.len() > 0 && text.thinking.len() > 0 ==> with_delta(text, delta).thinking
            == text.thinking + "\n"@ + delta.text,
{
}

/// An event says a string: its first choice holds a delta with that string as its content, in the
/// phase of the given name, or in none.
pub open spec fn says(event: JsonModel, phase: Option<Seq<char>>, said: Seq<char>) -> bool {
    &&& event.array_at("choices"@) is Some
    &&& event.array_at("choices"@)->0.len() > 0
    &&& event.array_at("choices"@)->0[0].get("delta"@) is Some
    &&& ({
        let delta = event.array_at("choices"@)->0[0].get("delta"@)->0;
        delta.get("content"@) == Some(JsonModel::Str(said)) && delta.str_at("phase"@) == phase
    })
    &&& phase is None ==> event.str_at("phase"@) is None
}

/// What an event says in the answer is added to the answer as it stands: with the phase `answer`,
/// without a phase, or with one that has no meaning here.
pub proof fn law_said_is_answered(text: TextModel, event: JsonModel, phase: Option<Seq<char>>, said: Seq<char>)
    requires
        says(event, phase, said),
        said.len() > 0,
        phase != Some("thinking"@),
        phase != Some("thinking_summary"@),
        phase != Some("search"@),
    ensures
        with_event(text, event).answer == text.answer + said,
        with_event(text, event).thinking == text.thinking,
{
    lemma_phase_names();
    let delta = event.array_at("choices"@)->0[0].get("delta"@)->0;
    assert(first_delta(event) == Some(delta));
    assert(text_in(get_in(first_delta(event), "content"@)) == said);
    assert(phase_name(event) == if phase is Some {
        phase->0
    } else {
        Seq::empty()
    });
    assert(!is_thinking(named_phase(phase_name(event))));
    assert(answer_text(event) == said);
    assert(delta_in(event) is Some);
}

/// The names of the phases differ.
proof fn lemma_phase_names()
    ensures
        "thinking_summary"@.len() == 16,
        "thinking"@.len() == 8,
        "search"@.len() == 6,
        "answer"@.len() == 6,
        "answer"@ != "search"@,
{
    reveal_strlit("thinking_summary");
    reveal_strlit("thinking");
    reveal_strlit("search");
    reveal_strlit("answer");
    assert("answer"@[0] != "search"@[0]);
}

/// What an event says in a search leaves no trace.
pub proof fn law_searched_is_dropped(text: TextModel, event: JsonModel, said: Seq<char>)
    requires
        says(event, Some("search"@), said),
    ensures
        with_event(text, event) == text,
{
    lemma_phase_names();
    let delta = event.array_at("choices"@)->0[0].get("delta"@)->0;
    assert(first_delta(event) == Some(delta));
    assert(phase_name(event) == "search"@);
}

/// Events that all say something in the answer add up to an answer that is what they say, one
/// behind the other.
pub proof fn law_answer_adds_up(events: Seq<JsonModel>, said: Seq<Seq<char>>)
    requires
        events.len() == said.len(),
        forall|i: int|
            0 <= i < events.len() ==> (says(#[trigger] events[i], None, said[i]) || says(
                events[i],
                Some("answer"@),
                said[i],
            )) && said[i].len() > 0,
    ensures
        accumulated(events).answer == run_together(said),
        accumulated(events).thinking.len() == 0,
    decreases events.len(),
{
    if events.len() > 0 {
        let last = events.len() - 1;
        let rest = events.drop_last();
        assert forall|i: int| 0 <= i < rest.len() implies (says(
            #[trigger] rest[i],
            None,
            said.drop_last()[i],
        ) || says(rest[i], Some("answer"@), said.drop_last()[i])) && said.drop_last()[i].len()
            > 0 by {
            assert(says(events[i], None, said[i]) || says(events[i], Some("answer"@), said[i]));
        }
        law_answer_adds_up(rest, said.drop_last());
        lemma_phase_names();
        let phase = if says(events[last], None, said[last]) {
            None
        } else {
            Some("answer"@)
        };
        law_said_is_answered(accumulated(rest), events[last], phase, said[last]);
    }
}

/// Events one behind the other add up to what the later ones add to what the earlier ones did.
pub proof fn law_events_add_up_in_order(first: Seq<JsonModel>, event: JsonModel)
    ensures
        accumulated(first.push(event)) == with_event(accumulated(first), event),
        accumulated(Seq::empty()) == (TextModel { thinking: Seq::empty(), answer: Seq::empty() }),
{
    assert(first.push(event).drop_last() =~= first);
}

/// An event adds nothing exactly where it has no text, does not end the reply, and is no thought; it
/// ends the reply exactly where the status of its delta says so.
pub proof fn law_what_an_event_adds(event: JsonModel)
    ensures
        delta_in(event) matches Some(delta) ==> delta.finished == (str_in(
            first_delta(event),
            "status"@,
        ) == Some("finished"@)),
        delta_in(event) is None ==> str_in(first_delta(event), "status"@) != Some("finished"@),
        delta_in(event) matches Some(delta) ==> delta.text.len() > 0 || delta.finished
            || delta.phase is Thinking || delta.phase is ThinkingSummary,
{
}

/// The response that an event belongs to: that of its `created` response, else its own.
pub proof fn law_response_ids(event: JsonModel, id: Seq<char>)
    ensures
        event.at("response"@).at("created"@).get("response_id"@) == Some(JsonModel::Str(id))
            ==> response_id(event) == Some(id),
        event.at("response"@).at("created"@).str_at("response_id"@) is None
            ==> response_id(event) == event.str_at("response_id"@),
{
}

/// The last response id of some events is that of the last that names one, and the first that of the
/// first.
pub proof fn law_first_and_last_ids(events: Seq<JsonModel>)
    ensures
        match last_id(events) {
            Some(id) => exists|i: int|
                0 <= i < events.len() && response_id(#[trigger] events[i]) == Some(id) && forall|
                    j: int,
                |
                    i < j < events.len() ==> response_id(#[trigger] events[j]) is None,
            None => forall|j: int| 0 <= j < events.len() ==> response_id(#[trigger] events[j]) is None,
        },
        match first_id(events) {
            Some(id) => exists|i: int|
                0 <= i < events.len() && response_id(#[trigger] events[i]) == Some(id) && forall|
                    j: int,
                |
                    0 <= j < i ==> response_id(#[trigger] events[j]) is None,
            None => forall|j: int| 0 <= j < events.len() ==> response_id(#[trigger] events[j]) is None,
        },
{
    lemma_last_id(events);
    lemma_first_id(events);
}

/// The last response id of some events is that of the last that names one.
proof fn lemma_last_id(events: Seq<JsonModel>)
    ensures
        match last_id(events) {
            Some(id) => exists|i: int|
                0 <= i < events.len() && response_id(#[trigger] events[i]) == Some(id) && forall|
                    j: int,
                |
                    i < j < events.len() ==> response_id(#[trigger] events[j]) is None,
            None => forall|j: int| 0 <= j < events.len() ==> response_id(#[trigger] events[j]) is None,
        },
    decreases events.len(),
{
    if events.len() > 0 {
        let rest = events.drop_last();
        let end = events.len() - 1;
        lemma_last_id(rest);
        assert(forall|j: int| 0 <= j < end ==> #[trigger] events[j] == rest[j]);
        if response_id(events.last()) is Some {
            assert(response_id(events[end]) == last_id(events));
        } else if let Some(id) = last_id(rest) {
            let i = choose|i: int|
                0 <= i < rest.len() && response_id(#[trigger] rest[i]) == Some(id) && forall|j: int|
                    i < j < rest.len() ==> response_id(#[trigger] rest[j]) is None;
            assert(response_id(events[i]) == Some(id));
        }
    }
}

/// The first response id of some events is that of the first that names one.
proof fn lemma_first_id(events: Seq<JsonModel>)
    ensures
        match first_id(events) {
            Some(id) => exists|i: int|
                0 <= i < events.len() && response_id(#[trigger] events[i]) == Some(id) && forall|
                    j: int,
                |
                    0 <= j < i ==> response_id(#[trigger] events[j]) is None,
            None => forall|j: int| 0 <= j < events.len() ==> response_id(#[trigger] events[j]) is None,
        },
    decreases events.len(),
{
    if events.len() > 0 {
        let rest = events.skip(1);
        lemma_first_id(rest);
        assert(forall|j: int| 1 <= j < events.len() ==> #[trigger] events[j] == rest[j - 1]);
        if response_id(events[0]) is Some {
            assert(response_id(events[0]) == first_id(events));
        } else if let Some(id) = first_id(rest) {
            let i = choose|i: int|
                0 <= i < rest.len() && response_id(#[trigger] rest[i]) == Some(id) && forall|j: int|
                    0 <= j < i ==> response_id(#[trigger] rest[j]) is None;
            assert(response_id(events[i + 1]) == Some(id));
        }
    }
}

/// A line that is marked as data carries what stands behind the mark, whatever white space is
/// around it; but a loose reading passes over the mark of the end.
pub proof fn law_marked_lines_carry_data(before: Seq<char>, data: Seq<char>, after: Seq<char>)
    requires
        text::all_white(before),
        text::all_white(after),
        data.len() > 0,
        text::trimmed(data) == data,
    ensures
        line_data(before + ("data: "@ + data) + after) == Some(data),
        loose_data(before + ("data: "@ + data) + after) == if data == "[DONE]"@ {
            None
        } else {
            Some(data)
        },
{
    let line = before + ("data: "@ + data) + after;
    assert(!text::is_white(data.last())) by {
        text::lemma_trimmed(data);
    }
    lemma_marked(before, data, after);
    let bare = text::trimmed(line);
    assert(bare == "data: "@ + data);
    assert(bare.len() > 0);
    assert(text::after_prefix(bare, "data: "@) == Some(data));
}

/// What a line carries stands behind a mark.
pub proof fn law_data_needs_a_mark(line: Seq<char>)
    requires
        line_data(line) is Some,
    ensures
        text::after_prefix(text::trimmed(line), "data: "@) matches Some(rest) && line_data(line)
            == Some(text::trimmed(rest)),
{
}

/// The mark of the end.
proof fn lemma_end_mark()
    ensures
        "[DONE]"@.len() == 6,
        "[DONE]"@[0] == '[',
{
    reveal_strlit("[DONE]");
}

/// The mark of data.
proof fn lemma_data_mark()
    ensures
        "data: "@.len() == 6,
        "data: "@[0] == 'd',
        !text::is_white('d'),
{
    reveal_strlit("data: ");
}

/// A marked line is trimmed to its mark and its data.
proof fn lemma_marked(before: Seq<char>, data: Seq<char>, after: Seq<char>)
    requires
        text::all_white(before),
        text::all_white(after),
        data.len() > 0,
        !text::is_white(data.last()),
    ensures
        text::trimmed(before + ("data: "@ + data) + after) == "data: "@ + data,
        text::after_prefix("data: "@ + data, "data: "@) == Some(data),
        "data: "@ + data != "[DONE]"@,
{
    let mark = "data: "@;
    let marked = mark + data;
    lemma_data_mark();
    lemma_end_mark();
    assert(marked.len() == 6 + data.len());
    assert(marked[0] == mark[0]);
    assert(marked[marked.len() - 1] == data[data.len() - 1]);
    text::lemma_trim_to(before, marked, after);
    text::law_prefixes_and_suffixes(marked, mark, data);
}

/// Without a mark, a loose reading takes a line as it stands, trimmed; a blank line carries nothing.
pub proof fn law_unmarked_lines(line: Seq<char>)
    requires
        text::after_prefix(text::trimmed(line), "data: "@) is None,
    ensures
        line_data(line) is None,
        text::trimmed(line).len() > 0 && text::trimmed(line) != "[DONE]"@ ==> loose_data(line) == Some(
            text::trimmed(line),
        ),
        text::trimmed(line).len() == 0 ==> loose_data(line) is None,
{
}

/// Lines are read one behind the other, and so are the events in their data.
pub proof fn law_lines_are_read_in_order(
    lines: Seq<Seq<char>>,
    line: Seq<char>,
    data: Seq<Seq<char>>,
    one: Seq<char>,
    loose: bool,
)
    ensures
        data_in(Seq::empty(), loose).len() == 0,
        events_in(Seq::empty()).len() == 0,
        !loose ==> data_in(lines.push(line), loose) == match line_data(line) {
            Some(d) => data_in(lines, loose).push(d),
            None => data_in(lines, loose),
        },
        loose ==> data_in(lines.push(line), loose) == match loose_data(line) {
            Some(d) => data_in(lines, loose).push(d),
            None => data_in(lines, loose),
        },
        json::json_parse(one) matches Ok(event) ==> events_in(data.push(one)) == events_in(data).push(
            event,
        ),
        json::json_parse(one) is Err ==> events_in(data.push(one)) == events_in(data),
{
    assert(lines.push(line).drop_last() =~= lines);
    assert(data.push(one).drop_last() =~= data);
}

/// A value that says that it has no success reports an error: its details, else its template, else
/// its message; any other reports none.
pub proof fn law_upstream_errors(value: JsonModel)
    ensures
        (upstream_error(value) is Some) == (value.get("success"@) == Some(JsonModel::Bool(false))),
        upstream_error(value) matches Some(message) ==> {
            let details = value.at("data"@).str_at("details"@);
            let template = value.at("data"@).str_at("template"@);
            let own = value.str_at("message"@);
            &&& details is Some ==> message == details->0
            &&& details is None && template is Some ==> message == template->0
            &&& details is None && template is None && own is Some ==> message == own->0
            &&& details is None && template is None && own is None ==> message == "Qwen API error"@
        },
{
}

/// The body of a reply reports an error exactly where it is, trimmed, JSON that starts with a brace
/// and reports one.
pub proof fn law_body_errors(body: Seq<char>)
    ensures
        body_error(body) is Some ==> json::json_parse(text::trimmed(body)) is Ok && upstream_error(
            json::json_parse(text::trimmed(body))->Ok_0,
        ) == body_error(body),
        text::trimmed(body).len() > 0 && text::trimmed(body)[0] == '{' && json::json_parse(
            text::trimmed(body),
        ) is Ok ==> body_error(body) == upstream_error(
            json::json_parse(text::trimmed(body))->Ok_0,
        ),
{
    let bare = text::trimmed(body);
    reveal_strlit("{");
    if bare.len() > 0 && bare[0] == '{' {
        assert(bare.subrange(0, 1) =~= "{"@);
    }
}

/// Without a JSON format, a reply stays as it is. With one, what comes out is JSON, and it is the
/// reply without its fence; what is no JSON is refused, and the refusal quotes its start.
pub proof fn law_formats_are_kept_to(text: Seq<char>, format: Option<JsonModel>)
    ensures
        !wants_json(format) ==> formatted(text, format) == Ok::<Seq<char>, Seq<char>>(text),
        wants_json(format) ==> (formatted(text, format) is Ok) == (json::json_parse(
            patterns::stripped_codeblock(text),
        ) is Ok),
        wants_json(format) && formatted(text, format) is Ok ==> formatted(text, format)->Ok_0
            == patterns::stripped_codeblock(text),
        formatted(text, format) matches Err(message) ==> text::first_chars(
            patterns::stripped_codeblock(text),
            200,
        ).is_suffix_of(message),
        format is None ==> !wants_json(format),
        format matches Some(f) ==> wants_json(format) == (f.get("type"@) == Some(
            JsonModel::Str("json_schema"@),
        ) || f.get("type"@) == Some(JsonModel::Str("json_object"@))),
{
    if let Err(message) = formatted(text, format) {
        let quoted = text::first_chars(patterns::stripped_codeblock(text), 200);
        let start = message.len() - quoted.len();
        assert(message.subrange(start, message.len() as int) =~= quoted);
    }
    if let Some(f) = format {
        assert(f.at("type"@).as_str() == f.str_at("type"@));
    }
}

/// The strings of an array are taken one behind the other, and run together where they make up a
/// text; a string is taken as it stands.
pub proof fn law_texts_of_values(items: Seq<JsonModel>, one: Seq<char>, other: JsonModel)
    requires
        !(other is Str),
    ensures
        content_text(JsonModel::Str(one)) == one,
        flat_text(JsonModel::Array(items)) == run_together(strings_in(items)),
        strings_in(items.push(JsonModel::Str(one))) == strings_in(items).push(one),
        strings_in(items.push(other)) == strings_in(items),
        strings_in(Seq::empty()).len() == 0,
{
    assert(items.push(JsonModel::Str(one)).drop_last() =~= items);
    assert(items.push(other).drop_last() =~= items);
    lemma_joined_without_separator(strings_in(items));
}

/// Joined without a separator, texts run together.
proof fn lemma_joined_without_separator(texts: Seq<Seq<char>>)
    ensures
        text::joined(texts, ""@) == run_together(texts),
    decreases texts.len(),
{
    reveal_strlit("");
    if texts.len() > 0 {
        lemma_joined_without_separator(texts.drop_last());
        if texts.len() == 1 {
            assert(run_together(texts.drop_last()) =~= Seq::<char>::empty());
            assert(run_together(texts) =~= texts[0]);
        } else {
            assert(text::joined(texts, ""@) =~= run_together(texts));
        }
    }
}

/// What an event says while the model thinks is added to the thoughts, on a line of its own, and not to
/// the answer.
pub proof fn law_thought_is_not_answered(
    text: TextModel,
    event: JsonModel,
    phase: Seq<char>,
    said: Seq<char>,
)
    requires
        phase == "thinking"@ || phase == "thinking_summary"@,
        says(event, Some(phase), said),
        said.len() > 0,
        event.array_at("choices"@)->0[0].get("delta"@)->0.get("extra"@) is None,
    ensures
        with_event(text, event).answer == text.answer,
        text.thinking.len() == 0 ==> with_event(text, event).thinking == said,
        text.thinking.len() > 0 ==> with_event(text, event).thinking == text.thinking + "\n"@ + said,
{
    lemma_phase_names();
    let delta = event.array_at("choices"@)->0[0].get("delta"@)->0;
    assert(first_delta(event) == Some(delta));
    assert(phase_name(event) == phase);
    assert(summary_text(Some(delta)).len() == 0);
    assert(text_in(get_in(Some(delta), "content"@)) == said);
    assert(thinking_text(event) == said);
}

/// Thoughts that come as a summary are its title and then each of its thoughts, on lines of their own;
/// they stand in place of the content.
pub proof fn law_summaries_are_told_whole(
    event: JsonModel,
    delta: JsonModel,
    title: Seq<char>,
    thoughts: Seq<JsonModel>,
    thought: Seq<char>,
)
    requires
        first_delta(event) == Some(delta),
        delta.at("extra"@).at("summary_title"@).get("content"@) == Some(JsonModel::Str(title)),
        title.len() > 0,
    ensures
        delta.at("extra"@).get("summary_thought"@) is None ==> thinking_text(event) == title,
        delta.at("extra"@).at("summary_thought"@).get("content"@) == Some(JsonModel::Str(thought))
            ==> thinking_text(event) == title + "\n"@ + thought,
        delta.at("extra"@).at("summary_thought"@).get("content"@) == Some(JsonModel::Array(thoughts))
            ==> thinking_text(event) == with_lines(title, strings_in(thoughts)),
        with_lines(title, strings_in(thoughts.push(JsonModel::Str(thought)))) == with_lines(
            title,
            strings_in(thoughts),
        ) + "\n"@ + thought,
        with_lines(title, Seq::empty()) == title,
{
    assert(thoughts.push(JsonModel::Str(thought)).drop_last() =~= thoughts);
    let lines = strings_in(thoughts);
    assert(lines.push(thought).drop_last() =~= lines);
    lemma_lines_grow(title, lines);
}

/// More lines make a text no shorter.
proof fn lemma_lines_grow(text: Seq<char>, more: Seq<Seq<char>>)
    ensures
        with_lines(text, more).len() >= text.len(),
    decreases more.len(),
{
    if more.len() > 0 {
        lemma_lines_grow(text, more.drop_last());
    }
}

/// The delta of an event is that of its first choice; its phase is named there, else by the event
/// itself; where it holds no text, that of the response stands in, else that of the event.
pub proof fn law_where_events_say_things(event: JsonModel, delta: JsonModel, name: Seq<char>)
    ensures
        event.array_at("choices"@) is Some && event.array_at("choices"@)->0.len() > 0 ==> first_delta(
            event,
        ) == event.array_at("choices"@)->0[0].get("delta"@),
        event.array_at("choices"@) is None || event.array_at("choices"@)->0.len() == 0 ==> first_delta(
            event,
        ) is None,
        first_delta(event) == Some(delta) && delta.get("phase"@) == Some(JsonModel::Str(name))
            ==> phase_name(event) == name,
        first_delta(event) is None && event.get("phase"@) == Some(JsonModel::Str(name)) ==> phase_name(
            event,
        ) == name,
        first_delta(event) is None && event.at("response"@).get("content"@) == Some(JsonModel::Str(name))
            && name.len() > 0 ==> answer_text(event) == name,
        first_delta(event) is None && event.get("response"@) is None && event.get("content"@) == Some(
            JsonModel::Str(name),
        ) ==> answer_text(event) == name,
{
}

/// A continuation belongs to the response that its events name first, else to that of its whole body.
pub proof fn law_continuations_name_their_response(
    events: Seq<JsonModel>,
    value: JsonModel,
    message: Seq<char>,
)
    ensures
        first_id(events) is Some ==> continuation_id(events, Ok(value)) == first_id(events)
            && continuation_id(events, Err(message)) == first_id(events),
        first_id(events) is None ==> continuation_id(events, Ok(value)) == response_id(value)
            && continuation_id(events, Err(message)) is None,
{
}

/// Text may come as a string, as an array of strings, or under `content` of an object in either form.
pub proof fn law_text_may_be_wrapped(value: JsonModel, items: Seq<JsonModel>, one: Seq<char>)
    ensures
        value.get("content"@) == Some(JsonModel::Str(one)) ==> content_text(value) == one,
        value.get("content"@) == Some(JsonModel::Array(items)) ==> content_text(value) == run_together(
            strings_in(items),
        ),
        content_text(JsonModel::Array(items)) == run_together(strings_in(items)),
        content_text(JsonModel::Null).len() == 0,
{
    lemma_joined_without_separator(strings_in(items));
}

/// The events of a body are those of its lines, all of them, in order.
pub proof fn law_bodies_are_read_line_by_line(body: Seq<char>, loose: bool)
    ensures
        body_events(body, loose) == events_in(data_in(text::lines_of(body), loose)),
{
}

} // verus!
