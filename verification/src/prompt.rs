//! The prompt that a request becomes.
use vstd::prelude::*;

use crate::json;
use crate::json::{json_string, Json, JsonModel};
use crate::text;
use crate::text::{join, push_text, same_text, to_uppercase};

verus! {

/// The text of one part of a message.
pub open spec fn part_text(part: JsonModel) -> Option<Seq<char>> {
    match part.str_at("text"@) {
        Some(t) => Some(t),
        None => match part.str_at("output_text"@) {
            Some(t) => Some(t),
            None => match part.str_at("input_text"@) {
                Some(t) => Some(t),
                None => part.str_at("output"@),
            },
        },
    }
}

/// The texts of the parts of a message, in order; a part without text has none.
pub open spec fn part_texts(parts: Seq<JsonModel>) -> Seq<Seq<char>>
    decreases parts.len(),
{
    if parts.len() == 0 {
        Seq::empty()
    } else {
        match part_text(parts.last()) {
            Some(t) => part_texts(parts.drop_last()).push(t),
            None => part_texts(parts.drop_last()),
        }
    }
}

/// The text of a message: a string, or the texts of its parts on lines of their own.
pub open spec fn message_text(content: JsonModel) -> Seq<char> {
    match content {
        JsonModel::Str(t) => t,
        JsonModel::Array(parts) => text::joined(part_texts(parts), "\n"@),
        _ => Seq::empty(),
    }
}

/// The text of one part of a message.
fn text_of_part(part: &Json) -> (found: Option<String>)
    ensures
        text::string_option(found) == part_text(part@),
{
    if let Some(t) = part.str_at("text") {
        return Some(t.to_owned());
    }
    if let Some(t) = part.str_at("output_text") {
        return Some(t.to_owned());
    }
    if let Some(t) = part.str_at("input_text") {
        return Some(t.to_owned());
    }
    match part.str_at("output") {
        Some(t) => Some(t.to_owned()),
        None => None,
    }
}

/// The text of a message, if it has any.
pub fn message_content_to_string(content: Option<&Json>) -> (found: String)
    ensures
        found@ == message_text(match content {
            Some(c) => c@,
            None => JsonModel::Null,
        }),
{
    match content {
        Some(Json::Str(t)) => t.clone(),
        Some(Json::Array(parts)) => {
            let ghost all = json::elements(parts@);
            let mut found: Vec<String> = Vec::new();
            let mut i: usize = 0;
            proof {
                json::lemma_elements(parts@);
            }
            assert(all.take(0) =~= Seq::empty());
            assert(text::texts(found@) =~= Seq::empty());
            while i < parts.len()
                invariant
                    i <= parts@.len(),
                    all.len() == parts@.len(),
                    forall|j: int| 0 <= j < all.len() ==> #[trigger] all[j] == parts@[j]@,
                    text::texts(found@) == part_texts(all.take(i as int)),
                decreases parts@.len() - i,
            {
                let ghost before = text::texts(found@);
                assert(all.take(i + 1).drop_last() =~= all.take(i as int));
                assert(all.take(i + 1).last() == parts@[i as int]@);
                if let Some(t) = text_of_part(&parts[i]) {
                    found.push(t);
                    assert(text::texts(found@) =~= before.push(t@));
                }
                i += 1;
            }
            assert(all.take(i as int) =~= all);
            join(&found, "\n")
        },
        _ => String::new(),
    }
}

/// An optional text, or another where it is missing.
pub open spec fn text_or(value: Option<Seq<char>>, other: Seq<char>) -> Seq<char> {
    match value {
        Some(v) => v,
        None => other,
    }
}

/// How a call that the assistant made reads in the prompt.
pub open spec fn used_tool(name: Option<Seq<char>>, args: Option<Seq<char>>) -> Seq<char> {
    "ASSISTANT used tool: "@ + text_or(name, "?"@) + "("@ + text_or(args, "{}"@) + ")"@
}

/// How a call that the assistant made reads in the prompt.
fn used_tool_text(name: Option<&str>, args: Option<&str>) -> (line: String)
    ensures
        line@ == used_tool(text::text_option(name), text::text_option(args)),
{
    let mut line = "ASSISTANT used tool: ".to_owned();
    line.push_str(
        match name {
            Some(n) => n,
            None => "?",
        },
    );
    line.push_str("(");
    line.push_str(
        match args {
            Some(a) => a,
            None => "{}",
        },
    );
    line.push_str(")");
    line
}

/// The calls of a message, as they read in the prompt.
pub open spec fn used_tools(calls: Seq<JsonModel>) -> Seq<Seq<char>> {
    calls.map_values(
        |call: JsonModel|
            used_tool(
                call.at("function"@).str_at("name"@),
                call.at("function"@).str_at("arguments"@),
            ),
    )
}

/// The parts of the prompt that come from the calls of a message: those under `tool_calls`, and
/// the message itself where it is a call.
pub open spec fn call_parts(message: JsonModel) -> Seq<Seq<char>> {
    let listed = match message.array_at("tool_calls"@) {
        Some(calls) => used_tools(calls),
        None => Seq::empty(),
    };
    if message.str_at("type"@) == Some("function_call"@) {
        listed.push(used_tool(message.str_at("name"@), message.str_at("arguments"@)))
    } else {
        listed
    }
}

/// The parts of the prompt that come from the text of a message: a system message as it stands,
/// any other under its role; what a tool brought back is marked as such.
pub open spec fn text_parts(message: JsonModel) -> Seq<Seq<char>> {
    let role = text::upper_form(text_or(message.str_at("role"@), "user"@));
    let content = message_text(message.at("content"@));
    let said = if content.len() == 0 {
        Seq::empty()
    } else if role == "SYSTEM"@ {
        seq![content]
    } else {
        seq![role + ": "@ + content]
    };
    if message.str_at("role"@) == Some("tool"@) {
        said.push("TOOL RESULT: "@ + content)
    } else {
        said
    }
}

/// The parts of the prompt that come from the output of a call.
pub open spec fn output_parts(message: JsonModel) -> Seq<Seq<char>> {
    let output = message_text(message.at("output"@));
    if output.len() == 0 {
        Seq::empty()
    } else {
        seq!["TOOL RESULT: "@ + output]
    }
}

/// The parts of the prompt that come from one message.
pub open spec fn message_parts(message: JsonModel) -> Seq<Seq<char>> {
    if message.str_at("type"@) == Some("function_call_output"@) {
        call_parts(message) + output_parts(message)
    } else {
        call_parts(message) + text_parts(message)
    }
}

/// The parts of the prompt that come from some messages, in order.
pub open spec fn history_parts(messages: Seq<JsonModel>) -> Seq<Seq<char>>
    decreases messages.len(),
{
    if messages.len() == 0 {
        Seq::empty()
    } else {
        history_parts(messages.drop_last()) + message_parts(messages.last())
    }
}

/// A member of a value is a given string.
fn member_is(value: &Json, key: &str, expected: &str) -> (yes: bool)
    ensures
        yes == (value@.str_at(key@) == Some(expected@)),
{
    match value.str_at(key) {
        Some(found) => same_text(found, expected),
        None => false,
    }
}

/// Adds the parts of the prompt that come from the calls of a message.
fn add_call_parts(parts: &mut Vec<String>, message: &Json)
    ensures
        text::texts(final(parts)@) == text::texts(old(parts)@) + call_parts(message@),
{
    let ghost before = text::texts(parts@);
    let ghost listed = match message@.array_at("tool_calls"@) {
        Some(calls) => used_tools(calls),
        None => Seq::empty(),
    };
    if let Some(calls) = message.array_at("tool_calls") {
        proof {
            json::lemma_elements(calls@);
        }
        let mut i: usize = 0;
        assert(before + listed.take(0) =~= before);
        while i < calls.len()
            invariant
                i <= calls@.len(),
                listed == used_tools(json::elements(calls@)),
                listed.len() == calls@.len(),
                forall|j: int|
                    0 <= j < calls@.len() ==> #[trigger] json::elements(calls@)[j] == calls@[j]@,
                text::texts(parts@) == before + listed.take(i as int),
            decreases calls@.len() - i,
        {
            let line = match calls[i].get("function") {
                Some(function) => used_tool_text(
                    function.str_at("name"),
                    function.str_at("arguments"),
                ),
                None => used_tool_text(None, None),
            };
            assert(json::elements(calls@)[i as int] == calls@[i as int]@);
            assert(line@ == listed[i as int]);
            push_text(parts, line);
            assert(before + listed.take(i + 1) =~= (before + listed.take(i as int)).push(
                listed[i as int],
            ));
            i += 1;
        }
        assert(listed.take(i as int) =~= listed);
    } else {
        assert(before + listed =~= before);
    }
    if member_is(message, "type", "function_call") {
        let line = used_tool_text(message.str_at("name"), message.str_at("arguments"));
        push_text(parts, line);
        assert((before + listed).push(line@) =~= before + listed.push(line@));
    }
}

/// Adds the parts of the prompt that come from one message.
fn add_message_parts(parts: &mut Vec<String>, message: &Json)
    ensures
        text::texts(final(parts)@) == text::texts(old(parts)@) + message_parts(message@),
{
    let ghost before = text::texts(parts@);
    add_call_parts(parts, message);
    let ghost calls = call_parts(message@);
    if member_is(message, "type", "function_call_output") {
        let output = message_content_to_string(message.get("output"));
        if !output.as_str().is_empty() {
            let mut line = "TOOL RESULT: ".to_owned();
            line.push_str(output.as_str());
            push_text(parts, line);
        }
        assert(text::texts(parts@) =~= before + (calls + output_parts(message@)));
        return ;
    }
    let role = to_uppercase(
        match message.str_at("role") {
            Some(r) => r,
            None => "user",
        },
    );
    let content = message_content_to_string(message.get("content"));
    if !content.as_str().is_empty() {
        if same_text(role.as_str(), "SYSTEM") {
            push_text(parts, content.clone());
        } else {
            let mut line = role;
            line.push_str(": ");
            line.push_str(content.as_str());
            push_text(parts, line);
        }
    }
    if member_is(message, "role", "tool") {
        let mut line = "TOOL RESULT: ".to_owned();
        line.push_str(content.as_str());
        push_text(parts, line);
    }
    assert(text::texts(parts@) =~= before + (calls + text_parts(message@)));
}

/// The messages of a request: those under `messages`, else those under `input`.
pub open spec fn request_messages(request: JsonModel) -> Option<Seq<JsonModel>> {
    match request.array_at("messages"@) {
        Some(messages) => Some(messages),
        None => request.array_at("input"@),
    }
}

/// The messages of a request.
pub fn messages_of(request: &Json) -> (messages: Option<&Vec<Json>>)
    ensures
        match messages {
            Some(m) => request_messages(request@) == Some(json::elements(m@)),
            None => request_messages(request@) is None,
        },
{
    match request.array_at("messages") {
        Some(messages) => Some(messages),
        None => request.array_at("input"),
    }
}

/// The history of a request, a blank line between its parts.
pub open spec fn history_text(request: JsonModel) -> Seq<char> {
    match request_messages(request) {
        Some(messages) => text::joined(history_parts(messages), "\n\n"@),
        None => Seq::empty(),
    }
}

/// The history of a request.
fn history_of(request: &Json) -> (history: String)
    ensures
        history@ == history_text(request@),
{
    match messages_of(request) {
        Some(messages) => {
            let ghost all = json::elements(messages@);
            let mut parts: Vec<String> = Vec::new();
            let mut i: usize = 0;
            proof {
                json::lemma_elements(messages@);
            }
            assert(all.take(0) =~= Seq::empty());
            assert(text::texts(parts@) =~= Seq::empty());
            while i < messages.len()
                invariant
                    i <= messages@.len(),
                    all.len() == messages@.len(),
                    forall|j: int| 0 <= j < all.len() ==> #[trigger] all[j] == messages@[j]@,
                    text::texts(parts@) == history_parts(all.take(i as int)),
                decreases messages@.len() - i,
            {
                assert(all.take(i + 1).drop_last() =~= all.take(i as int));
                assert(all.take(i + 1).last() == messages@[i as int]@);
                add_message_parts(&mut parts, &messages[i]);
                i += 1;
            }
            assert(all.take(i as int) =~= all);
            join(&parts, "\n\n")
        },
        None => String::new(),
    }
}

/// What the prompt says of the format of the reply.
pub open spec fn format_rule(request: JsonModel) -> Seq<char> {
    match request.get("response_format"@) {
        Some(format) => if format.str_at("type"@) == Some("json_schema"@) {
            let rule = "\n\nRespond with valid JSON only (no markdown) matching this schema:\n"@;
            match format.at("json_schema"@).get("schema"@) {
                Some(schema) => rule + json::json_text(schema),
                None => rule,
            }
        } else if format.str_at("type"@) == Some("json_object"@) {
            "\n\nRespond with valid JSON only, no markdown fences.\n"@
        } else {
            Seq::empty()
        },
        None => Seq::empty(),
    }
}

/// What the prompt says of the format of the reply.
fn format_rule_text(request: &Json) -> (rule: String)
    ensures
        rule@ == format_rule(request@),
{
    match request.get("response_format") {
        Some(format) => {
            if member_is(format, "type", "json_schema") {
                let mut rule =
                    "\n\nRespond with valid JSON only (no markdown) matching this schema:\n".to_owned();
                if let Some(named) = format.get("json_schema") {
                    if let Some(schema) = named.get("schema") {
                        rule.push_str(json_string(schema).as_str());
                    }
                }
                rule
            } else if member_is(format, "type", "json_object") {
                "\n\nRespond with valid JSON only, no markdown fences.\n".to_owned()
            } else {
                String::new()
            }
        },
        None => String::new(),
    }
}

/// The name of a tool: that of its function, whatever it is, else its own.
pub open spec fn example_name(tool: JsonModel) -> Option<Seq<char>> {
    match tool.at("function"@).get("name"@) {
        Some(name) => name.as_str(),
        None => tool.str_at("name"@),
    }
}

/// What the prompt says of calling tools, with one of them as an example.
pub open spec fn tool_rules(example: Seq<char>) -> Seq<char> {
    "\n\n## Tool Use Format — CRITICAL RULES\n"@
        + "You may **only** call tools whose exact `name` appears in the Available Tools list provided by the client. Never invent, guess, or hallucinate tool names. If no tool is needed, respond in normal text without any JSON.\n\n"@
        + "When you need to call a tool, output **only** a single complete fenced code block with language `json` as the very last thing in your response (nothing after it):\n"@
        + "```json\n{\"tool\":\""@ + example + "\",\"args\":{...}}\n```\n"@
        + "Always wrap the tool JSON in a markdown code block. Never output raw JSON outside a code block.\n"@
        + "The code block must contain nothing except the JSON object and must be the absolute last output you produce.\n"@
        + "Use the exact tool name spelling from the client's list — no prefixes, no suffixes, no made-up variations.\n"@
}

/// What the prompt says of calling tools.
fn tool_rules_text(example: &str) -> (rules: String)
    ensures
        rules@ == tool_rules(example@),
{
    let mut rules = "\n\n## Tool Use Format — CRITICAL RULES\n".to_owned();
    rules.push_str(
        "You may **only** call tools whose exact `name` appears in the Available Tools list provided by the client. Never invent, guess, or hallucinate tool names. If no tool is needed, respond in normal text without any JSON.\n\n",
    );
    rules.push_str(
        "When you need to call a tool, output **only** a single complete fenced code block with language `json` as the very last thing in your response (nothing after it):\n",
    );
    rules.push_str("```json\n{\"tool\":\"");
    rules.push_str(example);
    rules.push_str("\",\"args\":{...}}\n```\n");
    rules.push_str(
        "Always wrap the tool JSON in a markdown code block. Never output raw JSON outside a code block.\n",
    );
    rules.push_str(
        "The code block must contain nothing except the JSON object and must be the absolute last output you produce.\n",
    );
    rules.push_str(
        "Use the exact tool name spelling from the client's list — no prefixes, no suffixes, no made-up variations.\n",
    );
    rules
}

/// What the prompt says of the tools of a request: nothing where it has none.
pub open spec fn tools_rule(request: JsonModel) -> Seq<char> {
    match request.array_at("tools"@) {
        Some(tools) => if tools.len() > 0 {
            tool_rules(text_or(example_name(tools[0]), "example_tool"@))
        } else {
            Seq::empty()
        },
        None => Seq::empty(),
    }
}

/// The name of a tool.
fn example_of(tool: &Json) -> (name: Option<&str>)
    ensures
        text::text_option(name) == example_name(tool@),
{
    if let Some(function) = tool.get("function") {
        if let Some(name) = function.get("name") {
            return name.as_str();
        }
    }
    tool.str_at("name")
}

/// What the prompt says of the tools of a request.
fn tools_rule_text(request: &Json) -> (rules: String)
    ensures
        rules@ == tools_rule(request@),
{
    match request.array_at("tools") {
        Some(tools) => {
            proof {
                json::lemma_elements(tools@);
            }
            if tools.len() > 0 {
                tool_rules_text(
                    match example_of(&tools[0]) {
                        Some(name) => name,
                        None => "example_tool",
                    },
                )
            } else {
                String::new()
            }
        },
        None => String::new(),
    }
}

/// A member of a tool: that of its function, else its own.
pub open spec fn tool_str(tool: JsonModel, key: Seq<char>) -> Option<Seq<char>> {
    match tool.at("function"@).str_at(key) {
        Some(t) => Some(t),
        None => tool.str_at(key),
    }
}

/// What a tool takes: the parameters of its function, else its own, else its input schema, else
/// nothing.
pub open spec fn tool_parameters(tool: JsonModel) -> JsonModel {
    match tool.at("function"@).get("parameters"@) {
        Some(p) => p,
        None => match tool.get("parameters"@) {
            Some(p) => p,
            None => tool.at("input_schema"@),
        },
    }
}

/// A tool in the one form in which tools are listed: its name, its description, what it takes. A
/// tool without a name is none.
pub open spec fn listed_tool(tool: JsonModel) -> Option<JsonModel> {
    match tool_str(tool, "name"@) {
        Some(name) => Some(
            JsonModel::Object(
                map![
                    "name"@ => JsonModel::Str(name),
                    "description"@ => JsonModel::Str(text_or(tool_str(tool, "description"@), ""@)),
                    "parameters"@ => tool_parameters(tool),
                ],
            ),
        ),
        None => None,
    }
}

/// Some tools in the form in which they are listed, in order.
pub open spec fn listed_tools(tools: Seq<JsonModel>) -> Seq<JsonModel>
    decreases tools.len(),
{
    if tools.len() == 0 {
        Seq::empty()
    } else {
        match listed_tool(tools.last()) {
            Some(tool) => listed_tools(tools.drop_last()).push(tool),
            None => listed_tools(tools.drop_last()),
        }
    }
}

/// The tools of a request, in the form in which they are listed.
pub open spec fn request_tools(request: JsonModel) -> Seq<JsonModel> {
    match request.array_at("tools"@) {
        Some(tools) => listed_tools(tools),
        None => Seq::empty(),
    }
}

/// A member of a tool.
fn str_of_tool<'a>(tool: &'a Json, key: &str) -> (found: Option<&'a str>)
    ensures
        text::text_option(found) == tool_str(tool@, key@),
{
    if let Some(function) = tool.get("function") {
        if let Some(found) = function.str_at(key) {
            return Some(found);
        }
    }
    tool.str_at(key)
}

/// What a tool takes.
fn parameters_of(tool: &Json) -> (parameters: Json)
    ensures
        parameters@ == tool_parameters(tool@),
{
    if let Some(function) = tool.get("function") {
        if let Some(p) = function.get("parameters") {
            return p.copy();
        }
    }
    if let Some(p) = tool.get("parameters") {
        return p.copy();
    }
    match tool.get("input_schema") {
        Some(p) => p.copy(),
        None => Json::Null,
    }
}

/// A tool in the form in which tools are listed.
fn list_tool(tool: &Json) -> (listed: Option<Json>)
    ensures
        match listed {
            Some(t) => listed_tool(tool@) == Some(t@),
            None => listed_tool(tool@) is None,
        },
{
    match str_of_tool(tool, "name") {
        Some(name) => {
            let description = match str_of_tool(tool, "description") {
                Some(d) => d,
                None => "",
            };
            Some(
                Json::object().with("name", Json::text(name)).with(
                    "description",
                    Json::text(description),
                ).with("parameters", parameters_of(tool)),
            )
        },
        None => None,
    }
}

/// The tools of a request, in the form in which they are listed.
pub fn parse_tools(v: &Json) -> (listed: Vec<Json>)
    ensures
        json::elements(listed@) == request_tools(v@),
{
    let mut listed: Vec<Json> = Vec::new();
    if let Some(tools) = v.array_at("tools") {
        let ghost all = json::elements(tools@);
        let mut i: usize = 0;
        proof {
            json::lemma_elements(tools@);
        }
        assert(all.take(0) =~= Seq::empty());
        while i < tools.len()
            invariant
                i <= tools@.len(),
                all.len() == tools@.len(),
                forall|j: int| 0 <= j < all.len() ==> #[trigger] all[j] == tools@[j]@,
                json::elements(listed@) == listed_tools(all.take(i as int)),
            decreases tools@.len() - i,
        {
            assert(all.take(i + 1).drop_last() =~= all.take(i as int));
            assert(all.take(i + 1).last() == tools@[i as int]@);
            if let Some(tool) = list_tool(&tools[i]) {
                proof {
                    json::lemma_elements_push(listed@, tool);
                }
                listed.push(tool);
            }
            i += 1;
        }
        assert(all.take(i as int) =~= all);
    }
    listed
}

/// A text followed by the list of some tools, where there are any.
pub open spec fn prompt_text(message: Seq<char>, tools: Seq<JsonModel>) -> Seq<char> {
    if tools.len() == 0 {
        message
    } else {
        message + "\n\nAvailable Tools (exact names only — use these verbatim):\n"@
            + json::json_text(JsonModel::Array(tools))
            + "\n\nWhen you need to call a tool, output ONLY a complete ```json fenced code block as the very last thing in your response, using an exact name from the list above. Never invent names. The block must contain nothing except the JSON."@
    }
}

/// What a part holds, the whole holds.
proof fn lemma_part_of_part(whole: Seq<char>, part: Seq<char>, inner: Seq<char>)
    requires
        text::has_part(whole, part),
        text::has_part(part, inner),
    ensures
        text::has_part(whole, inner),
{
    let outer_at = choose|at: int| text::occurs_at(whole, part, at);
    let inner_at = choose|at: int| text::occurs_at(part, inner, at);
    assert(whole.subrange(outer_at + inner_at, outer_at + inner_at + inner.len())
        =~= part.subrange(inner_at, inner_at + inner.len()));
    assert(text::occurs_at(whole, inner, outer_at + inner_at));
}

/// Appends the list of some tools to a text. The strings in the tools stand in it as they are,
/// unless they hold characters to be escaped.
pub fn build_prompt(message: String, tools: &Vec<Json>) -> (prompt: String)
    ensures
        prompt@ == prompt_text(message@, json::elements(tools@)),
        forall|string: Seq<char>| #[trigger]
            json::holds_string(JsonModel::Array(json::elements(tools@)), string)
                && json::needs_no_escape(string) ==> text::has_part(prompt@, string),
{
    proof {
        json::lemma_elements(tools@);
    }
    if tools.len() == 0 {
        return message;
    }
    let ghost start = message@;
    let mut prompt = message;
    let list = json_string(&Json::array(tools));
    prompt.push_str("\n\nAvailable Tools (exact names only — use these verbatim):\n");
    prompt.push_str(list.as_str());
    prompt.push_str(
        "\n\nWhen you need to call a tool, output ONLY a complete ```json fenced code block as the very last thing in your response, using an exact name from the list above. Never invent names. The block must contain nothing except the JSON.",
    );
    proof {
        law_prompt_lists_the_tools(start, json::elements(tools@));
        assert forall|string: Seq<char>| #[trigger]
            json::holds_string(JsonModel::Array(json::elements(tools@)), string)
                && json::needs_no_escape(string) implies text::has_part(prompt@, string) by {
            lemma_part_of_part(prompt@, list@, string);
        }
    }
    prompt
}

/// The message that a request becomes: its history, then what is asked of the format and of the
/// use of tools, then the list of its tools.
pub open spec fn request_text(request: JsonModel) -> Seq<char> {
    prompt_text(
        history_text(request) + format_rule(request) + tools_rule(request),
        request_tools(request),
    )
}

/// A tool of the given name is declared in a request.
pub open spec fn declares(request: JsonModel, name: Seq<char>) -> bool {
    exists|i: int| #[trigger] declares_at(request, i, name)
}

/// The tool at a position of a request has the given name.
pub open spec fn declares_at(request: JsonModel, i: int, name: Seq<char>) -> bool {
    match request.array_at("tools"@) {
        Some(tools) => 0 <= i < tools.len() && tool_str(tools[i], "name"@) == Some(name),
        None => false,
    }
}

/// A tool of a name is listed under it.
proof fn lemma_name_is_listed(tools: Seq<JsonModel>, i: int, name: Seq<char>) -> (at: int)
    requires
        0 <= i < tools.len(),
        tool_str(tools[i], "name"@) == Some(name),
    ensures
        0 <= at < listed_tools(tools).len(),
        json::holds_string(listed_tools(tools)[at], name),
    decreases tools.len(),
{
    if i < tools.len() - 1 {
        lemma_name_is_listed(tools.drop_last(), i, name)
    } else {
        let listed = listed_tool(tools[i])->0;
        let fields = listed->Object_0;
        reveal_strlit("name");
        reveal_strlit("description");
        reveal_strlit("parameters");
        assert("name"@.len() != "description"@.len() && "name"@.len() != "parameters"@.len());
        assert(fields.dom().contains("name"@) && fields["name"@] == JsonModel::Str(name));
        assert(json::holds_string(fields["name"@], name));
        listed_tools(tools).len() - 1
    }
}

/// Builds the message that a request becomes. Where it declares tools with names, the message
/// holds their list; and each name stands in it as it is, unless it holds characters to be escaped.
pub fn build_message(v: &Json) -> (message: String)
    ensures
        message@ == request_text(v@),
        request_tools(v@).len() > 0 ==> text::has_part(
            message@,
            json::json_text(JsonModel::Array(request_tools(v@))),
        ),
        forall|name: Seq<char>| #[trigger]
            declares(v@, name) && json::needs_no_escape(name) ==> text::has_part(message@, name),
{
    let mut message = history_of(v);
    message.push_str(format_rule_text(v).as_str());
    message.push_str(tools_rule_text(v).as_str());
    let ghost start = message@;
    let tools = parse_tools(v);
    let message = build_prompt(message, &tools);
    proof {
        law_prompt_lists_the_tools(start, request_tools(v@));
        assert forall|name: Seq<char>| #[trigger] declares(v@, name) && json::needs_no_escape(
            name,
        ) implies text::has_part(message@, name) by {
            let i = choose|i: int| declares_at(v@, i, name);
            let at = lemma_name_is_listed(v@.array_at("tools"@)->0, i, name);
            json::lemma_array_holds(request_tools(v@), at, name);
        }
    }
    message
}

/// The prompt follows the messages in their order: that of two histories in a row is that of the
/// one and that of the other.
pub proof fn law_history_keeps_order(first: Seq<JsonModel>, second: Seq<JsonModel>)
    ensures
        history_parts(first + second) == history_parts(first) + history_parts(second),
    decreases second.len(),
{
    if second.len() == 0 {
        assert(first + second =~= first);
        assert(history_parts(first) + history_parts(second) =~= history_parts(first));
    } else {
        law_history_keeps_order(first, second.drop_last());
        assert((first + second).drop_last() =~= first + second.drop_last());
        assert(history_parts(first + second) =~= history_parts(first) + history_parts(second));
    }
}

/// The list of some tools is appended to a text whole, and the text stays.
pub proof fn law_prompt_lists_the_tools(message: Seq<char>, tools: Seq<JsonModel>)
    ensures
        message.is_prefix_of(prompt_text(message, tools)),
        tools.len() > 0 ==> text::has_part(
            prompt_text(message, tools),
            json::json_text(JsonModel::Array(tools)),
        ),
{
    let whole = prompt_text(message, tools);
    assert(whole.take(message.len() as int) =~= message);
    if tools.len() > 0 {
        let list = json::json_text(JsonModel::Array(tools));
        let at: int = message.len()
            + "\n\nAvailable Tools (exact names only — use these verbatim):\n"@.len() as int;
        assert(whole.subrange(at, at + list.len()) =~= list);
        assert(text::occurs_at(whole, list, at));
    }
}

/// The parts of a message stand among those of its history.
proof fn lemma_message_in_history(messages: Seq<JsonModel>, i: int, part: Seq<char>)
    requires
        0 <= i < messages.len(),
        message_parts(messages[i]).contains(part),
    ensures
        history_parts(messages).contains(part),
    decreases messages.len(),
{
    let rest = messages.drop_last();
    let before = history_parts(rest);
    let own = message_parts(messages.last());
    let all = history_parts(messages);
    if i == messages.len() - 1 {
        let k = choose|k: int| 0 <= k < own.len() && own[k] == part;
        assert(all[before.len() + k] == part);
    } else {
        lemma_message_in_history(rest, i, part);
        let k = choose|k: int| 0 <= k < before.len() && before[k] == part;
        assert(all[k] == part);
    }
}

/// A part of a message of a request stands in the message that the request becomes.
proof fn lemma_part_in_request(
    request: JsonModel,
    messages: Seq<JsonModel>,
    i: int,
    part: Seq<char>,
)
    requires
        request_messages(request) == Some(messages),
        0 <= i < messages.len(),
        message_parts(messages[i]).contains(part),
    ensures
        text::has_part(request_text(request), part),
{
    lemma_message_in_history(messages, i, part);
    let parts = history_parts(messages);
    let k = choose|k: int| 0 <= k < parts.len() && parts[k] == part;
    text::law_joined_texts_are_parts(parts, "\n\n"@, k);
    let history = history_text(request);
    let start = history + format_rule(request) + tools_rule(request);
    law_prompt_lists_the_tools(start, request_tools(request));
    let whole = request_text(request);
    assert(whole.subrange(0, history.len() as int) =~= history) by {
        assert(whole.take(start.len() as int) == start);
        assert(start.subrange(0, history.len() as int) =~= history);
        assert(whole.take(start.len() as int).subrange(0, history.len() as int) =~= whole.subrange(
            0,
            history.len() as int,
        ));
    }
    assert(text::occurs_at(whole, history, 0));
    lemma_part_of_part(whole, history, part);
}

/// Whatever a message says stands in the prompt, under its role unless it is a system message, and
/// whether or not the message also holds calls.
pub proof fn law_what_is_said_is_told(request: JsonModel, messages: Seq<JsonModel>, i: int)
    requires
        request_messages(request) == Some(messages),
        0 <= i < messages.len(),
        messages[i].str_at("type"@) != Some("function_call_output"@),
        message_text(messages[i].at("content"@)).len() > 0,
    ensures
        text::has_part(request_text(request), message_text(messages[i].at("content"@))),
        ({
            let role = text::upper_form(
                match messages[i].str_at("role"@) {
                    Some(role) => role,
                    None => "user"@,
                },
            );
            role != "SYSTEM"@ ==> text::has_part(
                request_text(request),
                role + ": "@ + message_text(messages[i].at("content"@)),
            )
        }),
{
    let message = messages[i];
    let content = message_text(message.at("content"@));
    let role = text::upper_form(text_or(message.str_at("role"@), "user"@));
    let line = if role == "SYSTEM"@ {
        content
    } else {
        role + ": "@ + content
    };
    let own = message_parts(message);
    let at = call_parts(message).len() as int;
    assert(own[at] == line);
    lemma_part_in_request(request, messages, i, line);
    let from = (line.len() - content.len()) as int;
    assert(line.subrange(from, from + content.len()) =~= content);
    assert(text::occurs_at(line, content, from));
    lemma_part_of_part(request_text(request), line, content);
}

/// The text of a message: a string as it stands; of several parts, the text of each on a line of its
/// own.
pub proof fn law_message_texts(parts: Seq<JsonModel>, i: int, said: Seq<char>)
    ensures
        message_text(JsonModel::Str(said)) == said,
        0 <= i < parts.len() && parts[i].get("text"@) == Some(JsonModel::Str(said)) ==> text::has_part(
            message_text(JsonModel::Array(parts)),
            said,
        ),
        0 <= i < parts.len() && part_text(parts[i]) == Some(said) ==> text::has_part(
            message_text(JsonModel::Array(parts)),
            said,
        ),
{
    if 0 <= i < parts.len() {
        if parts[i].get("text"@) == Some(JsonModel::Str(said)) {
            assert(part_text(parts[i]) == Some(said));
        }
        if part_text(parts[i]) == Some(said) {
            lemma_part_texts(parts, i);
            let all = part_texts(parts);
            let k = choose|k: int| 0 <= k < all.len() && all[k] == said;
            text::law_joined_texts_are_parts(all, "\n"@, k);
        }
    }
}

/// The text of a part is among those of the parts.
proof fn lemma_part_texts(parts: Seq<JsonModel>, i: int)
    requires
        0 <= i < parts.len(),
        part_text(parts[i]) is Some,
    ensures
        part_texts(parts).contains(part_text(parts[i])->0),
    decreases parts.len(),
{
    let rest = parts.drop_last();
    let all = part_texts(parts);
    if i == parts.len() - 1 {
        assert(all[all.len() - 1] == part_text(parts[i])->0);
    } else {
        lemma_part_texts(rest, i);
        let before = part_texts(rest);
        let k = choose|k: int| 0 <= k < before.len() && before[k] == part_text(rest[i])->0;
        assert(all[k] == part_text(parts[i])->0);
    }
}

/// Where a part holds its text: under `text`, else `output_text`, else `input_text`, else `output`.
pub proof fn law_where_parts_hold_their_text(part: JsonModel, said: Seq<char>)
    ensures
        part.get("text"@) == Some(JsonModel::Str(said)) ==> part_text(part) == Some(said),
        part.str_at("text"@) is None && part.get("output_text"@) == Some(JsonModel::Str(said))
            ==> part_text(part) == Some(said),
        part.str_at("text"@) is None && part.str_at("output_text"@) is None && part.get(
            "input_text"@,
        ) == Some(JsonModel::Str(said)) ==> part_text(part) == Some(said),
        part.str_at("text"@) is None && part.str_at("output_text"@) is None && part.str_at(
            "input_text"@,
        ) is None ==> part_text(part) == part.str_at("output"@),
{
}

/// Every call of a message stands in the prompt, with its name and its arguments, whatever else the
/// message holds.
pub proof fn law_calls_are_told(
    request: JsonModel,
    messages: Seq<JsonModel>,
    i: int,
    j: int,
    name: Seq<char>,
    arguments: Seq<char>,
)
    requires
        request_messages(request) == Some(messages),
        0 <= i < messages.len(),
        messages[i].array_at("tool_calls"@) is Some,
        0 <= j < messages[i].array_at("tool_calls"@)->0.len(),
        messages[i].array_at("tool_calls"@)->0[j].at("function"@).str_at("name"@) == Some(name),
        messages[i].array_at("tool_calls"@)->0[j].at("function"@).str_at("arguments"@) == Some(
            arguments,
        ),
    ensures
        text::has_part(
            request_text(request),
            "ASSISTANT used tool: "@ + name + "("@ + arguments + ")"@,
        ),
{
    let message = messages[i];
    let line = "ASSISTANT used tool: "@ + name + "("@ + arguments + ")"@;
    let calls = message.array_at("tool_calls"@)->0;
    assert(used_tools(calls)[j] == line);
    assert(call_parts(message)[j] == line);
    assert(message_parts(message)[j] == line);
    lemma_part_in_request(request, messages, i, line);
}

/// What a call brought back stands in the prompt: the output of a call, and what a tool says.
pub proof fn law_results_are_told(request: JsonModel, messages: Seq<JsonModel>, i: int)
    requires
        request_messages(request) == Some(messages),
        0 <= i < messages.len(),
    ensures
        messages[i].str_at("type"@) == Some("function_call_output"@) && message_text(
            messages[i].at("output"@),
        ).len() > 0 ==> text::has_part(
            request_text(request),
            "TOOL RESULT: "@ + message_text(messages[i].at("output"@)),
        ),
        messages[i].str_at("type"@) != Some("function_call_output"@) && messages[i].str_at("role"@)
            == Some("tool"@) ==> text::has_part(
            request_text(request),
            "TOOL RESULT: "@ + message_text(messages[i].at("content"@)),
        ),
{
    let message = messages[i];
    let own = message_parts(message);
    if message.str_at("type"@) == Some("function_call_output"@) {
        let line = "TOOL RESULT: "@ + message_text(message.at("output"@));
        if message_text(message.at("output"@)).len() > 0 {
            assert(own[call_parts(message).len() as int] == line);
            lemma_part_in_request(request, messages, i, line);
        }
    } else if message.str_at("role"@) == Some("tool"@) {
        let line = "TOOL RESULT: "@ + message_text(message.at("content"@));
        assert(own[own.len() - 1] == line);
        lemma_part_in_request(request, messages, i, line);
    }
}

/// A message that holds nothing but text becomes exactly one part; one that holds nothing at all
/// becomes none.
pub proof fn law_nothing_is_added_to_a_message(message: JsonModel)
    requires
        message.array_at("tool_calls"@) is None,
        message.str_at("type"@) is None,
        message.str_at("role"@) != Some("tool"@),
    ensures
        message_parts(message).len() == if message_text(message.at("content"@)).len() > 0 {
            1int
        } else {
            0
        },
{
}

/// A request without tools and without a format becomes its history, and nothing else: its parts,
/// a blank line between them.
pub proof fn law_bare_request_is_its_history(request: JsonModel)
    requires
        request.get("tools"@) is None,
        request.get("response_format"@) is None,
    ensures
        request_text(request) == history_text(request),
        request.array_at("messages"@) matches Some(messages) ==> request_text(request)
            == text::joined(history_parts(messages), "\n\n"@),
        request.array_at("messages"@) is None && request.array_at("input"@) is None
            ==> request_text(request).len() == 0,
{
    let history = history_text(request);
    assert(history + format_rule(request) + tools_rule(request) =~= history);
}

/// Where a schema is asked for, the prompt holds it; where JSON is, the prompt says so.
pub proof fn law_formats_are_asked_for(request: JsonModel, format: JsonModel)
    requires
        request.get("response_format"@) == Some(format),
    ensures
        format.get("type"@) == Some(JsonModel::Str("json_schema"@)) && format.at(
            "json_schema"@,
        ).get("schema"@) is Some ==> text::has_part(
            request_text(request),
            json::json_text(format.at("json_schema"@).get("schema"@)->0),
        ),
        format.get("type"@) == Some(JsonModel::Str("json_object"@)) ==> text::has_part(
            request_text(request),
            "\n\nRespond with valid JSON only, no markdown fences.\n"@,
        ),
{
    let rule = format_rule(request);
    lemma_rule_in_request(request);
    reveal_strlit("json_schema");
    reveal_strlit("json_object");
    assert("json_schema"@[5] != "json_object"@[5]);
    assert(format.at("type"@).as_str() == format.str_at("type"@));
    if format.get("type"@) == Some(JsonModel::Str("json_schema"@)) && format.at(
        "json_schema"@,
    ).get("schema"@) is Some {
        let schema = json::json_text(format.at("json_schema"@).get("schema"@)->0);
        let at = (rule.len() - schema.len()) as int;
        assert(rule.subrange(at, at + schema.len()) =~= schema);
        assert(text::occurs_at(rule, schema, at));
        lemma_part_of_part(request_text(request), rule, schema);
    }
}

/// What is asked of the format stands in the prompt.
proof fn lemma_rule_in_request(request: JsonModel)
    ensures
        text::has_part(request_text(request), format_rule(request)),
{
    let history = history_text(request);
    let rule = format_rule(request);
    let start = history + rule + tools_rule(request);
    let whole = request_text(request);
    law_prompt_lists_the_tools(start, request_tools(request));
    let at = history.len() as int;
    assert(whole.take(start.len() as int) == start);
    assert(start.subrange(at, at + rule.len()) =~= rule);
    assert(whole.take(start.len() as int).subrange(at, at + rule.len()) =~= whole.subrange(
        at,
        at + rule.len(),
    ));
    assert(text::occurs_at(whole, rule, at));
}

/// Tools are listed one behind the other, each that has a name: with that name, its description and
/// what it takes.
pub proof fn law_tools_are_listed_as_declared(tools: Seq<JsonModel>, tool: JsonModel)
    ensures
        listed_tools(Seq::empty()).len() == 0,
        tool_str(tool, "name"@) is None ==> listed_tools(tools.push(tool)) == listed_tools(tools),
        tool_str(tool, "name"@) matches Some(name) ==> {
            let all = listed_tools(tools.push(tool));
            &&& all.len() == listed_tools(tools).len() + 1
            &&& all.drop_last() == listed_tools(tools)
            &&& all.last().str_at("name"@) == Some(name)
            &&& all.last().str_at("description"@) == Some(
                match tool_str(tool, "description"@) {
                    Some(text) => text,
                    None => ""@,
                },
            )
            &&& all.last().get("parameters"@) == Some(tool_parameters(tool))
        },
{
    assert(tools.push(tool).drop_last() =~= tools);
    if tool_str(tool, "name"@) is Some {
        let all = listed_tools(tools.push(tool));
        assert(all.drop_last() =~= listed_tools(tools));
        reveal_strlit("name");
        reveal_strlit("description");
        reveal_strlit("parameters");
        assert("name"@.len() == 4 && "description"@.len() == 11 && "parameters"@.len() == 10);
    }
}

/// What a tool says stands in its function, or else in itself.
pub proof fn law_where_tools_say_things(tool: JsonModel, key: Seq<char>, said: Seq<char>, takes: JsonModel)
    ensures
        tool.at("function"@).get(key) == Some(JsonModel::Str(said)) ==> tool_str(tool, key) == Some(
            said,
        ),
        tool.at("function"@).str_at(key) is None ==> tool_str(tool, key) == tool.str_at(key),
        tool.at("function"@).get("parameters"@) == Some(takes) ==> tool_parameters(tool) == takes,
        tool.at("function"@).get("parameters"@) is None && tool.get("parameters"@) == Some(takes)
            ==> tool_parameters(tool) == takes,
        tool.at("function"@).get("parameters"@) is None && tool.get("parameters"@) is None
            && tool.get("input_schema"@) == Some(takes) ==> tool_parameters(tool) == takes,
{
}

/// The messages of a request are those under `messages`, where that is an array, else those under
/// `input`.
pub proof fn law_where_messages_stand(request: JsonModel, messages: Seq<JsonModel>)
    ensures
        request.get("messages"@) == Some(JsonModel::Array(messages)) ==> request_messages(request)
            == Some(messages),
        request.array_at("messages"@) is None ==> request_messages(request) == request.array_at(
            "input"@,
        ),
{
}

/// A message that holds nothing but text stands in the prompt as one part: under its role, or as it is
/// where it is a system message.
pub proof fn law_plain_messages_stand_under_their_role(message: JsonModel)
    requires
        message.array_at("tool_calls"@) is None,
        message.str_at("type"@) is None,
        message.str_at("role"@) != Some("tool"@),
    ensures
        ({
            let content = message_text(message.at("content"@));
            let role = text::upper_form(
                match message.str_at("role"@) {
                    Some(role) => role,
                    None => "user"@,
                },
            );
            message_parts(message) == if content.len() == 0 {
                Seq::<Seq<char>>::empty()
            } else if role == "SYSTEM"@ {
                seq![content]
            } else {
                seq![role + ": "@ + content]
            }
        }),
{
    assert(call_parts(message) + text_parts(message) =~= text_parts(message));
}

/// The parts of a message are read in order, each that has text.
pub proof fn law_parts_are_read_in_order(parts: Seq<JsonModel>, part: JsonModel)
    ensures
        part_texts(Seq::empty()).len() == 0,
        part_text(part) matches Some(said) ==> part_texts(parts.push(part)) == part_texts(parts).push(
            said,
        ),
        part_text(part) is None ==> part_texts(parts.push(part)) == part_texts(parts),
        message_text(JsonModel::Array(parts)) == text::joined(part_texts(parts), "\n"@),
        message_text(JsonModel::Null).len() == 0,
{
    assert(parts.push(part).drop_last() =~= parts);
}

/// A message that is a call itself stands in the prompt with its name and its arguments.
pub proof fn law_messages_that_are_calls_are_told(
    request: JsonModel,
    messages: Seq<JsonModel>,
    i: int,
    name: Seq<char>,
    arguments: Seq<char>,
)
    requires
        request_messages(request) == Some(messages),
        0 <= i < messages.len(),
        messages[i].str_at("type"@) == Some("function_call"@),
        messages[i].str_at("name"@) == Some(name),
        messages[i].str_at("arguments"@) == Some(arguments),
    ensures
        text::has_part(
            request_text(request),
            "ASSISTANT used tool: "@ + name + "("@ + arguments + ")"@,
        ),
{
    let message = messages[i];
    let line = "ASSISTANT used tool: "@ + name + "("@ + arguments + ")"@;
    let own = call_parts(message);
    assert(own[own.len() - 1] == line);
    assert(message_parts(message)[own.len() - 1] == line);
    lemma_part_in_request(request, messages, i, line);
}

/// The prompt of a request with tools says how they are called, with the name of the first as an
/// example; that of one without says nothing of it.
pub proof fn law_prompt_says_how_tools_are_called(
    request: JsonModel,
    tools: Seq<JsonModel>,
    name: Seq<char>,
)
    requires
        request.get("tools"@) == Some(JsonModel::Array(tools)),
        tools.len() > 0,
        tools[0].at("function"@).get("name"@) == Some(JsonModel::Str(name)) || (tools[0].at(
            "function"@,
        ).get("name"@) is None && tools[0].get("name"@) == Some(JsonModel::Str(name))),
    ensures
        text::has_part(
            request_text(request),
            "```json\n{\"tool\":\""@ + name + "\",\"args\":{...}}\n```\n"@,
        ),
{
    let line = "```json\n{\"tool\":\""@ + name + "\",\"args\":{...}}\n```\n"@;
    let rule = tools_rule(request);
    assert(rule == tool_rules(name));
    lemma_example_in_rules(name);
    let history = history_text(request);
    let start = history + format_rule(request) + rule;
    let whole = request_text(request);
    law_prompt_lists_the_tools(start, request_tools(request));
    let at = (history + format_rule(request)).len() as int;
    assert(whole.take(start.len() as int) == start);
    assert(start.subrange(at, at + rule.len()) =~= rule);
    assert(whole.take(start.len() as int).subrange(at, at + rule.len()) =~= whole.subrange(
        at,
        at + rule.len(),
    ));
    assert(text::occurs_at(whole, rule, at));
    lemma_part_of_part(whole, rule, line);
}

/// What is said of calling tools holds the example.
proof fn lemma_example_in_rules(name: Seq<char>)
    ensures
        text::has_part(
            tool_rules(name),
            "```json\n{\"tool\":\""@ + name + "\",\"args\":{...}}\n```\n"@,
        ),
{
    let before = "\n\n## Tool Use Format — CRITICAL RULES\n"@
        + "You may **only** call tools whose exact `name` appears in the Available Tools list provided by the client. Never invent, guess, or hallucinate tool names. If no tool is needed, respond in normal text without any JSON.\n\n"@
        + "When you need to call a tool, output **only** a single complete fenced code block with language `json` as the very last thing in your response (nothing after it):\n"@;
    let line = "```json\n{\"tool\":\""@ + name + "\",\"args\":{...}}\n```\n"@;
    let rules = tool_rules(name);
    let at = before.len() as int;
    assert(rules.subrange(at, at + line.len()) =~= line);
    assert(text::occurs_at(rules, line, at));
}

/// The tools of a request are all that it declares, in the form in which they are listed; without any it
/// has none.
pub proof fn law_requests_list_their_tools(request: JsonModel, tools: Seq<JsonModel>)
    ensures
        request.get("tools"@) == Some(JsonModel::Array(tools)) ==> request_tools(request) == listed_tools(
            tools,
        ),
        request.array_at("tools"@) is None ==> request_tools(request).len() == 0,
{
}

} // verus!
