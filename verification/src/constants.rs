//! Names, limits and settings that the whole proxy shares.
use vstd::prelude::*;

use crate::text;
use crate::text::{same_text, starts_with, to_lowercase};

verus! {

/// The upstream model that serves a request which names no other.
pub const MODEL_NAME: &'static str = "qwen3.7-max";

/// Where the Qwen API answers.
pub const QWEN_API_BASE: &'static str = "https://chat.qwen.ai/api/v2";

/// The length of a serialized history above which old messages are dropped.
pub const MAX_PROMPT_CHARS: usize = 3_500_000;

/// What a setting says: unset, the default; set, true unless it reads `false`, `0` or `no` in any
/// case.
pub open spec fn flag_value(value: Option<Seq<char>>, default: bool) -> bool {
    match value {
        Some(v) => {
            &&& text::lower_form(v) != "false"@
            &&& text::lower_form(v) != "0"@
            &&& text::lower_form(v) != "no"@
        },
        None => default,
    }
}

/// What a setting says, given the value of its environment variable.
pub fn env_flag(value: Option<&str>, default: bool) -> (flag: bool)
    ensures
        flag == flag_value(text::text_option(value), default),
{
    match value {
        Some(v) => {
            let lower = to_lowercase(v);
            !same_text(lower.as_str(), "false") && !same_text(lower.as_str(), "0") && !same_text(
                lower.as_str(),
                "no",
            )
        },
        None => default,
    }
}

/// `STRICT_TOOL_VALIDATION`, on by default: unknown tool names are refused unless
/// `TOOL_PASS_THROUGH` or `TOOL_SYNTHETIC_OK` is on.
pub fn strict_tool_validation(value: Option<&str>) -> (flag: bool)
    ensures
        flag == flag_value(text::text_option(value), true),
{
    env_flag(value, true)
}

/// `TOOL_PASS_THROUGH`, on by default: tool calls reach the client even when their name is not in
/// the list of the request.
pub fn tool_pass_through(value: Option<&str>) -> (flag: bool)
    ensures
        flag == flag_value(text::text_option(value), true),
{
    env_flag(value, true)
}

/// `TOOL_SYNTHETIC_OK`, off by default: an unknown tool is reported to Qwen as having run.
pub fn tool_synthetic_ok(value: Option<&str>) -> (flag: bool)
    ensures
        flag == flag_value(text::text_option(value), false),
{
    env_flag(value, false)
}

/// The upstream model for a request: `QWEN_MODEL` where it is set and not empty; else the model
/// that the client asked for, where its name starts with `qwen3.7`; else [`MODEL_NAME`].
pub open spec fn upstream_model(
    env_model: Option<Seq<char>>,
    requested: Option<Seq<char>>,
) -> Seq<char> {
    if env_model is Some && env_model->0.len() > 0 {
        env_model->0
    } else if requested is Some && text::occurs_at(requested->0, "qwen3.7"@, 0) {
        requested->0
    } else {
        MODEL_NAME@
    }
}

/// The upstream model for a request, given the value of `QWEN_MODEL` and what the client asked
/// for.
pub fn qwen_upstream_model(env_model: Option<&str>, client_requested: Option<&str>) -> (model:
    String)
    ensures
        model@ == upstream_model(text::text_option(env_model), text::text_option(client_requested)),
{
    if let Some(m) = env_model {
        if !m.is_empty() {
            return m.to_owned();
        }
    }
    if let Some(m) = client_requested {
        if starts_with(m, "qwen3.7") {
            return m.to_owned();
        }
    }
    MODEL_NAME.to_owned()
}

/// A setting is off exactly where it reads `false`, `0` or `no`, in any case, or is not set and off
/// by default.
pub proof fn law_settings_are_off_by_three_words(v: Seq<char>, default: bool)
    ensures
        flag_value(None, default) == default,
        flag_value(Some(v), default) == flag_value(Some(v), !default),
        !flag_value(Some(v), default) <==> (text::lower_form(v) == "false"@ || text::lower_form(v)
            == "0"@ || text::lower_form(v) == "no"@),
{
}

/// The environment decides on the model, then the client among the models of its line, then the
/// default.
pub proof fn law_who_decides_on_the_model(
    set: Seq<char>,
    asked: Seq<char>,
    rest: Seq<char>,
    requested: Option<Seq<char>>,
)
    requires
        set.len() > 0,
        !text::occurs_at(asked, "qwen3.7"@, 0),
    ensures
        upstream_model(Some(set), requested) == set,
        upstream_model(None, Some("qwen3.7"@ + rest)) == "qwen3.7"@ + rest,
        upstream_model(Some(Seq::empty()), requested) == upstream_model(None, requested),
        upstream_model(None, Some(asked)) == "qwen3.7-max"@,
        upstream_model(None, None) == "qwen3.7-max"@,
{
    let named = "qwen3.7"@ + rest;
    assert(named.subrange(0, "qwen3.7"@.len() as int) =~= "qwen3.7"@);
}

} // verus!
