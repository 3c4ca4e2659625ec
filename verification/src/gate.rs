//! Validation of detected tool calls: which of them reach the client.
use vstd::prelude::*;

use crate::constants;
use crate::constants::{strict_tool_validation, tool_pass_through, tool_synthetic_ok};
use crate::detect;
use crate::detect::{CallModel, ToolCall};
use crate::json;
use crate::json::{json_string, Json, JsonModel};
use crate::names;
use crate::names::is_tool_name_allowed;
use crate::session::copy_option;
use crate::text;
use crate::text::as_text;

verus! {

/// What validation decides of a list of tool calls.
#[derive(Debug)]
pub enum ToolGateResult {
    /// These calls go to the client, and these messages to the model.
    Emit { emit: Vec<ToolCall>, synthetic_feedback: Vec<String> },
    /// Nothing goes to the client: these names are unknown.
    Blocked(Vec<String>),
}

/// What a [`ToolGateResult`] says.
pub enum GateModel {
    Emit { emit: Seq<CallModel>, feedback: Seq<Seq<char>> },
    Blocked(Seq<Seq<char>>),
}

impl ToolGateResult {
    /// What the decision says.
    pub open spec fn view(&self) -> GateModel {
        match self {
            ToolGateResult::Emit { emit, synthetic_feedback } => GateModel::Emit {
                emit: detect::calls(emit@),
                feedback: text::texts(synthetic_feedback@),
            },
            ToolGateResult::Blocked(names) => GateModel::Blocked(text::texts(names@)),
        }
    }
}

/// The names of the client's tools, in order; a tool without a name has none.
pub open spec fn tool_names(tools: Seq<JsonModel>) -> Seq<Seq<char>>
    decreases tools.len(),
{
    if tools.len() == 0 {
        Seq::empty()
    } else {
        match tools.last().str_at("name"@) {
            Some(name) => tool_names(tools.drop_last()).push(name),
            None => tool_names(tools.drop_last()),
        }
    }
}

/// The names of the client's tools, in order.
fn names_of_tools(tools: &Vec<Json>) -> (found: Vec<String>)
    ensures
        text::texts(found@) == tool_names(json::elements(tools@)),
{
    let ghost all = json::elements(tools@);
    let mut found: Vec<String> = Vec::new();
    let mut i: usize = 0;
    proof {
        json::lemma_elements(tools@);
    }
    assert(all.take(0) =~= Seq::empty());
    assert(text::texts(found@) =~= Seq::empty());
    while i < tools.len()
        invariant
            i <= tools@.len(),
            all.len() == tools@.len(),
            forall|j: int| 0 <= j < all.len() ==> #[trigger] all[j] == tools@[j]@,
            text::texts(found@) == tool_names(all.take(i as int)),
        decreases tools@.len() - i,
    {
        let ghost before = text::texts(found@);
        assert(all.take(i + 1).drop_last() =~= all.take(i as int));
        assert(all.take(i + 1).last() == tools@[i as int]@);
        if let Some(name) = tools[i].str_at("name") {
            found.push(name.to_owned());
            assert(text::texts(found@) =~= before.push(name@));
        }
        i += 1;
    }
    assert(all.take(i as int) =~= all);
    found
}

/// The calls of known tools, in order, each under the name that goes to the client.
pub open spec fn known_calls(list: Seq<CallModel>, names: Seq<Seq<char>>) -> Seq<CallModel>
    decreases list.len(),
{
    if list.len() == 0 {
        Seq::empty()
    } else {
        match names::canonical_name(list.last().name, names) {
            Some(name) => known_calls(list.drop_last(), names).push(
                CallModel { name, args: list.last().args },
            ),
            None => known_calls(list.drop_last(), names),
        }
    }
}

/// The calls of unknown tools, in order.
pub open spec fn unknown_calls(list: Seq<CallModel>, names: Seq<Seq<char>>) -> Seq<CallModel>
    decreases list.len(),
{
    if list.len() == 0 {
        Seq::empty()
    } else {
        match names::canonical_name(list.last().name, names) {
            Some(name) => unknown_calls(list.drop_last(), names),
            None => unknown_calls(list.drop_last(), names).push(list.last()),
        }
    }
}

/// The names of a list of calls.
pub open spec fn call_names(list: Seq<CallModel>) -> Seq<Seq<char>> {
    list.map_values(|call: CallModel| call.name)
}

/// The message that tells the model that a call went well.
pub open spec fn ok_message(call: CallModel) -> Seq<char> {
    "TOOL RESULT: OK — proxy executed tool \""@ + call.name
        + "\" successfully (synthetic; name was not in the client's tools list). Result: {\"ok\":true,\"args\":"@
        + json::json_text(call.args) + "}"@
}

/// Builds the message that tells the model that a call went well.
pub fn build_synthetic_tool_ok_feedback(tc: &ToolCall) -> (message: String)
    ensures
        message@ == ok_message(tc@),
{
    let mut message = "TOOL RESULT: OK — proxy executed tool \"".to_owned();
    message.push_str(tc.name.as_str());
    message.push_str(
        "\" successfully (synthetic; name was not in the client's tools list). Result: {\"ok\":true,\"args\":",
    );
    message.push_str(json_string(&tc.args).as_str());
    message.push_str("}");
    message
}

/// The messages that tell the model that its calls went well.
pub open spec fn ok_messages(list: Seq<CallModel>) -> Seq<Seq<char>> {
    list.map_values(|call: CallModel| ok_message(call))
}

/// What validation decides. Calls of known tools always pass. Unknown ones pass too with
/// `pass_through`, and the model hears that they went well with `synthetic_ok`; with neither,
/// strict validation blocks everything, and other validation drops them.
pub open spec fn gate(
    list: Seq<CallModel>,
    names: Seq<Seq<char>>,
    strict: bool,
    pass_through: bool,
    synthetic_ok: bool,
) -> GateModel {
    let known = known_calls(list, names);
    let unknown = unknown_calls(list, names);
    if unknown.len() > 0 && strict && !pass_through && !synthetic_ok {
        GateModel::Blocked(call_names(unknown))
    } else {
        GateModel::Emit {
            emit: if pass_through {
                known + unknown
            } else {
                known
            },
            feedback: if synthetic_ok {
                ok_messages(unknown)
            } else {
                Seq::empty()
            },
        }
    }
}

/// Builds the messages that tell the model that its calls went well.
fn ok_feedback(list: &Vec<ToolCall>) -> (messages: Vec<String>)
    ensures
        text::texts(messages@) == ok_messages(detect::calls(list@)),
{
    let mut messages: Vec<String> = Vec::new();
    let mut i: usize = 0;
    while i < list.len()
        invariant
            i <= list@.len(),
            messages@.len() == i,
            forall|j: int| 0 <= j < i ==> (#[trigger] messages@[j])@ == ok_message(list@[j]@),
        decreases list@.len() - i,
    {
        messages.push(build_synthetic_tool_ok_feedback(&list[i]));
        i += 1;
    }
    assert(text::texts(messages@) =~= ok_messages(detect::calls(list@)));
    messages
}

/// The names of a list of calls.
fn names_of_calls(list: &Vec<ToolCall>) -> (found: Vec<String>)
    ensures
        text::texts(found@) == call_names(detect::calls(list@)),
{
    let mut found: Vec<String> = Vec::new();
    let mut i: usize = 0;
    while i < list.len()
        invariant
            i <= list@.len(),
            found@.len() == i,
            forall|j: int| 0 <= j < i ==> (#[trigger] found@[j])@ == list@[j].name@,
        decreases list@.len() - i,
    {
        found.push(list[i].name.clone());
        i += 1;
    }
    assert(text::texts(found@) =~= call_names(detect::calls(list@)));
    found
}

/// Decides which of the detected calls go to the client.
pub fn validate_tool_calls_with_flags(
    tcs: Vec<ToolCall>,
    allowed: &Vec<Json>,
    strict: bool,
    pass_through: bool,
    synthetic_ok: bool,
) -> (result: ToolGateResult)
    ensures
        result@ == gate(
            detect::calls(tcs@),
            tool_names(json::elements(allowed@)),
            strict,
            pass_through,
            synthetic_ok,
        ),
{
    let allowed_names = names_of_tools(allowed);
    let ghost all = detect::calls(tcs@);
    let ghost names = text::texts(allowed_names@);
    let mut emit: Vec<ToolCall> = Vec::new();
    let mut unknown: Vec<ToolCall> = Vec::new();
    let mut i: usize = 0;
    assert(all.take(0) =~= Seq::empty());
    assert(detect::calls(emit@) =~= Seq::empty());
    assert(detect::calls(unknown@) =~= Seq::empty());
    while i < tcs.len()
        invariant
            i <= tcs@.len(),
            all == detect::calls(tcs@),
            names == text::texts(allowed_names@),
            detect::calls(emit@) == known_calls(all.take(i as int), names),
            detect::calls(unknown@) == unknown_calls(all.take(i as int), names),
        decreases tcs@.len() - i,
    {
        let ghost known_before = detect::calls(emit@);
        let ghost unknown_before = detect::calls(unknown@);
        assert(all.take(i + 1).drop_last() =~= all.take(i as int));
        match is_tool_name_allowed(tcs[i].name.as_str(), &allowed_names) {
            Some(name) => {
                let call = ToolCall { name, args: tcs[i].args.copy() };
                emit.push(call);
                assert(detect::calls(emit@) =~= known_before.push(call@));
            },
            None => {
                unknown.push(tcs[i].copy());
                assert(detect::calls(unknown@) =~= unknown_before.push(all[i as int]));
            },
        }
        i += 1;
    }
    assert(all.take(i as int) =~= all);
    assert(detect::calls(unknown@).len() == unknown@.len());
    let ghost known = detect::calls(emit@);
    if unknown.len() > 0 && strict && !pass_through && !synthetic_ok {
        return ToolGateResult::Blocked(names_of_calls(&unknown));
    }
    let synthetic_feedback: Vec<String> = if synthetic_ok {
        ok_feedback(&unknown)
    } else {
        Vec::new()
    };
    if !synthetic_ok {
        assert(text::texts(synthetic_feedback@) =~= Seq::empty());
    }
    if pass_through {
        let ghost rest = detect::calls(unknown@);
        emit.append(&mut unknown);
        assert(detect::calls(emit@) =~= known + rest);
    }
    ToolGateResult::Emit { emit, synthetic_feedback }
}

/// What the environment says of validation: the values of `STRICT_TOOL_VALIDATION`,
/// `TOOL_PASS_THROUGH` and `TOOL_SYNTHETIC_OK`, where they are set.
#[derive(Debug)]
pub struct GateSettings {
    pub strict_tool_validation: Option<String>,
    pub tool_pass_through: Option<String>,
    pub tool_synthetic_ok: Option<String>,
}

impl GateSettings {
    /// Whether unknown tools block a reply: unless the setting says otherwise.
    pub open spec fn strict(&self) -> bool {
        constants::flag_value(self@.strict_tool_validation, true)
    }

    /// Whether calls of unknown tools pass: unless the setting says otherwise.
    pub open spec fn pass_through(&self) -> bool {
        constants::flag_value(self@.tool_pass_through, true)
    }

    /// Whether the model hears that calls of unknown tools went well: only where the setting says
    /// so.
    pub open spec fn synthetic_ok(&self) -> bool {
        constants::flag_value(self@.tool_synthetic_ok, false)
    }
}

/// What [`GateSettings`] say.
pub struct SettingsModel {
    pub strict_tool_validation: Option<Seq<char>>,
    pub tool_pass_through: Option<Seq<char>>,
    pub tool_synthetic_ok: Option<Seq<char>>,
}

impl GateSettings {
    /// What the settings say.
    pub open spec fn view(&self) -> SettingsModel {
        SettingsModel {
            strict_tool_validation: text::string_option(self.strict_tool_validation),
            tool_pass_through: text::string_option(self.tool_pass_through),
            tool_synthetic_ok: text::string_option(self.tool_synthetic_ok),
        }
    }

    /// Settings that say the same.
    fn copy(&self) -> (settings: GateSettings)
        ensures
            settings@ == self@,
    {
        GateSettings {
            strict_tool_validation: copy_option(&self.strict_tool_validation),
            tool_pass_through: copy_option(&self.tool_pass_through),
            tool_synthetic_ok: copy_option(&self.tool_synthetic_ok),
        }
    }
}

/// The settings as they were read first: the environment decides once.
#[derive(Debug)]
pub struct FirstSettings {
    first: Option<GateSettings>,
}

/// The settings that count after a reading: those that were read first.
pub open spec fn settings_after(first: Option<SettingsModel>, read: SettingsModel) -> SettingsModel {
    match first {
        Some(settings) => settings,
        None => read,
    }
}

/// The settings that count after some readings, from the start.
pub open spec fn settings_after_all(readings: Seq<SettingsModel>) -> Option<SettingsModel>
    decreases readings.len(),
{
    if readings.len() == 0 {
        None
    } else {
        Some(settings_after(settings_after_all(readings.drop_last()), readings.last()))
    }
}

impl FirstSettings {
    /// The settings that were read first, if any were.
    pub closed spec fn view(&self) -> Option<SettingsModel> {
        match self.first {
            Some(settings) => Some(settings@),
            None => None,
        }
    }

    /// Nothing has been read yet.
    pub fn new() -> (settings: FirstSettings)
        ensures
            settings@ is None,
    {
        FirstSettings { first: None }
    }

    /// The settings that count, given what the environment says now.
    pub fn settings(&mut self, read: GateSettings) -> (settings: GateSettings)
        ensures
            settings@ == settings_after(old(self)@, read@),
            final(self)@ == Some(settings@),
    {
        match &self.first {
            Some(first) => first.copy(),
            None => {
                let settings = read.copy();
                self.first = Some(read);
                settings
            },
        }
    }
}

/// Whatever the environment becomes, the settings stay what they were when they were first read.
pub proof fn law_first_settings_stay(readings: Seq<SettingsModel>)
    requires
        readings.len() > 0,
    ensures
        settings_after_all(readings) == Some(readings[0]),
    decreases readings.len(),
{
    reveal_with_fuel(settings_after_all, 2);
    if readings.len() > 1 {
        law_first_settings_stay(readings.drop_last());
    }
}

/// Decides which of the detected calls go to the client, under the settings of the environment.
pub fn validate_tool_calls(
    tcs: Vec<ToolCall>,
    allowed: &Vec<Json>,
    settings: &GateSettings,
) -> (result: ToolGateResult)
    ensures
        result@ == gate(
            detect::calls(tcs@),
            tool_names(json::elements(allowed@)),
            settings.strict(),
            settings.pass_through(),
            settings.synthetic_ok(),
        ),
{
    validate_tool_calls_with_flags(
        tcs,
        allowed,
        strict_tool_validation(as_text(&settings.strict_tool_validation)),
        tool_pass_through(as_text(&settings.tool_pass_through)),
        tool_synthetic_ok(as_text(&settings.tool_synthetic_ok)),
    )
}

/// The calls of a list are either known or unknown.
proof fn lemma_known_or_unknown(list: Seq<CallModel>, names: Seq<Seq<char>>)
    ensures
        known_calls(list, names).len() + unknown_calls(list, names).len() == list.len(),
    decreases list.len(),
{
    if list.len() > 0 {
        lemma_known_or_unknown(list.drop_last(), names);
    }
}

/// Known calls go out under listed names.
proof fn lemma_known_listed(list: Seq<CallModel>, names: Seq<Seq<char>>)
    requires
        names.len() > 0,
    ensures
        forall|i: int|
            0 <= i < known_calls(list, names).len() ==> names.contains(
                (#[trigger] known_calls(list, names)[i]).name,
            ),
    decreases list.len(),
{
    if list.len() > 0 {
        lemma_known_listed(list.drop_last(), names);
        names::law_canonical_name_listed(list.last().name, names);
    }
}

/// Without a list of names every call is known, under its own name.
proof fn lemma_all_known(list: Seq<CallModel>)
    ensures
        known_calls(list, Seq::empty()) == list,
        unknown_calls(list, Seq::empty()) == Seq::<CallModel>::empty(),
    decreases list.len(),
{
    if list.len() > 0 {
        lemma_all_known(list.drop_last());
        assert(list.drop_last().push(list.last()) =~= list);
    } else {
        assert(list =~= Seq::empty());
    }
}

/// Without pass-through, no name that the client did not list goes out.
pub proof fn law_unlisted_names_stay_in(
    list: Seq<CallModel>,
    names: Seq<Seq<char>>,
    strict: bool,
    synthetic_ok: bool,
)
    requires
        names.len() > 0,
    ensures
        gate(list, names, strict, false, synthetic_ok) matches GateModel::Emit { emit, .. }
            ==> forall|i: int| 0 <= i < emit.len() ==> names.contains((#[trigger] emit[i]).name),
{
    lemma_known_listed(list, names);
}

/// With pass-through no call is lost: the known ones go out first, then the unknown ones as they
/// are.
pub proof fn law_pass_through_loses_nothing(
    list: Seq<CallModel>,
    names: Seq<Seq<char>>,
    strict: bool,
    synthetic_ok: bool,
)
    ensures
        gate(list, names, strict, true, synthetic_ok) is Emit,
        gate(list, names, strict, true, synthetic_ok)->emit == known_calls(list, names)
            + unknown_calls(list, names),
        gate(list, names, strict, true, synthetic_ok)->emit.len() == list.len(),
{
    lemma_known_or_unknown(list, names);
}

/// Strict validation without exceptions blocks exactly where a call is unknown, and then names every
/// unknown tool; otherwise every call goes out.
pub proof fn law_strict_gate(list: Seq<CallModel>, names: Seq<Seq<char>>)
    ensures
        match gate(list, names, true, false, false) {
            GateModel::Blocked(bad) => unknown_calls(list, names).len() > 0 && bad == call_names(
                unknown_calls(list, names),
            ),
            GateModel::Emit { emit, feedback } => unknown_calls(list, names).len() == 0
                && emit.len() == list.len() && feedback.len() == 0,
        },
{
    lemma_known_or_unknown(list, names);
}

/// With synthetic success alone, unknown calls stay in, and the model hears of each.
pub proof fn law_synthetic_ok_answers_each(
    list: Seq<CallModel>,
    names: Seq<Seq<char>>,
    strict: bool,
)
    ensures
        gate(list, names, strict, false, true) is Emit,
        gate(list, names, strict, false, true)->emit == known_calls(list, names),
        gate(list, names, strict, false, true)->feedback.len() == unknown_calls(list, names).len(),
{
}

/// Where the client lists no names, every call goes out as it is, whatever the settings.
pub proof fn law_no_list_lets_all_out(
    list: Seq<CallModel>,
    strict: bool,
    pass_through: bool,
    synthetic_ok: bool,
)
    ensures
        gate(list, Seq::empty(), strict, pass_through, synthetic_ok) == (GateModel::Emit {
            emit: list,
            feedback: Seq::empty(),
        }),
{
    lemma_all_known(list);
    assert(list + Seq::<CallModel>::empty() =~= list);
    assert(ok_messages(Seq::empty()) =~= Seq::empty());
}

/// Validation that is not strict and has no exceptions drops unknown calls without a word.
pub proof fn law_lenient_validation_drops_unknown(list: Seq<CallModel>, names: Seq<Seq<char>>)
    ensures
        gate(list, names, false, false, false) == (GateModel::Emit {
            emit: known_calls(list, names),
            feedback: Seq::empty(),
        }),
{
}

/// Calls are decided on one by one, in order: a known one goes out under the name that the client
/// gave, with its arguments as they are; an unknown one stays as it is.
pub proof fn law_calls_are_told_apart_one_by_one(
    list: Seq<CallModel>,
    call: CallModel,
    names: Seq<Seq<char>>,
)
    ensures
        known_calls(Seq::empty(), names).len() == 0,
        unknown_calls(Seq::empty(), names).len() == 0,
        names::canonical_name(call.name, names) matches Some(name) ==> known_calls(
            list.push(call),
            names,
        ) == known_calls(list, names).push(CallModel { name, args: call.args }) && unknown_calls(
            list.push(call),
            names,
        ) == unknown_calls(list, names),
        names::canonical_name(call.name, names) is None ==> known_calls(list.push(call), names)
            == known_calls(list, names) && unknown_calls(list.push(call), names) == unknown_calls(
            list,
            names,
        ).push(call),
{
    assert(list.push(call).drop_last() =~= list);
}

/// Where every call is of a tool that the client listed, all go out, in order and with their
/// arguments, whatever the settings.
pub proof fn law_listed_calls_all_go_out(
    list: Seq<CallModel>,
    names: Seq<Seq<char>>,
    strict: bool,
    pass_through: bool,
    synthetic_ok: bool,
)
    requires
        forall|i: int| 0 <= i < list.len() ==> names.contains((#[trigger] list[i]).name),
    ensures
        gate(list, names, strict, pass_through, synthetic_ok) is Emit,
        gate(list, names, strict, pass_through, synthetic_ok)->emit == list,
        gate(list, names, strict, pass_through, synthetic_ok)->feedback.len() == 0,
{
    lemma_listed(list, names);
    assert(list + Seq::<CallModel>::empty() =~= list);
}

/// Calls of listed tools are known, as they are.
proof fn lemma_listed(list: Seq<CallModel>, names: Seq<Seq<char>>)
    requires
        forall|i: int| 0 <= i < list.len() ==> names.contains((#[trigger] list[i]).name),
    ensures
        known_calls(list, names) == list,
        unknown_calls(list, names) == Seq::<CallModel>::empty(),
    decreases list.len(),
{
    if list.len() == 0 {
        assert(known_calls(list, names) =~= list);
    } else {
        let last = list.last();
        assert(names.contains(list[list.len() - 1].name));
        assert(forall|i: int|
            0 <= i < list.drop_last().len() ==> #[trigger] list.drop_last()[i] == list[i]);
        lemma_listed(list.drop_last(), names);
        assert(list.drop_last().push(last) =~= list);
    }
}

/// What the model hears of a call that it is told went well: the name and the arguments. It hears of
/// every call that stayed in, in order, and of nothing without that setting.
pub proof fn law_synthetic_messages_name_their_calls(
    list: Seq<CallModel>,
    names: Seq<Seq<char>>,
    strict: bool,
    pass_through: bool,
    i: int,
)
    requires
        0 <= i < unknown_calls(list, names).len(),
    ensures
        ({
            let message = gate(list, names, strict, pass_through, true)->feedback[i];
            &&& text::has_part(message, unknown_calls(list, names)[i].name)
            &&& text::has_part(message, json::json_text(unknown_calls(list, names)[i].args))
        }),
        gate(list, names, false, pass_through, false)->feedback.len() == 0,
{
    let call = unknown_calls(list, names)[i];
    let start = "TOOL RESULT: OK — proxy executed tool \""@;
    let middle =
        "\" successfully (synthetic; name was not in the client's tools list). Result: {\"ok\":true,\"args\":"@;
    let args = json::json_text(call.args);
    let message = ok_message(call);
    assert(message == start + call.name + middle + args + "}"@);
    let at = start.len() as int;
    assert(message.subrange(at, at + call.name.len()) =~= call.name);
    assert(text::occurs_at(message, call.name, at));
    let then = (start + call.name + middle).len() as int;
    assert(message.subrange(then, then + args.len()) =~= args);
    assert(text::occurs_at(message, args, then));
}

/// The names of the tools are read one by one, in order.
pub proof fn law_tools_are_named_in_order(tools: Seq<JsonModel>, tool: JsonModel, name: Seq<char>)
    ensures
        tool_names(Seq::empty()).len() == 0,
        tool.get("name"@) == Some(JsonModel::Str(name)) ==> tool_names(tools.push(tool))
            == tool_names(tools).push(name),
        !(tool.at("name"@) is Str) ==> tool_names(tools.push(tool)) == tool_names(tools),
{
    assert(tools.push(tool).drop_last() =~= tools);
}

/// Validation is strict and lets unknown calls pass unless the settings say otherwise, and tells the
/// model nothing of them unless they say so.
pub proof fn law_settings_that_say_nothing(settings: GateSettings)
    ensures
        settings.strict_tool_validation is None ==> settings.strict(),
        settings.tool_pass_through is None ==> settings.pass_through(),
        settings.tool_synthetic_ok is None ==> !settings.synthetic_ok(),
        settings.strict_tool_validation matches Some(v) ==> settings.strict() == constants::flag_value(
            Some(v@),
            true,
        ),
        settings.tool_pass_through matches Some(v) ==> settings.pass_through()
            == constants::flag_value(Some(v@), true),
        settings.tool_synthetic_ok matches Some(v) ==> settings.synthetic_ok()
            == constants::flag_value(Some(v@), false),
{
}

} // verus!
