//! Histories that are too long for the model.
use vstd::prelude::*;

use crate::json;
use crate::json::{json_string, put, Json, JsonModel};
use crate::text;
use crate::text::same_text;

verus! {

/// How many of the latest messages are kept at most.
pub const RECENT_MESSAGES: usize = 20;

/// The length of a history, in bytes of JSON.
pub open spec fn history_len(messages: Seq<JsonModel>) -> nat {
    text::byte_len(json::json_text(JsonModel::Array(messages)))
}

/// How many system messages stand at the start of a history.
pub open spec fn system_count(messages: Seq<JsonModel>) -> nat
    decreases messages.len(),
{
    if messages.len() == 0 || messages[0].str_at("role"@) != Some("system"@) {
        0
    } else {
        1 + system_count(messages.skip(1))
    }
}

/// A history has at least as many messages as system messages at its start.
pub proof fn lemma_system_count(messages: Seq<JsonModel>)
    ensures
        system_count(messages) <= messages.len(),
    decreases messages.len(),
{
    if messages.len() > 0 {
        lemma_system_count(messages.skip(1));
    }
}

/// How many messages follow the system messages and are kept at first.
pub open spec fn recent_count(messages: Seq<JsonModel>) -> int {
    let others = messages.len() - system_count(messages);
    if others < RECENT_MESSAGES {
        others
    } else {
        RECENT_MESSAGES as int
    }
}

/// The system messages of a history and its latest messages.
pub open spec fn recent_history(messages: Seq<JsonModel>) -> Seq<JsonModel> {
    messages.take(system_count(messages) as int) + messages.skip(
        messages.len() - recent_count(messages),
    )
}

/// The fewest messages that a history is cut down to: its system messages and one more, or two.
pub open spec fn fewest(systems: int) -> int {
    if systems < 1 {
        2
    } else {
        systems + 1
    }
}

/// A history without as many of the oldest messages behind its system messages as it takes to fit
/// into `target`, or until few are left.
pub open spec fn shrunk(messages: Seq<JsonModel>, systems: int, target: int) -> Seq<JsonModel>
    decreases messages.len(),
{
    if history_len(messages) <= target || messages.len() <= fewest(systems) || systems < 0 {
        messages
    } else {
        shrunk(messages.remove(systems), systems, target)
    }
}

/// A history is too long: it exceeds the limit.
pub open spec fn too_long(messages: Seq<JsonModel>, max: int) -> bool {
    messages.len() > 0 && history_len(messages) > max
}

/// What is left of a history under a limit: all of it unless it is too long; else its system
/// messages and as many of the latest as fit into nine tenths of the limit.
pub open spec fn kept_history(messages: Seq<JsonModel>, max: int) -> Seq<JsonModel> {
    if too_long(messages, max) {
        shrunk(recent_history(messages), system_count(messages) as int, max - max / 10)
    } else {
        messages
    }
}

/// The length of a history, in bytes of JSON.
fn measure_history(messages: &Vec<Json>) -> (len: usize)
    ensures
        len == history_len(json::elements(messages@)),
{
    let written = json_string(&Json::array(messages));
    written.as_str().as_bytes().len()
}

/// How many system messages stand at the start of a history.
fn count_systems(messages: &Vec<Json>) -> (count: usize)
    ensures
        count == system_count(json::elements(messages@)),
{
    let ghost all = json::elements(messages@);
    let mut i: usize = 0;
    proof {
        json::lemma_elements(messages@);
    }
    assert(all.skip(0) =~= all);
    while i < messages.len()
        invariant
            i <= messages@.len(),
            all == json::elements(messages@),
            all.len() == messages@.len(),
            forall|j: int| 0 <= j < all.len() ==> #[trigger] all[j] == messages@[j]@,
            system_count(all) == i + system_count(all.skip(i as int)),
        decreases messages@.len() - i,
    {
        assert(all.skip(i as int).skip(1) =~= all.skip(i + 1));
        assert(all.skip(i as int)[0] == messages@[i as int]@);
        let system = match messages[i].str_at("role") {
            Some(role) => same_text(role, "system"),
            None => false,
        };
        if !system {
            return i;
        }
        i += 1;
    }
    i
}

/// The messages of a history from one position up to another.
fn copy_range(messages: &Vec<Json>, from: usize, to: usize) -> (part: Vec<Json>)
    requires
        from <= to <= messages@.len(),
    ensures
        json::elements(part@) == json::elements(messages@).subrange(from as int, to as int),
{
    let ghost all = json::elements(messages@);
    let mut part: Vec<Json> = Vec::new();
    let mut i: usize = from;
    proof {
        json::lemma_elements(messages@);
    }
    assert(all.subrange(from as int, from as int) =~= Seq::empty());
    while i < to
        invariant
            from <= i <= to <= messages@.len(),
            all.len() == messages@.len(),
            forall|j: int| 0 <= j < all.len() ==> #[trigger] all[j] == messages@[j]@,
            json::elements(part@) == all.subrange(from as int, i as int),
        decreases to - i,
    {
        let item = messages[i].copy();
        proof {
            json::lemma_elements_push(part@, item);
            assert(all.subrange(from as int, i + 1) =~= all.subrange(from as int, i as int).push(
                all[i as int],
            ));
        }
        part.push(item);
        i += 1;
    }
    part
}

/// Removing a message from a list removes it from the history.
proof fn lemma_remove(messages: Seq<Json>, at: int)
    requires
        0 <= at < messages.len(),
    ensures
        json::elements(messages.remove(at)) == json::elements(messages).remove(at),
{
    json::lemma_elements(messages);
    json::lemma_elements(messages.remove(at));
    assert(json::elements(messages.remove(at)) =~= json::elements(messages).remove(at));
}

/// What is left of a history under a limit.
fn keep_history(messages: &Vec<Json>, max: usize) -> (kept: Vec<Json>)
    ensures
        json::elements(kept@) == kept_history(json::elements(messages@), max as int),
{
    let ghost all = json::elements(messages@);
    proof {
        json::lemma_elements(messages@);
        lemma_system_count(all);
    }
    let len: usize = measure_history(messages);
    if messages.len() == 0 || len <= max {
        return json::copy_all(messages);
    }
    let target: usize = max - max / 10;
    let systems: usize = count_systems(messages);
    let others: usize = messages.len() - systems;
    if others == 0 {
        assert(recent_history(all) =~= all);
        return json::copy_all(messages);
    }
    let recent: usize = if others < RECENT_MESSAGES {
        others
    } else {
        RECENT_MESSAGES
    };
    let mut merged = copy_range(messages, 0, systems);
    let mut latest = copy_range(messages, messages.len() - recent, messages.len());
    proof {
        json::lemma_elements_add(merged@, latest@);
    }
    merged.append(&mut latest);
    let fewest: usize = if systems < 1 {
        2
    } else {
        systems + 1
    };
    proof {
        json::lemma_elements(merged@);
        assert(json::elements(merged@) =~= recent_history(all));
    }
    while merged.len() > fewest && measure_history(&merged) > target
        invariant
            fewest == self::fewest(systems as int),
            systems < fewest,
            kept_history(all, max as int) == shrunk(
                json::elements(merged@),
                systems as int,
                target as int,
            ),
            json::elements(merged@).len() == merged@.len(),
        decreases merged@.len(),
    {
        proof {
            json::lemma_elements(merged@);
            lemma_remove(merged@, systems as int);
        }
        merged.remove(systems);
    }
    merged
}

/// What is left of one list of messages of a request.
pub open spec fn kept_field(request: JsonModel, field: Seq<char>, max: int) -> JsonModel {
    match request.array_at(field) {
        Some(messages) => JsonModel::Object(
            request->Object_0.insert(field, JsonModel::Array(kept_history(messages, max))),
        ),
        None => request,
    }
}

/// A list of messages of a request loses some.
pub open spec fn loses(request: JsonModel, field: Seq<char>, max: int) -> bool {
    match request.array_at(field) {
        Some(messages) => kept_history(messages, max).len() < messages.len(),
        None => false,
    }
}

/// Cuts one list of messages of a request down to a limit.
fn truncate_field(v: &mut Json, field: &str, max: usize) -> (lost: bool)
    ensures
        final(v)@ == kept_field(old(v)@, field@, max as int),
        lost == loses(old(v)@, field@, max as int),
{
    let (kept, lost) = match v.array_at(field) {
        Some(messages) => {
            let kept = keep_history(messages, max);
            proof {
                json::lemma_elements(messages@);
                json::lemma_elements(kept@);
            }
            let lost = kept.len() < messages.len();
            (kept, lost)
        },
        None => {
            return false;
        },
    };
    if let Json::Object(entries) = v {
        put(entries, field, Json::Array(kept));
    }
    lost
}

/// What is left of a request whose histories are cut down to a limit.
pub open spec fn kept_request(request: JsonModel, max: int) -> JsonModel {
    kept_field(kept_field(request, "messages"@, max), "input"@, max)
}

/// Cuts the histories of a request down to a limit, each as [`kept_history`] says. Returns whether
/// any message is gone.
pub fn truncate_for_context_limit(v: &mut Json, max_chars: usize) -> (truncated: bool)
    ensures
        final(v)@ == kept_request(old(v)@, max_chars as int),
        truncated == (loses(old(v)@, "messages"@, max_chars as int) || loses(
            old(v)@,
            "input"@,
            max_chars as int,
        )),
{
    proof {
        reveal_strlit("messages");
        reveal_strlit("input");
        assert("messages"@.len() != "input"@.len());
    }
    let first = truncate_field(v, "messages", max_chars);
    let second = truncate_field(v, "input", max_chars);
    first || second
}

/// Cutting a history down spares its system messages, its last message, and as many messages as
/// the fewest that are left.
proof fn lemma_shrunk(messages: Seq<JsonModel>, systems: int, target: int)
    requires
        0 <= systems < messages.len(),
    ensures
        systems < shrunk(messages, systems, target).len() <= messages.len(),
        shrunk(messages, systems, target).take(systems) == messages.take(systems),
        shrunk(messages, systems, target).last() == messages.last(),
        history_len(shrunk(messages, systems, target)) <= target || shrunk(
            messages,
            systems,
            target,
        ).len() <= fewest(systems),
    decreases messages.len(),
{
    if history_len(messages) <= target || messages.len() <= fewest(systems) {
    } else {
        let rest = messages.remove(systems);
        lemma_shrunk(rest, systems, target);
        assert(rest.take(systems) =~= messages.take(systems));
        assert(rest.last() == messages.last());
    }
}

/// Of a history that has any message at all, what is kept starts with all its leading system
/// messages, ends with its last message, and is no longer; and where it was too long, it now fits
/// or has as few messages as may be.
pub proof fn law_truncation_keeps_both_ends(messages: Seq<JsonModel>, max: int)
    requires
        messages.len() > 0,
        max >= 0,
    ensures
        0 < kept_history(messages, max).len() <= messages.len(),
        kept_history(messages, max).len() >= system_count(messages),
        kept_history(messages, max).take(system_count(messages) as int) == messages.take(
            system_count(messages) as int,
        ),
        kept_history(messages, max).last() == messages.last(),
        too_long(messages, max) ==> history_len(kept_history(messages, max)) <= max - max / 10
            || kept_history(messages, max).len() <= fewest(system_count(messages) as int),
{
    let systems = system_count(messages) as int;
    lemma_system_count(messages);
    if too_long(messages, max) {
        let recent = recent_history(messages);
        if systems == messages.len() {
            assert(recent =~= messages);
        } else {
            lemma_shrunk(recent, systems, max - max / 10);
            assert(recent.take(systems) =~= messages.take(systems));
            assert(recent.last() == messages.last());
        }
    }
}

/// A history within the limit stays as it is.
pub proof fn law_short_history_stays(messages: Seq<JsonModel>, max: int)
    requires
        history_len(messages) <= max,
    ensures
        kept_history(messages, max) == messages,
{
}

/// The start of a history and its end, without a run between them.
pub open spec fn without_run(messages: Seq<JsonModel>, start: int, end: int) -> Seq<JsonModel> {
    messages.take(start) + messages.skip(end)
}

/// Cutting down a history without a run makes the run longer.
proof fn lemma_shrunk_lengthens_run(
    messages: Seq<JsonModel>,
    systems: int,
    end: int,
    target: int,
) -> (longer: int)
    requires
        0 <= systems <= end <= messages.len(),
    ensures
        end <= longer <= messages.len(),
        shrunk(without_run(messages, systems, end), systems, target) == without_run(
            messages,
            systems,
            longer,
        ),
    decreases messages.len() - end,
{
    let rest = without_run(messages, systems, end);
    if history_len(rest) <= target || rest.len() <= fewest(systems) {
        end
    } else {
        assert(rest.remove(systems) =~= without_run(messages, systems, end + 1));
        lemma_shrunk_lengthens_run(messages, systems, end + 1, target)
    }
}

/// What is dropped from a history is one run of messages, right behind its leading system
/// messages.
pub proof fn law_truncation_drops_one_run(messages: Seq<JsonModel>, max: int) -> (end: int)
    ensures
        system_count(messages) <= end <= messages.len(),
        kept_history(messages, max) == without_run(messages, system_count(messages) as int, end),
{
    let systems = system_count(messages) as int;
    lemma_system_count(messages);
    if too_long(messages, max) {
        lemma_shrunk_lengthens_run(
            messages,
            systems,
            messages.len() - recent_count(messages),
            max - max / 10,
        )
    } else {
        assert(without_run(messages, systems, systems) =~= messages);
        systems
    }
}

/// Truncation touches nothing of a request but its histories: every other member stays, and there is
/// a history where there was one.
pub proof fn law_truncation_touches_histories_only(request: JsonModel, key: Seq<char>, max: int)
    ensures
        key != "messages"@ && key != "input"@ ==> kept_request(request, max).get(key)
            == request.get(key),
        (kept_request(request, max).get("messages"@) is Some) == (request.get("messages"@) is Some),
        (kept_request(request, max).get("input"@) is Some) == (request.get("input"@) is Some),
        (kept_request(request, max).array_at("messages"@) is Some) == (request.array_at(
            "messages"@,
        ) is Some),
        (kept_request(request, max).array_at("input"@) is Some) == (request.array_at(
            "input"@,
        ) is Some),
        request.array_at("messages"@) is None ==> kept_request(request, max).get("messages"@)
            == request.get("messages"@),
        request.array_at("input"@) is None ==> kept_request(request, max).get("input"@)
            == request.get("input"@),
{
    reveal_strlit("messages");
    reveal_strlit("input");
    assert("messages"@.len() != "input"@.len());
}

/// A request whose histories are within the limit stays as it is.
pub proof fn law_short_request_stays(request: JsonModel, max: int)
    requires
        request.array_at("messages"@) matches Some(messages) ==> history_len(messages) <= max,
        request.array_at("input"@) matches Some(messages) ==> history_len(messages) <= max,
    ensures
        kept_request(request, max) == request,
{
    reveal_strlit("messages");
    reveal_strlit("input");
    assert("messages"@.len() != "input"@.len());
    lemma_short_field_stays(request, "messages"@, max);
    lemma_short_field_stays(request, "input"@, max);
}

/// A history of a request within the limit stays where it is.
proof fn lemma_short_field_stays(request: JsonModel, field: Seq<char>, max: int)
    requires
        request.array_at(field) matches Some(messages) ==> history_len(messages) <= max,
    ensures
        kept_field(request, field, max) == request,
{
    if let Some(messages) = request.array_at(field) {
        law_short_history_stays(messages, max);
        let members = request->Object_0;
        assert(members.insert(field, JsonModel::Array(messages)) =~= members);
    }
}

/// At most so many messages stay behind the leading system messages of a history that is cut; and
/// no more go than it takes: with the last one that went, it would be too long still.
pub proof fn law_truncation_goes_no_further_than_it_must(messages: Seq<JsonModel>, max: int)
    requires
        messages.len() > 0,
        max >= 0,
        too_long(messages, max),
    ensures
        kept_history(messages, max).len() <= system_count(messages) + RECENT_MESSAGES,
        kept_history(messages, max).len() < system_count(messages) + recent_count(messages)
            ==> history_len(
            messages.take(system_count(messages) as int) + messages.skip(
                messages.len() - (kept_history(messages, max).len() - system_count(messages)) - 1,
            ),
        ) > max - max / 10,
{
    let systems = system_count(messages) as int;
    lemma_system_count(messages);
    let recent = recent_history(messages);
    lemma_shrunk_no_further(messages, systems, messages.len() - recent_count(messages), max - max / 10);
}

/// Cutting a history down stops as soon as it fits.
proof fn lemma_shrunk_no_further(messages: Seq<JsonModel>, systems: int, end: int, target: int)
    requires
        0 <= systems <= end <= messages.len(),
    ensures
        ({
            let kept = shrunk(without_run(messages, systems, end), systems, target);
            &&& kept.len() <= systems + messages.len() - end
            &&& kept.len() < systems + messages.len() - end ==> history_len(
                without_run(messages, systems, messages.len() - (kept.len() - systems) - 1),
            ) > target
        }),
    decreases messages.len() - end,
{
    let rest = without_run(messages, systems, end);
    if history_len(rest) <= target || rest.len() <= fewest(systems) {
    } else {
        assert(rest.remove(systems) =~= without_run(messages, systems, end + 1));
        lemma_shrunk_no_further(messages, systems, end + 1, target);
    }
}

/// The system messages at the start of a history are counted up to the first message that is none.
pub proof fn law_leading_system_messages_are_counted(messages: Seq<JsonModel>)
    ensures
        system_count(messages) <= messages.len(),
        forall|i: int|
            0 <= i < system_count(messages) ==> (#[trigger] messages[i]).str_at("role"@) == Some(
                "system"@,
            ),
        system_count(messages) < messages.len() ==> messages[system_count(messages) as int].str_at(
            "role"@,
        ) != Some("system"@),
    decreases messages.len(),
{
    if messages.len() > 0 && messages[0].str_at("role"@) == Some("system"@) {
        let rest = messages.skip(1);
        law_leading_system_messages_are_counted(rest);
        assert forall|i: int| 0 <= i < system_count(messages) implies (#[trigger] messages[i]).str_at(
            "role"@,
        ) == Some("system"@) by {
            if i > 0 {
                assert(rest[i - 1] == messages[i]);
            }
        }
    }
}

/// A history whose JSON exceeds the limit is cut down until it fits into nine tenths of it, or has no
/// more than its system messages and one more, and two at least; twenty messages behind the system
/// messages stay at most. What stays behind them are the latest, without a gap.
pub proof fn law_long_histories_are_cut_down(messages: Seq<JsonModel>, max: int)
    requires
        messages.len() > 0,
        max >= 0,
        text::byte_len(json::json_text(JsonModel::Array(messages))) > max,
    ensures
        ({
            let kept = kept_history(messages, max);
            let systems = system_count(messages) as int;
            let behind = kept.len() - systems;
            &&& text::byte_len(json::json_text(JsonModel::Array(kept))) <= max - max / 10 || kept.len()
                <= systems + 1 || kept.len() <= 2
            &&& 0 <= behind <= 20
            &&& kept == messages.take(systems) + messages.skip(messages.len() - behind)
            &&& behind < 20 && behind < messages.len() - systems ==> text::byte_len(
                json::json_text(
                    JsonModel::Array(
                        messages.take(systems) + messages.skip(messages.len() - behind - 1),
                    ),
                ),
            ) > max - max / 10
        }),
{
    law_truncation_keeps_both_ends(messages, max);
    law_truncation_goes_no_further_than_it_must(messages, max);
    let end = law_truncation_drops_one_run(messages, max);
    let systems = system_count(messages) as int;
    lemma_system_count(messages);
    let kept = kept_history(messages, max);
    assert(kept.len() == systems + messages.len() - end);
    assert(messages.len() - (kept.len() - systems) == end);
}

} // verus!
