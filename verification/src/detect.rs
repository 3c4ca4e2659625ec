//! Tool calls in model output.
use vstd::prelude::*;
use vstd::utf8::*;

use crate::json;
use crate::json::{parse_json, put, Json, JsonModel};
use crate::patterns;
use crate::patterns::{fenced_blocks, normalize_tool_call_text};
use crate::text;
use crate::text::{byte_slice, chars_of, contains, lines, same_text, trim};

verus! {

/// A call of a tool: its name and its arguments.
#[derive(Debug)]
pub struct ToolCall {
    pub name: String,
    pub args: Json,
}

/// What a [`ToolCall`] says.
pub struct CallModel {
    pub name: Seq<char>,
    pub args: JsonModel,
}

impl ToolCall {
    /// What the call says.
    pub open spec fn view(&self) -> CallModel {
        CallModel { name: self.name@, args: self.args@ }
    }
}

/// The calls of a list, in order.
pub open spec fn calls(list: Seq<ToolCall>) -> Seq<CallModel> {
    Seq::new(list.len(), |i: int| list[i]@)
}

/// Two calls are equal: the same name with equal arguments.
pub open spec fn same_call(a: CallModel, b: CallModel) -> bool {
    a.name == b.name && json::same_json(a.args, b.args)
}

impl ToolCall {
    /// A call that says the same.
    pub fn copy(&self) -> (call: ToolCall)
        ensures
            call@ == self@,
    {
        ToolCall { name: self.name.clone(), args: self.args.copy() }
    }

    /// Whether two calls are equal.
    pub fn same_as(&self, other: &ToolCall) -> (same: bool)
        ensures
            same == same_call(self@, other@),
    {
        same_text(self.name.as_str(), other.name.as_str()) && self.args.same_as(&other.args)
    }
}

impl Clone for ToolCall {
    fn clone(&self) -> (call: ToolCall)
        ensures
            call@ == self@,
    {
        self.copy()
    }
}

impl PartialEq for ToolCall {
    fn eq(&self, other: &ToolCall) -> (same: bool) {
        self.same_as(other)
    }
}

impl vstd::std_specs::cmp::PartialEqSpecImpl for ToolCall {
    open spec fn obeys_eq_spec() -> bool {
        true
    }

    open spec fn eq_spec(&self, other: &ToolCall) -> bool {
        same_call(self@, other@)
    }
}

/// How far a scan of JSON text has come: how many braces are open, whether it stands inside a
/// string, and whether the next byte is escaped there.
pub struct Scan {
    pub depth: int,
    pub in_string: bool,
    pub escape: bool,
}

/// The scan of the bytes from `start` up to `end`.
pub open spec fn scan(bytes: Seq<u8>, start: int, end: int) -> Scan
    decreases end - start,
{
    if end <= start {
        Scan { depth: 0, in_string: false, escape: false }
    } else {
        let s = scan(bytes, start, end - 1);
        let b = bytes[end - 1];
        if s.escape {
            Scan { escape: false, ..s }
        } else if s.in_string && b == 0x5C {
            Scan { escape: true, ..s }
        } else if b == 0x22 {
            Scan { in_string: !s.in_string, ..s }
        } else if !s.in_string && b == 0x7B {
            Scan { depth: s.depth + 1, ..s }
        } else if !s.in_string && b == 0x7D {
            Scan { depth: s.depth - 1, ..s }
        } else {
            s
        }
    }
}

/// The byte at `at` closes, outside any string, the last brace that has been open since `start`.
pub open spec fn closes_at(bytes: Seq<u8>, start: int, at: int) -> bool {
    let s = scan(bytes, start, at);
    bytes[at] == 0x7D && !s.in_string && s.depth == 1
}

/// The first position, from `from` on, that closes what opened since `start`.
pub open spec fn close_from(bytes: Seq<u8>, start: int, from: int) -> Option<int>
    decreases bytes.len() - from,
{
    if from >= bytes.len() {
        None
    } else if closes_at(bytes, start, from) {
        Some(from)
    } else {
        close_from(bytes, start, from + 1)
    }
}

/// The position of the first opening brace, from `from` on.
pub open spec fn brace_from(bytes: Seq<u8>, from: int) -> Option<int>
    decreases bytes.len() - from,
{
    if from < 0 || from >= bytes.len() {
        None
    } else if bytes[from] == 0x7B {
        Some(from)
    } else {
        brace_from(bytes, from + 1)
    }
}

/// Where a brace is found, it is an opening brace at or after the start.
proof fn lemma_brace(bytes: Seq<u8>, from: int)
    requires
        0 <= from,
    ensures
        brace_from(bytes, from) matches Some(at) ==> from <= at < bytes.len() && bytes[at] == 0x7B,
    decreases bytes.len() - from,
{
    if from < bytes.len() && bytes[from] != 0x7B {
        lemma_brace(bytes, from + 1);
    }
}

/// Where a close is found, it is a closing brace at or after the start.
proof fn lemma_close(bytes: Seq<u8>, start: int, from: int)
    requires
        0 <= from,
    ensures
        close_from(bytes, start, from) matches Some(at) ==> from <= at < bytes.len() && bytes[at]
            == 0x7D && closes_at(bytes, start, at),
    decreases bytes.len() - from,
{
    if from < bytes.len() && !closes_at(bytes, start, from) {
        lemma_close(bytes, start, from + 1);
    }
}

/// A scan counts at most one brace per byte.
proof fn lemma_scan_bound(bytes: Seq<u8>, start: int, end: int)
    requires
        start <= end,
    ensures
        -(end - start) <= scan(bytes, start, end).depth <= end - start,
        scan(bytes, start, end).escape ==> scan(bytes, start, end).in_string,
    decreases end - start,
{
    if start < end {
        lemma_scan_bound(bytes, start, end - 1);
    }
}

/// The byte position at which the JSON object that starts at `start` ends.
pub fn find_json_object_end(text: &str, start: usize) -> (end: Option<usize>)
    ensures
        match end {
            Some(e) => close_from(encode_utf8(text@), start as int, start as int) == Some(e as int),
            None => close_from(encode_utf8(text@), start as int, start as int) is None,
        },
{
    let bytes: &[u8] = text.as_bytes();
    let mut depth: i128 = 0;
    let mut in_string = false;
    let mut escape = false;
    let len: usize = bytes.len();
    let mut i: usize = start;
    while i < len
        invariant
            start <= i,
            len == bytes@.len(),
            bytes@ == encode_utf8(text@),
            depth == scan(bytes@, start as int, i as int).depth,
            in_string == scan(bytes@, start as int, i as int).in_string,
            escape == scan(bytes@, start as int, i as int).escape,
            close_from(bytes@, start as int, start as int) == close_from(
                bytes@,
                start as int,
                i as int,
            ),
        decreases bytes@.len() - i,
    {
        proof {
            lemma_scan_bound(bytes@, start as int, i as int);
        }
        let b: u8 = bytes[i];
        if escape {
            escape = false;
        } else if in_string && b == 0x5C {
            escape = true;
        } else if b == 0x22 {
            in_string = !in_string;
        } else if !in_string {
            if b == 0x7B {
                depth = depth + 1;
            } else if b == 0x7D {
                if depth == 1 {
                    return Some(i);
                }
                depth = depth - 1;
            }
        }
        i += 1;
    }
    None
}

/// The position of the first opening brace, from `from` on.
fn find_brace(text: &str, from: usize) -> (at: Option<usize>)
    ensures
        match at {
            Some(i) => brace_from(encode_utf8(text@), from as int) == Some(i as int),
            None => brace_from(encode_utf8(text@), from as int) is None,
        },
{
    let bytes: &[u8] = text.as_bytes();
    let mut i: usize = from;
    while i < bytes.len()
        invariant
            from <= i,
            bytes@ == encode_utf8(text@),
            brace_from(bytes@, from as int) == brace_from(bytes@, i as int),
        decreases bytes@.len() - i,
    {
        if bytes[i] == 0x7B {
            return Some(i);
        }
        i += 1;
    }
    None
}

/// The JSON objects of a text, from byte position `from` on: each reaches from an opening brace
/// to the brace that closes it; a brace that nothing closes is passed over.
pub open spec fn objects_from(text: Seq<char>, from: int) -> Seq<Seq<char>>
    decreases text::byte_len(text) - from,
{
    let bytes = encode_utf8(text);
    match brace_from(bytes, from) {
        Some(start) => if 0 <= from <= start < bytes.len() {
            match close_from(bytes, start, start) {
                Some(end) => if start <= end < bytes.len() {
                    seq![text::byte_range(text, start, end + 1)] + objects_from(text, end + 1)
                } else {
                    Seq::empty()
                },
                None => objects_from(text, start + 1),
            }
        } else {
            Seq::empty()
        },
        None => Seq::empty(),
    }
}

/// The JSON objects of a text.
pub open spec fn json_objects(text: Seq<char>) -> Seq<Seq<char>> {
    objects_from(text, 0)
}

/// The JSON objects of a text.
pub fn extract_json_blocks(text: &str) -> (blocks: Vec<String>)
    ensures
        text::texts(blocks@) == json_objects(text@),
{
    let mut blocks: Vec<String> = Vec::new();
    let mut from: usize = 0;
    let len: usize = text.as_bytes().len();
    assert(text::texts(blocks@) =~= Seq::empty());
    while from < len
        invariant
            from <= len == text::byte_len(text@),
            json_objects(text@) == text::texts(blocks@) + objects_from(text@, from as int),
        decreases len - from,
    {
        let ghost before = text::texts(blocks@);
        let ghost bytes = encode_utf8(text@);
        proof {
            lemma_brace(bytes, from as int);
        }
        match find_brace(text, from) {
            Some(start) => {
                proof {
                    lemma_close(bytes, start as int, start as int);
                }
                match find_json_object_end(text, start) {
                    Some(end) => {
                        proof {
                            text::lemma_ascii_cut(text@, start as int);
                            text::lemma_ascii_cut(text@, end as int);
                        }
                        let block = byte_slice(text, start, end + 1);
                        blocks.push(block);
                        assert(text::texts(blocks@) =~= before + seq![block@]);
                        from = end + 1;
                        assert(json_objects(text@) =~= text::texts(blocks@) + objects_from(
                            text@,
                            from as int,
                        ));
                    },
                    None => {
                        from = start + 1;
                    },
                }
            },
            None => {
                assert(json_objects(text@) =~= text::texts(blocks@));
                return blocks;
            },
        }
    }
    assert(objects_from(text@, from as int) =~= Seq::empty());
    assert(json_objects(text@) =~= text::texts(blocks@));
    blocks
}

/// The order of keys: by code point, a prefix first.
pub open spec fn key_less(a: Seq<char>, b: Seq<char>) -> bool
    decreases a.len(),
{
    if b.len() == 0 {
        false
    } else if a.len() == 0 {
        true
    } else if a[0] != b[0] {
        a[0] < b[0]
    } else {
        key_less(a.skip(1), b.skip(1))
    }
}

/// Of two different keys exactly one is the lesser.
proof fn lemma_key_order(a: Seq<char>, b: Seq<char>)
    ensures
        !(key_less(a, b) && key_less(b, a)),
        a != b ==> key_less(a, b) || key_less(b, a),
    decreases a.len(),
{
    if a.len() > 0 && b.len() > 0 {
        if a[0] == b[0] {
            lemma_key_order(a.skip(1), b.skip(1));
            if a.skip(1) == b.skip(1) {
                assert(a =~= seq![a[0]] + a.skip(1));
                assert(b =~= seq![b[0]] + b.skip(1));
            }
        }
    } else {
        if a.len() == 0 && b.len() == 0 {
            assert(a =~= b);
        }
    }
}

/// Whether one key is less than another.
fn key_before(a: &str, b: &str) -> (less: bool)
    ensures
        less == key_less(a@, b@),
{
    let x = chars_of(a);
    let y = chars_of(b);
    let mut i: usize = 0;
    assert(x@.skip(0) =~= x@);
    assert(y@.skip(0) =~= y@);
    while i < x.len() && i < y.len()
        invariant
            i <= x@.len(),
            i <= y@.len(),
            x@ == a@,
            y@ == b@,
            key_less(x@, y@) == key_less(x@.skip(i as int), y@.skip(i as int)),
        decreases x@.len() - i,
    {
        if x[i] != y[i] {
            return x[i] < y[i];
        }
        assert(x@.skip(i as int).skip(1) =~= x@.skip(i + 1));
        assert(y@.skip(i as int).skip(1) =~= y@.skip(i + 1));
        i += 1;
    }
    i < y.len()
}

/// Of the keys that are the same once trimmed, `key` is the last in order, and not blank.
pub open spec fn prevails(args: Map<Seq<char>, JsonModel>, key: Seq<char>) -> bool {
    &&& args.dom().contains(key)
    &&& text::trimmed(key).len() > 0
    &&& forall|k: Seq<char>|
        #[trigger] args.dom().contains(k) && text::trimmed(k) == text::trimmed(key) ==> !key_less(
            key,
            k,
        )
}

/// The arguments under their trimmed keys, without blank ones; of keys that trim to the same, the
/// last in order prevails.
pub open spec fn trimmed_keys(args: Map<Seq<char>, JsonModel>) -> Map<Seq<char>, JsonModel> {
    Map::new(
        |key: Seq<char>| exists|k: Seq<char>| #[trigger] prevails(args, k) && text::trimmed(k) == key,
        |key: Seq<char>|
            args[choose|k: Seq<char>| #[trigger] prevails(args, k) && text::trimmed(k) == key],
    )
}

/// At most one key prevails under each trimmed key.
proof fn lemma_prevails_once(args: Map<Seq<char>, JsonModel>, a: Seq<char>, b: Seq<char>)
    requires
        prevails(args, a),
        prevails(args, b),
        text::trimmed(a) == text::trimmed(b),
    ensures
        a == b,
{
    lemma_key_order(a, b);
}

/// Whether the key at position `i` prevails.
fn key_prevails(entries: &Vec<(String, Json)>, i: usize) -> (yes: bool)
    requires
        i < entries@.len(),
    ensures
        yes == prevails(json::members(entries@), entries@[i as int].0@),
{
    let ghost args = json::members(entries@);
    let key = entries[i].0.as_str();
    let bare = trim(key);
    proof {
        json::lemma_keys(entries@, i as int);
    }
    if bare.as_str().is_empty() {
        return false;
    }
    let mut j: usize = 0;
    while j < entries.len()
        invariant
            j <= entries@.len(),
            i < entries@.len(),
            key@ == entries@[i as int].0@,
            bare@ == text::trimmed(key@),
            args == json::members(entries@),
            forall|k: int|
                0 <= k < j && text::trimmed((#[trigger] entries@[k]).0@) == bare@ ==> !key_less(
                    key@,
                    entries@[k].0@,
                ),
        decreases entries@.len() - j,
    {
        if same_text(trim(entries[j].0.as_str()).as_str(), bare.as_str()) && key_before(
            key,
            entries[j].0.as_str(),
        ) {
            proof {
                json::lemma_keys(entries@, j as int);
                assert(args.dom().contains(entries@[j as int].0@));
            }
            return false;
        }
        j += 1;
    }
    proof {
        assert forall|k: Seq<char>| #[trigger]
            args.dom().contains(k) && text::trimmed(k) == text::trimmed(key@) implies !key_less(
            key@,
            k,
        ) by {
            json::lemma_member_index(entries@, k);
            let at = json::member_index(entries@, k)->0;
            assert(entries@[at].0@ == k);
        }
    }
    true
}

/// The arguments of a call under their trimmed keys; what is no object stays as it is.
pub open spec fn sanitized(args: JsonModel) -> JsonModel {
    match args {
        JsonModel::Object(m) => JsonModel::Object(trimmed_keys(m)),
        _ => args,
    }
}

/// The arguments of a call under their trimmed keys.
pub fn sanitize_tool_args(args: &Json) -> (clean: Json)
    ensures
        clean@ == sanitized(args@),
{
    match args {
        Json::Object(entries) => {
            let ghost all = json::members(entries@);
            let mut out: Vec<(String, Json)> = Vec::new();
            let mut i: usize = 0;
            while i < entries.len()
                invariant
                    i <= entries@.len(),
                    all == json::members(entries@),
                    args@ == JsonModel::Object(all),
                    forall|t: Seq<char>| #[trigger]
                        json::members(out@).dom().contains(t) ==> exists|k: Seq<char>| #[trigger]
                            prevails(all, k) && text::trimmed(k) == t && json::members(out@)[t]
                                == all[k],
                    forall|j: int|
                        0 <= j < i && prevails(all, (#[trigger] entries@[j]).0@)
                            ==> json::members(out@).dom().contains(
                            text::trimmed(entries@[j].0@),
                        ),
                decreases entries@.len() - i,
            {
                let ghost before = json::members(out@);
                if key_prevails(entries, i) {
                    let key = entries[i].0.as_str();
                    proof {
                        json::lemma_member_index(entries@, key@);
                    }
                    let bare = trim(key);
                    if let Some(value) = args.get(key) {
                        put(&mut out, bare.as_str(), value.copy());
                        assert forall|t: Seq<char>| #[trigger]
                            json::members(out@).dom().contains(t) implies exists|k: Seq<char>|
                            #[trigger] prevails(all, k) && text::trimmed(k) == t && json::members(
                                out@,
                            )[t] == all[k] by {
                            if t == bare@ {
                                assert(prevails(all, key@) && text::trimmed(key@) == t);
                            } else {
                                assert(before.dom().contains(t));
                            }
                        }
                    }
                }
                i += 1;
            }
            proof {
                let goal = trimmed_keys(all);
                assert forall|t: Seq<char>|
                    json::members(out@).dom().contains(t) == goal.dom().contains(t) by {
                    if goal.dom().contains(t) {
                        let k = choose|k: Seq<char>| #[trigger]
                            prevails(all, k) && text::trimmed(k) == t;
                        json::lemma_member_index(entries@, k);
                        let at = json::member_index(entries@, k)->0;
                        assert(entries@[at].0@ == k);
                    }
                }
                assert forall|t: Seq<char>| goal.dom().contains(t) implies json::members(out@)[t]
                    == goal[t] by {
                    assert(json::members(out@).dom().contains(t));
                    let k = choose|k: Seq<char>| #[trigger]
                        prevails(all, k) && text::trimmed(k) == t && json::members(out@)[t]
                            == all[k];
                    let c = choose|k: Seq<char>| #[trigger]
                        prevails(all, k) && text::trimmed(k) == t;
                    lemma_prevails_once(all, k, c);
                }
                assert(json::members(out@) =~= goal);
            }
            Json::Object(out)
        },
        _ => args.copy(),
    }
}

/// The call that a JSON value asks for: a name under `tool` that is not blank and an object under
/// `args`.
pub open spec fn call_in(value: JsonModel) -> Option<CallModel> {
    match value.str_at("tool"@) {
        Some(name) => if text::trimmed(name).len() == 0 {
            None
        } else {
            match value.get("args"@) {
                Some(JsonModel::Object(args)) => Some(
                    CallModel {
                        name: text::trimmed(name),
                        args: JsonModel::Object(trimmed_keys(args)),
                    },
                ),
                _ => None,
            }
        },
        None => None,
    }
}

/// The call that a JSON value asks for.
pub fn tool_call_of(value: &Json) -> (call: Option<ToolCall>)
    ensures
        match call {
            Some(c) => call_in(value@) == Some(c@),
            None => call_in(value@) is None,
        },
{
    match value.str_at("tool") {
        Some(raw) => {
            let name = trim(raw);
            if name.as_str().is_empty() {
                return None;
            }
            match value.get("args") {
                Some(args) => match args {
                    Json::Object(_) => Some(ToolCall { name, args: sanitize_tool_args(args) }),
                    _ => None,
                },
                None => None,
            }
        },
        None => None,
    }
}

/// The call that JSON text asks for, once it is free of artifacts.
pub open spec fn call_in_text(text: Seq<char>) -> Option<CallModel> {
    match json::json_parse(patterns::clean_text(text)) {
        Ok(value) => call_in(value),
        Err(_) => None,
    }
}

/// The call that JSON text asks for.
pub fn try_parse_tool_json(text: &str) -> (call: Option<ToolCall>)
    ensures
        match call {
            Some(c) => call_in_text(text@) == Some(c@),
            None => call_in_text(text@) is None,
        },
        call is Some == (json::json_parse(patterns::clean_text(text@)) matches Ok(value) && value.at(
            "tool"@,
        ) is Str && text::trimmed(value.at("tool"@)->Str_0).len() > 0 && value.at("args"@) is Object),
        call matches Some(c) ==> (json::json_parse(patterns::clean_text(text@)) matches Ok(value)
            && c@.name == text::trimmed(value.at("tool"@)->Str_0) && c@.args == sanitized(
            value.at("args"@),
        )),
{
    let clean = normalize_tool_call_text(text);
    match parse_json(clean.as_str()) {
        Ok(value) => tool_call_of(&value),
        Err(_) => None,
    }
}

/// The calls that a list of JSON texts asks for, in order.
pub open spec fn calls_in_texts(texts: Seq<Seq<char>>) -> Seq<CallModel>
    decreases texts.len(),
{
    if texts.len() == 0 {
        Seq::empty()
    } else {
        match call_in_text(texts.last()) {
            Some(call) => calls_in_texts(texts.drop_last()).push(call),
            None => calls_in_texts(texts.drop_last()),
        }
    }
}

/// The calls that a list of JSON texts asks for, in order.
fn parse_calls(texts: &Vec<String>) -> (found: Vec<ToolCall>)
    ensures
        calls(found@) == calls_in_texts(text::texts(texts@)),
{
    let ghost all = text::texts(texts@);
    let mut found: Vec<ToolCall> = Vec::new();
    let mut i: usize = 0;
    assert(all.take(0) =~= Seq::empty());
    assert(calls(found@) =~= Seq::empty());
    while i < texts.len()
        invariant
            i <= texts@.len(),
            all == text::texts(texts@),
            calls(found@) == calls_in_texts(all.take(i as int)),
        decreases texts@.len() - i,
    {
        let ghost before = calls(found@);
        assert(all.take(i + 1).drop_last() =~= all.take(i as int));
        if let Some(call) = try_parse_tool_json(texts[i].as_str()) {
            found.push(call);
            assert(calls(found@) =~= before.push(call@));
        }
        i += 1;
    }
    assert(all.take(i as int) =~= all);
    found
}

/// A list of calls holds one that is equal to `call`.
pub open spec fn holds_call(list: Seq<CallModel>, call: CallModel) -> bool {
    exists|i: int| 0 <= i < list.len() && same_call(#[trigger] list[i], call)
}

/// A list of calls, each only where no equal one stands before it.
pub open spec fn distinct(list: Seq<CallModel>) -> Seq<CallModel>
    decreases list.len(),
{
    if list.len() == 0 {
        Seq::empty()
    } else {
        let before = distinct(list.drop_last());
        if holds_call(before, list.last()) {
            before
        } else {
            before.push(list.last())
        }
    }
}

/// Whether a list of calls holds one that is equal to `call`.
fn contains_call(list: &Vec<ToolCall>, call: &ToolCall) -> (yes: bool)
    ensures
        yes == holds_call(calls(list@), call@),
{
    let mut i: usize = 0;
    while i < list.len()
        invariant
            i <= list@.len(),
            forall|j: int| 0 <= j < i ==> !same_call(#[trigger] calls(list@)[j], call@),
        decreases list@.len() - i,
    {
        if list[i].same_as(call) {
            assert(same_call(calls(list@)[i as int], call@));
            return true;
        }
        i += 1;
    }
    false
}

/// A list of calls, each only where no equal one stands before it.
pub fn distinct_calls(list: &Vec<ToolCall>) -> (found: Vec<ToolCall>)
    ensures
        calls(found@) == distinct(calls(list@)),
{
    let ghost all = calls(list@);
    let mut found: Vec<ToolCall> = Vec::new();
    let mut i: usize = 0;
    assert(all.take(0) =~= Seq::empty());
    assert(calls(found@) =~= Seq::empty());
    while i < list.len()
        invariant
            i <= list@.len(),
            all == calls(list@),
            calls(found@) == distinct(all.take(i as int)),
        decreases list@.len() - i,
    {
        let ghost before = calls(found@);
        assert(all.take(i + 1).drop_last() =~= all.take(i as int));
        if !contains_call(&found, &list[i]) {
            found.push(list[i].copy());
            assert(calls(found@) =~= before.push(all[i as int]));
        }
        i += 1;
    }
    assert(all.take(i as int) =~= all);
    found
}

/// The texts of a list, each trimmed.
pub open spec fn all_trimmed(texts: Seq<Seq<char>>) -> Seq<Seq<char>> {
    texts.map_values(|t: Seq<char>| text::trimmed(t))
}

/// The texts of a list, each trimmed.
fn trim_all(texts: &Vec<String>) -> (out: Vec<String>)
    ensures
        text::texts(out@) == all_trimmed(text::texts(texts@)),
{
    let mut out: Vec<String> = Vec::new();
    let mut i: usize = 0;
    while i < texts.len()
        invariant
            i <= texts@.len(),
            out@.len() == i,
            forall|j: int| 0 <= j < i ==> (#[trigger] out@[j])@ == text::trimmed(texts@[j]@),
        decreases texts@.len() - i,
    {
        out.push(trim(texts[i].as_str()));
        i += 1;
    }
    assert(text::texts(out@) =~= all_trimmed(text::texts(texts@)));
    out
}

/// The texts of a list that hold `part`.
pub open spec fn holding(texts: Seq<Seq<char>>, part: Seq<char>) -> Seq<Seq<char>> {
    texts.filter(|t: Seq<char>| text::has_part(t, part))
}

/// The texts of a list that hold `part`.
fn those_holding(texts: &Vec<String>, part: &str) -> (out: Vec<String>)
    ensures
        text::texts(out@) == holding(text::texts(texts@), part@),
{
    let ghost all = text::texts(texts@);
    let ghost keep = |t: Seq<char>| text::has_part(t, part@);
    let mut out: Vec<String> = Vec::new();
    let mut i: usize = 0;
    proof {
        reveal(Seq::filter);
    }
    assert(all.take(0).filter(keep) =~= Seq::empty());
    assert(text::texts(out@) =~= Seq::empty());
    while i < texts.len()
        invariant
            i <= texts@.len(),
            all == text::texts(texts@),
            keep == (|t: Seq<char>| text::has_part(t, part@)),
            text::texts(out@) == all.take(i as int).filter(keep),
        decreases texts@.len() - i,
    {
        let ghost before = text::texts(out@);
        proof {
            reveal(Seq::filter);
            assert(all.take(i + 1).drop_last() =~= all.take(i as int));
            assert(all.take(i + 1).last() == texts@[i as int]@);
        }
        if contains(texts[i].as_str(), part) {
            out.push(texts[i].clone());
            assert(text::texts(out@) =~= before.push(texts@[i as int]@));
        }
        i += 1;
    }
    assert(all.take(i as int) =~= all);
    out
}

/// The JSON object in a line that speaks of a tool and its arguments: the one that its first
/// opening brace starts.
pub open spec fn line_object(line: Seq<char>) -> Option<Seq<char>> {
    let bare = text::trimmed(line);
    let bytes = encode_utf8(bare);
    if text::has_part(bare, "\"tool\""@) && text::has_part(bare, "\"args\""@) {
        match brace_from(bytes, 0) {
            Some(start) => match close_from(bytes, start, start) {
                Some(end) => Some(text::byte_range(bare, start, end + 1)),
                None => None,
            },
            None => None,
        }
    } else {
        None
    }
}

/// The JSON object in a line that speaks of a tool and its arguments.
fn object_in_line(line: &str) -> (object: Option<String>)
    ensures
        match object {
            Some(o) => line_object(line@) == Some(o@),
            None => line_object(line@) is None,
        },
{
    let bare = trim(line);
    if !contains(bare.as_str(), "\"tool\"") || !contains(bare.as_str(), "\"args\"") {
        return None;
    }
    match find_brace(bare.as_str(), 0) {
        Some(start) => match find_json_object_end(bare.as_str(), start) {
            Some(end) => {
                proof {
                    let bytes = encode_utf8(bare@);
                    lemma_brace(bytes, 0);
                    lemma_close(bytes, start as int, start as int);
                    text::lemma_ascii_cut(bare@, start as int);
                    text::lemma_ascii_cut(bare@, end as int);
                }
                let len: usize = bare.as_str().as_bytes().len();
                assert(end < len);
                Some(byte_slice(bare.as_str(), start, end + 1))
            },
            None => None,
        },
        None => None,
    }
}

/// The JSON objects in the lines that speak of a tool and its arguments, in order.
pub open spec fn line_objects(lines: Seq<Seq<char>>) -> Seq<Seq<char>>
    decreases lines.len(),
{
    if lines.len() == 0 {
        Seq::empty()
    } else {
        match line_object(lines.last()) {
            Some(object) => line_objects(lines.drop_last()).push(object),
            None => line_objects(lines.drop_last()),
        }
    }
}

/// The JSON objects in the lines that speak of a tool and its arguments, in order.
fn objects_in_lines(lines: &Vec<String>) -> (objects: Vec<String>)
    ensures
        text::texts(objects@) == line_objects(text::texts(lines@)),
{
    let ghost all = text::texts(lines@);
    let mut objects: Vec<String> = Vec::new();
    let mut i: usize = 0;
    assert(all.take(0) =~= Seq::empty());
    assert(text::texts(objects@) =~= Seq::empty());
    while i < lines.len()
        invariant
            i <= lines@.len(),
            all == text::texts(lines@),
            text::texts(objects@) == line_objects(all.take(i as int)),
        decreases lines@.len() - i,
    {
        let ghost before = text::texts(objects@);
        assert(all.take(i + 1).drop_last() =~= all.take(i as int));
        if let Some(object) = object_in_line(lines[i].as_str()) {
            objects.push(object);
            assert(text::texts(objects@) =~= before.push(object@));
        }
        i += 1;
    }
    assert(all.take(i as int) =~= all);
    objects
}

/// The calls that clean output asks for: those in its code blocks; where there is none, those in
/// its JSON objects that speak of a tool; where there is none either, those in its lines.
pub open spec fn calls_in_clean(clean: Seq<char>, blocks: Seq<Seq<char>>) -> Seq<CallModel> {
    let fenced = distinct(calls_in_texts(all_trimmed(blocks)));
    let loose = distinct(calls_in_texts(holding(json_objects(clean), "\"tool\""@)));
    if fenced.len() > 0 {
        fenced
    } else if loose.len() > 0 {
        loose
    } else {
        distinct(calls_in_texts(line_objects(text::lines_of(clean))))
    }
}

/// The calls that clean output asks for, where `blocks` are the contents of its code blocks.
pub fn detect_in_clean(clean: &str, blocks: &Vec<String>) -> (found: Vec<ToolCall>)
    ensures
        calls(found@) == calls_in_clean(clean@, text::texts(blocks@)),
{
    let fenced = distinct_calls(&parse_calls(&trim_all(blocks)));
    assert(calls(fenced@).len() == fenced@.len());
    if fenced.len() > 0 {
        return fenced;
    }
    let objects = extract_json_blocks(clean);
    let loose = distinct_calls(&parse_calls(&those_holding(&objects, "\"tool\"")));
    assert(calls(loose@).len() == loose@.len());
    if loose.len() > 0 {
        return loose;
    }
    distinct_calls(&parse_calls(&objects_in_lines(&lines(clean))))
}

/// The calls that model output asks for.
pub open spec fn detected(text: Seq<char>) -> Seq<CallModel> {
    let clean = patterns::clean_text(text);
    calls_in_clean(clean, patterns::fenced_contents(clean))
}

/// The tool calls in model output, each once. The client's tools do not narrow them down: what
/// may be called is decided by [`crate::gate::validate_tool_calls`].
pub fn detect_tools(text: &str, _tool_defs: &Vec<Json>) -> (found: Vec<ToolCall>)
    ensures
        calls(found@) == detected(text@),
        forall|content: Seq<char>|
            patterns::clean_text(text@) == #[trigger] patterns::fenced(content)
                && patterns::plain_content(content) && call_in_text(text::trimmed(content)) is Some
                ==> calls(found@) == seq![call_in_text(text::trimmed(content))->0],
        forall|content: Seq<char>|
            patterns::clean_text(text@) == #[trigger] patterns::fenced(content)
                && patterns::plain_content(content) ==> (json::json_parse(
                patterns::clean_text(text::trimmed(content)),
            ) matches Ok(value) ==> value.at("tool"@) is Str && text::trimmed(
                value.at("tool"@)->Str_0,
            ).len() > 0 && value.at("args"@) is Object ==> found@.len() == 1 && found@[0]@.name
                == text::trimmed(value.at("tool"@)->Str_0) && found@[0]@.args == sanitized(
                value.at("args"@),
            )),
{
    let clean = normalize_tool_call_text(text);
    let blocks = fenced_blocks(clean.as_str());
    proof {
        assert forall|content: Seq<char>|
            clean@ == #[trigger] patterns::fenced(content) && patterns::plain_content(content)
                && call_in_text(text::trimmed(content)) is Some implies calls_in_clean(
            clean@,
            text::texts(blocks@),
        ) == seq![call_in_text(text::trimmed(content))->0] by {
            law_lone_block_is_the_call(clean@, content);
        }
    }
    let found = detect_in_clean(clean.as_str(), &blocks);
    proof {
        assert(forall|i: int| 0 <= i < found@.len() ==> calls(found@)[i] == #[trigger] found@[i]@);
        assert forall|content: Seq<char>|
            clean@ == #[trigger] patterns::fenced(content) && patterns::plain_content(content)
                && call_in_text(text::trimmed(content)) is Some implies found@.len() == 1 && Some(
            found@[0]@,
        ) == call_in_text(text::trimmed(content)) by {
            assert(calls(found@) == seq![call_in_text(text::trimmed(content))->0]);
            assert(calls(found@).len() == found@.len());
            assert(calls(found@)[0] == found@[0]@);
        }
    }
    found
}

/// The call in a lone code block is the one that is found.
pub proof fn law_lone_block_is_the_call(clean: Seq<char>, content: Seq<char>)
    requires
        call_in_text(text::trimmed(content)) is Some,
    ensures
        calls_in_clean(clean, seq![content]) == seq![call_in_text(text::trimmed(content))->0],
{
    let bare = text::trimmed(content);
    let texts = all_trimmed(seq![content]);
    assert(texts =~= seq![bare]);
    assert(texts.drop_last() =~= Seq::empty());
    assert(calls_in_texts(texts.drop_last()) =~= Seq::empty());
    let list = calls_in_texts(texts);
    assert(list =~= seq![call_in_text(bare)->0]);
    assert(list.drop_last() =~= Seq::empty());
    assert(distinct(list.drop_last()) =~= Seq::empty());
    assert(distinct(list) =~= list);
}

/// Model output that looks like a call of a tool, whether or not it can be read as one.
pub open spec fn looks_like_call(text: Seq<char>) -> bool {
    let clean = patterns::clean_text(text);
    ||| text::has_part(clean, "```"@)
    ||| text::has_part(clean, "\"tool\":"@)
    ||| text::has_part(clean, "{\"tool\""@)
}

/// Whether model output looks like a call of a tool.
pub fn looks_like_tool_call_attempt(text: &str) -> (yes: bool)
    ensures
        yes == looks_like_call(text@),
{
    let clean = normalize_tool_call_text(text);
    contains(clean.as_str(), "```") || contains(clean.as_str(), "\"tool\":") || contains(
        clean.as_str(),
        "{\"tool\"",
    )
}

/// What a client may see of model output: nothing where a tool is called, or where tools are
/// offered and it looks like a call.
pub open spec fn visible(text: Seq<char>, called: bool, tools_present: bool) -> Seq<char> {
    if called || (tools_present && looks_like_call(text)) {
        Seq::empty()
    } else {
        text
    }
}

/// What a client may see of model output.
pub fn client_visible_content(
    full_text: &str,
    tool_call: Option<&ToolCall>,
    tools_present: bool,
) -> (content: String)
    ensures
        content@ == visible(full_text@, tool_call is Some, tools_present),
{
    if tool_call.is_some() {
        return String::new();
    }
    if tools_present && looks_like_tool_call_attempt(full_text) {
        return String::new();
    }
    full_text.to_owned()
}

/// No two calls of a distinct list are equal.
proof fn lemma_distinct(list: Seq<CallModel>)
    ensures
        forall|i: int, j: int|
            0 <= i < j < distinct(list).len() ==> !same_call(
                #[trigger] distinct(list)[i],
                #[trigger] distinct(list)[j],
            ),
    decreases list.len(),
{
    if list.len() > 0 {
        lemma_distinct(list.drop_last());
        let before = distinct(list.drop_last());
        if !holds_call(before, list.last()) {
            assert(forall|i: int| 0 <= i < before.len() ==> !same_call(before[i], list.last()));
        }
    }
}

/// No call is detected twice in one text.
pub proof fn law_detected_once(text: Seq<char>)
    ensures
        forall|i: int, j: int|
            0 <= i < j < detected(text).len() ==> !same_call(
                #[trigger] detected(text)[i],
                #[trigger] detected(text)[j],
            ),
{
    let clean = patterns::clean_text(text);
    lemma_distinct(calls_in_texts(all_trimmed(patterns::fenced_contents(clean))));
    lemma_distinct(calls_in_texts(holding(json_objects(clean), "\"tool\""@)));
    lemma_distinct(calls_in_texts(line_objects(text::lines_of(clean))));
}

/// A text without a part of some length does not look like a call.
proof fn lemma_empty_is_no_call()
    ensures
        !looks_like_call(Seq::empty()),
{
    reveal_strlit("```");
    reveal_strlit("\"tool\":");
    reveal_strlit("{\"tool\"");
    reveal(Seq::filter);
    let empty = Seq::<char>::empty();
    assert(patterns::without_spinners(empty) =~= empty);
    assert(patterns::clean_text(empty) =~= empty);
}

/// Where tools are offered, what the client sees never looks like a call; and nothing is seen
/// beside a call.
pub proof fn law_calls_are_not_shown(text: Seq<char>, called: bool)
    ensures
        !looks_like_call(visible(text, called, true)),
        called ==> visible(text, called, true).len() == 0,
        visible(text, called, true).len() > 0 ==> visible(text, called, true) == text,
{
    lemma_empty_is_no_call();
}

/// The keys of sanitized arguments are not blank, and stand for what the arguments held under a
/// key that trims to them.
pub proof fn law_sanitized_keys(args: Map<Seq<char>, JsonModel>, key: Seq<char>)
    requires
        trimmed_keys(args).dom().contains(key),
    ensures
        key.len() > 0,
        exists|k: Seq<char>| #[trigger]
            args.dom().contains(k) && text::trimmed(k) == key && trimmed_keys(args)[key]
                == args[k],
{
    let k = choose|k: Seq<char>| #[trigger] prevails(args, k) && text::trimmed(k) == key;
    assert(args.dom().contains(k));
}

/// No key is less than itself.
proof fn lemma_key_not_less(key: Seq<char>)
    ensures
        !key_less(key, key),
    decreases key.len(),
{
    if key.len() > 0 {
        lemma_key_not_less(key.skip(1));
    }
}

/// Sanitizing loses no argument: where no other key trims to the same, a key that is not blank
/// stands under its trimmed form with its value. Of several that do, the greatest has the say.
pub proof fn law_sanitizing_keeps_arguments(args: Map<Seq<char>, JsonModel>, key: Seq<char>)
    requires
        args.dom().contains(key),
        text::trimmed(key).len() > 0,
        forall|other: Seq<char>| #[trigger]
            args.dom().contains(other) && text::trimmed(other) == text::trimmed(key) ==> other
                == key || key_less(other, key),
    ensures
        sanitized(JsonModel::Object(args)).get(text::trimmed(key)) == Some(args[key]),
{
    lemma_key_not_less(key);
    assert forall|k: Seq<char>| #[trigger]
        args.dom().contains(k) && text::trimmed(k) == text::trimmed(key) implies !key_less(
        key,
        k,
    ) by {
        lemma_key_order(key, k);
    }
    assert(prevails(args, key));
    let bare = text::trimmed(key);
    let c = choose|k: Seq<char>| #[trigger] prevails(args, k) && text::trimmed(k) == bare;
    lemma_prevails_once(args, key, c);
    assert(trimmed_keys(args).dom().contains(bare));
}

/// Arguments whose keys have nothing to trim are sanitized already.
pub proof fn law_clean_arguments_stay(args: Map<Seq<char>, JsonModel>)
    requires
        forall|key: Seq<char>| #[trigger]
            args.dom().contains(key) ==> key.len() > 0 && text::trimmed(key) == key,
    ensures
        sanitized(JsonModel::Object(args)) == JsonModel::Object(args),
{
    let clean = trimmed_keys(args);
    assert forall|key: Seq<char>| #[trigger] args.dom().contains(key) implies clean.dom().contains(
        key,
    ) && clean[key] == args[key] by {
        law_sanitizing_keeps_arguments(args, key);
    }
    assert forall|key: Seq<char>| #[trigger] clean.dom().contains(key) implies args.dom().contains(
        key,
    ) by {
        law_sanitized_keys(args, key);
        let k = choose|k: Seq<char>| #[trigger]
            args.dom().contains(k) && text::trimmed(k) == key && clean[key] == args[k];
        assert(args.dom().contains(k));
    }
    assert(clean.dom() =~= args.dom());
    assert(clean =~= args);
}

/// A text asks for a call exactly where its clean form is a JSON object with a string under `tool`
/// that is not blank and an object under `args`, however it is laid out. The call has that name,
/// trimmed, and those arguments, sanitized.
pub proof fn law_json_asks_for_a_call(text: Seq<char>, value: JsonModel)
    requires
        json::json_parse(patterns::clean_text(text)) == Ok::<JsonModel, Seq<char>>(value),
    ensures
        (call_in_text(text) is Some) == (value.at("tool"@) is Str && text::trimmed(
            value.at("tool"@)->Str_0,
        ).len() > 0 && value.at("args"@) is Object),
        call_in_text(text) matches Some(call) ==> call.name == text::trimmed(
            value.at("tool"@)->Str_0,
        ) && call.args == sanitized(value.at("args"@)),
{
}

/// A text whose clean form is no JSON asks for no call.
pub proof fn law_no_json_no_call(text: Seq<char>)
    requires
        json::json_parse(patterns::clean_text(text)) is Err,
    ensures
        call_in_text(text) is None,
{
}

/// The calls of two lists of texts in a row are those of the one and those of the other; a text
/// alone has the one that it asks for.
pub proof fn law_calls_are_read_in_order(first: Seq<Seq<char>>, second: Seq<Seq<char>>, one: Seq<char>)
    ensures
        calls_in_texts(first + second) == calls_in_texts(first) + calls_in_texts(second),
        call_in_text(one) matches Some(call) ==> calls_in_texts(seq![one]) == seq![call],
        call_in_text(one) is None ==> calls_in_texts(seq![one]).len() == 0,
    decreases second.len(),
{
    assert(seq![one].drop_last() =~= Seq::<Seq<char>>::empty());
    assert(calls_in_texts(Seq::<Seq<char>>::empty()) =~= Seq::<CallModel>::empty());
    if let Some(call) = call_in_text(one) {
        assert(calls_in_texts(seq![one]) =~= seq![call]);
    }
    if second.len() == 0 {
        assert(first + second =~= first);
        assert(calls_in_texts(first) + calls_in_texts(second) =~= calls_in_texts(first));
    } else {
        law_calls_are_read_in_order(first, second.drop_last(), one);
        assert((first + second).drop_last() =~= first + second.drop_last());
        assert(calls_in_texts(first + second) =~= calls_in_texts(first) + calls_in_texts(second));
    }
}

/// The texts that hold a part are those of a list that do.
proof fn lemma_holding(texts: Seq<Seq<char>>, part: Seq<char>)
    ensures
        forall|j: int|
            0 <= j < holding(texts, part).len() ==> texts.contains(#[trigger] holding(texts, part)[j])
                && text::has_part(holding(texts, part)[j], part),
        forall|i: int|
            0 <= i < texts.len() && text::has_part(#[trigger] texts[i], part) ==> holding(
                texts,
                part,
            ).contains(texts[i]),
    decreases texts.len(),
{
    reveal(Seq::filter);
    let keep = |t: Seq<char>| text::has_part(t, part);
    if texts.len() > 0 {
        let rest = texts.drop_last();
        let before = holding(rest, part);
        let all = holding(texts, part);
        lemma_holding(rest, part);
        assert(all == if keep(texts.last()) {
            before.push(texts.last())
        } else {
            before
        });
        assert forall|j: int| 0 <= j < all.len() implies texts.contains(#[trigger] all[j])
            && text::has_part(all[j], part) by {
            if j < before.len() {
                assert(rest.contains(before[j]));
                let k = choose|k: int| 0 <= k < rest.len() && rest[k] == before[j];
                assert(texts[k] == all[j]);
            } else {
                assert(texts[texts.len() - 1] == all[j]);
            }
        }
        assert forall|i: int| 0 <= i < texts.len() && text::has_part(
            #[trigger] texts[i],
            part,
        ) implies all.contains(texts[i]) by {
            if i < rest.len() {
                assert(rest[i] == texts[i]);
                assert(before.contains(rest[i]));
                let k = choose|k: int| 0 <= k < before.len() && before[k] == rest[i];
                assert(all[k] == texts[i]);
            } else {
                assert(all[all.len() - 1] == texts[i]);
            }
        }
    }
}

/// Where every text asks for a call, there are as many calls, each in its place; and every call is
/// asked for by some text.
proof fn lemma_calls_in_texts(texts: Seq<Seq<char>>)
    ensures
        (forall|i: int| 0 <= i < texts.len() ==> call_in_text(#[trigger] texts[i]) is Some) ==> (
        calls_in_texts(texts).len() == texts.len() && forall|i: int|
            0 <= i < texts.len() ==> #[trigger] calls_in_texts(texts)[i] == call_in_text(
                texts[i],
            )->0),
        forall|i: int|
            #![trigger texts[i]]
            0 <= i < texts.len() && call_in_text(texts[i]) is Some ==> calls_in_texts(
                texts,
            ).contains(call_in_text(texts[i])->0),
        forall|j: int|
            0 <= j < calls_in_texts(texts).len() ==> asked_by_one(
                texts,
                #[trigger] calls_in_texts(texts)[j],
            ),
    decreases texts.len(),
{
    if texts.len() > 0 {
        let rest = texts.drop_last();
        let last = texts.len() - 1;
        lemma_calls_in_texts(rest);
        let before = calls_in_texts(rest);
        let all = calls_in_texts(texts);
        assert(forall|i: int| 0 <= i < last ==> #[trigger] texts[i] == rest[i]);
        assert forall|i: int|
            #![trigger texts[i]]
            0 <= i < texts.len() && call_in_text(texts[i]) is Some implies all.contains(
            call_in_text(texts[i])->0,
        ) by {
            let call = call_in_text(texts[i])->0;
            if i == last {
                assert(all[all.len() - 1] == call);
            } else {
                assert(rest[i] == texts[i]);
                assert(before.contains(call));
                let k = choose|k: int| 0 <= k < before.len() && before[k] == call;
                assert(all[k] == call);
            }
        }
        assert forall|j: int| 0 <= j < all.len() implies asked_by_one(texts, #[trigger] all[j]) by {
            if j < before.len() {
                assert(all[j] == before[j]);
                assert(asked_by_one(rest, before[j]));
                let i = choose|i: int|
                    0 <= i < rest.len() && call_in_text(#[trigger] rest[i]) == Some(before[j]);
                assert(texts[i] == rest[i]);
            } else {
                assert(call_in_text(texts[last]) == Some(all[j]));
            }
        }
        if forall|i: int| 0 <= i < texts.len() ==> call_in_text(#[trigger] texts[i]) is Some {
            assert(forall|i: int| 0 <= i < rest.len() ==> call_in_text(#[trigger] rest[i]) is Some) by {
                assert forall|i: int| 0 <= i < rest.len() implies call_in_text(
                    #[trigger] rest[i],
                ) is Some by {
                    assert(texts[i] == rest[i]);
                }
            }
            assert(call_in_text(texts[last]) is Some);
        }
    }
}

/// One of some texts asks for a call.
pub open spec fn asked_by_one(texts: Seq<Seq<char>>, call: CallModel) -> bool {
    exists|i: int| 0 <= i < texts.len() && call_in_text(#[trigger] texts[i]) == Some(call)
}

/// Where no two calls of a list are equal, all of them stay.
pub proof fn law_different_calls_stay(list: Seq<CallModel>)
    requires
        forall|i: int, j: int|
            0 <= i < j < list.len() ==> !same_call(#[trigger] list[i], #[trigger] list[j]),
    ensures
        distinct(list) == list,
    decreases list.len(),
{
    if list.len() > 0 {
        let rest = list.drop_last();
        assert forall|i: int, j: int| 0 <= i < j < rest.len() implies !same_call(
            #[trigger] rest[i],
            #[trigger] rest[j],
        ) by {
            assert(!same_call(list[i], list[j]));
        }
        law_different_calls_stay(rest);
        assert(!holds_call(rest, list.last())) by {
            assert forall|i: int| 0 <= i < rest.len() implies !same_call(
                #[trigger] rest[i],
                list.last(),
            ) by {
                assert(!same_call(list[i], list[list.len() - 1]));
            }
        }
        assert(distinct(list) =~= list);
    }
}

/// Every call of a list stays, or an equal one does; nothing else comes in, and the first stays.
proof fn lemma_distinct_holds(list: Seq<CallModel>)
    ensures
        forall|i: int|
            0 <= i < list.len() ==> distinct(list).contains(#[trigger] list[i]) || holds_call(
                distinct(list),
                list[i],
            ),
        forall|j: int|
            0 <= j < distinct(list).len() ==> list.contains(#[trigger] distinct(list)[j]),
        list.len() > 0 ==> distinct(list).len() > 0 && distinct(list)[0] == list[0],
    decreases list.len(),
{
    if list.len() > 0 {
        let rest = list.drop_last();
        let before = distinct(rest);
        let all = distinct(list);
        lemma_distinct_holds(rest);
        assert forall|i: int| 0 <= i < list.len() implies all.contains(#[trigger] list[i])
            || holds_call(all, list[i]) by {
            if i < rest.len() {
                assert(rest[i] == list[i]);
                if before.contains(rest[i]) {
                    let k = choose|k: int| 0 <= k < before.len() && before[k] == rest[i];
                    assert(all[k] == list[i]);
                } else {
                    let k = choose|k: int|
                        0 <= k < before.len() && same_call(#[trigger] before[k], rest[i]);
                    assert(same_call(all[k], list[i]));
                }
            } else if !holds_call(before, list.last()) {
                assert(all[all.len() - 1] == list[i]);
            }
        }
        assert forall|j: int| 0 <= j < all.len() implies list.contains(#[trigger] all[j]) by {
            if j < before.len() {
                assert(rest.contains(before[j]));
                let k = choose|k: int| 0 <= k < rest.len() && rest[k] == before[j];
                assert(list[k] == all[j]);
            } else {
                assert(list[list.len() - 1] == all[j]);
            }
        }
    }
}

/// A call is found: it, or one equal to it.
pub open spec fn finds(found: Seq<CallModel>, call: CallModel) -> bool {
    found.contains(call) || holds_call(found, call)
}

/// Whatever a code block asks for is found, and where any block asks for a call, nothing is found
/// that none asks for.
pub proof fn law_calls_in_blocks_are_found(clean: Seq<char>, blocks: Seq<Seq<char>>, i: int)
    requires
        0 <= i < blocks.len(),
        call_in_text(text::trimmed(blocks[i])) is Some,
    ensures
        finds(calls_in_clean(clean, blocks), call_in_text(text::trimmed(blocks[i]))->0),
        forall|j: int|
            0 <= j < calls_in_clean(clean, blocks).len() ==> exists|k: int|
                0 <= k < blocks.len() && call_in_text(text::trimmed(#[trigger] blocks[k])) == Some(
                    #[trigger] calls_in_clean(clean, blocks)[j],
                ),
{
    let texts = all_trimmed(blocks);
    let list = calls_in_texts(texts);
    let found = calls_in_clean(clean, blocks);
    lemma_calls_in_texts(texts);
    lemma_distinct_holds(list);
    let call = call_in_text(text::trimmed(blocks[i]))->0;
    assert(texts[i] == text::trimmed(blocks[i]));
    assert(list.contains(call));
    let at = choose|at: int| 0 <= at < list.len() && list[at] == call;
    assert(distinct(list).contains(list[at]) || holds_call(distinct(list), list[at]));
    assert(distinct(list).len() > 0);
    assert(found == distinct(list));
    assert forall|j: int| 0 <= j < found.len() implies exists|k: int|
        0 <= k < blocks.len() && call_in_text(text::trimmed(#[trigger] blocks[k])) == Some(
            #[trigger] found[j],
        ) by {
        assert(list.contains(distinct(list)[j]));
        let m = choose|m: int| 0 <= m < list.len() && list[m] == found[j];
        assert(asked_by_one(texts, list[m]));
        let k = choose|k: int| 0 <= k < texts.len() && call_in_text(#[trigger] texts[k]) == Some(
            list[m],
        );
        assert(call_in_text(text::trimmed(blocks[k])) == Some(found[j]));
    }
}

/// Where every code block asks for a call, and no two for equal ones, exactly these calls are
/// found, in the order of the blocks.
pub proof fn law_different_blocks_are_all_found(clean: Seq<char>, blocks: Seq<Seq<char>>)
    requires
        blocks.len() > 0,
        forall|i: int|
            0 <= i < blocks.len() ==> call_in_text(text::trimmed(#[trigger] blocks[i])) is Some,
        forall|i: int, j: int|
            0 <= i < j < blocks.len() ==> !same_call(
                call_in_text(text::trimmed(#[trigger] blocks[i]))->0,
                call_in_text(text::trimmed(#[trigger] blocks[j]))->0,
            ),
    ensures
        calls_in_clean(clean, blocks).len() == blocks.len(),
        forall|i: int|
            0 <= i < blocks.len() ==> call_in_text(text::trimmed(#[trigger] blocks[i])) == Some(
                calls_in_clean(clean, blocks)[i],
            ),
{
    let texts = all_trimmed(blocks);
    let list = calls_in_texts(texts);
    assert forall|i: int| 0 <= i < texts.len() implies call_in_text(#[trigger] texts[i]) is Some by {
        assert(texts[i] == text::trimmed(blocks[i]));
    }
    lemma_calls_in_texts(texts);
    assert forall|i: int, j: int| 0 <= i < j < list.len() implies !same_call(
        #[trigger] list[i],
        #[trigger] list[j],
    ) by {
        assert(!same_call(
            call_in_text(text::trimmed(blocks[i]))->0,
            call_in_text(text::trimmed(blocks[j]))->0,
        ));
        assert(list[i] == call_in_text(texts[i])->0 && list[j] == call_in_text(texts[j])->0);
    }
    law_different_calls_stay(list);
    assert forall|i: int| 0 <= i < blocks.len() implies call_in_text(
        text::trimmed(#[trigger] blocks[i]),
    ) == Some(calls_in_clean(clean, blocks)[i]) by {
        assert(texts[i] == text::trimmed(blocks[i]));
        assert(list[i] == call_in_text(texts[i])->0);
    }
}

/// Where no code block asks for a call, whatever a JSON object that speaks of a tool asks for is
/// found.
pub proof fn law_loose_calls_are_found(clean: Seq<char>, blocks: Seq<Seq<char>>, i: int)
    requires
        forall|k: int|
            0 <= k < blocks.len() ==> call_in_text(text::trimmed(#[trigger] blocks[k])) is None,
        0 <= i < json_objects(clean).len(),
        text::has_part(json_objects(clean)[i], "\"tool\""@),
        call_in_text(json_objects(clean)[i]) is Some,
    ensures
        finds(calls_in_clean(clean, blocks), call_in_text(json_objects(clean)[i])->0),
{
    let objects = json_objects(clean);
    let texts = holding(objects, "\"tool\""@);
    let list = calls_in_texts(texts);
    lemma_no_calls_in_blocks(blocks);
    lemma_holding(objects, "\"tool\""@);
    let at = choose|at: int| 0 <= at < texts.len() && texts[at] == objects[i];
    lemma_calls_in_texts(texts);
    lemma_distinct_holds(list);
    let call = call_in_text(texts[at])->0;
    assert(list.contains(call));
    let k = choose|k: int| 0 <= k < list.len() && list[k] == call;
    assert(distinct(list).contains(list[k]) || holds_call(distinct(list), list[k]));
    assert(distinct(list).len() > 0);
}

/// Blocks that ask for no call have none.
proof fn lemma_no_calls_in_blocks(blocks: Seq<Seq<char>>)
    requires
        forall|k: int|
            0 <= k < blocks.len() ==> call_in_text(text::trimmed(#[trigger] blocks[k])) is None,
    ensures
        distinct(calls_in_texts(all_trimmed(blocks))).len() == 0,
{
    let texts = all_trimmed(blocks);
    let list = calls_in_texts(texts);
    lemma_calls_in_texts(texts);
    if list.len() > 0 {
        assert(asked_by_one(texts, list[0]));
        let k = choose|k: int| 0 <= k < texts.len() && call_in_text(#[trigger] texts[k]) == Some(
            list[0],
        );
        assert(call_in_text(text::trimmed(blocks[k])) is None);
    }
}

/// Output without code blocks and without JSON objects that speak of a tool is searched line by
/// line: what the object in a line asks for is found.
pub proof fn law_calls_in_lines_are_found(clean: Seq<char>, blocks: Seq<Seq<char>>, i: int)
    requires
        forall|k: int|
            0 <= k < blocks.len() ==> call_in_text(text::trimmed(#[trigger] blocks[k])) is None,
        forall|k: int|
            0 <= k < json_objects(clean).len() ==> call_in_text(
                #[trigger] json_objects(clean)[k],
            ) is None,
        0 <= i < text::lines_of(clean).len(),
        line_object(text::lines_of(clean)[i]) is Some,
        call_in_text(line_object(text::lines_of(clean)[i])->0) is Some,
    ensures
        finds(
            calls_in_clean(clean, blocks),
            call_in_text(line_object(text::lines_of(clean)[i])->0)->0,
        ),
{
    let objects = json_objects(clean);
    let loose = holding(objects, "\"tool\""@);
    lemma_no_calls_in_blocks(blocks);
    lemma_calls_in_texts(loose);
    lemma_holding(objects, "\"tool\""@);
    if calls_in_texts(loose).len() > 0 {
        assert(asked_by_one(loose, calls_in_texts(loose)[0]));
        let k = choose|k: int| 0 <= k < loose.len() && call_in_text(#[trigger] loose[k]) == Some(
            calls_in_texts(loose)[0],
        );
        assert(objects.contains(loose[k]));
        let m = choose|m: int| 0 <= m < objects.len() && objects[m] == loose[k];
        assert(call_in_text(json_objects(clean)[m]) is None);
    }
    let lines = text::lines_of(clean);
    let texts = line_objects(lines);
    let list = calls_in_texts(texts);
    lemma_line_objects(lines, i);
    let at = choose|at: int| 0 <= at < texts.len() && texts[at] == line_object(lines[i])->0;
    lemma_calls_in_texts(texts);
    lemma_distinct_holds(list);
    let call = call_in_text(texts[at])->0;
    assert(list.contains(call));
    let k = choose|k: int| 0 <= k < list.len() && list[k] == call;
    assert(distinct(list).contains(list[k]) || holds_call(distinct(list), list[k]));
}

/// The object in a line is among those of the lines.
proof fn lemma_line_objects(lines: Seq<Seq<char>>, i: int)
    requires
        0 <= i < lines.len(),
        line_object(lines[i]) is Some,
    ensures
        line_objects(lines).contains(line_object(lines[i])->0),
    decreases lines.len(),
{
    let rest = lines.drop_last();
    let all = line_objects(lines);
    if i == lines.len() - 1 {
        assert(all[all.len() - 1] == line_object(lines[i])->0);
    } else {
        lemma_line_objects(rest, i);
        let before = line_objects(rest);
        let k = choose|k: int| 0 <= k < before.len() && before[k] == line_object(rest[i])->0;
        assert(all[k] == line_object(lines[i])->0);
    }
}

/// What is found was asked for by some text: a trimmed code block, a JSON object in the output, or
/// one in a line of it.
pub proof fn law_nothing_is_made_up(clean: Seq<char>, blocks: Seq<Seq<char>>, j: int)
    requires
        0 <= j < calls_in_clean(clean, blocks).len(),
    ensures
        asked_by_one(all_trimmed(blocks), calls_in_clean(clean, blocks)[j]) || asked_by_one(
            json_objects(clean),
            calls_in_clean(clean, blocks)[j],
        ) || asked_by_one(
            line_objects(text::lines_of(clean)),
            calls_in_clean(clean, blocks)[j],
        ),
{
    let objects = json_objects(clean);
    let fenced = all_trimmed(blocks);
    let loose = holding(objects, "\"tool\""@);
    let in_lines = line_objects(text::lines_of(clean));
    let call = calls_in_clean(clean, blocks)[j];
    lemma_calls_in_texts(fenced);
    lemma_calls_in_texts(loose);
    lemma_calls_in_texts(in_lines);
    lemma_distinct_holds(calls_in_texts(fenced));
    lemma_distinct_holds(calls_in_texts(loose));
    lemma_distinct_holds(calls_in_texts(in_lines));
    lemma_holding(objects, "\"tool\""@);
    if distinct(calls_in_texts(fenced)).len() > 0 {
        assert(calls_in_texts(fenced).contains(call));
        let k = choose|k: int| 0 <= k < calls_in_texts(fenced).len() && calls_in_texts(fenced)[k] == call;
        assert(asked_by_one(fenced, calls_in_texts(fenced)[k]));
    } else if distinct(calls_in_texts(loose)).len() > 0 {
        assert(calls_in_texts(loose).contains(call));
        let k = choose|k: int| 0 <= k < calls_in_texts(loose).len() && calls_in_texts(loose)[k] == call;
        assert(asked_by_one(loose, calls_in_texts(loose)[k]));
        let m = choose|m: int| 0 <= m < loose.len() && call_in_text(#[trigger] loose[m]) == Some(call);
        assert(objects.contains(loose[m]));
        let n = choose|n: int| 0 <= n < objects.len() && objects[n] == loose[m];
        assert(call_in_text(objects[n]) == Some(call));
    } else {
        assert(calls_in_texts(in_lines).contains(call));
        let k = choose|k: int|
            0 <= k < calls_in_texts(in_lines).len() && calls_in_texts(in_lines)[k] == call;
        assert(asked_by_one(in_lines, calls_in_texts(in_lines)[k]));
    }
}

/// Output that speaks neither of a tool nor of a code block is shown as it stands.
pub proof fn law_plain_output_is_shown(text: Seq<char>, tools_present: bool)
    requires
        !text::has_part(patterns::clean_text(text), "```"@),
        !text::has_part(patterns::clean_text(text), "\"tool\""@),
    ensures
        visible(text, false, tools_present) == text,
{
    let clean = patterns::clean_text(text);
    reveal_strlit("\"tool\"");
    reveal_strlit("\"tool\":");
    reveal_strlit("{\"tool\"");
    if text::has_part(clean, "\"tool\":"@) {
        let at = choose|at: int| text::occurs_at(clean, "\"tool\":"@, at);
        let found = clean.subrange(at, at + 7);
        assert(found == "\"tool\":"@);
        assert(clean.subrange(at, at + 6) =~= found.subrange(0, 6));
        assert(found.subrange(0, 6) =~= "\"tool\""@);
        assert(text::occurs_at(clean, "\"tool\""@, at));
    }
    if text::has_part(clean, "{\"tool\""@) {
        let at = choose|at: int| text::occurs_at(clean, "{\"tool\""@, at);
        let found = clean.subrange(at, at + 7);
        assert(found == "{\"tool\""@);
        assert(clean.subrange(at + 1, at + 7) =~= found.subrange(1, 7));
        assert(found.subrange(1, 7) =~= "\"tool\""@);
        assert(text::occurs_at(clean, "\"tool\""@, at + 1));
    }
}

/// Without tools, output is shown whatever it looks like.
pub proof fn law_without_tools_all_is_shown(text: Seq<char>)
    ensures
        visible(text, false, false) == text,
{
}

/// Where the object that starts with a brace ends, every brace is closed for the first time, and
/// outside any string.
pub proof fn law_object_ends_at_its_first_balance(bytes: Seq<u8>, start: int, end: int)
    requires
        0 <= start < bytes.len(),
        bytes[start] == 0x7B,
        close_from(bytes, start, start) == Some(end),
    ensures
        start < end < bytes.len(),
        bytes[end] == 0x7D,
        scan(bytes, start, end + 1).depth == 0,
        !scan(bytes, start, end + 1).in_string,
        forall|i: int| start < i <= end ==> (#[trigger] scan(bytes, start, i)).depth > 0,
{
    lemma_close(bytes, start, start);
    assert(scan(bytes, start, start).depth == 0);
    reveal_with_fuel(scan, 2);
    assert(scan(bytes, start, start + 1).depth == 1);
    lemma_scan_bound(bytes, start, end);
    lemma_depth_before(bytes, start, start + 1, end);
}

/// Until the first position that closes what opened, something is open.
proof fn lemma_depth_before(bytes: Seq<u8>, start: int, from: int, end: int)
    requires
        0 <= start < from,
        from <= bytes.len(),
        scan(bytes, start, from).depth > 0,
        close_from(bytes, start, from) == Some(end),
    ensures
        from <= end,
        forall|i: int| from <= i <= end ==> (#[trigger] scan(bytes, start, i)).depth > 0,
    decreases bytes.len() - from,
{
    if !closes_at(bytes, start, from) {
        lemma_scan_bound(bytes, start, from);
        assert(scan(bytes, start, from + 1).depth > 0);
        lemma_close(bytes, start, from + 1);
        lemma_depth_before(bytes, start, from + 1, end);
    }
}

/// A string hides what stands in it: after a quoted run without quotes and backslashes, a scan
/// stands as before it, whatever braces the run holds.
pub proof fn law_strings_hide_braces(bytes: Seq<u8>, start: int, open: int, close: int)
    requires
        start <= open < close < bytes.len(),
        !scan(bytes, start, open).in_string,
        bytes[open] == 0x22,
        bytes[close] == 0x22,
        forall|i: int| open < i < close ==> #[trigger] bytes[i] != 0x22 && bytes[i] != 0x5C,
    ensures
        scan(bytes, start, close + 1) == scan(bytes, start, open),
{
    lemma_scan_bound(bytes, start, open);
    assert(scan(bytes, start, open + 1) == (Scan {
        in_string: true,
        ..scan(bytes, start, open)
    }));
    lemma_inside_string(bytes, start, open + 1, close);
}

/// Inside a string, what is neither a quote nor a backslash changes nothing.
proof fn lemma_inside_string(bytes: Seq<u8>, start: int, from: int, to: int)
    requires
        start < from <= to <= bytes.len(),
        scan(bytes, start, from).in_string,
        !scan(bytes, start, from).escape,
        forall|i: int| from <= i < to ==> #[trigger] bytes[i] != 0x22 && bytes[i] != 0x5C,
    ensures
        scan(bytes, start, to) == scan(bytes, start, from),
    decreases to - from,
{
    if from < to {
        lemma_inside_string(bytes, start, from, to - 1);
        assert(bytes[to - 1] != 0x22 && bytes[to - 1] != 0x5C);
    }
}

/// In a string, a backslash and the byte behind it change nothing, whatever that byte is; so an
/// escaped quote does not end the string.
pub proof fn law_escapes_are_skipped(bytes: Seq<u8>, start: int, at: int)
    requires
        start <= at,
        at + 1 < bytes.len(),
        scan(bytes, start, at).in_string,
        !scan(bytes, start, at).escape,
        bytes[at] == 0x5C,
    ensures
        scan(bytes, start, at + 2) == scan(bytes, start, at),
{
    assert(scan(bytes, start, at + 1) == (Scan { escape: true, ..scan(bytes, start, at) }));
}

/// What is found in a text as a JSON object is a part of it, from an opening brace to a closing
/// one.
pub proof fn law_objects_are_parts(text: Seq<char>, i: int)
    requires
        0 <= i < json_objects(text).len(),
    ensures
        exists|start: int, end: int| #[trigger] object_at(text, json_objects(text)[i], start, end),
{
    lemma_objects_from(text, 0, i);
}

/// A part of a text reaches from an opening brace to the brace that closes it.
pub open spec fn object_at(text: Seq<char>, object: Seq<char>, start: int, end: int) -> bool {
    let bytes = encode_utf8(text);
    &&& 0 <= start < end < bytes.len()
    &&& bytes[start] == 0x7B
    &&& bytes[end] == 0x7D
    &&& scan(bytes, start, end + 1).depth == 0
    &&& object == text::byte_range(text, start, end + 1)
}

/// What is found from a position on as a JSON object reaches from brace to brace.
proof fn lemma_objects_from(text: Seq<char>, from: int, i: int)
    requires
        0 <= from,
        0 <= i < objects_from(text, from).len(),
    ensures
        exists|start: int, end: int| #[trigger]
            object_at(text, objects_from(text, from)[i], start, end),
    decreases text::byte_len(text) - from,
{
    let bytes = encode_utf8(text);
    lemma_brace(bytes, from);
    if let Some(start) = brace_from(bytes, from) {
        if let Some(end) = close_from(bytes, start, start) {
            lemma_close(bytes, start, start);
            if i == 0 {
                law_object_ends_at_its_first_balance(bytes, start, end);
                assert(object_at(text, objects_from(text, from)[0], start, end));
            } else {
                assert(objects_from(text, from)[i] == objects_from(text, end + 1)[i - 1]);
                lemma_objects_from(text, end + 1, i - 1);
            }
        } else {
            lemma_objects_from(text, start + 1, i);
        }
    }
}

/// Two calls are taken for one exactly where their names are the same and their arguments equal; calls of
/// different names always both stay.
pub proof fn law_equal_calls_are_alike(a: CallModel, b: CallModel)
    ensures
        same_call(a, b) == (a.name == b.name && json::same_json(a.args, b.args)),
        a.name != b.name ==> distinct(seq![a, b]) == seq![a, b],
        a.name == b.name && json::same_json(a.args, b.args) ==> distinct(seq![a, b]) == seq![a],
{
    let one = seq![a];
    let two = seq![a, b];
    let none = Seq::<CallModel>::empty();
    assert(two.drop_last() =~= one);
    assert(one.drop_last() =~= none);
    assert(distinct(none) =~= none);
    assert(!holds_call(none, a));
    assert(distinct(one) =~= one);
    if same_call(a, b) {
        assert(same_call(one[0], b));
        assert(holds_call(one, b));
    } else {
        assert(forall|i: int| 0 <= i < one.len() ==> !same_call(#[trigger] one[i], b));
        assert(one.push(b) =~= two);
    }
}

/// Where tools are offered, output that holds a fence or speaks of a tool as calls do is not shown.
pub proof fn law_what_looks_like_a_call_is_not_shown(text: Seq<char>)
    requires
        text::has_part(patterns::clean_text(text), "```"@) || text::has_part(
            patterns::clean_text(text),
            "\"tool\":"@,
        ) || text::has_part(patterns::clean_text(text), "{\"tool\""@),
    ensures
        visible(text, false, true).len() == 0,
        looks_like_call(text),
{
}

/// How a scan goes on: in a string only an escape and the closing quote count; outside, a quote opens a
/// string and braces nest.
pub proof fn law_how_a_scan_goes_on(bytes: Seq<u8>, start: int, at: int)
    requires
        start <= at < bytes.len(),
        !scan(bytes, start, at).escape,
    ensures
        ({
            let before = scan(bytes, start, at);
            let after = scan(bytes, start, at + 1);
            &&& !before.in_string && bytes[at] == 0x7B ==> after == (Scan {
                depth: before.depth + 1,
                ..before
            })
            &&& !before.in_string && bytes[at] == 0x7D ==> after == (Scan {
                depth: before.depth - 1,
                ..before
            })
            &&& bytes[at] == 0x22 ==> after == (Scan { in_string: !before.in_string, ..before })
            &&& bytes[at] != 0x22 && bytes[at] != 0x7B && bytes[at] != 0x7D && bytes[at] != 0x5C ==> after
                == before
            &&& before.in_string && bytes[at] != 0x22 && bytes[at] != 0x5C ==> after == before
            &&& !before.in_string && bytes[at] == 0x5C ==> after == before
        }),
        scan(bytes, start, start) == (Scan { depth: 0, in_string: false, escape: false }),
{
}

/// An object that starts with a brace ends where all braces are closed for the first time outside any
/// string, however long it is and whatever stands in it.
pub proof fn law_balanced_objects_are_closed(bytes: Seq<u8>, start: int, end: int)
    requires
        0 <= start <= end < bytes.len(),
        bytes[end] == 0x7D,
        !scan(bytes, start, end).in_string,
        scan(bytes, start, end).depth == 1,
        forall|i: int|
            start <= i < end ==> !(bytes[i] == 0x7D && !(#[trigger] scan(bytes, start, i)).in_string
                && scan(bytes, start, i).depth == 1),
    ensures
        close_from(bytes, start, start) == Some(end),
{
    lemma_closes(bytes, start, start, end);
}

/// The search for the end of an object goes on up to it.
proof fn lemma_closes(bytes: Seq<u8>, start: int, from: int, end: int)
    requires
        start <= from <= end < bytes.len(),
        closes_at(bytes, start, end),
        forall|i: int|
            start <= i < end ==> !(bytes[i] == 0x7D && !(#[trigger] scan(bytes, start, i)).in_string
                && scan(bytes, start, i).depth == 1),
    ensures
        close_from(bytes, start, from) == Some(end),
    decreases end - from,
{
    if from < end {
        assert(!closes_at(bytes, start, from)) by {
            let s = scan(bytes, start, from);
        }
        lemma_closes(bytes, start, from + 1, end);
    }
}

/// Every object of a text is found, one behind the other: from the first brace to the one that closes
/// it, and then from there on; a brace that nothing closes is passed over.
pub proof fn law_every_object_is_found(text: Seq<char>, from: int, start: int)
    requires
        0 <= from <= start < text::byte_len(text),
        encode_utf8(text)[start] == 0x7B,
        forall|i: int| from <= i < start ==> #[trigger] encode_utf8(text)[i] != 0x7B,
    ensures
        close_from(encode_utf8(text), start, start) matches Some(end) ==> objects_from(text, from)
            == seq![text::byte_range(text, start, end + 1)] + objects_from(text, end + 1),
        close_from(encode_utf8(text), start, start) is None ==> objects_from(text, from)
            == objects_from(text, start + 1),
{
    let bytes = encode_utf8(text);
    lemma_first_brace(bytes, from, start);
    if let Some(end) = close_from(bytes, start, start) {
        lemma_close(bytes, start, start);
    }
}

/// The first brace is found.
proof fn lemma_first_brace(bytes: Seq<u8>, from: int, start: int)
    requires
        0 <= from <= start < bytes.len(),
        bytes[start] == 0x7B,
        forall|i: int| from <= i < start ==> #[trigger] bytes[i] != 0x7B,
    ensures
        brace_from(bytes, from) == Some(start),
    decreases start - from,
{
    if from < start {
        assert(bytes[from] != 0x7B);
        lemma_first_brace(bytes, from + 1, start);
    }
}

/// A text without a brace has no objects.
pub proof fn law_no_brace_no_object(text: Seq<char>)
    requires
        forall|i: int| 0 <= i < text::byte_len(text) ==> #[trigger] encode_utf8(text)[i] != 0x7B,
    ensures
        json_objects(text).len() == 0,
{
    lemma_no_brace(encode_utf8(text), 0);
}

/// Where there is no brace, none is found.
proof fn lemma_no_brace(bytes: Seq<u8>, from: int)
    requires
        0 <= from,
        forall|i: int| from <= i < bytes.len() ==> #[trigger] bytes[i] != 0x7B,
    ensures
        brace_from(bytes, from) is None,
    decreases bytes.len() - from,
{
    if from < bytes.len() {
        assert(bytes[from] != 0x7B);
        lemma_no_brace(bytes, from + 1);
    }
}

/// Of a line that speaks of a tool and its arguments the first object is taken, where its first brace is
/// closed; of any other line none is.
pub proof fn law_lines_hold_one_object(line: Seq<char>, start: int)
    requires
        0 <= start < text::byte_len(text::trimmed(line)),
        encode_utf8(text::trimmed(line))[start] == 0x7B,
        forall|i: int| 0 <= i < start ==> #[trigger] encode_utf8(text::trimmed(line))[i] != 0x7B,
        close_from(encode_utf8(text::trimmed(line)), start, start) is Some,
    ensures
        text::has_part(text::trimmed(line), "\"tool\""@) && text::has_part(
            text::trimmed(line),
            "\"args\""@,
        ) ==> line_object(line) == Some(json_objects(text::trimmed(line))[0]),
        !text::has_part(text::trimmed(line), "\"tool\""@) ==> line_object(line) is None,
        !text::has_part(text::trimmed(line), "\"args\""@) ==> line_object(line) is None,
{
    law_every_object_is_found(text::trimmed(line), 0, start);
    lemma_first_brace(encode_utf8(text::trimmed(line)), 0, start);
}

/// Keys are ordered by the first character in which they differ, and a key that another starts with comes
/// before it.
pub proof fn law_keys_are_ordered_by_character(
    common: Seq<char>,
    x: char,
    y: char,
    first: Seq<char>,
    second: Seq<char>,
)
    requires
        x < y,
    ensures
        key_less(common + seq![x] + first, common + seq![y] + second),
        !key_less(common + seq![y] + second, common + seq![x] + first),
        key_less(common, common + seq![x] + first),
        !key_less(common + seq![x] + first, common),
    decreases common.len(),
{
    let a = common + seq![x] + first;
    let b = common + seq![y] + second;
    if common.len() == 0 {
        assert(a[0] == x);
        assert(b[0] == y);
    } else {
        let rest = common.skip(1);
        assert(a[0] == common[0] && b[0] == common[0]);
        assert(a.skip(1) =~= rest + seq![x] + first);
        assert(b.skip(1) =~= rest + seq![y] + second);
        law_keys_are_ordered_by_character(rest, x, y, first, second);
    }
}

} // verus!
