//! Tool names: how a name that the model writes finds the name that the client gave.
use vstd::prelude::*;

use crate::text;
use crate::text::{same_text, strip_prefix, strip_suffix, to_lowercase, trim, trim_char};

verus! {

/// The prefixes that agents put before a tool name.
pub open spec fn agent_prefixes() -> Seq<Seq<char>> {
    seq!["get_"@, "run_"@, "bash_"@, "execute_"@, "tool_"@, "cursor_"@, "api_"@]
}

/// The suffixes that agents put behind a tool name.
pub open spec fn agent_suffixes() -> Seq<Seq<char>> {
    seq!["_tool"@, "_cmd"@, "_function"@, "_op"@]
}

/// A name without the first of the prefixes that it starts with.
pub open spec fn without_prefix(name: Seq<char>, prefixes: Seq<Seq<char>>) -> Seq<char>
    decreases prefixes.len(),
{
    if prefixes.len() == 0 {
        name
    } else {
        match text::after_prefix(name, prefixes[0]) {
            Some(rest) => rest,
            None => without_prefix(name, prefixes.skip(1)),
        }
    }
}

/// A name without the first of the suffixes that it ends with.
pub open spec fn without_suffix(name: Seq<char>, suffixes: Seq<Seq<char>>) -> Seq<char>
    decreases suffixes.len(),
{
    if suffixes.len() == 0 {
        name
    } else {
        match text::before_suffix(name, suffixes[0]) {
            Some(rest) => rest,
            None => without_suffix(name, suffixes.skip(1)),
        }
    }
}

/// The form in which two tool names are compared: trimmed, in lower case, without one agent
/// prefix, one agent suffix and the underscores at either end.
pub open spec fn normal_name(name: Seq<char>) -> Seq<char> {
    let bare = without_suffix(
        without_prefix(text::lower_form(text::trimmed(name)), agent_prefixes()),
        agent_suffixes(),
    );
    text::without_trailing(text::without_leading(bare, '_'), '_')
}

/// A text without the letters `A` to `Z`.
pub open spec fn no_capitals(text: Seq<char>) -> bool {
    forall|i: int| 0 <= i < text.len() ==> !('A' <= #[trigger] text[i] <= 'Z')
}

/// A part of a text has no capitals where the text has none.
proof fn lemma_part_has_no_capitals(text: Seq<char>, part: Seq<char>, at: int)
    requires
        no_capitals(text),
        text::occurs_at(text, part, at),
    ensures
        no_capitals(part),
{
    assert forall|i: int| 0 <= i < part.len() implies !('A' <= #[trigger] part[i] <= 'Z') by {
        assert(text.subrange(at, at + part.len())[i] == text[at + i]);
    }
}

/// A name without a prefix has no capitals where the name has none.
proof fn lemma_without_prefix(name: Seq<char>, prefixes: Seq<Seq<char>>)
    requires
        no_capitals(name),
    ensures
        no_capitals(without_prefix(name, prefixes)),
    decreases prefixes.len(),
{
    if prefixes.len() > 0 {
        match text::after_prefix(name, prefixes[0]) {
            Some(rest) => {
                let at = prefixes[0].len() as int;
                assert(name.subrange(at, at + rest.len()) =~= rest);
                lemma_part_has_no_capitals(name, rest, at);
            },
            None => {
                lemma_without_prefix(name, prefixes.skip(1));
            },
        }
    }
}

/// A name without a suffix has no capitals where the name has none.
proof fn lemma_without_suffix(name: Seq<char>, suffixes: Seq<Seq<char>>)
    requires
        no_capitals(name),
    ensures
        no_capitals(without_suffix(name, suffixes)),
    decreases suffixes.len(),
{
    if suffixes.len() > 0 {
        match text::before_suffix(name, suffixes[0]) {
            Some(rest) => {
                assert(name.subrange(0, rest.len() as int) =~= rest);
                lemma_part_has_no_capitals(name, rest, 0);
            },
            None => {
                lemma_without_suffix(name, suffixes.skip(1));
            },
        }
    }
}

/// A trimmed ASCII text is one, and its lower-case form has no capitals.
proof fn lemma_trimmed_ascii(name: Seq<char>)
    requires
        vstd::utf8::is_ascii_chars(name),
    ensures
        vstd::utf8::is_ascii_chars(text::trimmed(name)),
        text::lower_form(text::trimmed(name)) == text::trimmed(text::lower_form(name)),
        no_capitals(text::lower_form(text::trimmed(name))),
{
    let from = text::lemma_trimmed(name);
    let inner = text::trimmed(name);
    assert forall|i: int| 0 <= i < inner.len() implies '\0' <= #[trigger] inner[i] <= '\u{7f}' by {
        assert(name.subrange(from, from + inner.len())[i] == name[from + i]);
    }
    text::lemma_trim_lower(name);
}

/// Where two tool names are compared, no underscore stands at either end of a name, and no capital
/// in one of ASCII letters.
pub proof fn law_normal_names_are_bare(name: Seq<char>)
    ensures
        normal_name(name).len() > 0 ==> normal_name(name)[0] != '_' && normal_name(name).last()
            != '_',
        vstd::utf8::is_ascii_chars(name) ==> no_capitals(normal_name(name)),
{
    let lower = text::lower_form(text::trimmed(name));
    let start = without_prefix(lower, agent_prefixes());
    let bare = without_suffix(start, agent_suffixes());
    let from = text::lemma_without_runs(bare, '_');
    if vstd::utf8::is_ascii_chars(name) {
        lemma_trimmed_ascii(name);
        lemma_without_prefix(lower, agent_prefixes());
        lemma_without_suffix(start, agent_suffixes());
        lemma_part_has_no_capitals(bare, normal_name(name), from);
    }
}

/// Where two tool names of ASCII letters are compared, neither case nor white space around them
/// matters.
pub proof fn law_case_and_blanks_do_not_matter(
    name: Seq<char>,
    other: Seq<char>,
    before: Seq<char>,
    after: Seq<char>,
)
    requires
        vstd::utf8::is_ascii_chars(name),
        vstd::utf8::is_ascii_chars(other),
        text::lower_form(name) == text::lower_form(other),
        text::all_white(before),
        text::all_white(after),
    ensures
        normal_name(before + other + after) == normal_name(name),
{
    text::lemma_trim_blanks(before, other, after);
    lemma_trimmed_ascii(name);
    lemma_trimmed_ascii(other);
}

/// The upper-case form of an ASCII text between two blanks.
pub open spec fn loud(name: Seq<char>) -> Seq<char> {
    seq![' '] + text::upper_form(name) + seq![' ']
}

/// The upper-case form of an ASCII name between two blanks compares equal to it.
proof fn lemma_loud(name: Seq<char>)
    requires
        vstd::utf8::is_ascii_chars(name),
    ensures
        normal_name(loud(name)) == normal_name(name),
{
    let upper = text::upper_form(name);
    assert(text::lower_form(upper) =~= text::lower_form(name));
    law_case_and_blanks_do_not_matter(name, upper, seq![' '], seq![' ']);
}

/// The texts of a list of string slices.
pub open spec fn str_texts(parts: Seq<&str>) -> Seq<Seq<char>> {
    Seq::new(parts.len(), |i: int| parts[i]@)
}

/// A name without the first of the prefixes that it starts with.
fn drop_prefix(name: String, prefixes: &Vec<&'static str>) -> (rest: String)
    ensures
        rest@ == without_prefix(name@, str_texts(prefixes@)),
{
    let ghost all = str_texts(prefixes@);
    let mut i: usize = 0;
    assert(all.skip(0) =~= all);
    while i < prefixes.len()
        invariant
            i <= prefixes@.len(),
            all == str_texts(prefixes@),
            without_prefix(name@, all) == without_prefix(name@, all.skip(i as int)),
        decreases prefixes@.len() - i,
    {
        assert(all.skip(i as int).skip(1) =~= all.skip(i + 1));
        if let Some(rest) = strip_prefix(name.as_str(), prefixes[i]) {
            return rest;
        }
        i += 1;
    }
    name
}

/// A name without the first of the suffixes that it ends with.
fn drop_suffix(name: String, suffixes: &Vec<&'static str>) -> (rest: String)
    ensures
        rest@ == without_suffix(name@, str_texts(suffixes@)),
{
    let ghost all = str_texts(suffixes@);
    let mut i: usize = 0;
    assert(all.skip(0) =~= all);
    while i < suffixes.len()
        invariant
            i <= suffixes@.len(),
            all == str_texts(suffixes@),
            without_suffix(name@, all) == without_suffix(name@, all.skip(i as int)),
        decreases suffixes@.len() - i,
    {
        assert(all.skip(i as int).skip(1) =~= all.skip(i + 1));
        if let Some(rest) = strip_suffix(name.as_str(), suffixes[i]) {
            return rest;
        }
        i += 1;
    }
    name
}

/// The form in which two tool names are compared. It neither begins nor ends with an underscore; of
/// an ASCII name it has no capital letter, and is that of the upper-case name between blanks.
pub fn normalize_tool_name(name: &str) -> (normal: String)
    ensures
        normal@ == normal_name(name@),
        normal@.len() > 0 ==> normal@[0] != '_' && normal@.last() != '_',
        vstd::utf8::is_ascii_chars(name@) ==> no_capitals(normal@) && normal@ == normal_name(
            loud(name@),
        ),
{
    proof {
        law_normal_names_are_bare(name@);
        if vstd::utf8::is_ascii_chars(name@) {
            lemma_loud(name@);
        }
    }
    let prefixes: Vec<&'static str> = vec![
        "get_",
        "run_",
        "bash_",
        "execute_",
        "tool_",
        "cursor_",
        "api_",
    ];
    let suffixes: Vec<&'static str> = vec!["_tool", "_cmd", "_function", "_op"];
    assert(str_texts(prefixes@) =~= agent_prefixes());
    assert(str_texts(suffixes@) =~= agent_suffixes());
    let lower = to_lowercase(trim(name).as_str());
    let bare = drop_suffix(drop_prefix(lower, &prefixes), &suffixes);
    trim_char(bare.as_str(), '_')
}

/// The first of the allowed names that compares equal to a normal name.
pub open spec fn normal_match(allowed: Seq<Seq<char>>, normal: Seq<char>) -> Option<Seq<char>>
    decreases allowed.len(),
{
    if allowed.len() == 0 {
        None
    } else if normal_name(allowed[0]) == normal {
        Some(allowed[0])
    } else {
        normal_match(allowed.skip(1), normal)
    }
}

/// The name under which a requested tool goes to the client: with no list, as requested; in the
/// list, as requested; else the first name of the list that compares equal; else none.
pub open spec fn canonical_name(requested: Seq<char>, allowed: Seq<Seq<char>>) -> Option<
    Seq<char>,
> {
    if allowed.len() == 0 || allowed.contains(requested) {
        Some(requested)
    } else {
        normal_match(allowed, normal_name(requested))
    }
}

/// The name under which a requested tool goes to the client.
pub fn is_tool_name_allowed(requested: &str, allowed: &Vec<String>) -> (name: Option<String>)
    ensures
        match name {
            Some(n) => canonical_name(requested@, text::texts(allowed@)) == Some(n@),
            None => canonical_name(requested@, text::texts(allowed@)) is None,
        },
{
    let ghost all = text::texts(allowed@);
    if allowed.len() == 0 {
        return Some(requested.to_owned());
    }
    let mut i: usize = 0;
    while i < allowed.len()
        invariant
            i <= allowed@.len(),
            allowed@.len() > 0,
            all == text::texts(allowed@),
            forall|j: int| 0 <= j < i ==> #[trigger] all[j] != requested@,
        decreases allowed@.len() - i,
    {
        if same_text(allowed[i].as_str(), requested) {
            assert(all[i as int] == requested@);
            assert(all.contains(requested@));
            return Some(requested.to_owned());
        }
        i += 1;
    }
    let normal = normalize_tool_name(requested);
    let mut k: usize = 0;
    assert(all.skip(0) =~= all);
    while k < allowed.len()
        invariant
            k <= allowed@.len(),
            allowed@.len() > 0,
            all == text::texts(allowed@),
            !all.contains(requested@),
            normal@ == normal_name(requested@),
            normal_match(all, normal@) == normal_match(all.skip(k as int), normal@),
        decreases allowed@.len() - k,
    {
        assert(all.skip(k as int).skip(1) =~= all.skip(k + 1));
        assert(all.skip(k as int)[0] == all[k as int]);
        if same_text(normalize_tool_name(allowed[k].as_str()).as_str(), normal.as_str()) {
            return Some(allowed[k].clone());
        }
        k += 1;
    }
    None
}

/// What a search by normal name finds is in the list, and compares equal.
proof fn lemma_normal_match(allowed: Seq<Seq<char>>, normal: Seq<char>)
    ensures
        normal_match(allowed, normal) matches Some(name) ==> allowed.contains(name) && normal_name(
            name,
        ) == normal,
    decreases allowed.len(),
{
    if allowed.len() > 0 {
        if normal_name(allowed[0]) == normal {
            assert(allowed.contains(allowed[0]));
        } else {
            let rest = allowed.skip(1);
            lemma_normal_match(rest, normal);
            if let Some(name) = normal_match(rest, normal) {
                let i = choose|i: int| 0 <= i < rest.len() && rest[i] == name;
                assert(allowed[i + 1] == name);
            }
        }
    }
}

/// A name that the client listed goes out exactly as it was listed.
pub proof fn law_listed_name_kept(requested: Seq<char>, allowed: Seq<Seq<char>>)
    requires
        allowed.contains(requested),
    ensures
        canonical_name(requested, allowed) == Some(requested),
{
}

/// Where the client lists names, only a listed name goes out, and it compares equal to the one
/// requested.
pub proof fn law_canonical_name_listed(requested: Seq<char>, allowed: Seq<Seq<char>>)
    requires
        allowed.len() > 0,
    ensures
        canonical_name(requested, allowed) matches Some(name) ==> allowed.contains(name)
            && normal_name(name) == normal_name(requested),
{
    lemma_normal_match(allowed, normal_name(requested));
}

/// A name that compares equal to a listed one goes out as the first of those is listed; where none
/// does, it does not go out; and with no list every name goes out as it is.
pub proof fn law_equal_names_are_found(requested: Seq<char>, allowed: Seq<Seq<char>>, i: int)
    requires
        0 <= i < allowed.len(),
        normal_name(allowed[i]) == normal_name(requested),
    ensures
        canonical_name(requested, allowed) is Some,
        !allowed.contains(requested) && (forall|j: int|
            0 <= j < i ==> normal_name(#[trigger] allowed[j]) != normal_name(requested))
            ==> canonical_name(requested, allowed) == Some(allowed[i]),
        canonical_name(requested, Seq::empty()) == Some(requested),
{
    lemma_first_match(allowed, normal_name(requested), i);
}

/// A search by normal name finds the first name that compares equal.
proof fn lemma_first_match(allowed: Seq<Seq<char>>, normal: Seq<char>, i: int)
    requires
        0 <= i < allowed.len(),
        normal_name(allowed[i]) == normal,
    ensures
        normal_match(allowed, normal) is Some,
        (forall|j: int| 0 <= j < i ==> normal_name(#[trigger] allowed[j]) != normal)
            ==> normal_match(allowed, normal) == Some(allowed[i]),
    decreases allowed.len(),
{
    if normal_name(allowed[0]) != normal {
        let rest = allowed.skip(1);
        assert(rest[i - 1] == allowed[i]);
        lemma_first_match(rest, normal, i - 1);
        if forall|j: int| 0 <= j < i ==> normal_name(#[trigger] allowed[j]) != normal {
            assert forall|j: int| 0 <= j < i - 1 implies normal_name(#[trigger] rest[j]) != normal by {
                assert(rest[j] == allowed[j + 1]);
            }
        }
    }
}

/// A name that compares equal to no listed one does not go out.
pub proof fn law_other_names_are_not_found(requested: Seq<char>, allowed: Seq<Seq<char>>)
    requires
        allowed.len() > 0,
        forall|i: int|
            0 <= i < allowed.len() ==> normal_name(#[trigger] allowed[i]) != normal_name(requested),
    ensures
        canonical_name(requested, allowed) is None,
{
    if allowed.contains(requested) {
        let i = choose|i: int| 0 <= i < allowed.len() && allowed[i] == requested;
        assert(normal_name(allowed[i]) == normal_name(requested));
    }
    lemma_normal_match(allowed, normal_name(requested));
    if let Some(name) = normal_match(allowed, normal_name(requested)) {
        let i = choose|i: int| 0 <= i < allowed.len() && allowed[i] == name;
        assert(normal_name(allowed[i]) != normal_name(requested));
    }
}

/// The prefixes that agents put before a name, by their letters.
pub open spec fn is_agent_prefix(part: Seq<char>) -> bool {
    part == "get_"@ || part == "run_"@ || part == "bash_"@ || part == "execute_"@ || part == "tool_"@
        || part == "cursor_"@ || part == "api_"@
}

/// The suffixes that agents put behind a name, by their letters.
pub open spec fn is_agent_suffix(part: Seq<char>) -> bool {
    part == "_tool"@ || part == "_cmd"@ || part == "_function"@ || part == "_op"@
}

/// Each agent prefix starts with a letter of its own.
proof fn lemma_prefix_letters()
    ensures
        "get_"@.len() == 4 && "get_"@[0] == 'g',
        "run_"@.len() == 4 && "run_"@[0] == 'r',
        "bash_"@.len() == 5 && "bash_"@[0] == 'b',
        "execute_"@.len() == 8 && "execute_"@[0] == 'e',
        "tool_"@.len() == 5 && "tool_"@[0] == 't',
        "cursor_"@.len() == 7 && "cursor_"@[0] == 'c',
        "api_"@.len() == 4 && "api_"@[0] == 'a',
{
    reveal_strlit("get_");
    reveal_strlit("run_");
    reveal_strlit("bash_");
    reveal_strlit("execute_");
    reveal_strlit("tool_");
    reveal_strlit("cursor_");
    reveal_strlit("api_");
}

/// Each agent suffix ends with a letter of its own.
proof fn lemma_suffix_letters()
    ensures
        "_tool"@.len() == 5 && "_tool"@.last() == 'l',
        "_cmd"@.len() == 4 && "_cmd"@.last() == 'd',
        "_function"@.len() == 9 && "_function"@.last() == 'n',
        "_op"@.len() == 3 && "_op"@.last() == 'p',
{
    reveal_strlit("_tool");
    reveal_strlit("_cmd");
    reveal_strlit("_function");
    reveal_strlit("_op");
}

/// A prefix does not occur where another letter stands first.
proof fn lemma_other_start(name: Seq<char>, prefix: Seq<char>)
    requires
        prefix.len() > 0,
        name.len() > 0,
        name[0] != prefix[0],
    ensures
        text::after_prefix(name, prefix) is None,
{
    if text::occurs_at(name, prefix, 0) {
        assert(name.subrange(0, prefix.len() as int)[0] == name[0]);
    }
}

/// A suffix does not occur where another letter stands last.
proof fn lemma_other_end(name: Seq<char>, suffix: Seq<char>)
    requires
        suffix.len() > 0,
        name.len() > 0,
        name.last() != suffix.last(),
    ensures
        text::before_suffix(name, suffix) is None,
{
    let at = name.len() - suffix.len();
    if text::occurs_at(name, suffix, at) {
        assert(name.subrange(at, at + suffix.len()).last() == name.last());
    }
}

/// Of a list of prefixes, the first that a name starts with is taken off.
proof fn lemma_prefix_taken(name: Seq<char>, prefixes: Seq<Seq<char>>, i: int)
    requires
        0 <= i < prefixes.len(),
        text::after_prefix(name, prefixes[i]) is Some,
        forall|j: int|
            0 <= j < i ==> text::after_prefix(name, #[trigger] prefixes[j]) is None,
    ensures
        Some(without_prefix(name, prefixes)) == text::after_prefix(name, prefixes[i]),
    decreases i,
{
    if i > 0 {
        assert(text::after_prefix(name, prefixes[0]) is None);
        let rest = prefixes.skip(1);
        assert(rest[i - 1] == prefixes[i]);
        assert forall|j: int| 0 <= j < i - 1 implies text::after_prefix(
            name,
            #[trigger] rest[j],
        ) is None by {
            assert(rest[j] == prefixes[j + 1]);
        }
        lemma_prefix_taken(name, rest, i - 1);
    }
}

/// Of a list of suffixes, the first that a name ends with is taken off.
proof fn lemma_suffix_taken(name: Seq<char>, suffixes: Seq<Seq<char>>, i: int)
    requires
        0 <= i < suffixes.len(),
        text::before_suffix(name, suffixes[i]) is Some,
        forall|j: int|
            0 <= j < i ==> text::before_suffix(name, #[trigger] suffixes[j]) is None,
    ensures
        Some(without_suffix(name, suffixes)) == text::before_suffix(name, suffixes[i]),
    decreases i,
{
    if i > 0 {
        assert(text::before_suffix(name, suffixes[0]) is None);
        let rest = suffixes.skip(1);
        assert(rest[i - 1] == suffixes[i]);
        assert forall|j: int| 0 <= j < i - 1 implies text::before_suffix(
            name,
            #[trigger] rest[j],
        ) is None by {
            assert(rest[j] == suffixes[j + 1]);
        }
        lemma_suffix_taken(name, rest, i - 1);
    }
}

/// A name that starts with no prefix of a list stays as it is.
proof fn lemma_no_prefix(name: Seq<char>, prefixes: Seq<Seq<char>>)
    requires
        forall|j: int|
            0 <= j < prefixes.len() ==> text::after_prefix(name, #[trigger] prefixes[j]) is None,
    ensures
        without_prefix(name, prefixes) == name,
    decreases prefixes.len(),
{
    if prefixes.len() > 0 {
        assert(text::after_prefix(name, prefixes[0]) is None);
        let rest = prefixes.skip(1);
        assert forall|j: int| 0 <= j < rest.len() implies text::after_prefix(
            name,
            #[trigger] rest[j],
        ) is None by {
            assert(rest[j] == prefixes[j + 1]);
        }
        lemma_no_prefix(name, rest);
    }
}

/// A name that ends with no suffix of a list stays as it is.
proof fn lemma_no_suffix(name: Seq<char>, suffixes: Seq<Seq<char>>)
    requires
        forall|j: int|
            0 <= j < suffixes.len() ==> text::before_suffix(name, #[trigger] suffixes[j]) is None,
    ensures
        without_suffix(name, suffixes) == name,
    decreases suffixes.len(),
{
    if suffixes.len() > 0 {
        assert(text::before_suffix(name, suffixes[0]) is None);
        let rest = suffixes.skip(1);
        assert forall|j: int| 0 <= j < rest.len() implies text::before_suffix(
            name,
            #[trigger] rest[j],
        ) is None by {
            assert(rest[j] == suffixes[j + 1]);
        }
        lemma_no_suffix(name, rest);
    }
}

/// An agent prefix is taken off, whichever of them it is.
proof fn lemma_agent_prefix(prefix: Seq<char>, rest: Seq<char>)
    requires
        is_agent_prefix(prefix),
    ensures
        without_prefix(prefix + rest, agent_prefixes()) == rest,
{
    let name = prefix + rest;
    let prefixes = agent_prefixes();
    lemma_prefix_letters();
    text::law_prefixes_and_suffixes(name, prefix, rest);
    let i: int = if prefix == "get_"@ {
        0
    } else if prefix == "run_"@ {
        1
    } else if prefix == "bash_"@ {
        2
    } else if prefix == "execute_"@ {
        3
    } else if prefix == "tool_"@ {
        4
    } else if prefix == "cursor_"@ {
        5
    } else {
        6
    };
    assert(prefixes[i] == prefix);
    assert(name[0] == prefix[0]);
    assert forall|j: int| 0 <= j < i implies text::after_prefix(
        name,
        #[trigger] prefixes[j],
    ) is None by {
        assert(prefixes[j].len() > 0 && prefixes[j][0] != prefix[0]);
        lemma_other_start(name, prefixes[j]);
    }
    lemma_prefix_taken(name, prefixes, i);
}

/// An agent suffix is taken off, whichever of them it is.
proof fn lemma_agent_suffix(rest: Seq<char>, suffix: Seq<char>)
    requires
        is_agent_suffix(suffix),
    ensures
        without_suffix(rest + suffix, agent_suffixes()) == rest,
{
    let name = rest + suffix;
    let suffixes = agent_suffixes();
    lemma_suffix_letters();
    text::law_prefixes_and_suffixes(name, suffix, rest);
    let i: int = if suffix == "_tool"@ {
        0
    } else if suffix == "_cmd"@ {
        1
    } else if suffix == "_function"@ {
        2
    } else {
        3
    };
    assert(suffixes[i] == suffix);
    assert(name.last() == suffix.last());
    assert forall|j: int| 0 <= j < i implies text::before_suffix(
        name,
        #[trigger] suffixes[j],
    ) is None by {
        assert(suffixes[j].len() > 0 && suffixes[j].last() != suffix.last());
        lemma_other_end(name, suffixes[j]);
    }
    lemma_suffix_taken(name, suffixes, i);
}

/// A core that a name is about: in lower case and trimmed, with no underscore at either end, and with
/// no further prefix or suffix of agents.
pub open spec fn bare_core(core: Seq<char>) -> bool {
    &&& core.len() > 0 && core[0] != '_' && core.last() != '_'
    &&& forall|part: Seq<char>| is_agent_prefix(part) ==> #[trigger] text::after_prefix(core, part) is None
    &&& forall|part: Seq<char>| is_agent_suffix(part) ==> #[trigger] text::before_suffix(core, part) is None
}

/// A core stays as it is.
proof fn lemma_core_stays(core: Seq<char>)
    requires
        bare_core(core),
    ensures
        without_prefix(core, agent_prefixes()) == core,
        without_suffix(core, agent_suffixes()) == core,
        text::without_trailing(text::without_leading(core, '_'), '_') == core,
{
    let prefixes = agent_prefixes();
    assert forall|j: int| 0 <= j < prefixes.len() implies text::after_prefix(
        core,
        #[trigger] prefixes[j],
    ) is None by {
        assert(is_agent_prefix(prefixes[j]));
    }
    lemma_no_prefix(core, prefixes);
    let suffixes = agent_suffixes();
    assert forall|j: int| 0 <= j < suffixes.len() implies text::before_suffix(
        core,
        #[trigger] suffixes[j],
    ) is None by {
        assert(is_agent_suffix(suffixes[j]));
    }
    lemma_no_suffix(core, suffixes);
}

/// A name compares as its core, with or without an agent prefix, with or without an agent suffix.
pub proof fn law_what_agents_add_does_not_matter(
    prefix: Seq<char>,
    core: Seq<char>,
    suffix: Seq<char>,
)
    requires
        bare_core(core),
        prefix == "get_"@ || prefix == "run_"@ || prefix == "bash_"@ || prefix == "execute_"@ || prefix
            == "tool_"@ || prefix == "cursor_"@ || prefix == "api_"@,
        suffix == "_tool"@ || suffix == "_cmd"@ || suffix == "_function"@ || suffix == "_op"@,
    ensures
        text::lower_form(text::trimmed(core)) == core ==> normal_name(core) == core,
        text::lower_form(text::trimmed(prefix + core)) == prefix + core ==> normal_name(prefix + core)
            == core,
        text::lower_form(text::trimmed(prefix + core + suffix)) == prefix + core + suffix
            ==> normal_name(prefix + core + suffix) == core,
{
    lemma_core_stays(core);
    lemma_agent_prefix(prefix, core);
    assert(prefix + core + suffix =~= prefix + (core + suffix));
    lemma_agent_prefix(prefix, core + suffix);
    lemma_agent_suffix(core, suffix);
}

/// Of the prefixes that agents put before a name one is taken off, and of their suffixes one; what is
/// left stays, though it starts or ends with another.
pub proof fn law_one_prefix_and_one_suffix_are_taken_off(
    prefix: Seq<char>,
    rest: Seq<char>,
    suffix: Seq<char>,
)
    requires
        prefix == "get_"@ || prefix == "run_"@ || prefix == "bash_"@ || prefix == "execute_"@ || prefix
            == "tool_"@ || prefix == "cursor_"@ || prefix == "api_"@,
        suffix == "_tool"@ || suffix == "_cmd"@ || suffix == "_function"@ || suffix == "_op"@,
        rest.len() > 0 && rest[0] != '_' && rest.last() != '_',
        text::lower_form(text::trimmed(prefix + rest + suffix)) == prefix + rest + suffix,
    ensures
        normal_name(prefix + rest + suffix) == rest,
{
    assert(prefix + rest + suffix =~= prefix + (rest + suffix));
    lemma_agent_prefix(prefix, rest + suffix);
    lemma_agent_suffix(rest, suffix);
}

} // verus!
