//! Text as a sequence of characters: searching, trimming, cutting and joining.
use vstd::prelude::*;
use vstd::utf8::*;

verus! {

/// `String::push` of the standard library: appends one character.
pub assume_specification[ String::push ](s: &mut String, c: char)
    ensures
        final(s)@ == old(s)@.push(c),
;

/// `String::push_str` of the standard library: appends a text.
pub assume_specification[ String::push_str ](s: &mut String, other: &str)
    ensures
        final(s)@ == old(s)@ + other@,
;

/// What `str::to_lowercase` of the standard library returns.
pub uninterp spec fn lowercase(text: Seq<char>) -> Seq<char>;

/// What `str::to_uppercase` of the standard library returns.
pub uninterp spec fn uppercase(text: Seq<char>) -> Seq<char>;

/// The lower-case form of an ASCII letter; any other character stays.
pub open spec fn ascii_lower(c: char) -> char {
    if 'A' <= c && c <= 'Z' {
        (c as u32 + 32) as char
    } else {
        c
    }
}

/// The upper-case form of an ASCII letter; any other character stays.
pub open spec fn ascii_upper(c: char) -> char {
    if 'a' <= c && c <= 'z' {
        (c as u32 - 32) as char
    } else {
        c
    }
}

/// `str::to_lowercase`: the Unicode lower-case form of a text; of an ASCII text, the text with
/// each letter `A` to `Z` in lower case.
#[verifier::external_body]
pub(crate) fn to_lowercase(text: &str) -> (lower: String)
    ensures
        lower@ == lowercase(text@),
        is_ascii_chars(text@) ==> lower@ == text@.map_values(|c: char| ascii_lower(c)),
{
    text.to_lowercase()
}

/// `str::to_uppercase`: the Unicode upper-case form of a text; of an ASCII text, the text with
/// each letter `a` to `z` in upper case.
#[verifier::external_body]
pub(crate) fn to_uppercase(text: &str) -> (upper: String)
    ensures
        upper@ == uppercase(text@),
        is_ascii_chars(text@) ==> upper@ == text@.map_values(|c: char| ascii_upper(c)),
{
    text.to_uppercase()
}

/// A text in lower case: of an ASCII text, the text with each letter `A` to `Z` in lower case; of
/// another, what the standard library makes of it.
pub open spec fn lower_form(text: Seq<char>) -> Seq<char> {
    if is_ascii_chars(text) {
        text.map_values(|c: char| ascii_lower(c))
    } else {
        lowercase(text)
    }
}

/// A text in upper case: of an ASCII text, the text with each letter `a` to `z` in upper case; of
/// another, what the standard library makes of it.
pub open spec fn upper_form(text: Seq<char>) -> Seq<char> {
    if is_ascii_chars(text) {
        text.map_values(|c: char| ascii_upper(c))
    } else {
        uppercase(text)
    }
}

/// The number of bytes that a text takes in UTF-8.
pub open spec fn byte_len(text: Seq<char>) -> nat {
    encode_utf8(text).len()
}

/// The characters with the Unicode property White_Space.
pub open spec fn is_white(c: char) -> bool {
    ||| '\t' <= c <= '\r'
    ||| c == ' '
    ||| c == '\u{85}'
    ||| c == '\u{A0}'
    ||| c == '\u{1680}'
    ||| '\u{2000}' <= c <= '\u{200A}'
    ||| c == '\u{2028}'
    ||| c == '\u{2029}'
    ||| c == '\u{202F}'
    ||| c == '\u{205F}'
    ||| c == '\u{3000}'
}

/// A text without its leading white space.
pub open spec fn trimmed_start(text: Seq<char>) -> Seq<char>
    decreases text.len(),
{
    if text.len() > 0 && is_white(text[0]) {
        trimmed_start(text.skip(1))
    } else {
        text
    }
}

/// A text without its trailing white space.
pub open spec fn trimmed_end(text: Seq<char>) -> Seq<char>
    decreases text.len(),
{
    if text.len() > 0 && is_white(text.last()) {
        trimmed_end(text.drop_last())
    } else {
        text
    }
}

/// A text without white space at either end.
pub open spec fn trimmed(text: Seq<char>) -> Seq<char> {
    trimmed_end(trimmed_start(text))
}

/// What is left without leading white space is the end of a text, and does not start with any.
proof fn lemma_trimmed_start(text: Seq<char>) -> (from: int)
    ensures
        0 <= from <= text.len(),
        trimmed_start(text) == text.skip(from),
        trimmed_start(text).len() > 0 ==> !is_white(trimmed_start(text)[0]),
    decreases text.len(),
{
    if text.len() > 0 && is_white(text[0]) {
        let from = lemma_trimmed_start(text.skip(1));
        assert(text.skip(1).skip(from) =~= text.skip(from + 1));
        from + 1
    } else {
        assert(text.skip(0) =~= text);
        0
    }
}

/// What is left without trailing white space is the start of a text, and does not end with any.
proof fn lemma_trimmed_end(text: Seq<char>) -> (to: int)
    ensures
        0 <= to <= text.len(),
        trimmed_end(text) == text.take(to),
        trimmed_end(text).len() > 0 ==> !is_white(trimmed_end(text).last()),
    decreases text.len(),
{
    if text.len() > 0 && is_white(text.last()) {
        let to = lemma_trimmed_end(text.drop_last());
        assert(text.drop_last().take(to) =~= text.take(to));
        to
    } else {
        assert(text.take(text.len() as int) =~= text);
        text.len() as int
    }
}

/// A trimmed text is a part of the text, and has nothing more to trim.
pub proof fn lemma_trimmed(text: Seq<char>) -> (from: int)
    ensures
        occurs_at(text, trimmed(text), from),
        trimmed(trimmed(text)) == trimmed(text),
        trimmed(text).len() > 0 ==> !is_white(trimmed(text)[0]) && !is_white(trimmed(text).last()),
{
    let from = lemma_trimmed_start(text);
    let start = trimmed_start(text);
    let to = lemma_trimmed_end(start);
    let inner = trimmed(text);
    assert(text.subrange(from, from + inner.len()) =~= inner);
    if inner.len() > 0 {
        assert(inner[0] == start[0]);
    }
    from
}

/// A text that neither starts nor ends with white space has nothing to trim.
pub proof fn lemma_nothing_to_trim(text: Seq<char>)
    requires
        text.len() > 0,
        !is_white(text[0]),
        !is_white(text.last()),
    ensures
        trimmed(text) == text,
{
}

/// A text of white space alone.
pub open spec fn all_white(text: Seq<char>) -> bool {
    forall|i: int| 0 <= i < text.len() ==> is_white(#[trigger] text[i])
}

/// White space before a text is trimmed away.
proof fn lemma_trim_before(before: Seq<char>, text: Seq<char>)
    requires
        all_white(before),
    ensures
        trimmed_start(before + text) == trimmed_start(text),
    decreases before.len(),
{
    if before.len() == 0 {
        assert(before + text =~= text);
    } else {
        assert((before + text)[0] == before[0]);
        assert((before + text).skip(1) =~= before.skip(1) + text);
        lemma_trim_before(before.skip(1), text);
    }
}

/// White space behind a text is trimmed away.
proof fn lemma_trim_behind(text: Seq<char>, after: Seq<char>)
    requires
        all_white(after),
    ensures
        trimmed_end(text + after) == trimmed_end(text),
    decreases after.len(),
{
    if after.len() == 0 {
        assert(text + after =~= text);
    } else {
        assert((text + after).last() == after.last());
        assert((text + after).drop_last() =~= text + after.drop_last());
        lemma_trim_behind(text, after.drop_last());
    }
}

/// White space behind a text does not change what is trimmed away before it.
proof fn lemma_trim_start_of(text: Seq<char>, after: Seq<char>)
    ensures
        trimmed_start(text + after) == if trimmed_start(text).len() > 0 {
            trimmed_start(text) + after
        } else {
            trimmed_start(after)
        },
    decreases text.len(),
{
    if text.len() == 0 {
        assert(text + after =~= after);
    } else if is_white(text[0]) {
        assert((text + after)[0] == text[0]);
        assert((text + after).skip(1) =~= text.skip(1) + after);
        lemma_trim_start_of(text.skip(1), after);
    } else {
        assert((text + after)[0] == text[0]);
    }
}

/// White space around a text is trimmed away.
pub proof fn lemma_trim_blanks(before: Seq<char>, text: Seq<char>, after: Seq<char>)
    requires
        all_white(before),
        all_white(after),
    ensures
        trimmed(before + text + after) == trimmed(text),
{
    assert(before + text + after =~= before + (text + after));
    lemma_trim_before(before, text + after);
    lemma_trim_start_of(text, after);
    if trimmed_start(text).len() > 0 {
        lemma_trim_behind(trimmed_start(text), after);
    } else {
        lemma_trim_before(after, Seq::empty());
        assert(after + Seq::<char>::empty() =~= after);
        assert(trimmed_start(text) =~= Seq::<char>::empty());
        assert(trimmed_start(Seq::<char>::empty()) =~= Seq::<char>::empty());
    }
}

/// White space around a text that has nothing to trim is all that is trimmed away.
pub proof fn lemma_trim_to(before: Seq<char>, core: Seq<char>, after: Seq<char>)
    requires
        all_white(before),
        all_white(after),
        core.len() > 0,
        !is_white(core[0]),
        !is_white(core.last()),
    ensures
        trimmed(before + core + after) == core,
{
    lemma_trim_blanks(before, core, after);
    lemma_nothing_to_trim(core);
}

/// Trimming takes no notice of case.
pub proof fn lemma_trim_lower(text: Seq<char>)
    ensures
        trimmed(text.map_values(|c: char| ascii_lower(c))) == trimmed(text).map_values(
            |c: char| ascii_lower(c),
        ),
{
    lemma_trim_start_lower(text);
    lemma_trim_end_lower(trimmed_start(text));
}

/// Trimming the start takes no notice of case.
proof fn lemma_trim_start_lower(text: Seq<char>)
    ensures
        trimmed_start(text.map_values(|c: char| ascii_lower(c))) == trimmed_start(text).map_values(
            |c: char| ascii_lower(c),
        ),
    decreases text.len(),
{
    let f = |c: char| ascii_lower(c);
    if text.len() > 0 && is_white(text[0]) {
        assert(text.map_values(f).skip(1) =~= text.skip(1).map_values(f));
        lemma_trim_start_lower(text.skip(1));
    }
}

/// Trimming the end takes no notice of case.
proof fn lemma_trim_end_lower(text: Seq<char>)
    ensures
        trimmed_end(text.map_values(|c: char| ascii_lower(c))) == trimmed_end(text).map_values(
            |c: char| ascii_lower(c),
        ),
    decreases text.len(),
{
    let f = |c: char| ascii_lower(c);
    if text.len() > 0 && is_white(text.last()) {
        assert(text.map_values(f).drop_last() =~= text.drop_last().map_values(f));
        lemma_trim_end_lower(text.drop_last());
    }
}

/// A text without the leading run of the character `c`.
pub open spec fn without_leading(text: Seq<char>, c: char) -> Seq<char>
    decreases text.len(),
{
    if text.len() > 0 && text[0] == c {
        without_leading(text.skip(1), c)
    } else {
        text
    }
}

/// A text without the trailing run of the character `c`.
pub open spec fn without_trailing(text: Seq<char>, c: char) -> Seq<char>
    decreases text.len(),
{
    if text.len() > 0 && text.last() == c {
        without_trailing(text.drop_last(), c)
    } else {
        text
    }
}

/// `part` stands in `text` at position `at`.
pub open spec fn occurs_at(text: Seq<char>, part: Seq<char>, at: int) -> bool {
    0 <= at && at + part.len() <= text.len() && text.subrange(at, at + part.len()) == part
}

/// What is left without the runs of a character at either end is a part of the text, and neither
/// starts nor ends with that character.
pub proof fn lemma_without_runs(text: Seq<char>, c: char) -> (from: int)
    ensures
        occurs_at(text, without_trailing(without_leading(text, c), c), from),
        ({
            let inner = without_trailing(without_leading(text, c), c);
            inner.len() > 0 ==> inner[0] != c && inner.last() != c
        }),
{
    let from = lemma_without_leading(text, c);
    let start = without_leading(text, c);
    let to = lemma_without_trailing(start, c);
    let inner = without_trailing(start, c);
    assert(text.subrange(from, from + inner.len()) =~= inner);
    from
}

/// What is left without a leading run is the end of a text.
proof fn lemma_without_leading(text: Seq<char>, c: char) -> (from: int)
    ensures
        0 <= from <= text.len(),
        without_leading(text, c) == text.skip(from),
        without_leading(text, c).len() > 0 ==> without_leading(text, c)[0] != c,
    decreases text.len(),
{
    if text.len() > 0 && text[0] == c {
        let from = lemma_without_leading(text.skip(1), c);
        assert(text.skip(1).skip(from) =~= text.skip(from + 1));
        from + 1
    } else {
        assert(text.skip(0) =~= text);
        0
    }
}

/// What is left without a trailing run is the start of a text.
proof fn lemma_without_trailing(text: Seq<char>, c: char) -> (to: int)
    ensures
        0 <= to <= text.len(),
        without_trailing(text, c) == text.take(to),
        without_trailing(text, c).len() > 0 ==> without_trailing(text, c).last() != c,
    decreases text.len(),
{
    if text.len() > 0 && text.last() == c {
        let to = lemma_without_trailing(text.drop_last(), c);
        assert(text.drop_last().take(to) =~= text.take(to));
        to
    } else {
        assert(text.take(text.len() as int) =~= text);
        text.len() as int
    }
}

/// `part` stands somewhere in `text`.
pub open spec fn has_part(text: Seq<char>, part: Seq<char>) -> bool {
    exists|at: int| occurs_at(text, part, at)
}

/// The first position, from `from` on, at which `part` stands in `text`.
pub open spec fn position(text: Seq<char>, part: Seq<char>, from: int) -> Option<int>
    decreases text.len() - from,
{
    if from < 0 || from + part.len() > text.len() {
        None
    } else if occurs_at(text, part, from) {
        Some(from)
    } else if from < text.len() {
        position(text, part, from + 1)
    } else {
        None
    }
}

/// What follows `prefix`, where `text` starts with it.
pub open spec fn after_prefix(text: Seq<char>, prefix: Seq<char>) -> Option<Seq<char>> {
    if occurs_at(text, prefix, 0) {
        Some(text.skip(prefix.len() as int))
    } else {
        None
    }
}

/// What precedes `suffix`, where `text` ends with it.
pub open spec fn before_suffix(text: Seq<char>, suffix: Seq<char>) -> Option<Seq<char>> {
    if occurs_at(text, suffix, text.len() - suffix.len()) {
        Some(text.take(text.len() - suffix.len()))
    } else {
        None
    }
}

/// A line without the carriage return before its line feed.
pub open spec fn without_return(line: Seq<char>) -> Seq<char> {
    if line.len() > 0 && line.last() == '\r' {
        line.drop_last()
    } else {
        line
    }
}

/// The lines of a text: each ends before a line feed, or before a carriage return and a line
/// feed; a last line without a line feed counts when it is not empty.
pub open spec fn lines_of(text: Seq<char>) -> Seq<Seq<char>>
    decreases text.len(),
{
    if text.len() == 0 {
        Seq::empty()
    } else {
        match position(text, seq!['\n'], 0) {
            Some(at) => if 0 <= at < text.len() {
                seq![without_return(text.take(at))] + lines_of(text.skip(at + 1))
            } else {
                Seq::empty()
            },
            None => seq![text],
        }
    }
}

/// The parts one after the other, with `sep` between neighbours.
pub open spec fn joined(parts: Seq<Seq<char>>, sep: Seq<char>) -> Seq<char>
    decreases parts.len(),
{
    if parts.len() == 0 {
        Seq::empty()
    } else if parts.len() == 1 {
        parts[0]
    } else {
        joined(parts.drop_last(), sep) + sep + parts.last()
    }
}

/// The texts of a list of strings.
pub open spec fn texts(parts: Seq<String>) -> Seq<Seq<char>> {
    Seq::new(parts.len(), |i: int| parts[i]@)
}

/// Where `position` finds something, it is there and nothing stands before it; where it finds
/// nothing, nothing stands at or after `from`.
pub proof fn lemma_position(text: Seq<char>, part: Seq<char>, from: int)
    requires
        0 <= from,
    ensures
        match position(text, part, from) {
            Some(at) => from <= at && occurs_at(text, part, at) && forall|k: int|
                from <= k < at ==> !occurs_at(text, part, k),
            None => forall|k: int| from <= k ==> !occurs_at(text, part, k),
        },
    decreases text.len() - from,
{
    if from + part.len() > text.len() {
    } else if occurs_at(text, part, from) {
    } else if from < text.len() {
        lemma_position(text, part, from + 1);
    }
}

/// A text has a part exactly when a search from its start finds it.
pub proof fn lemma_position_finds(text: Seq<char>, part: Seq<char>)
    ensures
        position(text, part, 0) is Some <==> has_part(text, part),
{
    lemma_position(text, part, 0);
    if position(text, part, 0) is Some {
        assert(occurs_at(text, part, position(text, part, 0)->0));
    }
}

/// Two texts with the same bytes are the same text.
pub proof fn lemma_same_bytes(a: Seq<char>, b: Seq<char>)
    ensures
        (encode_utf8(a) == encode_utf8(b)) == (a == b),
{
    encode_utf8_decode_utf8(a);
    encode_utf8_decode_utf8(b);
}

/// Whether two texts are the same.
pub fn same_text(a: &str, b: &str) -> (same: bool)
    ensures
        same == (a@ == b@),
{
    proof {
        lemma_same_bytes(a@, b@);
    }
    let x: &[u8] = a.as_bytes();
    let y: &[u8] = b.as_bytes();
    if x.len() != y.len() {
        return false;
    }
    let mut i: usize = 0;
    while i < x.len()
        invariant
            i <= x@.len(),
            x@.len() == y@.len(),
            x@ == encode_utf8(a@),
            y@ == encode_utf8(b@),
            (encode_utf8(a@) == encode_utf8(b@)) == (a@ == b@),
            forall|j: int| 0 <= j < i ==> x@[j] == y@[j],
        decreases x@.len() - i,
    {
        if x[i] != y[i] {
            return false;
        }
        i += 1;
    }
    assert(x@ =~= y@);
    true
}

/// The characters of a text.
pub fn chars_of(text: &str) -> (chars: Vec<char>)
    ensures
        chars@ == text@,
{
    let mut chars: Vec<char> = Vec::new();
    for c in it: text.chars()
        invariant
            it.seq() == text@,
            chars@ == it.seq().take(it.index()),
    {
        chars.push(c);
    }
    chars
}

/// The text of the characters from `from` up to `to`.
pub fn text_of(chars: &Vec<char>, from: usize, to: usize) -> (text: String)
    requires
        from <= to <= chars@.len(),
    ensures
        text@ == chars@.subrange(from as int, to as int),
{
    let mut text = String::new();
    let mut i: usize = from;
    while i < to
        invariant
            from <= i <= to <= chars@.len(),
            text@ == chars@.subrange(from as int, i as int),
        decreases to - i,
    {
        text.push(chars[i]);
        i += 1;
        assert(chars@.subrange(from as int, i as int) =~= chars@.subrange(
            from as int,
            i - 1,
        ).push(chars@[i - 1]));
    }
    text
}

/// Whether a character is white space.
pub fn white(c: char) -> (white: bool)
    ensures
        white == is_white(c),
{
    ('\t' <= c && c <= '\r') || c == ' ' || c == '\u{85}' || c == '\u{A0}' || c == '\u{1680}' || (
    '\u{2000}' <= c && c <= '\u{200A}') || c == '\u{2028}' || c == '\u{2029}' || c == '\u{202F}'
        || c == '\u{205F}' || c == '\u{3000}'
}

/// Whether `part` stands in `text` at position `at`.
pub fn matches_at(text: &Vec<char>, part: &Vec<char>, at: usize) -> (found: bool)
    ensures
        found == occurs_at(text@, part@, at as int),
{
    if at > text.len() || part.len() > text.len() - at {
        return false;
    }
    let mut i: usize = 0;
    while i < part.len()
        invariant
            i <= part@.len(),
            at + part@.len() <= text@.len() <= usize::MAX,
            forall|j: int| 0 <= j < i ==> text@[at + j] == part@[j],
        decreases part@.len() - i,
    {
        if text[at + i] != part[i] {
            assert(text@.subrange(at as int, at + part@.len())[i as int] != part@[i as int]);
            return false;
        }
        i += 1;
    }
    assert(text@.subrange(at as int, at + part@.len()) =~= part@);
    true
}

/// The first position, from `from` on, at which `part` stands in `text`.
pub fn find_from(text: &Vec<char>, part: &Vec<char>, from: usize) -> (at: Option<usize>)
    requires
        from <= text@.len(),
    ensures
        match at {
            Some(i) => position(text@, part@, from as int) == Some(i as int),
            None => position(text@, part@, from as int) is None,
        },
{
    let mut i: usize = from;
    while i < text.len()
        invariant
            from <= i <= text@.len(),
            position(text@, part@, from as int) == position(text@, part@, i as int),
        decreases text@.len() - i,
    {
        if part.len() > text.len() - i {
            return None;
        }
        if matches_at(text, part, i) {
            return Some(i);
        }
        i += 1;
    }
    if matches_at(text, part, i) {
        return Some(i);
    }
    None
}

/// Whether `part` stands somewhere in `text`.
pub fn contains(text: &str, part: &str) -> (found: bool)
    ensures
        found == has_part(text@, part@),
{
    proof {
        lemma_position_finds(text@, part@);
    }
    find_from(&chars_of(text), &chars_of(part), 0).is_some()
}

/// Whether `text` starts with `prefix`.
pub fn starts_with(text: &str, prefix: &str) -> (found: bool)
    ensures
        found == occurs_at(text@, prefix@, 0),
{
    matches_at(&chars_of(text), &chars_of(prefix), 0)
}

/// What follows `prefix`, where `text` starts with it.
pub fn strip_prefix(text: &str, prefix: &str) -> (rest: Option<String>)
    ensures
        match rest {
            Some(r) => after_prefix(text@, prefix@) == Some(r@),
            None => after_prefix(text@, prefix@) is None,
        },
{
    let chars = chars_of(text);
    let start = chars_of(prefix);
    if matches_at(&chars, &start, 0) {
        Some(text_of(&chars, start.len(), chars.len()))
    } else {
        None
    }
}

/// What precedes `suffix`, where `text` ends with it.
pub fn strip_suffix(text: &str, suffix: &str) -> (rest: Option<String>)
    ensures
        match rest {
            Some(r) => before_suffix(text@, suffix@) == Some(r@),
            None => before_suffix(text@, suffix@) is None,
        },
{
    let chars = chars_of(text);
    let end = chars_of(suffix);
    if end.len() <= chars.len() && matches_at(&chars, &end, chars.len() - end.len()) {
        Some(text_of(&chars, 0, chars.len() - end.len()))
    } else {
        None
    }
}

/// A text without white space at either end.
pub fn trim(text: &str) -> (inner: String)
    ensures
        inner@ == trimmed(text@),
{
    let chars = chars_of(text);
    let mut from: usize = 0;
    assert(chars@.skip(0) =~= chars@);
    while from < chars.len() && white(chars[from])
        invariant
            from <= chars@.len(),
            trimmed_start(chars@) == trimmed_start(chars@.skip(from as int)),
        decreases chars@.len() - from,
    {
        assert(chars@.skip(from as int).skip(1) =~= chars@.skip(from + 1));
        from += 1;
    }
    assert(trimmed_start(chars@) == chars@.skip(from as int));
    let mut to: usize = chars.len();
    assert(chars@.skip(from as int) =~= chars@.subrange(from as int, to as int));
    while from < to && white(chars[to - 1])
        invariant
            from <= to <= chars@.len(),
            trimmed(text@) == trimmed_end(chars@.subrange(from as int, to as int)),
        decreases to,
    {
        assert(chars@.subrange(from as int, to as int).drop_last() =~= chars@.subrange(
            from as int,
            to - 1,
        ));
        to -= 1;
    }
    text_of(&chars, from, to)
}

/// A text without the runs of the character `c` at either end.
pub fn trim_char(text: &str, c: char) -> (inner: String)
    ensures
        inner@ == without_trailing(without_leading(text@, c), c),
{
    let chars = chars_of(text);
    let mut from: usize = 0;
    assert(chars@.skip(0) =~= chars@);
    while from < chars.len() && chars[from] == c
        invariant
            from <= chars@.len(),
            without_leading(chars@, c) == without_leading(chars@.skip(from as int), c),
        decreases chars@.len() - from,
    {
        assert(chars@.skip(from as int).skip(1) =~= chars@.skip(from + 1));
        from += 1;
    }
    assert(without_leading(chars@, c) == chars@.skip(from as int));
    let mut to: usize = chars.len();
    assert(chars@.skip(from as int) =~= chars@.subrange(from as int, to as int));
    while from < to && chars[to - 1] == c
        invariant
            from <= to <= chars@.len(),
            without_trailing(without_leading(text@, c), c) == without_trailing(
                chars@.subrange(from as int, to as int),
                c,
            ),
        decreases to,
    {
        assert(chars@.subrange(from as int, to as int).drop_last() =~= chars@.subrange(
            from as int,
            to - 1,
        ));
        to -= 1;
    }
    text_of(&chars, from, to)
}

/// The lines of a text.
pub fn lines(text: &str) -> (lines: Vec<String>)
    ensures
        texts(lines@) == lines_of(text@),
{
    let chars = chars_of(text);
    let feed: Vec<char> = vec!['\n'];
    let mut lines: Vec<String> = Vec::new();
    let mut from: usize = 0;
    assert(chars@.skip(0) =~= chars@);
    assert(feed@ =~= seq!['\n']);
    assert(texts(lines@) =~= Seq::empty());
    while from < chars.len()
        invariant
            from <= chars@.len(),
            chars@ == text@,
            feed@ == seq!['\n'],
            lines_of(chars@) == texts(lines@) + lines_of(chars@.skip(from as int)),
        decreases chars@.len() - from,
    {
        let ghost rest = chars@.skip(from as int);
        let ghost before = texts(lines@);
        proof {
            lemma_position_skip(chars@, feed@, from as int, 0);
        }
        match find_from(&chars, &feed, from) {
            Some(at) => {
                proof {
                    lemma_position(chars@, feed@, from as int);
                    assert(rest.take(at - from) =~= chars@.subrange(from as int, at as int));
                    assert(rest.skip(at - from + 1) =~= chars@.skip(at + 1));
                }
                let end: usize = if from < at && chars[at - 1] == '\r' {
                    at - 1
                } else {
                    at
                };
                let line = text_of(&chars, from, end);
                assert(line@ =~= without_return(rest.take(at - from)));
                lines.push(line);
                assert(texts(lines@) =~= before + seq![line@]);
                from = at + 1;
                assert(lines_of(chars@) =~= texts(lines@) + lines_of(chars@.skip(from as int)));
            },
            None => {
                let line = text_of(&chars, from, chars.len());
                assert(line@ =~= rest);
                lines.push(line);
                assert(texts(lines@) =~= before + seq![line@]);
                assert(lines_of(rest) =~= seq![rest]);
                return lines;
            },
        }
    }
    assert(chars@.skip(from as int) =~= Seq::empty());
    assert(texts(lines@) =~= lines_of(text@));
    lines
}

/// A search in what follows the first `skipped` characters finds what a search from there finds.
pub proof fn lemma_position_skip(text: Seq<char>, part: Seq<char>, skipped: int, from: int)
    requires
        0 <= skipped <= text.len(),
        0 <= from,
    ensures
        position(text, part, skipped + from) == match position(text.skip(skipped), part, from) {
            Some(at) => Some(at + skipped),
            None => None::<int>,
        },
    decreases text.len() - from,
{
    let rest = text.skip(skipped);
    if from + part.len() <= rest.len() {
        assert(rest.subrange(from, from + part.len()) =~= text.subrange(
            skipped + from,
            skipped + from + part.len(),
        ));
        if !occurs_at(rest, part, from) && from < rest.len() {
            lemma_position_skip(text, part, skipped, from + 1);
        }
    }
}

/// The parts one after the other, with `sep` between neighbours.
pub fn join(parts: &Vec<String>, sep: &str) -> (text: String)
    ensures
        text@ == joined(texts(parts@), sep@),
{
    let mut text = String::new();
    let mut i: usize = 0;
    let ghost all = texts(parts@);
    assert(all.take(0) =~= Seq::empty());
    while i < parts.len()
        invariant
            i <= parts@.len(),
            all == texts(parts@),
            text@ == joined(all.take(i as int), sep@),
        decreases parts@.len() - i,
    {
        assert(all.take(i + 1).drop_last() =~= all.take(i as int));
        if i > 0 {
            text.push_str(sep);
        }
        text.push_str(parts[i].as_str());
        i += 1;
        assert(text@ =~= joined(all.take(i as int), sep@));
    }
    assert(all.take(parts@.len() as int) =~= all);
    text
}

/// The piece of a text between two of its byte positions.
pub open spec fn byte_range(text: Seq<char>, from: int, to: int) -> Seq<char> {
    decode_utf8(encode_utf8(text).subrange(from, to))
}

/// A byte position at which a text can be cut.
pub open spec fn cuts(text: Seq<char>, at: int) -> bool {
    0 <= at <= byte_len(text) && is_char_boundary(encode_utf8(text), at)
}

/// A text can be cut before and behind an ASCII character.
pub proof fn lemma_ascii_cut(text: Seq<char>, at: int)
    requires
        0 <= at < byte_len(text),
        encode_utf8(text)[at] < 0x80,
    ensures
        cuts(text, at),
        cuts(text, at + 1),
{
    let bytes = encode_utf8(text);
    encode_utf8_valid_utf8(text);
    is_char_boundary_iff_not_is_continuation_byte(bytes, at);
    valid_utf8_split(bytes, at);
    let rest = bytes.subrange(at, bytes.len() as int);
    if at + 1 == bytes.len() {
        is_char_boundary_start_end_of_seq(bytes);
    } else {
        assert(valid_utf8(pop_first_scalar(rest)));
        assert(pop_first_scalar(rest)[0] == bytes[at + 1]);
        is_char_boundary_iff_not_is_continuation_byte(pop_first_scalar(rest), 0);
        is_char_boundary_iff_not_is_continuation_byte(bytes, at + 1);
    }
}

/// A text can be cut at either end.
pub proof fn lemma_end_cuts(text: Seq<char>)
    ensures
        cuts(text, 0),
        cuts(text, byte_len(text) as int),
{
    encode_utf8_valid_utf8(text);
    is_char_boundary_start_end_of_seq(encode_utf8(text));
}

/// Where a text can be cut, so can its first part.
proof fn lemma_cut_in_head(text: Seq<char>, from: int, to: int)
    requires
        from <= to,
        cuts(text, from),
        cuts(text, to),
    ensures
        valid_utf8(encode_utf8(text).subrange(0, to)),
        is_char_boundary(encode_utf8(text).subrange(0, to), from),
{
    let bytes = encode_utf8(text);
    encode_utf8_valid_utf8(text);
    valid_utf8_split(bytes, to);
    let head = bytes.subrange(0, to);
    if from < to {
        is_char_boundary_iff_not_is_continuation_byte(bytes, from);
        is_char_boundary_iff_not_is_continuation_byte(head, from);
    } else {
        is_char_boundary_start_end_of_seq(head);
    }
}

/// The piece of a text from one byte position up to another.
pub fn byte_slice(text: &str, from: usize, to: usize) -> (piece: String)
    requires
        from <= to,
        cuts(text@, from as int),
        cuts(text@, to as int),
    ensures
        piece@ == byte_range(text@, from as int, to as int),
        encode_utf8(piece@) == encode_utf8(text@).subrange(from as int, to as int),
{
    let ghost bytes = encode_utf8(text@);
    let (head, _tail) = text.split_at(to);
    proof {
        lemma_cut_in_head(text@, from as int, to as int);
    }
    let (_start, piece) = head.split_at(from);
    proof {
        assert(encode_utf8(piece@) =~= bytes.subrange(from as int, to as int));
        encode_utf8_decode_utf8(piece@);
    }
    piece.to_owned()
}

/// The characters of an optional text.
pub open spec fn text_option(value: Option<&str>) -> Option<Seq<char>> {
    match value {
        Some(v) => Some(v@),
        None => None,
    }
}

/// The text of an optional string.
pub open spec fn string_option(value: Option<String>) -> Option<Seq<char>> {
    match value {
        Some(s) => Some(s@),
        None => None,
    }
}

/// What a result of two strings says.
pub open spec fn string_result(result: Result<String, String>) -> Result<Seq<char>, Seq<char>> {
    match result {
        Ok(s) => Ok(s@),
        Err(s) => Err(s@),
    }
}

/// An optional string as an optional text.
pub fn as_text(value: &Option<String>) -> (text: Option<&str>)
    ensures
        text_option(text) == string_option(*value),
{
    match value {
        Some(s) => Some(s.as_str()),
        None => None,
    }
}

/// At most `count` characters of a text.
pub open spec fn first_chars(text: Seq<char>, count: int) -> Seq<char> {
    if text.len() <= count {
        text
    } else {
        text.take(count)
    }
}

/// At most `count` characters of a text.
pub fn take_chars(text: &str, count: usize) -> (start: String)
    ensures
        start@ == first_chars(text@, count as int),
{
    let chars = chars_of(text);
    let end: usize = if chars.len() <= count {
        chars.len()
    } else {
        count
    };
    let start = text_of(&chars, 0, end);
    assert(start@ =~= first_chars(text@, count as int));
    start
}

/// Adds a text to a list.
pub fn push_text(list: &mut Vec<String>, item: String)
    ensures
        texts(final(list)@) == texts(old(list)@).push(item@),
{
    let ghost before = texts(list@);
    list.push(item);
    assert(texts(list@) =~= before.push(item@));
}

/// The bytes of two texts in a row are those of the one and those of the other.
proof fn lemma_encode_two(first: Seq<char>, second: Seq<char>)
    ensures
        encode_utf8(first + second) == encode_utf8(first) + encode_utf8(second),
    decreases first.len(),
{
    if first.len() == 0 {
        assert(first + second =~= second);
        assert(encode_utf8(first) + encode_utf8(second) =~= encode_utf8(second));
    } else {
        let rest = first.drop_first();
        lemma_encode_two(rest, second);
        assert((first + second).drop_first() =~= rest + second);
        assert(encode_utf8(first + second) =~= encode_utf8(first) + encode_utf8(second));
    }
}

/// Two texts in a row can be cut between them, and fall into them.
pub proof fn lemma_joined_bytes(first: Seq<char>, second: Seq<char>)
    ensures
        byte_len(first + second) == byte_len(first) + byte_len(second),
        cuts(first + second, byte_len(first) as int),
        byte_range(first + second, byte_len(first) as int, byte_len(first + second) as int)
            == second,
        second.len() > 0 ==> byte_len(second) > 0,
{
    let whole = encode_utf8(first + second);
    let head = encode_utf8(first);
    let tail = encode_utf8(second);
    lemma_encode_two(first, second);
    encode_utf8_valid_utf8(first + second);
    encode_utf8_valid_utf8(second);
    assert(whole.subrange(head.len() as int, whole.len() as int) =~= tail);
    encode_utf8_decode_utf8(second);
    if tail.len() == 0 {
        is_char_boundary_start_end_of_seq(whole);
        assert(tail =~= encode_utf8(Seq::empty()));
        lemma_same_bytes(second, Seq::empty());
    } else {
        is_char_boundary_start_end_of_seq(tail);
        is_char_boundary_iff_not_is_continuation_byte(tail, 0);
        is_char_boundary_iff_not_is_continuation_byte(whole, head.len() as int);
        assert(whole[head.len() as int] == tail[0]);
    }
}

/// Trimming takes white space away from the ends of a text, all of it, and nothing else.
pub proof fn law_trimming_takes_white_space_only(text: Seq<char>) -> (cut: (Seq<char>, Seq<char>))
    ensures
        text == cut.0 + trimmed(text) + cut.1,
        all_white(cut.0),
        all_white(cut.1),
        trimmed(text).len() > 0 ==> !is_white(trimmed(text)[0]) && !is_white(trimmed(text).last()),
        trimmed(trimmed(text)) == trimmed(text),
{
    let from = lemma_trimmed_start(text);
    let start = trimmed_start(text);
    let to = lemma_trimmed_end(start);
    lemma_trimmed(text);
    lemma_start_is_white(text, from);
    lemma_end_is_white(start, to);
    let before = text.take(from);
    let after = start.skip(to);
    assert(text =~= before + trimmed(text) + after);
    (before, after)
}

/// What is trimmed away at the start is white space.
proof fn lemma_start_is_white(text: Seq<char>, from: int)
    requires
        0 <= from <= text.len(),
        trimmed_start(text) == text.skip(from),
    ensures
        all_white(text.take(from)),
    decreases text.len(),
{
    if text.len() > 0 && is_white(text[0]) {
        let k = lemma_trimmed_start(text.skip(1));
        assert(trimmed_start(text).len() == text.len() - 1 - k);
        assert(text.skip(1).skip(from - 1) =~= text.skip(from));
        lemma_start_is_white(text.skip(1), from - 1);
        assert forall|i: int| 0 <= i < from implies is_white(#[trigger] text.take(from)[i]) by {
            if i > 0 {
                assert(text.skip(1).take(from - 1)[i - 1] == text[i]);
            }
        }
    }
}

/// What is trimmed away at the end is white space.
proof fn lemma_end_is_white(text: Seq<char>, to: int)
    requires
        0 <= to <= text.len(),
        trimmed_end(text) == text.take(to),
    ensures
        all_white(text.skip(to)),
    decreases text.len(),
{
    if text.len() > 0 && is_white(text.last()) {
        let rest = text.drop_last();
        let k = lemma_trimmed_end(rest);
        assert(trimmed_end(text).len() == k);
        assert(rest.take(to) =~= text.take(to));
        lemma_end_is_white(rest, to);
        assert forall|i: int| 0 <= i < text.len() - to implies is_white(
            #[trigger] text.skip(to)[i],
        ) by {
            if to + i < rest.len() {
                assert(rest.skip(to)[i] == text[to + i]);
            }
        }
    }
}

/// What follows a prefix is the rest of the text, and it is found wherever the prefix stands; and
/// so for suffixes.
pub proof fn law_prefixes_and_suffixes(text: Seq<char>, part: Seq<char>, rest: Seq<char>)
    ensures
        after_prefix(part + rest, part) == Some(rest),
        before_suffix(rest + part, part) == Some(rest),
        after_prefix(text, part) matches Some(found) ==> text == part + found,
        before_suffix(text, part) matches Some(found) ==> text == found + part,
{
    assert((part + rest).subrange(0, part.len() as int) =~= part);
    assert((part + rest).skip(part.len() as int) =~= rest);
    let whole = rest + part;
    assert(whole.subrange(rest.len() as int, whole.len() as int) =~= part);
    assert(whole.take(rest.len() as int) =~= rest);
    if let Some(found) = after_prefix(text, part) {
        assert(text =~= part + found);
    }
    if let Some(found) = before_suffix(text, part) {
        assert(text =~= found + part);
    }
}

/// A text without a line feed is one line; in front of a line feed it is the first of several,
/// without a carriage return at its end.
pub proof fn law_lines_end_at_line_feeds(line: Seq<char>, rest: Seq<char>)
    requires
        !line.contains('\n'),
    ensures
        line.len() > 0 ==> lines_of(line) == seq![line],
        lines_of(Seq::empty()).len() == 0,
        lines_of(line + seq!['\n'] + rest) == seq![without_return(line)] + lines_of(rest),
        (line.len() == 0 || line.last() != '\r') ==> without_return(line) == line,
        without_return(line.push('\r')) == line,
{
    let mark = seq!['\n'];
    let whole = line + mark + rest;
    lemma_position(line, mark, 0);
    if let Some(at) = position(line, mark, 0) {
        assert(line.subrange(at, at + 1)[0] == line[at]);
        assert(line.contains('\n'));
    }
    lemma_position(whole, mark, 0);
    let at = line.len() as int;
    assert(whole.subrange(at, at + 1) =~= mark);
    assert(occurs_at(whole, mark, at));
    match position(whole, mark, 0) {
        Some(k) => {
            if k < at {
                assert(whole.subrange(k, k + 1)[0] == line[k]);
                assert(line.contains('\n'));
            }
            assert(k == at);
            assert(whole.take(at) =~= line);
            assert(whole.skip(at + 1) =~= rest);
        },
        None => {},
    }
    assert(line.push('\r').drop_last() =~= line);
}

/// Joining two lists in a row joins the one and the other, with the separator between them; one
/// text alone stays as it is.
pub proof fn law_joining_keeps_every_text(
    first: Seq<Seq<char>>,
    second: Seq<Seq<char>>,
    sep: Seq<char>,
    one: Seq<char>,
)
    ensures
        joined(Seq::empty(), sep).len() == 0,
        joined(seq![one], sep) == one,
        first.len() > 0 && second.len() > 0 ==> joined(first + second, sep) == joined(first, sep)
            + sep + joined(second, sep),
    decreases second.len(),
{
    if first.len() > 0 && second.len() > 0 {
        let whole = first + second;
        assert(whole.drop_last() =~= first + second.drop_last());
        if second.len() == 1 {
            assert(whole.drop_last() =~= first);
        } else {
            law_joining_keeps_every_text(first, second.drop_last(), sep, one);
            assert(joined(whole, sep) =~= joined(first, sep) + sep + joined(second, sep));
        }
    }
}

/// Every text of a list stands in what they are joined to.
pub proof fn law_joined_texts_are_parts(parts: Seq<Seq<char>>, sep: Seq<char>, i: int)
    requires
        0 <= i < parts.len(),
    ensures
        has_part(joined(parts, sep), parts[i]),
    decreases parts.len(),
{
    let whole = joined(parts, sep);
    if parts.len() == 1 {
        assert(whole.subrange(0, whole.len() as int) =~= parts[0]);
        assert(occurs_at(whole, parts[i], 0));
    } else {
        let before = joined(parts.drop_last(), sep);
        if i == parts.len() - 1 {
            let at = (before.len() + sep.len()) as int;
            assert(whole.subrange(at, at + parts[i].len()) =~= parts[i]);
            assert(occurs_at(whole, parts[i], at));
        } else {
            law_joined_texts_are_parts(parts.drop_last(), sep, i);
            let at = choose|at: int| occurs_at(before, parts[i], at);
            assert(whole.subrange(at, at + parts[i].len()) =~= before.subrange(
                at,
                at + parts[i].len(),
            ));
            assert(occurs_at(whole, parts[i], at));
        }
    }
}

/// The first characters of a text are its start, as many as there are up to the limit.
pub proof fn law_first_characters(text: Seq<char>, count: int)
    requires
        count >= 0,
    ensures
        first_chars(text, count).is_prefix_of(text),
        first_chars(text, count).len() == if text.len() < count {
            text.len() as int
        } else {
            count
        },
{
    assert(first_chars(text, count) =~= text.take(first_chars(text, count).len() as int));
}

} // verus!
