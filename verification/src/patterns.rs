//! Artifacts and code blocks in model output, found with `regex`.
use vstd::prelude::*;

use crate::text;
use crate::text::trim;

verus! {

/// The spinner characters that leak into streamed output.
pub const SPINNER_PATTERN: &'static str = r"[\u280B-\u283F]|⠋|⠙|⠹|⠸|⠼|⠴|⠦|⠧|⠇|⠏";

/// The word that the upstream page shows while the model works, with its dots.
pub const THINKING_PATTERN: &'static str = r"(?i)Thinking\.{0,3}";

/// A fenced code block, its content in the first group.
pub const FENCE_PATTERN: &'static str = r"```(?:json)?\s*([\s\S]+?)```";

/// A spinner character.
pub open spec fn is_spinner(c: char) -> bool {
    '\u{280B}' <= c <= '\u{283F}' || c == '\u{2807}'
}

/// A text without its spinner characters.
pub open spec fn without_spinners(text: Seq<char>) -> Seq<char> {
    text.filter(|c: char| !is_spinner(c))
}

/// A letter without its case: an ASCII letter in lower case, and `k` for the Kelvin sign.
pub open spec fn caseless(c: char) -> char {
    if c == '\u{212A}' {
        'k'
    } else {
        text::ascii_lower(c)
    }
}

/// The text starts with the word `thinking` in any case.
pub open spec fn starts_thinking(text: Seq<char>) -> bool {
    text.len() >= 8 && text.take(8).map_values(|c: char| caseless(c)) == "thinking"@
}

/// How many dots, up to three, stand in a row from position `at` on.
pub open spec fn dots(text: Seq<char>, at: int) -> int {
    if at >= text.len() || text[at] != '.' {
        0
    } else if at + 1 >= text.len() || text[at + 1] != '.' {
        1
    } else if at + 2 >= text.len() || text[at + 2] != '.' {
        2
    } else {
        3
    }
}

/// A text without the word `thinking`, in any case and with up to three dots behind it.
pub open spec fn without_thinking(text: Seq<char>) -> Seq<char>
    decreases text.len(),
{
    if text.len() == 0 {
        text
    } else if starts_thinking(text) {
        without_thinking(text.skip(8 + dots(text, 8)))
    } else {
        seq![text[0]] + without_thinking(text.skip(1))
    }
}

/// Model output without spinner characters and thinking marks.
pub open spec fn clean_text(text: Seq<char>) -> Seq<char> {
    without_thinking(without_spinners(text))
}

/// What the first group of a pattern captured in each match of `regex::Regex::captures_iter`, in
/// the order of the matches.
pub uninterp spec fn captured(pattern: Seq<char>, text: Seq<char>) -> Seq<Seq<char>>;

/// A text that is one fenced block of JSON.
pub open spec fn fenced(content: Seq<char>) -> Seq<char> {
    "```json\n"@ + content + "```"@
}

/// A content that its fence cannot be mistaken for: without a fence mark, not white at its start,
/// and without a backtick at its end.
pub open spec fn plain_content(content: Seq<char>) -> bool {
    content.len() > 0 && !text::is_white(content[0]) && content.last() != '`' && !text::has_part(
        content,
        "```"@,
    )
}

/// Two fence marks stand at these positions, with something between them.
pub open spec fn fences_at(text: Seq<char>, open: int, close: int) -> bool {
    text::occurs_at(text, "```"@, open) && text::occurs_at(text, "```"@, close) && open + 4 <= close
}

/// A text has a fenced block: two fence marks with something between them.
pub open spec fn has_block(text: Seq<char>) -> bool {
    exists|open: int, close: int| fences_at(text, open, close)
}

/// `regex::Regex::replace_all` with an empty replacement: the text without the matches of the
/// pattern, found from left to right. For [`SPINNER_PATTERN`] these are single characters; for
/// [`THINKING_PATTERN`] the word in any case, where Unicode case folding counts the Kelvin sign as
/// a `k`, with as many dots behind it as there are, up to three.
#[verifier::external_body]
fn remove_matches(pattern: &str, text: &str) -> (rest: String)
    requires
        pattern@ == SPINNER_PATTERN@ || pattern@ == THINKING_PATTERN@,
    ensures
        pattern@ == SPINNER_PATTERN@ ==> rest@ == without_spinners(text@),
        pattern@ == THINKING_PATTERN@ ==> rest@ == without_thinking(text@),
{
    regex::Regex::new(pattern).unwrap().replace_all(text, "").into_owned()
}

/// `regex::Regex::captures_iter` with [`FENCE_PATTERN`]: the content of each fenced block. There
/// is one exactly where two fence marks have something between them. A content is never empty, and
/// as it goes up to the first fence mark behind its first character, it has no block in itself. A
/// text that is one fenced block of plain content has that.
#[verifier::external_body]
fn capture_all(pattern: &str, text: &str) -> (contents: Vec<String>)
    requires
        pattern@ == FENCE_PATTERN@,
    ensures
        text::texts(contents@) == captured(pattern@, text@),
        (contents@.len() > 0) == has_block(text@),
        forall|i: int|
            0 <= i < contents@.len() ==> (#[trigger] contents@[i])@.len() > 0 && !has_block(
                contents@[i]@,
            ),
        forall|content: Seq<char>|
            text@ == #[trigger] fenced(content) && plain_content(content) ==> text::texts(contents@)
                == seq![content],
{
    regex::Regex::new(pattern).unwrap().captures_iter(text).map(|c| c[1].to_string()).collect()
}

/// Strips spinner characters and thinking marks from model output.
pub fn normalize_tool_call_text(text: &str) -> (clean: String)
    ensures
        clean@ == clean_text(text@),
{
    let rest = remove_matches(SPINNER_PATTERN, text);
    remove_matches(THINKING_PATTERN, rest.as_str())
}

/// The contents of the fenced code blocks of a text.
pub open spec fn fenced_contents(text: Seq<char>) -> Seq<Seq<char>> {
    captured(FENCE_PATTERN@, text)
}

/// The contents of the fenced code blocks of a text.
pub fn fenced_blocks(text: &str) -> (contents: Vec<String>)
    ensures
        text::texts(contents@) == fenced_contents(text@),
        (contents@.len() > 0) == has_block(text@),
        forall|i: int|
            0 <= i < contents@.len() ==> (#[trigger] contents@[i])@.len() > 0 && !has_block(
                contents@[i]@,
            ),
        forall|content: Seq<char>|
            text@ == #[trigger] fenced(content) && plain_content(content) ==> text::texts(contents@)
                == seq![content],
{
    capture_all(FENCE_PATTERN, text)
}

/// The trimmed content of the first block, or the trimmed text where there is none.
pub open spec fn unfenced(trimmed: Seq<char>, contents: Seq<Seq<char>>) -> Seq<char> {
    if contents.len() > 0 {
        text::trimmed(contents[0])
    } else {
        trimmed
    }
}

/// The trimmed content of the first block, or the trimmed text where there is none.
pub fn first_content(trimmed: &str, contents: &Vec<String>) -> (inner: String)
    ensures
        inner@ == unfenced(trimmed@, text::texts(contents@)),
{
    if contents.len() > 0 {
        trim(contents[0].as_str())
    } else {
        trimmed.to_owned()
    }
}

/// A fenced block has nothing to trim.
proof fn lemma_fence_is_not_white(content: Seq<char>)
    ensures
        text::trimmed(fenced(content)) == fenced(content),
{
    reveal_strlit("```json\n");
    reveal_strlit("```");
    let whole = fenced(content);
    assert(whole[0] == '`');
    assert(whole.last() == '`');
}

/// A part of a text has no block where the text has none.
proof fn lemma_part_has_no_block(whole: Seq<char>, part: Seq<char>, at: int)
    requires
        text::occurs_at(whole, part, at),
        !has_block(whole),
    ensures
        !has_block(part),
{
    if has_block(part) {
        let (open, close) = choose|open: int, close: int| fences_at(part, open, close);
        let mark = "```"@;
        assert(whole.subrange(at + open, at + open + mark.len()) =~= part.subrange(
            open,
            open + mark.len(),
        ));
        assert(whole.subrange(at + close, at + close + mark.len()) =~= part.subrange(
            close,
            close + mark.len(),
        ));
        assert(fences_at(whole, at + open, at + close));
    }
}

/// A text without a fence mark has no block.
proof fn lemma_no_mark_no_block(text: Seq<char>)
    requires
        !text::has_part(text, "```"@),
    ensures
        !has_block(text),
{
    if has_block(text) {
        let (open, close) = choose|open: int, close: int| fences_at(text, open, close);
        assert(text::occurs_at(text, "```"@, open));
    }
}

/// A value on lines of its own between fence marks.
pub open spec fn fenced_value(value: Seq<char>) -> Seq<char> {
    "```json\n"@ + value + "\n```"@
}

/// A value to be put between fence marks: there is something, nothing to trim, and no fence mark.
pub open spec fn plain_value(value: Seq<char>) -> bool {
    value.len() > 0 && text::trimmed(value) == value && !text::has_part(value, "```"@)
}

/// A value between fence marks is a line between them.
proof fn lemma_value_is_line(value: Seq<char>)
    ensures
        fenced_value(value) == fenced(value.push('\n')),
{
    reveal_strlit("```");
    reveal_strlit("\n```");
    assert("\n```"@ =~= seq!['\n'] + "```"@);
    assert(fenced_value(value) =~= fenced(value.push('\n')));
}

/// A line break makes no fence mark.
proof fn lemma_line_has_no_mark(value: Seq<char>)
    requires
        !text::has_part(value, "```"@),
    ensures
        !text::has_part(value.push('\n'), "```"@),
{
    let line = value.push('\n');
    let mark = "```"@;
    reveal_strlit("```");
    if text::has_part(line, mark) {
        let at = choose|at: int| text::occurs_at(line, mark, at);
        let found = line.subrange(at, at + mark.len());
        assert(found == mark);
        assert(found[2] == line[at + 2]);
        assert(mark[2] == '`');
        assert(at + 2 < value.len());
        assert(value.subrange(at, at + mark.len()) =~= found);
        assert(text::occurs_at(value, mark, at));
    }
}

/// A line is trimmed to the value in it.
proof fn lemma_line_is_trimmed(value: Seq<char>)
    requires
        value.len() > 0,
        text::trimmed(value) == value,
    ensures
        text::trimmed(value.push('\n')) == value,
        !text::is_white(value[0]),
{
    let line = value.push('\n');
    let none = Seq::<char>::empty();
    let after = seq!['\n'];
    text::lemma_trimmed(value);
    assert(text::is_white('\n'));
    assert(text::all_white(after));
    assert(text::all_white(none));
    text::lemma_trim_blanks(none, value, after);
    assert(none + value + after =~= line);
}

/// A text without the fence of a code block: the trimmed content of the first block, or the
/// trimmed text where there is none.
pub open spec fn stripped_codeblock(text: Seq<char>) -> Seq<char> {
    let trimmed = text::trimmed(text);
    if has_block(trimmed) {
        text::trimmed(fenced_contents(trimmed)[0])
    } else {
        trimmed
    }
}

/// Strips the fence of a code block from JSON text, if there is one. The fence of plain content is
/// undone, a text without a fence mark is only trimmed, and a text that has been stripped stays as
/// it is.
pub fn strip_json_codeblock(text: &str) -> (inner: String)
    ensures
        inner@ == stripped_codeblock(text@),
        forall|content: Seq<char>|
            text@ == #[trigger] fenced(content) && plain_content(content) ==> inner@
                == text::trimmed(content),
        forall|value: Seq<char>|
            text@ == #[trigger] fenced_value(value) && plain_value(value) ==> inner@ == value,
        !text::has_part(text@, "```"@) ==> inner@ == text::trimmed(text@),
        stripped_codeblock(inner@) == inner@,
{
    let trimmed = trim(text);
    proof {
        let from = text::lemma_trimmed(text@);
        if !text::has_part(text@, "```"@) {
            lemma_no_mark_no_block(text@);
            lemma_part_has_no_block(text@, trimmed@, from);
        }
        assert forall|content: Seq<char>| text@ == #[trigger] fenced(content) implies trimmed@
            == fenced(content) by {
            lemma_fence_is_not_white(content);
        }
    }
    let contents = fenced_blocks(trimmed.as_str());
    let inner = first_content(trimmed.as_str(), &contents);
    proof {
        assert forall|value: Seq<char>|
            text@ == #[trigger] fenced_value(value) && plain_value(value) implies inner@ == value by {
            lemma_value_is_line(value);
            lemma_line_has_no_mark(value);
            lemma_line_is_trimmed(value);
            assert(text@ == fenced(value.push('\n')));
        }
        text::lemma_trimmed(trimmed@);
        if contents.len() > 0 {
            let from = text::lemma_trimmed(contents@[0]@);
            lemma_part_has_no_block(contents@[0]@, inner@, from);
        }
        assert(text::trimmed(inner@) == inner@);
        assert(!has_block(inner@));
    }
    inner
}

/// Removing the word `thinking` adds no character.
proof fn lemma_without_thinking(text: Seq<char>)
    requires
        forall|i: int| 0 <= i < text.len() ==> !is_spinner(#[trigger] text[i]),
    ensures
        forall|i: int|
            0 <= i < without_thinking(text).len() ==> !is_spinner(
                #[trigger] without_thinking(text)[i],
            ),
    decreases text.len(),
{
    if text.len() > 0 {
        if starts_thinking(text) {
            let rest = text.skip(8 + dots(text, 8));
            assert forall|i: int| 0 <= i < rest.len() implies !is_spinner(#[trigger] rest[i]) by {
                assert(rest[i] == text[i + 8 + dots(text, 8)]);
            }
            lemma_without_thinking(rest);
            assert(without_thinking(text) == without_thinking(rest));
        } else {
            let rest = text.skip(1);
            assert(forall|i: int| 0 <= i < rest.len() ==> !is_spinner(#[trigger] rest[i]));
            lemma_without_thinking(rest);
            let whole = without_thinking(text);
            assert forall|i: int| 0 <= i < whole.len() implies !is_spinner(#[trigger] whole[i]) by {
                if i == 0 {
                    assert(whole[i] == text[0]);
                } else {
                    assert(whole[i] == without_thinking(rest)[i - 1]);
                }
            }
        }
    }
}

/// Clean output holds no spinner characters.
pub proof fn law_clean_text_has_no_spinner(text: Seq<char>)
    ensures
        forall|i: int|
            0 <= i < clean_text(text).len() ==> !is_spinner(#[trigger] clean_text(text)[i]),
{
    let keep = |c: char| !is_spinner(c);
    broadcast use vstd::seq_lib::group_filter_ensures;

    assert forall|i: int| 0 <= i < without_spinners(text).len() implies !is_spinner(
        #[trigger] without_spinners(text)[i],
    ) by {
        assert(keep(without_spinners(text)[i]));
    }
    lemma_without_thinking(without_spinners(text));
}

/// Output without spinner characters and without the word `thinking` is clean as it is; nothing else
/// of it is ever touched.
pub proof fn law_clean_output_stays(text: Seq<char>)
    requires
        forall|i: int| 0 <= i < text.len() ==> !is_spinner(#[trigger] text[i]),
        forall|i: int| 0 <= i < text.len() ==> !starts_thinking(#[trigger] text.skip(i)),
    ensures
        clean_text(text) == text,
{
    lemma_no_spinners(text);
    lemma_no_thinking(text);
}

/// A text without spinner characters keeps every character.
proof fn lemma_no_spinners(text: Seq<char>)
    requires
        forall|i: int| 0 <= i < text.len() ==> !is_spinner(#[trigger] text[i]),
    ensures
        without_spinners(text) == text,
    decreases text.len(),
{
    reveal(Seq::filter);
    if text.len() > 0 {
        let front = text.drop_last();
        assert forall|i: int| 0 <= i < front.len() implies !is_spinner(#[trigger] front[i]) by {
            assert(front[i] == text[i]);
        }
        lemma_no_spinners(front);
        assert(!is_spinner(text[text.len() - 1]));
        assert(front.push(text.last()) =~= text);
    }
}

/// A text in which the word `thinking` starts nowhere stays as it is.
proof fn lemma_no_thinking(text: Seq<char>)
    requires
        forall|i: int| 0 <= i < text.len() ==> !starts_thinking(#[trigger] text.skip(i)),
    ensures
        without_thinking(text) == text,
    decreases text.len(),
{
    if text.len() > 0 {
        assert(text.skip(0) =~= text);
        assert(!starts_thinking(text.skip(0)));
        let rest = text.skip(1);
        assert forall|i: int| 0 <= i < rest.len() implies !starts_thinking(
            #[trigger] rest.skip(i),
        ) by {
            assert(rest.skip(i) =~= text.skip(i + 1));
        }
        lemma_no_thinking(rest);
        assert(seq![text[0]] + rest =~= text);
    }
}

/// A spinner character is dropped wherever it stands.
pub proof fn law_spinners_are_dropped_anywhere(before: Seq<char>, c: char, after: Seq<char>)
    requires
        is_spinner(c),
    ensures
        clean_text(before + seq![c] + after) == clean_text(before + after),
{
    lemma_spinner_dropped(before, c, after);
}

/// A spinner character does not count.
proof fn lemma_spinner_dropped(before: Seq<char>, c: char, after: Seq<char>)
    requires
        is_spinner(c),
    ensures
        without_spinners(before + seq![c] + after) == without_spinners(before + after),
    decreases after.len(),
{
    reveal(Seq::filter);
    let whole = before + seq![c] + after;
    if after.len() == 0 {
        assert(whole.drop_last() =~= before);
        assert(before + after =~= before);
        assert(whole.last() == c);
    } else {
        lemma_spinner_dropped(before, c, after.drop_last());
        assert(whole.drop_last() =~= before + seq![c] + after.drop_last());
        assert((before + after).drop_last() =~= before + after.drop_last());
        assert(whole.last() == (before + after).last());
    }
}

/// A text without a fence is only trimmed; of one with a fence, the content of the first block is taken,
/// trimmed.
pub proof fn law_fences_are_taken_off(text: Seq<char>)
    ensures
        !text::has_part(text, "```"@) ==> stripped_codeblock(text) == text::trimmed(text),
        !has_block(text::trimmed(text)) ==> stripped_codeblock(text) == text::trimmed(text),
        has_block(text::trimmed(text)) ==> stripped_codeblock(text) == text::trimmed(
            fenced_contents(text::trimmed(text))[0],
        ),
{
    let from = text::lemma_trimmed(text);
    if !text::has_part(text, "```"@) {
        lemma_no_mark_no_block(text);
        lemma_part_has_no_block(text, text::trimmed(text), from);
    }
}

} // verus!
