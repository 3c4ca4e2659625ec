//! The stream of lines that the upstream API answers with.
use std::collections::VecDeque;
use vstd::prelude::*;
use vstd::utf8::*;

use crate::numeral;
use crate::numeral::decimal_text;
use crate::text;
use crate::text::{chars_of, contains, lines, take_chars, text_of};

verus! {

/// One line of the stream, and the id of the request that it answers.
#[derive(Debug)]
pub struct SseLine {
    pub raw: String,
    pub request_id: String,
}

/// The lines that have arrived and not yet been handed out, and the start of the next.
#[derive(Debug)]
pub struct QwenSseStream {
    ready: VecDeque<String>,
    buf: String,
    finished: bool,
    request_id: String,
}

/// What a [`QwenSseStream`] says.
pub struct StreamModel {
    pub ready: Seq<Seq<char>>,
    pub buf: Seq<char>,
    pub finished: bool,
    pub request_id: Seq<char>,
}

/// What a stream has to give.
#[derive(Debug)]
pub enum StreamStep {
    /// The next line.
    Line(SseLine),
    /// Nothing before more bytes arrive.
    NeedBytes,
    /// Nothing more.
    End,
}

/// Where the first line of a text ends.
pub open spec fn line_end(text: Seq<char>) -> Option<int>
    decreases text.len(),
{
    if text.len() == 0 {
        None
    } else if text[0] == '\n' {
        Some(0)
    } else {
        match line_end(text.skip(1)) {
            Some(at) => Some(at + 1),
            None => None,
        }
    }
}

/// A line that has ended stands before the end of its text.
proof fn lemma_line_end(text: Seq<char>)
    ensures
        match line_end(text) {
            Some(at) => 0 <= at < text.len() && text[at] == '\n' && forall|i: int|
                0 <= i < at ==> text[i] != '\n',
            None => forall|i: int| 0 <= i < text.len() ==> text[i] != '\n',
        },
    decreases text.len(),
{
    if text.len() > 0 && text[0] != '\n' {
        lemma_line_end(text.skip(1));
        assert(forall|i: int| 1 <= i < text.len() ==> text[i] == text.skip(1)[i - 1]);
    }
}

/// The first line feed of a text ends its first line.
proof fn lemma_line_end_at(text: Seq<char>, at: int)
    requires
        0 <= at < text.len(),
        text[at] == '\n',
        forall|i: int| 0 <= i < at ==> text[i] != '\n',
    ensures
        line_end(text) == Some(at),
{
    lemma_line_end(text);
    let found = line_end(text)->0;
    if found < at {
        assert(text[found] != '\n');
    }
    if at < found {
        assert(text[at] != '\n');
    }
}

/// The lines of a text that have ended, each without the carriage returns behind it.
pub open spec fn ended_lines(text: Seq<char>) -> Seq<Seq<char>>
    decreases text.len(),
{
    match line_end(text) {
        Some(at) => if 0 <= at < text.len() {
            seq![text::without_trailing(text.take(at), '\r')] + ended_lines(text.skip(at + 1))
        } else {
            Seq::empty()
        },
        None => Seq::empty(),
    }
}

/// What follows the last line of a text that has ended.
pub open spec fn open_line(text: Seq<char>) -> Seq<char>
    decreases text.len(),
{
    match line_end(text) {
        Some(at) => if 0 <= at < text.len() {
            open_line(text.skip(at + 1))
        } else {
            text
        },
        None => text,
    }
}

/// The text of some bytes, as `String::from_utf8_lossy` reads them.
pub uninterp spec fn lossy_text(bytes: Seq<u8>) -> Seq<char>;

/// `String::from_utf8_lossy`: the text of some bytes, where what is no UTF-8 is replaced; valid
/// UTF-8 is read as it is.
#[verifier::external_body]
fn read_lossy(bytes: &[u8]) -> (read: String)
    ensures
        read@ == lossy_text(bytes@),
        valid_utf8(bytes@) ==> read@ == decode_utf8(bytes@),
{
    String::from_utf8_lossy(bytes).into_owned()
}

/// The texts of a queue of strings.
pub open spec fn queued(queue: Seq<String>) -> Seq<Seq<char>> {
    text::texts(queue)
}

impl QwenSseStream {
    /// What the stream says.
    pub closed spec fn view(&self) -> StreamModel {
        StreamModel {
            ready: queued(self.ready@),
            buf: self.buf@,
            finished: self.finished,
            request_id: self.request_id@,
        }
    }

    /// A stream to which bytes will be fed.
    pub fn open(request_id: String) -> (stream: QwenSseStream)
        ensures
            stream@ == (StreamModel {
                ready: Seq::empty(),
                buf: Seq::empty(),
                finished: false,
                request_id: request_id@,
            }),
    {
        let ready: VecDeque<String> = VecDeque::new();
        assert(queued(ready@) =~= Seq::empty());
        QwenSseStream { ready, buf: String::new(), finished: false, request_id }
    }

    /// A stream of lines that have all arrived.
    pub fn from_lines(request_id: String, lines: Vec<String>) -> (stream: QwenSseStream)
        ensures
            stream@ == (StreamModel {
                ready: text::texts(lines@),
                buf: Seq::empty(),
                finished: true,
                request_id: request_id@,
            }),
    {
        let mut ready: VecDeque<String> = VecDeque::new();
        let mut i: usize = 0;
        while i < lines.len()
            invariant
                i <= lines@.len(),
                ready@.len() == i,
                forall|j: int| 0 <= j < i ==> (#[trigger] ready@[j])@ == lines@[j]@,
            decreases lines@.len() - i,
        {
            ready.push_back(lines[i].clone());
            i += 1;
        }
        assert(queued(ready@) =~= text::texts(lines@));
        QwenSseStream { ready, buf: String::new(), finished: true, request_id }
    }

    /// Makes the lines ready that have ended.
    fn drain_lines(&mut self)
        ensures
            final(self)@ == (StreamModel {
                ready: old(self)@.ready + ended_lines(old(self)@.buf),
                buf: open_line(old(self)@.buf),
                ..old(self)@
            }),
    {
        let ghost start = self.buf@;
        let ghost before = queued(self.ready@);
        let chars = chars_of(self.buf.as_str());
        let len: usize = chars.len();
        let mut from: usize = 0;
        let mut i: usize = 0;
        assert(start.skip(0) =~= start);
        assert(before + ended_lines(start) == queued(self.ready@) + ended_lines(start.skip(0)));
        while i < len
            invariant
                from <= i <= len == chars@.len(),
                chars@ == start,
                self.buf@ == start,
                self.finished == old(self).finished,
                self.request_id == old(self).request_id,
                forall|j: int| from <= j < i ==> start[j] != '\n',
                before + ended_lines(start) == queued(self.ready@) + ended_lines(
                    start.skip(from as int),
                ),
                open_line(start) == open_line(start.skip(from as int)),
            decreases len - i,
        {
            if chars[i] == '\n' {
                let ghost rest = start.skip(from as int);
                let ghost so_far = queued(self.ready@);
                let mut end: usize = i;
                assert(rest.take(i - from) =~= start.subrange(from as int, i as int));
                while end > from && chars[end - 1] == '\r'
                    invariant
                        from <= end <= i < len == chars@.len(),
                        chars@ == start,
                        text::without_trailing(rest.take(i - from), '\r')
                            == text::without_trailing(
                            start.subrange(from as int, end as int),
                            '\r',
                        ),
                    decreases end,
                {
                    assert(start.subrange(from as int, end as int).drop_last() =~= start.subrange(
                        from as int,
                        end - 1,
                    ));
                    end -= 1;
                }
                let line = text_of(&chars, from, end);
                self.ready.push_back(line);
                proof {
                    assert(queued(self.ready@) =~= so_far.push(line@));
                    lemma_line_end_at(rest, i - from);
                    assert(rest.skip(i - from + 1) =~= start.skip(i + 1));
                    assert(so_far + ended_lines(rest) =~= so_far.push(line@) + ended_lines(
                        start.skip(i + 1),
                    ));
                }
                from = i + 1;
            }
            i += 1;
        }
        proof {
            let rest = start.skip(from as int);
            lemma_line_end(rest);
            if line_end(rest) is Some {
                let at = line_end(rest)->0;
                assert(start[from + at] == '\n');
            }
            assert(queued(self.ready@) + ended_lines(rest) =~= queued(self.ready@));
        }
        self.buf = text_of(&chars, from, len);
        assert(self.buf@ =~= start.skip(from as int));
    }

    /// Takes up bytes that have arrived.
    pub fn feed(&mut self, bytes: &[u8])
        ensures
            final(self)@ == fed(old(self)@, lossy_text(bytes@)),
            valid_utf8(bytes@) ==> final(self)@ == fed(old(self)@, decode_utf8(bytes@)),
    {
        let read = read_lossy(bytes);
        self.feed_text(read.as_str());
    }

    /// Takes up text that has arrived.
    pub fn feed_text(&mut self, arrived: &str)
        ensures
            final(self)@ == fed(old(self)@, arrived@),
    {
        self.buf.push_str(arrived);
        self.drain_lines();
    }

    /// Notes that no more bytes will arrive.
    pub fn finish(&mut self)
        ensures
            final(self)@ == (StreamModel { finished: true, ..old(self)@ }),
    {
        self.finished = true;
    }

    /// Hands out the next line: one that is ready, or else, once no more bytes will arrive, what is
    /// left of the last.
    pub fn next(&mut self) -> (step: StreamStep)
        ensures
            step_says(step, old(self)@),
            final(self)@ == after_step(old(self)@),
    {
        let ghost before = queued(self.ready@);
        match self.ready.pop_front() {
            Some(raw) => {
                assert(queued(self.ready@) =~= before.skip(1));
                StreamStep::Line(SseLine { raw, request_id: self.request_id.clone() })
            },
            None => {
                assert(before =~= Seq::empty());
                if !self.finished {
                    return StreamStep::NeedBytes;
                }
                if self.buf.as_str().is_empty() {
                    assert(self.buf@ =~= Seq::empty());
                    return StreamStep::End;
                }
                let raw = self.buf.clone();
                self.buf = String::new();
                StreamStep::Line(SseLine { raw, request_id: self.request_id.clone() })
            },
        }
    }
}

/// A stream after some text has arrived.
pub open spec fn fed(stream: StreamModel, arrived: Seq<char>) -> StreamModel {
    StreamModel {
        ready: stream.ready + ended_lines(stream.buf + arrived),
        buf: open_line(stream.buf + arrived),
        ..stream
    }
}

/// The line that a stream hands out next.
pub open spec fn next_line(stream: StreamModel) -> Option<Seq<char>> {
    if stream.ready.len() > 0 {
        Some(stream.ready[0])
    } else if stream.finished && stream.buf.len() > 0 {
        Some(stream.buf)
    } else {
        None
    }
}

/// A step is what a stream has to give.
pub open spec fn step_says(step: StreamStep, stream: StreamModel) -> bool {
    match step {
        StreamStep::Line(line) => next_line(stream) == Some(line.raw@) && line.request_id@
            == stream.request_id,
        StreamStep::NeedBytes => next_line(stream) is None && !stream.finished,
        StreamStep::End => next_line(stream) is None && stream.finished,
    }
}

/// A stream after its next line is handed out.
pub open spec fn after_step(stream: StreamModel) -> StreamModel {
    if stream.ready.len() > 0 {
        StreamModel { ready: stream.ready.skip(1), ..stream }
    } else if stream.finished {
        StreamModel { buf: Seq::empty(), ..stream }
    } else {
        stream
    }
}

/// It does not matter how arriving text is cut: fed in two pieces, it makes the same lines ready
/// and leaves the same behind as fed at once.
pub proof fn law_cuts_do_not_matter(stream: StreamModel, first: Seq<char>, second: Seq<char>)
    ensures
        fed(fed(stream, first), second) == fed(stream, first + second),
{
    lemma_lines_of_two(stream.buf + first, second);
    assert(stream.buf + first + second =~= stream.buf + (first + second));
    let whole = stream.buf + (first + second);
    assert(fed(fed(stream, first), second).ready =~= stream.ready + ended_lines(whole));
}

/// The lines of two texts in a row are those of the first, and those of its open end and the
/// second.
proof fn lemma_lines_of_two(first: Seq<char>, second: Seq<char>)
    ensures
        ended_lines(first + second) == ended_lines(first) + ended_lines(open_line(first) + second),
        open_line(first + second) == open_line(open_line(first) + second),
    decreases first.len(),
{
    lemma_line_end(first);
    match line_end(first) {
        Some(at) => {
            let rest = first.skip(at + 1);
            lemma_line_end_at(first + second, at);
            lemma_lines_of_two(rest, second);
            assert((first + second).skip(at + 1) =~= rest + second);
            assert((first + second).take(at) =~= first.take(at));
            assert(ended_lines(first + second) =~= ended_lines(first) + ended_lines(
                open_line(first) + second,
            ));
        },
        None => {
            assert(ended_lines(first) + ended_lines(first + second) =~= ended_lines(
                first + second,
            ));
        },
    }
}

/// What is wrong with an answer to a request for a stream, if anything is.
pub open spec fn stream_error(status: int, body: Seq<char>) -> Option<Seq<char>> {
    if 200 <= status < 300 {
        None
    } else if status == 429 || text::has_part(body, "in progress"@) {
        Some("Qwen chat is busy (another message in flight)"@)
    } else {
        Some(
            "Qwen API returned "@ + numeral::decimal(status as nat) + ": "@ + text::first_chars(
                body,
                200,
            ),
        )
    }
}

/// The stream that an answer brings, given its status, the id of the request and its body; or what
/// is wrong with it.
pub fn stream_of_answer(status: u16, request_id: String, body: &str) -> (result: Result<
    QwenSseStream,
    String,
>)
    ensures
        match result {
            Ok(stream) => stream_error(status as int, body@) is None && stream@ == (StreamModel {
                ready: text::lines_of(body@),
                buf: Seq::empty(),
                finished: true,
                request_id: request_id@,
            }),
            Err(e) => stream_error(status as int, body@) == Some(e@),
        },
{
    if 200 <= status && status < 300 {
        return Ok(QwenSseStream::from_lines(request_id, lines(body)));
    }
    if status == 429 || contains(body, "in progress") {
        return Err("Qwen chat is busy (another message in flight)".to_owned());
    }
    let mut error = "Qwen API returned ".to_owned();
    error.push_str(decimal_text(status as u64).as_str());
    error.push_str(": ");
    error.push_str(take_chars(body, 200).as_str());
    Err(error)
}

/// The message of an error on the way from upstream.
pub fn stream_error_text(error: &str) -> (message: String)
    ensures
        message@ == "Upstream stream error: "@ + error@,
{
    let mut message = "Upstream stream error: ".to_owned();
    message.push_str(error);
    message
}

/// A buffer of so many bytes is worth sending.
pub fn should_flush(buffer_len: usize) -> (flush: bool)
    ensures
        flush == (buffer_len >= 1024),
{
    buffer_len >= 1024
}

/// Text that arrives is kept until its line ends; a line that ends is handed out without the carriage
/// returns behind it, and nothing is left of it.
pub proof fn law_lines_are_made_of_what_arrives(stream: StreamModel, piece: Seq<char>)
    requires
        forall|i: int| 0 <= i < stream.buf.len() ==> #[trigger] stream.buf[i] != '\n',
        forall|i: int| 0 <= i < piece.len() ==> #[trigger] piece[i] != '\n',
    ensures
        fed(stream, piece).ready == stream.ready,
        fed(stream, piece).buf == stream.buf + piece,
        fed(stream, piece.push('\n')).ready == stream.ready.push(
            text::without_trailing(stream.buf + piece, '\r'),
        ),
        fed(stream, piece.push('\n')).buf.len() == 0,
        fed(stream, piece).finished == stream.finished,
        fed(stream, piece).request_id == stream.request_id,
{
    let line = stream.buf + piece;
    lemma_line_end(line);
    if let Some(at) = line_end(line) {
        if at < stream.buf.len() {
            assert(line[at] == stream.buf[at]);
        } else {
            assert(line[at] == piece[at - stream.buf.len()]);
        }
    }
    assert(stream.ready + Seq::<Seq<char>>::empty() =~= stream.ready);
    let ended = stream.buf + piece.push('\n');
    assert(ended =~= line.push('\n'));
    assert forall|i: int| 0 <= i < line.len() implies ended[i] != '\n' by {
        if i < stream.buf.len() {
            assert(ended[i] == stream.buf[i]);
        } else {
            assert(ended[i] == piece[i - stream.buf.len()]);
        }
    }
    lemma_line_end_at(ended, line.len() as int);
    assert(ended.take(line.len() as int) =~= line);
    let rest = ended.skip(line.len() as int + 1);
    assert(rest =~= Seq::empty());
    assert(line_end(rest) is None);
    assert(open_line(rest) == rest);
    assert(open_line(ended) == open_line(rest));
    assert(ended_lines(rest) =~= Seq::<Seq<char>>::empty());
    assert(ended_lines(ended) =~= seq![text::without_trailing(line, '\r')]);
    assert(stream.ready + ended_lines(ended) =~= stream.ready.push(
        text::without_trailing(line, '\r'),
    ));
}

/// Lines are handed out in the order in which they ended, one at a time; what is left of the last
/// follows once no more bytes will arrive; and then nothing does.
pub proof fn law_lines_go_out_in_order(stream: StreamModel)
    ensures
        stream.ready.len() > 0 ==> next_line(stream) == Some(stream.ready[0]) && after_step(stream).ready
            == stream.ready.skip(1) && after_step(stream).buf == stream.buf,
        stream.ready.len() == 0 && stream.finished && stream.buf.len() > 0 ==> next_line(stream) == Some(
            stream.buf,
        ) && next_line(after_step(stream)) is None,
        stream.ready.len() == 0 && (!stream.finished || stream.buf.len() == 0) ==> next_line(stream)
            is None && after_step(stream).buf == stream.buf,
        after_step(stream).finished == stream.finished,
        after_step(stream).request_id == stream.request_id,
{
    if stream.buf.len() == 0 {
        assert(stream.buf =~= Seq::empty());
    }
}

/// Only a status in the two hundreds brings a stream; a busy chat is told from other failures, which
/// are told of by their status and the start of their body.
pub proof fn law_streams_go_by_status(status: int, body: Seq<char>)
    ensures
        (stream_error(status, body) is None) == (200 <= status < 300),
        status == 429 ==> stream_error(status, body) == Some(
            "Qwen chat is busy (another message in flight)"@,
        ),
        !(200 <= status < 300) && status != 429 && !text::has_part(body, "in progress"@) && body.len()
            <= 200 ==> stream_error(status, body) == Some(
            "Qwen API returned "@ + numeral::decimal(status as nat) + ": "@ + body,
        ),
{
    text::law_first_characters(body, 200);
    if body.len() <= 200 {
        assert(text::first_chars(body, 200) =~= body);
    }
}

} // verus!
