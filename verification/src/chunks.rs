//! The chunks of a streamed reply, and the values they are made of.
use vstd::prelude::*;

use crate::json;
use crate::json::{json_string, Json, JsonModel};
use crate::text;
use crate::text::{chars_of, push_text, text_of};

verus! {

/// How many characters of the arguments of a call go into one chunk.
pub const ARGUMENT_PIECE: usize = 8;

/// A rough count of the tokens in a text: one for every four bytes, and one at least.
pub open spec fn token_count(text: Seq<char>) -> nat {
    if text::byte_len(text) < 4 {
        1
    } else {
        text::byte_len(text) / 4
    }
}

/// A rough count of the tokens in a text.
pub fn estimate_tokens(text: &str) -> (tokens: usize)
    ensures
        tokens == token_count(text@),
        tokens <= usize::MAX / 4,
{
    let len: usize = text.as_bytes().len();
    if len < 4 {
        1
    } else {
        len / 4
    }
}

/// A delta that carries what the model thinks; the first one names the role.
pub open spec fn reasoning_delta(text: Seq<char>, first: bool) -> JsonModel {
    let delta = map![
        "reasoning_content"@ => JsonModel::Str(text),
        "thinking"@ => JsonModel::Str(text),
    ];
    if first {
        JsonModel::Object(delta.insert("role"@, JsonModel::Str("assistant"@)))
    } else {
        JsonModel::Object(delta)
    }
}

/// Builds a delta that carries what the model thinks.
pub fn build_reasoning_delta(text: &str, first: bool) -> (delta: Json)
    ensures
        delta@ == reasoning_delta(text@, first),
{
    let delta = Json::object().with("reasoning_content", Json::text(text)).with(
        "thinking",
        Json::text(text),
    );
    if first {
        delta.with("role", Json::text("assistant"))
    } else {
        delta
    }
}

/// One chunk of a streamed reply.
pub open spec fn chunk_value(
    id: Seq<char>,
    model: Seq<char>,
    created: int,
    delta: JsonModel,
    finish_reason: Option<Seq<char>>,
) -> JsonModel {
    JsonModel::Object(
        map![
            "id"@ => JsonModel::Str(id),
            "object"@ => JsonModel::Str("chat.completion.chunk"@),
            "created"@ => json::json_int(created),
            "model"@ => JsonModel::Str(model),
            "choices"@ => JsonModel::Array(seq![JsonModel::Object(map![
                "index"@ => json::json_int(0),
                "delta"@ => delta,
                "finish_reason"@ => json::optional_str(finish_reason),
            ])]),
        ],
    )
}

/// One chunk of a streamed reply, as text.
pub open spec fn chunk_text(
    id: Seq<char>,
    model: Seq<char>,
    created: int,
    delta: JsonModel,
    finish_reason: Option<Seq<char>>,
) -> Seq<char> {
    json::json_text(chunk_value(id, model, created, delta, finish_reason))
}

/// Builds the value of one chunk of a streamed reply.
pub fn stream_chunk(
    id: &str,
    model: &str,
    created: i64,
    delta: Json,
    finish_reason: Option<&str>,
) -> (chunk: Json)
    ensures
        chunk@ == chunk_value(
            id@,
            model@,
            created as int,
            delta@,
            text::text_option(finish_reason),
        ),
{
    Json::object().with("id", Json::text(id)).with(
        "object",
        Json::text("chat.completion.chunk"),
    ).with("created", Json::integer(created as i128)).with("model", Json::text(model)).with(
        "choices",
        Json::single(
            Json::object().with("index", Json::integer(0)).with("delta", delta).with(
                "finish_reason",
                Json::optional_text(finish_reason),
            ),
        ),
    )
}

/// Builds one chunk of a streamed reply.
pub fn build_stream_chunk(
    id: &str,
    model: &str,
    created: i64,
    delta: Json,
    finish_reason: Option<&str>,
) -> (chunk: String)
    ensures
        chunk@ == chunk_text(
            id@,
            model@,
            created as int,
            delta@,
            text::text_option(finish_reason),
        ),
{
    json_string(&stream_chunk(id, model, created, delta, finish_reason))
}

/// The pieces in which the arguments of a call are streamed.
pub open spec fn pieces(args: Seq<char>) -> Seq<Seq<char>>
    decreases args.len(),
{
    if args.len() == 0 {
        Seq::empty()
    } else if args.len() <= ARGUMENT_PIECE {
        seq![args]
    } else {
        seq![args.take(ARGUMENT_PIECE as int)] + pieces(args.skip(ARGUMENT_PIECE as int))
    }
}

/// The pieces in which the arguments of a call are streamed.
pub fn argument_pieces(args: &str) -> (out: Vec<String>)
    ensures
        text::texts(out@) == pieces(args@),
{
    let chars = chars_of(args);
    let len: usize = chars.len();
    let mut out: Vec<String> = Vec::new();
    let mut i: usize = 0;
    assert(text::texts(out@) =~= Seq::empty());
    assert(args@.skip(0) =~= args@);
    assert(pieces(args@) =~= text::texts(out@) + pieces(args@.skip(0)));
    while i < len
        invariant
            i <= len == chars@.len(),
            chars@ == args@,
            pieces(args@) == text::texts(out@) + pieces(args@.skip(i as int)),
        decreases len - i,
    {
        let end: usize = if len - i <= ARGUMENT_PIECE {
            len
        } else {
            i + ARGUMENT_PIECE
        };
        let piece = text_of(&chars, i, end);
        let ghost before = text::texts(out@);
        let ghost rest = args@.skip(i as int);
        push_text(&mut out, piece);
        proof {
            if rest.len() <= ARGUMENT_PIECE {
                assert(piece@ =~= rest);
                assert(args@.skip(end as int) =~= Seq::empty());
            } else {
                assert(piece@ =~= rest.take(ARGUMENT_PIECE as int));
                assert(rest.skip(ARGUMENT_PIECE as int) =~= args@.skip(end as int));
            }
            assert(pieces(rest) =~= seq![piece@] + pieces(args@.skip(end as int)));
            assert(before + pieces(rest) =~= before.push(piece@) + pieces(args@.skip(end as int)));
        }
        i = end;
    }
    assert(args@.skip(i as int) =~= Seq::empty());
    assert(pieces(args@) =~= text::texts(out@));
    out
}

/// The delta that opens a streamed call.
pub open spec fn call_start(index: int, call_id: Seq<char>, name: Seq<char>) -> JsonModel {
    JsonModel::Object(
        map![
            "role"@ => JsonModel::Str("assistant"@),
            "content"@ => JsonModel::Null,
            "tool_calls"@ => JsonModel::Array(seq![JsonModel::Object(map![
                "index"@ => json::json_int(index),
                "id"@ => JsonModel::Str(call_id),
                "type"@ => JsonModel::Str("function"@),
                "function"@ => JsonModel::Object(map![
                    "name"@ => JsonModel::Str(name),
                    "arguments"@ => JsonModel::Str(""@),
                ]),
            ])]),
        ],
    )
}

/// The delta that carries a piece of the arguments of a streamed call.
pub open spec fn call_piece(index: int, piece: Seq<char>) -> JsonModel {
    JsonModel::Object(
        map![
            "tool_calls"@ => JsonModel::Array(seq![JsonModel::Object(map![
                "index"@ => json::json_int(index),
                "function"@ => JsonModel::Object(map![
                    "arguments"@ => JsonModel::Str(piece),
                ]),
            ])]),
        ],
    )
}

/// The chunks of a streamed call: its start, its arguments piece by piece, and its end.
pub open spec fn call_chunks(
    id: Seq<char>,
    model: Seq<char>,
    created: int,
    index: int,
    call_id: Seq<char>,
    name: Seq<char>,
    args: Seq<char>,
) -> Seq<Seq<char>> {
    seq![chunk_text(id, model, created, call_start(index, call_id, name), None)] + pieces(
        args,
    ).map_values(
        |piece: Seq<char>| chunk_text(id, model, created, call_piece(index, piece), None),
    ) + seq![
        chunk_text(
            id,
            model,
            created,
            JsonModel::Object(Map::empty()),
            Some("tool_calls"@),
        ),
    ]
}

/// Builds the delta that opens a streamed call.
fn build_call_start(index: usize, call_id: &str, name: &str) -> (delta: Json)
    ensures
        delta@ == call_start(index as int, call_id@, name@),
{
    Json::object().with("role", Json::text("assistant")).with("content", Json::Null).with(
        "tool_calls",
        Json::single(
            Json::object().with("index", Json::integer(index as i128)).with(
                "id",
                Json::text(call_id),
            ).with("type", Json::text("function")).with(
                "function",
                Json::object().with("name", Json::text(name)).with("arguments", Json::text("")),
            ),
        ),
    )
}

/// Builds the delta that carries a piece of the arguments of a streamed call.
fn build_call_piece(index: usize, piece: &str) -> (delta: Json)
    ensures
        delta@ == call_piece(index as int, piece@),
{
    Json::object().with(
        "tool_calls",
        Json::single(
            Json::object().with("index", Json::integer(index as i128)).with(
                "function",
                Json::object().with("arguments", Json::text(piece)),
            ),
        ),
    )
}

/// Builds the chunks of a streamed call.
pub fn build_tool_call_stream_chunks(
    id: &str,
    model: &str,
    created: i64,
    index: usize,
    tool_call_id: &str,
    name: &str,
    args_json: &str,
) -> (chunks: Vec<String>)
    ensures
        text::texts(chunks@) == call_chunks(
            id@,
            model@,
            created as int,
            index as int,
            tool_call_id@,
            name@,
            args_json@,
        ),
{
    let mut chunks: Vec<String> = Vec::new();
    push_text(
        &mut chunks,
        build_stream_chunk(id, model, created, build_call_start(index, tool_call_id, name), None),
    );
    let ghost start = chunk_text(
        id@,
        model@,
        created as int,
        call_start(index as int, tool_call_id@, name@),
        None,
    );
    let ghost carried = pieces(args_json@).map_values(
        |piece: Seq<char>|
            chunk_text(id@, model@, created as int, call_piece(index as int, piece), None),
    );
    let args = argument_pieces(args_json);
    let mut i: usize = 0;
    assert(text::texts(chunks@) =~= seq![start] + carried.take(0));
    while i < args.len()
        invariant
            i <= args@.len(),
            text::texts(args@) == pieces(args_json@),
            carried == pieces(args_json@).map_values(
                |piece: Seq<char>|
                    chunk_text(id@, model@, created as int, call_piece(index as int, piece), None),
            ),
            text::texts(chunks@) == seq![start] + carried.take(i as int),
        decreases args@.len() - i,
    {
        assert(text::texts(args@)[i as int] == args@[i as int]@);
        push_text(
            &mut chunks,
            build_stream_chunk(id, model, created, build_call_piece(index, args[i].as_str()), None),
        );
        assert(seq![start] + carried.take(i + 1) =~= (seq![start] + carried.take(i as int)).push(
            carried[i as int],
        ));
        i += 1;
    }
    assert(carried.take(i as int) =~= carried);
    push_text(
        &mut chunks,
        build_stream_chunk(id, model, created, Json::object(), Some("tool_calls")),
    );
    assert(text::texts(chunks@) =~= call_chunks(
        id@,
        model@,
        created as int,
        index as int,
        tool_call_id@,
        name@,
        args_json@,
    ));
    chunks
}

/// Some pieces, one behind the other.
pub open spec fn put_together(list: Seq<Seq<char>>) -> Seq<char>
    decreases list.len(),
{
    if list.len() == 0 {
        Seq::empty()
    } else {
        list[0] + put_together(list.skip(1))
    }
}

/// The pieces of the arguments of a call are neither empty nor too long, and put together they are
/// the arguments.
pub proof fn law_pieces_hold_arguments(args: Seq<char>)
    ensures
        put_together(pieces(args)) == args,
        forall|i: int|
            0 <= i < pieces(args).len() ==> 1 <= (#[trigger] pieces(args)[i]).len()
                <= ARGUMENT_PIECE,
    decreases args.len(),
{
    let all = pieces(args);
    if args.len() == 0 {
        assert(put_together(all) =~= args);
    } else if args.len() <= ARGUMENT_PIECE {
        assert(all.skip(1) =~= Seq::empty());
        assert(put_together(all.skip(1)) =~= Seq::empty());
        assert(put_together(all) =~= args);
    } else {
        let rest = args.skip(ARGUMENT_PIECE as int);
        law_pieces_hold_arguments(rest);
        assert(all.skip(1) =~= pieces(rest));
        assert(args.take(ARGUMENT_PIECE as int) + rest =~= args);
        assert(forall|i: int| 1 <= i < all.len() ==> all[i] == pieces(rest)[i - 1]);
    }
}

/// A text has one token for every four bytes, and one at least.
pub proof fn law_tokens_go_by_length(text: Seq<char>, more: Seq<char>)
    ensures
        token_count(text) >= 1,
        text::byte_len(text) >= 4 ==> 4 * token_count(text) <= text::byte_len(text) < 4 * token_count(
            text,
        ) + 4,
        token_count(text) <= token_count(text + more),
{
    text::lemma_joined_bytes(text, more);
}

/// The chunks of a call open it under its name and id, carry its arguments whole, piece by piece,
/// and close it with the reason for that; the arguments never go out in one chunk with the name.
pub proof fn law_call_chunks_carry_the_call(
    id: Seq<char>,
    model: Seq<char>,
    created: int,
    index: int,
    call_id: Seq<char>,
    name: Seq<char>,
    args: Seq<char>,
)
    ensures
        ({
            let all = call_chunks(id, model, created, index, call_id, name, args);
            &&& all.len() == pieces(args).len() + 2
            &&& all[0] == chunk_text(id, model, created, call_start(index, call_id, name), None)
            &&& forall|i: int|
                0 <= i < pieces(args).len() ==> #[trigger] all[i + 1] == chunk_text(
                    id,
                    model,
                    created,
                    call_piece(index, pieces(args)[i]),
                    None,
                )
            &&& all.last() == chunk_text(
                id,
                model,
                created,
                JsonModel::Object(Map::empty()),
                Some("tool_calls"@),
            )
        }),
        put_together(pieces(args)) == args,
        ({
            let call = call_start(index, call_id, name).array_at("tool_calls"@)->0[0];
            &&& call.str_at("id"@) == Some(call_id)
            &&& call.at("function"@).str_at("name"@) == Some(name)
            &&& call.get("index"@) == Some(json::json_int(index))
        }),
        forall|piece: Seq<char>|
            {
                let call = (#[trigger] call_piece(index, piece)).array_at("tool_calls"@)->0[0];
                &&& call.at("function"@).str_at("arguments"@) == Some(piece)
                &&& call.get("index"@) == Some(json::json_int(index))
            },
{
    law_pieces_hold_arguments(args);
    lemma_call_fields(index, call_id, name);
    assert forall|piece: Seq<char>| {
        let call = (#[trigger] call_piece(index, piece)).array_at("tool_calls"@)->0[0];
        &&& call.at("function"@).str_at("arguments"@) == Some(piece)
        &&& call.get("index"@) == Some(json::json_int(index))
    } by {
        reveal_strlit("index");
        reveal_strlit("function");
        assert("index"@.len() != "function"@.len());
    }
}

/// The fields of the delta that opens a streamed call.
proof fn lemma_call_fields(index: int, call_id: Seq<char>, name: Seq<char>)
    ensures
        ({
            let call = call_start(index, call_id, name).array_at("tool_calls"@)->0[0];
            &&& call.str_at("id"@) == Some(call_id)
            &&& call.at("function"@).str_at("name"@) == Some(name)
            &&& call.get("index"@) == Some(json::json_int(index))
        }),
{
    reveal_strlit("index");
    reveal_strlit("function");
    reveal_strlit("id");
    reveal_strlit("type");
    reveal_strlit("name");
    reveal_strlit("arguments");
    reveal_strlit("role");
    reveal_strlit("content");
    reveal_strlit("tool_calls");
    assert("index"@.len() == 5 && "function"@.len() == 8 && "id"@.len() == 2 && "type"@.len() == 4);
    assert("name"@.len() == 4 && "arguments"@.len() == 9);
    assert("role"@.len() == 4 && "content"@.len() == 7 && "tool_calls"@.len() == 10);
}

/// A chunk carries what it is made of: its id, its model, when it was created, its delta, and why
/// the reply is finished, if it is.
pub proof fn law_chunks_carry_their_delta(
    id: Seq<char>,
    model: Seq<char>,
    created: int,
    delta: JsonModel,
    reason: Seq<char>,
)
    ensures
        ({
            let chunk = chunk_value(id, model, created, delta, Some(reason));
            let choice = chunk.array_at("choices"@)->0[0];
            &&& chunk.str_at("id"@) == Some(id)
            &&& chunk.str_at("model"@) == Some(model)
            &&& chunk.get("created"@) == Some(json::json_int(created))
            &&& chunk.array_at("choices"@)->0.len() == 1
            &&& choice.get("delta"@) == Some(delta)
            &&& choice.str_at("finish_reason"@) == Some(reason)
        }),
        ({
            let chunk = chunk_value(id, model, created, delta, None);
            let choice = chunk.array_at("choices"@)->0[0];
            &&& chunk.str_at("id"@) == Some(id)
            &&& chunk.str_at("model"@) == Some(model)
            &&& chunk.get("created"@) == Some(json::json_int(created))
            &&& choice.get("delta"@) == Some(delta)
            &&& choice.get("finish_reason"@) == Some(JsonModel::Null)
        }),
{
    reveal_strlit("id");
    reveal_strlit("object");
    reveal_strlit("created");
    reveal_strlit("model");
    reveal_strlit("choices");
    reveal_strlit("index");
    reveal_strlit("delta");
    reveal_strlit("finish_reason");
    assert("id"@.len() == 2 && "object"@.len() == 6 && "created"@.len() == 7 && "model"@.len() == 5);
    assert("choices"@.len() == 7 && "index"@.len() == 5 && "delta"@.len() == 5
        && "finish_reason"@.len() == 13);
    assert("created"@[1] != "choices"@[1]);
    assert("index"@[0] != "delta"@[0]);
}

/// What the model thinks goes out as it is, in both fields, and the first time with the role.
pub proof fn law_thoughts_go_out_as_they_are(text: Seq<char>, first: bool)
    ensures
        reasoning_delta(text, first).str_at("reasoning_content"@) == Some(text),
        reasoning_delta(text, first).str_at("thinking"@) == Some(text),
        reasoning_delta(text, first).get("role"@) == if first {
            Some(JsonModel::Str("assistant"@))
        } else {
            None
        },
{
    reveal_strlit("reasoning_content");
    reveal_strlit("thinking");
    reveal_strlit("role");
    assert("reasoning_content"@.len() == 17 && "thinking"@.len() == 8 && "role"@.len() == 4);
}

/// The arguments of a call go out eight characters at a time, and what is left at the end.
pub proof fn law_arguments_go_out_by_eights(args: Seq<char>)
    ensures
        args.len() == 0 ==> pieces(args).len() == 0,
        0 < args.len() <= 8 ==> pieces(args) == seq![args],
        args.len() > 8 ==> pieces(args) == seq![args.take(8)] + pieces(args.skip(8)),
{
}

} // verus!
