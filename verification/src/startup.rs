//! What the service needs before it starts.
use vstd::prelude::*;

use crate::json;
use crate::json::{parse_json, Json, JsonModel};
use crate::numeral;
use crate::numeral::parse_number;
use crate::text;

verus! {

/// Where the service listens unless it is told otherwise.
pub const DEFAULT_PORT: u16 = 8765;

/// Where the service listens, given the value of `PORT`.
pub open spec fn listen_port(value: Option<Seq<char>>) -> int {
    match value {
        Some(v) => match numeral::number_in(v) {
            Some(n) => if n <= u16::MAX {
                n as int
            } else {
                DEFAULT_PORT as int
            },
            None => DEFAULT_PORT as int,
        },
        None => DEFAULT_PORT as int,
    }
}

/// Where the service listens, given the value of `PORT`.
pub fn port(value: Option<&str>) -> (port: u16)
    ensures
        port == listen_port(text::text_option(value)),
{
    match value {
        Some(v) => match parse_number(v) {
            Some(n) => if n <= u16::MAX as u64 {
                n as u16
            } else {
                DEFAULT_PORT
            },
            None => DEFAULT_PORT,
        },
        None => DEFAULT_PORT,
    }
}

/// The token in a session file, if it has one.
pub open spec fn file_token(file: JsonModel) -> Option<Seq<char>> {
    match file.str_at("token"@) {
        Some(token) => if token.len() > 0 {
            Some(token)
        } else {
            None
        },
        None => None,
    }
}

/// The token in a session file, if it has one.
pub fn token_in_file(file: &Json) -> (token: Option<String>)
    ensures
        text::string_option(token) == file_token(file@),
{
    match file.str_at("token") {
        Some(token) => if token.is_empty() {
            None
        } else {
            Some(token.to_owned())
        },
        None => None,
    }
}

/// The token that the service works with: that of `QWEN_TOKEN`, else that of the session file,
/// given what it reads as.
pub open spec fn token_from(
    env_token: Option<Seq<char>>,
    file: Option<Result<JsonModel, Seq<char>>>,
) -> Result<Seq<char>, Seq<char>> {
    let missing = Err(
        "No QWEN_TOKEN found. Set QWEN_TOKEN env var or create ~/.qwen_session.json"@,
    );
    if env_token is Some && env_token->0.len() > 0 {
        Ok(env_token->0)
    } else {
        match file {
            None => missing,
            Some(Err(_)) => Err("Failed to parse .qwen_session.json"@),
            Some(Ok(value)) => match file_token(value) {
                Some(token) => Ok(token),
                None => missing,
            },
        }
    }
}

/// What an optional text reads as.
pub open spec fn file_value(file: Option<&str>) -> Option<Result<JsonModel, Seq<char>>> {
    match file {
        Some(content) => Some(json::json_parse(content@)),
        None => None,
    }
}

/// The token that the service works with, given the value of `QWEN_TOKEN` and the content of the
/// session file.
pub fn load_token(env_token: Option<&str>, file: Option<&str>) -> (token: Result<String, String>)
    ensures
        text::string_result(token) == token_from(text::text_option(env_token), file_value(file)),
{
    if let Some(token) = env_token {
        if !token.is_empty() {
            return Ok(token.to_owned());
        }
    }
    if let Some(content) = file {
        match parse_json(content) {
            Ok(value) => {
                if let Some(token) = token_in_file(&value) {
                    return Ok(token);
                }
            },
            Err(_) => {
                return Err("Failed to parse .qwen_session.json".to_owned());
            },
        }
    }
    Err("No QWEN_TOKEN found. Set QWEN_TOKEN env var or create ~/.qwen_session.json".to_owned())
}

/// The service listens where it is told, as far as that is a port.
pub proof fn law_port_is_as_told(port: nat, text: Seq<char>)
    requires
        port <= 65535,
    ensures
        listen_port(Some(numeral::decimal(port))) == port,
        numeral::number_in(text) is None ==> listen_port(Some(text)) == 8765,
        numeral::number_in(text) is Some && numeral::number_in(text)->0 > 65535 ==> listen_port(
            Some(text),
        ) == 8765,
        listen_port(None) == 8765,
{
    numeral::law_written_numbers_read_back(port);
}

/// The token of the environment comes first, then that of the session file; an empty one is none.
pub proof fn law_where_the_token_comes_from(
    token: Seq<char>,
    file: JsonModel,
    read: Option<Result<JsonModel, Seq<char>>>,
    message: Seq<char>,
)
    requires
        token.len() > 0,
    ensures
        token_from(Some(token), read) == Ok::<Seq<char>, Seq<char>>(token),
        token_from(Some(Seq::empty()), read) == token_from(None, read),
        file.get("token"@) == Some(JsonModel::Str(token)) ==> token_from(None, Some(Ok(file))) == Ok::<
            Seq<char>,
            Seq<char>,
        >(token),
        file.get("token"@) == Some(JsonModel::Str(Seq::empty())) || !(file.at("token"@) is Str)
            ==> token_from(None, Some(Ok(file))) is Err,
        token_from(None, None) is Err,
        token_from(None, Some(Err(message))) == Err::<Seq<char>, Seq<char>>(
            "Failed to parse .qwen_session.json"@,
        ),
{
}

} // verus!
