//! The messages exchanged with a client: what a received frame asks for, and
//! the text of each answer.

use crate::rock_paper_scissors::{self, Game, TurnResult};
use std::collections::BTreeMap;
use vstd::prelude::*;

verus! {

/// Why a request could not be served.
#[derive(Clone, Copy, Debug, PartialEq, Eq, Structural)]
pub enum ErrorCode {
    /// The frame held text, but not a request.
    InvalidRequest,
    /// The frame could not be read as text at all.
    InternalServerError,
}

/// A request of the client.
#[derive(Clone, Copy, Debug, PartialEq, Eq, Structural)]
pub enum JsonIn {
    /// The player's choice for the next turn.
    Payload(rock_paper_scissors::Option),
}

/// An answer to the client.
#[derive(Clone, Copy, Debug, PartialEq, Eq, Structural)]
pub enum JsonOut<'a> {
    /// How the turn ended, and the session as it stands after the turn.
    Result { turn_result: TurnResult, game: &'a Game },
    /// The request was not served.
    Error(ErrorCode),
}

/// One frame received from the client that is meant to be read as text.
#[derive(Debug, PartialEq, Eq)]
pub enum Frame {
    /// A frame with its content as text.
    Text(String),
    /// A frame whose content cannot be represented as text.
    Unreadable,
}

/// The error of `serde_json`. It is passed on as it comes; nothing is read
/// from it.
#[verifier::external_type_specification]
#[verifier::external_body]
pub struct ExJsonError(serde_json::Error);

/// What `serde_json::from_str` makes of `text` when it is asked for a map
/// from strings to strings: the members of the JSON object that `text`
/// holds, each key once and in the order of the keys, or `None` where `text`
/// is not one JSON object whose members all have a string for their value.
/// Where the object repeats a key, the map keeps the value that comes last,
/// so the repetition cannot be seen in the members.
pub uninterp spec fn json_string_members(text: Seq<char>) -> Option<Seq<(Seq<char>, Seq<char>)>>;

/// The name of a choice on the wire.
pub open spec fn choice_name(choice: rock_paper_scissors::Option) -> Seq<char> {
    match choice {
        rock_paper_scissors::Option::Rock => "Rock"@,
        rock_paper_scissors::Option::Paper => "Paper"@,
        rock_paper_scissors::Option::Scissors => "Scissors"@,
    }
}

/// The choice that goes by `name` on the wire, if there is one.
pub open spec fn choice_named(name: Seq<char>) -> Option<rock_paper_scissors::Option> {
    if name == "Rock"@ {
        Some(rock_paper_scissors::Option::Rock)
    } else if name == "Paper"@ {
        Some(rock_paper_scissors::Option::Paper)
    } else if name == "Scissors"@ {
        Some(rock_paper_scissors::Option::Scissors)
    } else {
        None
    }
}

/// The name of an outcome on the wire.
pub open spec fn outcome_name(result: TurnResult) -> Seq<char> {
    match result {
        TurnResult::Win => "Win"@,
        TurnResult::Lose => "Lose"@,
        TurnResult::Draw => "Draw"@,
    }
}

/// The name of an error on the wire.
pub open spec fn error_name(code: ErrorCode) -> Seq<char> {
    match code {
        ErrorCode::InvalidRequest => "InvalidRequest"@,
        ErrorCode::InternalServerError => "InternalServerError"@,
    }
}

/// The status number that goes with an error.
pub open spec fn error_status(code: ErrorCode) -> int {
    match code {
        ErrorCode::InvalidRequest => 400,
        ErrorCode::InternalServerError => 500,
    }
}

/// The request that a JSON object with the given members makes. A request
/// is an object with the single member `Payload`, whose value names a
/// choice; anything else is an invalid request.
pub open spec fn request_of(members: Option<Seq<(Seq<char>, Seq<char>)>>) -> Result<
    JsonIn,
    ErrorCode,
> {
    match members {
        Some(members) => {
            if members.len() == 1 && members[0].0 == "Payload"@ {
                match choice_named(members[0].1) {
                    Some(choice) => Ok(JsonIn::Payload(choice)),
                    None => Err(ErrorCode::InvalidRequest),
                }
            } else {
                Err(ErrorCode::InvalidRequest)
            }
        },
        None => Err(ErrorCode::InvalidRequest),
    }
}

/// The request that a frame makes.
pub open spec fn decoded(frame: Frame) -> Result<JsonIn, ErrorCode> {
    match frame {
        Frame::Text(text) => request_of(json_string_members(text@)),
        Frame::Unreadable => Err(ErrorCode::InternalServerError),
    }
}

/// The decimal digit that stands for `digit`, as a text of one character.
pub open spec fn digit_text(digit: int) -> Seq<char> {
    if digit == 0 {
        "0"@
    } else if digit == 1 {
        "1"@
    } else if digit == 2 {
        "2"@
    } else if digit == 3 {
        "3"@
    } else if digit == 4 {
        "4"@
    } else if digit == 5 {
        "5"@
    } else if digit == 6 {
        "6"@
    } else if digit == 7 {
        "7"@
    } else if digit == 8 {
        "8"@
    } else {
        "9"@
    }
}

/// `number` written in decimal, without leading zeros.
pub open spec fn decimal_text(number: nat) -> Seq<char>
    decreases number,
{
    if number < 10 {
        digit_text(number as int)
    } else {
        decimal_text(number / 10) + digit_text((number % 10) as int)
    }
}

/// The text of an answer on the wire.
pub open spec fn wire_text(response: JsonOut) -> Seq<char> {
    match response {
        JsonOut::Result { turn_result, game } => "{\"Result\":{\"turn_result\":\""@ + outcome_name(
            turn_result,
        ) + "\",\"game\":{\"score\":"@ + decimal_text(game.score as nat) + "}}}"@,
        JsonOut::Error(code) => "{\"Error\":\""@ + error_name(code) + "\"}"@,
    }
}

impl ErrorCode {
    /// The status number that goes with this error: 400 for a request that
    /// is invalid, 500 for a fault on the server's side.
    pub fn status(&self) -> (status: u16)
        ensures
            status == error_status(*self),
    {
        match self {
            ErrorCode::InvalidRequest => 400,
            ErrorCode::InternalServerError => 500,
        }
    }
}

/// Reads `text` with `serde_json::from_str` as a `BTreeMap` from strings to
/// strings and hands the map's entries out in its order. The contract claims
/// that the outcome depends on `text` alone: the entries are
/// `json_string_members` of it, and the call fails exactly where that is
/// `None`. What JSON is, and which texts hold such an object, is left to
/// `serde_json`.
#[verifier::external_body]
fn parse_string_members(text: &str) -> (parsed: Result<Vec<(String, String)>, serde_json::Error>)
    ensures
        match parsed {
            Ok(members) => json_string_members(text@) == Some(members.deep_view()),
            Err(_) => json_string_members(text@) is None,
        },
{
    let members: BTreeMap<String, String> = serde_json::from_str(text)?;
    Ok(members.into_iter().collect())
}

/// The choice that goes by `name` on the wire, if there is one.
pub fn choice_from_name(name: &String) -> (choice: Option<rock_paper_scissors::Option>)
    ensures
        choice == choice_named(name@),
{
    if *name == "Rock".to_owned() {
        Some(rock_paper_scissors::Option::Rock)
    } else if *name == "Paper".to_owned() {
        Some(rock_paper_scissors::Option::Paper)
    } else if *name == "Scissors".to_owned() {
        Some(rock_paper_scissors::Option::Scissors)
    } else {
        None
    }
}

/// The request that a JSON object with the given members makes.
pub fn request_from_members(members: &Vec<(String, String)>) -> (request: Result<
    JsonIn,
    ErrorCode,
>)
    ensures
        request == request_of(Some(members.deep_view())),
{
    if members.len() != 1 {
        return Err(ErrorCode::InvalidRequest);
    }
    if members[0].0 != "Payload".to_owned() {
        return Err(ErrorCode::InvalidRequest);
    }
    match choice_from_name(&members[0].1) {
        Some(choice) => Ok(JsonIn::Payload(choice)),
        None => Err(ErrorCode::InvalidRequest),
    }
}

/// Reads the request that a frame makes. A frame whose content is not text
/// gives `InternalServerError`; text that is no request gives
/// `InvalidRequest`. A request is a JSON object with the one member
/// `Payload`, whose value is the name of a choice. An object that repeats
/// `Payload` counts as a request for the value that comes last: the members
/// are read into a map, which keeps one value for each key.
pub fn deserialise(msg: &Frame) -> (request: Result<JsonIn, ErrorCode>)
    ensures
        request == decoded(*msg),
{
    match msg {
        Frame::Text(text) => {
            match parse_string_members(text.as_str()) {
                Ok(members) => request_from_members(&members),
                Err(_) => Err(ErrorCode::InvalidRequest),
            }
        },
        Frame::Unreadable => Err(ErrorCode::InternalServerError),
    }
}

/// The decimal digit that stands for `digit`.
fn digit_str(digit: u8) -> (text: &'static str)
    requires
        digit < 10,
    ensures
        text@ == digit_text(digit as int),
{
    match digit {
        0 => "0",
        1 => "1",
        2 => "2",
        3 => "3",
        4 => "4",
        5 => "5",
        6 => "6",
        7 => "7",
        8 => "8",
        _ => "9",
    }
}

/// Writes `number` in decimal, without leading zeros.
pub fn decimal(number: u8) -> (text: String)
    ensures
        text@ == decimal_text(number as nat),
    decreases number,
{
    if number < 10 {
        digit_str(number).to_owned()
    } else {
        let mut text = decimal(number / 10);
        text.append(digit_str(number % 10));
        text
    }
}

/// Writes an answer as the text that goes on the wire.
pub fn serialise(response: &JsonOut) -> (text: String)
    ensures
        text@ == wire_text(*response),
{
    match response {
        JsonOut::Result { turn_result, game } => {
            let mut text = "{\"Result\":{\"turn_result\":\"".to_owned();
            let name = match turn_result {
                TurnResult::Win => "Win",
                TurnResult::Lose => "Lose",
                TurnResult::Draw => "Draw",
            };
            text.append(name);
            text.append("\",\"game\":{\"score\":");
            let score = decimal(game.score);
            text.append(score.as_str());
            text.append("}}}");
            text
        },
        JsonOut::Error(code) => {
            let mut text = "{\"Error\":\"".to_owned();
            let name = match code {
                ErrorCode::InvalidRequest => "InvalidRequest",
                ErrorCode::InternalServerError => "InternalServerError",
            };
            text.append(name);
            text.append("\"}");
            text
        },
    }
}

/// Every choice is found again by its name: no two choices share one.
pub proof fn lemma_choice_names_are_distinct(choice: rock_paper_scissors::Option)
    ensures
        choice_named(choice_name(choice)) == Some(choice),
{
    reveal_strlit("Rock");
    reveal_strlit("Paper");
    reveal_strlit("Scissors");
    assert("Rock"@.len() == 4);
    assert("Paper"@.len() == 5);
    assert("Scissors"@.len() == 8);
}

} // verus!
