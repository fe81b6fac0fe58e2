//! The pipeline of one turn, from the bytes of a request to the bytes of a
//! response.
//!
//! A request is the tuple of the position's text and the player's move
//! token. A response is the tuple of the position's text as it came, the
//! text of the position after the turn, the engine's reply and the state of
//! the game as a number.

use vstd::prelude::*;
use vstd::string::*;
use crate::abi::{decoding, encoding, matches_schema, FieldKind, Value, ValueView};
use crate::abi_laws::lemma_decode_encode;
use crate::error::TurnError;
use crate::fen::{board_text, fen_text, parse_fen};
use crate::fen_laws::lemma_parse_fen_text;
use crate::params::EthParams;
use crate::resolver::{make_move, make_move_spec};
use crate::word::lemma_pow256_values;

verus! {

/// The field types of a request: two texts.
pub open spec fn request_schema_spec() -> Seq<FieldKind> {
    seq![FieldKind::Text, FieldKind::Text]
}

/// The field types of a response: three texts and a number of 8 bits.
pub open spec fn response_schema_spec() -> Seq<FieldKind> {
    seq![FieldKind::Text, FieldKind::Text, FieldKind::Text, FieldKind::Uint(8)]
}

/// The field types of a request.
pub fn request_schema() -> (schema: Vec<FieldKind>)
    ensures
        schema@ == request_schema_spec(),
{
    let mut schema: Vec<FieldKind> = Vec::new();
    schema.push(FieldKind::Text);
    schema.push(FieldKind::Text);
    assert(schema@ =~= request_schema_spec());
    schema
}

/// The field types of a response.
pub fn response_schema() -> (schema: Vec<FieldKind>)
    ensures
        schema@ == response_schema_spec(),
{
    let mut schema: Vec<FieldKind> = Vec::new();
    schema.push(FieldKind::Text);
    schema.push(FieldKind::Text);
    schema.push(FieldKind::Text);
    schema.push(FieldKind::Uint(8));
    assert(schema@ =~= response_schema_spec());
    schema
}

/// The response to the values of a request. Values that are not two texts
/// are malformed.
pub open spec fn play_turn_spec(request: Seq<ValueView>) -> Result<Seq<ValueView>, TurnError> {
    if request.len() != 2 {
        Err(TurnError::MalformedInput)
    } else {
        match (request[0], request[1]) {
            (ValueView::Text(board), ValueView::Text(token)) => match make_move_spec(
                board,
                token,
            ) {
                Err(e) => Err(e),
                Ok(turn) => Ok(
                    seq![
                        ValueView::Text(board),
                        ValueView::Text(fen_text(turn.board)),
                        ValueView::Text(turn.reply),
                        ValueView::Uint(turn.state.code() as u64),
                    ],
                ),
            },
            _ => Err(TurnError::MalformedInput),
        }
    }
}

/// Resolves the turn that a request asks for and gives the values of the
/// response. The position in a response can be read again as the position
/// of a next request.
pub fn play_turn(request: &EthParams) -> (r: Result<EthParams, TurnError>)
    ensures
        match r {
            Ok(response) => {
                &&& play_turn_spec(request@.values) == Ok::<Seq<ValueView>, TurnError>(
                    response@.values,
                )
                &&& response@.schema == response_schema_spec()
                &&& response.wf()
                &&& response@.values[1] matches ValueView::Text(after) && parse_fen(after)
                    is Some
            },
            Err(e) => play_turn_spec(request@.values) == Err::<Seq<ValueView>, TurnError>(e),
        },
{
    if request.values.len() != 2 {
        return Err(TurnError::MalformedInput);
    }
    match (&request.values[0], &request.values[1]) {
        (Value::Text(board), Value::Text(token)) => {
            match make_move(board.as_str(), token.as_str()) {
                Err(e) => Err(e),
                Ok(turn) => {
                    let mut values: Vec<Value> = Vec::new();
                    values.push(Value::Text(board.clone()));
                    values.push(Value::Text(board_text(&turn.board)));
                    values.push(Value::Text(turn.reply));
                    values.push(Value::Uint(turn.state.code() as u64));
                    let response = EthParams { schema: response_schema(), values };
                    proof {
                        lemma_parse_fen_text(turn.board@);
                        assert(response@.values =~= play_turn_spec(request@.values)->Ok_0);
                        lemma_response_shape(request@.values);
                    }
                    Ok(response)
                },
            }
        },
        _ => Err(TurnError::MalformedInput),
    }
}

/// The response buffer to a request buffer.
pub open spec fn run_spec(input: Seq<u8>) -> Result<Seq<u8>, TurnError> {
    match decoding(input, request_schema_spec()) {
        None => Err(TurnError::MalformedInput),
        Some(request) => match play_turn_spec(request) {
            Err(e) => Err(e),
            Ok(response) => Ok(encoding(response)),
        },
    }
}

/// The answer to a request as a mathematical value.
pub open spec fn output_view(r: Result<Vec<u8>, TurnError>) -> Result<Seq<u8>, TurnError> {
    match r {
        Ok(output) => Ok(output@),
        Err(e) => Err(e),
    }
}

/// Answers a whole request buffer with a whole response buffer, or with the
/// reason why there is none. A response buffer can be read as a tuple of
/// the response's field types, and its last field is a state code from 0
/// to 3.
pub fn run(input: &[u8]) -> (r: Result<Vec<u8>, TurnError>)
    ensures
        output_view(r) == run_spec(input@),
        r matches Ok(output) ==> (decoding(output@, response_schema_spec()) matches Some(
            response,
        ) && response.len() == 4 && (response[3] matches ValueView::Uint(code) && code <= 3)),
{
    let request = match EthParams::from_parameter(input, request_schema()) {
        Err(e) => {
            return Err(e);
        },
        Ok(request) => request,
    };
    match play_turn(&request) {
        Err(e) => Err(e),
        Ok(response) => {
            proof {
                lemma_response_shape(request@.values);
            }
            Ok(response.handle_response())
        },
    }
}

/// Two answers to the same request are the same, byte for byte: the answer
/// depends on the request alone.
pub proof fn lemma_run_is_deterministic(
    input: Seq<u8>,
    first: Result<Vec<u8>, TurnError>,
    second: Result<Vec<u8>, TurnError>,
)
    requires
        output_view(first) == run_spec(input),
        output_view(second) == run_spec(input),
    ensures
        output_view(first) == output_view(second),
{
}

/// The values of a response are three texts and a number from 0 to 3: the
/// position as it came, the position after the turn, the reply, and the
/// code of the state of the game.
pub proof fn lemma_response_shape(request: Seq<ValueView>)
    requires
        play_turn_spec(request) is Ok,
    ensures
        ({
            let response = play_turn_spec(request)->Ok_0;
            &&& response.len() == 4
            &&& response[0] == request[0]
            &&& response[1] is Text
            &&& response[2] is Text
            &&& response[3] matches ValueView::Uint(code) && code <= 3
            &&& matches_schema(response, response_schema_spec())
        }),
{
    lemma_pow256_values();
}

/// A response buffer is read back as the values of the response: the
/// caller finds in it what [`lemma_response_shape`] says, and a state code
/// from 0 to 3 in its last field.
pub proof fn lemma_response_decodes(input: Seq<u8>)
    requires
        run_spec(input) is Ok,
        run_spec(input)->Ok_0.len() <= usize::MAX,
    ensures
        ({
            let request = decoding(input, request_schema_spec())->0;
            let response = play_turn_spec(request)->Ok_0;
            &&& decoding(input, request_schema_spec()) is Some
            &&& play_turn_spec(request) is Ok
            &&& decoding(run_spec(input)->Ok_0, response_schema_spec()) == Some(response)
            &&& response.len() == 4
            &&& response[3] matches ValueView::Uint(code) && code <= 3
        }),
{
    let request = decoding(input, request_schema_spec())->0;
    lemma_response_shape(request);
    lemma_decode_encode(play_turn_spec(request)->Ok_0, response_schema_spec());
}

} // verus!
