use alloy_sol_types::{sol_data, SolType};
use chess_turn::abi::{conforms, decode, encode, FieldKind, Value};
use chess_turn::params::EthParams;
use chess_turn::error::TurnError;

type TwoTexts = (sol_data::String, sol_data::String);
type Response = (sol_data::String, sol_data::String, sol_data::String, sol_data::Uint<8>);

fn text(s: &str) -> Value {
    Value::Text(s.to_string())
}

fn word_of(n: u64) -> Vec<u8> {
    let mut w = vec![0u8; 24];
    w.extend_from_slice(&n.to_be_bytes());
    w
}

fn padded(s: &[u8]) -> Vec<u8> {
    let mut out = word_of(s.len() as u64);
    out.extend_from_slice(s);
    while out.len() % 32 != 0 {
        out.push(0);
    }
    out
}

const START: &str = "rnbqkbnr/pppppppp/8/8/8/8/PPPPPPPP/RNBQKBNR w KQkq - 0 1";

#[test]
fn encodes_two_short_texts_byte_for_byte() {
    let out = encode(&[text("a"), text("")]);
    let mut expected = Vec::new();
    expected.extend(word_of(0x40));
    expected.extend(word_of(0x80));
    expected.extend(word_of(1));
    expected.push(b'a');
    expected.extend(vec![0u8; 31]);
    expected.extend(word_of(0));
    assert_eq!(out, expected);
    assert_eq!(out.len(), 160);
}

#[test]
fn encodes_a_number_in_its_head_word_only() {
    let out = encode(&[Value::Uint(3)]);
    assert_eq!(out, word_of(3));
    let out = encode(&[Value::Uint(u64::MAX), Value::Uint(0)]);
    let mut expected = word_of(u64::MAX);
    expected.extend(word_of(0));
    assert_eq!(out, expected);
}

#[test]
fn encodes_the_empty_tuple_as_nothing() {
    assert_eq!(encode(&[]), Vec::<u8>::new());
    assert_eq!(decode(&[], &[]), Some(vec![]));
    assert_eq!(decode(&[0u8], &[]), None);
}

#[test]
fn a_text_of_a_whole_word_gets_no_padding() {
    let s = "abcdefghijklmnopqrstuvwxyz012345";
    assert_eq!(s.len(), 32);
    let out = encode(&[text(s)]);
    let mut expected = word_of(0x20);
    expected.extend(word_of(32));
    expected.extend_from_slice(s.as_bytes());
    assert_eq!(out, expected);
    assert_eq!(decode(&out, &[FieldKind::Text]), Some(vec![text(s)]));
}

#[test]
fn request_encoding_agrees_with_alloy_and_ethabi() {
    let ours = encode(&[text(START), text("e2e4")]);
    let alloy = TwoTexts::abi_encode_params(&(START.to_string(), "e2e4".to_string()));
    let eth = ethabi::encode(&[
        ethabi::Token::String(START.to_string()),
        ethabi::Token::String("e2e4".to_string()),
    ]);
    assert_eq!(ours, alloy);
    assert_eq!(ours, eth);
}

#[test]
fn response_encoding_agrees_with_alloy_and_ethabi() {
    let after = "rnbqkbnr/pppp1ppp/8/4p3/4P3/8/PPPP1PPP/RNBQKBNR w KQkq e6 0 0";
    let ours = encode(&[text(START), text(after), text("e7e5"), Value::Uint(0)]);
    let alloy = Response::abi_encode_params(&(
        START.to_string(),
        after.to_string(),
        "e7e5".to_string(),
        0u8,
    ));
    let eth = ethabi::encode(&[
        ethabi::Token::String(START.to_string()),
        ethabi::Token::String(after.to_string()),
        ethabi::Token::String("e7e5".to_string()),
        ethabi::Token::Uint(0u8.into()),
    ]);
    assert_eq!(ours, alloy);
    assert_eq!(ours, eth);
    let ours = encode(&[text(""), text("x"), text(""), Value::Uint(3)]);
    let alloy =
        Response::abi_encode_params(&(String::new(), "x".to_string(), String::new(), 3u8));
    assert_eq!(ours, alloy);
}

#[test]
fn alloy_reads_what_we_write_and_we_read_what_alloy_writes() {
    let ours = encode(&[text("käse ♞"), text("")]);
    let (a, b) = TwoTexts::abi_decode_params_validate(&ours).unwrap();
    assert_eq!(a, "käse ♞");
    assert_eq!(b, "");
    let theirs = Response::abi_encode_params(&(
        "x".repeat(33),
        "".to_string(),
        "O-O".to_string(),
        2u8,
    ));
    let schema = [FieldKind::Text, FieldKind::Text, FieldKind::Text, FieldKind::Uint(8)];
    assert_eq!(
        decode(&theirs, &schema),
        Some(vec![text(&"x".repeat(33)), text(""), text("O-O"), Value::Uint(2)])
    );
}

#[test]
fn decoding_gives_back_what_was_encoded() {
    let schema = [FieldKind::Text, FieldKind::Uint(16), FieldKind::Text, FieldKind::Uint(64)];
    let values = vec![text("north"), Value::Uint(65535), text("ünïcödé"), Value::Uint(u64::MAX)];
    let bytes = encode(&values);
    assert_eq!(decode(&bytes, &schema), Some(values));
}

#[test]
fn decoded_text_is_the_text_of_the_bytes() {
    let mut bytes = word_of(0x20);
    bytes.extend(padded("né".as_bytes()));
    assert_eq!(decode(&bytes, &[FieldKind::Text]), Some(vec![text("né")]));
}

#[test]
fn a_buffer_shorter_than_the_head_is_malformed() {
    let schema = [FieldKind::Text, FieldKind::Text];
    assert_eq!(decode(&[], &schema), None);
    assert_eq!(decode(&[0u8; 63], &schema), None);
    assert_eq!(decode(&word_of(0x40), &schema), None);
    assert_eq!(
        EthParams::from_parameter(&[0u8; 10], schema.to_vec()),
        Err(TurnError::MalformedInput)
    );
}

#[test]
fn an_offset_out_of_range_is_malformed() {
    let mut bytes = word_of(0x4000);
    bytes.extend(padded(b"abc"));
    assert_eq!(decode(&bytes, &[FieldKind::Text]), None);
    let mut bytes = vec![0xffu8; 32];
    bytes.extend(padded(b"abc"));
    assert_eq!(decode(&bytes, &[FieldKind::Text]), None);
}

#[test]
fn an_offset_that_leaves_a_gap_is_malformed() {
    let mut bytes = word_of(0x40);
    bytes.extend(vec![0u8; 32]);
    bytes.extend(padded(b"abc"));
    assert_eq!(decode(&bytes, &[FieldKind::Text]), None);
}

#[test]
fn a_length_beyond_the_buffer_is_malformed() {
    let mut bytes = word_of(0x20);
    bytes.extend(word_of(33));
    bytes.extend(vec![b'a'; 32]);
    assert_eq!(decode(&bytes, &[FieldKind::Text]), None);
    let mut bytes = word_of(0x20);
    bytes.extend(vec![0xffu8; 32]);
    assert_eq!(decode(&bytes, &[FieldKind::Text]), None);
    let mut bytes = word_of(0x20);
    bytes.extend(vec![0u8; 31]);
    assert_eq!(decode(&bytes, &[FieldKind::Text]), None);
}

#[test]
fn padding_that_is_not_zero_is_malformed() {
    let mut bytes = word_of(0x20);
    bytes.extend(padded(b"abc"));
    let last = bytes.len() - 1;
    bytes[last] = 1;
    assert_eq!(decode(&bytes, &[FieldKind::Text]), None);
}

#[test]
fn missing_padding_is_malformed() {
    let mut bytes = word_of(0x20);
    bytes.extend(word_of(3));
    bytes.extend_from_slice(b"abc");
    assert_eq!(decode(&bytes, &[FieldKind::Text]), None);
}

#[test]
fn bytes_after_the_last_tail_are_malformed() {
    let mut bytes = encode(&[text("abc")]);
    bytes.extend(vec![0u8; 32]);
    assert_eq!(decode(&bytes, &[FieldKind::Text]), None);
    let mut bytes = word_of(7);
    bytes.push(0);
    assert_eq!(decode(&bytes, &[FieldKind::Uint(8)]), None);
}

#[test]
fn text_that_is_not_utf8_is_malformed() {
    let mut bytes = word_of(0x20);
    bytes.extend(padded(&[0xff, 0xfe]));
    assert_eq!(decode(&bytes, &[FieldKind::Text]), None);
    let mut bytes = word_of(0x20);
    bytes.extend(padded(&[0xc3]));
    assert_eq!(decode(&bytes, &[FieldKind::Text]), None);
}

#[test]
fn a_number_wider_than_its_field_is_malformed() {
    assert_eq!(decode(&word_of(255), &[FieldKind::Uint(8)]), Some(vec![Value::Uint(255)]));
    assert_eq!(decode(&word_of(256), &[FieldKind::Uint(8)]), None);
    assert_eq!(decode(&word_of(65536), &[FieldKind::Uint(16)]), None);
    assert_eq!(
        decode(&word_of(1 << 56), &[FieldKind::Uint(56)]),
        None
    );
    assert_eq!(
        decode(&word_of((1 << 56) - 1), &[FieldKind::Uint(56)]),
        Some(vec![Value::Uint((1 << 56) - 1)])
    );
    assert_eq!(
        decode(&word_of(u64::MAX), &[FieldKind::Uint(64)]),
        Some(vec![Value::Uint(u64::MAX)])
    );
    let mut wide = vec![0u8; 32];
    wide[23] = 1;
    assert_eq!(decode(&wide, &[FieldKind::Uint(64)]), None);
    wide[23] = 0;
    wide[0] = 0x80;
    assert_eq!(decode(&wide, &[FieldKind::Uint(64)]), None);
}

#[test]
fn a_width_that_is_no_multiple_of_eight_is_refused() {
    assert_eq!(decode(&word_of(1), &[FieldKind::Uint(0)]), None);
    assert_eq!(decode(&word_of(1), &[FieldKind::Uint(7)]), None);
    assert_eq!(decode(&word_of(1), &[FieldKind::Uint(12)]), None);
    assert_eq!(decode(&word_of(1), &[FieldKind::Uint(72)]), None);
    assert_eq!(decode(&word_of(1), &[FieldKind::Uint(32)]), Some(vec![Value::Uint(1)]));
}

#[test]
fn a_text_where_a_number_is_expected_is_read_as_the_number() {
    let bytes = encode(&[text("abc")]);
    assert_eq!(decode(&bytes, &[FieldKind::Uint(8)]), None);
    assert_eq!(decode(&word_of(0x20), &[FieldKind::Text]), None);
}

#[test]
fn params_carry_values_both_ways() {
    let schema = vec![FieldKind::Text, FieldKind::Text];
    let bytes = encode(&[text(START), text("e2e4")]);
    let params = EthParams::from_parameter(&bytes, schema.clone()).unwrap();
    assert_eq!(params.schema, schema);
    assert_eq!(params.values, vec![text(START), text("e2e4")]);
    assert_eq!(params.handle_response(), bytes);
    let made = EthParams::new(schema, vec![text(START), text("e2e4")]).unwrap();
    assert_eq!(made, params);
}

#[test]
fn params_are_made_of_values_of_their_field_types_only() {
    let schema = vec![FieldKind::Text, FieldKind::Uint(8)];
    assert!(EthParams::new(schema.clone(), vec![text("a"), Value::Uint(255)]).is_some());
    assert!(EthParams::new(schema.clone(), vec![text("a"), Value::Uint(256)]).is_none());
    assert!(EthParams::new(schema.clone(), vec![Value::Uint(1), text("a")]).is_none());
    assert!(EthParams::new(schema.clone(), vec![text("a")]).is_none());
    assert!(EthParams::new(schema, vec![text("a"), Value::Uint(1), text("b")]).is_none());
    assert!(EthParams::new(vec![FieldKind::Uint(9)], vec![Value::Uint(1)]).is_none());
    assert!(EthParams::new(vec![], vec![]).is_some());
}

#[test]
fn values_conform_to_the_field_types_they_fit() {
    assert!(conforms(&[], &[]));
    assert!(conforms(&[text("")], &[FieldKind::Text]));
    assert!(conforms(&[Value::Uint(65535)], &[FieldKind::Uint(16)]));
    assert!(!conforms(&[Value::Uint(65536)], &[FieldKind::Uint(16)]));
    assert!(conforms(&[Value::Uint(u64::MAX)], &[FieldKind::Uint(64)]));
    assert!(!conforms(&[Value::Uint(0)], &[FieldKind::Uint(65)]));
    assert!(!conforms(&[Value::Uint(0)], &[FieldKind::Text]));
    assert!(!conforms(&[text("0")], &[FieldKind::Uint(8)]));
    assert!(!conforms(&[text("0")], &[]));
}
