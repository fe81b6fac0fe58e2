use alloy_sol_types::abi::AbiDecoderConfig;
use alloy_sol_types::{sol_data, SolType};
use chess_turn::abi::{decode, encode, FieldKind, Value};

type TwoTexts = (sol_data::String, sol_data::String);
type TextAndByte = (sol_data::String, sol_data::Uint<8>);

fn strict() -> AbiDecoderConfig {
    AbiDecoderConfig::new().strict(true)
}

fn ours_two(bytes: &[u8]) -> Option<(String, String)> {
    let values = decode(bytes, &[FieldKind::Text, FieldKind::Text])?;
    match (&values[0], &values[1]) {
        (Value::Text(a), Value::Text(b)) => Some((a.clone(), b.clone())),
        _ => panic!("two texts were asked for"),
    }
}

fn theirs_two(bytes: &[u8]) -> Option<(String, String)> {
    TwoTexts::abi_decode_params_with_config(bytes, strict()).ok()
}

fn ours_mixed(bytes: &[u8]) -> Option<(String, u8)> {
    let values = decode(bytes, &[FieldKind::Text, FieldKind::Uint(8)])?;
    match (&values[0], &values[1]) {
        (Value::Text(a), Value::Uint(n)) => Some((a.clone(), *n as u8)),
        _ => panic!("a text and a number were asked for"),
    }
}

fn theirs_mixed(bytes: &[u8]) -> Option<(String, u8)> {
    TextAndByte::abi_decode_params_with_config(bytes, strict()).ok()
}

#[test]
fn agrees_with_strict_alloy_on_every_changed_byte_of_two_texts() {
    let good = encode(&[Value::Text("e2e4".to_string()), Value::Text("é".to_string())]);
    assert_eq!(ours_two(&good), theirs_two(&good));
    assert!(ours_two(&good).is_some());
    for at in 0..good.len() {
        for change in [1u8, 0x20, 0x80, 0xff] {
            let mut bytes = good.clone();
            bytes[at] ^= change;
            assert_eq!(ours_two(&bytes), theirs_two(&bytes), "byte {} changed by {}", at, change);
        }
    }
}

#[test]
fn agrees_with_strict_alloy_on_every_changed_byte_of_a_text_and_a_number() {
    let good = encode(&[Value::Text("O-O-O".to_string()), Value::Uint(3)]);
    assert_eq!(ours_mixed(&good), theirs_mixed(&good));
    assert!(ours_mixed(&good).is_some());
    for at in 0..good.len() {
        for change in [1u8, 0x20, 0x80, 0xff] {
            let mut bytes = good.clone();
            bytes[at] ^= change;
            assert_eq!(
                ours_mixed(&bytes),
                theirs_mixed(&bytes),
                "byte {} changed by {}",
                at,
                change
            );
        }
    }
}

#[test]
fn agrees_with_strict_alloy_on_every_length_of_buffer() {
    let good = encode(&[Value::Text("a".repeat(40)), Value::Text(String::new())]);
    for len in 0..=good.len() {
        assert_eq!(ours_two(&good[..len]), theirs_two(&good[..len]), "cut at {}", len);
    }
    for extra in 1..=64 {
        let mut bytes = good.clone();
        bytes.extend(vec![0u8; extra]);
        assert_eq!(ours_two(&bytes), theirs_two(&bytes), "{} bytes more", extra);
    }
}

#[test]
fn agrees_with_strict_alloy_on_texts_of_every_short_length() {
    for len in 0..=70 {
        let text = "x".repeat(len);
        let ours = encode(&[Value::Text(text.clone()), Value::Text(text.clone())]);
        let theirs = TwoTexts::abi_encode_params(&(text.clone(), text.clone()));
        assert_eq!(ours, theirs);
        assert_eq!(ours_two(&ours), Some((text.clone(), text)));
    }
}
