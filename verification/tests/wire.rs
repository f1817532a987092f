use led_merge::text::{parse_decimal_text, text_equals};
use led_merge::wire::{
    deserialize_flexible_number, WireDocument, WireFrame, WireFrames, WireNumber, WirePage,
};
use led_merge::{DecodeError, FrameData, FramesData, LEDConfiguration, PageData};
use serde_json::Value;

fn text(value: &str) -> WireNumber {
    WireNumber::Text(value.to_string())
}

fn blob(json: &str) -> Value {
    serde_json::from_str(json).unwrap()
}

fn wire_frame(index: WireNumber, colors: &[&str]) -> WireFrame {
    WireFrame {
        frame_index: Some(index),
        frame_rgb: Some(colors.iter().map(|c| c.to_string()).collect()),
    }
}

fn wire_page() -> WirePage {
    WirePage {
        valid: Some(WireNumber::Flag(true)),
        page_index: Some(3),
        lightness: Some(50),
        speed_ms: Some(200),
        color: Some(blob("{\"mode\": \"rainbow\", \"stops\": [0.25, -3, null]}")),
        word_page: Some(Value::Null),
        frames: Some(WireFrames {
            valid: Some(text("1")),
            frame_num: None,
            frame_data: Some(vec![
                wire_frame(WireNumber::Unsigned(0), &["#ff0000", "#00ff00"]),
                wire_frame(text("1"), &[]),
                wire_frame(WireNumber::Flag(false), &["#0000ff"]),
            ]),
        }),
        keyframes: Some(blob("[[1, 2], {\"k\": \"v\"}]")),
        comment: Some("hand written".to_string()),
    }
}

fn wire_document() -> WireDocument {
    let mut second = wire_page();
    second.valid = Some(text("0"));
    second.page_index = Some(4);
    second.comment = None;
    WireDocument {
        product_info: Some(blob("{\"name\": \"pad\", \"rev\": 2}")),
        page_num: Some(2),
        page_data: Some(vec![wire_page(), second]),
    }
}

fn decoded_page() -> PageData {
    PageData {
        valid: 1,
        page_index: 3,
        lightness: 50,
        speed_ms: 200,
        color: blob("{\"mode\": \"rainbow\", \"stops\": [0.25, -3, null]}"),
        word_page: Value::Null,
        frames: FramesData {
            valid: Some(1),
            frame_num: None,
            frame_data: vec![
                FrameData { frame_index: 0, frame_rgb: vec!["#ff0000".to_string(), "#00ff00".to_string()] },
                FrameData { frame_index: 1, frame_rgb: vec![] },
                FrameData { frame_index: 0, frame_rgb: vec!["#0000ff".to_string()] },
            ],
        },
        keyframes: blob("[[1, 2], {\"k\": \"v\"}]"),
        comment: Some("hand written".to_string()),
    }
}

fn decoded_document() -> LEDConfiguration {
    let mut second = decoded_page();
    second.valid = 0;
    second.page_index = 4;
    second.comment = None;
    LEDConfiguration {
        product_info: blob("{\"name\": \"pad\", \"rev\": 2}"),
        page_num: 2,
        page_data: vec![decoded_page(), second],
    }
}

#[test]
fn tolerant_number_accepts_integer_text_and_boolean() {
    assert_eq!(deserialize_flexible_number(&WireNumber::Unsigned(7)), Ok(7));
    assert_eq!(deserialize_flexible_number(&text("7")), Ok(7));
    assert_eq!(deserialize_flexible_number(&WireNumber::Flag(true)), Ok(1));
    assert_eq!(deserialize_flexible_number(&WireNumber::Flag(false)), Ok(0));
}

#[test]
fn tolerant_number_refuses_text_that_is_no_number() {
    assert_eq!(deserialize_flexible_number(&text("abc")), Err(DecodeError::NotANumber));
}

#[test]
fn tolerant_number_refuses_other_shapes() {
    assert_eq!(deserialize_flexible_number(&WireNumber::Other), Err(DecodeError::UnsupportedShape));
}

#[test]
fn tolerant_number_checks_the_range_of_integers() {
    assert_eq!(deserialize_flexible_number(&WireNumber::Unsigned(0)), Ok(0));
    assert_eq!(deserialize_flexible_number(&WireNumber::Unsigned(4294967295)), Ok(u32::MAX));
    assert_eq!(
        deserialize_flexible_number(&WireNumber::Unsigned(4294967296)),
        Err(DecodeError::NumberTooLarge)
    );
    assert_eq!(
        deserialize_flexible_number(&WireNumber::Unsigned(u64::MAX)),
        Err(DecodeError::NumberTooLarge)
    );
}

#[test]
fn decimal_text_is_read_with_overflow_checking() {
    assert_eq!(parse_decimal_text("0"), Ok(0));
    assert_eq!(parse_decimal_text("42"), Ok(42));
    assert_eq!(parse_decimal_text("4294967295"), Ok(4294967295));
    assert_eq!(parse_decimal_text("4294967296"), Err(DecodeError::NumberTooLarge));
    assert_eq!(parse_decimal_text("99999999999999999999999999"), Err(DecodeError::NumberTooLarge));
}

#[test]
fn decimal_text_may_carry_a_plus_and_leading_zeros() {
    assert_eq!(parse_decimal_text("+7"), Ok(7));
    assert_eq!(parse_decimal_text("007"), Ok(7));
    assert_eq!(parse_decimal_text("+000000000000000000000004294967295"), Ok(u32::MAX));
}

#[test]
fn decimal_text_agrees_with_the_standard_parser() {
    for sample in [
        "", "+", "-", "-0", "-1", "++1", "+-1", "1+", " 1", "1 ", "1_000", "0x10", "1.0", "1e3", "٣",
        "7", "+7", "0000", "4294967295", "4294967296", "12a", "a12", "\u{ff17}",
    ] {
        assert_eq!(parse_decimal_text(sample).ok(), sample.parse::<u32>().ok(), "{:?}", sample);
    }
}

#[test]
fn decimal_text_that_is_no_literal_is_not_a_number() {
    for sample in ["", "+", "-1", " 7", "7 ", "1.5", "abc", "12a", "99999999999999999999x"] {
        assert_eq!(parse_decimal_text(sample), Err(DecodeError::NotANumber), "{:?}", sample);
    }
}

#[test]
fn text_comparison_is_exact() {
    assert!(text_equals("", ""));
    assert!(text_equals("keep", "keep"));
    assert!(!text_equals("keep", "kept"));
    assert!(!text_equals("keep", "keeps"));
    assert!(text_equals("gr\u{fc}n", "gr\u{fc}n"));
    assert!(!text_equals("gr\u{fc}n", "grun"));
}

#[test]
fn document_decodes_with_mixed_number_shapes() {
    assert_eq!(wire_document().decode(), Ok(decoded_document()));
}

#[test]
fn frames_metadata_is_optional_and_tolerant() {
    let frames = WireFrames { valid: None, frame_num: Some(text("12")), frame_data: Some(vec![]) };
    assert_eq!(
        frames.decode(),
        Ok(FramesData { valid: None, frame_num: Some(12), frame_data: vec![] })
    );
    let frames = WireFrames { valid: Some(text("x")), frame_num: None, frame_data: Some(vec![]) };
    assert_eq!(frames.decode(), Err(DecodeError::NotANumber));
}

#[test]
fn missing_frame_fields_fail() {
    let frame = WireFrame { frame_index: None, frame_rgb: Some(vec![]) };
    assert_eq!(frame.decode(), Err(DecodeError::MissingField));
    let frame = WireFrame { frame_index: Some(WireNumber::Unsigned(1)), frame_rgb: None };
    assert_eq!(frame.decode(), Err(DecodeError::MissingField));
    let frames = WireFrames { valid: None, frame_num: None, frame_data: None };
    assert_eq!(frames.decode(), Err(DecodeError::MissingField));
}

#[test]
fn missing_page_fields_fail() {
    let mut pages = Vec::new();
    for _ in 0..8 {
        pages.push(wire_page());
    }
    pages[0].valid = None;
    pages[1].page_index = None;
    pages[2].lightness = None;
    pages[3].speed_ms = None;
    pages[4].color = None;
    pages[5].word_page = None;
    pages[6].frames = None;
    pages[7].keyframes = None;
    for page in pages {
        assert_eq!(page.decode(), Err(DecodeError::MissingField));
    }
}

#[test]
fn missing_comment_is_no_failure() {
    let mut page = wire_page();
    page.comment = None;
    let mut expected = decoded_page();
    expected.comment = None;
    assert_eq!(page.decode(), Ok(expected));
}

#[test]
fn missing_document_fields_fail() {
    let mut document = wire_document();
    document.product_info = None;
    assert_eq!(document.decode(), Err(DecodeError::MissingField));
    let mut document = wire_document();
    document.page_num = None;
    assert_eq!(document.decode(), Err(DecodeError::MissingField));
    let mut document = wire_document();
    document.page_data = None;
    assert_eq!(document.decode(), Err(DecodeError::MissingField));
}

#[test]
fn null_metadata_is_a_value_not_a_gap() {
    let mut document = wire_document();
    document.product_info = Some(Value::Null);
    assert_eq!(document.decode().unwrap().product_info, Value::Null);
}

#[test]
fn a_bad_number_anywhere_fails_the_document() {
    let mut document = wire_document();
    document.page_data.as_mut().unwrap()[1].frames.as_mut().unwrap().frame_data.as_mut().unwrap()[2]
        .frame_index = Some(text("twelve"));
    assert_eq!(document.decode(), Err(DecodeError::NotANumber));
    let mut document = wire_document();
    document.page_data.as_mut().unwrap()[0].valid = Some(WireNumber::Other);
    assert_eq!(document.decode(), Err(DecodeError::UnsupportedShape));
    let mut document = wire_document();
    document.page_data.as_mut().unwrap()[0].frames.as_mut().unwrap().frame_num =
        Some(WireNumber::Unsigned(1 << 40));
    assert_eq!(document.decode(), Err(DecodeError::NumberTooLarge));
}

#[test]
fn the_first_failure_is_the_one_reported() {
    let frames = WireFrames {
        valid: None,
        frame_num: None,
        frame_data: Some(vec![
            wire_frame(WireNumber::Unsigned(0), &[]),
            wire_frame(WireNumber::Other, &[]),
            wire_frame(text("x"), &[]),
        ]),
    };
    assert_eq!(frames.decode(), Err(DecodeError::UnsupportedShape));
    let mut document = wire_document();
    document.page_data.as_mut().unwrap()[0].keyframes = None;
    document.page_data.as_mut().unwrap()[1].valid = Some(text("-"));
    assert_eq!(document.decode(), Err(DecodeError::MissingField));
}

#[test]
fn encoding_writes_every_field_with_plain_integers() {
    let wire = decoded_document().encode();
    assert_eq!(wire.page_num, Some(2));
    assert_eq!(wire.product_info, Some(blob("{\"name\": \"pad\", \"rev\": 2}")));
    let pages = wire.page_data.unwrap();
    assert_eq!(pages.len(), 2);
    assert_eq!(pages[0].valid, Some(WireNumber::Unsigned(1)));
    assert_eq!(pages[0].page_index, Some(3));
    assert_eq!(pages[0].comment, Some("hand written".to_string()));
    assert_eq!(pages[1].comment, None);
    let frames = pages[0].frames.clone().unwrap();
    assert_eq!(frames.valid, Some(WireNumber::Unsigned(1)));
    assert_eq!(frames.frame_num, None);
    assert_eq!(
        frames.frame_data.unwrap()[0],
        wire_frame(WireNumber::Unsigned(0), &["#ff0000", "#00ff00"])
    );
}

#[test]
fn decode_inverts_encode() {
    let document = decoded_document();
    assert_eq!(document.encode().decode(), Ok(document));
    let empty = LEDConfiguration { product_info: Value::Null, page_num: 0, page_data: vec![] };
    assert_eq!(empty.encode().decode(), Ok(empty));
}

#[test]
fn reencoding_a_decoded_document_is_stable() {
    let first = wire_document().decode().unwrap();
    let second = first.encode().decode().unwrap();
    assert_eq!(first, second);
    assert_eq!(first.encode(), second.encode());
}

#[test]
fn metadata_blobs_survive_the_round_trip_as_structured_values() {
    let round = decoded_document().encode().decode().unwrap();
    assert_eq!(round.page_data[0].color["stops"][0], Value::from(0.25));
    assert_eq!(round.page_data[0].color["stops"][1], Value::from(-3));
    assert_eq!(round.page_data[0].keyframes[1]["k"], Value::from("v"));
    assert_eq!(round.product_info["rev"], Value::from(2));
}
