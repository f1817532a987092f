use led_merge::document::copy_colors;
use led_merge::{FrameData, FramesData, LEDConfiguration, MergeAction, MergeError, PageData};
use serde_json::Value;

fn frame(index: u32, colors: &[&str]) -> FrameData {
    FrameData { frame_index: index, frame_rgb: colors.iter().map(|c| c.to_string()).collect() }
}

fn page(slot: u32, frames: Vec<FrameData>) -> PageData {
    PageData {
        valid: 1,
        page_index: slot,
        lightness: 10 + slot,
        speed_ms: 100,
        color: serde_json::from_str("{\"r\": 1, \"g\": 2.5, \"b\": [null, true]}").unwrap(),
        word_page: Value::Null,
        frames: FramesData { valid: Some(1), frame_num: Some(frames.len() as u32), frame_data: frames },
        keyframes: Value::from(vec!["a", "b"]),
        comment: None,
    }
}

fn sample() -> LEDConfiguration {
    LEDConfiguration {
        product_info: Value::from(42),
        page_num: 9,
        page_data: vec![
            page(4, vec![frame(0, &["#111111"]), frame(1, &["#222222"])]),
            page(2, vec![frame(0, &["#333333"])]),
            page(4, vec![]),
        ],
    }
}

fn source_page() -> PageData {
    let mut source = page(8, vec![frame(5, &["#aaaaaa"]), frame(6, &[]), frame(7, &["#bbbbbb", "#cccccc"])]);
    source.frames.valid = Some(0);
    source.frames.frame_num = Some(77);
    source.comment = Some("from the source".to_string());
    source
}

#[test]
fn page_lookup_finds_the_first_match() {
    let document = sample();
    let found = document.get_page_by_index(4).unwrap();
    assert_eq!(found, &document.page_data[0]);
    assert_eq!(found.frames.frame_data.len(), 2);
    assert_eq!(document.get_page_by_index(2), Some(&document.page_data[1]));
}

#[test]
fn page_lookup_goes_by_index_not_by_position() {
    let document = sample();
    assert_eq!(document.get_page_by_index(0), None);
    assert_eq!(document.get_page_by_index(1), None);
    assert_eq!(document.get_page_by_index(9), None);
}

#[test]
fn page_lookup_in_an_empty_document_finds_nothing() {
    let document = LEDConfiguration { product_info: Value::Null, page_num: 3, page_data: vec![] };
    assert_eq!(document.get_page_by_index(0), None);
    assert_eq!(document.position_of(0), None);
}

#[test]
fn position_of_names_the_first_match() {
    let document = sample();
    assert_eq!(document.position_of(4), Some(0));
    assert_eq!(document.position_of(2), Some(1));
    assert_eq!(document.position_of(3), None);
}

#[test]
fn merge_page_keep_changes_nothing() {
    let mut document = sample();
    assert_eq!(document.merge_page(4, &source_page(), "keep"), Ok(()));
    assert_eq!(document, sample());
}

#[test]
fn merge_page_replace_takes_the_whole_frame_group() {
    let mut document = sample();
    assert_eq!(document.merge_page(4, &source_page(), "replace"), Ok(()));
    let mut expected = sample();
    expected.page_data[0].frames = source_page().frames;
    assert_eq!(document, expected);
    assert_eq!(document.page_data[0].frames.frame_num, Some(77));
    assert_eq!(document.page_data[0].frames.valid, Some(0));
    assert_eq!(document.page_data[0].comment, None);
    assert_eq!(document.page_data[0].page_index, 4);
}

#[test]
fn merge_page_combine_appends_and_recounts() {
    let mut document = sample();
    assert_eq!(document.merge_page(4, &source_page(), "combine"), Ok(()));
    let mut expected = sample();
    expected.page_data[0].frames = FramesData {
        valid: Some(1),
        frame_num: Some(5),
        frame_data: vec![
            frame(0, &["#111111"]),
            frame(1, &["#222222"]),
            frame(5, &["#aaaaaa"]),
            frame(6, &[]),
            frame(7, &["#bbbbbb", "#cccccc"]),
        ],
    };
    assert_eq!(document, expected);
}

#[test]
fn merge_page_combine_onto_an_empty_page() {
    let mut document = sample();
    document.page_data.remove(0);
    assert_eq!(document.merge_page(4, &source_page(), "combine"), Ok(()));
    assert_eq!(document.page_data[1].frames.frame_data, source_page().frames.frame_data);
    assert_eq!(document.page_data[1].frames.frame_num, Some(3));
}

#[test]
fn merge_page_reports_a_missing_target() {
    let mut document = sample();
    assert_eq!(
        document.merge_page(99, &source_page(), "replace"),
        Err(MergeError::TargetSlotNotFound(99))
    );
    assert_eq!(document, sample());
}

#[test]
fn merge_page_reports_an_unknown_action() {
    let mut document = sample();
    assert_eq!(
        document.merge_page(4, &source_page(), "swap"),
        Err(MergeError::UnknownAction("swap".to_string()))
    );
    assert_eq!(document, sample());
}

#[test]
fn merge_page_reports_a_missing_target_before_an_unknown_action() {
    let mut document = sample();
    assert_eq!(
        document.merge_page(99, &source_page(), "swap"),
        Err(MergeError::TargetSlotNotFound(99))
    );
}

#[test]
fn apply_at_addresses_a_page_by_position() {
    let mut document = sample();
    document.apply_at(2, &source_page(), MergeAction::Replace);
    let mut expected = sample();
    expected.page_data[2].frames = source_page().frames;
    assert_eq!(document, expected);
    document.apply_at(1, &source_page(), MergeAction::Keep);
    assert_eq!(document, expected);
}

#[test]
fn duplicate_gives_an_equal_value() {
    let frames = source_page().frames;
    assert_eq!(frames.duplicate(), frames);
    let single = frame(3, &["#123456", "#654321"]);
    assert_eq!(single.duplicate(), single);
    let colors = vec!["#000000".to_string(), "".to_string()];
    assert_eq!(copy_colors(&colors), colors);
}

#[test]
fn replaced_frames_do_not_alias_the_source() {
    let mut document = sample();
    let mut source = source_page();
    document.merge_page(2, &source, "replace").unwrap();
    source.frames.frame_data[0].frame_rgb[0] = "#changed".to_string();
    assert_eq!(document.page_data[1].frames.frame_data[0].frame_rgb[0], "#aaaaaa");
}
