use led_merge::{MergeAction, MergeMapping};

#[test]
fn keep_is_valid_without_a_source_file() {
    assert!(MergeMapping::new(0, "keep".to_string()).is_valid());
}

#[test]
fn replace_without_a_source_file_is_invalid() {
    assert!(!MergeMapping::new(0, "replace".to_string()).is_valid());
}

#[test]
fn combine_without_a_source_file_is_invalid() {
    assert!(!MergeMapping::new(0, "combine".to_string()).is_valid());
    assert!(!MergeMapping::new(0, "combine".to_string()).with_target_slot(1).is_valid());
}

#[test]
fn combine_with_a_source_file_is_valid_whatever_the_target_slot() {
    let mapping = MergeMapping::new(1, "combine".to_string()).with_source_file("x".to_string());
    assert!(mapping.is_valid());
    assert!(mapping.clone().with_target_slot(0).is_valid());
    assert!(mapping.with_target_slot(u32::MAX).is_valid());
}

#[test]
fn replace_with_a_source_file_is_valid() {
    assert!(MergeMapping::new(1, "replace".to_string()).with_source_file("x".to_string()).is_valid());
}

#[test]
fn keep_ignores_the_source_file() {
    let mapping = MergeMapping::new(1, "keep".to_string())
        .with_source_file("x".to_string())
        .with_target_slot(2);
    assert!(mapping.is_valid());
}

#[test]
fn unknown_action_is_invalid() {
    for action in ["", "Keep", "KEEP", " keep", "keep ", "delete", "replace2", "kee", "combin\u{e9}"] {
        let mapping = MergeMapping::new(0, action.to_string()).with_source_file("x".to_string());
        assert!(!mapping.is_valid(), "{:?}", action);
    }
}

#[test]
fn new_sets_slot_and_action_only() {
    let mapping = MergeMapping::new(7, "replace".to_string());
    assert_eq!(mapping.slot, 7);
    assert_eq!(mapping.action, "replace");
    assert_eq!(mapping.source_file, None);
    assert_eq!(mapping.target_slot, None);
}

#[test]
fn builders_set_one_field_each() {
    let mapping = MergeMapping::new(7, "replace".to_string()).with_source_file("a.json".to_string());
    assert_eq!(
        mapping,
        MergeMapping {
            slot: 7,
            action: "replace".to_string(),
            source_file: Some("a.json".to_string()),
            target_slot: None,
        }
    );
    let mapping = mapping.with_target_slot(3);
    assert_eq!(
        mapping,
        MergeMapping {
            slot: 7,
            action: "replace".to_string(),
            source_file: Some("a.json".to_string()),
            target_slot: Some(3),
        }
    );
    let mapping = mapping.with_source_file("b.json".to_string()).with_target_slot(4);
    assert_eq!(mapping.source_file, Some("b.json".to_string()));
    assert_eq!(mapping.target_slot, Some(4));
}

#[test]
fn validity_is_judged_on_the_finished_value() {
    let unfinished = MergeMapping::new(2, "replace".to_string());
    assert!(!unfinished.is_valid());
    assert!(unfinished.with_source_file("late.json".to_string()).is_valid());
}

#[test]
fn actions_are_read_exactly() {
    assert_eq!(MergeAction::parse("keep"), Some(MergeAction::Keep));
    assert_eq!(MergeAction::parse("replace"), Some(MergeAction::Replace));
    assert_eq!(MergeAction::parse("combine"), Some(MergeAction::Combine));
    assert_eq!(MergeAction::parse("Combine"), None);
    assert_eq!(MergeAction::parse(""), None);
    assert_eq!(MergeAction::parse("keeps"), None);
}
