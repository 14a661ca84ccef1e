use kenchiku::materialize::{move_step, skipped_report, MoveStep};

#[test]
fn existing_file_is_skipped_without_overwrite() {
    assert_eq!(move_step(false, true, false, true, false), MoveStep::Skip);
    let report = skipped_report(&vec!["/tmp/work/test.txt".to_string()]).unwrap();
    assert_eq!(
        report,
        "Existing files are in the way, please manually copy these over:\n- /tmp/work/test.txt"
    );
}

#[test]
fn existing_file_is_replaced_with_overwrite() {
    assert_eq!(move_step(false, true, false, true, true), MoveStep::Replace);
}

#[test]
fn directories_merge() {
    assert_eq!(move_step(true, true, true, true, false), MoveStep::Merge);
    assert_eq!(move_step(true, true, true, false, false), MoveStep::Skip);
    assert_eq!(move_step(true, true, false, true, false), MoveStep::Skip);
}

#[test]
fn free_destination_is_placed() {
    assert_eq!(move_step(false, false, false, true, false), MoveStep::Place);
    assert_eq!(move_step(true, false, false, true, true), MoveStep::Place);
}

#[test]
fn nothing_skipped_means_no_report() {
    assert!(skipped_report(&vec![]).is_none());
    let two = skipped_report(&vec!["a".to_string(), "b".to_string()]).unwrap();
    assert!(two.ends_with("\n- a\n- b"));
}
