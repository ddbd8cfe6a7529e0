use street_edits::timing::{classify, uses_fixed_timing, ChangeDuration, StageType};

#[test]
fn classify_zero_delay_is_fixed() {
    assert_eq!(classify(30, 0, 15), StageType::Fixed(30));
}

#[test]
fn classify_zero_additional_is_fixed() {
    assert_eq!(classify(30, 20, 0), StageType::Fixed(30));
}

#[test]
fn classify_both_zero_is_fixed() {
    assert_eq!(classify(45, 0, 0), StageType::Fixed(45));
}

#[test]
fn classify_both_nonzero_is_variable() {
    assert_eq!(classify(30, 20, 15), StageType::Variable(30, 20, 15));
}

#[test]
fn classify_keeps_all_three_values() {
    // No silent truncation: every knob comes back as it went in.
    assert_eq!(
        classify(u64::MAX, u64::MAX - 1, 1),
        StageType::Variable(u64::MAX, u64::MAX - 1, 1)
    );
}

#[test]
fn classify_twice_gives_identical_results() {
    let first = classify(12, 7, 3);
    let second = classify(12, 7, 3);
    assert_eq!(first, second);
    let first_fixed = classify(12, 0, 3);
    let second_fixed = classify(12, 0, 3);
    assert_eq!(first_fixed, second_fixed);
}

#[test]
fn fixed_timing_label_follows_the_knobs() {
    assert!(uses_fixed_timing(0, 15));
    assert!(uses_fixed_timing(20, 0));
    assert!(uses_fixed_timing(0, 0));
    assert!(!uses_fixed_timing(20, 15));
}

#[test]
fn stage_edit_targets_the_chosen_stage() {
    let change = ChangeDuration::new(2);
    assert_eq!(change.stage_edit(45, 0, 10), (2, StageType::Fixed(45)));
    assert_eq!(change.stage_edit(45, 5, 10), (2, StageType::Variable(45, 5, 10)));
}
