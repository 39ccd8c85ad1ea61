use midi_playback::range::{
    analyze_all_notes, analyze_track_notes, group_of, name_of, note_range, suggest_for_boundary,
    NoteRange, GLOBAL_LOWER_LIMIT, GLOBAL_UPPER_LIMIT,
};

#[test]
fn range_of_no_notes_is_empty() {
    assert_eq!(
        note_range(&vec![], 48, 83),
        NoteRange { min_note: None, max_note: None, under_count: 0, over_count: 0 }
    );
}

#[test]
fn range_finds_extremes_and_counts_strictly_outside() {
    let notes = vec![60, 47, 48, 83, 84, 90, 30, 60];
    assert_eq!(
        note_range(&notes, 48, 83),
        NoteRange { min_note: Some(30), max_note: Some(90), under_count: 2, over_count: 2 }
    );
}

#[test]
fn notes_on_the_limits_are_inside() {
    assert_eq!(
        note_range(&vec![48, 83], 48, 83),
        NoteRange { min_note: Some(48), max_note: Some(83), under_count: 0, over_count: 0 }
    );
}

#[test]
fn crossed_limits_count_a_note_on_both_sides() {
    let range = note_range(&vec![50, 50, 50], 60, 40);
    assert_eq!(range.under_count, 3);
    assert_eq!(range.over_count, 3);
}

#[test]
fn global_limits_are_fixed() {
    assert_eq!(GLOBAL_LOWER_LIMIT, 48);
    assert_eq!(GLOBAL_UPPER_LIMIT, 83);
}

#[test]
fn file_statistics_count_against_the_fixed_range() {
    let result = analyze_all_notes(&vec![47, 48, 60, 83, 84, 100]);
    assert_eq!(result.min_note, Some(47));
    assert_eq!(result.max_note, Some(100));
    assert_eq!(result.under_min_count, 1);
    assert_eq!(result.over_max_count, 2);
    assert_eq!(result.total_over_limit_count, 3);
    assert_eq!(result.min_note_name, "B2");
    assert_eq!(result.max_note_name, "E7");
}

#[test]
fn file_statistics_of_no_notes() {
    let result = analyze_all_notes(&vec![]);
    assert_eq!(result.min_note, None);
    assert_eq!(result.max_note, None);
    assert_eq!(result.under_min_count, 0);
    assert_eq!(result.over_max_count, 0);
    assert_eq!(result.total_over_limit_count, 0);
    assert_eq!(result.min_note_name, "");
    assert_eq!(result.max_note_name, "");
}

#[test]
fn names_and_groups_of_no_note_are_empty() {
    assert_eq!(name_of(None), "");
    assert_eq!(group_of(None), "");
    assert_eq!(name_of(Some(60)), "C4");
    assert_eq!(group_of(Some(60)), "小字一组 (c¹-b¹)");
}

#[test]
fn track_inside_the_range_gets_no_suggestion() {
    let analysis = analyze_track_notes(&vec![60, 72, 48, 83], 48, 83);
    assert_eq!(analysis.max_note, Some(83));
    assert_eq!(analysis.min_note, Some(48));
    assert_eq!(analysis.max_note_name, "B5");
    assert_eq!(analysis.min_note_name, "C3");
    assert_eq!(analysis.max_note_group, "小字二组 (c²-b²)");
    assert_eq!(analysis.min_note_group, "小字组 (c-b)");
    assert_eq!(analysis.upper_over_limit, 0);
    assert_eq!(analysis.lower_over_limit, 0);
    assert!(!analysis.is_max_over_limit);
    assert!(!analysis.is_min_over_limit);
    assert_eq!(analysis.suggested_max_transpose, None);
    assert_eq!(analysis.suggested_max_octave, None);
    assert_eq!(analysis.suggested_min_transpose, None);
    assert_eq!(analysis.suggested_min_octave, None);
}

#[test]
fn track_above_the_range_gets_a_suggestion_for_its_top() {
    // Highest note 90 against the limit 83: diff -7, best candidate (5, -1).
    let analysis = analyze_track_notes(&vec![60, 90, 85], 48, 83);
    assert!(analysis.is_max_over_limit);
    assert!(!analysis.is_min_over_limit);
    assert_eq!(analysis.upper_over_limit, 2);
    assert_eq!(analysis.lower_over_limit, 0);
    assert_eq!(analysis.suggested_max_transpose, Some(5));
    assert_eq!(analysis.suggested_max_octave, Some(-1));
    assert_eq!(analysis.suggested_min_transpose, None);
    assert_eq!(analysis.suggested_min_octave, None);
}

#[test]
fn track_below_the_range_gets_a_suggestion_for_its_bottom() {
    // Lowest note 41 against the limit 48: diff 7, best candidate (-5, 1).
    let analysis = analyze_track_notes(&vec![41, 60], 48, 83);
    assert!(analysis.is_min_over_limit);
    assert!(!analysis.is_max_over_limit);
    assert_eq!(analysis.lower_over_limit, 1);
    assert_eq!(analysis.suggested_min_transpose, Some(-5));
    assert_eq!(analysis.suggested_min_octave, Some(1));
    assert_eq!(analysis.suggested_max_transpose, None);
}

#[test]
fn track_wholly_below_the_range_flags_both_boundaries() {
    // Highest 40 lies below the lower limit: flagged, diff 83 - 40 = 43.
    let analysis = analyze_track_notes(&vec![36, 40], 48, 83);
    assert!(analysis.is_max_over_limit);
    assert!(analysis.is_min_over_limit);
    assert_eq!(analysis.upper_over_limit, 0);
    assert_eq!(analysis.lower_over_limit, 2);
    assert_eq!(analysis.suggested_max_transpose, Some(19));
    assert_eq!(analysis.suggested_max_octave, Some(2));
    assert_eq!(analysis.suggested_min_transpose, Some(0));
    assert_eq!(analysis.suggested_min_octave, Some(1));
}

#[test]
fn boundary_suggestion_needs_a_flag_and_a_note() {
    assert_eq!(suggest_for_boundary(false, Some(90), 83), (None, None));
    assert_eq!(suggest_for_boundary(true, None, 83), (None, None));
    assert_eq!(suggest_for_boundary(true, Some(90), 83), (Some(5), Some(-1)));
    assert_eq!(suggest_for_boundary(true, Some(0), 255), (Some(231), Some(2)));
    assert_eq!(suggest_for_boundary(true, Some(255), 0), (Some(-231), Some(-2)));
}
