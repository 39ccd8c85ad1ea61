use midi_playback::picker::{
    pick_result, CoordinatePicker, PickDecision, PickError, PointerEvent, PICK_TIMEOUT_SECS,
};

#[test]
fn click_after_a_move_picks_the_last_position() {
    let mut picker = CoordinatePicker::new();
    assert_eq!(picker.on_event(PointerEvent::Move { x: 10, y: 20 }), PickDecision::Pass);
    assert_eq!(picker.on_event(PointerEvent::Move { x: 30, y: 40 }), PickDecision::Pass);
    assert_eq!(picker.on_event(PointerEvent::LeftPress), PickDecision::Capture { x: 30, y: 40 });
    assert!(picker.stopped);
}

#[test]
fn click_before_any_move_is_passed_on() {
    let mut picker = CoordinatePicker::new();
    assert_eq!(picker.on_event(PointerEvent::LeftPress), PickDecision::Pass);
    assert!(!picker.stopped);
    assert_eq!(picker.on_event(PointerEvent::Move { x: 0, y: 0 }), PickDecision::Pass);
    assert_eq!(picker.on_event(PointerEvent::LeftPress), PickDecision::Pass);
    assert_eq!(picker.on_event(PointerEvent::Move { x: 0, y: 1 }), PickDecision::Pass);
    assert_eq!(picker.on_event(PointerEvent::LeftPress), PickDecision::Capture { x: 0, y: 1 });
}

#[test]
fn stopped_picker_passes_everything_on() {
    let mut picker = CoordinatePicker::new();
    picker.on_event(PointerEvent::Move { x: 5, y: 5 });
    assert_eq!(picker.on_event(PointerEvent::LeftPress), PickDecision::Capture { x: 5, y: 5 });
    let after = picker;
    assert_eq!(picker.on_event(PointerEvent::LeftPress), PickDecision::Pass);
    assert_eq!(picker.on_event(PointerEvent::Move { x: 9, y: 9 }), PickDecision::Pass);
    assert_eq!(picker.on_event(PointerEvent::Other), PickDecision::Pass);
    assert_eq!(picker, after);
}

#[test]
fn other_events_change_nothing() {
    let mut picker = CoordinatePicker::new();
    picker.on_event(PointerEvent::Move { x: -4, y: 7 });
    let before = picker;
    assert_eq!(picker.on_event(PointerEvent::Other), PickDecision::Pass);
    assert_eq!(picker, before);
}

#[test]
fn caller_can_stop_the_pick() {
    let mut picker = CoordinatePicker::new();
    picker.on_event(PointerEvent::Move { x: 1, y: 2 });
    picker.stop();
    assert_eq!(picker, CoordinatePicker { last_x: 1, last_y: 2, stopped: true });
    assert_eq!(picker.on_event(PointerEvent::LeftPress), PickDecision::Pass);
}

#[test]
fn pick_ends_with_the_position_or_a_timeout() {
    assert_eq!(pick_result(Some((3, 4))), Ok((3, 4)));
    assert_eq!(pick_result(None), Err(PickError::Timeout));
    assert_eq!(PICK_TIMEOUT_SECS, 30);
}
