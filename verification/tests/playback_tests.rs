use midi_playback::playback::{
    start_mouse_playback, start_playback, stop_mouse_playback, stop_playback, Cursor, KeyEvent,
    MouseEvent, Payload, Phase, PlaybackError, PlaybackManager, PlaybackSlot, Sequencer, Step,
    StopAction, TimedEvent,
};

fn key(time: u64, key: &str) -> KeyEvent {
    KeyEvent { time, key: key.to_string(), duration: 7 }
}

fn click(time: u64, x: i32, y: i32) -> MouseEvent {
    MouseEvent { time, x, y, duration: 9 }
}

fn idle() -> PlaybackSlot {
    PlaybackSlot { worker_live: false, should_stop: false }
}

#[test]
fn new_manager_is_idle() {
    let manager = PlaybackManager::new();
    assert_eq!(manager.keyboard, idle());
    assert_eq!(manager.mouse, idle());
    assert_eq!(PlaybackSlot::new(), idle());
}

#[test]
fn second_start_is_refused_and_changes_nothing() {
    let mut manager = PlaybackManager::new();
    let first = start_playback(&mut manager, vec![key(0, "a")]).unwrap();
    let running = manager;
    assert!(manager.keyboard.worker_live);
    assert_eq!(
        start_playback(&mut manager, vec![key(5, "b")]),
        Err(PlaybackError::AlreadyInProgress)
    );
    assert_eq!(manager, running);
    assert_eq!(first.events.len(), 1);
    assert_eq!(first.events[0].payload, Payload::Key("a".to_string()));
}

#[test]
fn second_mouse_start_is_refused_and_changes_nothing() {
    let mut manager = PlaybackManager::new();
    assert!(start_mouse_playback(&mut manager, vec![click(0, 1, 2)]).is_ok());
    let running = manager;
    assert_eq!(
        start_mouse_playback(&mut manager, vec![]),
        Err(PlaybackError::AlreadyInProgress)
    );
    assert_eq!(manager, running);
}

#[test]
fn categories_are_independent() {
    let mut manager = PlaybackManager::new();
    assert!(start_playback(&mut manager, vec![]).is_ok());
    assert_eq!(manager.mouse, idle());
    assert!(start_mouse_playback(&mut manager, vec![]).is_ok());
    assert!(manager.keyboard.worker_live && manager.mouse.worker_live);
    assert_eq!(stop_playback(&mut manager), StopAction::JoinWorker);
    assert!(manager.mouse.worker_live);
    assert!(!manager.mouse.should_stop);
    assert_eq!(stop_mouse_playback(&mut manager), StopAction::JoinWorker);
    assert!(!manager.keyboard.worker_live);
}

#[test]
fn stop_when_idle_is_a_no_op_success() {
    let mut manager = PlaybackManager::new();
    assert_eq!(stop_playback(&mut manager), StopAction::Nothing);
    assert_eq!(stop_playback(&mut manager), StopAction::Nothing);
    assert_eq!(stop_mouse_playback(&mut manager), StopAction::Nothing);
    assert!(!manager.keyboard.worker_live);
    assert!(manager.keyboard.should_stop);
}

#[test]
fn stop_frees_the_slot_for_the_next_start() {
    let mut manager = PlaybackManager::new();
    assert!(start_playback(&mut manager, vec![key(0, "a")]).is_ok());
    assert_eq!(stop_playback(&mut manager), StopAction::JoinWorker);
    assert!(manager.keyboard.should_stop);
    assert!(!manager.keyboard.worker_live);
    assert!(start_playback(&mut manager, vec![key(0, "b")]).is_ok());
    assert!(!manager.keyboard.should_stop);
    assert!(manager.keyboard.worker_live);
}

#[test]
fn finished_worker_frees_the_slot() {
    let mut slot = PlaybackSlot::new();
    assert_eq!(slot.start(), Ok(()));
    assert_eq!(slot.start(), Err(PlaybackError::AlreadyInProgress));
    slot.finish();
    assert!(!slot.worker_live);
    assert!(!slot.stop_requested());
    assert_eq!(slot.start(), Ok(()));
    assert_eq!(slot.stop(), StopAction::JoinWorker);
    assert!(slot.stop_requested());
    slot.finish();
    assert!(slot.stop_requested());
}

#[test]
fn events_keep_their_order_and_fields() {
    let mut manager = PlaybackManager::new();
    let sequencer =
        start_playback(&mut manager, vec![key(30, "ctrl+a"), key(10, "b"), key(20, "c")]).unwrap();
    assert_eq!(
        sequencer.events,
        vec![
            TimedEvent { time: 30, payload: Payload::Key("ctrl+a".to_string()), duration: 7 },
            TimedEvent { time: 10, payload: Payload::Key("b".to_string()), duration: 7 },
            TimedEvent { time: 20, payload: Payload::Key("c".to_string()), duration: 7 },
        ]
    );
    assert_eq!(sequencer.cursor, Cursor { next: 0, phase: Phase::Waiting });
    let mouse = start_mouse_playback(&mut manager, vec![click(5, -3, 8)]).unwrap();
    assert_eq!(
        mouse.events,
        vec![TimedEvent { time: 5, payload: Payload::Mouse { x: -3, y: 8 }, duration: 9 }]
    );
}

fn timed(time: u64) -> TimedEvent {
    TimedEvent { time, payload: Payload::Mouse { x: 0, y: 0 }, duration: 0 }
}

#[test]
fn worker_sleeps_until_the_event_is_due_then_delivers() {
    let mut sequencer = Sequencer::new(vec![timed(100), timed(250)]);
    assert_eq!(sequencer.step(false, 40), Step::Sleep(60));
    assert_eq!(sequencer.step(false, 100), Step::Dispatch(0));
    assert_eq!(sequencer.step(false, 101), Step::Sleep(149));
    assert_eq!(sequencer.step(false, 260), Step::Dispatch(1));
    assert_eq!(sequencer.step(false, 261), Step::Finished);
    assert_eq!(sequencer.step(false, 262), Step::Finished);
    assert_eq!(sequencer.cursor.phase, Phase::Ended);
}

#[test]
fn late_worker_proceeds_without_sleeping() {
    let mut sequencer = Sequencer::new(vec![timed(100), timed(100), timed(50)]);
    assert_eq!(sequencer.step(false, 100), Step::Proceed);
    assert_eq!(sequencer.step(false, 100), Step::Dispatch(0));
    assert_eq!(sequencer.step(false, 500), Step::Proceed);
    assert_eq!(sequencer.step(false, 500), Step::Dispatch(1));
    assert_eq!(sequencer.step(false, 500), Step::Proceed);
    assert_eq!(sequencer.step(false, 500), Step::Dispatch(2));
    assert_eq!(sequencer.step(false, 500), Step::Finished);
}

#[test]
fn stop_before_the_wait_ends_the_worker() {
    let mut sequencer = Sequencer::new(vec![timed(100)]);
    assert_eq!(sequencer.step(true, 0), Step::Finished);
    assert_eq!(sequencer.cursor, Cursor { next: 0, phase: Phase::Ended });
    assert_eq!(sequencer.step(false, 1000), Step::Finished);
}

#[test]
fn stop_during_the_wait_halts_before_delivery() {
    let mut sequencer = Sequencer::new(vec![timed(10), timed(100), timed(200)]);
    assert_eq!(sequencer.step(false, 0), Step::Sleep(10));
    assert_eq!(sequencer.step(false, 10), Step::Dispatch(0));
    assert_eq!(sequencer.step(false, 11), Step::Sleep(89));
    assert_eq!(sequencer.step(true, 100), Step::Finished);
    assert_eq!(sequencer.cursor, Cursor { next: 1, phase: Phase::Ended });
    assert_eq!(sequencer.step(false, 300), Step::Finished);
}

#[test]
fn empty_list_finishes_at_once() {
    let mut sequencer = Sequencer::new(vec![]);
    assert_eq!(sequencer.step(false, 0), Step::Finished);
}

#[test]
fn cancelled_session_returns_to_idle_and_restarts() {
    let mut manager = PlaybackManager::new();
    let mut worker = start_playback(&mut manager, vec![key(10, "a"), key(5_000, "b")]).unwrap();
    assert_eq!(worker.step(manager.keyboard.stop_requested(), 0), Step::Sleep(10));
    assert_eq!(worker.step(manager.keyboard.stop_requested(), 10), Step::Dispatch(0));
    assert_eq!(worker.payload(0), &Payload::Key("a".to_string()));
    assert_eq!(worker.step(manager.keyboard.stop_requested(), 12), Step::Sleep(4_988));
    assert_eq!(stop_playback(&mut manager), StopAction::JoinWorker);
    assert_eq!(worker.step(manager.keyboard.stop_requested(), 5_000), Step::Finished);
    manager.keyboard.finish();
    assert!(start_playback(&mut manager, vec![key(0, "c")]).is_ok());
}

#[test]
fn deliveries_are_in_input_order_whatever_the_clock_reads() {
    let mut sequencer = Sequencer::new((0..20).map(|i| timed(i * 7 % 50)).collect());
    let mut delivered = Vec::new();
    let mut clock = 0u64;
    loop {
        match sequencer.step(false, clock) {
            Step::Sleep(wait) => clock += wait,
            Step::Proceed => clock += 3,
            Step::Dispatch(index) => delivered.push(index),
            Step::Finished => break,
        }
    }
    assert_eq!(delivered, (0..20).collect::<Vec<usize>>());
}
