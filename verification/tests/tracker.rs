use ear_trainer::pitch::DEBOUNCE_MILLIS;
use ear_trainer::tracker::{
    decode, plan_port, process_msg, KeyEvent, KeyState, PortPlan, UnknownNoteError, NOTE_OFF,
    NOTE_ON,
};

#[test]
fn new_tracker_is_empty() {
    let state = KeyState::new();
    assert_eq!(state.snapshot(), (vec![], None));
    assert_eq!(state.last_held(), None);
}

#[test]
fn note_on_appends_in_press_order() {
    let mut state = KeyState::new();
    state.note_on(64, 10);
    state.note_on(60, 20);
    state.note_on(67, 30);
    assert_eq!(state.snapshot(), (vec![64, 60, 67], Some(30)));
    assert_eq!(state.last_held(), Some(67));
}

#[test]
fn note_on_of_a_held_note_keeps_the_set_and_records_the_time() {
    let mut state = KeyState::new();
    state.note_on(64, 10);
    state.note_on(60, 20);
    state.note_on(64, 30);
    assert_eq!(state.snapshot(), (vec![64, 60], Some(30)));
}

#[test]
fn note_off_removes_the_note_and_keeps_the_order() {
    let mut state = KeyState::new();
    state.note_on(64, 10);
    state.note_on(60, 20);
    state.note_on(67, 30);
    assert_eq!(state.note_off(60, 40), Ok(()));
    assert_eq!(state.snapshot(), (vec![64, 67], Some(40)));
    assert_eq!(state.note_off(67, 50), Ok(()));
    assert_eq!(state.last_held(), Some(64));
    assert_eq!(state.note_off(64, 60), Ok(()));
    assert_eq!(state.snapshot(), (vec![], Some(60)));
}

#[test]
fn note_off_of_an_unknown_note_is_an_error_and_changes_nothing() {
    let mut state = KeyState::new();
    assert_eq!(state.note_off(60, 5), Err(UnknownNoteError { note: 60 }));
    assert_eq!(state.snapshot(), (vec![], None));
    state.note_on(64, 10);
    assert_eq!(state.note_off(60, 20), Err(UnknownNoteError { note: 60 }));
    assert_eq!(state.snapshot(), (vec![64], Some(10)));
    assert_eq!(state.note_off(64, 30), Ok(()));
    assert_eq!(state.note_off(64, 40), Err(UnknownNoteError { note: 64 }));
}

#[test]
fn clear_last_change_keeps_the_notes() {
    let mut state = KeyState::new();
    state.note_on(64, 10);
    state.clear_last_change();
    assert_eq!(state.snapshot(), (vec![64], None));
}

#[test]
fn the_gate_opens_only_after_more_than_the_debounce_time() {
    let mut state = KeyState::new();
    state.note_on(60, 1000);
    assert!(!state.is_settled(1000, DEBOUNCE_MILLIS));
    assert!(!state.is_settled(1099, DEBOUNCE_MILLIS));
    assert!(!state.is_settled(1100, DEBOUNCE_MILLIS));
    assert!(state.is_settled(1101, DEBOUNCE_MILLIS));
    assert!(!state.is_settled(999, DEBOUNCE_MILLIS));
    assert_eq!(state.poll(1100, DEBOUNCE_MILLIS), None);
    assert_eq!(state.snapshot(), (vec![60], Some(1000)));
    assert_eq!(state.poll(1101, DEBOUNCE_MILLIS), Some(vec![60]));
    assert_eq!(state.snapshot(), (vec![60], None));
}

#[test]
fn a_rolled_chord_is_judged_once_after_the_latest_change() {
    let mut state = KeyState::new();
    state.note_on(60, 1000);
    state.note_on(64, 1060);
    state.note_on(67, 1120);
    assert_eq!(state.poll(1101, DEBOUNCE_MILLIS), None);
    assert_eq!(state.poll(1161, DEBOUNCE_MILLIS), None);
    assert_eq!(state.poll(1220, DEBOUNCE_MILLIS), None);
    assert_eq!(state.poll(1221, DEBOUNCE_MILLIS), Some(vec![60, 64, 67]));
    assert_eq!(state.poll(1222, DEBOUNCE_MILLIS), None);
    assert_eq!(state.poll(5000, DEBOUNCE_MILLIS), None);
    assert_eq!(state.note_off(64, 6000), Ok(()));
    assert_eq!(state.poll(6050, DEBOUNCE_MILLIS), None);
    assert_eq!(state.poll(6101, DEBOUNCE_MILLIS), Some(vec![60, 67]));
}

#[test]
fn the_debounce_time_is_a_parameter() {
    let mut state = KeyState::new();
    state.note_on(60, 0);
    assert_eq!(state.poll(10, 10), None);
    assert_eq!(state.poll(11, 10), Some(vec![60]));
    state.note_on(61, 20);
    assert_eq!(state.poll(20, 0), None);
    assert_eq!(state.poll(21, 0), Some(vec![60, 61]));
}

#[test]
fn a_settled_empty_set_is_handed_over_empty() {
    let mut state = KeyState::new();
    assert_eq!(state.poll(1_000_000, DEBOUNCE_MILLIS), None);
    state.note_on(60, 0);
    assert_eq!(state.note_off(60, 10), Ok(()));
    assert_eq!(state.poll(200, DEBOUNCE_MILLIS), Some(vec![]));
    assert_eq!(state.poll(400, DEBOUNCE_MILLIS), None);
}

#[test]
fn messages_decode_by_status_byte() {
    assert_eq!(NOTE_ON, 0x90);
    assert_eq!(NOTE_OFF, 0x80);
    assert_eq!(decode(&[0x90, 60, 100]), KeyEvent::Press(60));
    assert_eq!(decode(&[0x90, 60]), KeyEvent::Press(60));
    assert_eq!(decode(&[0x80, 61, 0]), KeyEvent::Release(61));
    assert_eq!(decode(&[0xB0, 64, 127]), KeyEvent::Other);
    assert_eq!(decode(&[0xF8]), KeyEvent::Other);
    assert_eq!(decode(&[0x90]), KeyEvent::Other);
    assert_eq!(decode(&[]), KeyEvent::Other);
}

#[test]
fn process_msg_presses_and_releases() {
    let mut state = KeyState::new();
    assert_eq!(process_msg(&mut state, &[0x90, 60, 100], 10), Ok(()));
    assert_eq!(process_msg(&mut state, &[0x90, 64, 100], 20), Ok(()));
    assert_eq!(state.snapshot(), (vec![60, 64], Some(20)));
    assert_eq!(process_msg(&mut state, &[0x80, 60, 0], 30), Ok(()));
    assert_eq!(state.snapshot(), (vec![64], Some(30)));
}

#[test]
fn process_msg_passes_over_other_messages() {
    let mut state = KeyState::new();
    assert_eq!(process_msg(&mut state, &[0x90, 60, 100], 10), Ok(()));
    assert_eq!(process_msg(&mut state, &[0xB0, 64, 127], 20), Ok(()));
    assert_eq!(process_msg(&mut state, &[0xF8], 30), Ok(()));
    assert_eq!(process_msg(&mut state, &[], 40), Ok(()));
    assert_eq!(process_msg(&mut state, &[0x80], 50), Ok(()));
    assert_eq!(state.snapshot(), (vec![60], Some(10)));
}

#[test]
fn process_msg_reports_a_release_without_press() {
    let mut state = KeyState::new();
    assert_eq!(process_msg(&mut state, &[0x80, 60, 0], 10), Err(UnknownNoteError { note: 60 }));
    assert_eq!(state.snapshot(), (vec![], None));
}

#[test]
fn port_plan_depends_on_port_count() {
    assert_eq!(plan_port(0), PortPlan::NoPort);
    assert_eq!(plan_port(1), PortPlan::TakeOnly);
    assert_eq!(plan_port(2), PortPlan::AskPlayer);
    assert_eq!(plan_port(17), PortPlan::AskPlayer);
}
