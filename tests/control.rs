use heater_control::buttons::Button;
use heater_control::control::{duty_lookup, ControlState};

fn state(mode: usize, side: usize, running: bool) -> ControlState {
    ControlState { mode, side, running }
}

#[test]
fn start_state() {
    assert_eq!(ControlState::new(), state(0, 0, true));
    assert!(ControlState::new().is_valid());
}

#[test]
fn validity() {
    assert!(state(2, 1, false).is_valid());
    assert!(!state(3, 0, true).is_valid());
    assert!(!state(0, 2, true).is_valid());
}

#[test]
fn up_saturates_at_first_mode() {
    let mut s = state(0, 1, true);
    s.apply_button(Button::Up);
    assert_eq!(s, state(0, 1, true));
}

#[test]
fn down_saturates_at_last_mode() {
    let mut s = state(2, 0, false);
    s.apply_button(Button::Down);
    assert_eq!(s, state(2, 0, false));
}

#[test]
fn up_and_down_step_the_mode() {
    let mut s = state(1, 0, true);
    s.apply_button(Button::Up);
    assert_eq!(s.mode, 0);
    s.apply_button(Button::Down);
    s.apply_button(Button::Down);
    assert_eq!(s.mode, 2);
}

#[test]
fn left_and_right_set_side() {
    for side in 0..2 {
        let mut s = state(1, side, true);
        s.apply_button(Button::Left);
        assert_eq!(s, state(1, 1, true));
        let mut s = state(1, side, true);
        s.apply_button(Button::Right);
        assert_eq!(s, state(1, 0, true));
    }
}

#[test]
fn center_twice_restores_running() {
    for running in [true, false] {
        let mut s = state(2, 1, running);
        s.apply_button(Button::Center);
        assert_eq!(s.running, !running);
        s.apply_button(Button::Center);
        assert_eq!(s, state(2, 1, running));
    }
}

#[test]
fn released_changes_nothing() {
    let mut s = state(1, 1, false);
    s.apply_button(Button::Released);
    assert_eq!(s, state(1, 1, false));
}

#[test]
fn alternator_flips_side_while_running() {
    let mut s = state(1, 0, true);
    s.alternate_side();
    assert_eq!(s, state(1, 1, true));
    s.alternate_side();
    assert_eq!(s, state(1, 0, true));
}

#[test]
fn alternator_frozen_while_paused() {
    let mut s = state(2, 1, false);
    for _ in 0..5 {
        s.alternate_side();
        assert_eq!(s, state(2, 1, false));
    }
}

#[test]
fn duty_table_values() {
    assert_eq!(duty_lookup(0, 0), 1000);
    assert_eq!(duty_lookup(0, 1), 2000);
    assert_eq!(duty_lookup(1, 0), 750);
    assert_eq!(duty_lookup(1, 1), 2250);
    assert_eq!(duty_lookup(2, 0), 500);
    assert_eq!(duty_lookup(2, 1), 2500);
    assert_eq!(state(0, 0, true).duty(), 1000);
    assert_eq!(state(2, 1, false).duty(), 2500);
}

#[test]
fn status_hue_follows_duty() {
    assert_eq!(state(0, 0, true).status_hue(), Some(50));
    assert_eq!(state(2, 0, true).status_hue(), Some(0));
    assert_eq!(state(2, 1, true).status_hue(), Some(200));
    assert_eq!(state(1, 1, true).status_hue(), Some(175));
    assert_eq!(state(2, 1, false).status_hue(), None);
}

#[test]
fn end_to_end_down_down_left() {
    let mut s = ControlState::new();
    s.apply_button(Button::Down);
    s.apply_button(Button::Down);
    assert_eq!(s.mode, 2);
    s.apply_button(Button::Left);
    assert_eq!(s.side, 1);
    assert_eq!(s.duty(), 2500);
}

#[test]
fn end_to_end_from_samples() {
    let mut detector = heater_control::buttons::EdgeDetector::new();
    let mut s = ControlState::new();
    for level in [3990, 90, 90, 3990, 90, 3990, 1835, 3990] {
        if let Some(b) = detector.poll(level) {
            s.apply_button(b);
        }
    }
    assert_eq!(s, state(2, 1, true));
    assert_eq!(s.duty(), 2500);
}
