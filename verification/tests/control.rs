//! Tests of the scheduler and controller defaults.

use web_audio_api::control::{Controller, Scheduler};

#[test]
fn test_controller() {
    let controller = Controller::new();

    assert!(!controller.loop_());
    assert!(controller.loop_start() == 0);
    assert!(controller.loop_end() == u64::MAX);
}

#[test]
fn scheduler_start_stop() {
    let mut s = Scheduler::new();
    assert_eq!(s.get_start_at(), u64::MAX);
    assert_eq!(s.get_stop_at(), u64::MAX);
    s.start_at(42).unwrap();
    s.stop_at(100);
    assert_eq!(s.get_start_at(), 42);
    assert_eq!(s.get_stop_at(), 100);
}

#[test]
fn scheduler_start_twice_is_invalid_state() {
    let mut s = Scheduler::new();
    s.start_at(42).unwrap();
    let r = s.start_at(43);
    assert_eq!(r, Err(web_audio_api::AudioError::InvalidState));
    assert_eq!(s.get_start_at(), 42);
}
