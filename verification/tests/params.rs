//! Tests of the parameter timeline: event validation, ordering, cancel
//! semantics and curve evaluation.

use web_audio_api::param::{
    AudioParamDescriptor, AudioParamEvent, AutomationRate, ParamTimeline,
};
use web_audio_api::AudioError;
use web_audio_api::SAMPLE_ONE;

fn descriptor() -> AudioParamDescriptor {
    AudioParamDescriptor {
        min_value: i64::MIN,
        max_value: i64::MAX,
        default_value: 0,
        automation_rate: AutomationRate::A,
    }
}

#[test]
fn set_value_and_hold() {
    let mut t = ParamTimeline::new(descriptor());
    t.insert_event(AudioParamEvent::SetValueAtTime { value: 7 * SAMPLE_ONE, time: 100 })
        .unwrap();
    assert_eq!(t.value_at(0), 0);
    assert_eq!(t.value_at(99), 0);
    assert_eq!(t.value_at(100), 7 * SAMPLE_ONE);
    assert_eq!(t.value_at(1000), 7 * SAMPLE_ONE);
}

#[test]
fn linear_ramp_midpoint() {
    let mut t = ParamTimeline::new(descriptor());
    t.insert_event(AudioParamEvent::SetValueAtTime { value: 0, time: 0 }).unwrap();
    t.insert_event(AudioParamEvent::LinearRampToValueAtTime { value: SAMPLE_ONE, time: 1000 })
        .unwrap();
    assert_eq!(t.value_at(0), 0);
    assert_eq!(t.value_at(500), SAMPLE_ONE / 2);
    assert_eq!(t.value_at(1000), SAMPLE_ONE);
    assert_eq!(t.value_at(2000), SAMPLE_ONE);
}

#[test]
fn later_insertion_wins_at_equal_time() {
    let mut t = ParamTimeline::new(descriptor());
    t.insert_event(AudioParamEvent::SetValueAtTime { value: 1, time: 50 }).unwrap();
    t.insert_event(AudioParamEvent::SetValueAtTime { value: 2, time: 50 }).unwrap();
    assert_eq!(t.value_at(50), 2);
    assert_eq!(t.value_at(60), 2);
}

#[test]
fn exponential_ramp_from_zero_target_rejected() {
    let mut t = ParamTimeline::new(descriptor());
    let r = t.insert_event(AudioParamEvent::ExponentialRampToValueAtTime { value: 0, time: 10 });
    assert_eq!(r, Err(AudioError::InvalidAccess));
    let r2 = t.insert_event(AudioParamEvent::ExponentialRampToValueAtTime {
        value: -SAMPLE_ONE,
        time: 10,
    });
    assert_eq!(r2, Err(AudioError::InvalidAccess));
}

#[test]
fn set_target_needs_positive_time_constant() {
    let mut t = ParamTimeline::new(descriptor());
    let r = t.insert_event(AudioParamEvent::SetTargetAtTime {
        value: SAMPLE_ONE,
        time: 10,
        time_constant: 0,
    });
    assert_eq!(r, Err(AudioError::InvalidAccess));
}

#[test]
fn value_curve_needs_points_and_duration() {
    let mut t = ParamTimeline::new(descriptor());
    let r = t.insert_event(AudioParamEvent::SetValueCurveAtTime {
        curve: vec![SAMPLE_ONE],
        time: 0,
        duration: 10,
    });
    assert_eq!(r, Err(AudioError::InvalidAccess));
    let r2 = t.insert_event(AudioParamEvent::SetValueCurveAtTime {
        curve: vec![0, SAMPLE_ONE],
        time: 0,
        duration: 0,
    });
    assert_eq!(r2, Err(AudioError::InvalidAccess));
}

#[test]
fn value_curve_interpolates() {
    let mut t = ParamTimeline::new(descriptor());
    t.insert_event(AudioParamEvent::SetValueCurveAtTime {
        curve: vec![0, SAMPLE_ONE],
        time: 0,
        duration: 1000,
    })
        .unwrap();
    assert_eq!(t.value_at(0), 0);
    assert_eq!(t.value_at(500), SAMPLE_ONE / 2);
    assert_eq!(t.value_at(1000), SAMPLE_ONE);
    assert_eq!(t.value_at(5000), SAMPLE_ONE);
}

#[test]
fn cancel_scheduled_values_removes_later_events() {
    let mut t = ParamTimeline::new(descriptor());
    t.insert_event(AudioParamEvent::SetValueAtTime { value: 1, time: 10 }).unwrap();
    t.insert_event(AudioParamEvent::SetValueAtTime { value: 2, time: 20 }).unwrap();
    t.insert_event(AudioParamEvent::CancelScheduledValues { time: 15 }).unwrap();
    assert_eq!(t.value_at(10), 1);
    assert_eq!(t.value_at(25), 1);
}

#[test]
fn cancel_and_hold_keeps_value_at_time() {
    let mut t = ParamTimeline::new(descriptor());
    t.insert_event(AudioParamEvent::SetValueAtTime { value: 0, time: 0 }).unwrap();
    t.insert_event(AudioParamEvent::LinearRampToValueAtTime { value: SAMPLE_ONE, time: 1000 })
        .unwrap();
    t.insert_event(AudioParamEvent::CancelAndHoldAtTime { time: 500 }).unwrap();
    // the ramp is cut at its halfway value and held
    assert_eq!(t.value_at(500), SAMPLE_ONE / 2);
    assert_eq!(t.value_at(2000), SAMPLE_ONE / 2);
}

#[test]
fn set_target_decays_towards_target() {
    let mut t = ParamTimeline::new(descriptor());
    t.insert_event(AudioParamEvent::SetValueAtTime { value: SAMPLE_ONE, time: 0 }).unwrap();
    t.insert_event(AudioParamEvent::SetTargetAtTime { value: 0, time: 1000, time_constant: 100 })
        .unwrap();
    // at the event time the value is the previous anchor
    let v0 = t.value_at(1000);
    assert!((v0 - SAMPLE_ONE).abs() < SAMPLE_ONE / 1000);
    // several time constants later it has decayed close to the target
    let v5 = t.value_at(1500);
    assert!(v5 < SAMPLE_ONE / 100);
    // and the decay is monotone in between
    let v1 = t.value_at(1100);
    let v2 = t.value_at(1200);
    assert!(v0 >= v1 && v1 >= v2 && v2 >= v5);
}
