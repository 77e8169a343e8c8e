//! End-to-end rendering scenarios on the offline context, plus the
//! deterministic-output check.

use std::f64::consts::PI;

use web_audio_api::context::{
    ConstantSourceNode, ConstantSourceOptions, GainNode, GainOptions, OfflineAudioContext,
};
use web_audio_api::channel_config::{ChannelConfigOptions, ChannelCountMode, ChannelInterpretation};

const QSCALE: f64 = 1099511627776.0;
const TPFR: f64 = 4294967296.0;

fn to_q(x: f64) -> i64 {
    (x * QSCALE).round() as i64
}

fn to_f(x: i64) -> f64 {
    x as f64 / QSCALE
}

fn at_ticks(seconds: f64, sample_rate: u32) -> u64 {
    (seconds * sample_rate as f64 * TPFR).round() as u64
}

#[test]
fn silent_destination() {
    // an empty graph renders one second of exact stereo silence
    let mut context = OfflineAudioContext::new(2, 44_100, 44_100);
    let out = context.start_rendering_sync();
    assert_eq!(out.len(), 2);
    for channel in &out {
        assert_eq!(channel.len(), 44_100);
        for &s in channel {
            assert_eq!(s, 0);
        }
    }
}

#[test]
fn sine_at_one_hertz_stereo() {
    let sample_rate: usize = 44_100;
    let mut context = OfflineAudioContext::new(2, sample_rate, sample_rate as u32);
    let mut osc = context.create_oscillator();
    osc.connect(context.destination().id);
    osc.frequency.set_value(to_q(1.0));
    osc.start_at(0).unwrap();
    let out = context.start_rendering_sync();
    assert_eq!(out.len(), 2);
    for n in 0..sample_rate {
        let expected = (2.0 * PI * n as f64 / sample_rate as f64).sin();
        let got = to_f(out[0][n]);
        assert!((got - expected).abs() <= 1e-5, "sample {}: {} vs {}", n, got, expected);
    }
}

#[test]
fn sub_sample_start_scenario() {
    let sample_rate: usize = 44_100;
    let mut context = OfflineAudioContext::new(2, sample_rate, sample_rate as u32);
    let mut osc = context.create_oscillator();
    osc.connect(context.destination().id);
    osc.frequency.set_value(to_q(1.0));
    osc.start_at(at_ticks(1.3 / sample_rate as f64, sample_rate as u32)).unwrap();
    let out = context.start_rendering_sync();
    // the first two samples are exactly zero
    assert_eq!(out[0][0], 0);
    assert_eq!(out[0][1], 0);
    // the third sample has advanced by 0.7 of a frame
    let expected = (2.0 * PI * 0.7 / sample_rate as f64).sin();
    assert!((to_f(out[0][2]) - expected).abs() <= 1e-5);
}

#[test]
fn scheduled_stop_scenario() {
    let sample_rate: usize = 44_100;
    let mut context = OfflineAudioContext::new(2, sample_rate, sample_rate as u32);
    let mut osc = context.create_oscillator();
    osc.connect(context.destination().id);
    osc.frequency.set_value(to_q(1.0));
    osc.start_at(0).unwrap();
    osc.stop_at(at_ticks(6.0 / sample_rate as f64, sample_rate as u32));
    let out = context.start_rendering_sync();
    for n in 0..6 {
        let expected = (2.0 * PI * n as f64 / sample_rate as f64).sin();
        assert!((to_f(out[0][n]) - expected).abs() <= 1e-5);
    }
    for n in 6..sample_rate {
        assert_eq!(out[0][n], 0, "sample {} should be exactly zero", n);
    }
}

#[test]
fn gain_sum_scenario() {
    // two oscillators summed at the destination
    let sample_rate: usize = 44_100;
    let mut context = OfflineAudioContext::new(2, sample_rate, sample_rate as u32);
    let mut osc1 = context.create_oscillator();
    osc1.connect(context.destination().id);
    osc1.frequency.set_value(to_q(1.0));
    osc1.start_at(0).unwrap();
    let mut osc2 = context.create_oscillator();
    osc2.connect(context.destination().id);
    osc2.frequency.set_value(to_q(2.0));
    osc2.start_at(0).unwrap();
    let out = context.start_rendering_sync();
    for n in 0..sample_rate {
        let t = n as f64 / sample_rate as f64;
        let expected = (2.0 * PI * t).sin() + (2.0 * PI * 2.0 * t).sin();
        let got = to_f(out[0][n]);
        assert!((got - expected).abs() <= 1e-5, "sample {}: {} vs {}", n, got, expected);
    }
}

#[test]
fn param_ramp_scenario() {
    // a gain ramping linearly from 0 to 1 over one second, fed by a
    // constant 1.0 source: output sample n is n / 44100
    let sample_rate: usize = 44_100;
    let mut context = OfflineAudioContext::new(2, sample_rate, sample_rate as u32);
    let mut source = ConstantSourceNode::new(
        &mut context.base,
        ConstantSourceOptions { offset: to_q(1.0) },
    );
    let mut gain = GainNode::new(
        &mut context.base,
        GainOptions {
            gain: to_q(1.0),
            channel_config: ChannelConfigOptions {
                count: 2,
                mode: ChannelCountMode::Max,
                interpretation: ChannelInterpretation::Speakers,
            },
        },
    );
    source.connect(gain.id);
    source.start_at(0).unwrap();
    gain.gain.set_value(0);
    gain.gain.linear_ramp_to_value_at_time(to_q(1.0), at_ticks(1.0, sample_rate as u32));
    gain.connect(context.destination().id);
    let out = context.start_rendering_sync();
    for n in 0..sample_rate {
        let expected = n as f64 / sample_rate as f64;
        let got = to_f(out[0][n]);
        assert!((got - expected).abs() <= 1e-6, "sample {}: {} vs {}", n, got, expected);
    }
}

#[test]
fn deterministic_output() {
    // two identical runs produce bitwise-identical sample streams
    let build_and_render = || {
        let sample_rate: usize = 44_100;
        let mut context = OfflineAudioContext::new(2, 4096, sample_rate as u32);
        let mut osc = context.create_oscillator();
        osc.connect(context.destination().id);
        osc.frequency.set_value(to_q(123.4));
        osc.start_at(at_ticks(0.01, sample_rate as u32)).unwrap();
        osc.stop_at(at_ticks(0.05, sample_rate as u32));
        context.start_rendering_sync()
    };
    let first = build_and_render();
    let second = build_and_render();
    assert_eq!(first, second);
}

#[test]
fn frame_counter_advances_by_quantum() {
    let mut context = OfflineAudioContext::new(1, 256, 44_100);
    assert_eq!(context.graph.frames, 0);
    context.graph.process_quantum(Vec::new());
    assert_eq!(context.graph.frames, 128);
    context.graph.process_quantum(Vec::new());
    assert_eq!(context.graph.frames, 256);
}

#[test]
fn starting_a_source_twice_is_invalid_state() {
    let mut context = OfflineAudioContext::new(1, 128, 44_100);
    let mut osc = context.create_oscillator();
    osc.connect(context.destination().id);
    osc.start_at(0).unwrap();
    let r = osc.start_at(100);
    assert!(r.is_err());
}
