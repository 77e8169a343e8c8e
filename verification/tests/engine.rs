//! Engine-level tests: detune, k-rate parameters, disconnection, source
//! lifetimes, saturation and the surround mixing coefficients.

use std::f64::consts::PI;

use web_audio_api::buffer2::{Alloc, AudioBuffer};
use web_audio_api::channel_config::ChannelInterpretation;
use web_audio_api::context::{
    ConstantSourceNode, ConstantSourceOptions, OfflineAudioContext, OscillatorNode,
    OscillatorOptions,
};
use web_audio_api::fixed::sat_add64;
use web_audio_api::param::{AudioParamDescriptor, AutomationRate, ParamTimeline, AudioParamEvent};
use web_audio_api::process::{ParamRenderer, RenderScope};
use web_audio_api::{RENDER_QUANTUM_SIZE, SAMPLE_ONE};

const QF: f64 = 1099511627776.0;
const TPQ: f64 = 4294967296.0;

fn into_q(x: f64) -> i64 {
    (x * QF).round() as i64
}

fn into_f(x: i64) -> f64 {
    x as f64 / QF
}

fn secs(seconds: f64, sample_rate: u32) -> u64 {
    (seconds * sample_rate as f64 * TPQ).round() as u64
}

#[test]
fn detune_of_twelve_hundred_cents_doubles_frequency() {
    let sample_rate: usize = 44_100;
    let mut context = OfflineAudioContext::new(1, sample_rate, sample_rate as u32);
    let mut osc = context.create_oscillator();
    osc.connect(context.destination().id);
    osc.frequency.set_value(into_q(1.0));
    osc.detune.set_value(into_q(1200.0));
    osc.start_at(0).unwrap();
    let out = context.start_rendering_sync();
    // one octave up: a 2 Hz sine
    for n in 0..sample_rate {
        let expected = (2.0 * PI * 2.0 * n as f64 / sample_rate as f64).sin();
        let got = into_f(out[0][n]);
        assert!((got - expected).abs() <= 1e-5, "sample {}: {} vs {}", n, got, expected);
    }
}

#[test]
fn k_rate_param_broadcasts_block_start_value() {
    let descriptor = AudioParamDescriptor {
        min_value: i64::MIN,
        max_value: i64::MAX,
        default_value: 0,
        automation_rate: AutomationRate::K,
    };
    let mut timeline = ParamTimeline::new(descriptor);
    timeline
        .insert_event(AudioParamEvent::LinearRampToValueAtTime {
            value: SAMPLE_ONE,
            time: 128 * 4294967296,
        })
        .unwrap();
    let renderer = ParamRenderer { timeline };
    let scope = RenderScope { current_time: 64 * 4294967296, sample_rate: 44100, frame: 64 };
    let silent_in = vec![0i64; RENDER_QUANTUM_SIZE];
    let block = renderer.process(&silent_in, &scope);
    // every sample of the block carries the value at the block start
    let expected = SAMPLE_ONE / 2;
    for &v in &block {
        assert_eq!(v, expected);
    }
}

#[test]
fn a_rate_param_moves_within_block() {
    let descriptor = AudioParamDescriptor {
        min_value: i64::MIN,
        max_value: i64::MAX,
        default_value: 0,
        automation_rate: AutomationRate::A,
    };
    let mut timeline = ParamTimeline::new(descriptor);
    timeline
        .insert_event(AudioParamEvent::LinearRampToValueAtTime {
            value: SAMPLE_ONE,
            time: 128 * 4294967296,
        })
        .unwrap();
    let renderer = ParamRenderer { timeline };
    let scope = RenderScope { current_time: 0, sample_rate: 44100, frame: 0 };
    let silent_in = vec![0i64; RENDER_QUANTUM_SIZE];
    let block = renderer.process(&silent_in, &scope);
    assert_eq!(block[0], 0);
    assert_eq!(block[64], SAMPLE_ONE / 2);
    assert!(block[127] > block[64]);
}

#[test]
fn disconnect_all_silences_the_output() {
    let sample_rate: usize = 44_100;
    let mut context = OfflineAudioContext::new(1, 1024, sample_rate as u32);
    let mut osc = context.create_oscillator();
    osc.connect(context.destination().id);
    osc.frequency.set_value(into_q(100.0));
    osc.start_at(0).unwrap();
    let osc_id = osc.id;
    context.base.disconnect(osc_id);
    let out = context.start_rendering_sync();
    for &s in &out[0] {
        assert_eq!(s, 0);
    }
}

#[test]
fn constant_source_stops_at_schedule() {
    let sample_rate: usize = 44_100;
    let mut context = OfflineAudioContext::new(1, 1024, sample_rate as u32);
    let mut source = ConstantSourceNode::new(
        &mut context.base,
        ConstantSourceOptions { offset: into_q(1.0) },
    );
    source.connect(context.destination().id);
    source.start_at(0).unwrap();
    source.stop_at(secs(512.0 / sample_rate as f64, sample_rate as u32));
    let out = context.start_rendering_sync();
    for n in 0..512 {
        assert_eq!(out[0][n], SAMPLE_ONE, "sample {}", n);
    }
    for n in 512..1024 {
        assert_eq!(out[0][n], 0, "sample {}", n);
    }
}

#[test]
fn saturating_addition_clamps() {
    assert_eq!(sat_add64(i64::MAX, 1), i64::MAX);
    assert_eq!(sat_add64(i64::MIN, -1), i64::MIN);
    assert_eq!(sat_add64(40, 2), 42);
    assert_eq!(sat_add64(i64::MAX, i64::MIN), -1);
}

#[test]
fn mix_thirty_two_channels_discrete() {
    let mut alloc = Alloc::with_capacity(64);
    let datas: Vec<Vec<i64>> = (0..32).map(|c| vec![c as i64; RENDER_QUANTUM_SIZE]).collect();
    let mut buf = AudioBuffer::from_datas(datas, &mut alloc);
    assert_eq!(buf.number_of_channels(), 32);
    buf.mix(1, ChannelInterpretation::Discrete, &mut alloc);
    assert_eq!(buf.number_of_channels(), 1);
    let out = buf.read_all(&alloc);
    assert_eq!(out[0], vec![0i64; RENDER_QUANTUM_SIZE]);
}

#[test]
fn mix_five_one_to_stereo_folds_centre_and_surround() {
    let mut alloc = Alloc::with_capacity(64);
    // L R C LFE SL SR as distinct constants, one unit = 2^40
    let values = [
        into_q(0.1),
        into_q(0.2),
        into_q(0.3),
        into_q(0.9),
        into_q(0.4),
        into_q(0.5),
    ];
    let datas: Vec<Vec<i64>> = values.iter().map(|&v| vec![v; RENDER_QUANTUM_SIZE]).collect();
    let mut buf = AudioBuffer::from_datas(datas, &mut alloc);
    buf.mix(2, ChannelInterpretation::Speakers, &mut alloc);
    let out = buf.read_all(&alloc);
    let sqrt_half = 0.5f64.sqrt();
    let left = 0.1 + sqrt_half * (0.3 + 0.4);
    let right = 0.2 + sqrt_half * (0.3 + 0.5);
    assert!((into_f(out[0][0]) - left).abs() < 1e-9);
    assert!((into_f(out[1][0]) - right).abs() < 1e-9);
}

#[test]
fn oscillator_without_start_is_silent() {
    let sample_rate: usize = 44_100;
    let mut context = OfflineAudioContext::new(1, 1024, sample_rate as u32);
    let osc = OscillatorNode::new(&mut context.base, OscillatorOptions::default());
    osc.connect(context.destination().id);
    // no start call: the scheduler stays inactive
    let out = context.start_rendering_sync();
    for &s in &out[0] {
        assert_eq!(s, 0);
    }
}
