//! Tests of the oscillator node, rendered through the offline context.
//!
//! Expected waveforms are computed here in floating point and compared
//! against the engine's fixed-point output within the stated tolerances.

use std::f64::consts::PI;

use web_audio_api::context::{OfflineAudioContext, OscillatorNode, OscillatorOptions, PeriodicWave};
use web_audio_api::channel_config::{ChannelConfigOptions, ChannelCountMode, ChannelInterpretation};
use web_audio_api::oscillator::{poly_blep, OscillatorType};

const Q: f64 = 1099511627776.0;
const TPF: f64 = 4294967296.0;

fn q(x: f64) -> i64 {
    (x * Q).round() as i64
}

fn fq(x: i64) -> f64 {
    x as f64 / Q
}

fn ticks(seconds: f64, sample_rate: u32) -> u64 {
    (seconds * sample_rate as f64 * TPF).round() as u64
}

fn render_channel0(context: &mut OfflineAudioContext) -> Vec<f64> {
    let out = context.start_rendering_sync();
    out[0].iter().map(|&s| fq(s)).collect()
}

fn assert_close(result: &[f64], expected: &[f64], tol: f64) {
    assert_eq!(result.len(), expected.len());
    for (i, (r, e)) in result.iter().zip(expected.iter()).enumerate() {
        assert!(
            (r - e).abs() <= tol,
            "sample {} differs: {} vs {} (tol {})",
            i,
            r,
            e,
            tol
        );
    }
}


/// The engine's phase recurrence: one cycle is 2^64 steps, the per-frame
/// increment truncates `freq * 2^24 / sample_rate`.  Returned as an exact
/// `f64` cycle fraction for computing expected waveforms.
fn phase_frames(freq_q40: i64, sample_rate: usize, frames: usize) -> Vec<f64> {
    let incr = ((freq_q40 as u128) << 24) as u128 / sample_rate as u128;
    let incr = incr as u64;
    let mut phase: u64 = 0;
    let mut out = Vec::with_capacity(frames);
    for _ in 0..frames {
        out.push((phase >> 11) as f64 / 9007199254740992.0);
        phase = phase.wrapping_add(incr);
    }
    out
}

fn options_with(type_: OscillatorType, band_limited: bool) -> OscillatorOptions {
    OscillatorOptions {
        type_,
        frequency: q(440.0),
        detune: 0,
        periodic_wave: None,
        channel_config: ChannelConfigOptions {
            count: 2,
            mode: ChannelCountMode::Max,
            interpretation: ChannelInterpretation::Speakers,
        },
        band_limited,
    }
}

#[test]
fn assert_osc_default_build_with_factory_func() {
    let default_freq = 440.0;
    let default_det = 0.0;

    let mut context = OfflineAudioContext::new(2, 1, 44_100);

    let osc = context.create_oscillator();

    let freq = fq(osc.frequency.value());
    assert!((freq - default_freq).abs() <= 0.0);

    let det = fq(osc.detune.value());
    assert!((det - default_det).abs() <= 0.0);

    assert_eq!(osc.type_(), OscillatorType::Sine);
}

#[test]
fn assert_osc_default_build() {
    let default_freq = 440.0;
    let default_det = 0.0;

    let mut context = OfflineAudioContext::new(2, 1, 44_100);

    let osc = OscillatorNode::new(&mut context.base, OscillatorOptions::default());

    let freq = fq(osc.frequency.value());
    assert!((freq - default_freq).abs() <= 0.0);

    let det = fq(osc.detune.value());
    assert!((det - default_det).abs() <= 0.0);

    assert_eq!(osc.type_(), OscillatorType::Sine);
}

#[test]
fn set_type_to_custom_is_an_error() {
    let mut context = OfflineAudioContext::new(2, 1, 44_100);
    let mut osc = OscillatorNode::new(&mut context.base, OscillatorOptions::default());
    let r = osc.set_type(OscillatorType::Custom);
    assert!(r.is_err());
    assert_eq!(osc.type_(), OscillatorType::Sine);
}

fn sine_table(n: usize) -> Vec<i64> {
    (0..n).map(|k| q((2.0 * PI * k as f64 / n as f64).sin())).collect()
}

#[test]
fn type_is_custom_when_periodic_wave_is_some() {
    let mut context = OfflineAudioContext::new(2, 1, 44_100);

    let periodic_wave = PeriodicWave { table: sine_table(2048) };

    let options = OscillatorOptions {
        periodic_wave: Some(periodic_wave),
        ..OscillatorOptions::default()
    };

    let osc = OscillatorNode::new(&mut context.base, options);

    assert_eq!(osc.type_(), OscillatorType::Custom);
}

#[test]
fn set_type_is_ignored_when_periodic_wave_is_some() {
    let mut context = OfflineAudioContext::new(2, 1, 44_100);

    let periodic_wave = PeriodicWave { table: sine_table(2048) };

    let options = OscillatorOptions {
        periodic_wave: Some(periodic_wave),
        ..OscillatorOptions::default()
    };

    let mut osc = OscillatorNode::new(&mut context.base, options);

    let r = osc.set_type(OscillatorType::Sine);
    assert!(r.is_ok());

    assert_eq!(osc.type_(), OscillatorType::Custom);
}

#[test]
fn sine_raw() {
    // 1, 10, 100, 1_000, 10_000 Hz
    for i in 0..5 {
        let freq = 10f64.powi(i);
        let sample_rate: usize = 44_100;

        let mut context = OfflineAudioContext::new(1, sample_rate, sample_rate as u32);

        let mut osc = context.create_oscillator();
        osc.connect(context.destination().id);
        osc.frequency.set_value(q(freq));
        osc.start_at(0).unwrap();

        let result = render_channel0(&mut context);

        let mut expected = Vec::<f64>::with_capacity(sample_rate);
        let mut phase: f64 = 0.;
        let phase_incr = freq / sample_rate as f64;

        for _i in 0..sample_rate {
            let sample = (phase * 2. * PI).sin();

            expected.push(sample);

            phase += phase_incr;
            if phase >= 1. {
                phase -= 1.;
            }
        }

        assert_close(&result, &expected, 1e-5);
    }
}

#[test]
fn sine_raw_exact_phase() {
    // 1, 10, 100, 1_000, 10_000 Hz
    for i in 0..5 {
        let freq = 10f64.powi(i);
        let sample_rate: usize = 44_100;

        let mut context = OfflineAudioContext::new(1, sample_rate, sample_rate as u32);

        let mut osc = context.create_oscillator();
        osc.connect(context.destination().id);
        osc.frequency.set_value(q(freq));
        osc.start_at(0).unwrap();

        let result = render_channel0(&mut context);
        let mut expected = Vec::<f64>::with_capacity(sample_rate);

        for i in 0..sample_rate {
            let phase = freq * i as f64 / sample_rate as f64;
            let sample = (phase * 2. * PI).sin();
            expected.push(sample);
        }

        assert_close(&result, &expected, 1e-5);
    }
}

#[test]
fn square_raw() {
    // 1, 10, 100, 1_000, 10_000 Hz
    for i in 0..5 {
        let freq = 10f64.powi(i);
        let sample_rate: usize = 44_100;

        let mut context = OfflineAudioContext::new(1, sample_rate, sample_rate as u32);

        let mut osc = OscillatorNode::new(
            &mut context.base,
            options_with(OscillatorType::Square, false),
        );
        osc.connect(context.destination().id);
        osc.frequency.set_value(q(freq));
        osc.start_at(0).unwrap();

        let result = render_channel0(&mut context);

        // 0.5 belongs to the second half of the waveform
        let expected: Vec<f64> = phase_frames(q(freq), sample_rate, sample_rate)
            .into_iter()
            .map(|phase| if phase < 0.5 { 1. } else { -1. })
            .collect();

        assert_close(&result, &expected, 1e-10);
    }
}

#[test]
fn triangle_raw() {
    // 1, 10, 100, 1_000, 10_000 Hz
    for i in 0..5 {
        let freq = 10f64.powi(i);
        let sample_rate: usize = 44_100;

        let mut context = OfflineAudioContext::new(1, sample_rate, sample_rate as u32);

        let mut osc = OscillatorNode::new(
            &mut context.base,
            options_with(OscillatorType::Triangle, false),
        );
        osc.connect(context.destination().id);
        osc.frequency.set_value(q(freq));
        osc.start_at(0).unwrap();

        let result = render_channel0(&mut context);

        // triangle starts at 0.
        // [0., 1.]  between [0, 0.25]
        // [1., -1.] between [0.25, 0.75]
        // [-1., 0.] between [0.75, 1]
        let expected: Vec<f64> = phase_frames(q(freq), sample_rate, sample_rate)
            .into_iter()
            .map(|phase| {
                let mut sample = -4. * phase + 2.;
                if sample > 1. {
                    sample = 2. - sample;
                } else if sample < -1. {
                    sample = -2. - sample;
                }
                sample
            })
            .collect();

        assert_close(&result, &expected, 1e-10);
    }
}

#[test]
fn sawtooth_raw() {
    // 1, 10, 100, 1_000, 10_000 Hz
    for i in 0..5 {
        let freq = 10f64.powi(i);
        let sample_rate: usize = 44_100;

        let mut context = OfflineAudioContext::new(1, sample_rate, sample_rate as u32);

        let mut osc = OscillatorNode::new(
            &mut context.base,
            options_with(OscillatorType::Sawtooth, false),
        );
        osc.connect(context.destination().id);
        osc.frequency.set_value(q(freq));
        osc.start_at(0).unwrap();

        let result = render_channel0(&mut context);

        // sawtooth starts at 0.
        // [0, 1] between [0, 0.5]
        // [-1, 0] between [0.5, 1]
        let expected: Vec<f64> = phase_frames(q(freq), sample_rate, sample_rate)
            .into_iter()
            .map(|phase| {
                let mut offset_phase = phase + 0.5;
                if offset_phase >= 1. {
                    offset_phase -= 1.;
                }
                2. * offset_phase - 1.
            })
            .collect();

        assert_close(&result, &expected, 1e-10);
    }
}

#[test]
// this one should output exactly the same thing as sine_raw
fn periodic_wave_1f() {
    // 1, 10, 100, 1_000, 10_000 Hz
    for i in 0..5 {
        let freq = 10f64.powi(i);
        let sample_rate: usize = 44_100;

        let mut context = OfflineAudioContext::new(1, sample_rate, sample_rate as u32);

        // one cycle of a pure sine: the fundamental in the imaginary part
        let periodic_wave = PeriodicWave { table: sine_table(2048) };

        let mut osc = context.create_oscillator();
        osc.connect(context.destination().id);
        osc.set_periodic_wave(periodic_wave);
        osc.frequency.set_value(q(freq));
        let _ = osc.set_type(OscillatorType::Sawtooth);
        osc.start_at(0).unwrap();

        let result = render_channel0(&mut context);

        let mut expected = Vec::<f64>::with_capacity(sample_rate);
        let mut phase: f64 = 0.;
        let phase_incr = freq / sample_rate as f64;

        for _i in 0..sample_rate {
            let sample = (phase * 2. * PI).sin();

            expected.push(sample);

            phase += phase_incr;
            if phase >= 1. {
                phase -= 1.;
            }
        }

        assert_close(&result, &expected, 1e-5);
    }
}

#[test]
fn periodic_wave_2f() {
    // 1, 10, 100, 1_000, 10_000 Hz
    for i in 0..5 {
        let freq = 10f64.powi(i);
        let sample_rate: usize = 44_100;

        let mut context = OfflineAudioContext::new(1, sample_rate, sample_rate as u32);

        // half-amplitude fundamental plus half-amplitude second harmonic
        let n = 2048;
        let table: Vec<i64> = (0..n)
            .map(|k| {
                let x = k as f64 / n as f64;
                q(0.5 * (2.0 * PI * x).sin() + 0.5 * (4.0 * PI * x).sin())
            })
            .collect();
        let periodic_wave = PeriodicWave { table };

        let mut osc = context.create_oscillator();
        osc.connect(context.destination().id);
        osc.set_periodic_wave(periodic_wave);
        osc.frequency.set_value(q(freq));
        let _ = osc.set_type(OscillatorType::Sawtooth);
        osc.start_at(0).unwrap();

        let result = render_channel0(&mut context);

        let mut expected = Vec::<f64>::with_capacity(sample_rate);
        let mut phase: f64 = 0.;
        let phase_incr = freq / sample_rate as f64;

        for _i in 0..sample_rate {
            let mut sample = 0.;
            sample += 0.5 * (1. * phase * 2. * PI).sin();
            sample += 0.5 * (2. * phase * 2. * PI).sin();

            expected.push(sample);

            phase += phase_incr;
            if phase >= 1. {
                phase -= 1.;
            }
        }

        assert_close(&result, &expected, 1e-5);
    }
}

#[test]
fn polyblep_isolated() {
    // square
    {
        let mut signal = [1., 1., 1., 1., -1., -1., -1., -1.];
        let len = signal.len() as f64;
        let dt = 1. / len;

        for (index, s) in signal.iter_mut().enumerate() {
            let phase = index as f64 / len;

            *s += fq(poly_blep(q(phase), q(dt)));
            *s -= fq(poly_blep(q((phase + 0.5) % 1.), q(dt)));
        }

        let expected = [0., 1., 1., 1., 0., -1., -1., -1.];

        for (r, e) in signal.iter().zip(expected.iter()) {
            assert!((r - e).abs() <= 0.0, "{} vs {}", r, e);
        }
    }

    // sawtooth
    {
        let mut signal = [0., 0.25, 0.75, 1., -1., -0.75, -0.5, -0.25];
        let len = signal.len() as f64;
        let dt = 1. / len;

        for (index, s) in signal.iter_mut().enumerate() {
            let phase = index as f64 / len;
            *s -= fq(poly_blep(q((phase + 0.5) % 1.), q(dt)));
        }

        let expected = [0., 0.25, 0.75, 1., 0., -0.75, -0.5, -0.25];
        for (r, e) in signal.iter().zip(expected.iter()) {
            assert!((r - e).abs() <= 0.0, "{} vs {}", r, e);
        }
    }
}

#[test]
fn osc_sub_quantum_start() {
    let freq = 1.25;
    let sample_rate: usize = 44_100;

    let mut context = OfflineAudioContext::new(1, sample_rate, sample_rate as u32);
    let mut osc = context.create_oscillator();
    osc.connect(context.destination().id);
    osc.frequency.set_value(q(freq));
    osc.start_at(ticks(2. / sample_rate as f64, sample_rate as u32)).unwrap();

    let result = render_channel0(&mut context);

    let mut expected = Vec::<f64>::with_capacity(sample_rate);
    let mut phase: f64 = 0.;
    let phase_incr = freq / sample_rate as f64;

    expected.push(0.);
    expected.push(0.);

    for _i in 2..sample_rate {
        let sample = (phase * 2. * PI).sin();
        phase += phase_incr;
        expected.push(sample);
    }

    assert_close(&result, &expected, 1e-5);
}

#[test]
fn osc_sub_sample_start() {
    let freq = 1.;
    let sample_rate: usize = 96000;

    let mut context = OfflineAudioContext::new(1, sample_rate, sample_rate as u32);
    let mut osc = context.create_oscillator();
    osc.connect(context.destination().id);
    osc.frequency.set_value(q(freq));
    // start between second and third sample
    osc.start_at(ticks(1.3 / sample_rate as f64, sample_rate as u32)).unwrap();

    let result = render_channel0(&mut context);

    let mut expected = Vec::<f64>::with_capacity(sample_rate);
    let phase_incr = freq / sample_rate as f64;
    // on first computed sample, phase is 0.7 (e.g. 2. - 1.3) * phase_incr
    let mut phase: f64 = 0.7 * phase_incr;

    expected.push(0.);
    expected.push(0.);

    for _i in 2..sample_rate {
        let sample = (phase * 2. * PI).sin();
        phase += phase_incr;
        expected.push(sample);
    }

    assert_close(&result, &expected, 1e-5);
}

#[test]
fn osc_sub_quantum_stop() {
    let freq = 2345.6;
    let sample_rate: usize = 44_100;

    let mut context = OfflineAudioContext::new(1, sample_rate, sample_rate as u32);
    let mut osc = context.create_oscillator();
    osc.connect(context.destination().id);
    osc.frequency.set_value(q(freq));
    osc.start_at(0).unwrap();
    osc.stop_at(ticks(6. / sample_rate as f64, sample_rate as u32));

    let result = render_channel0(&mut context);

    let mut expected = Vec::<f64>::with_capacity(sample_rate);
    let mut phase: f64 = 0.;
    let phase_incr = freq / sample_rate as f64;

    for i in 0..sample_rate {
        if i < 6 {
            let sample = (phase * 2. * PI).sin();
            phase += phase_incr;
            expected.push(sample);
        } else {
            expected.push(0.);
        }
    }

    assert_close(&result, &expected, 1e-5);
}

#[test]
fn osc_sub_sample_stop() {
    let freq = 8910.1;
    let sample_rate: usize = 44_100;

    let mut context = OfflineAudioContext::new(1, sample_rate, sample_rate as u32);
    let mut osc = context.create_oscillator();
    osc.connect(context.destination().id);
    osc.frequency.set_value(q(freq));
    osc.start_at(0).unwrap();
    osc.stop_at(ticks(19.4 / sample_rate as f64, sample_rate as u32));

    let result = render_channel0(&mut context);

    let mut expected = Vec::<f64>::with_capacity(sample_rate);
    let mut phase: f64 = 0.;
    let phase_incr = freq / sample_rate as f64;

    for i in 0..sample_rate {
        if i < 20 {
            let sample = (phase * 2. * PI).sin();
            phase += phase_incr;
            expected.push(sample);
        } else {
            expected.push(0.);
        }
    }

    assert_close(&result, &expected, 1e-5);
}

#[test]
fn osc_schedule_in_past() {
    let freq = 8910.1;
    let sample_rate: usize = 44_100;

    let mut context = OfflineAudioContext::new(1, sample_rate, sample_rate as u32);
    let mut osc = context.create_oscillator();
    osc.connect(context.destination().id);
    osc.frequency.set_value(q(freq));
    // a start time in the past (time zero is never in the future) plays
    // immediately
    osc.start_at(0).unwrap();

    let result = render_channel0(&mut context);

    let mut expected = Vec::<f64>::with_capacity(sample_rate);
    let mut phase: f64 = 0.;
    let phase_incr = freq / sample_rate as f64;

    for _i in 0..sample_rate {
        let sample = (phase * 2. * PI).sin();
        expected.push(sample);
        phase += phase_incr;
    }

    assert_close(&result, &expected, 1e-5);
}
