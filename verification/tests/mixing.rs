//! Tests of channel mixing, buffer summation, and the destination node's
//! error behaviour.

use web_audio_api::buffer2::{Alloc, AudioBuffer};
use web_audio_api::channel_config::{ChannelCountMode, ChannelInterpretation};
use web_audio_api::destination::AudioDestinationNode;
use web_audio_api::fixed::{exp2_q, log2_q, sine_q};
use web_audio_api::AudioError;
use web_audio_api::{RENDER_QUANTUM_SIZE, SAMPLE_ONE};

fn block(value: i64) -> Vec<i64> {
    vec![value; RENDER_QUANTUM_SIZE]
}

#[test]
fn mix_discrete_round_trip_is_identity() {
    let mut alloc = Alloc::with_capacity(8);
    let datas = vec![block(3), block(5)];
    let mut buf = AudioBuffer::from_datas(datas, &mut alloc);
    // up to six channels and back down, discrete both ways
    buf.mix(6, ChannelInterpretation::Discrete, &mut alloc);
    assert_eq!(buf.number_of_channels(), 6);
    buf.mix(2, ChannelInterpretation::Discrete, &mut alloc);
    assert_eq!(buf.number_of_channels(), 2);
    let out = buf.read_all(&alloc);
    assert_eq!(out[0], block(3));
    assert_eq!(out[1], block(5));
}

#[test]
fn mix_discrete_upmix_fills_silence() {
    let mut alloc = Alloc::with_capacity(8);
    let mut buf = AudioBuffer::from_datas(vec![block(9)], &mut alloc);
    buf.mix(3, ChannelInterpretation::Discrete, &mut alloc);
    let out = buf.read_all(&alloc);
    assert_eq!(out[0], block(9));
    assert_eq!(out[1], block(0));
    assert_eq!(out[2], block(0));
}

#[test]
fn mix_speakers_mono_to_stereo_copies() {
    let mut alloc = Alloc::with_capacity(8);
    let mut buf = AudioBuffer::from_datas(vec![block(7)], &mut alloc);
    buf.mix(2, ChannelInterpretation::Speakers, &mut alloc);
    let out = buf.read_all(&alloc);
    assert_eq!(out[0], block(7));
    assert_eq!(out[1], block(7));
}

#[test]
fn mix_speakers_stereo_to_mono_averages() {
    let mut alloc = Alloc::with_capacity(8);
    let mut buf = AudioBuffer::from_datas(vec![block(4), block(6)], &mut alloc);
    buf.mix(1, ChannelInterpretation::Speakers, &mut alloc);
    let out = buf.read_all(&alloc);
    assert_eq!(out[0], block(5));
}

#[test]
fn mix_speakers_mono_to_five_one_uses_centre() {
    let mut alloc = Alloc::with_capacity(16);
    let mut buf = AudioBuffer::from_datas(vec![block(8)], &mut alloc);
    buf.mix(6, ChannelInterpretation::Speakers, &mut alloc);
    let out = buf.read_all(&alloc);
    assert_eq!(out[0], block(0));
    assert_eq!(out[1], block(0));
    assert_eq!(out[2], block(8));
    assert_eq!(out[3], block(0));
    assert_eq!(out[4], block(0));
    assert_eq!(out[5], block(0));
}

#[test]
fn buffer_add_sums_channelwise() {
    let mut alloc = Alloc::with_capacity(16);
    let a = AudioBuffer::from_datas(vec![block(SAMPLE_ONE), block(2 * SAMPLE_ONE)], &mut alloc);
    let b = AudioBuffer::from_datas(vec![block(10), block(20)], &mut alloc);
    let sum = a.add(&b, ChannelInterpretation::Speakers, &mut alloc);
    let out = sum.read_all(&alloc);
    assert_eq!(out[0], block(SAMPLE_ONE + 10));
    assert_eq!(out[1], block(2 * SAMPLE_ONE + 20));
}

#[test]
fn destination_offline_refuses_channel_change() {
    let mut dest = AudioDestinationNode::new(2, 2, true);
    assert_eq!(dest.set_channel_count(1), Err(AudioError::NotSupported));
    assert_eq!(dest.set_channel_count(2), Ok(()));
}

#[test]
fn destination_rejects_count_above_hardware() {
    let mut dest = AudioDestinationNode::new(2, 4, false);
    assert_eq!(dest.set_channel_count(5), Err(AudioError::IndexSize));
    assert_eq!(dest.set_channel_count(0), Err(AudioError::IndexSize));
    assert_eq!(dest.set_channel_count(3), Ok(()));
    assert_eq!(dest.max_channels_count(), 4);
}

#[test]
fn destination_count_mode_is_fixed() {
    let dest = AudioDestinationNode::new(2, 2, false);
    assert_eq!(
        dest.set_channel_count_mode(ChannelCountMode::Max),
        Err(AudioError::InvalidState)
    );
}

#[test]
fn fixed_point_functions_are_sane() {
    // 2^1 = 2 and 2^-1 = 0.5, within the cubic approximation's error
    let two = exp2_q(SAMPLE_ONE);
    assert!((two - 2 * SAMPLE_ONE).abs() < SAMPLE_ONE / 1000);
    let half = exp2_q(-SAMPLE_ONE);
    assert!((half - SAMPLE_ONE / 2).abs() < SAMPLE_ONE / 1000);
    // log2(8) = 3
    let three = log2_q(8 * SAMPLE_ONE);
    assert!((three - 3 * SAMPLE_ONE).abs() < SAMPLE_ONE / 1000);
    // sine at the quarter points of the cycle
    assert_eq!(sine_q(0), 0);
    let quarter = sine_q(1u64 << 62);
    assert!((quarter - SAMPLE_ONE).abs() < SAMPLE_ONE / 100000);
    let half_cycle = sine_q(1u64 << 63);
    assert!(half_cycle.abs() < SAMPLE_ONE / 100000);
    let three_quarters = sine_q((1u64 << 62) * 3);
    assert!((three_quarters + SAMPLE_ONE).abs() < SAMPLE_ONE / 100000);
}
