//! Audio processing that runs on the render thread: the per-node
//! processors, the processor dispatch, and the computed parameter values
//! handed to processors.

use vstd::prelude::*;

verus! {

use crate::{RENDER_QUANTUM_SIZE, TICKS_PER_FRAME};
use crate::buffer2::{zero_seq, zero_quantum};
use crate::fixed::{mul_q_spec, mul_q, sat_add_spec, sat_add64};
use crate::param::{ParamTimeline, AutomationRate, value_at_spec, clamp_spec};
use crate::oscillator::OscillatorRenderer;
use crate::destination::DestinationRenderer;
use crate::control::Scheduler;

/// The timing context of one rendered quantum.
#[derive(Clone, Copy, Debug, PartialEq, Eq, Structural)]
pub struct RenderScope {
    /// Time of the quantum's first frame, in ticks.
    pub current_time: u64,
    /// Context sample rate in Hz.
    pub sample_rate: u32,
    /// Number of frames rendered so far.
    pub frame: u64,
}

/// Computed parameter values for one quantum, keyed by the parameter's node
/// id.  A parameter that is absent reads as a silent block.
pub struct AudioParamValues {
    /// Pairs of parameter node id and its computed block.
    values: Vec<(u64, Vec<i64>)>,
}

/// The block stored for `id`, or the zero block when absent.
pub open spec fn lookup_spec(vs: Seq<(u64, Vec<i64>)>, id: u64) -> Seq<i64>
    decreases vs.len(),
{
    if vs.len() == 0 {
        zero_seq()
    } else if vs[0].0 == id {
        vs[0].1@
    } else {
        lookup_spec(vs.drop_first(), id)
    }
}

impl AudioParamValues {
    /// The stored pairs.
    pub closed spec fn values_spec(self) -> Seq<(u64, Vec<i64>)> {
        self.values@
    }

    /// The computed block of parameter `id`.
    pub open spec fn block_of(self, id: u64) -> Seq<i64> {
        lookup_spec(self.values_spec(), id)
    }

    /// Wrap a list of computed parameter blocks.
    pub fn from(values: Vec<(u64, Vec<i64>)>) -> (r: AudioParamValues)
        ensures
            r.values_spec() == values@,
    {
        AudioParamValues { values }
    }

    /// The computed block for the given parameter, copied out; a missing
    /// parameter reads as silence.
    pub fn get_raw(&self, index: u64) -> (r: Vec<i64>)
        ensures
            r@ == self.block_of(index),
    {
        let mut i: usize = 0;
        proof {
            assert(self.values@.skip(0) =~= self.values@);
        }
        while i < self.values.len()
            invariant
                i <= self.values@.len(),
                lookup_spec(self.values@, index) == lookup_spec(
                    self.values@.skip(i as int),
                    index,
                ),
            decreases self.values@.len() - i,
        {
            proof {
                assert(self.values@.skip(i as int)[0] == self.values@[i as int]);
                assert(self.values@.skip(i as int).drop_first() =~= self.values@.skip(i + 1));
            }
            if self.values[i].0 == index {
                return copy_block(&self.values[i].1);
            }
            i += 1;
        }
        proof {
            assert(self.values@.skip(i as int) =~= Seq::<(u64, Vec<i64>)>::empty());
        }
        zero_quantum()
    }

    /// Same as `get_raw`: the computed values for the given parameter, one
    /// per frame.
    pub fn get(&self, index: u64) -> (r: Vec<i64>)
        ensures
            r@ == self.block_of(index),
    {
        self.get_raw(index)
    }
}

/// Copy a block.
fn copy_block(a: &Vec<i64>) -> (v: Vec<i64>)
    ensures
        v@ == a@,
{
    let n = a.len();
    let mut v: Vec<i64> = Vec::new();
    let mut i: usize = 0;
    while i < n
        invariant
            i <= n,
            n == a@.len(),
            v@ == a@.take(i as int),
        decreases n - i,
    {
        v.push(a[i]);
        proof {
            assert(v@ == a@.take(i + 1));
        }
        i += 1;
    }
    proof {
        assert(a@.take(n as int) == a@);
    }
    v
}

/// Renderer of a gain node: multiplies its input by the gain parameter,
/// sample by sample.
pub struct GainRenderer {
    /// Node id of the gain parameter.
    pub gain: u64,
}

/// The gain output for one input channel.
pub open spec fn gain_channel_spec(input: Seq<i64>, gains: Seq<i64>) -> Seq<i64> {
    Seq::new(input.len(), |i: int| mul_q_spec(input[i] as int, gains[i] as int) as i64)
}

impl GainRenderer {
    /// Scale every input channel by the per-frame gain values.
    pub fn process(&self, inputs: &Vec<Vec<i64>>, gains: &Vec<i64>) -> (r: Vec<Vec<i64>>)
        requires
            gains@.len() == RENDER_QUANTUM_SIZE,
            forall|c: int|
                0 <= c < inputs@.len() ==> (#[trigger] inputs@[c]@).len() == RENDER_QUANTUM_SIZE,
        ensures
            r@.len() == inputs@.len(),
            forall|c: int|
                0 <= c < inputs@.len() ==> (#[trigger] r@[c]@) == gain_channel_spec(
                    inputs@[c]@,
                    gains@,
                ),
    {
        let mut r: Vec<Vec<i64>> = Vec::new();
        let mut c: usize = 0;
        while c < inputs.len()
            invariant
                c <= inputs@.len(),
                gains@.len() == RENDER_QUANTUM_SIZE,
                forall|k: int|
                    0 <= k < inputs@.len() ==> (#[trigger] inputs@[k]@).len()
                        == RENDER_QUANTUM_SIZE,
                r@.len() == c,
                forall|k: int|
                    0 <= k < c ==> (#[trigger] r@[k]@) == gain_channel_spec(inputs@[k]@, gains@),
            decreases inputs@.len() - c,
        {
            let input = &inputs[c];
            let n = input.len();
            let mut ch: Vec<i64> = Vec::new();
            let mut i: usize = 0;
            while i < n
                invariant
                    i <= n,
                    n == input@.len(),
                    n == RENDER_QUANTUM_SIZE,
                    gains@.len() == RENDER_QUANTUM_SIZE,
                    ch@ == gain_channel_spec(input@, gains@).take(i as int),
                decreases n - i,
            {
                ch.push(mul_q(input[i], gains[i]));
                proof {
                    assert(ch@ == gain_channel_spec(input@, gains@).take(i + 1));
                }
                i += 1;
            }
            proof {
                assert(gain_channel_spec(input@, gains@).take(n as int) == gain_channel_spec(
                    input@,
                    gains@,
                ));
            }
            r.push(ch);
            c += 1;
        }
        r
    }
}

/// Renderer of a constant source node: emits the offset parameter while
/// scheduled, zero otherwise.
pub struct ConstantRenderer {
    /// Node id of the offset parameter.
    pub offset: u64,
    /// Start and stop times.
    pub scheduler: Scheduler,
}

/// One output sample of a constant source.
pub open spec fn constant_sample_spec(offset: i64, t: u64, start: u64, stop: u64) -> i64 {
    if start <= t && t < stop {
        offset
    } else {
        0i64
    }
}

impl ConstantRenderer {
    /// Emit the offset values between the scheduled start and stop; the
    /// renderer reports itself finished once the whole block lies past the
    /// stop time.
    pub fn process(&self, offsets: &Vec<i64>, scope: &RenderScope) -> (r: (Vec<i64>, bool))
        requires
            offsets@.len() == RENDER_QUANTUM_SIZE,
            scope.current_time <= u64::MAX - 129 * TICKS_PER_FRAME,
        ensures
            r.0@.len() == RENDER_QUANTUM_SIZE,
            forall|i: int|
                0 <= i < RENDER_QUANTUM_SIZE ==> (#[trigger] r.0@[i]) == constant_sample_spec(
                    offsets@[i],
                    (scope.current_time + i * TICKS_PER_FRAME) as u64,
                    self.scheduler.start_time(),
                    self.scheduler.stop_time(),
                ),
            r.1 == !(self.scheduler.stop_time() < scope.current_time),
    {
        let start = self.scheduler.get_start_at();
        let stop = self.scheduler.get_stop_at();
        let retain = !(stop < scope.current_time);
        let mut out: Vec<i64> = Vec::new();
        let mut t: u64 = scope.current_time;
        let mut i: usize = 0;
        while i < RENDER_QUANTUM_SIZE
            invariant
                i <= RENDER_QUANTUM_SIZE,
                offsets@.len() == RENDER_QUANTUM_SIZE,
                scope.current_time <= u64::MAX - 129 * TICKS_PER_FRAME,
                t == scope.current_time + i * TICKS_PER_FRAME,
                start == self.scheduler.start_time(),
                stop == self.scheduler.stop_time(),
                out@.len() == i,
                forall|k: int|
                    0 <= k < i ==> (#[trigger] out@[k]) == constant_sample_spec(
                        offsets@[k],
                        (scope.current_time + k * TICKS_PER_FRAME) as u64,
                        self.scheduler.start_time(),
                        self.scheduler.stop_time(),
                    ),
            decreases RENDER_QUANTUM_SIZE - i,
        {
            let s: i64 = if start <= t && t < stop {
                offsets[i]
            } else {
                0
            };
            out.push(s);
            proof {
                assert(t as int == scope.current_time + (i as int) * TICKS_PER_FRAME);
                assert(((scope.current_time + (i as int) * TICKS_PER_FRAME) as u64) == t);
                assert(s == constant_sample_spec(
                    offsets@[i as int],
                    t,
                    self.scheduler.start_time(),
                    self.scheduler.stop_time(),
                ));
                assert(out@[i as int] == constant_sample_spec(
                    offsets@[i as int],
                    (scope.current_time + (i as int) * TICKS_PER_FRAME) as u64,
                    self.scheduler.start_time(),
                    self.scheduler.stop_time(),
                ));
            }
            t = t + TICKS_PER_FRAME;
            i += 1;
        }
        (out, retain)
    }
}

/// Renderer of a parameter node: samples its timeline, adds any audio
/// routed into the parameter, and clamps to the parameter range.
pub struct ParamRenderer {
    /// The automation timeline and descriptor.
    pub timeline: ParamTimeline,
}

/// One computed parameter sample: timeline value plus audio input, clamped.
pub open spec fn param_sample_spec(
    timeline: ParamTimeline,
    audio: Seq<i64>,
    t0: u64,
    i: int,
) -> i64 {
    let t = if timeline.descriptor.automation_rate == AutomationRate::K {
        t0
    } else {
        (t0 + i * TICKS_PER_FRAME) as u64
    };
    let raw = value_at_spec(timeline.events_spec(), timeline.descriptor.default_value, t);
    clamp_spec(
        sat_add_spec(raw, audio[i] as int),
        timeline.descriptor.min_value,
        timeline.descriptor.max_value,
    ) as i64
}

impl ParamRenderer {
    /// Compute one quantum of parameter values.
    pub fn process(&self, audio_in: &Vec<i64>, scope: &RenderScope) -> (r: Vec<i64>)
        requires
            self.timeline.wf(),
            audio_in@.len() == RENDER_QUANTUM_SIZE,
            scope.current_time <= u64::MAX - 129 * TICKS_PER_FRAME,
        ensures
            r@.len() == RENDER_QUANTUM_SIZE,
            forall|i: int|
                0 <= i < RENDER_QUANTUM_SIZE ==> (#[trigger] r@[i]) == param_sample_spec(
                    self.timeline,
                    audio_in@,
                    scope.current_time,
                    i,
                ),
    {
        let lo = self.timeline.descriptor.min_value;
        let hi = self.timeline.descriptor.max_value;
        let k_rate = matches!(self.timeline.descriptor.automation_rate, AutomationRate::K);
        let mut out: Vec<i64> = Vec::new();
        let mut t: u64 = scope.current_time;
        let mut i: usize = 0;
        while i < RENDER_QUANTUM_SIZE
            invariant
                i <= RENDER_QUANTUM_SIZE,
                self.timeline.wf(),
                audio_in@.len() == RENDER_QUANTUM_SIZE,
                scope.current_time <= u64::MAX - 129 * TICKS_PER_FRAME,
                t == scope.current_time + i * TICKS_PER_FRAME,
                lo == self.timeline.descriptor.min_value,
                hi == self.timeline.descriptor.max_value,
                k_rate == (self.timeline.descriptor.automation_rate == AutomationRate::K),
                out@.len() == i,
                forall|k: int|
                    0 <= k < i ==> (#[trigger] out@[k]) == param_sample_spec(
                        self.timeline,
                        audio_in@,
                        scope.current_time,
                        k,
                    ),
            decreases RENDER_QUANTUM_SIZE - i,
        {
            let sample_t: u64 = if k_rate {
                scope.current_time
            } else {
                t
            };
            let raw = self.timeline.value_at(sample_t);
            let summed = sat_add64(raw, audio_in[i]);
            let clamped: i64 = if summed < lo {
                lo
            } else if summed > hi {
                hi
            } else {
                summed
            };
            out.push(clamped);
            t = t + TICKS_PER_FRAME;
            i += 1;
        }
        out
    }
}

/// Renderer standing in for the audio listener: emits silence and stays
/// alive so that its parameters are rendered each quantum.
pub struct ListenerRenderer {}

/// A node's render-side processor.
pub enum Processor {
    /// The destination sink.
    Destination(DestinationRenderer),
    /// A periodic-waveform source.
    Oscillator(OscillatorRenderer),
    /// A gain stage.
    Gain(GainRenderer),
    /// A constant source.
    Constant(ConstantRenderer),
    /// A parameter timeline.
    Param(ParamRenderer),
    /// The audio listener.
    Listener(ListenerRenderer),
}

impl Processor {
    /// The parameter node ids this processor reads.
    pub fn param_ids(&self) -> (r: Vec<u64>)
        ensures
            r@.len() <= 2,
    {
        let mut r: Vec<u64> = Vec::new();
        match self {
            Processor::Oscillator(o) => {
                r.push(o.frequency);
                r.push(o.detune);
            },
            Processor::Gain(g) => {
                r.push(g.gain);
            },
            Processor::Constant(c) => {
                r.push(c.offset);
            },
            _ => {},
        }
        r
    }
}

} // verus!
