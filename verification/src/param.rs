//! Per-parameter automation timelines.
//!
//! A timeline is a time-ordered list of automation events.  Sampling is
//! stateless: the value at a time `t` is a function of the event list, the
//! parameter's default value and `t` alone, so a timeline can be evaluated
//! for any quantum without carrying hidden state between quanta.
//!
//! Simplifications relative to the full Web Audio curves are deliberate and
//! documented on `value_at_spec`: an event following a `SetTargetAtTime`
//! anchors at the target value, and an exponential ramp from a non-positive
//! value holds that value.

use vstd::prelude::*;

verus! {

use crate::{AudioError, SAMPLE_ONE, RENDER_QUANTUM_SIZE, TICKS_PER_FRAME};
use crate::fixed::{
    sat_i64_spec, sat_add_spec, sat_sub_spec, mul_q_spec, div_q_spec, pow_q_spec, exp2_q_spec,
    sat_add64, sat_sub64, mul_q, div_q, pow_q, exp2_q, sat_from_parts,
};

/// `round(log2(e) * 2^40)`.
pub const LOG2E_Q40: i64 = 1586259970594;

/// Whether a parameter is sampled per frame or once per quantum.
#[derive(Clone, Copy, Debug, PartialEq, Eq, Structural)]
pub enum AutomationRate {
    /// Per-frame sampling.
    A,
    /// Once per quantum, broadcast over the block.
    K,
}

/// Static description of a parameter: range, default and rate.
#[derive(Clone, Copy, Debug, PartialEq, Eq, Structural)]
pub struct AudioParamDescriptor {
    /// Smallest allowed value (Q23.40).
    pub min_value: i64,
    /// Largest allowed value (Q23.40).
    pub max_value: i64,
    /// Value before any automation (Q23.40).
    pub default_value: i64,
    /// Sampling rate of the parameter.
    pub automation_rate: AutomationRate,
}

impl AudioParamDescriptor {
    /// A descriptor is sane when its range is non-empty.
    pub open spec fn wf(self) -> bool {
        self.min_value <= self.max_value
    }
}

/// An automation event, with times in engine ticks and values in Q23.40.
#[derive(Clone, Debug)]
pub enum AudioParamEvent {
    /// Jump to `value` at `time`.
    SetValueAtTime { value: i64, time: u64 },
    /// Ramp linearly from the previous anchor to `value` at `time`.
    LinearRampToValueAtTime { value: i64, time: u64 },
    /// Ramp exponentially from the previous anchor to `value` at `time`;
    /// `value` must be positive.
    ExponentialRampToValueAtTime { value: i64, time: u64 },
    /// Decay exponentially from the previous anchor towards `value`,
    /// starting at `time`, with positive time constant `time_constant`.
    SetTargetAtTime { value: i64, time: u64, time_constant: u64 },
    /// Follow `curve` by linear interpolation over `duration` ticks starting
    /// at `time`; the curve needs at least two points and a positive
    /// duration.
    SetValueCurveAtTime { curve: Vec<i64>, time: u64, duration: u64 },
    /// Remove every event scheduled at or after `time`.
    CancelScheduledValues { time: u64 },
    /// Remove every event scheduled at or after `time`, holding the value
    /// the timeline would have had at `time`.
    CancelAndHoldAtTime { time: u64 },
}

/// The scheduled time of an event.
pub open spec fn event_time(e: AudioParamEvent) -> u64 {
    match e {
        AudioParamEvent::SetValueAtTime { time, .. } => time,
        AudioParamEvent::LinearRampToValueAtTime { time, .. } => time,
        AudioParamEvent::ExponentialRampToValueAtTime { time, .. } => time,
        AudioParamEvent::SetTargetAtTime { time, .. } => time,
        AudioParamEvent::SetValueCurveAtTime { time, .. } => time,
        AudioParamEvent::CancelScheduledValues { time } => time,
        AudioParamEvent::CancelAndHoldAtTime { time } => time,
    }
}

/// Whether an event may enter a timeline.
pub open spec fn event_valid(e: AudioParamEvent) -> bool {
    match e {
        AudioParamEvent::SetValueAtTime { .. } => true,
        AudioParamEvent::LinearRampToValueAtTime { .. } => true,
        AudioParamEvent::ExponentialRampToValueAtTime { value, .. } => value > 0,
        AudioParamEvent::SetTargetAtTime { time_constant, .. } => time_constant > 0,
        AudioParamEvent::SetValueCurveAtTime { curve, duration, .. } => curve@.len() >= 2
            && duration > 0,
        AudioParamEvent::CancelScheduledValues { .. } => true,
        AudioParamEvent::CancelAndHoldAtTime { .. } => true,
    }
}

/// Events are kept in ascending time order.
pub open spec fn events_sorted(events: Seq<AudioParamEvent>) -> bool {
    forall|k1: int, k2: int|
        0 <= k1 < k2 < events.len() ==> event_time(#[trigger] events[k1]) <= event_time(
            #[trigger] events[k2],
        )
}

/// Index of the last event at or before `t`, or -1.
pub open spec fn last_le(events: Seq<AudioParamEvent>, t: u64) -> int
    decreases events.len(),
{
    if events.len() == 0 {
        -1
    } else if event_time(events.last()) <= t {
        events.len() - 1
    } else {
        last_le(events.drop_last(), t)
    }
}

/// The fraction `num/den` in Q23.40, saturated; one when the denominator is
/// not positive.
pub open spec fn ratio_q_spec(num: int, den: int) -> int {
    if den <= 0 {
        SAMPLE_ONE as int
    } else {
        sat_i64_spec((num * (SAMPLE_ONE as int)) / den)
    }
}

/// The value a timeline anchors at, right after event `i` took full effect
/// (`i == -1` stands for the state before any event).
pub open spec fn endpoint(events: Seq<AudioParamEvent>, dflt: i64, i: int) -> int {
    if i < 0 || i >= events.len() {
        dflt as int
    } else {
        match events[i] {
            AudioParamEvent::SetValueAtTime { value, .. } => value as int,
            AudioParamEvent::LinearRampToValueAtTime { value, .. } => value as int,
            AudioParamEvent::ExponentialRampToValueAtTime { value, .. } => value as int,
            AudioParamEvent::SetTargetAtTime { value, .. } => value as int,
            AudioParamEvent::SetValueCurveAtTime { curve, .. } => if curve@.len() > 0 {
                curve@.last() as int
            } else {
                0
            },
            AudioParamEvent::CancelScheduledValues { .. } => dflt as int,
            AudioParamEvent::CancelAndHoldAtTime { .. } => dflt as int,
        }
    }
}

/// The time of the anchor `i`, or 0 before any event.
pub open spec fn anchor_time(events: Seq<AudioParamEvent>, i: int) -> u64 {
    if i < 0 || i >= events.len() {
        0
    } else {
        event_time(events[i])
    }
}

/// Linear interpolation between `(t0, v0)` and `(t1, v1)` at `t`.
pub open spec fn lin_value_spec(v0: int, t0: u64, v1: int, t1: u64, t: u64) -> int {
    sat_add_spec(v0, mul_q_spec(sat_sub_spec(v1, v0), ratio_q_spec(t - t0, t1 - t0)))
}

/// Exponential interpolation between `(t0, v0)` and `(t1, v1)` at `t`;
/// holds `v0` when the start value is not positive.
pub open spec fn exp_value_spec(v0: int, t0: u64, v1: int, t1: u64, t: u64) -> int {
    if v0 <= 0 {
        v0
    } else {
        mul_q_spec(v0, pow_q_spec(div_q_spec(v1, v0), ratio_q_spec(t - t0, t1 - t0)))
    }
}

/// First-order decay from `v0` towards `vt` after `dt` ticks with time
/// constant `tc`.
pub open spec fn target_value_spec(v0: int, vt: int, dt: u64, tc: u64) -> int {
    let x = ratio_q_spec(dt as int, tc as int);
    let decay = exp2_q_spec(sat_sub_spec(0, mul_q_spec(x, LOG2E_Q40 as int)));
    sat_add_spec(vt, mul_q_spec(sat_sub_spec(v0, vt), decay))
}

/// Piecewise-linear interpolation of `curve` over `dur` ticks at offset
/// `dt`.
pub open spec fn curve_value_spec(curve: Seq<i64>, dt: u64, dur: u64) -> int {
    if curve.len() == 0 {
        0
    } else if curve.len() == 1 || dur == 0 || dt >= dur {
        curve.last() as int
    } else {
        let pos = (dt as int) * (curve.len() - 1);
        let k = pos / (dur as int);
        let frac = ratio_q_spec(pos % (dur as int), dur as int);
        if k + 1 < curve.len() {
            sat_add_spec(
                curve[k] as int,
                mul_q_spec(sat_sub_spec(curve[k + 1] as int, curve[k] as int), frac),
            )
        } else {
            curve.last() as int
        }
    }
}

/// The raw (unclamped) value of a timeline at time `t`.
///
/// The last event at or before `t` decides the segment shape: a
/// `SetTargetAtTime` decays from the previous anchor; a value curve follows
/// its samples; otherwise the value holds at the anchor unless the next
/// event is a ramp, which interpolates towards its target.
pub open spec fn value_at_spec(events: Seq<AudioParamEvent>, dflt: i64, t: u64) -> int {
    let i = last_le(events, t);
    if 0 <= i < events.len() {
        match events[i] {
            AudioParamEvent::SetTargetAtTime { value, time, time_constant } => target_value_spec(
                endpoint(events, dflt, i - 1),
                value as int,
                (t - time) as u64,
                time_constant,
            ),
            AudioParamEvent::SetValueCurveAtTime { curve, time, duration } => curve_value_spec(
                curve@,
                (t - time) as u64,
                duration,
            ),
            _ => value_after_anchor(events, dflt, i, t),
        }
    } else {
        value_after_anchor(events, dflt, i, t)
    }
}

/// The value between the anchor `i` and the next event: a ramp towards the
/// next event's target, or a hold at the anchor.
pub open spec fn value_after_anchor(
    events: Seq<AudioParamEvent>,
    dflt: i64,
    i: int,
    t: u64,
) -> int {
    let j = i + 1;
    if 0 <= j < events.len() {
        match events[j] {
            AudioParamEvent::LinearRampToValueAtTime { value, time } => lin_value_spec(
                endpoint(events, dflt, i),
                anchor_time(events, i),
                value as int,
                time,
                t,
            ),
            AudioParamEvent::ExponentialRampToValueAtTime { value, time } => exp_value_spec(
                endpoint(events, dflt, i),
                anchor_time(events, i),
                value as int,
                time,
                t,
            ),
            _ => endpoint(events, dflt, i),
        }
    } else {
        endpoint(events, dflt, i)
    }
}

/// Clamp a value into a descriptor's range.
pub open spec fn clamp_spec(v: int, lo: i64, hi: i64) -> int {
    if v < lo {
        lo as int
    } else if v > hi {
        hi as int
    } else {
        v
    }
}

/// An event timeline plus the parameter description it serves.
#[derive(Clone, Debug)]
pub struct ParamTimeline {
    /// Scheduled events, in ascending time order; mutate only through
    /// `insert_event` so that `wf` is preserved.
    pub events: Vec<AudioParamEvent>,
    /// Range, default and rate of the parameter.
    pub descriptor: AudioParamDescriptor,
}

impl ParamTimeline {
    /// The scheduled events.
    pub open spec fn events_spec(self) -> Seq<AudioParamEvent> {
        self.events@
    }

    /// The timeline invariant: events sorted, and all of them valid.
    pub open spec fn wf(self) -> bool {
        &&& events_sorted(self.events_spec())
        &&& self.descriptor.wf()
        &&& forall|k: int|
            0 <= k < self.events_spec().len() ==> event_valid(#[trigger] self.events_spec()[k])
    }

    /// An empty timeline for a parameter.
    pub fn new(descriptor: AudioParamDescriptor) -> (r: ParamTimeline)
        requires
            descriptor.wf(),
        ensures
            r.wf(),
            r.events_spec().len() == 0,
            r.descriptor == descriptor,
    {
        ParamTimeline { events: Vec::new(), descriptor }
    }

    /// Index of the last event at or before `t`, as an insertion cursor:
    /// the returned value is `last_le + 1`.
    fn cursor(&self, t: u64) -> (r: usize)
        ensures
            r as int == last_le(self.events_spec(), t) + 1,
            r <= self.events_spec().len(),
    {
        proof {
            lemma_last_le_bounds(self.events@, t);
        }
        let mut i: usize = self.events.len();
        proof {
            assert(self.events@.take(i as int) =~= self.events@);
        }
        while i > 0
            invariant
                i <= self.events@.len(),
                last_le(self.events@, t) == last_le(self.events@.take(i as int), t),
            decreases i,
        {
            let e_time = event_time_exec(&self.events[i - 1]);
            if e_time <= t {
                proof {
                    assert(self.events@.take(i as int).last() == self.events@[i - 1]);
                }
                return i;
            }
            proof {
                assert(self.events@.take(i as int).drop_last() =~= self.events@.take(i - 1));
            }
            i = i - 1;
        }
        proof {
            assert(self.events@.take(0) =~= Seq::<AudioParamEvent>::empty());
        }
        0
    }

    /// Schedule an event.  A malformed event is rejected with
    /// `InvalidAccess` and leaves the timeline untouched.  A valid event is
    /// inserted in time order, after any event with the same time, so that
    /// the later insertion wins; cancel events prune the timeline instead.
    pub fn insert_event(&mut self, e: AudioParamEvent) -> (r: Result<(), AudioError>)
        requires
            old(self).wf(),
        ensures
            final(self).wf(),
            final(self).descriptor == old(self).descriptor,
            !event_valid(e) ==> r == Result::<(), AudioError>::Err(AudioError::InvalidAccess)
                && final(self).events_spec() == old(self).events_spec(),
            event_valid(e) ==> r == Result::<(), AudioError>::Ok(()),
            event_valid(e) && !(e matches AudioParamEvent::CancelScheduledValues { .. }) && !(
            e matches AudioParamEvent::CancelAndHoldAtTime { .. }) ==> final(self).events_spec()
                == old(self).events_spec().insert(
                last_le(old(self).events_spec(), event_time(e)) + 1,
                e,
            ),
            e matches AudioParamEvent::CancelScheduledValues { time }
                ==> final(self).events_spec() == cancel_spec(old(self).events_spec(), time),
            e matches AudioParamEvent::CancelAndHoldAtTime { time } ==> final(self).events_spec()
                == cancel_spec(old(self).events_spec(), time).push(
                (AudioParamEvent::SetValueAtTime {
                    value: hold_value_spec(old(self).events_spec(), old(self).descriptor, time),
                    time,
                }),
            ),
            insert_event_effect(*old(self), *final(self), e),
    {
        match &e {
            AudioParamEvent::ExponentialRampToValueAtTime { value, .. } => {
                if *value <= 0 {
                    return Err(AudioError::InvalidAccess);
                }
            },
            AudioParamEvent::SetTargetAtTime { time_constant, .. } => {
                if *time_constant == 0 {
                    return Err(AudioError::InvalidAccess);
                }
            },
            AudioParamEvent::SetValueCurveAtTime { curve, duration, .. } => {
                if curve.len() < 2 || *duration == 0 {
                    return Err(AudioError::InvalidAccess);
                }
            },
            _ => {},
        }
        match e {
            AudioParamEvent::CancelScheduledValues { time } => {
                self.cancel_from(time);
                Ok(())
            },
            AudioParamEvent::CancelAndHoldAtTime { time } => {
                let v = self.value_at(time);
                let held = clamp_hold(v, self.descriptor);
                self.cancel_from(time);
                let ghost pre = self.events@;
                self.events.push(AudioParamEvent::SetValueAtTime { value: held, time });
                proof {
                    assert forall|k1: int, k2: int|
                        0 <= k1 < k2 < self.events@.len() implies event_time(
                        #[trigger] self.events@[k1]) <= event_time(#[trigger] self.events@[k2]) by {
                        if k2 == self.events@.len() - 1 {
                            assert(event_time(pre[k1]) < time || pre.len() == 0);
                        }
                    }
                }
                Ok(())
            },
            other => {
                let t = event_time_exec(&other);
                let pos = self.cursor(t);
                let ghost pre = self.events@;
                self.events.insert(pos, other);
                proof {
                    lemma_insert_sorted(pre, self.events@, pos as int, t);
                }
                Ok(())
            },
        }
    }

    /// Remove every event scheduled at or after `t`.
    fn cancel_from(&mut self, t: u64)
        requires
            old(self).wf(),
        ensures
            final(self).wf(),
            final(self).descriptor == old(self).descriptor,
            final(self).events_spec() == cancel_spec(old(self).events_spec(), t),
            forall|k: int|
                0 <= k < final(self).events_spec().len() ==> event_time(
                    #[trigger] final(self).events_spec()[k],
                ) < t,
    {
        let cut: usize = if t == 0 {
            0
        } else {
            self.cursor(t - 1)
        };
        proof {
            lemma_cancel_cut(self.events@, t, cut as int);
        }
        self.events.truncate(cut);
        proof {
            assert(self.events@ =~= cancel_spec(old(self).events@, t));
        }
    }

    /// The raw, unclamped timeline value at `t`.
    pub fn value_at(&self, t: u64) -> (r: i64)
        requires
            self.wf(),
        ensures
            r as int == value_at_spec(self.events_spec(), self.descriptor.default_value, t),
    {
        let dflt = self.descriptor.default_value;
        let cur = self.cursor(t);
        proof {
            if cur > 0 {
                lemma_last_le_at(self.events@, t);
            }
            if (cur as int) < self.events@.len() {
                lemma_last_le_suffix(self.events@, t, cur as int);
            }
        }
        if cur > 0 {
            let i = cur - 1;
            match &self.events[i] {
                AudioParamEvent::SetTargetAtTime { value, time, time_constant } => {
                    let v0 = self.endpoint_exec(i);
                    return target_value(v0, *value, t - *time, *time_constant);
                },
                AudioParamEvent::SetValueCurveAtTime { curve, time, duration } => {
                    return curve_value(curve, t - *time, *duration);
                },
                _ => {},
            }
        }
        if cur < self.events.len() {
            match &self.events[cur] {
                AudioParamEvent::LinearRampToValueAtTime { value, time } => {
                    let v0 = self.endpoint_exec(cur);
                    let t0 = self.anchor_time_exec(cur);
                    return lin_value(v0, t0, *value, *time, t);
                },
                AudioParamEvent::ExponentialRampToValueAtTime { value, time } => {
                    let v0 = self.endpoint_exec(cur);
                    let t0 = self.anchor_time_exec(cur);
                    return exp_value(v0, t0, *value, *time, t);
                },
                _ => {},
            }
        }
        self.endpoint_exec(cur)
    }

    /// `endpoint(events, dflt, pos - 1)` as executable code.
    fn endpoint_exec(&self, pos: usize) -> (r: i64)
        ensures
            r as int == endpoint(self.events_spec(), self.descriptor.default_value, pos - 1),
    {
        let dflt = self.descriptor.default_value;
        if pos == 0 {
            return dflt;
        }
        let i = pos - 1;
        if i >= self.events.len() {
            return dflt;
        }
        match &self.events[i] {
            AudioParamEvent::SetValueAtTime { value, .. } => *value,
            AudioParamEvent::LinearRampToValueAtTime { value, .. } => *value,
            AudioParamEvent::ExponentialRampToValueAtTime { value, .. } => *value,
            AudioParamEvent::SetTargetAtTime { value, .. } => *value,
            AudioParamEvent::SetValueCurveAtTime { curve, .. } => {
                if curve.len() > 0 {
                    curve[curve.len() - 1]
                } else {
                    0
                }
            },
            AudioParamEvent::CancelScheduledValues { .. } => dflt,
            AudioParamEvent::CancelAndHoldAtTime { .. } => dflt,
        }
    }

    /// `anchor_time(events, pos - 1)` as executable code.
    fn anchor_time_exec(&self, pos: usize) -> (r: u64)
        requires
            pos <= self.events_spec().len(),
        ensures
            r == anchor_time(self.events_spec(), pos - 1),
    {
        if pos == 0 {
            return 0;
        }
        let i = pos - 1;
        if i >= self.events.len() {
            return 0;
        }
        event_time_exec(&self.events[i])
    }
}

/// The effect of scheduling one event on a timeline, exactly as
/// `insert_event` guarantees it: a malformed event leaves the timeline
/// untouched, a valid one is inserted in time order after its equals, and
/// the cancel events prune the timeline instead.
pub open spec fn insert_event_effect(
    pre: ParamTimeline,
    post: ParamTimeline,
    e: AudioParamEvent,
) -> bool {
    &&& post.descriptor == pre.descriptor
    &&& !event_valid(e) ==> post.events_spec() == pre.events_spec()
    &&& event_valid(e) && !(e matches AudioParamEvent::CancelScheduledValues { .. }) && !(
    e matches AudioParamEvent::CancelAndHoldAtTime { .. }) ==> post.events_spec()
        == pre.events_spec().insert(last_le(pre.events_spec(), event_time(e)) + 1, e)
    &&& e matches AudioParamEvent::CancelScheduledValues { time } ==> post.events_spec()
        == cancel_spec(pre.events_spec(), time)
    &&& e matches AudioParamEvent::CancelAndHoldAtTime { time } ==> post.events_spec()
        == cancel_spec(pre.events_spec(), time).push(
        (AudioParamEvent::SetValueAtTime {
            value: hold_value_spec(pre.events_spec(), pre.descriptor, time),
            time,
        }),
    )
}

/// Remaining timeline after a cancel at `t`: the events strictly before `t`.
pub open spec fn cancel_spec(events: Seq<AudioParamEvent>, t: u64) -> Seq<AudioParamEvent> {
    if t == 0 {
        Seq::empty()
    } else {
        events.take(last_le(events, (t - 1) as u64) + 1)
    }
}

/// The value synthesised by a cancel-and-hold: the timeline value at `t`,
/// clamped to the parameter range.
pub open spec fn hold_value_spec(
    events: Seq<AudioParamEvent>,
    descriptor: AudioParamDescriptor,
    t: u64,
) -> i64 {
    clamp_spec(
        value_at_spec(events, descriptor.default_value, t),
        descriptor.min_value,
        descriptor.max_value,
    ) as i64
}

/// Clamp a raw value into the descriptor range.
fn clamp_hold(v: i64, descriptor: AudioParamDescriptor) -> (r: i64)
    requires
        descriptor.wf(),
    ensures
        r as int == clamp_spec(v as int, descriptor.min_value, descriptor.max_value),
{
    if v < descriptor.min_value {
        descriptor.min_value
    } else if v > descriptor.max_value {
        descriptor.max_value
    } else {
        v
    }
}

/// The scheduled time of an event.
fn event_time_exec(e: &AudioParamEvent) -> (t: u64)
    ensures
        t == event_time(*e),
{
    match e {
        AudioParamEvent::SetValueAtTime { time, .. } => *time,
        AudioParamEvent::LinearRampToValueAtTime { time, .. } => *time,
        AudioParamEvent::ExponentialRampToValueAtTime { time, .. } => *time,
        AudioParamEvent::SetTargetAtTime { time, .. } => *time,
        AudioParamEvent::SetValueCurveAtTime { time, .. } => *time,
        AudioParamEvent::CancelScheduledValues { time } => *time,
        AudioParamEvent::CancelAndHoldAtTime { time } => *time,
    }
}

/// The fraction `num/den` in Q23.40.
fn ratio_q(num: u64, den: u64) -> (r: i64)
    ensures
        r as int == ratio_q_spec(num as int, den as int),
{
    if den == 0 {
        SAMPLE_ONE
    } else {
        proof {
            assert((num as int) * (SAMPLE_ONE as int) < (
            340282366920938463463374607431768211455int)) by (nonlinear_arith)
                requires
                    num as int <= 18446744073709551615int,
                    num >= 0,
            ;
        }
        let p: u128 = (num as u128) * (SAMPLE_ONE as u128);
        sat_from_parts(false, p / (den as u128))
    }
}

/// Linear interpolation between `(t0, v0)` and `(t1, v1)` at `t`.
fn lin_value(v0: i64, t0: u64, v1: i64, t1: u64, t: u64) -> (r: i64)
    requires
        t0 <= t,
        t0 <= t1,
    ensures
        r as int == lin_value_spec(v0 as int, t0, v1 as int, t1, t),
{
    sat_add64(v0, mul_q(sat_sub64(v1, v0), ratio_q(t - t0, t1 - t0)))
}

/// Exponential interpolation between `(t0, v0)` and `(t1, v1)` at `t`.
fn exp_value(v0: i64, t0: u64, v1: i64, t1: u64, t: u64) -> (r: i64)
    requires
        t0 <= t,
        t0 <= t1,
    ensures
        r as int == exp_value_spec(v0 as int, t0, v1 as int, t1, t),
{
    if v0 <= 0 {
        v0
    } else {
        mul_q(v0, pow_q(div_q(v1, v0), ratio_q(t - t0, t1 - t0)))
    }
}

/// First-order decay from `v0` towards `vt`.
fn target_value(v0: i64, vt: i64, dt: u64, tc: u64) -> (r: i64)
    ensures
        r as int == target_value_spec(v0 as int, vt as int, dt, tc),
{
    let x = ratio_q(dt, tc);
    let decay = exp2_q(sat_sub64(0, mul_q(x, LOG2E_Q40)));
    sat_add64(vt, mul_q(sat_sub64(v0, vt), decay))
}

/// Piecewise-linear interpolation of a curve.
fn curve_value(curve: &Vec<i64>, dt: u64, dur: u64) -> (r: i64)
    ensures
        r as int == curve_value_spec(curve@, dt, dur),
{
    let n = curve.len();
    if n == 0 {
        return 0;
    }
    if n == 1 || dur == 0 || dt >= dur {
        return curve[n - 1];
    }
    proof {
        assert((dt as int) * ((n - 1) as int) < (
        340282366920938463463374607431768211455int)) by (nonlinear_arith)
            requires
                dt as int <= 18446744073709551615int,
                0 <= (n - 1) as int <= 18446744073709551615int,
        ;
    }
    let pos: u128 = (dt as u128) * ((n - 1) as u128);
    let k128 = pos / (dur as u128);
    let rem = pos % (dur as u128);
    proof {
        assert((dt as int) * (n - 1) < (dur as int) * (n - 1)) by (nonlinear_arith)
            requires
                dt < dur,
                n >= 2,
        ;
        assert(((dt as int) * (n - 1)) / (dur as int) < n - 1) by (nonlinear_arith)
            requires
                (dt as int) * (n - 1) < (dur as int) * (n - 1),
                dur > 0,
                n >= 2,
        ;
    }
    let k = k128 as usize;
    proof {
        assert((rem as int) * (SAMPLE_ONE as int) < (
        340282366920938463463374607431768211455int)) by (nonlinear_arith)
            requires
                rem as int <= 18446744073709551615int,
                rem >= 0,
        ;
    }
    let fr = sat_from_parts(false, rem * (SAMPLE_ONE as u128) / (dur as u128));
    proof {
        assert(fr as int == ratio_q_spec((pos as int) % (dur as int), dur as int));
    }
    if k + 1 < n {
        sat_add64(curve[k], mul_q(sat_sub64(curve[k + 1], curve[k]), fr))
    } else {
        curve[n - 1]
    }
}

/// Inserting at the cursor keeps a sorted timeline sorted.
proof fn lemma_insert_sorted(
    pre: Seq<AudioParamEvent>,
    post: Seq<AudioParamEvent>,
    pos: int,
    t: u64,
)
    requires
        events_sorted(pre),
        0 <= pos <= pre.len(),
        pos == last_le(pre, t) + 1,
        post.len() == pre.len() + 1,
        post == pre.insert(pos, post[pos]),
        event_time(post[pos]) == t,
    ensures
        events_sorted(post),
{
    lemma_last_le_bounds(pre, t);
    assert forall|k1: int, k2: int|
        0 <= k1 < k2 < post.len() implies event_time(#[trigger] post[k1]) <= event_time(
        #[trigger] post[k2]) by {
        if k1 < pos && k2 == pos {
            assert(post[k1] == pre[k1]);
            lemma_last_le_prefix(pre, t, k1);
        } else if k1 == pos && k2 > pos {
            assert(post[k2] == pre[k2 - 1]);
            lemma_last_le_suffix(pre, t, k2 - 1);
        } else if k1 < pos && k2 > pos {
            assert(post[k1] == pre[k1]);
            assert(post[k2] == pre[k2 - 1]);
        } else if k2 < pos {
            assert(post[k1] == pre[k1]);
            assert(post[k2] == pre[k2]);
        } else if k1 > pos {
            assert(post[k1] == pre[k1 - 1]);
            assert(post[k2] == pre[k2 - 1]);
        }
    }
}

/// In a sorted timeline, everything at or before the cursor happens at or
/// before `t`.
proof fn lemma_last_le_prefix(events: Seq<AudioParamEvent>, t: u64, k: int)
    requires
        events_sorted(events),
        0 <= k <= last_le(events, t),
        last_le(events, t) < events.len(),
    ensures
        event_time(events[k]) <= t,
    decreases events.len(),
{
    if events.len() > 0 {
        if event_time(events.last()) <= t {
            if k == events.len() - 1 {
            } else {
                assert(event_time(events[k]) <= event_time(events.last()));
            }
        } else {
            lemma_last_le_bounds(events.drop_last(), t);
            lemma_last_le_prefix(events.drop_last(), t, k);
            assert(events.drop_last()[k] == events[k]);
        }
    }
}

/// Everything after the cursor happens strictly after `t`.
proof fn lemma_last_le_suffix(events: Seq<AudioParamEvent>, t: u64, k: int)
    requires
        events_sorted(events),
        last_le(events, t) < k < events.len(),
    ensures
        event_time(events[k]) > t,
    decreases events.len(),
{
    if events.len() > 0 {
        if event_time(events.last()) <= t {
        } else {
            if k == events.len() - 1 {
            } else {
                assert(events_sorted(events.drop_last())) by {
                    assert forall|k1: int, k2: int|
                        0 <= k1 < k2 < events.drop_last().len() implies event_time(
                        #[trigger] events.drop_last()[k1]) <= event_time(
                        #[trigger] events.drop_last()[k2]) by {
                        assert(events.drop_last()[k1] == events[k1]);
                        assert(events.drop_last()[k2] == events[k2]);
                    }
                }
                lemma_last_le_bounds(events.drop_last(), t);
                lemma_last_le_suffix(events.drop_last(), t, k);
                assert(events.drop_last()[k] == events[k]);
            }
        }
    }
}

/// The event at the cursor happens at or before `t`.
proof fn lemma_last_le_at(events: Seq<AudioParamEvent>, t: u64)
    requires
        last_le(events, t) >= 0,
    ensures
        last_le(events, t) < events.len(),
        event_time(events[last_le(events, t)]) <= t,
    decreases events.len(),
{
    if events.len() > 0 {
        if event_time(events.last()) <= t {
        } else {
            lemma_last_le_at(events.drop_last(), t);
            assert(events.drop_last()[last_le(events.drop_last(), t)] == events[last_le(
                events,
                t,
            )]);
        }
    }
}

/// The cursor is inside the timeline.
proof fn lemma_last_le_bounds(events: Seq<AudioParamEvent>, t: u64)
    ensures
        -1 <= last_le(events, t) < events.len(),
    decreases events.len(),
{
    if events.len() > 0 && event_time(events.last()) > t {
        lemma_last_le_bounds(events.drop_last(), t);
    }
}

/// The truncation point of a cancel: everything before it is strictly
/// earlier than `t`, and the kept prefix is exactly `cancel_spec`.
proof fn lemma_cancel_cut(events: Seq<AudioParamEvent>, t: u64, cut: int)
    requires
        events_sorted(events),
        t == 0 ==> cut == 0,
        t > 0 ==> cut == last_le(events, (t - 1) as u64) + 1,
    ensures
        0 <= cut <= events.len(),
        forall|k: int| 0 <= k < cut ==> event_time(#[trigger] events[k]) < t,
        events.take(cut) == cancel_spec(events, t),
{
    if t > 0 {
        lemma_last_le_bounds(events, (t - 1) as u64);
        assert forall|k: int| 0 <= k < cut implies event_time(#[trigger] events[k]) < t by {
            lemma_last_le_prefix(events, (t - 1) as u64, k);
        }
        assert(events.take(cut) == cancel_spec(events, t));
    } else {
        assert(events.take(0) =~= Seq::<AudioParamEvent>::empty());
        assert(events.take(0) == cancel_spec(events, t));
    }
}

} // verus!
