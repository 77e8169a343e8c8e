//! The oscillator: control-side node type and render-side generator.
//!
//! The oscillator renders one mono output.  Phase is kept as a `u64`
//! covering one cycle in `2^64` steps, so phase arithmetic is exact modular
//! arithmetic; waveforms are evaluated in Q23.40.

use vstd::prelude::*;

verus! {

use crate::{SAMPLE_ONE, RENDER_QUANTUM_SIZE, TICKS_PER_FRAME};
use crate::fixed::{
    sine_q_spec, sine_q, mul_q_spec, mul_q, div_q_spec, div_q, exp2_q_spec, exp2_q, sat_add_spec,
    sat_add64, sat_sub_spec, sat_sub64, sat_from_parts, sat_i64_spec,
};
use crate::control::Scheduler;

/// Type of the waveform rendered by an `OscillatorNode`.
#[derive(Debug, Copy, Clone, PartialEq, Eq, Structural)]
pub enum OscillatorType {
    /// Sine wave.
    Sine,
    /// Square wave.
    Square,
    /// Sawtooth wave.
    Sawtooth,
    /// Triangle wave.
    Triangle,
    /// Wavetable set through a periodic wave.
    Custom,
}

impl Default for OscillatorType {
    /// The default waveform is a sine.
    fn default() -> (r: Self)
        ensures
            r == OscillatorType::Sine,
    {
        OscillatorType::Sine
    }
}

impl OscillatorType {
    /// Decode a wire value; out-of-range values fall back to `Sine`.
    pub fn from_u32(i: u32) -> (r: OscillatorType)
        ensures
            r == from_u32_spec(i),
    {
        match i {
            0 => OscillatorType::Sine,
            1 => OscillatorType::Square,
            2 => OscillatorType::Sawtooth,
            3 => OscillatorType::Triangle,
            4 => OscillatorType::Custom,
            _ => OscillatorType::Sine,
        }
    }

    /// Encode for the wire.
    pub fn to_u32(self) -> (r: u32)
        ensures
            from_u32_spec(r) == self,
            r <= 4,
    {
        match self {
            OscillatorType::Sine => 0,
            OscillatorType::Square => 1,
            OscillatorType::Sawtooth => 2,
            OscillatorType::Triangle => 3,
            OscillatorType::Custom => 4,
        }
    }
}

/// The waveform a wire value decodes to.
pub open spec fn from_u32_spec(i: u32) -> OscillatorType {
    if i == 1 {
        OscillatorType::Square
    } else if i == 2 {
        OscillatorType::Sawtooth
    } else if i == 3 {
        OscillatorType::Triangle
    } else if i == 4 {
        OscillatorType::Custom
    } else {
        OscillatorType::Sine
    }
}

/// Advance a phase by a signed increment, wrapping around the cycle.
pub open spec fn unroll_phase_spec(phase: u64, incr: u64, neg: bool) -> u64 {
    if neg {
        if phase >= incr {
            (phase - incr) as u64
        } else {
            (phase + 18446744073709551616 - incr) as u64
        }
    } else {
        if phase + incr <= u64::MAX {
            (phase + incr) as u64
        } else {
            (phase + incr - 18446744073709551616) as u64
        }
    }
}

/// Advance a phase by a signed increment, wrapping around the cycle.
pub fn unroll_phase(phase: u64, incr: u64, neg: bool) -> (r: u64)
    ensures
        r == unroll_phase_spec(phase, incr, neg),
{
    if neg {
        if phase >= incr {
            phase - incr
        } else {
            // wraps below zero: add one full cycle
            (((phase as u128) + 18446744073709551616u128 - (incr as u128)) as u64)
        }
    } else {
        if incr <= u64::MAX - phase {
            phase + incr
        } else {
            (((phase as u128) + (incr as u128) - 18446744073709551616u128) as u64)
        }
    }
}

/// The square waveform: one in the first half cycle, minus one after.
pub open spec fn square_q_spec(phase: u64) -> int {
    if phase < 9223372036854775808u64 {
        SAMPLE_ONE as int
    } else {
        -(SAMPLE_ONE as int)
    }
}

/// The sawtooth waveform: rises from 0 through 1, jumps to -1, rises back.
pub open spec fn sawtooth_q_spec(phase: u64) -> int {
    let shifted = unroll_phase_spec(phase, 9223372036854775808u64, false);
    let f = phase_frac_spec(shifted);
    f + f - (SAMPLE_ONE as int)
}

/// The triangle waveform: starts at 0, peaks at 1 after a quarter cycle,
/// falls to -1 at three quarters, returns to 0.
pub open spec fn triangle_q_spec(phase: u64) -> int {
    let f = phase_frac_spec(phase);
    let s = 2 * (SAMPLE_ONE as int) - 4 * f;
    if s > SAMPLE_ONE as int {
        2 * (SAMPLE_ONE as int) - s
    } else if s < -(SAMPLE_ONE as int) {
        -2 * (SAMPLE_ONE as int) - s
    } else {
        s
    }
}

/// Evaluate the square waveform.
pub fn square_q(phase: u64) -> (r: i64)
    ensures
        r as int == square_q_spec(phase),
{
    if phase < 9223372036854775808u64 {
        SAMPLE_ONE
    } else {
        -SAMPLE_ONE
    }
}

/// Evaluate the sawtooth waveform.
pub fn sawtooth_q(phase: u64) -> (r: i64)
    ensures
        r as int == sawtooth_q_spec(phase),
{
    let shifted = unroll_phase(phase, 9223372036854775808u64, false);
    let f = phase_frac(shifted);
    f + f - SAMPLE_ONE
}

/// Evaluate the triangle waveform.
pub fn triangle_q(phase: u64) -> (r: i64)
    ensures
        r as int == triangle_q_spec(phase),
{
    let f = phase_frac(phase);
    let s = 2 * SAMPLE_ONE - 4 * f;
    if s > SAMPLE_ONE {
        2 * SAMPLE_ONE - s
    } else if s < -SAMPLE_ONE {
        -2 * SAMPLE_ONE - s
    } else {
        s
    }
}

/// The polyBLEP correction that softens the discontinuities of square and
/// sawtooth waves; `t` and `dt` are cycle fractions in Q23.40.
pub open spec fn poly_blep_spec(t: int, dt: int) -> int {
    if dt <= 0 {
        0
    } else if t < dt {
        let x = div_q_spec(t, dt);
        sat_sub_spec(sat_add_spec(x, x), sat_add_spec(mul_q_spec(x, x), SAMPLE_ONE as int))
    } else if t > (SAMPLE_ONE as int) - dt {
        let x = div_q_spec(t - (SAMPLE_ONE as int), dt);
        sat_add_spec(sat_add_spec(mul_q_spec(x, x), x), sat_add_spec(x, SAMPLE_ONE as int))
    } else {
        0
    }
}

/// Compute the polyBLEP correction.
pub fn poly_blep(t: i64, dt: i64) -> (r: i64)
    requires
        0 <= t,
        t <= SAMPLE_ONE,
    ensures
        r as int == poly_blep_spec(t as int, dt as int),
{
    if dt <= 0 {
        0
    } else if t < dt {
        let x = div_q(t, dt);
        sat_sub64(sat_add64(x, x), sat_add64(mul_q(x, x), SAMPLE_ONE))
    } else if t > SAMPLE_ONE - dt {
        let x = div_q(t - SAMPLE_ONE, dt);
        sat_add64(sat_add64(mul_q(x, x), x), sat_add64(x, SAMPLE_ONE))
    } else {
        0
    }
}

/// A phase as a cycle fraction in Q23.40.
pub open spec fn phase_frac_spec(phase: u64) -> int {
    (phase as int) / 16777216
}

/// A phase as a cycle fraction in Q23.40.
pub fn phase_frac(phase: u64) -> (r: i64)
    ensures
        r as int == phase_frac_spec(phase),
        0 <= r <= SAMPLE_ONE,
{
    (phase / 16777216) as i64
}

/// Linear interpolation into a wavetable at the given phase.
pub open spec fn wavetable_q_spec(table: Seq<i64>, phase: u64) -> int {
    if table.len() == 0 {
        0
    } else {
        let pos = (phase as int) * (table.len() as int);
        let idx = pos / 18446744073709551616;
        let frac = sat_i64_spec(((pos % 18446744073709551616) / 16777216));
        let next = if idx + 1 < table.len() {
            idx + 1
        } else {
            0
        };
        if 0 <= idx < table.len() {
            sat_add_spec(
                mul_q_spec(table[idx] as int, sat_sub_spec(SAMPLE_ONE as int, frac)),
                mul_q_spec(table[next] as int, frac),
            )
        } else {
            0
        }
    }
}

/// Clamp an unbounded integer into the `u64` range.
pub open spec fn sat_u64_spec(x: int) -> int {
    if x > u64::MAX as int {
        u64::MAX as int
    } else if x < 0 {
        0
    } else {
        x
    }
}

/// The frequency after applying detune cents: `f * 2^(d/1200)`.
pub open spec fn computed_freq_spec(f: i64, d: i64) -> int {
    if d == 0 {
        f as int
    } else {
        mul_q_spec(f as int, exp2_q_spec(div_q_spec(d as int, 1200 * (SAMPLE_ONE as int))))
    }
}

/// Phase increment per frame for a computed frequency, as a magnitude in
/// `2^64` cycle steps, and its direction.
pub open spec fn incr_mag_spec(cf: int, sr: u32) -> int {
    sat_u64_spec((if cf >= 0 {
        cf
    } else {
        -cf
    }) * 16777216 / (sr as int))
}

/// One generated sample for the given waveform at the given phase.
pub open spec fn gen_sample_spec(
    kind: OscillatorType,
    phase: u64,
    incr: u64,
    band_limited: bool,
    wave: Seq<i64>,
) -> int {
    let dtq = (incr as int) / 16777216;
    match kind {
        OscillatorType::Sine => sine_q_spec(phase),
        OscillatorType::Triangle => triangle_q_spec(phase),
        OscillatorType::Square => if band_limited {
            let shifted = unroll_phase_spec(phase, 9223372036854775808u64, false);
            sat_sub_spec(
                sat_add_spec(square_q_spec(phase), poly_blep_spec(phase_frac_spec(phase), dtq)),
                poly_blep_spec(phase_frac_spec(shifted), dtq),
            )
        } else {
            square_q_spec(phase)
        },
        OscillatorType::Sawtooth => if band_limited {
            let shifted = unroll_phase_spec(phase, 9223372036854775808u64, false);
            sat_sub_spec(sawtooth_q_spec(phase), poly_blep_spec(phase_frac_spec(shifted), dtq))
        } else {
            sawtooth_q_spec(phase)
        },
        OscillatorType::Custom => wavetable_q_spec(wave, phase),
    }
}

/// The running state of the oscillator within a block.
pub struct OscRun {
    /// Current phase.
    pub phase: u64,
    /// Whether the first active sample has been rendered.
    pub started: bool,
    /// Time of the next sample, in ticks.
    pub current: u64,
}

/// One sample step: the emitted sample and the state that follows it.
pub open spec fn osc_step_spec(
    st: OscRun,
    f: i64,
    d: i64,
    start: u64,
    stop: u64,
    sr: u32,
    kind: OscillatorType,
    band_limited: bool,
    wave: Seq<i64>,
) -> (i64, OscRun) {
    if st.current < start || st.current >= stop {
        (0i64, OscRun { current: (st.current + TICKS_PER_FRAME) as u64, ..st })
    } else {
        let cf = computed_freq_spec(f, d);
        let incr = incr_mag_spec(cf, sr) as u64;
        let neg = cf < 0;
        let phase0 = if !st.started && st.current > start {
            ((incr as int) * ratio_spec((st.current - start) as u64) / (SAMPLE_ONE as int)) as u64
        } else {
            st.phase
        };
        let sample = gen_sample_spec(kind, phase0, incr, band_limited, wave);
        let st2 = OscRun {
            phase: unroll_phase_spec(phase0, incr, neg),
            started: true,
            current: (st.current + TICKS_PER_FRAME) as u64,
        };
        (sample as i64, st2)
    }
}

/// The sub-frame fraction of a tick offset, in Q23.40 (at most one frame).
pub open spec fn ratio_spec(dt: u64) -> int {
    if dt >= TICKS_PER_FRAME {
        SAMPLE_ONE as int
    } else {
        ((dt as int) * (SAMPLE_ONE as int)) / (TICKS_PER_FRAME as int)
    }
}

/// The state after `i` sample steps.
pub open spec fn osc_run_spec(
    st: OscRun,
    freqs: Seq<i64>,
    dets: Seq<i64>,
    start: u64,
    stop: u64,
    sr: u32,
    kind: OscillatorType,
    band_limited: bool,
    wave: Seq<i64>,
    i: nat,
) -> OscRun
    decreases i,
{
    if i == 0 {
        st
    } else {
        let prev = osc_run_spec(
            st,
            freqs,
            dets,
            start,
            stop,
            sr,
            kind,
            band_limited,
            wave,
            (i - 1) as nat,
        );
        osc_step_spec(
            prev,
            freqs[i - 1],
            dets[i - 1],
            start,
            stop,
            sr,
            kind,
            band_limited,
            wave,
        ).1
    }
}

/// The sample emitted at step `i`.
pub open spec fn osc_out_spec(
    st: OscRun,
    freqs: Seq<i64>,
    dets: Seq<i64>,
    start: u64,
    stop: u64,
    sr: u32,
    kind: OscillatorType,
    band_limited: bool,
    wave: Seq<i64>,
    i: nat,
) -> i64 {
    osc_step_spec(
        osc_run_spec(st, freqs, dets, start, stop, sr, kind, band_limited, wave, i),
        freqs[i as int],
        dets[i as int],
        start,
        stop,
        sr,
        kind,
        band_limited,
        wave,
    ).0
}

/// Rendering component of the oscillator node.
pub struct OscillatorRenderer {
    /// The shape of the waveform.
    pub kind: OscillatorType,
    /// Node id of the frequency parameter.
    pub frequency: u64,
    /// Node id of the detune parameter.
    pub detune: u64,
    /// Start and stop times.
    pub scheduler: Scheduler,
    /// Current phase, in `2^64` cycle steps.
    pub phase: u64,
    /// Whether the oscillator has emitted its first active sample.
    pub started: bool,
    /// Wavetable for custom waveforms.
    pub periodic_wave: Option<Vec<i64>>,
    /// Whether square and sawtooth apply the polyBLEP correction.
    pub band_limited: bool,
}

/// The wavetable as a sequence; empty when no wave was set.
pub open spec fn wave_view(w: Option<Vec<i64>>) -> Seq<i64> {
    match w {
        Option::Some(v) => v@,
        Option::None => Seq::empty(),
    }
}

impl OscillatorRenderer {
    /// The effective start time for a block beginning at `current_time`:
    /// a start scheduled in the past snaps to the block start.
    pub open spec fn effective_start(self, current_time: u64) -> u64 {
        if !self.started && self.scheduler.start_time() < current_time {
            current_time
        } else {
            self.scheduler.start_time()
        }
    }

    /// Render one quantum of the mono oscillator output.  Before the start
    /// time the block is silent; after the stop time the block is silent
    /// and the renderer reports itself finished.
    pub fn process(&mut self, freqs: &Vec<i64>, dets: &Vec<i64>, scope: &crate::process::RenderScope) -> (r: (
        Vec<i64>,
        bool,
    ))
        requires
            freqs@.len() == RENDER_QUANTUM_SIZE,
            dets@.len() == RENDER_QUANTUM_SIZE,
            scope.current_time <= u64::MAX - 129 * TICKS_PER_FRAME,
            scope.sample_rate >= 1,
        ensures
            r.0@.len() == RENDER_QUANTUM_SIZE,
            final(self).kind == old(self).kind,
            final(self).frequency == old(self).frequency,
            final(self).detune == old(self).detune,
            final(self).scheduler == old(self).scheduler,
            final(self).periodic_wave == old(self).periodic_wave,
            final(self).band_limited == old(self).band_limited,
            old(self).scheduler.start_time() >= scope.current_time + 128 * TICKS_PER_FRAME ==> r.0@
                =~= crate::buffer2::zero_seq() && r.1 == true && final(self).phase == old(
                self,
            ).phase && final(self).started == old(self).started,
            old(self).scheduler.start_time() < scope.current_time + 128 * TICKS_PER_FRAME && old(
                self,
            ).scheduler.stop_time() < scope.current_time ==> r.0@ =~= crate::buffer2::zero_seq()
                && r.1 == false,
            old(self).scheduler.start_time() < scope.current_time + 128 * TICKS_PER_FRAME && !(old(
                self,
            ).scheduler.stop_time() < scope.current_time) ==> r.1 == true && r.0@ =~= Seq::new(
                RENDER_QUANTUM_SIZE as nat,
                |i: int|
                    osc_out_spec(
                        (OscRun {
                            phase: old(self).phase,
                            started: old(self).started,
                            current: scope.current_time,
                        }),
                        freqs@,
                        dets@,
                        old(self).effective_start(scope.current_time),
                        old(self).scheduler.stop_time(),
                        scope.sample_rate,
                        old(self).kind,
                        old(self).band_limited,
                        wave_view(old(self).periodic_wave),
                        i as nat,
                    ),
            ) && final(self).phase == osc_run_spec(
                (OscRun {
                    phase: old(self).phase,
                    started: old(self).started,
                    current: scope.current_time,
                }),
                freqs@,
                dets@,
                old(self).effective_start(scope.current_time),
                old(self).scheduler.stop_time(),
                scope.sample_rate,
                old(self).kind,
                old(self).band_limited,
                wave_view(old(self).periodic_wave),
                RENDER_QUANTUM_SIZE as nat,
            ).phase && final(self).started == osc_run_spec(
                (OscRun {
                    phase: old(self).phase,
                    started: old(self).started,
                    current: scope.current_time,
                }),
                freqs@,
                dets@,
                old(self).effective_start(scope.current_time),
                old(self).scheduler.stop_time(),
                scope.sample_rate,
                old(self).kind,
                old(self).band_limited,
                wave_view(old(self).periodic_wave),
                RENDER_QUANTUM_SIZE as nat,
            ).started,
    {
        let current_time = scope.current_time;
        let next_block_time = current_time + 128 * TICKS_PER_FRAME;
        let mut start_time = self.scheduler.get_start_at();
        let stop_time = self.scheduler.get_stop_at();
        if start_time >= next_block_time {
            return (crate::buffer2::zero_quantum(), true);
        }
        if stop_time < current_time {
            return (crate::buffer2::zero_quantum(), false);
        }
        if !self.started && start_time < current_time {
            start_time = current_time;
        }
        let ghost st0 = OscRun { phase: self.phase, started: self.started, current: current_time };
        let ghost gstart = start_time;
        let ghost gstop = stop_time;
        let ghost gkind = self.kind;
        let ghost gband = self.band_limited;
        let ghost gwave = wave_view(self.periodic_wave);
        let sr = scope.sample_rate;
        let mut out: Vec<i64> = Vec::new();
        let mut current: u64 = current_time;
        let mut i: usize = 0;
        while i < RENDER_QUANTUM_SIZE
            invariant
                i <= RENDER_QUANTUM_SIZE,
                freqs@.len() == RENDER_QUANTUM_SIZE,
                dets@.len() == RENDER_QUANTUM_SIZE,
                sr >= 1,
                sr == scope.sample_rate,
                st0.current <= u64::MAX - 129 * TICKS_PER_FRAME,
                st0 == (OscRun {
                    phase: old(self).phase,
                    started: old(self).started,
                    current: scope.current_time,
                }),
                start_time == gstart,
                stop_time == gstop,
                gstart == old(self).effective_start(scope.current_time),
                gstop == old(self).scheduler.stop_time(),
                gkind == old(self).kind,
                gband == old(self).band_limited,
                gwave == wave_view(old(self).periodic_wave),
                current == st0.current + i * TICKS_PER_FRAME,
                out@.len() == i,
                self.kind == gkind,
                self.band_limited == gband,
                wave_view(self.periodic_wave) == gwave,
                self.frequency == old(self).frequency,
                self.detune == old(self).detune,
                self.scheduler == old(self).scheduler,
                self.periodic_wave == old(self).periodic_wave,
                (OscRun { phase: self.phase, started: self.started, current })
                    == osc_run_spec(st0, freqs@, dets@, gstart, gstop, sr, gkind, gband, gwave, i as nat),
                forall|k: int|
                    0 <= k < i ==> out@[k] == osc_out_spec(
                        st0,
                        freqs@,
                        dets@,
                        gstart,
                        gstop,
                        sr,
                        gkind,
                        gband,
                        gwave,
                        k as nat,
                    ),
            decreases RENDER_QUANTUM_SIZE - i,
        {
            let ghost prev = osc_run_spec(st0, freqs@, dets@, gstart, gstop, sr, gkind, gband, gwave, i as nat);
            let sample: i64;
            if current < start_time || current >= stop_time {
                sample = 0;
            } else {
                let f = freqs[i];
                let d = dets[i];
                let cf: i64 = if d == 0 {
                    f
                } else {
                    mul_q(f, exp2_q(div_q(d, 1200 * SAMPLE_ONE)))
                };
                let incr = incr_mag(cf, sr);
                let neg = cf < 0;
                if !self.started && current > start_time {
                    let dt = current - start_time;
                    let ratio = ratio_exec(dt);
                    proof {
                        assert((incr as int) * (ratio as int) <= (
                        340282366920938463463374607431768211455int)) by (nonlinear_arith)
                            requires
                                incr as int <= 18446744073709551615int,
                                0 <= ratio as int <= 1099511627776int,
                        ;
                    }
                    let p: u128 = (incr as u128) * (ratio as u128);
                    self.phase = (p / (SAMPLE_ONE as u128)) as u64;
                    proof {
                        assert((p as int) / (SAMPLE_ONE as int) <= incr as int) by (nonlinear_arith)
                            requires
                                p as int == (incr as int) * (ratio as int),
                                0 <= ratio as int <= 1099511627776int,
                                incr >= 0,
                        ;
                    }
                }
                let phase0 = self.phase;
                sample = match self.kind {
                    OscillatorType::Sine => sine_q(phase0),
                    OscillatorType::Triangle => triangle_q(phase0),
                    OscillatorType::Square => {
                        if self.band_limited {
                            let dtq = (incr / 16777216) as i64;
                            let shifted = unroll_phase(phase0, 9223372036854775808u64, false);
                            sat_sub64(
                                sat_add64(square_q(phase0), poly_blep(phase_frac(phase0), dtq)),
                                poly_blep(phase_frac(shifted), dtq),
                            )
                        } else {
                            square_q(phase0)
                        }
                    },
                    OscillatorType::Sawtooth => {
                        if self.band_limited {
                            let dtq = (incr / 16777216) as i64;
                            let shifted = unroll_phase(phase0, 9223372036854775808u64, false);
                            sat_sub64(sawtooth_q(phase0), poly_blep(phase_frac(shifted), dtq))
                        } else {
                            sawtooth_q(phase0)
                        }
                    },
                    OscillatorType::Custom => {
                        match &self.periodic_wave {
                            Option::Some(w) => wavetable_q(w, phase0),
                            Option::None => 0,
                        }
                    },
                };
                self.phase = unroll_phase(phase0, incr, neg);
                self.started = true;
            }
            out.push(sample);
            current = current + TICKS_PER_FRAME;
            i += 1;
            proof {
                assert(osc_run_spec(st0, freqs@, dets@, gstart, gstop, sr, gkind, gband, gwave, i as nat)
                    == osc_step_spec(prev, freqs@[i - 1], dets@[i - 1], gstart, gstop, sr, gkind, gband, gwave).1);
                assert(out@[i - 1] == osc_out_spec(st0, freqs@, dets@, gstart, gstop, sr, gkind, gband, gwave, (i - 1) as nat));
            }
        }
        (out, true)
    }
}

/// Phase increment per frame for a computed frequency.
fn incr_mag(cf: i64, sr: u32) -> (r: u64)
    requires
        sr >= 1,
    ensures
        r as int == incr_mag_spec(cf as int, sr),
{
    let mag: u128 = if cf >= 0 {
        cf as u128
    } else {
        (-(cf as i128)) as u128
    };
    let p: u128 = mag * 16777216u128;
    let q: u128 = p / (sr as u128);
    if q > u64::MAX as u128 {
        u64::MAX
    } else {
        q as u64
    }
}

/// The sub-frame fraction of a tick offset, in Q23.40.
fn ratio_exec(dt: u64) -> (r: i64)
    ensures
        r as int == ratio_spec(dt),
        0 <= r <= SAMPLE_ONE,
{
    if dt >= TICKS_PER_FRAME {
        SAMPLE_ONE
    } else {
        proof {
            assert((dt as int) * (SAMPLE_ONE as int) < (
            340282366920938463463374607431768211455int)) by (nonlinear_arith)
                requires
                    dt as int >= 0,
                    (dt as int) < 4294967296int,
            ;
            assert(((dt as int) * (SAMPLE_ONE as int)) / (TICKS_PER_FRAME as int) <= (
            SAMPLE_ONE as int)) by (nonlinear_arith)
                requires
                    dt as int >= 0,
                    (dt as int) < 4294967296int,
                    TICKS_PER_FRAME as int == 4294967296int,
            ;
        }
        (((dt as u128) * (SAMPLE_ONE as u128) / (TICKS_PER_FRAME as u128)) as i64)
    }
}

/// Linear interpolation into a wavetable at the given phase.
pub fn wavetable_q(table: &Vec<i64>, phase: u64) -> (r: i64)
    ensures
        r as int == wavetable_q_spec(table@, phase),
{
    let n = table.len();
    if n == 0 {
        return 0;
    }
    proof {
        assert((phase as int) * (n as int) < (340282366920938463463374607431768211455int))
            by (nonlinear_arith)
            requires
                phase as int <= 18446744073709551615int,
                n as int <= 18446744073709551615int,
        ;
        assert(((phase as int) * (n as int)) / 18446744073709551616 < n as int)
            by (nonlinear_arith)
            requires
                phase as int <= 18446744073709551615int,
                n as int >= 1,
        ;
    }
    let pos: u128 = (phase as u128) * (n as u128);
    let idx128 = pos / 18446744073709551616u128;
    let idx = idx128 as usize;
    let frac = sat_from_parts(false, (pos % 18446744073709551616u128) / 16777216u128);
    let next: usize = if idx + 1 < n {
        idx + 1
    } else {
        0
    };
    sat_add64(mul_q(table[idx], sat_sub64(SAMPLE_ONE, frac)), mul_q(table[next], frac))
}

} // verus!
