//! Control messages sent from the control thread to the render thread.

use vstd::prelude::*;

verus! {

use crate::channel_config::ChannelConfig;
use crate::param::AudioParamEvent;
use crate::process::Processor;
use crate::oscillator::OscillatorType;

/// A mutation of render-thread state, applied at a quantum boundary in the
/// order sent.
pub enum ControlMessage {
    /// Add a node to the graph.
    RegisterNode {
        /// The node's id.
        id: u64,
        /// Its render-side processor.
        processor: Processor,
        /// Number of input ports.
        inputs: usize,
        /// Number of output ports.
        outputs: usize,
        /// Channel configuration for input mixing.
        channel_config: ChannelConfig,
    },
    /// Connect an output port to an input port.
    ConnectNode {
        /// Source node id.
        from: u64,
        /// Destination node id.
        to: u64,
        /// Source output port.
        output: usize,
        /// Destination input port; `PARAM_INPUT_PORT` marks a
        /// parameter-ordering connection.
        input: usize,
    },
    /// Remove every connection from one node to another.
    DisconnectNode {
        /// Source node id.
        from: u64,
        /// Destination node id.
        to: u64,
    },
    /// Remove every outgoing connection of a node.
    DisconnectAll {
        /// Source node id.
        from: u64,
    },
    /// Drop the node once its processor reports itself finished.
    FreeWhenFinished {
        /// The node's id.
        id: u64,
    },
    /// Forward an automation event to a parameter node's timeline.
    AudioParamEvent {
        /// The parameter node's id.
        to: u64,
        /// The event.
        event: AudioParamEvent,
    },
    /// Update a source node's start time.
    ScheduleStart {
        /// The node's id.
        id: u64,
        /// Start time in ticks.
        start: u64,
    },
    /// Update a source node's stop time.
    ScheduleStop {
        /// The node's id.
        id: u64,
        /// Stop time in ticks.
        stop: u64,
    },
    /// Change an oscillator's waveform.
    SetOscillatorType {
        /// The node's id.
        id: u64,
        /// The new waveform.
        kind: OscillatorType,
    },
    /// Hand a wavetable to an oscillator and switch it to the custom
    /// waveform.
    SetPeriodicWave {
        /// The node's id.
        id: u64,
        /// The wavetable samples in Q23.40.
        wave: Vec<i64>,
    },
}

} // verus!
