//! A Web-Audio-style audio rendering engine with a verified core.
//!
//! A graph of processing nodes (oscillators, gains, constant sources, a
//! destination) is built on a control thread and rendered quantum by quantum
//! (128 frames at a time) by a render loop.  All signal values are carried as
//! fixed-point numbers so that every stage of the pipeline has an exact,
//! machine-checked contract:
//!
//! - samples and parameter values are `i64` in Q23.40 (the unit value is
//!   `SAMPLE_ONE`),
//! - times are `u64` ticks with `TICKS_PER_FRAME` ticks per frame,
//! - oscillator phase is a `u64` covering one cycle in `2^64` steps.
//!
//! Conversion from and to floating point happens outside this crate.

use vstd::prelude::*;

pub mod fixed;
pub mod channel_config;
pub mod buffer2;
pub mod control;
pub mod param;
pub mod oscillator;
pub mod destination;
pub mod process;
pub mod message;
pub mod comm;
pub mod graph;
pub mod context;

verus! {

/// Number of frames rendered per quantum.
pub const RENDER_QUANTUM_SIZE: usize = 128;

/// Maximum number of channels a render quantum can carry.
pub const MAX_CHANNELS: usize = 32;

/// Fixed-point scale of samples and parameter values: 1.0 is `2^40`.
pub const SAMPLE_ONE: i64 = 1099511627776;

/// Number of time ticks per audio frame: sub-frame scheduling keeps 32
/// fractional bits (`2^32` ticks per frame).
pub const TICKS_PER_FRAME: u64 = 4294967296;

/// Node id of the destination node.
pub const DESTINATION_NODE_ID: u64 = 0;

/// Node id of the audio listener.
pub const LISTENER_NODE_ID: u64 = 1;

/// First node id of the nine listener coordinate parameters.
pub const LISTENER_PARAM_ID_FIRST: u64 = 2;

/// Last node id of the nine listener coordinate parameters.
pub const LISTENER_PARAM_ID_LAST: u64 = 10;

/// Input port index that marks a parameter-ordering connection rather than an
/// audio input.
pub const PARAM_INPUT_PORT: usize = usize::MAX;

/// Error kinds surfaced to the control thread, mirroring the DOM exception
/// names of the Web Audio API.
#[derive(Clone, Copy, Debug, PartialEq, Eq, Structural)]
pub enum AudioError {
    /// The operation is not supported on this object.
    NotSupported,
    /// An index or count is out of its allowed range.
    IndexSize,
    /// The object is in a state that forbids the operation.
    InvalidState,
    /// A malformed value was handed to a parameter timeline or scheduler.
    InvalidAccess,
}

} // verus!
