//! Channel configuration of a node: count, count mode and interpretation.

use vstd::prelude::*;

verus! {

use crate::MAX_CHANNELS;

/// How the number of channels of a node's input mix is computed.
#[derive(Clone, Copy, Debug, PartialEq, Eq, Structural)]
pub enum ChannelCountMode {
    /// Use the maximum channel count of the connected sources.
    Max,
    /// Like `Max`, clamped by the configured count.
    ClampedMax,
    /// Always use the configured count.
    Explicit,
}

/// How channels are matched when up- or down-mixing.
#[derive(Clone, Copy, Debug, PartialEq, Eq, Structural)]
pub enum ChannelInterpretation {
    /// Mix with the speaker-layout coefficient table.
    Speakers,
    /// Truncate or zero-extend, channel by channel.
    Discrete,
}

/// Channel configuration carried by every node.
#[derive(Clone, Copy, Debug, PartialEq, Eq, Structural)]
pub struct ChannelConfig {
    /// Configured channel count, in `1..=MAX_CHANNELS`.
    pub count: usize,
    /// Count mode used for input mixing.
    pub mode: ChannelCountMode,
    /// Interpretation used for up/down-mixing.
    pub interpretation: ChannelInterpretation,
}

/// Options from which a `ChannelConfig` is built.
#[derive(Clone, Copy, Debug, PartialEq, Eq, Structural)]
pub struct ChannelConfigOptions {
    /// Configured channel count.
    pub count: usize,
    /// Count mode.
    pub mode: ChannelCountMode,
    /// Interpretation.
    pub interpretation: ChannelInterpretation,
}

impl ChannelConfig {
    /// A configuration is valid when its count is in range.
    pub open spec fn wf(self) -> bool {
        1 <= self.count <= MAX_CHANNELS
    }

    /// Build a configuration from options.
    pub fn from_options(opts: ChannelConfigOptions) -> (r: ChannelConfig)
        requires
            1 <= opts.count <= MAX_CHANNELS,
        ensures
            r.wf(),
            r.count == opts.count,
            r.mode == opts.mode,
            r.interpretation == opts.interpretation,
    {
        ChannelConfig { count: opts.count, mode: opts.mode, interpretation: opts.interpretation }
    }
}

impl Default for ChannelConfigOptions {
    /// The default configuration: stereo, `Max`, speaker interpretation.
    fn default() -> (r: Self)
        ensures
            r.count == 2,
            r.mode == ChannelCountMode::Max,
            r.interpretation == ChannelInterpretation::Speakers,
    {
        ChannelConfigOptions {
            count: 2,
            mode: ChannelCountMode::Max,
            interpretation: ChannelInterpretation::Speakers,
        }
    }
}

} // verus!
