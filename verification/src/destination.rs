//! The audio destination: the sink the user ultimately hears.

use vstd::prelude::*;

verus! {

use crate::{AudioError, MAX_CHANNELS, RENDER_QUANTUM_SIZE};
use crate::channel_config::{ChannelConfig, ChannelCountMode, ChannelInterpretation};

/// Render-side processor of the destination: passes its mixed input
/// through unchanged.
pub struct DestinationRenderer {}

impl DestinationRenderer {
    /// Copy the single mixed input to the single output.
    pub fn process(&self, inputs: &Vec<Vec<i64>>) -> (r: Vec<Vec<i64>>)
        ensures
            r@.len() == inputs@.len(),
            forall|c: int| 0 <= c < inputs@.len() ==> (#[trigger] r@[c]@) == inputs@[c]@,
    {
        let mut r: Vec<Vec<i64>> = Vec::new();
        let mut c: usize = 0;
        while c < inputs.len()
            invariant
                c <= inputs@.len(),
                r@.len() == c,
                forall|k: int| 0 <= k < c ==> (#[trigger] r@[k]@) == inputs@[k]@,
            decreases inputs@.len() - c,
        {
            let input = &inputs[c];
            let n = input.len();
            let mut ch: Vec<i64> = Vec::new();
            let mut i: usize = 0;
            while i < n
                invariant
                    i <= n,
                    n == input@.len(),
                    ch@ == input@.take(i as int),
                decreases n - i,
            {
                ch.push(input[i]);
                proof {
                    assert(ch@ == input@.take(i + 1));
                }
                i += 1;
            }
            proof {
                assert(input@.take(n as int) == input@);
            }
            r.push(ch);
            c += 1;
        }
        r
    }
}

/// Control-side handle of the destination node.
pub struct AudioDestinationNode {
    /// The destination's node id (always the reserved id 0).
    pub id: u64,
    /// Channel configuration; always explicit count with speaker mixing.
    pub channel_config: ChannelConfig,
    /// Largest channel count the hardware supports.
    pub max_channels: usize,
    /// Whether the owning context renders offline.
    pub offline: bool,
}

impl AudioDestinationNode {
    /// Build the destination handle for a context.
    pub fn new(channel_count: usize, max_channels: usize, offline: bool) -> (r:
        AudioDestinationNode)
        requires
            1 <= channel_count <= MAX_CHANNELS,
        ensures
            r.id == crate::DESTINATION_NODE_ID,
            r.channel_config.count == channel_count,
            r.channel_config.mode == ChannelCountMode::Explicit,
            r.channel_config.interpretation == ChannelInterpretation::Speakers,
            r.max_channels == max_channels,
            r.offline == offline,
    {
        AudioDestinationNode {
            id: crate::DESTINATION_NODE_ID,
            channel_config: ChannelConfig {
                count: channel_count,
                mode: ChannelCountMode::Explicit,
                interpretation: ChannelInterpretation::Speakers,
            },
            max_channels,
            offline,
        }
    }

    /// Give up the handle, keeping only its channel configuration.
    pub fn into_channel_config(self) -> (r: ChannelConfig)
        ensures
            r == self.channel_config,
    {
        self.channel_config
    }

    /// Rebuild a handle from its parts.
    pub fn from_raw_parts(
        id: u64,
        channel_config: ChannelConfig,
        max_channels: usize,
        offline: bool,
    ) -> (r: AudioDestinationNode)
        ensures
            r.id == id,
            r.channel_config == channel_config,
            r.max_channels == max_channels,
            r.offline == offline,
    {
        AudioDestinationNode { id, channel_config, max_channels, offline }
    }

    /// The maximum number of channels the channel count can be set to (the
    /// most channels the hardware can play).
    pub fn max_channels_count(&self) -> (r: usize)
        ensures
            r == self.max_channels,
    {
        self.max_channels
    }

    /// Number of input ports.
    pub fn number_of_inputs(&self) -> (r: usize)
        ensures
            r == 1,
    {
        1
    }

    /// Number of output ports.
    pub fn number_of_outputs(&self) -> (r: usize)
        ensures
            r == 1,
    {
        1
    }

    /// Change the channel count.  An offline destination refuses any change
    /// (`NotSupported`); a count above the hardware maximum or outside
    /// `1..=MAX_CHANNELS` is an `IndexSize` error.
    pub fn set_channel_count(&mut self, v: usize) -> (r: Result<(), AudioError>)
        ensures
            old(self).offline && v != old(self).channel_config.count ==> r == Result::<
                (),
                AudioError,
            >::Err(AudioError::NotSupported) && *final(self) == *old(self),
            !(old(self).offline && v != old(self).channel_config.count) && (v > old(
                self,
            ).max_channels || v < 1 || v > MAX_CHANNELS) ==> r == Result::<(), AudioError>::Err(
                AudioError::IndexSize,
            ) && *final(self) == *old(self),
            !(old(self).offline && v != old(self).channel_config.count) && !(v > old(
                self,
            ).max_channels || v < 1 || v > MAX_CHANNELS) ==> r == Result::<(), AudioError>::Ok(())
                && final(self).channel_config.count == v && final(self).id == old(self).id,
    {
        if self.offline && v != self.channel_config.count {
            return Err(AudioError::NotSupported);
        }
        if v > self.max_channels || v < 1 || v > MAX_CHANNELS {
            return Err(AudioError::IndexSize);
        }
        self.channel_config.count = v;
        Ok(())
    }

    /// The destination's count mode is fixed; changing it is an
    /// `InvalidState` error.
    pub fn set_channel_count_mode(&self, _v: ChannelCountMode) -> (r: Result<(), AudioError>)
        ensures
            r == Result::<(), AudioError>::Err(AudioError::InvalidState),
    {
        Err(AudioError::InvalidState)
    }
}

} // verus!
