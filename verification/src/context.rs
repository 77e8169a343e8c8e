//! The user-facing context: node registration, wiring and scheduling on
//! the control side, and the offline rendering driver.
//!
//! Control operations never touch render state directly: every mutation
//! becomes a `ControlMessage` sent down the channel, and the render loop
//! applies it at a quantum boundary, in order.

use vstd::prelude::*;

verus! {

use crate::{
    AudioError, MAX_CHANNELS, RENDER_QUANTUM_SIZE, TICKS_PER_FRAME, SAMPLE_ONE, PARAM_INPUT_PORT,
    DESTINATION_NODE_ID, LISTENER_NODE_ID, LISTENER_PARAM_ID_FIRST, LISTENER_PARAM_ID_LAST,
};
use crate::buffer2::lemma_block_len;
use crate::channel_config::{
    ChannelConfig, ChannelConfigOptions, ChannelCountMode, ChannelInterpretation,
};
use crate::comm::{control_channel, send_control, try_recv_control, clone_sender};
use crate::control::Scheduler;
use crate::destination::{AudioDestinationNode, DestinationRenderer};
use crate::graph::Graph;
use crate::message::ControlMessage;
use crate::oscillator::{OscillatorType, OscillatorRenderer};
use crate::param::{AudioParamDescriptor, AudioParamEvent, AutomationRate, ParamTimeline};
use crate::process::{Processor, GainRenderer, ConstantRenderer, ParamRenderer, ListenerRenderer};

/// Lifecycle state of a context.
#[derive(Clone, Copy, Debug, PartialEq, Eq, Structural)]
pub enum AudioContextState {
    /// Created but not rendering.
    Suspended,
    /// Actively rendering.
    Running,
    /// Torn down; no further rendering.
    Closed,
}

/// Whether a message is a connection waiting for node `id`.
pub open spec fn is_connect_to(m: ControlMessage, id: u64) -> bool {
    m matches ControlMessage::ConnectNode { to, .. } && to == id
}

/// Whether a message registers node `id`.
pub open spec fn is_register_for(m: ControlMessage, id: u64) -> bool {
    m matches ControlMessage::RegisterNode { id: rid, .. } && rid == id
}

/// The pending list after the connections for `id` are released: every
/// other message, in its original order.
pub open spec fn drop_connects_spec(q: Seq<ControlMessage>, id: u64) -> Seq<ControlMessage>
    decreases q.len(),
{
    if q.len() == 0 {
        Seq::empty()
    } else if is_connect_to(q[0], id) {
        drop_connects_spec(q.skip(1), id)
    } else {
        seq![q[0]] + drop_connects_spec(q.skip(1), id)
    }
}

/// Whether `id` is one of the reserved listener ids (the listener node or
/// one of its nine coordinate parameters).
pub open spec fn is_listener_id(id: u64) -> bool {
    id == LISTENER_NODE_ID || (LISTENER_PARAM_ID_FIRST <= id && id <= LISTENER_PARAM_ID_LAST)
}

/// The control-side half of a context: id allocation, message sending and
/// the deferred-message queues.
pub struct ConcreteBaseAudioContext {
    /// Sample rate in Hz.
    pub sample_rate: u32,
    /// Largest channel count the destination supports.
    pub max_channel_count: usize,
    /// Next node id to hand out.
    pub node_id_inc: u64,
    /// The destination's channel configuration.
    pub destination_channel_config: ChannelConfig,
    /// Sending half of the control-to-render channel.
    pub sender: crossbeam_channel::Sender<ControlMessage>,
    /// Messages waiting for a node that is not yet registered.
    pub queued_messages: Vec<ControlMessage>,
    /// Listener registration messages, released when the first panner
    /// appears.
    pub queued_audio_listener_msgs: Vec<ControlMessage>,
    /// Whether the listener has been released into the graph.
    pub listener_present: bool,
    /// Whether this context renders offline.
    pub offline: bool,
    /// Current lifecycle state.
    pub state: AudioContextState,
}

impl ConcreteBaseAudioContext {
    /// Build a context around a sender: registers the destination right
    /// away and queues the audio listener and its nine coordinate
    /// parameters for deferred registration.  Ids 0 through 10 are
    /// reserved by this constructor.
    pub fn new(
        sample_rate: u32,
        channel_count: usize,
        max_channel_count: usize,
        sender: crossbeam_channel::Sender<ControlMessage>,
        offline: bool,
    ) -> (r: ConcreteBaseAudioContext)
        requires
            sample_rate >= 1,
            1 <= channel_count <= MAX_CHANNELS,
        ensures
            r.sample_rate == sample_rate,
            r.max_channel_count == max_channel_count,
            r.node_id_inc == LISTENER_PARAM_ID_LAST + 1,
            r.offline == offline,
            r.state == AudioContextState::Suspended,
            r.destination_channel_config.count == channel_count,
            !r.listener_present,
            r.queued_messages@.len() == 0,
            r.queued_audio_listener_msgs@.len() == LISTENER_PARAM_ID_LAST,
            forall|k: int|
                0 <= k < r.queued_audio_listener_msgs@.len() ==> is_register_for(
                    #[trigger] r.queued_audio_listener_msgs@[k],
                    (k + 1) as u64,
                ),
    {
        let destination_channel_config = ChannelConfig {
            count: channel_count,
            mode: ChannelCountMode::Explicit,
            interpretation: ChannelInterpretation::Speakers,
        };
        let mut ctx = ConcreteBaseAudioContext {
            sample_rate,
            max_channel_count,
            node_id_inc: 0,
            destination_channel_config,
            sender,
            queued_messages: Vec::new(),
            queued_audio_listener_msgs: Vec::new(),
            listener_present: false,
            offline,
            state: AudioContextState::Suspended,
        };
        // The destination is registered immediately under id 0.
        let reg = ControlMessage::RegisterNode {
            id: DESTINATION_NODE_ID,
            processor: Processor::Destination(DestinationRenderer {  }),
            inputs: 1,
            outputs: 1,
            channel_config: destination_channel_config,
        };
        send_control(&ctx.sender, reg);
        // The listener and its nine coordinate parameters are queued and
        // released only when the first panner needs them.
        let listener_reg = ControlMessage::RegisterNode {
            id: LISTENER_NODE_ID,
            processor: Processor::Listener(ListenerRenderer {  }),
            inputs: 0,
            outputs: 1,
            channel_config: ChannelConfig {
                count: 1,
                mode: ChannelCountMode::Max,
                interpretation: ChannelInterpretation::Speakers,
            },
        };
        ctx.queued_audio_listener_msgs.push(listener_reg);
        let mut pid: u64 = LISTENER_PARAM_ID_FIRST;
        while pid <= LISTENER_PARAM_ID_LAST
            invariant
                LISTENER_PARAM_ID_FIRST <= pid <= LISTENER_PARAM_ID_LAST + 1,
                ctx.sample_rate == sample_rate,
                ctx.max_channel_count == max_channel_count,
                ctx.offline == offline,
                ctx.state == AudioContextState::Suspended,
                ctx.destination_channel_config.count == channel_count,
                !ctx.listener_present,
                ctx.queued_messages@.len() == 0,
                ctx.queued_audio_listener_msgs@.len() == pid - 1,
                forall|k: int|
                    0 <= k < ctx.queued_audio_listener_msgs@.len() ==> is_register_for(
                        #[trigger] ctx.queued_audio_listener_msgs@[k],
                        (k + 1) as u64,
                    ),
            decreases LISTENER_PARAM_ID_LAST + 1 - pid,
        {
            let descriptor = AudioParamDescriptor {
                min_value: i64::MIN,
                max_value: i64::MAX,
                default_value: 0,
                automation_rate: AutomationRate::A,
            };
            let reg_p = ControlMessage::RegisterNode {
                id: pid,
                processor: Processor::Param(ParamRenderer {
                    timeline: ParamTimeline::new(descriptor),
                }),
                inputs: 1,
                outputs: 1,
                channel_config: ChannelConfig {
                    count: 1,
                    mode: ChannelCountMode::Explicit,
                    interpretation: ChannelInterpretation::Discrete,
                },
            };
            ctx.queued_audio_listener_msgs.push(reg_p);
            pid += 1;
        }
        ctx.node_id_inc = LISTENER_PARAM_ID_LAST + 1;
        ctx
    }

    /// Allocate a fresh node id.
    pub fn next_id(&mut self) -> (id: u64)
        requires
            old(self).node_id_inc < u64::MAX,
        ensures
            id == old(self).node_id_inc,
            final(self).node_id_inc == old(self).node_id_inc + 1,
            final(self).sample_rate == old(self).sample_rate,
            final(self).max_channel_count == old(self).max_channel_count,
            final(self).offline == old(self).offline,
            final(self).state == old(self).state,
            final(self).destination_channel_config == old(self).destination_channel_config,
            final(self).listener_present == old(self).listener_present,
            final(self).queued_messages == old(self).queued_messages,
            final(self).queued_audio_listener_msgs == old(self).queued_audio_listener_msgs,
    {
        let id = self.node_id_inc;
        self.node_id_inc = self.node_id_inc + 1;
        id
    }

    /// Register a node under a previously allocated id: sends the
    /// registration and releases any queued connections waiting for it.
    /// The listener and its parameters are instead queued for deferred
    /// registration.
    pub fn register(
        &mut self,
        id: u64,
        processor: Processor,
        inputs: usize,
        outputs: usize,
        channel_config: ChannelConfig,
    )
        requires
            1 <= channel_config.count <= MAX_CHANNELS,
        ensures
            final(self).sample_rate == old(self).sample_rate,
            final(self).max_channel_count == old(self).max_channel_count,
            final(self).node_id_inc == old(self).node_id_inc,
            final(self).offline == old(self).offline,
            final(self).state == old(self).state,
            final(self).destination_channel_config == old(self).destination_channel_config,
            final(self).listener_present == old(self).listener_present,
            is_listener_id(id) ==> final(self).queued_audio_listener_msgs@ == old(
                self,
            ).queued_audio_listener_msgs@.push(
                (ControlMessage::RegisterNode { id, processor, inputs, outputs, channel_config }),
            ) && final(self).queued_messages == old(self).queued_messages,
            !is_listener_id(id) ==> final(self).queued_messages@ == drop_connects_spec(
                old(self).queued_messages@,
                id,
            ) && final(self).queued_audio_listener_msgs == old(self).queued_audio_listener_msgs,
    {
        let message = ControlMessage::RegisterNode {
            id,
            processor,
            inputs,
            outputs,
            channel_config,
        };
        if id == LISTENER_NODE_ID || (LISTENER_PARAM_ID_FIRST <= id && id
            <= LISTENER_PARAM_ID_LAST) {
            self.queued_audio_listener_msgs.push(message);
        } else {
            send_control(&self.sender, message);
            self.resolve_queued_control_msgs(id);
        }
    }

    /// Release queued control messages that were waiting for node `id`:
    /// every pending connection to `id` is sent, in its original relative
    /// order, and the other pending messages stay, in order.
    pub fn resolve_queued_control_msgs(&mut self, id: u64)
        ensures
            final(self).queued_messages@ == drop_connects_spec(old(self).queued_messages@, id),
            final(self).sample_rate == old(self).sample_rate,
            final(self).max_channel_count == old(self).max_channel_count,
            final(self).node_id_inc == old(self).node_id_inc,
            final(self).offline == old(self).offline,
            final(self).state == old(self).state,
            final(self).destination_channel_config == old(self).destination_channel_config,
            final(self).listener_present == old(self).listener_present,
            final(self).queued_audio_listener_msgs == old(self).queued_audio_listener_msgs,
    {
        let mut kept: Vec<ControlMessage> = Vec::new();
        let n = self.queued_messages.len();
        let mut i: usize = 0;
        while i < n
            invariant
                i <= n,
                n == old(self).queued_messages@.len(),
                self.queued_messages@ == old(self).queued_messages@.skip(i as int),
                drop_connects_spec(old(self).queued_messages@, id) == kept@ + drop_connects_spec(
                    self.queued_messages@,
                    id,
                ),
                self.sample_rate == old(self).sample_rate,
                self.max_channel_count == old(self).max_channel_count,
                self.node_id_inc == old(self).node_id_inc,
                self.offline == old(self).offline,
                self.state == old(self).state,
                self.destination_channel_config == old(self).destination_channel_config,
                self.listener_present == old(self).listener_present,
                self.queued_audio_listener_msgs == old(self).queued_audio_listener_msgs,
            decreases n - i,
        {
            let ghost q = self.queued_messages@;
            let m = self.queued_messages.remove(0);
            proof {
                assert(m == q[0]);
                assert(self.queued_messages@ =~= q.skip(1));
                assert(q.skip(1) =~= old(self).queued_messages@.skip(i + 1));
            }
            let for_id = is_connect_to_exec(&m, id);
            if for_id {
                send_control(&self.sender, m);
            } else {
                kept.push(m);
            }
            proof {
                assert(drop_connects_spec(q, id) == if is_connect_to(q[0], id) {
                    drop_connects_spec(q.skip(1), id)
                } else {
                    seq![q[0]] + drop_connects_spec(q.skip(1), id)
                });
                assert(drop_connects_spec(old(self).queued_messages@, id) == kept@
                    + drop_connects_spec(self.queued_messages@, id));
            }
            i += 1;
        }
        proof {
            assert(self.queued_messages@ =~= Seq::<ControlMessage>::empty());
            assert(kept@ + drop_connects_spec(self.queued_messages@, id) =~= kept@);
        }
        self.queued_messages = kept;
    }

    /// Connect one node's output to another node's input.
    pub fn connect(&self, from: u64, to: u64, output: usize, input: usize) {
        let message = ControlMessage::ConnectNode { from, to, output, input };
        send_control(&self.sender, message);
    }

    /// Queue a parameter-to-owner connection for when the owner registers.
    pub fn queue_audio_param_connect(&mut self, param: u64, audio_node: u64)
        ensures
            final(self).queued_messages@ == old(self).queued_messages@.push(
                (ControlMessage::ConnectNode {
                    from: param,
                    to: audio_node,
                    output: 0,
                    input: PARAM_INPUT_PORT,
                }),
            ),
            final(self).sample_rate == old(self).sample_rate,
            final(self).max_channel_count == old(self).max_channel_count,
            final(self).node_id_inc == old(self).node_id_inc,
            final(self).offline == old(self).offline,
            final(self).state == old(self).state,
            final(self).destination_channel_config == old(self).destination_channel_config,
            final(self).listener_present == old(self).listener_present,
            final(self).queued_audio_listener_msgs == old(self).queued_audio_listener_msgs,
    {
        let message = ControlMessage::ConnectNode {
            from: param,
            to: audio_node,
            output: 0,
            input: PARAM_INPUT_PORT,
        };
        self.queued_messages.push(message);
    }

    /// Disconnect every edge from one node to another.
    pub fn disconnect_from(&self, from: u64, to: u64) {
        send_control(&self.sender, ControlMessage::DisconnectNode { from, to });
    }

    /// Disconnect every outgoing edge of a node.
    pub fn disconnect(&self, from: u64) {
        send_control(&self.sender, ControlMessage::DisconnectAll { from });
    }

    /// Forward an automation event to a parameter's timeline; events share
    /// the message channel, so they never reorder against graph mutations.
    pub fn pass_audio_param_event(&self, to: u64, event: AudioParamEvent) {
        send_control(&self.sender, ControlMessage::AudioParamEvent { to, event });
    }

    /// Tell the render thread a node's last user handle is gone.  Reserved
    /// nodes are never freed.
    pub fn mark_node_dropped(&self, id: u64) {
        let reserved = id == DESTINATION_NODE_ID || id == LISTENER_NODE_ID || (
        LISTENER_PARAM_ID_FIRST <= id && id <= LISTENER_PARAM_ID_LAST);
        if !reserved {
            send_control(&self.sender, ControlMessage::FreeWhenFinished { id });
        }
    }

    /// Attach the nine listener coordinates to a panner's dedicated input
    /// ports.
    pub fn connect_listener_to_panner(&self, panner: u64) {
        let mut port: usize = 1;
        while port <= 9
            invariant
                1 <= port <= 10,
            decreases 10 - port,
        {
            self.connect(LISTENER_NODE_ID, panner, port - 1, port);
            port += 1;
        }
    }

    /// Release the queued listener registrations into the graph, release
    /// the pending connections waiting for the listener, and force the
    /// listener to render every quantum by a parameter-port connection to
    /// the destination.  When the queue is already empty nothing is sent
    /// at all: a second call is a no-op.
    pub fn ensure_audio_listener_present(&mut self)
        ensures
            final(self).queued_audio_listener_msgs@.len() == 0,
            old(self).queued_audio_listener_msgs@.len() == 0 ==> *final(self) == *old(self),
            old(self).queued_audio_listener_msgs@.len() > 0 ==> final(self).listener_present
                && final(self).queued_messages@ == drop_connects_spec(
                old(self).queued_messages@,
                LISTENER_NODE_ID,
            ),
            final(self).sample_rate == old(self).sample_rate,
            final(self).max_channel_count == old(self).max_channel_count,
            final(self).node_id_inc == old(self).node_id_inc,
            final(self).offline == old(self).offline,
            final(self).state == old(self).state,
            final(self).destination_channel_config == old(self).destination_channel_config,
    {
        let mut released = false;
        while self.queued_audio_listener_msgs.len() > 0
            invariant
                self.sample_rate == old(self).sample_rate,
                self.max_channel_count == old(self).max_channel_count,
                self.node_id_inc == old(self).node_id_inc,
                self.offline == old(self).offline,
                self.state == old(self).state,
                self.destination_channel_config == old(self).destination_channel_config,
                self.queued_messages == old(self).queued_messages,
                self.listener_present == old(self).listener_present,
                !released ==> *self == *old(self),
                released ==> old(self).queued_audio_listener_msgs@.len() > 0,
            decreases self.queued_audio_listener_msgs@.len(),
        {
            let m = self.queued_audio_listener_msgs.remove(0);
            send_control(&self.sender, m);
            released = true;
        }
        if released {
            self.resolve_queued_control_msgs(LISTENER_NODE_ID);
            // Connect the listener to the destination's parameter port so
            // it is rendered every quantum without audible effect.
            self.connect(LISTENER_NODE_ID, DESTINATION_NODE_ID, 0, PARAM_INPUT_PORT);
            self.listener_present = true;
        }
    }

    /// The context state.
    pub fn state(&self) -> (r: AudioContextState)
        ensures
            r == self.state,
    {
        self.state
    }

    /// Update the context state.
    pub fn set_state(&mut self, state: AudioContextState)
        ensures
            final(self).state == state,
            final(self).sample_rate == old(self).sample_rate,
            final(self).max_channel_count == old(self).max_channel_count,
            final(self).node_id_inc == old(self).node_id_inc,
            final(self).offline == old(self).offline,
            final(self).destination_channel_config == old(self).destination_channel_config,
            final(self).listener_present == old(self).listener_present,
            final(self).queued_messages == old(self).queued_messages,
            final(self).queued_audio_listener_msgs == old(self).queued_audio_listener_msgs,
    {
        self.state = state;
    }

    /// The context sample rate in Hz.
    pub fn sample_rate_hz(&self) -> (r: u32)
        ensures
            r == self.sample_rate,
    {
        self.sample_rate
    }

    /// The largest channel count the destination can be set to.
    pub fn max_channel_count(&self) -> (r: usize)
        ensures
            r == self.max_channel_count,
    {
        self.max_channel_count
    }

    /// Whether this context renders offline.
    pub fn offline(&self) -> (r: bool)
        ensures
            r == self.offline,
    {
        self.offline
    }

    /// Register a new parameter node owned by `owner`, returning its
    /// control-side handle.  The parameter is itself a graph node; its
    /// ordering edge to the owner is queued until the owner registers.
    pub fn create_audio_param(&mut self, descriptor: AudioParamDescriptor, owner: u64) -> (r:
        AudioParam)
        requires
            old(self).node_id_inc < u64::MAX,
            descriptor.wf(),
        ensures
            final(self).node_id_inc == old(self).node_id_inc + 1,
            final(self).sample_rate == old(self).sample_rate,
            final(self).max_channel_count == old(self).max_channel_count,
            final(self).offline == old(self).offline,
            final(self).state == old(self).state,
            final(self).destination_channel_config == old(self).destination_channel_config,
            r.id == old(self).node_id_inc,
            r.descriptor == descriptor,
    {
        let id = self.next_id();
        let timeline = ParamTimeline::new(descriptor);
        self.register(
            id,
            Processor::Param(ParamRenderer { timeline }),
            1,
            1,
            ChannelConfig {
                count: 1,
                mode: ChannelCountMode::Explicit,
                interpretation: ChannelInterpretation::Discrete,
            },
        );
        self.queue_audio_param_connect(id, owner);
        AudioParam {
            id,
            sender: clone_sender(&self.sender),
            descriptor,
            value: descriptor.default_value,
        }
    }
}

/// Whether a message is a connection waiting for node `id`.
fn is_connect_to_exec(m: &ControlMessage, id: u64) -> (r: bool)
    ensures
        r == is_connect_to(*m, id),
{
    match m {
        ControlMessage::ConnectNode { to, .. } => *to == id,
        _ => false,
    }
}

/// The audio listener: nine coordinate parameters describing the
/// listening position and orientation for spatialisation.
pub struct AudioListener {
    /// Position along the x axis.
    pub position_x: AudioParam,
    /// Position along the y axis.
    pub position_y: AudioParam,
    /// Position along the z axis.
    pub position_z: AudioParam,
    /// Forward direction, x component.
    pub forward_x: AudioParam,
    /// Forward direction, y component.
    pub forward_y: AudioParam,
    /// Forward direction, z component.
    pub forward_z: AudioParam,
    /// Up direction, x component.
    pub up_x: AudioParam,
    /// Up direction, y component.
    pub up_y: AudioParam,
    /// Up direction, z component.
    pub up_z: AudioParam,
}

impl ConcreteBaseAudioContext {
    /// Rebuild the listener handle from the reserved parameter ids.  The
    /// context stores no owning reference to its reserved nodes: handles
    /// are reconstructed on demand, which breaks the ownership cycle
    /// between context and listener.
    pub fn listener(&self) -> (r: AudioListener)
        ensures
            r.position_x.id == LISTENER_PARAM_ID_FIRST,
            r.up_z.id == LISTENER_PARAM_ID_LAST,
    {
        let descriptor = AudioParamDescriptor {
            min_value: i64::MIN,
            max_value: i64::MAX,
            default_value: 0,
            automation_rate: AutomationRate::A,
        };
        AudioListener {
            position_x: self.listener_param(LISTENER_PARAM_ID_FIRST, descriptor),
            position_y: self.listener_param(LISTENER_PARAM_ID_FIRST + 1, descriptor),
            position_z: self.listener_param(LISTENER_PARAM_ID_FIRST + 2, descriptor),
            forward_x: self.listener_param(LISTENER_PARAM_ID_FIRST + 3, descriptor),
            forward_y: self.listener_param(LISTENER_PARAM_ID_FIRST + 4, descriptor),
            forward_z: self.listener_param(LISTENER_PARAM_ID_FIRST + 5, descriptor),
            up_x: self.listener_param(LISTENER_PARAM_ID_FIRST + 6, descriptor),
            up_y: self.listener_param(LISTENER_PARAM_ID_FIRST + 7, descriptor),
            up_z: self.listener_param(LISTENER_PARAM_ID_FIRST + 8, descriptor),
        }
    }

    /// A handle to one reserved listener parameter.
    fn listener_param(&self, id: u64, descriptor: AudioParamDescriptor) -> (r: AudioParam)
        ensures
            r.id == id,
    {
        AudioParam {
            id,
            sender: clone_sender(&self.sender),
            descriptor,
            value: descriptor.default_value,
        }
    }
}

/// Control-side handle of an audio parameter.
pub struct AudioParam {
    /// The parameter's node id in the graph.
    pub id: u64,
    /// Sender for forwarding automation events.
    pub sender: crossbeam_channel::Sender<ControlMessage>,
    /// Range, default and rate.
    pub descriptor: AudioParamDescriptor,
    /// Control-side copy of the last immediately-set value.
    pub value: i64,
}

impl AudioParam {
    /// The last value set directly, before automation.
    pub fn value(&self) -> (r: i64)
        ensures
            r == self.value,
    {
        self.value
    }

    /// Jump to a value immediately (an event at time zero).
    pub fn set_value(&mut self, value: i64)
        ensures
            final(self).value == value,
            final(self).id == old(self).id,
            final(self).descriptor == old(self).descriptor,
    {
        self.value = value;
        send_control(
            &self.sender,
            ControlMessage::AudioParamEvent {
                to: self.id,
                event: AudioParamEvent::SetValueAtTime { value, time: 0 },
            },
        );
    }

    /// Schedule any automation event on this parameter.
    pub fn schedule(&self, event: AudioParamEvent) {
        send_control(&self.sender, ControlMessage::AudioParamEvent { to: self.id, event });
    }

    /// Schedule a jump to `value` at `time` ticks.
    pub fn set_value_at_time(&self, value: i64, time: u64) {
        self.schedule(AudioParamEvent::SetValueAtTime { value, time });
    }

    /// Schedule a linear ramp towards `value`, ending at `time` ticks.
    pub fn linear_ramp_to_value_at_time(&self, value: i64, time: u64) {
        self.schedule(AudioParamEvent::LinearRampToValueAtTime { value, time });
    }

    /// Schedule an exponential ramp towards `value`, ending at `time`.
    pub fn exponential_ramp_to_value_at_time(&self, value: i64, time: u64) {
        self.schedule(AudioParamEvent::ExponentialRampToValueAtTime { value, time });
    }
}

/// Options for constructing an oscillator.
pub struct OscillatorOptions {
    /// The waveform shape.
    pub type_: OscillatorType,
    /// Fundamental frequency in Hz, Q23.40.
    pub frequency: i64,
    /// Detune in cents, Q23.40.
    pub detune: i64,
    /// Optional custom wavetable; setting it selects the custom waveform.
    pub periodic_wave: Option<PeriodicWave>,
    /// Channel configuration options.
    pub channel_config: ChannelConfigOptions,
    /// Whether square and sawtooth use the polyBLEP band-limiting
    /// correction.
    pub band_limited: bool,
}

impl Default for OscillatorOptions {
    /// A 440 Hz band-limited sine with no detune.
    fn default() -> (r: Self)
        ensures
            r.type_ == OscillatorType::Sine,
            r.frequency == 440 * SAMPLE_ONE,
            r.detune == 0,
            r.periodic_wave is None,
            r.band_limited,
            r.channel_config.count == 2,
            r.channel_config.mode == ChannelCountMode::Max,
            r.channel_config.interpretation == ChannelInterpretation::Speakers,
    {
        OscillatorOptions {
            type_: OscillatorType::Sine,
            frequency: 440 * SAMPLE_ONE,
            detune: 0,
            periodic_wave: Option::None,
            channel_config: ChannelConfigOptions {
                count: 2,
                mode: ChannelCountMode::Max,
                interpretation: ChannelInterpretation::Speakers,
            },
            band_limited: true,
        }
    }
}

/// A precomputed periodic waveform, as one cycle of Q23.40 samples.
pub struct PeriodicWave {
    /// The wavetable; linear interpolation reads it cyclically.
    pub table: Vec<i64>,
}

/// Control-side handle of an oscillator node.
pub struct OscillatorNode {
    /// The node id.
    pub id: u64,
    /// Sender for scheduling and configuration messages.
    pub sender: crossbeam_channel::Sender<ControlMessage>,
    /// The frequency parameter (Hz, Q23.40, a-rate).
    pub frequency: AudioParam,
    /// The detune parameter (cents, Q23.40, a-rate).
    pub detune: AudioParam,
    /// Control-side copy of the waveform selection.
    pub type_: OscillatorType,
    /// Control-side mirror of the schedule, guarding repeated starts.
    pub scheduler: Scheduler,
    /// Channel configuration.
    pub channel_config: ChannelConfig,
}

impl OscillatorNode {
    /// Create an oscillator: registers its two parameters and then the
    /// oscillator itself, releasing the parameter connections.
    pub fn new(context: &mut ConcreteBaseAudioContext, options: OscillatorOptions) -> (r:
        OscillatorNode)
        requires
            old(context).node_id_inc < u64::MAX - 3,
            1 <= old(context).sample_rate <= 200000,
            1 <= options.channel_config.count <= MAX_CHANNELS,
        ensures
            r.id == old(context).node_id_inc,
            final(context).node_id_inc == old(context).node_id_inc + 3,
            final(context).sample_rate == old(context).sample_rate,
            final(context).max_channel_count == old(context).max_channel_count,
            final(context).offline == old(context).offline,
            final(context).state == old(context).state,
            final(context).destination_channel_config == old(
                context,
            ).destination_channel_config,
            r.type_ == (if options.periodic_wave is Some {
                OscillatorType::Custom
            } else {
                options.type_
            }),
            r.frequency.value == options.frequency,
            r.detune.value == options.detune,
            r.frequency.id == old(context).node_id_inc + 1,
            r.detune.id == old(context).node_id_inc + 2,
            r.frequency.descriptor.automation_rate == AutomationRate::A,
            r.detune.descriptor.automation_rate == AutomationRate::A,
            r.frequency.descriptor.min_value == -(((old(context).sample_rate as int) / 2) * (
            SAMPLE_ONE as int)),
            r.frequency.descriptor.max_value == ((old(context).sample_rate as int) / 2) * (
            SAMPLE_ONE as int),
            r.frequency.descriptor.default_value == 440 * SAMPLE_ONE,
            r.detune.descriptor.min_value == -153600 * (SAMPLE_ONE as int),
            r.detune.descriptor.max_value == 153600 * (SAMPLE_ONE as int),
            r.scheduler.start_time() == u64::MAX,
            r.scheduler.stop_time() == u64::MAX,
            r.channel_config.count == options.channel_config.count,
    {
        let id = context.next_id();
        let sample_rate = context.sample_rate_hz();
        // Nyquist bound for the frequency parameter, in Q23.40 Hz.
        let nyquist: i64 = (sample_rate as i64 / 2) * SAMPLE_ONE;
        let freq_descriptor = AudioParamDescriptor {
            min_value: -nyquist,
            max_value: nyquist,
            default_value: 440 * SAMPLE_ONE,
            automation_rate: AutomationRate::A,
        };
        proof {
            assert(nyquist >= 0);
        }
        let mut f_param = context.create_audio_param(freq_descriptor, id);
        f_param.set_value(options.frequency);
        let det_descriptor = AudioParamDescriptor {
            min_value: -153600 * SAMPLE_ONE,
            max_value: 153600 * SAMPLE_ONE,
            default_value: 0,
            automation_rate: AutomationRate::A,
        };
        let mut det_param = context.create_audio_param(det_descriptor, id);
        det_param.set_value(options.detune);
        let renderer = OscillatorRenderer {
            kind: options.type_,
            frequency: f_param.id,
            detune: det_param.id,
            scheduler: Scheduler::new(),
            phase: 0,
            started: false,
            periodic_wave: Option::None,
            band_limited: options.band_limited,
        };
        let channel_config = ChannelConfig {
            count: options.channel_config.count,
            mode: options.channel_config.mode,
            interpretation: options.channel_config.interpretation,
        };
        context.register(id, Processor::Oscillator(renderer), 0, 1, channel_config);
        let mut node = OscillatorNode {
            id,
            sender: clone_sender(&context.sender),
            frequency: f_param,
            detune: det_param,
            type_: options.type_,
            scheduler: Scheduler::new(),
            channel_config,
        };
        match options.periodic_wave {
            Option::Some(w) => {
                node.set_periodic_wave(w);
            },
            Option::None => {},
        }
        node
    }

    /// Connect this node's first output to another node's first input.
    pub fn connect(&self, to: u64) {
        send_control(
            &self.sender,
            ControlMessage::ConnectNode { from: self.id, to, output: 0, input: 0 },
        );
    }

    /// Start playback at the given tick.  Scheduling a start more than
    /// once is a user error (`InvalidState`); nothing is sent then.
    pub fn start_at(&mut self, when: u64) -> (r: Result<(), AudioError>)
        ensures
            old(self).scheduler.start_time() == u64::MAX ==> r == Result::<(), AudioError>::Ok(())
                && final(self).scheduler.start_time() == when,
            old(self).scheduler.start_time() != u64::MAX ==> r == Result::<(), AudioError>::Err(
                AudioError::InvalidState,
            ) && final(self).scheduler == old(self).scheduler,
            final(self).id == old(self).id,
            final(self).type_ == old(self).type_,
    {
        let r = self.scheduler.start_at(when);
        if r.is_ok() {
            send_control(&self.sender, ControlMessage::ScheduleStart { id: self.id, start: when });
        }
        r
    }

    /// Start playback immediately: a start time of zero always lies in
    /// the past, which the renderer snaps to the current block.  A second
    /// start is an `InvalidState` error.
    pub fn start(&mut self) -> (r: Result<(), AudioError>)
        ensures
            old(self).scheduler.start_time() == u64::MAX ==> r == Result::<(), AudioError>::Ok(()),
            old(self).scheduler.start_time() != u64::MAX ==> r == Result::<(), AudioError>::Err(
                AudioError::InvalidState,
            ),
    {
        self.start_at(0)
    }

    /// Stop playback at the given tick.
    pub fn stop_at(&mut self, when: u64) {
        self.scheduler.stop_at(when);
        send_control(&self.sender, ControlMessage::ScheduleStop { id: self.id, stop: when });
    }

    /// Stop playback immediately.
    pub fn stop(&mut self) {
        self.stop_at(0);
    }

    /// The a-rate frequency parameter, in Q23.40 Hz.
    pub fn frequency(&self) -> (r: &AudioParam)
        ensures
            *r == self.frequency,
    {
        &self.frequency
    }

    /// The a-rate detune parameter, in Q23.40 cents.
    pub fn detune(&self) -> (r: &AudioParam)
        ensures
            *r == self.detune,
    {
        &self.detune
    }

    /// The current waveform selection.
    pub fn type_(&self) -> (r: OscillatorType)
        ensures
            r == self.type_,
    {
        self.type_
    }

    /// Select a standard waveform.  Choosing `Custom` by hand is an
    /// `InvalidState` error, and once a periodic wave is set the waveform
    /// stays custom.
    pub fn set_type(&mut self, kind: OscillatorType) -> (r: Result<(), AudioError>)
        ensures
            kind == OscillatorType::Custom ==> r == Result::<(), AudioError>::Err(
                AudioError::InvalidState,
            ) && final(self).type_ == old(self).type_,
            kind != OscillatorType::Custom && old(self).type_ == OscillatorType::Custom ==> r
                == Result::<(), AudioError>::Ok(()) && final(self).type_ == old(self).type_,
            kind != OscillatorType::Custom && old(self).type_ != OscillatorType::Custom ==> r
                == Result::<(), AudioError>::Ok(()) && final(self).type_ == kind,
            final(self).id == old(self).id,
            final(self).frequency == old(self).frequency,
            final(self).detune == old(self).detune,
            final(self).scheduler == old(self).scheduler,
    {
        if matches!(kind, OscillatorType::Custom) {
            return Err(AudioError::InvalidState);
        }
        if matches!(self.type_, OscillatorType::Custom) {
            // A custom oscillator stays custom; the request is ignored.
            return Ok(());
        }
        self.type_ = kind;
        send_control(&self.sender, ControlMessage::SetOscillatorType { id: self.id, kind });
        Ok(())
    }

    /// Hand a wavetable to the renderer and make the waveform custom, for
    /// good.
    pub fn set_periodic_wave(&mut self, wave: PeriodicWave)
        ensures
            final(self).type_ == OscillatorType::Custom,
            final(self).id == old(self).id,
            final(self).frequency == old(self).frequency,
            final(self).detune == old(self).detune,
            final(self).scheduler == old(self).scheduler,
            final(self).channel_config == old(self).channel_config,
    {
        self.type_ = OscillatorType::Custom;
        send_control(
            &self.sender,
            ControlMessage::SetPeriodicWave { id: self.id, wave: wave.table },
        );
    }
}

/// Options for constructing a gain node.
pub struct GainOptions {
    /// Initial gain factor, Q23.40.
    pub gain: i64,
    /// Channel configuration options.
    pub channel_config: ChannelConfigOptions,
}

/// Control-side handle of a gain node.
pub struct GainNode {
    /// The node id.
    pub id: u64,
    /// Sender for connection messages.
    pub sender: crossbeam_channel::Sender<ControlMessage>,
    /// The gain parameter (a-rate).
    pub gain: AudioParam,
}

impl GainNode {
    /// Create a gain node with its gain parameter.
    pub fn new(context: &mut ConcreteBaseAudioContext, options: GainOptions) -> (r: GainNode)
        requires
            old(context).node_id_inc < u64::MAX - 2,
            1 <= options.channel_config.count <= MAX_CHANNELS,
        ensures
            r.id == old(context).node_id_inc,
            final(context).node_id_inc == old(context).node_id_inc + 2,
            final(context).sample_rate == old(context).sample_rate,
            r.gain.value == options.gain,
            r.gain.id == old(context).node_id_inc + 1,
    {
        let id = context.next_id();
        let descriptor = AudioParamDescriptor {
            min_value: i64::MIN,
            max_value: i64::MAX,
            default_value: SAMPLE_ONE,
            automation_rate: AutomationRate::A,
        };
        let mut g_param = context.create_audio_param(descriptor, id);
        g_param.set_value(options.gain);
        let renderer = GainRenderer { gain: g_param.id };
        let channel_config = ChannelConfig {
            count: options.channel_config.count,
            mode: options.channel_config.mode,
            interpretation: options.channel_config.interpretation,
        };
        context.register(id, Processor::Gain(renderer), 1, 1, channel_config);
        GainNode { id, sender: clone_sender(&context.sender), gain: g_param }
    }

    /// Connect this node's output to another node's first input.
    pub fn connect(&self, to: u64) {
        send_control(
            &self.sender,
            ControlMessage::ConnectNode { from: self.id, to, output: 0, input: 0 },
        );
    }
}

/// Options for constructing a constant source.
pub struct ConstantSourceOptions {
    /// Emitted value, Q23.40.
    pub offset: i64,
}

/// Control-side handle of a constant source node.
pub struct ConstantSourceNode {
    /// The node id.
    pub id: u64,
    /// Sender for scheduling messages.
    pub sender: crossbeam_channel::Sender<ControlMessage>,
    /// The offset parameter (a-rate).
    pub offset: AudioParam,
    /// Control-side mirror of the schedule, guarding repeated starts.
    pub scheduler: Scheduler,
}

impl ConstantSourceNode {
    /// Create a constant source with its offset parameter.
    pub fn new(context: &mut ConcreteBaseAudioContext, options: ConstantSourceOptions) -> (r:
        ConstantSourceNode)
        requires
            old(context).node_id_inc < u64::MAX - 2,
        ensures
            r.id == old(context).node_id_inc,
            final(context).node_id_inc == old(context).node_id_inc + 2,
            final(context).sample_rate == old(context).sample_rate,
            r.offset.value == options.offset,
            r.offset.id == old(context).node_id_inc + 1,
            r.scheduler.start_time() == u64::MAX,
            r.scheduler.stop_time() == u64::MAX,
    {
        let id = context.next_id();
        let descriptor = AudioParamDescriptor {
            min_value: i64::MIN,
            max_value: i64::MAX,
            default_value: SAMPLE_ONE,
            automation_rate: AutomationRate::A,
        };
        let mut o_param = context.create_audio_param(descriptor, id);
        o_param.set_value(options.offset);
        let renderer = ConstantRenderer { offset: o_param.id, scheduler: Scheduler::new() };
        context.register(
            id,
            Processor::Constant(renderer),
            0,
            1,
            ChannelConfig {
                count: 1,
                mode: ChannelCountMode::Max,
                interpretation: ChannelInterpretation::Speakers,
            },
        );
        ConstantSourceNode {
            id,
            sender: clone_sender(&context.sender),
            offset: o_param,
            scheduler: Scheduler::new(),
        }
    }

    /// Connect this node's output to another node's first input.
    pub fn connect(&self, to: u64) {
        send_control(
            &self.sender,
            ControlMessage::ConnectNode { from: self.id, to, output: 0, input: 0 },
        );
    }

    /// Start emitting at the given tick.  Scheduling a start more than
    /// once is a user error (`InvalidState`); nothing is sent then.
    pub fn start_at(&mut self, when: u64) -> (r: Result<(), AudioError>)
        ensures
            old(self).scheduler.start_time() == u64::MAX ==> r == Result::<(), AudioError>::Ok(())
                && final(self).scheduler.start_time() == when,
            old(self).scheduler.start_time() != u64::MAX ==> r == Result::<(), AudioError>::Err(
                AudioError::InvalidState,
            ) && final(self).scheduler == old(self).scheduler,
            final(self).id == old(self).id,
    {
        let r = self.scheduler.start_at(when);
        if r.is_ok() {
            send_control(&self.sender, ControlMessage::ScheduleStart { id: self.id, start: when });
        }
        r
    }

    /// Stop emitting at the given tick.
    pub fn stop_at(&mut self, when: u64) {
        self.scheduler.stop_at(when);
        send_control(&self.sender, ControlMessage::ScheduleStop { id: self.id, stop: when });
    }
}

/// An offline context: renders a fixed number of frames into a buffer as
/// fast as possible.
pub struct OfflineAudioContext {
    /// The control-side context.
    pub base: ConcreteBaseAudioContext,
    /// The render-side graph.
    pub graph: Graph,
    /// Receiving half of the control channel.
    pub receiver: crossbeam_channel::Receiver<ControlMessage>,
    /// Number of frames to render.
    pub length: usize,
    /// Number of output channels.
    pub channels: usize,
}

impl OfflineAudioContext {
    /// An offline context is well formed while its graph is.
    pub open spec fn wf(self) -> bool {
        &&& self.graph.wf()
        &&& 1 <= self.channels <= MAX_CHANNELS
        &&& self.base.sample_rate == self.graph.sample_rate
        &&& 1 <= self.base.sample_rate <= 200000
    }

    /// Create an offline context rendering `length` frames of `channels`
    /// channels at `sample_rate` Hz.
    pub fn new(channels: usize, length: usize, sample_rate: u32) -> (r: OfflineAudioContext)
        requires
            1 <= channels <= MAX_CHANNELS,
            1 <= sample_rate <= 200000,
            length <= 100000000,
        ensures
            r.wf(),
            r.length == length,
            r.channels == channels,
            r.graph.frames == 0,
            r.base.sample_rate == sample_rate,
            r.base.node_id_inc == LISTENER_PARAM_ID_LAST + 1,
            r.base.state == AudioContextState::Suspended,
    {
        let (tx, rx) = control_channel();
        let base = ConcreteBaseAudioContext::new(sample_rate, channels, channels, tx, true);
        let graph = Graph::new(sample_rate, 64);
        OfflineAudioContext { base, graph, receiver: rx, length, channels }
    }

    /// Create an oscillator in this context.
    pub fn create_oscillator(&mut self) -> (r: OscillatorNode)
        requires
            old(self).wf(),
            old(self).base.node_id_inc < u64::MAX - 3,
        ensures
            final(self).wf(),
            final(self).length == old(self).length,
            final(self).channels == old(self).channels,
            final(self).graph == old(self).graph,
            final(self).base.node_id_inc == old(self).base.node_id_inc + 3,
            r.type_ == OscillatorType::Sine,
            r.frequency.value == 440 * SAMPLE_ONE,
            r.detune.value == 0,
    {
        let opts = OscillatorOptions {
            type_: OscillatorType::Sine,
            frequency: 440 * SAMPLE_ONE,
            detune: 0,
            periodic_wave: Option::None,
            channel_config: ChannelConfigOptions {
                count: 2,
                mode: ChannelCountMode::Max,
                interpretation: ChannelInterpretation::Speakers,
            },
            band_limited: true,
        };
        OscillatorNode::new(&mut self.base, opts)
    }

    /// The destination handle of this context.
    pub fn destination(&self) -> (r: AudioDestinationNode)
        ensures
            r.id == DESTINATION_NODE_ID,
    {
        AudioDestinationNode::from_raw_parts(
            DESTINATION_NODE_ID,
            self.base.destination_channel_config,
            self.base.max_channel_count,
            self.base.offline,
        )
    }

    /// Time of the next frame to be rendered, in ticks.
    pub fn current_time_ticks(&self) -> (t: u64)
        requires
            self.wf(),
        ensures
            t == self.graph.frames * TICKS_PER_FRAME,
    {
        proof {
            assert(self.graph.frames * TICKS_PER_FRAME <= 4294000000u64 * TICKS_PER_FRAME);
        }
        self.graph.frames * TICKS_PER_FRAME
    }

    /// Render the whole buffer synchronously and return one sample vector
    /// per channel, each exactly `length` frames long.
    pub fn start_rendering_sync(&mut self) -> (out: Vec<Vec<i64>>)
        requires
            old(self).wf(),
            old(self).graph.frames == 0,
            old(self).length <= 100000000,
        ensures
            final(self).wf(),
            out@.len() == old(self).channels,
            forall|c: int| 0 <= c < out@.len() ==> (#[trigger] out@[c]@).len() == old(self).length,
            final(self).graph.frames == ((old(self).length + RENDER_QUANTUM_SIZE - 1) / (
            RENDER_QUANTUM_SIZE as int)) * RENDER_QUANTUM_SIZE,
    {
        self.base.set_state(AudioContextState::Running);
        let channels = self.channels;
        let length = self.length;
        let mut out: Vec<Vec<i64>> = Vec::new();
        let mut c: usize = 0;
        while c < channels
            invariant
                c <= channels,
                out@.len() == c,
                forall|k: int| 0 <= k < c ==> (#[trigger] out@[k]@).len() == 0,
            decreases channels - c,
        {
            out.push(Vec::new());
            c += 1;
        }
        let mut rendered: usize = 0;
        while rendered < length
            invariant
                self.wf(),
                channels == self.channels,
                length == old(self).length,
                length <= 100000000,
                rendered <= length,
                rendered % RENDER_QUANTUM_SIZE == 0 || rendered == length,
                rendered < length ==> self.graph.frames == rendered,
                rendered == length ==> self.graph.frames == ((length + RENDER_QUANTUM_SIZE - 1) / (
                RENDER_QUANTUM_SIZE as int)) * RENDER_QUANTUM_SIZE,
                out@.len() == channels,
                forall|k: int| 0 <= k < channels ==> (#[trigger] out@[k]@).len() == rendered,
            decreases length - rendered,
        {
            // Drain pending control messages (bounded per quantum).
            let mut msgs: Vec<ControlMessage> = Vec::new();
            let mut budget: usize = 0;
            while budget < 10000
                invariant
                    budget <= 10000,
                decreases 10000 - budget,
            {
                match try_recv_control(&self.receiver) {
                    Option::Some(m) => {
                        msgs.push(m);
                    },
                    Option::None => { break ; },
                }
                budget += 1;
            }
            proof {
                assert(self.graph.frames <= 4293000000u64);
            }
            let _trace = self.graph.process_quantum(msgs);
            // Append this quantum's destination output.
            let take = if length - rendered < RENDER_QUANTUM_SIZE {
                length - rendered
            } else {
                RENDER_QUANTUM_SIZE
            };
            let ghost pre_out = out@;
            let mut c2: usize = 0;
            while c2 < channels
                invariant
                    c2 <= channels,
                    out@.len() == channels,
                    self.wf(),
                    take <= RENDER_QUANTUM_SIZE,
                    forall|k: int|
                        0 <= k < c2 ==> (#[trigger] out@[k]@).len() == pre_out[k]@.len() + take,
                    forall|k: int|
                        c2 <= k < channels ==> (#[trigger] out@[k]) == pre_out[k],
                decreases channels - c2,
            {
                let data = self.destination_channel(c2);
                let mut s: usize = 0;
                let ghost mid_out = out@;
                while s < take
                    invariant
                        s <= take,
                        take <= RENDER_QUANTUM_SIZE,
                        data@.len() == RENDER_QUANTUM_SIZE,
                        c2 < channels,
                        out@.len() == channels,
                        mid_out.len() == channels,
                        out@[c2 as int]@.len() == mid_out[c2 as int]@.len() + s,
                        forall|k: int|
                            0 <= k < channels && k != c2 ==> (#[trigger] out@[k]) == mid_out[k],
                    decreases take - s,
                {
                    let sample = data[s];
                    let ch = &mut out[c2];
                    ch.push(sample);
                    s += 1;
                }
                c2 += 1;
            }
            let ghost pre_rendered = rendered as int;
            rendered = rendered + take;
            proof {
                if rendered == length {
                    assert(length == pre_rendered + take);
                    assert(pre_rendered % (RENDER_QUANTUM_SIZE as int) == 0);
                    assert(((length + RENDER_QUANTUM_SIZE - 1) / (RENDER_QUANTUM_SIZE as int)) * (
                    RENDER_QUANTUM_SIZE as int) == pre_rendered + RENDER_QUANTUM_SIZE) by {
                        let q = pre_rendered / (RENDER_QUANTUM_SIZE as int);
                        assert(pre_rendered == q * (RENDER_QUANTUM_SIZE as int));
                        assert(length + RENDER_QUANTUM_SIZE - 1 == q * (
                        RENDER_QUANTUM_SIZE as int) + take + RENDER_QUANTUM_SIZE - 1);
                        assert(1 <= take <= RENDER_QUANTUM_SIZE);
                        assert((q * (RENDER_QUANTUM_SIZE as int) + take + RENDER_QUANTUM_SIZE - 1)
                            / (RENDER_QUANTUM_SIZE as int) == q + 1) by (nonlinear_arith)
                            requires
                                1 <= take <= RENDER_QUANTUM_SIZE,
                                RENDER_QUANTUM_SIZE == 128,
                                q >= 0,
                        ;
                    }
                }
            }
        }
        self.base.set_state(AudioContextState::Suspended);
        out
    }

    /// One channel of the destination's latest output, or silence where
    /// the destination produced fewer channels.
    fn destination_channel(&self, c: usize) -> (r: Vec<i64>)
        requires
            self.wf(),
        ensures
            r@.len() == RENDER_QUANTUM_SIZE,
            r@ == (if 0 < self.graph.nodes@.len() && self.graph.nodes@[0] is Some
                && self.graph.nodes@[0]->Some_0.outputs@.len() > 0 && c < MAX_CHANNELS && (
            c as int) < self.graph.nodes@[0]->Some_0.outputs@[0].n_channels() {
                self.graph.alloc.samples(self.graph.nodes@[0]->Some_0.outputs@[0].slot(c as int))
            } else {
                crate::buffer2::zero_seq()
            }),
    {
        if (DESTINATION_NODE_ID as usize) < self.graph.nodes.len() {
            match &self.graph.nodes[DESTINATION_NODE_ID as usize] {
                Option::Some(node) => {
                    if node.outputs.len() > 0 && c < MAX_CHANNELS {
                        proof {
                            assert(node.wf(self.graph.alloc));
                            assert(node.outputs@[0].wf(self.graph.alloc));
                        }
                        let b = &node.outputs[0];
                        if c < b.number_of_channels() {
                            let h = b.channel_data(c);
                            proof {
                                lemma_block_len(self.graph.alloc, b.slot(c as int));
                            }
                            self.graph.alloc.copy_samples(h)
                        } else {
                            crate::buffer2::zero_quantum()
                        }
                    } else {
                        crate::buffer2::zero_quantum()
                    }
                },
                Option::None => crate::buffer2::zero_quantum(),
            }
        } else {
            crate::buffer2::zero_quantum()
        }
    }
}

} // verus!
