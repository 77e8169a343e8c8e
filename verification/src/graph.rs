//! The render-thread graph and the per-quantum render loop.
//!
//! Every quantum the loop applies the pending control messages in order,
//! orders the live nodes so that sources run before the nodes they feed,
//! mixes each node's inputs according to its channel configuration, runs
//! the processors, reclaims finished nodes, and advances the frame counter
//! by exactly one quantum.

use vstd::prelude::*;

verus! {

use crate::{
    MAX_CHANNELS, RENDER_QUANTUM_SIZE, TICKS_PER_FRAME, PARAM_INPUT_PORT, DESTINATION_NODE_ID,
};
use crate::buffer2::{
    Alloc, AudioBuffer, zero_quantum, zero_seq, add_seq, add_vecs, mix_datas, mix_view, deep_view,
};
use crate::channel_config::{ChannelConfig, ChannelCountMode, ChannelInterpretation};
use crate::message::ControlMessage;
use crate::process::{Processor, RenderScope};
use crate::param::ParamTimeline;

/// Largest node id the render side accepts; protects the id-indexed node
/// table against absurd ids in malformed messages.
pub const MAX_NODE_ID: u64 = 1048576;

/// A connection from one node's output port to another node's input port.
#[derive(Clone, Copy, Debug, PartialEq, Eq, Structural)]
pub struct Edge {
    /// Source output port.
    pub src_output: usize,
    /// Destination node id.
    pub dst: u64,
    /// Destination input port; `PARAM_INPUT_PORT` marks an ordering-only
    /// connection.
    pub dst_input: usize,
}

/// Render-side record of one node.
pub struct Node {
    /// The node's processor.
    pub processor: Processor,
    /// Channel configuration for input mixing.
    pub channel_config: ChannelConfig,
    /// Number of input ports.
    pub n_inputs: usize,
    /// Number of output ports.
    pub n_outputs: usize,
    /// The outputs rendered in the latest quantum.
    pub outputs: Vec<AudioBuffer>,
    /// Outgoing connections.
    pub edges: Vec<Edge>,
    /// Whether the node should be dropped once finished.
    pub free_when_finished: bool,
}

impl Node {
    /// A node is well formed when it has one output buffer per declared
    /// output port and every buffer is a valid quantum.
    pub open spec fn wf(self, alloc: Alloc) -> bool {
        &&& self.outputs@.len() == self.n_outputs
        &&& forall|o: int|
            0 <= o < self.outputs@.len() ==> (#[trigger] self.outputs@[o]).wf(alloc)
        &&& self.channel_config.wf()
        &&& self.n_outputs <= MAX_CHANNELS
        &&& (self.processor matches Processor::Param(p) ==> p.timeline.wf())
    }
}

/// Whether a registration message is acceptable to the render side.
pub open spec fn register_ok(
    id: u64,
    outputs: usize,
    channel_config: ChannelConfig,
    processor: Processor,
) -> bool {
    &&& id <= MAX_NODE_ID
    &&& outputs <= MAX_CHANNELS
    &&& 1 <= channel_config.count <= MAX_CHANNELS
    &&& (processor matches Processor::Param(p) ==> p.timeline.descriptor.min_value
        <= p.timeline.descriptor.max_value && p.timeline.events@.len() == 0)
}

/// The edges kept after a disconnect: all of them but those into `to`;
/// with no target, none at all.
pub open spec fn kept_edges_spec(edges: Seq<Edge>, to: Option<u64>) -> Seq<Edge>
    decreases edges.len(),
{
    if edges.len() == 0 {
        Seq::empty()
    } else {
        let rest = kept_edges_spec(edges.skip(1), to);
        let keep = match to {
            Option::Some(t) => edges[0].dst != t,
            Option::None => false,
        };
        if keep {
            seq![edges[0]] + rest
        } else {
            rest
        }
    }
}

/// Two node records that agree on everything but their edge list.
pub open spec fn same_but_edges(a: Node, b: Node) -> bool {
    &&& a.processor == b.processor
    &&& a.channel_config == b.channel_config
    &&& a.n_inputs == b.n_inputs
    &&& a.n_outputs == b.n_outputs
    &&& a.outputs == b.outputs
    &&& a.free_when_finished == b.free_when_finished
}

/// Two node records that agree on everything but the free flag.
pub open spec fn same_but_flag(a: Node, b: Node) -> bool {
    &&& a.processor == b.processor
    &&& a.channel_config == b.channel_config
    &&& a.n_inputs == b.n_inputs
    &&& a.n_outputs == b.n_outputs
    &&& a.outputs == b.outputs
    &&& a.edges == b.edges
}

/// Two node records that agree on everything but their processor state.
pub open spec fn same_but_processor(a: Node, b: Node) -> bool {
    &&& a.channel_config == b.channel_config
    &&& a.n_inputs == b.n_inputs
    &&& a.n_outputs == b.n_outputs
    &&& a.outputs == b.outputs
    &&& a.edges == b.edges
    &&& a.free_when_finished == b.free_when_finished
}

/// Two oscillator states that agree on everything but their schedule.
pub open spec fn same_osc_but_schedule(
    a: crate::oscillator::OscillatorRenderer,
    b: crate::oscillator::OscillatorRenderer,
) -> bool {
    &&& a.kind == b.kind
    &&& a.frequency == b.frequency
    &&& a.detune == b.detune
    &&& a.phase == b.phase
    &&& a.started == b.started
    &&& a.periodic_wave == b.periodic_wave
    &&& a.band_limited == b.band_limited
}

/// The start time after a schedule request: a first request sets it, a
/// repeated one is refused and leaves it.
pub open spec fn start_applied(old_start: u64, requested: u64) -> u64 {
    if old_start == u64::MAX {
        requested
    } else {
        old_start
    }
}

/// The effect of a scheduling message on the node table: a live source
/// node's schedule is updated (a repeated start being refused), every
/// other node — and every non-source target — is left untouched.
pub open spec fn schedule_effect(
    pre: Seq<Option<Node>>,
    post: Seq<Option<Node>>,
    id: u64,
    start: Option<u64>,
    stop: Option<u64>,
) -> bool {
    if id < pre.len() && pre[id as int] is Some {
        &&& post.len() == pre.len()
        &&& forall|i: int| 0 <= i < pre.len() && i != id ==> post[i] == pre[i]
        &&& (pre[id as int]->Some_0.processor is Oscillator ==> (post[id as int] matches
            Option::Some(n2) && same_but_processor(n2, pre[id as int]->Some_0)
            && (n2.processor matches Processor::Oscillator(o2) && same_osc_but_schedule(
            o2,
            pre[id as int]->Some_0.processor->Oscillator_0,
        ) && o2.scheduler.start_time() == (match start {
            Option::Some(s) => start_applied(
                pre[id as int]->Some_0.processor->Oscillator_0.scheduler.start_time(),
                s,
            ),
            Option::None => pre[id as int]->Some_0.processor->Oscillator_0.scheduler.start_time(),
        }) && o2.scheduler.stop_time() == (match stop {
            Option::Some(s) => s,
            Option::None => pre[id as int]->Some_0.processor->Oscillator_0.scheduler.stop_time(),
        }))))
        &&& (pre[id as int]->Some_0.processor is Constant ==> (post[id as int] matches
            Option::Some(n2) && same_but_processor(n2, pre[id as int]->Some_0)
            && (n2.processor matches Processor::Constant(c2) && c2.offset == pre[
            id as int
        ]->Some_0.processor->Constant_0.offset && c2.scheduler.start_time() == (match start {
            Option::Some(s) => start_applied(
                pre[id as int]->Some_0.processor->Constant_0.scheduler.start_time(),
                s,
            ),
            Option::None => pre[id as int]->Some_0.processor->Constant_0.scheduler.start_time(),
        }) && c2.scheduler.stop_time() == (match stop {
            Option::Some(s) => s,
            Option::None => pre[id as int]->Some_0.processor->Constant_0.scheduler.stop_time(),
        }))))
        &&& (!(pre[id as int]->Some_0.processor is Oscillator) && !(pre[
            id as int
        ]->Some_0.processor is Constant) ==> post == pre)
    } else {
        post == pre
    }
}

/// Whether some edge of the list points at node `id`.
pub open spec fn edge_to(edges: Seq<Edge>, id: u64) -> bool {
    exists|k: int| 0 <= k < edges.len() && edges[k].dst == id
}

/// Number of live, reachable, still-unprocessed nodes among the first `m`.
pub open spec fn undone_count(
    nodes: Seq<Option<Node>>,
    reach: Seq<bool>,
    done: Seq<bool>,
    m: int,
) -> int
    decreases m,
{
    if m <= 0 {
        0
    } else {
        undone_count(nodes, reach, done, m - 1) + (if nodes[m - 1] is Some && reach[m - 1]
            && !done[m - 1] {
            1int
        } else {
            0int
        })
    }
}

/// With no live, reachable, unprocessed node in the prefix, the count is
/// zero — and conversely.
proof fn lemma_undone_zero(nodes: Seq<Option<Node>>, reach: Seq<bool>, done: Seq<bool>, m: int)
    ensures
        (forall|j: int| 0 <= j < m ==> !(nodes[j] is Some && reach[j] && !done[j])) <==> (
        undone_count(nodes, reach, done, m) == 0),
    decreases m,
{
    if m > 0 {
        lemma_undone_zero(nodes, reach, done, m - 1);
        lemma_undone_nonneg(nodes, reach, done, m - 1);
    }
}

/// The count is never negative.
proof fn lemma_undone_nonneg(nodes: Seq<Option<Node>>, reach: Seq<bool>, done: Seq<bool>, m: int)
    ensures
        undone_count(nodes, reach, done, m) >= 0,
    decreases m,
{
    if m > 0 {
        lemma_undone_nonneg(nodes, reach, done, m - 1);
    }
}

/// Marking one live, reachable, unprocessed node as done lowers the count
/// by one.
#[verifier::rlimit(60)]
proof fn lemma_undone_update(
    nodes: Seq<Option<Node>>,
    reach: Seq<bool>,
    done: Seq<bool>,
    p: int,
    m: int,
)
    requires
        0 <= p < done.len(),
        m <= done.len(),
        nodes[p] is Some,
        reach[p],
        !done[p],
    ensures
        undone_count(nodes, reach, done.update(p, true), m) == undone_count(
            nodes,
            reach,
            done,
            m,
        ) - (if p < m {
            1int
        } else {
            0int
        }),
    decreases m,
{
    if m > 0 {
        lemma_undone_update(nodes, reach, done, p, m - 1);
        if m - 1 == p {
            assert(done.update(p, true)[m - 1]);
        } else {
            assert(done.update(p, true)[m - 1] == done[m - 1]);
        }
    }
}

/// The render-thread graph: the node table (indexed by id), the block
/// pool, and the frame counter.
pub struct Graph {
    /// Node records, indexed by node id; `None` marks an absent node.
    pub nodes: Vec<Option<Node>>,
    /// The block pool backing all quantum buffers.
    pub alloc: Alloc,
    /// Frames rendered so far.
    pub frames: u64,
    /// Context sample rate in Hz.
    pub sample_rate: u32,
    /// Number of malformed messages that were dropped.
    pub dropped_messages: u64,
}

impl Graph {
    /// Graph well-formedness: the pool is consistent, every present node is
    /// well formed — so in particular, after every quantum each node holds
    /// exactly `n_outputs` output quanta whose channel counts lie in
    /// `1..=MAX_CHANNELS` — and the frame counter leaves room for more
    /// quanta.
    pub open spec fn wf(self) -> bool {
        &&& self.alloc.wf()
        &&& forall|i: int|
            0 <= i < self.nodes@.len() && self.nodes@[i] is Some
                ==> (#[trigger] self.nodes@[i])->Some_0.wf(self.alloc)
        &&& self.nodes@.len() <= MAX_NODE_ID + 1
        &&& self.frames <= 4294000000u64
        &&& self.sample_rate >= 1
    }

    /// Create an empty graph with a pool of the given capacity.
    pub fn new(sample_rate: u32, pool_capacity: usize) -> (r: Graph)
        requires
            sample_rate >= 1,
            pool_capacity < 1000000,
        ensures
            r.wf(),
            r.frames == 0,
            r.sample_rate == sample_rate,
            r.nodes@.len() == 0,
    {
        Graph {
            nodes: Vec::new(),
            alloc: Alloc::with_capacity(pool_capacity),
            frames: 0,
            sample_rate,
            dropped_messages: 0,
        }
    }

    /// Whether a node id is present and live.
    fn is_live(&self, id: u64) -> (r: bool)
        ensures
            r == (id < self.nodes@.len() && self.nodes@[id as int] is Some),
    {
        id < self.nodes.len() as u64 && matches!(self.nodes[id as usize], Option::Some(_))
    }

    /// Apply one control message.  A malformed message (unknown node,
    /// invalid configuration, rejected parameter event) is dropped and
    /// counted, never failing the render thread.
    #[verifier::rlimit(100)]
    pub fn apply_message(&mut self, m: ControlMessage)
        requires
            old(self).wf(),
        ensures
            final(self).wf(),
            final(self).frames == old(self).frames,
            final(self).sample_rate == old(self).sample_rate,
            final(self).alloc.n_blocks() == old(self).alloc.n_blocks(),
            final(self).nodes@.len() >= old(self).nodes@.len(),
            m matches ControlMessage::RegisterNode { id, processor, inputs, outputs, channel_config }
                ==> (if register_ok(id, outputs, channel_config, processor) {
                &&& final(self).nodes@.len() == (if old(self).nodes@.len() >= id + 1 {
                    old(self).nodes@.len() as int
                } else {
                    id + 1
                })
                &&& final(self).nodes@[id as int] matches Option::Some(n2) && n2.processor
                    == processor && n2.channel_config == channel_config && n2.n_inputs == inputs
                    && n2.n_outputs == outputs && n2.outputs@.len() == outputs && n2.edges@.len()
                    == 0 && !n2.free_when_finished
                &&& forall|i: int|
                    0 <= i < old(self).nodes@.len() && i != id ==> final(self).nodes@[i] == old(self).nodes@[i]
            } else {
                final(self).nodes@ == old(self).nodes@
            }),
            m matches ControlMessage::ConnectNode { from, to, output, input } ==> (if from < old(self).nodes@.len() && old(self).nodes@[from as int] is Some && to < old(self).nodes@.len()
                && old(self).nodes@[to as int] is Some {
                &&& final(self).nodes@.len() == old(self).nodes@.len()
                &&& final(self).nodes@[from as int] matches Option::Some(n2) && same_but_edges(
                    n2,
                    old(self).nodes@[from as int]->Some_0,
                ) && n2.edges@ == old(self).nodes@[from as int]->Some_0.edges@.push(
                    (Edge { src_output: output, dst: to, dst_input: input }),
                )
                &&& forall|i: int|
                    0 <= i < old(self).nodes@.len() && i != from ==> final(self).nodes@[i] == old(self).nodes@[i]
            } else {
                final(self).nodes@ == old(self).nodes@
            }),
            m matches ControlMessage::DisconnectNode { from, to } ==> (if from < old(self).nodes@.len() && old(self).nodes@[from as int] is Some {
                &&& final(self).nodes@.len() == old(self).nodes@.len()
                &&& final(self).nodes@[from as int] matches Option::Some(n2) && same_but_edges(
                    n2,
                    old(self).nodes@[from as int]->Some_0,
                ) && n2.edges@ == kept_edges_spec(
                    old(self).nodes@[from as int]->Some_0.edges@,
                    Option::Some(to),
                )
                &&& forall|i: int|
                    0 <= i < old(self).nodes@.len() && i != from ==> final(self).nodes@[i] == old(self).nodes@[i]
            } else {
                final(self).nodes@ == old(self).nodes@
            }),
            m matches ControlMessage::DisconnectAll { from } ==> (if from < old(self).nodes@.len() && old(self).nodes@[from as int] is Some {
                &&& final(self).nodes@.len() == old(self).nodes@.len()
                &&& final(self).nodes@[from as int] matches Option::Some(n2) && same_but_edges(
                    n2,
                    old(self).nodes@[from as int]->Some_0,
                ) && n2.edges@ == kept_edges_spec(
                    old(self).nodes@[from as int]->Some_0.edges@,
                    Option::None,
                )
                &&& forall|i: int|
                    0 <= i < old(self).nodes@.len() && i != from ==> final(self).nodes@[i] == old(self).nodes@[i]
            } else {
                final(self).nodes@ == old(self).nodes@
            }),
            m matches ControlMessage::FreeWhenFinished { id } ==> (if id < old(self).nodes@.len()
                && old(self).nodes@[id as int] is Some {
                &&& final(self).nodes@.len() == old(self).nodes@.len()
                &&& final(self).nodes@[id as int] matches Option::Some(n2) && same_but_flag(
                    n2,
                    old(self).nodes@[id as int]->Some_0,
                ) && n2.free_when_finished
                &&& forall|i: int|
                    0 <= i < old(self).nodes@.len() && i != id ==> final(self).nodes@[i] == old(self).nodes@[i]
            } else {
                final(self).nodes@ == old(self).nodes@
            }),
            m matches ControlMessage::AudioParamEvent { to, event } ==> (if to < old(self).nodes@.len() && old(self).nodes@[to as int] is Some && old(self).nodes@[to as int]->Some_0.processor is Param {
                &&& final(self).nodes@.len() == old(self).nodes@.len()
                &&& final(self).nodes@[to as int] matches Option::Some(n2) && same_but_processor(
                    n2,
                    old(self).nodes@[to as int]->Some_0,
                ) && (n2.processor matches Processor::Param(p2)
                    && crate::param::insert_event_effect(
                    old(self).nodes@[to as int]->Some_0.processor->Param_0.timeline,
                    p2.timeline,
                    event,
                ))
                &&& forall|i: int|
                    0 <= i < old(self).nodes@.len() && i != to ==> final(self).nodes@[i] == old(self).nodes@[i]
            } else {
                final(self).nodes@ == old(self).nodes@
            }),
            m matches ControlMessage::ScheduleStart { id, start } ==> schedule_effect(
                old(self).nodes@,
                final(self).nodes@,
                id,
                Option::Some(start),
                Option::None,
            ),
            m matches ControlMessage::ScheduleStop { id, stop } ==> schedule_effect(
                old(self).nodes@,
                final(self).nodes@,
                id,
                Option::None,
                Option::Some(stop),
            ),
            m matches ControlMessage::SetOscillatorType { id, kind } ==> (if id < old(self).nodes@.len() && old(self).nodes@[id as int] is Some && old(self).nodes@[id as int]->Some_0.processor is Oscillator {
                &&& final(self).nodes@.len() == old(self).nodes@.len()
                &&& final(self).nodes@[id as int] matches Option::Some(n2) && same_but_processor(
                    n2,
                    old(self).nodes@[id as int]->Some_0,
                ) && (n2.processor matches Processor::Oscillator(o2) && o2.kind == kind && o2.frequency
                    == old(self).nodes@[
                    id as int
                ]->Some_0.processor->Oscillator_0.frequency && o2.detune == old(self).nodes@[
                    id as int
                ]->Some_0.processor->Oscillator_0.detune && o2.phase == old(self).nodes@[
                    id as int
                ]->Some_0.processor->Oscillator_0.phase && o2.started == old(self).nodes@[
                    id as int
                ]->Some_0.processor->Oscillator_0.started && o2.periodic_wave == old(self).nodes@[
                    id as int
                ]->Some_0.processor->Oscillator_0.periodic_wave && o2.band_limited == old(self).nodes@[id as int]->Some_0.processor->Oscillator_0.band_limited && o2.scheduler
                    == old(self).nodes@[id as int]->Some_0.processor->Oscillator_0.scheduler)
                &&& forall|i: int|
                    0 <= i < old(self).nodes@.len() && i != id ==> final(self).nodes@[i] == old(self).nodes@[i]
            } else {
                final(self).nodes@ == old(self).nodes@
            }),
            m matches ControlMessage::SetPeriodicWave { id, wave } ==> (if id < old(self).nodes@.len() && old(self).nodes@[id as int] is Some && old(self).nodes@[id as int]->Some_0.processor is Oscillator {
                &&& final(self).nodes@.len() == old(self).nodes@.len()
                &&& final(self).nodes@[id as int] matches Option::Some(n2) && same_but_processor(
                    n2,
                    old(self).nodes@[id as int]->Some_0,
                ) && (n2.processor matches Processor::Oscillator(o2) && o2.kind
                    == crate::oscillator::OscillatorType::Custom && o2.periodic_wave
                    == Option::Some(wave) && o2.frequency == old(self).nodes@[
                    id as int
                ]->Some_0.processor->Oscillator_0.frequency && o2.detune == old(self).nodes@[
                    id as int
                ]->Some_0.processor->Oscillator_0.detune && o2.phase == old(self).nodes@[
                    id as int
                ]->Some_0.processor->Oscillator_0.phase && o2.started == old(self).nodes@[
                    id as int
                ]->Some_0.processor->Oscillator_0.started && o2.band_limited == old(self).nodes@[id as int]->Some_0.processor->Oscillator_0.band_limited && o2.scheduler
                    == old(self).nodes@[id as int]->Some_0.processor->Oscillator_0.scheduler)
                &&& forall|i: int|
                    0 <= i < old(self).nodes@.len() && i != id ==> final(self).nodes@[i] == old(self).nodes@[i]
            } else {
                final(self).nodes@ == old(self).nodes@
            }),
    {
        match m {
            ControlMessage::RegisterNode { id, processor, inputs, outputs, channel_config } => {
                if id > MAX_NODE_ID || outputs > MAX_CHANNELS || channel_config.count < 1
                    || channel_config.count > MAX_CHANNELS {
                    self.bump_dropped();
                    return ;
                }
                // Param timelines must arrive well-formed.
                if let Processor::Param(p) = &processor {
                    if !param_timeline_ok(&p.timeline) {
                        self.bump_dropped();
                        return ;
                    }
                }
                let mut outs: Vec<AudioBuffer> = Vec::new();
                let mut o: usize = 0;
                while o < outputs
                    invariant
                        o <= outputs,
                        outs@.len() == o,
                        old(self).alloc.wf(),
                        forall|k: int|
                            0 <= k < o ==> (#[trigger] outs@[k]).wf(old(self).alloc),
                    decreases outputs - o,
                {
                    let b = AudioBuffer::silent();
                    outs.push(b);
                    o += 1;
                }
                let node = Node {
                    processor,
                    channel_config,
                    n_inputs: inputs,
                    n_outputs: outputs,
                    outputs: outs,
                    edges: Vec::new(),
                    free_when_finished: false,
                };
                let need = id as usize + 1;
                let ghost pre0 = *self;
                while self.nodes.len() < need
                    invariant
                        need == id + 1,
                        id <= MAX_NODE_ID,
                        self.alloc == pre0.alloc,
                        self.frames == pre0.frames,
                        self.sample_rate == pre0.sample_rate,
                        pre0.wf(),
                        self.nodes@.len() >= pre0.nodes@.len(),
                        self.nodes@.len() <= need || self.nodes@.len() == pre0.nodes@.len(),
                        forall|i: int|
                            0 <= i < pre0.nodes@.len() ==> self.nodes@[i] == pre0.nodes@[i],
                        forall|i: int|
                            pre0.nodes@.len() <= i < self.nodes@.len() ==> self.nodes@[i] is None,
                    decreases need - self.nodes@.len(),
                {
                    self.nodes.push(Option::None);
                }
                proof {
                    assert(self.wf()) by {
                        assert forall|i: int|
                            0 <= i < self.nodes@.len() && self.nodes@[i] is Some implies (
                        #[trigger] self.nodes@[i])->Some_0.wf(self.alloc) by {
                            if i < pre0.nodes@.len() {
                                assert(self.nodes@[i] == pre0.nodes@[i]);
                            }
                        }
                    }
                }
                let ghost pre = *self;
                self.drop_node_buffers(id as usize);
                self.nodes[id as usize] = Option::Some(node);
                proof {
                    assert forall|i: int|
                        0 <= i < self.nodes@.len() && self.nodes@[i] is Some implies (
                    #[trigger] self.nodes@[i])->Some_0.wf(self.alloc) by {
                        if i != id as int {
                            assert(self.nodes@[i] == pre.nodes@[i]);
                            assert(pre.nodes@[i]->Some_0.wf(pre.alloc));
                        } else {
                            assert(self.nodes@[i]->Some_0 == node);
                            assert forall|o: int|
                                0 <= o < node.outputs@.len() implies (
                            #[trigger] node.outputs@[o]).wf(self.alloc) by {
                                assert(node.outputs@[o].wf(pre0.alloc));
                            }
                        }
                    }
                }
            },
            ControlMessage::ConnectNode { from, to, output, input } => {
                if self.is_live(from) && self.is_live(to) {
                    let f = from as usize;
                    let ghost pre = *self;
                    match &mut self.nodes[f] {
                        Option::Some(node) => {
                            node.edges.push(Edge { src_output: output, dst: to, dst_input: input });
                        },
                        Option::None => {},
                    }
                    proof {
                        assert forall|i: int|
                            0 <= i < self.nodes@.len() && self.nodes@[i] is Some implies (
                        #[trigger] self.nodes@[i])->Some_0.wf(self.alloc) by {
                            if i != f {
                                assert(self.nodes@[i] == pre.nodes@[i]);
                            }
                        }
                    }
                } else {
                    self.bump_dropped();
                }
            },
            ControlMessage::DisconnectNode { from, to } => {
                self.filter_edges(from, Option::Some(to));
            },
            ControlMessage::DisconnectAll { from } => {
                self.filter_edges(from, Option::None);
            },
            ControlMessage::FreeWhenFinished { id } => {
                if self.is_live(id) {
                    let f = id as usize;
                    let ghost pre = *self;
                    match &mut self.nodes[f] {
                        Option::Some(node) => {
                            node.free_when_finished = true;
                        },
                        Option::None => {},
                    }
                    proof {
                        assert forall|i: int|
                            0 <= i < self.nodes@.len() && self.nodes@[i] is Some implies (
                        #[trigger] self.nodes@[i])->Some_0.wf(self.alloc) by {
                            if i != f {
                                assert(self.nodes@[i] == pre.nodes@[i]);
                            }
                        }
                    }
                } else {
                    self.bump_dropped();
                }
            },
            ControlMessage::AudioParamEvent { to, event } => {
                if self.is_live(to) {
                    let f = to as usize;
                    let ghost pre = *self;
                    let mut ok = false;
                    proof {
                        assert(pre.nodes@[f as int]->Some_0.wf(pre.alloc));
                    }
                    match &mut self.nodes[f] {
                        Option::Some(node) => {
                            match &mut node.processor {
                                Processor::Param(p) => {
                                    let r = p.timeline.insert_event(event);
                                    ok = matches!(r, Result::Ok(_));
                                },
                                _ => {},
                            }
                        },
                        Option::None => {},
                    }
                    proof {
                        assert forall|i: int|
                            0 <= i < self.nodes@.len() && self.nodes@[i] is Some implies (
                        #[trigger] self.nodes@[i])->Some_0.wf(self.alloc) by {
                            if i != f {
                                assert(self.nodes@[i] == pre.nodes@[i]);
                            }
                        }
                    }
                    if !ok {
                        self.bump_dropped();
                    }
                } else {
                    self.bump_dropped();
                }
            },
            ControlMessage::ScheduleStart { id, start } => {
                self.with_scheduler(id, Option::Some(start), Option::None);
            },
            ControlMessage::ScheduleStop { id, stop } => {
                self.with_scheduler(id, Option::None, Option::Some(stop));
            },
            ControlMessage::SetOscillatorType { id, kind } => {
                if self.is_live(id) {
                    let f = id as usize;
                    let ghost pre = *self;
                    match &mut self.nodes[f] {
                        Option::Some(node) => {
                            match &mut node.processor {
                                Processor::Oscillator(o) => {
                                    o.kind = kind;
                                },
                                _ => {},
                            }
                        },
                        Option::None => {},
                    }
                    proof {
                        assert forall|i: int|
                            0 <= i < self.nodes@.len() && self.nodes@[i] is Some implies (
                        #[trigger] self.nodes@[i])->Some_0.wf(self.alloc) by {
                            if i != f {
                                assert(self.nodes@[i] == pre.nodes@[i]);
                            }
                        }
                    }
                } else {
                    self.bump_dropped();
                }
            },
            ControlMessage::SetPeriodicWave { id, wave } => {
                if self.is_live(id) {
                    let f = id as usize;
                    let ghost pre = *self;
                    match &mut self.nodes[f] {
                        Option::Some(node) => {
                            match &mut node.processor {
                                Processor::Oscillator(o) => {
                                    o.periodic_wave = Option::Some(wave);
                                    o.kind = crate::oscillator::OscillatorType::Custom;
                                },
                                _ => {},
                            }
                        },
                        Option::None => {},
                    }
                    proof {
                        assert forall|i: int|
                            0 <= i < self.nodes@.len() && self.nodes@[i] is Some implies (
                        #[trigger] self.nodes@[i])->Some_0.wf(self.alloc) by {
                            if i != f {
                                assert(self.nodes@[i] == pre.nodes@[i]);
                            }
                        }
                    }
                } else {
                    self.bump_dropped();
                }
            },
        }
    }

    /// Count a dropped message.
    fn bump_dropped(&mut self)
        ensures
            final(self).nodes == old(self).nodes,
            final(self).alloc == old(self).alloc,
            final(self).frames == old(self).frames,
            final(self).sample_rate == old(self).sample_rate,
    {
        if self.dropped_messages < u64::MAX {
            self.dropped_messages = self.dropped_messages + 1;
        }
    }

    /// Update a source node's scheduler.
    fn with_scheduler(&mut self, id: u64, start: Option<u64>, stop: Option<u64>)
        requires
            old(self).wf(),
        ensures
            final(self).wf(),
            final(self).frames == old(self).frames,
            final(self).sample_rate == old(self).sample_rate,
            final(self).alloc.n_blocks() == old(self).alloc.n_blocks(),
            final(self).nodes@.len() == old(self).nodes@.len(),
            schedule_effect(old(self).nodes@, final(self).nodes@, id, start, stop),
    {
        if self.is_live(id) {
            let f = id as usize;
            let ghost pre = *self;
            let mut ok = true;
            match &mut self.nodes[f] {
                Option::Some(node) => {
                    match &mut node.processor {
                        Processor::Oscillator(o) => {
                            let ghost o1 = *o;
                            if let Option::Some(s) = start {
                                // A repeated start was already refused on the
                                // control side; a stray one is dropped.
                                ok = matches!(o.scheduler.start_at(s), Result::Ok(_));
                            }
                            if let Option::Some(s) = stop {
                                o.scheduler.stop_at(s);
                            }
                            proof {
                                assert(same_osc_but_schedule(*o, o1));
                                assert(o.scheduler.start_time() == (match start {
                                    Option::Some(s) => start_applied(
                                        o1.scheduler.start_time(),
                                        s,
                                    ),
                                    Option::None => o1.scheduler.start_time(),
                                }));
                                assert(o.scheduler.stop_time() == (match stop {
                                    Option::Some(s) => s,
                                    Option::None => o1.scheduler.stop_time(),
                                }));
                            }
                        },
                        Processor::Constant(c) => {
                            let ghost c1 = *c;
                            if let Option::Some(s) = start {
                                ok = matches!(c.scheduler.start_at(s), Result::Ok(_));
                            }
                            if let Option::Some(s) = stop {
                                c.scheduler.stop_at(s);
                            }
                            proof {
                                assert(c.offset == c1.offset);
                                assert(c.scheduler.start_time() == (match start {
                                    Option::Some(s) => start_applied(
                                        c1.scheduler.start_time(),
                                        s,
                                    ),
                                    Option::None => c1.scheduler.start_time(),
                                }));
                                assert(c.scheduler.stop_time() == (match stop {
                                    Option::Some(s) => s,
                                    Option::None => c1.scheduler.stop_time(),
                                }));
                            }
                        },
                        _ => {},
                    }
                },
                Option::None => {},
            }
            proof {
                if !(pre.nodes@[f as int]->Some_0.processor is Oscillator) && !(
                pre.nodes@[f as int]->Some_0.processor is Constant) {
                    assert(self.nodes@ =~= pre.nodes@);
                }
            }
            if !ok {
                self.bump_dropped();
            }
            proof {
                assert forall|i: int|
                    0 <= i < self.nodes@.len() && self.nodes@[i] is Some implies (
                #[trigger] self.nodes@[i])->Some_0.wf(self.alloc) by {
                    if i != f {
                        assert(self.nodes@[i] == pre.nodes@[i]);
                    }
                }
                assert forall|i: int|
                    0 <= i < pre.nodes@.len() && i != id ==> self.nodes@[i] == pre.nodes@[i] by {}
                assert(schedule_effect(old(self).nodes@, self.nodes@, id, start, stop));
            }
        } else {
            self.bump_dropped();
        }
    }

    /// Remove outgoing edges of `from`; with a target, only edges to that
    /// target, otherwise all of them.  The kept edges stay in order.
    fn filter_edges(&mut self, from: u64, to: Option<u64>)
        requires
            old(self).wf(),
        ensures
            final(self).wf(),
            final(self).frames == old(self).frames,
            final(self).sample_rate == old(self).sample_rate,
            final(self).alloc.n_blocks() == old(self).alloc.n_blocks(),
            final(self).nodes@.len() == old(self).nodes@.len(),
            from < old(self).nodes@.len() && old(self).nodes@[from as int] is Some ==> (final(self).nodes@[from as int] matches Option::Some(n2) && same_but_edges(
                n2,
                old(self).nodes@[from as int]->Some_0,
            ) && n2.edges@ == kept_edges_spec(old(self).nodes@[from as int]->Some_0.edges@, to)
                && (forall|i: int|
                0 <= i < old(self).nodes@.len() && i != from ==> final(self).nodes@[i] == old(self).nodes@[i])),
            !(from < old(self).nodes@.len() && old(self).nodes@[from as int] is Some) ==> final(self).nodes@ == old(self).nodes@,
    {
        if self.is_live(from) {
            let f = from as usize;
            let ghost pre = *self;
            match &mut self.nodes[f] {
                Option::Some(node) => {
                    let ghost all = node.edges@;
                    let mut kept: Vec<Edge> = Vec::new();
                    proof {
                        assert(all.skip(0) =~= all);
                        assert(kept@ + kept_edges_spec(all, to) =~= kept_edges_spec(all, to));
                    }
                    let mut k: usize = 0;
                    let n = node.edges.len();
                    while k < n
                        invariant
                            k <= n,
                            n == all.len(),
                            node.edges@ == all,
                            kept_edges_spec(all, to) == kept@ + kept_edges_spec(
                                all.skip(k as int),
                                to,
                            ),
                        decreases n - k,
                    {
                        let e = node.edges[k];
                        let keep = match to {
                            Option::Some(t) => e.dst != t,
                            Option::None => false,
                        };
                        proof {
                            assert(all.skip(k as int)[0] == all[k as int]);
                            assert(all.skip(k as int).skip(1) =~= all.skip(k + 1));
                        }
                        if keep {
                            kept.push(e);
                        }
                        k += 1;
                        proof {
                            assert(kept_edges_spec(all, to) == kept@ + kept_edges_spec(
                                all.skip(k as int),
                                to,
                            ));
                        }
                    }
                    proof {
                        assert(all.skip(n as int) =~= Seq::<Edge>::empty());
                        assert(kept@ + kept_edges_spec(all.skip(n as int), to) =~= kept@);
                    }
                    node.edges = kept;
                },
                Option::None => {},
            }
            proof {
                assert forall|i: int|
                    0 <= i < self.nodes@.len() && self.nodes@[i] is Some implies (
                #[trigger] self.nodes@[i])->Some_0.wf(self.alloc) by {
                    if i != f {
                        assert(self.nodes@[i] == pre.nodes@[i]);
                    }
                }
            }
        } else {
            self.bump_dropped();
        }
    }

    /// Release the output buffers of the node stored at `idx`, if any.
    fn drop_node_buffers(&mut self, idx: usize)
        requires
            old(self).wf(),
            idx < old(self).nodes@.len(),
        ensures
            final(self).wf(),
            final(self).frames == old(self).frames,
            final(self).sample_rate == old(self).sample_rate,
            final(self).nodes@.len() == old(self).nodes@.len(),
            final(self).nodes@[idx as int] is None,
            forall|i: int|
                0 <= i < old(self).nodes@.len() && i != idx ==> final(self).nodes@[i] == old(self).nodes@[i],
            final(self).alloc.n_blocks() == old(self).alloc.n_blocks(),
            forall|j: int|
                0 <= j < old(self).alloc.n_blocks() ==> final(self).alloc.block_data(j) == old(self).alloc.block_data(j),
    {
        let taken = self.nodes[idx].take();
        match taken {
            Option::Some(node) => {
                let mut outputs = node.outputs;
                let ghost pre_alloc = self.alloc;
                let ghost pre_nodes = self.nodes@;
                let ghost pre_frames = self.frames;
                let ghost pre_sr = self.sample_rate;
                let ghost pre_dropped = self.dropped_messages;
                loop
                    invariant
                        self.alloc.wf(),
                        self.alloc.n_blocks() == pre_alloc.n_blocks(),
                        self.nodes@ == pre_nodes,
                        self.frames == pre_frames,
                        self.sample_rate == pre_sr,
                        self.dropped_messages == pre_dropped,
                        forall|j: int|
                            0 <= j < pre_alloc.n_blocks() ==> self.alloc.block_data(j)
                                == pre_alloc.block_data(j),
                        forall|o: int|
                            0 <= o < outputs@.len() ==> (#[trigger] outputs@[o]).wf(pre_alloc),
                    decreases outputs@.len(),
                {
                    match outputs.pop() {
                        Option::Some(b) => {
                            proof {
                                assert(b.wf(self.alloc));
                            }
                            b.drop_in(&mut self.alloc);
                        },
                        Option::None => { break ; },
                    }
                }
                proof {
                    assert forall|i: int|
                        0 <= i < self.nodes@.len() && self.nodes@[i] is Some implies (
                    #[trigger] self.nodes@[i])->Some_0.wf(self.alloc) by {
                        assert(i != idx);
                        assert(self.nodes@[i] == old(self).nodes@[i]);
                        assert(old(self).nodes@[i]->Some_0.wf(old(self).alloc));
                    }
                }
            },
            Option::None => {},
        }
    }
}

impl Graph {
    /// Order the live nodes for processing: sources come before the nodes
    /// they feed (cycles are broken at the lowest id, whose back-edge
    /// inputs then read as silence), ties are broken by ascending id, and
    /// only nodes from which the destination is reachable are rendered.
    /// The order lists distinct live nodes.
    pub fn topo_order(&self) -> (order: Vec<u64>)
        requires
            self.wf(),
        ensures
            order@.len() <= self.nodes@.len(),
            forall|k: int|
                0 <= k < order@.len() ==> (#[trigger] order@[k]) < self.nodes@.len()
                    && self.nodes@[order@[k] as int] is Some,
            forall|k1: int, k2: int|
                0 <= k1 < k2 < order@.len() ==> #[trigger] order@[k1] != #[trigger] order@[k2],
            0 < self.nodes@.len() && self.nodes@[0] is Some ==> (forall|p: int|
                0 <= p < self.nodes@.len() && self.nodes@[p] is Some && edge_to(
                    self.nodes@[p]->Some_0.edges@,
                    0,
                ) ==> order@.contains(p as u64)),
    {
        let n = self.nodes.len();
        // Reverse reachability from the destination.
        let mut reach: Vec<bool> = Vec::new();
        let mut i: usize = 0;
        while i < n
            invariant
                i <= n,
                reach@.len() == i,
            decreases n - i,
        {
            reach.push(false);
            i += 1;
        }
        if 0 < n && self.is_live(DESTINATION_NODE_ID) {
            reach[0] = true;
        }
        let mut pass: usize = 0;
        while pass < n
            invariant
                reach@.len() == n,
                n == self.nodes@.len(),
                self.wf(),
                0 < n && self.nodes@[0] is Some ==> reach@[0],
                pass >= 1 ==> (forall|p: int|
                    0 <= p < n && self.nodes@[p] is Some && edge_to(
                        self.nodes@[p]->Some_0.edges@,
                        0,
                    ) && 0 < n && self.nodes@[0] is Some ==> reach@[p]),
            decreases n - pass,
        {
            let ghost reach_pass = reach@;
            let mut m: usize = 0;
            while m < n
                invariant
                    m <= n,
                    reach@.len() == n,
                    n == self.nodes@.len(),
                    self.wf(),
                    forall|j: int| 0 <= j < n && reach_pass[j] ==> reach@[j],
                    forall|p: int|
                        0 <= p < m && self.nodes@[p] is Some && edge_to(
                            self.nodes@[p]->Some_0.edges@,
                            0,
                        ) && 0 < n && self.nodes@[0] is Some && reach_pass[0] ==> reach@[p],
                decreases n - m,
            {
                if self.is_live(m as u64) && !reach[m] {
                    let mut hit = false;
                    match &self.nodes[m] {
                        Option::Some(node) => {
                            let mut k: usize = 0;
                            let ne = node.edges.len();
                            while k < ne
                                invariant
                                    k <= ne,
                                    ne == node.edges@.len(),
                                    reach@.len() == n,
                                    m < n,
                                    node.edges@ == self.nodes@[m as int]->Some_0.edges@,
                                    (0 < n && reach@[0] && (exists|k2: int|
                                        0 <= k2 < k && node.edges@[k2].dst == 0)) ==> hit,
                                decreases ne - k,
                            {
                                let e = node.edges[k];
                                if e.dst < n as u64 && reach[e.dst as usize] {
                                    hit = true;
                                }
                                k += 1;
                            }
                        },
                        Option::None => {},
                    }
                    if hit {
                        reach[m] = true;
                    }
                }
                m += 1;
            }
            pass += 1;
        }
        // In-degrees among the live, reachable nodes.
        let mut indeg: Vec<u64> = Vec::new();
        let mut i2: usize = 0;
        while i2 < n
            invariant
                i2 <= n,
                indeg@.len() == i2,
            decreases n - i2,
        {
            indeg.push(0);
            i2 += 1;
        }
        let mut m2: usize = 0;
        while m2 < n
            invariant
                m2 <= n,
                indeg@.len() == n,
                reach@.len() == n,
                n == self.nodes@.len(),
                self.wf(),
            decreases n - m2,
        {
            if self.is_live(m2 as u64) && reach[m2] {
                match &self.nodes[m2] {
                    Option::Some(node) => {
                        let mut k: usize = 0;
                        let ne = node.edges.len();
                        while k < ne
                            invariant
                                k <= ne,
                                ne == node.edges@.len(),
                                indeg@.len() == n,
                            decreases ne - k,
                        {
                            let e = node.edges[k];
                            if e.dst < n as u64 {
                                let d = e.dst as usize;
                                let cur = indeg[d];
                                if cur < u64::MAX {
                                    indeg[d] = cur + 1;
                                }
                            }
                            k += 1;
                        }
                    },
                    Option::None => {},
                }
            }
            m2 += 1;
        }
        // Repeatedly emit the smallest ready node.
        let mut done: Vec<bool> = Vec::new();
        let mut i3: usize = 0;
        while i3 < n
            invariant
                i3 <= n,
                done@.len() == i3,
                forall|j: int| 0 <= j < i3 ==> !done@[j],
            decreases n - i3,
        {
            done.push(false);
            i3 += 1;
        }
        // Count the live, reachable nodes still to order; the loop below
        // retires exactly one per iteration.
        let mut remaining: usize = 0;
        let mut i4: usize = 0;
        while i4 < n
            invariant
                i4 <= n,
                remaining <= i4,
                done@.len() == n,
                reach@.len() == n,
                n == self.nodes@.len(),
                remaining as int == undone_count(self.nodes@, reach@, done@, i4 as int),
            decreases n - i4,
        {
            if self.is_live(i4 as u64) && reach[i4] && !done[i4] {
                remaining += 1;
            }
            i4 += 1;
        }
        let mut order: Vec<u64> = Vec::new();
        while remaining > 0
            invariant
                done@.len() == n,
                indeg@.len() == n,
                reach@.len() == n,
                n == self.nodes@.len(),
                self.wf(),
                order@.len() <= n,
                remaining as int == undone_count(self.nodes@, reach@, done@, n as int),
                forall|k: int|
                    0 <= k < order@.len() ==> (#[trigger] order@[k]) < n
                        && self.nodes@[order@[k] as int] is Some && done@[order@[k] as int],
                forall|k1: int, k2: int|
                    0 <= k1 < k2 < order@.len() ==> #[trigger] order@[k1] != #[trigger] order@[
                        k2],
                forall|j: int| 0 <= j < n && done@[j] ==> order@.contains(j as u64),
                order@.len() + remaining <= n,
            decreases remaining,
        {
            // First choice: a ready node (no unprocessed sources).
            let mut pick: usize = n;
            let mut m3: usize = 0;
            while m3 < n
                invariant
                    m3 <= n,
                    done@.len() == n,
                    indeg@.len() == n,
                    reach@.len() == n,
                    n == self.nodes@.len(),
                    self.wf(),
                    pick == n || (pick < n && !done@[pick as int] && reach@[pick as int]
                        && self.nodes@[pick as int] is Some),
                decreases n - m3,
            {
                if pick == n && self.is_live(m3 as u64) && reach[m3] && !done[m3] && indeg[m3]
                    == 0 {
                    pick = m3;
                }
                m3 += 1;
            }
            if pick == n {
                // Cycle: take the smallest unprocessed reachable node,
                // silencing its back edges.
                let mut m4: usize = 0;
                while m4 < n
                    invariant
                        m4 <= n,
                        done@.len() == n,
                        reach@.len() == n,
                        n == self.nodes@.len(),
                        self.wf(),
                        pick == n || (pick < n && !done@[pick as int] && reach@[pick as int]
                            && self.nodes@[pick as int] is Some),
                        pick == n ==> (forall|j: int|
                            0 <= j < m4 ==> !(self.nodes@[j] is Some && reach@[j] && !done@[j])),
                    decreases n - m4,
                {
                    if pick == n && self.is_live(m4 as u64) && reach[m4] && !done[m4] {
                        pick = m4;
                    }
                    m4 += 1;
                }
            }
            proof {
                // The scans cannot both fail: the count invariant says an
                // unordered reachable node exists.
                if pick == n {
                    lemma_undone_zero(self.nodes@, reach@, done@, n as int);
                    assert(false);
                }
            }
            let ghost pre_order = order@;
            let ghost pre_done = done@;
            proof {
                assert forall|k: int| 0 <= k < pre_order.len() implies #[trigger] pre_order[k]
                    != pick as u64 by {
                    assert(done@[pre_order[k] as int]);
                }
            }
            order.push(pick as u64);
            done[pick] = true;
            proof {
                lemma_undone_update(self.nodes@, reach@, pre_done, pick as int, n as int);
                lemma_undone_nonneg(self.nodes@, reach@, done@, n as int);
                assert forall|j: int| 0 <= j < n && done@[j] implies order@.contains(j as u64)
                by {
                    if j == pick as int {
                        assert(order@[order@.len() - 1] == j as u64);
                    } else {
                        assert(pre_done[j]);
                        let k = choose|k: int|
                            0 <= k < pre_order.len() && pre_order[k] == j as u64;
                        assert(order@[k] == j as u64);
                    }
                }
            }
            remaining = remaining - 1;
            // Release this node's successors.
            match &self.nodes[pick] {
                Option::Some(node) => {
                    let mut k: usize = 0;
                    let ne = node.edges.len();
                    while k < ne
                        invariant
                            k <= ne,
                            ne == node.edges@.len(),
                            indeg@.len() == n,
                        decreases ne - k,
                    {
                        let e = node.edges[k];
                        if e.dst < n as u64 {
                            let d = e.dst as usize;
                            let cur = indeg[d];
                            if cur > 0 {
                                indeg[d] = cur - 1;
                            }
                        }
                        k += 1;
                    }
                },
                Option::None => {},
            }
        }
        // Everything live and reachable was ordered: the loop ends only
        // when the count of unordered such nodes is zero.
        proof {
            lemma_undone_zero(self.nodes@, reach@, done@, n as int);
            if 0 < n && self.nodes@[0] is Some {
                assert forall|p: int|
                    0 <= p < n && self.nodes@[p] is Some && edge_to(
                        self.nodes@[p]->Some_0.edges@,
                        0,
                    ) implies order@.contains(p as u64) by {
                    assert(reach@[p]);
                    assert(done@[p]);
                }
            }
        }
        order
    }
}

/// Largest channel count among the first `k` edges of one source node
/// that feed `(idx, any audio port)`.
pub open spec fn max_fold_edge_spec(cur: int, node: Node, idx: u64, k: int) -> int
    decreases k,
{
    if k <= 0 {
        cur
    } else {
        let cur2 = max_fold_edge_spec(cur, node, idx, k - 1);
        let e = node.edges@[k - 1];
        if e.dst == idx && e.dst_input != PARAM_INPUT_PORT && e.src_output < node.outputs@.len()
            && node.outputs@[e.src_output as int].n_channels() > cur2 {
            node.outputs@[e.src_output as int].n_channels()
        } else {
            cur2
        }
    }
}

/// Largest channel count among the rendered sources feeding `idx`, over
/// the first `m` nodes of the table; at least one.
pub open spec fn max_channels_fold_spec(
    nodes: Seq<Option<Node>>,
    rendered: Seq<bool>,
    idx: u64,
    m: int,
) -> int
    decreases m,
{
    if m <= 0 {
        1
    } else {
        let cur = max_channels_fold_spec(nodes, rendered, idx, m - 1);
        if rendered[m - 1] && nodes[m - 1] is Some {
            max_fold_edge_spec(
                cur,
                nodes[m - 1]->Some_0,
                idx,
                nodes[m - 1]->Some_0.edges@.len() as int,
            )
        } else {
            cur
        }
    }
}

/// The mixed channel count of a node's input: the maximum source count,
/// shaped by the node's count mode.
pub open spec fn computed_channels_spec(
    nodes: Seq<Option<Node>>,
    rendered: Seq<bool>,
    idx: u64,
) -> int {
    let max_c = max_channels_fold_spec(nodes, rendered, idx, nodes.len() as int);
    let config = nodes[idx as int]->Some_0.channel_config;
    match config.mode {
        ChannelCountMode::Max => max_c,
        ChannelCountMode::ClampedMax => if max_c < config.count {
            max_c
        } else {
            config.count as int
        },
        ChannelCountMode::Explicit => config.count as int,
    }
}

/// A stack of `channels` silent quanta.
pub open spec fn zero_stack_spec(channels: int) -> Seq<Seq<i64>> {
    Seq::new(channels as nat, |c: int| zero_seq())
}

/// Channel-wise saturating sum of two stacks; channels the second stack
/// cannot match pass through unchanged.
pub open spec fn add_stack_spec(a: Seq<Seq<i64>>, b: Seq<Seq<i64>>) -> Seq<Seq<i64>> {
    Seq::new(
        a.len(),
        |c: int|
            if c < b.len() && a[c].len() == b[c].len() {
                add_seq(a[c], b[c])
            } else {
                a[c]
            },
    )
}

/// Accumulate the first `k` edges of one source node into `acc`: every
/// edge into `(idx, port)` adds the source's output quantum, mixed to
/// `computed` channels.
pub open spec fn edge_fold_spec(
    acc: Seq<Seq<i64>>,
    node: Node,
    alloc: Alloc,
    idx: u64,
    port: usize,
    computed: int,
    interpretation: ChannelInterpretation,
    k: int,
) -> Seq<Seq<i64>>
    decreases k,
{
    if k <= 0 {
        acc
    } else {
        let acc2 = edge_fold_spec(acc, node, alloc, idx, port, computed, interpretation, k - 1);
        let e = node.edges@[k - 1];
        if e.dst == idx && e.dst_input == port && e.src_output < node.outputs@.len() {
            add_stack_spec(
                acc2,
                mix_view(node.outputs@[e.src_output as int].view_in(alloc), computed, interpretation),
            )
        } else {
            acc2
        }
    }
}

/// The mixed input of `(idx, port)`: the sum over the first `m` nodes of
/// the table, counting only nodes already rendered this quantum; back
/// edges from unrendered nodes contribute silence by omission.
pub open spec fn gather_fold_spec(
    nodes: Seq<Option<Node>>,
    alloc: Alloc,
    rendered: Seq<bool>,
    idx: u64,
    port: usize,
    computed: int,
    interpretation: ChannelInterpretation,
    m: int,
) -> Seq<Seq<i64>>
    decreases m,
{
    if m <= 0 {
        zero_stack_spec(computed)
    } else {
        let acc = gather_fold_spec(nodes, alloc, rendered, idx, port, computed, interpretation, m - 1);
        if rendered[m - 1] && nodes[m - 1] is Some {
            edge_fold_spec(
                acc,
                nodes[m - 1]->Some_0,
                alloc,
                idx,
                port,
                computed,
                interpretation,
                nodes[m - 1]->Some_0.edges@.len() as int,
            )
        } else {
            acc
        }
    }
}

impl Graph {
    /// Gather and mix the inputs of node `idx` for one port: the sum of
    /// every already-rendered source feeding that port, mixed to
    /// `computed` channels.  Sources not yet rendered this quantum (back
    /// edges) contribute silence.
    fn gather_port(
        &self,
        idx: u64,
        port: usize,
        computed: usize,
        interpretation: ChannelInterpretation,
        rendered: &Vec<bool>,
    ) -> (r: Vec<Vec<i64>>)
        requires
            self.wf(),
            1 <= computed <= MAX_CHANNELS,
            rendered@.len() == self.nodes@.len(),
        ensures
            r@.len() == computed,
            forall|c: int| 0 <= c < computed ==> (#[trigger] r@[c]@).len() == RENDER_QUANTUM_SIZE,
            deep_view(r@) =~~= gather_fold_spec(
                self.nodes@,
                self.alloc,
                rendered@,
                idx,
                port,
                computed as int,
                interpretation,
                self.nodes@.len() as int,
            ),
    {
        let n = self.nodes.len();
        let mut acc = zero_stack(computed);
        proof {
            assert(deep_view(acc@) =~~= zero_stack_spec(computed as int));
        }
        let mut m: usize = 0;
        while m < n
            invariant
                m <= n,
                n == self.nodes@.len(),
                self.wf(),
                1 <= computed <= MAX_CHANNELS,
                rendered@.len() == n,
                acc@.len() == computed,
                forall|c: int|
                    0 <= c < computed ==> (#[trigger] acc@[c]@).len() == RENDER_QUANTUM_SIZE,
                deep_view(acc@) =~~= gather_fold_spec(
                    self.nodes@,
                    self.alloc,
                    rendered@,
                    idx,
                    port,
                    computed as int,
                    interpretation,
                    m as int,
                ),
            decreases n - m,
        {
            let ghost acc_m = deep_view(acc@);
            if rendered[m] {
                match &self.nodes[m] {
                    Option::Some(node) => {
                        let ne = node.edges.len();
                        let mut k: usize = 0;
                        while k < ne
                            invariant
                                k <= ne,
                                ne == node.edges@.len(),
                                self.wf(),
                                m < n,
                                n == self.nodes@.len(),
                                self.nodes@[m as int] is Some,
                                *node == self.nodes@[m as int]->Some_0,
                                node.wf(self.alloc),
                                1 <= computed <= MAX_CHANNELS,
                                rendered@.len() == n,
                                rendered@[m as int],
                                acc_m =~~= gather_fold_spec(
                                    self.nodes@,
                                    self.alloc,
                                    rendered@,
                                    idx,
                                    port,
                                    computed as int,
                                    interpretation,
                                    m as int,
                                ),
                                acc@.len() == computed,
                                forall|c: int|
                                    0 <= c < computed ==> (#[trigger] acc@[c]@).len()
                                        == RENDER_QUANTUM_SIZE,
                                deep_view(acc@) =~~= edge_fold_spec(
                                    acc_m,
                                    *node,
                                    self.alloc,
                                    idx,
                                    port,
                                    computed as int,
                                    interpretation,
                                    k as int,
                                ),
                            decreases ne - k,
                        {
                            let ghost acc_k = deep_view(acc@);
                            let e = node.edges[k];
                            if e.dst == idx && e.dst_input == port && e.src_output
                                < node.outputs.len() {
                                let datas = node.outputs[e.src_output].read_all(&self.alloc);
                                proof {
                                    assert(node.outputs@[e.src_output as int].wf(self.alloc));
                                }
                                let mixed = mix_datas(&datas, computed, interpretation);
                                proof {
                                    assert(deep_view(mixed@) =~~= mix_view(
                                        node.outputs@[e.src_output as int].view_in(self.alloc),
                                        computed as int,
                                        interpretation,
                                    ));
                                }
                                let acc2 = add_stacks(&acc, &mixed);
                                proof {
                                    assert(deep_view(acc2@) =~~= add_stack_spec(
                                        deep_view(acc@),
                                        deep_view(mixed@),
                                    ));
                                    lemma_add_stack_congruent(
                                        deep_view(acc@),
                                        deep_view(mixed@),
                                        acc_k,
                                        mix_view(
                                            node.outputs@[e.src_output as int].view_in(self.alloc),
                                            computed as int,
                                            interpretation,
                                        ),
                                    );
                                }
                                acc = acc2;
                            }
                            k += 1;
                            proof {
                                assert(deep_view(acc@) =~~= edge_fold_spec(
                                    acc_m,
                                    *node,
                                    self.alloc,
                                    idx,
                                    port,
                                    computed as int,
                                    interpretation,
                                    k as int,
                                ));
                            }
                        }
                    },
                    Option::None => {},
                }
            }
            m += 1;
            proof {
                assert(deep_view(acc@) =~~= gather_fold_spec(
                    self.nodes@,
                    self.alloc,
                    rendered@,
                    idx,
                    port,
                    computed as int,
                    interpretation,
                    m as int,
                ));
            }
        }
        acc
    }

    /// The mixed channel count for node `idx`: the maximum channel count
    /// of its rendered sources, shaped by the node's count mode.
    fn computed_channels(&self, idx: u64, rendered: &Vec<bool>) -> (r: usize)
        requires
            self.wf(),
            idx < self.nodes@.len(),
            self.nodes@[idx as int] is Some,
            rendered@.len() == self.nodes@.len(),
        ensures
            1 <= r <= MAX_CHANNELS,
            r as int == computed_channels_spec(self.nodes@, rendered@, idx),
    {
        let n = self.nodes.len();
        let mut max_c: usize = 1;
        let mut m: usize = 0;
        while m < n
            invariant
                m <= n,
                n == self.nodes@.len(),
                self.wf(),
                rendered@.len() == n,
                1 <= max_c <= MAX_CHANNELS,
                max_c as int == max_channels_fold_spec(self.nodes@, rendered@, idx, m as int),
            decreases n - m,
        {
            let ghost max_m = max_c as int;
            if rendered[m] {
                match &self.nodes[m] {
                    Option::Some(node) => {
                        let ne = node.edges.len();
                        let mut k: usize = 0;
                        while k < ne
                            invariant
                                k <= ne,
                                ne == node.edges@.len(),
                                self.wf(),
                                m < n,
                                n == self.nodes@.len(),
                                self.nodes@[m as int] is Some,
                                *node == self.nodes@[m as int]->Some_0,
                                node.wf(self.alloc),
                                1 <= max_c <= MAX_CHANNELS,
                                max_c as int == max_fold_edge_spec(max_m, *node, idx, k as int),
                            decreases ne - k,
                        {
                            let e = node.edges[k];
                            if e.dst == idx && e.dst_input != PARAM_INPUT_PORT && e.src_output
                                < node.outputs.len() {
                                let c = node.outputs[e.src_output].number_of_channels();
                                proof {
                                    assert(node.outputs@[e.src_output as int].wf(self.alloc));
                                }
                                if c > max_c {
                                    max_c = c;
                                }
                            }
                            k += 1;
                        }
                    },
                    Option::None => {},
                }
            }
            m += 1;
        }
        let node_config = match &self.nodes[idx as usize] {
            Option::Some(node) => node.channel_config,
            Option::None => ChannelConfig {
                count: 1,
                mode: ChannelCountMode::Max,
                interpretation: ChannelInterpretation::Speakers,
            },
        };
        proof {
            assert(self.nodes@[idx as int]->Some_0.wf(self.alloc));
        }
        match node_config.mode {
            ChannelCountMode::Max => max_c,
            ChannelCountMode::ClampedMax => if max_c < node_config.count {
                max_c
            } else {
                node_config.count
            },
            ChannelCountMode::Explicit => node_config.count,
        }
    }

    /// Render one node: mix its inputs, run its processor, and store its
    /// fresh outputs.  Returns whether the node wants to stay alive.
    ///
    /// For the destination — a pass-through sink — the stored output
    /// quantum is pinned exactly: it equals the saturating sum of every
    /// rendered source feeding its input, each mixed to the computed
    /// channel count under the destination's interpretation
    /// (`gather_fold_spec`).
    pub fn process_node(&mut self, idx: u64, rendered: &Vec<bool>) -> (retain: bool)
        requires
            old(self).wf(),
            idx < old(self).nodes@.len(),
            old(self).nodes@[idx as int] is Some,
            rendered@.len() == old(self).nodes@.len(),
            old(self).frames <= 4293000000u64,
        ensures
            final(self).wf(),
            final(self).frames == old(self).frames,
            final(self).sample_rate == old(self).sample_rate,
            final(self).nodes@.len() == old(self).nodes@.len(),
            forall|i: int|
                0 <= i < old(self).nodes@.len() ==> (final(self).nodes@[i] is Some) == (old(self).nodes@[i] is Some),
            final(self).nodes@[idx as int] is Some,
            final(self).nodes@[idx as int]->Some_0.n_outputs == old(self).nodes@[idx as int]->Some_0.n_outputs,
            final(self).nodes@[idx as int]->Some_0.outputs@.len() == old(self).nodes@[idx as int]->Some_0.n_outputs,
            final(self).nodes@[idx as int]->Some_0.edges == old(self).nodes@[idx as int]->Some_0.edges,
            forall|i: int|
                0 <= i < old(self).nodes@.len() && i != idx ==> final(self).nodes@[i] == old(self).nodes@[i],
            old(self).nodes@[idx as int]->Some_0.processor is Destination
                && old(self).nodes@[idx as int]->Some_0.n_inputs > 0
                && old(self).nodes@[idx as int]->Some_0.n_outputs == 1
                && old(self).alloc.n_blocks() + 3 * MAX_CHANNELS < usize::MAX
                ==> final(self).nodes@[idx as int]->Some_0.outputs@[0].view_in(final(self).alloc)
                =~~= gather_fold_spec(
                old(self).nodes@,
                old(self).alloc,
                rendered@,
                idx,
                0,
                computed_channels_spec(old(self).nodes@, rendered@, idx),
                old(self).nodes@[idx as int]->Some_0.channel_config.interpretation,
                old(self).nodes@.len() as int,
            ),
    {
        let i = idx as usize;
        let (n_inputs, config) = match &self.nodes[i] {
            Option::Some(node) => (node.n_inputs, node.channel_config),
            Option::None => (
                0,
                ChannelConfig {
                    count: 1,
                    mode: ChannelCountMode::Max,
                    interpretation: ChannelInterpretation::Speakers,
                },
            ),
        };
        let computed = self.computed_channels(idx, rendered);
        let ghost dest_case = old(self).nodes@[idx as int]->Some_0.processor is Destination
            && old(self).nodes@[idx as int]->Some_0.n_inputs > 0
            && old(self).nodes@[idx as int]->Some_0.n_outputs == 1
            && old(self).alloc.n_blocks() + 3 * MAX_CHANNELS < usize::MAX;
        let ghost g_target = gather_fold_spec(
            old(self).nodes@,
            old(self).alloc,
            rendered@,
            idx,
            0,
            computed_channels_spec(old(self).nodes@, rendered@, idx),
            old(self).nodes@[idx as int]->Some_0.channel_config.interpretation,
            old(self).nodes@.len() as int,
        );
        // Mix the first input port (every processor here has at most one).
        let input0: Vec<Vec<i64>> = if n_inputs > 0 {
            self.gather_port(idx, 0, computed, config.interpretation, rendered)
        } else {
            zero_stack(1)
        };
        proof {
            if dest_case {
                assert(deep_view(input0@) =~~= g_target);
            }
        }
        let scope = RenderScope {
            current_time: self.frames * TICKS_PER_FRAME,
            sample_rate: self.sample_rate,
            frame: self.frames,
        };
        proof {
            assert(old(self).frames * TICKS_PER_FRAME <= 4293000000u64 * TICKS_PER_FRAME);
        }
        let ghost pre = *self;
        let taken = self.nodes[i].take();
        let mut node: Node;
        match taken {
            Option::Some(nd) => {
                node = nd;
            },
            Option::None => {
                proof {
                    assert(false);
                }
                node = Node {
                    processor: Processor::Listener(crate::process::ListenerRenderer {  }),
                    channel_config: ChannelConfig {
                        count: 1,
                        mode: ChannelCountMode::Max,
                        interpretation: ChannelInterpretation::Speakers,
                    },
                    n_inputs: 0,
                    n_outputs: 0,
                    outputs: Vec::new(),
                    edges: Vec::new(),
                    free_when_finished: false,
                };
            },
        }
        // Run the processor on the mixed input.
        let mut retain = true;
        let mut stacks: Vec<Vec<Vec<i64>>> = Vec::new();
        match &mut node.processor {
            Processor::Destination(d) => {
                let out = d.process(&input0);
                proof {
                    assert(deep_view(out@) =~~= deep_view(input0@));
                }
                stacks.push(out);
            },
            Processor::Oscillator(o) => {
                let freqs = self.param_block_taken(o.frequency, idx);
                let dets = self.param_block_taken(o.detune, idx);
                let (data, keep) = o.process(&freqs, &dets, &scope);
                retain = keep;
                let mut st: Vec<Vec<i64>> = Vec::new();
                st.push(data);
                stacks.push(st);
            },
            Processor::Gain(g) => {
                let gains = self.param_block_taken(g.gain, idx);
                let out = g.process(&input0, &gains);
                stacks.push(out);
            },
            Processor::Constant(c) => {
                let offsets = self.param_block_taken(c.offset, idx);
                let (data, keep) = c.process(&offsets, &scope);
                retain = keep;
                let mut st: Vec<Vec<i64>> = Vec::new();
                st.push(data);
                stacks.push(st);
            },
            Processor::Param(p) => {
                let audio_in = if input0.len() > 0 {
                    copy_channel(&input0[0])
                } else {
                    zero_quantum()
                };
                let data = p.process(&audio_in, &scope);
                let mut st: Vec<Vec<i64>> = Vec::new();
                st.push(data);
                stacks.push(st);
            },
            Processor::Listener(_) => {
                let mut st: Vec<Vec<i64>> = Vec::new();
                st.push(zero_quantum());
                stacks.push(st);
            },
        }
        // Release the previous outputs and store the new ones.
        let mut old_outputs = node.outputs;
        let ghost pre_alloc = self.alloc;
        loop
            invariant
                self.alloc.wf(),
                self.alloc.n_blocks() == pre_alloc.n_blocks(),
                self.nodes@ == pre.nodes@.update(idx as int, Option::None),
                self.frames == pre.frames,
                self.sample_rate == pre.sample_rate,
                forall|o: int|
                    0 <= o < old_outputs@.len() ==> (#[trigger] old_outputs@[o]).wf(pre_alloc),
            decreases old_outputs@.len(),
        {
            match old_outputs.pop() {
                Option::Some(b) => {
                    proof {
                        assert(b.wf(self.alloc));
                    }
                    b.drop_in(&mut self.alloc);
                },
                Option::None => { break ; },
            }
        }
        let n_outputs = node.n_outputs;
        let mut new_outputs: Vec<AudioBuffer> = Vec::new();
        let mut stacks = stacks;
        let ghost alloc_mid = self.alloc;
        proof {
            assert(n_outputs <= MAX_CHANNELS);
            if dest_case {
                assert(n_outputs == 1);
                assert(stacks@.len() == 1);
                assert(deep_view(stacks@[0]@) =~~= g_target);
                assert(alloc_mid.n_blocks() == old(self).alloc.n_blocks());
            }
        }
        while new_outputs.len() < n_outputs
            invariant
                self.alloc.wf(),
                self.alloc.n_blocks() >= alloc_mid.n_blocks(),
                self.nodes@ == pre.nodes@.update(idx as int, Option::None),
                self.frames == pre.frames,
                self.sample_rate == pre.sample_rate,
                new_outputs@.len() <= n_outputs <= MAX_CHANNELS,
                alloc_mid.n_blocks() <= pre.alloc.n_blocks(),
                pre.wf(),
                dest_case ==> n_outputs == 1,
                dest_case && new_outputs@.len() == 0 ==> stacks@.len() == 1 && deep_view(
                    stacks@[0]@,
                ) =~~= g_target && self.alloc.n_blocks() == old(self).alloc.n_blocks()
                    && old(self).alloc.n_blocks() + 3 * MAX_CHANNELS < usize::MAX
                    && g_target.len() >= 1 && g_target.len() <= MAX_CHANNELS && (forall|c: int|
                    0 <= c < g_target.len() ==> (#[trigger] g_target[c]).len()
                        == RENDER_QUANTUM_SIZE),
                dest_case && new_outputs@.len() == 1 ==> new_outputs@[0].view_in(self.alloc)
                    =~~= g_target,
                forall|o: int|
                    0 <= o < new_outputs@.len() ==> (#[trigger] new_outputs@[o]).wf(self.alloc),
            decreases n_outputs - new_outputs@.len(),
        {
            let headroom = self.alloc.num_blocks() < usize::MAX - 2 * MAX_CHANNELS;
            let b: AudioBuffer = if stacks.len() > 0 && headroom {
                let st = stacks.remove(0);
                proof {
                    if dest_case && new_outputs@.len() == 0 {
                        assert(deep_view(st@) == g_target);
                        assert forall|c: int|
                            0 <= c < st@.len() implies (#[trigger] st@[c]@).len()
                            == RENDER_QUANTUM_SIZE by {
                            assert(deep_view(st@)[c] == st@[c]@);
                            assert(g_target[c].len() == RENDER_QUANTUM_SIZE);
                        }
                        assert(1 <= st@.len() && st@.len() <= MAX_CHANNELS);
                    }
                }
                if 1 <= st.len() && st.len() <= MAX_CHANNELS && stack_shape_ok(&st) {
                    let fresh = AudioBuffer::from_datas(st, &mut self.alloc);
                    proof {
                        if dest_case && new_outputs@.len() == 0 {
                            assert(fresh.view_in(self.alloc) =~~= g_target);
                        }
                    }
                    fresh
                } else {
                    AudioBuffer::silent()
                }
            } else {
                AudioBuffer::silent()
            };
            proof {
                assert forall|o: int|
                    0 <= o < new_outputs@.len() implies (#[trigger] new_outputs@[o]).wf(
                self.alloc) by {}
                if dest_case && new_outputs@.len() == 0 {
                    assert(b.view_in(self.alloc) =~~= g_target);
                }
            }
            new_outputs.push(b);
        }
        node.outputs = new_outputs;
        self.nodes[i] = Option::Some(node);
        proof {
            if dest_case {
                assert(self.nodes@[idx as int]->Some_0.outputs@[0].view_in(self.alloc)
                    =~~= g_target);
            }
        }
        proof {
            assert forall|j: int|
                0 <= j < self.nodes@.len() && self.nodes@[j] is Some implies (
            #[trigger] self.nodes@[j])->Some_0.wf(self.alloc) by {
                if j != idx as int {
                    assert(self.nodes@[j] == pre.nodes@[j]);
                    assert(pre.nodes@[j]->Some_0.wf(pre.alloc));
                    assert forall|o: int|
                        0 <= o < pre.nodes@[j]->Some_0.outputs@.len() implies (
                    #[trigger] pre.nodes@[j]->Some_0.outputs@[o]).wf(self.alloc) by {
                        assert(pre.nodes@[j]->Some_0.outputs@[o].wf(pre.alloc));
                    }
                }
            }
        }
        retain
    }

    /// Like `param_block`, ignoring the node currently taken out.
    fn param_block_taken(&self, pid: u64, taken: u64) -> (r: Vec<i64>)
        requires
            forall|i: int|
                0 <= i < self.nodes@.len() && self.nodes@[i] is Some && i != taken ==> (
                #[trigger] self.nodes@[i])->Some_0.wf(self.alloc),
            self.alloc.wf(),
        ensures
            r@.len() == RENDER_QUANTUM_SIZE,
    {
        if pid != taken && pid < self.nodes.len() as u64 {
            match &self.nodes[pid as usize] {
                Option::Some(node) => {
                    if node.outputs.len() > 0 {
                        proof {
                            assert(self.nodes@[pid as int]->Some_0.wf(self.alloc));
                        }
                        let b = &node.outputs[0];
                        let h = b.channel_data(0);
                        proof {
                            crate::buffer2::lemma_block_len(self.alloc, b.slot(0));
                        }
                        let v = self.alloc.copy_samples(h);
                        v
                    } else {
                        zero_quantum()
                    }
                },
                Option::None => zero_quantum(),
            }
        } else {
            zero_quantum()
        }
    }

    /// Render one quantum: apply the pending control messages in order,
    /// process the live graph in dependency order, drop finished nodes
    /// that were marked free-when-finished, and advance the frame counter
    /// by exactly one quantum of frames.
    pub fn process_quantum(&mut self, messages: Vec<ControlMessage>) -> (trace: Ghost<
        (Seq<Option<Node>>, Alloc, Seq<bool>),
    >)
        requires
            old(self).wf(),
            old(self).frames <= 4293000000u64,
        ensures
            final(self).wf(),
            final(self).frames == old(self).frames + RENDER_QUANTUM_SIZE,
            final(self).sample_rate == old(self).sample_rate,
            final(self).nodes@.len() >= old(self).nodes@.len(),
            trace@.2.len() == trace@.0.len(),
            trace@.0.len() == final(self).nodes@.len(),
            forall|i: int| 0 <= i < trace@.2.len() && trace@.2[i] ==> trace@.0[i] is Some,
            forall|i: int|
                0 <= i < trace@.0.len() && final(self).nodes@[i] is Some ==> trace@.0[i] is Some,
            trace@.0.len() > 0 && trace@.0[0] is Some ==> (forall|p: int|
                0 <= p < trace@.0.len() && p != 0 && trace@.0[p] is Some && edge_to(
                    trace@.0[p]->Some_0.edges@,
                    0,
                ) ==> trace@.2[p]),
            (trace@.0.len() > 0 && trace@.0[0] is Some
                && trace@.0[0]->Some_0.processor is Destination && trace@.0[0]->Some_0.n_inputs > 0
                && trace@.0[0]->Some_0.n_outputs == 1 && trace@.1.n_blocks() + 3 * MAX_CHANNELS
                < usize::MAX && final(self).nodes@[0] is Some) ==> final(self).nodes@[0]->Some_0.outputs@[0].view_in(final(self).alloc) =~~= gather_fold_spec(
                trace@.0,
                trace@.1,
                trace@.2,
                0,
                0,
                computed_channels_spec(trace@.0, trace@.2, 0),
                trace@.0[0]->Some_0.channel_config.interpretation,
                trace@.0.len() as int,
            ),
    {
        let mut messages = messages;
        while messages.len() > 0
            invariant
                self.wf(),
                self.frames == old(self).frames,
                self.sample_rate == old(self).sample_rate,
                self.nodes@.len() >= old(self).nodes@.len(),
            decreases messages@.len(),
        {
            let m = messages.remove(0);
            self.apply_message(m);
        }
        let ghost s0 = *self;
        let order = self.topo_order();
        let n = self.nodes.len();
        let mut rendered: Vec<bool> = Vec::new();
        let mut ri: usize = 0;
        while ri < n
            invariant
                ri <= n,
                rendered@.len() == ri,
                forall|i: int| 0 <= i < ri ==> !rendered@[i],
            decreases n - ri,
        {
            rendered.push(false);
            ri += 1;
        }
        let mut retains: Vec<(u64, bool)> = Vec::new();
        // Every node but the destination is rendered first; the
        // destination, the sink, always comes last.
        let mut k: usize = 0;
        let no = order.len();
        while k < no
            invariant
                k <= no,
                no == order@.len(),
                no <= n,
                self.wf(),
                self.frames == old(self).frames,
                self.frames <= 4293000000u64,
                self.sample_rate == old(self).sample_rate,
                self.nodes@.len() == n,
                n >= old(self).nodes@.len(),
                rendered@.len() == n,
                n == s0.nodes@.len(),
                forall|i: int|
                    0 <= i < n && rendered@[i] ==> self.nodes@[i] is Some,
                forall|i: int|
                    0 <= i < n ==> ((self.nodes@[i] is Some) == (s0.nodes@[i] is Some)),
                forall|i: int|
                    0 <= i < n && self.nodes@[i] is Some
                        ==> (#[trigger] self.nodes@[i])->Some_0.edges == s0.nodes@[
                        i]->Some_0.edges,
                forall|k2: int|
                    0 <= k2 < k ==> ((#[trigger] order@[k2]) != 0 ==> rendered@[
                        order@[k2] as int]),
                forall|k2: int|
                    0 <= k2 < order@.len() ==> (#[trigger] order@[k2]) < n && self.nodes@[
                        order@[k2] as int] is Some,
                forall|k2: int|
                    0 <= k2 < retains@.len() ==> (#[trigger] retains@[k2]).0 < n,
            decreases no - k,
        {
            let idx = order[k];
            if idx != DESTINATION_NODE_ID {
                let retain = self.process_node(idx, &rendered);
                rendered[idx as usize] = true;
                retains.push((idx, retain));
                proof {
                    assert forall|k2: int|
                        0 <= k2 < order@.len() implies (#[trigger] order@[k2]) < n && self.nodes@[
                    order@[k2] as int] is Some by {}
                }
            }
            k += 1;
        }
        // The state the destination renders from: the traced quantum.
        let ghost mid_nodes = self.nodes@;
        let ghost mid_alloc = self.alloc;
        let ghost mid_rendered = rendered@;
        proof {
            // Every live direct feeder of the destination was rendered:
            // the order covered it, and the loop rendered the whole order.
            if mid_nodes.len() > 0 && mid_nodes[0] is Some {
                assert forall|p: int|
                    0 <= p < mid_nodes.len() && p != 0 && mid_nodes[p] is Some && edge_to(
                        mid_nodes[p]->Some_0.edges@,
                        0,
                    ) implies mid_rendered[p] by {
                    assert(s0.nodes@[p] is Some);
                    assert(s0.nodes@[p]->Some_0.edges == mid_nodes[p]->Some_0.edges);
                    assert(s0.nodes@[0] is Some);
                    assert(order@.contains(p as u64));
                    let k2 = choose|k2: int| 0 <= k2 < order@.len() && order@[k2] == p as u64;
                    assert(order@[k2] != 0);
                    assert(mid_rendered[order@[k2] as int]);
                }
            }
        }
        if self.is_live(DESTINATION_NODE_ID) {
            let retain_dest = self.process_node(DESTINATION_NODE_ID, &rendered);
            rendered[DESTINATION_NODE_ID as usize] = true;
            retains.push((DESTINATION_NODE_ID, retain_dest));
        }
        let ghost post_dest = *self;
        proof {
            if mid_nodes.len() > 0 && mid_nodes[0] is Some
                && mid_nodes[0]->Some_0.processor is Destination && mid_nodes[0]->Some_0.n_inputs
                > 0 && mid_nodes[0]->Some_0.n_outputs == 1 && mid_alloc.n_blocks() + 3
                * MAX_CHANNELS < usize::MAX {
                assert(post_dest.nodes@[0] is Some ==> post_dest.nodes@[0]->Some_0.outputs@[
                    0].view_in(post_dest.alloc) =~~= gather_fold_spec(
                    mid_nodes,
                    mid_alloc,
                    mid_rendered,
                    0,
                    0,
                    computed_channels_spec(mid_nodes, mid_rendered, 0),
                    mid_nodes[0]->Some_0.channel_config.interpretation,
                    mid_nodes.len() as int,
                ));
            }
        }
        // Reclaim nodes that finished and were marked free-when-finished.
        let mut g: usize = 0;
        let ng = retains.len();
        while g < ng
            invariant
                g <= ng,
                ng == retains@.len(),
                self.wf(),
                self.frames == old(self).frames,
                self.sample_rate == old(self).sample_rate,
                n == self.nodes@.len(),
                n == post_dest.nodes@.len(),
                self.alloc.n_blocks() == post_dest.alloc.n_blocks(),
                forall|j: int|
                    0 <= j < post_dest.alloc.n_blocks() ==> self.alloc.block_data(j)
                        == post_dest.alloc.block_data(j),
                self.nodes@[0] is Some ==> post_dest.nodes@[0] is Some && same_but_edges(
                    self.nodes@[0]->Some_0,
                    post_dest.nodes@[0]->Some_0,
                ),
                forall|i: int|
                    0 <= i < n && self.nodes@[i] is Some ==> mid_nodes[i] is Some,
                forall|k2: int|
                    0 <= k2 < retains@.len() ==> (#[trigger] retains@[k2]).0
                        < self.nodes@.len(),
            decreases ng - g,
        {
            let (idx, retain) = retains[g];
            if !retain {
                let marked = match &self.nodes[idx as usize] {
                    Option::Some(node) => node.free_when_finished,
                    Option::None => false,
                };
                if marked {
                    self.drop_node_buffers(idx as usize);
                    self.remove_edges_to(idx);
                }
            }
            g += 1;
        }
        self.frames = self.frames + RENDER_QUANTUM_SIZE as u64;
        proof {
            if mid_nodes.len() > 0 && mid_nodes[0] is Some
                && mid_nodes[0]->Some_0.processor is Destination && mid_nodes[0]->Some_0.n_inputs
                > 0 && mid_nodes[0]->Some_0.n_outputs == 1 && mid_alloc.n_blocks() + 3
                * MAX_CHANNELS < usize::MAX && self.nodes@[0] is Some {
                let b_fin = self.nodes@[0]->Some_0.outputs@[0];
                let b_mid = post_dest.nodes@[0]->Some_0.outputs@[0];
                assert(b_fin == b_mid);
                assert(post_dest.nodes@[0]->Some_0.wf(post_dest.alloc));
                assert(post_dest.nodes@[0]->Some_0.outputs@.len() == 1);
                assert(b_mid.wf(post_dest.alloc));
                assert forall|c: int|
                    0 <= c < b_fin.n_channels() implies b_fin.view_in(self.alloc)[c] == b_mid
                    .view_in(post_dest.alloc)[c] by {
                    assert(post_dest.alloc.valid_handle(b_mid.slot(c)));
                }
                assert(b_fin.view_in(self.alloc) =~~= b_mid.view_in(post_dest.alloc));
            }
        }
        Ghost((mid_nodes, mid_alloc, mid_rendered))
    }

    /// Remove every edge pointing at `idx`.
    fn remove_edges_to(&mut self, idx: u64)
        requires
            old(self).wf(),
        ensures
            final(self).wf(),
            final(self).frames == old(self).frames,
            final(self).sample_rate == old(self).sample_rate,
            final(self).nodes@.len() == old(self).nodes@.len(),
            final(self).alloc == old(self).alloc,
            forall|i: int|
                0 <= i < old(self).nodes@.len() ==> ((final(self).nodes@[i] is Some) == (old(self).nodes@[i] is Some)),
            forall|i: int|
                0 <= i < old(self).nodes@.len() && old(self).nodes@[i] is Some ==> same_but_edges(
                    final(self).nodes@[i]->Some_0,
                    old(self).nodes@[i]->Some_0,
                ),
    {
        let n = self.nodes.len();
        let mut m: usize = 0;
        while m < n
            invariant
                m <= n,
                n == self.nodes@.len(),
                self.wf(),
                self.frames == old(self).frames,
                self.sample_rate == old(self).sample_rate,
                self.alloc == old(self).alloc,
                forall|i: int|
                    0 <= i < n ==> ((self.nodes@[i] is Some) == (old(self).nodes@[i] is Some)),
                forall|i: int|
                    0 <= i < n && old(self).nodes@[i] is Some ==> same_but_edges(
                        self.nodes@[i]->Some_0,
                        old(self).nodes@[i]->Some_0,
                    ),
            decreases n - m,
        {
            let ghost pre = *self;
            match &mut self.nodes[m] {
                Option::Some(node) => {
                    let mut kept: Vec<Edge> = Vec::new();
                    let ne = node.edges.len();
                    let mut k: usize = 0;
                    while k < ne
                        invariant
                            k <= ne,
                            ne == node.edges@.len(),
                        decreases ne - k,
                    {
                        let e = node.edges[k];
                        if e.dst != idx {
                            kept.push(e);
                        }
                        k += 1;
                    }
                    node.edges = kept;
                },
                Option::None => {},
            }
            proof {
                assert forall|i: int|
                    0 <= i < self.nodes@.len() && self.nodes@[i] is Some implies (
                #[trigger] self.nodes@[i])->Some_0.wf(self.alloc) by {
                    if i != m as int {
                        assert(self.nodes@[i] == pre.nodes@[i]);
                    }
                }
            }
            m += 1;
        }
    }
}

/// Whether every channel of a stack is a full quantum.
fn stack_shape_ok(st: &Vec<Vec<i64>>) -> (r: bool)
    ensures
        r == forall|c: int|
            0 <= c < st@.len() ==> (#[trigger] st@[c]@).len() == RENDER_QUANTUM_SIZE,
{
    let mut c: usize = 0;
    let n = st.len();
    while c < n
        invariant
            c <= n,
            n == st@.len(),
            forall|k: int| 0 <= k < c ==> (#[trigger] st@[k]@).len() == RENDER_QUANTUM_SIZE,
        decreases n - c,
    {
        if st[c].len() != RENDER_QUANTUM_SIZE {
            return false;
        }
        c += 1;
    }
    true
}

/// `add_stack_spec` respects sequence equality of its operands.
proof fn lemma_add_stack_congruent(
    a1: Seq<Seq<i64>>,
    b1: Seq<Seq<i64>>,
    a2: Seq<Seq<i64>>,
    b2: Seq<Seq<i64>>,
)
    requires
        a1 =~~= a2,
        b1 =~~= b2,
    ensures
        add_stack_spec(a1, b1) =~~= add_stack_spec(a2, b2),
{
}

/// Channel-wise saturating sum of two stacks of equal shape; where shapes
/// disagree the first operand wins.
fn add_stacks(a: &Vec<Vec<i64>>, b: &Vec<Vec<i64>>) -> (r: Vec<Vec<i64>>)
    ensures
        r@.len() == a@.len(),
        forall|c: int|
            0 <= c < a@.len() ==> (#[trigger] r@[c]@) == if c < b@.len() && a@[c]@.len()
                == b@[c]@.len() {
                add_seq(a@[c]@, b@[c]@)
            } else {
                a@[c]@
            },
{
    let mut r: Vec<Vec<i64>> = Vec::new();
    let mut c: usize = 0;
    while c < a.len()
        invariant
            c <= a@.len(),
            r@.len() == c,
            forall|k: int|
                0 <= k < c ==> (#[trigger] r@[k]@) == if k < b@.len() && a@[k]@.len()
                    == b@[k]@.len() {
                    add_seq(a@[k]@, b@[k]@)
                } else {
                    a@[k]@
                },
        decreases a@.len() - c,
    {
        if c < b.len() && a[c].len() == b[c].len() {
            r.push(add_vecs(&a[c], &b[c]));
        } else {
            r.push(copy_channel(&a[c]));
        }
        c += 1;
    }
    r
}

/// Copy one channel of data.
fn copy_channel(a: &Vec<i64>) -> (v: Vec<i64>)
    ensures
        v@ == a@,
{
    let n = a.len();
    let mut v: Vec<i64> = Vec::new();
    let mut i: usize = 0;
    while i < n
        invariant
            i <= n,
            n == a@.len(),
            v@ == a@.take(i as int),
        decreases n - i,
    {
        v.push(a[i]);
        proof {
            assert(v@ == a@.take(i + 1));
        }
        i += 1;
    }
    proof {
        assert(a@.take(n as int) == a@);
    }
    v
}

/// A stack of silent channels.
fn zero_stack(channels: usize) -> (r: Vec<Vec<i64>>)
    ensures
        r@.len() == channels,
        forall|c: int| 0 <= c < channels ==> (#[trigger] r@[c]@) == zero_seq(),
{
    let mut r: Vec<Vec<i64>> = Vec::new();
    let mut c: usize = 0;
    while c < channels
        invariant
            c <= channels,
            r@.len() == c,
            forall|k: int| 0 <= k < c ==> (#[trigger] r@[k]@) == zero_seq(),
        decreases channels - c,
    {
        r.push(zero_quantum());
        c += 1;
    }
    r
}

/// Output-shape law: in a well-formed graph — an invariant every graph
/// operation preserves, in particular `process_quantum` — each node holds
/// exactly its declared number of output quanta, and every output quantum
/// has between 1 and `MAX_CHANNELS` active channels.
pub proof fn lemma_outputs_shape(g: Graph, i: int, o: int)
    requires
        g.wf(),
        0 <= i < g.nodes@.len(),
        g.nodes@[i] is Some,
        0 <= o < g.nodes@[i]->Some_0.outputs@.len(),
    ensures
        g.nodes@[i]->Some_0.outputs@.len() == g.nodes@[i]->Some_0.n_outputs,
        1 <= g.nodes@[i]->Some_0.outputs@[o].n_channels() <= MAX_CHANNELS,
{
    assert(g.nodes@[i]->Some_0.wf(g.alloc));
    assert(g.nodes@[i]->Some_0.outputs@[o].wf(g.alloc));
}

/// Check a parameter timeline invariant at run time; used to vet incoming
/// `RegisterNode` messages.
fn param_timeline_ok(t: &ParamTimeline) -> (r: bool)
    ensures
        r == (t.descriptor.min_value <= t.descriptor.max_value && t.events@.len() == 0),
        r ==> t.wf(),
{
    if t.descriptor.min_value > t.descriptor.max_value {
        return false;
    }
    if t.events.len() > 0 {
        return false;
    }
    proof {
        assert(t.events_spec().len() == 0);
    }
    true
}

} // verus!
