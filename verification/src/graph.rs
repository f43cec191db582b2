//! The render-side graph: an arena of nodes addressed by dense ids reused
//! through a free list, directed edges, command application, lifecycle-event
//! collection, and pruning of finished nodes.
//!
//! A malformed command (an id with no node, a port past the node's arity, a
//! command for the wrong node kind or state) is rejected with a
//! [`GraphIntegrityError`] and leaves the graph exactly as it was: the render
//! thread never panics on a bad command.

use crate::buffer::AudioRenderQuantum;
use crate::events::EventEmitterMessage;
use crate::node::buffer_source::AudioBufferSourceRenderer;
use crate::node::buffer_source::PlaybackState;
use crate::node::iir_filter::IirFilterRenderer;
use vstd::prelude::*;

verus! {

/// Why a command was rejected.
#[derive(Debug, Copy, Clone, PartialEq, Eq, Structural)]
pub enum GraphIntegrityError {
    /// The command names an id with no live node.
    MissingNode,
    /// The command names a port past the node's declared arity.
    InvalidPort,
    /// The command does not apply to the node's kind or lifecycle state.
    WrongNodeState,
}

/// The closed set of render-side node kinds this executor drives.
pub enum RenderNodeKind {
    /// A scheduled buffer source.
    Source(AudioBufferSourceRenderer),
    /// A recursive filter.
    Filter(IirFilterRenderer),
    /// The sink the final mix is gathered for.
    Destination,
}

/// A directed connection between two node ports.
#[derive(Debug, Copy, Clone, PartialEq, Eq, Structural)]
pub struct Edge {
    /// Id of the producing node.
    pub from: usize,
    /// Id of the consuming node.
    pub to: usize,
    /// Output port on the producer.
    pub output_index: u32,
    /// Input port on the consumer.
    pub input_index: u32,
}

/// A control-to-render message.
pub enum Command {
    /// Start a source: at `when`, from fixed-point `offset`, for at most
    /// `duration` frames.
    Start {
        /// Target node id.
        node: usize,
        /// Absolute start frame.
        when: u64,
        /// Initial fixed-point read position.
        offset: i64,
        /// Most frames of output (`u64::MAX`: unlimited).
        duration: u64,
    },
    /// Stop a source at `when`.
    Stop {
        /// Target node id.
        node: usize,
        /// Absolute stop frame.
        when: u64,
    },
    /// Configure a source's loop region.
    SetLoop {
        /// Target node id.
        node: usize,
        /// Whether looping is on.
        enabled: bool,
        /// Fixed-point loop start.
        start: i64,
        /// Fixed-point loop end (exclusive).
        end: i64,
    },
    /// Set a source's playback rate.
    SetRate {
        /// Target node id.
        node: usize,
        /// Fixed-point frames per output frame.
        rate: i64,
    },
    /// Connect an output port of one node to an input port of another.
    Connect {
        /// Producing node id.
        from: usize,
        /// Consuming node id.
        to: usize,
        /// Output port on the producer.
        output_index: u32,
        /// Input port on the consumer.
        input_index: u32,
    },
    /// Remove every edge between two nodes.
    Disconnect {
        /// Producing node id.
        from: usize,
        /// Consuming node id.
        to: usize,
    },
    /// Remove a node, its edges, and recycle its id.
    Drop {
        /// Target node id.
        node: usize,
    },
}

/// How many input ports a node kind declares.
pub open spec fn inputs_of(kind: &RenderNodeKind) -> u32 {
    match kind {
        RenderNodeKind::Source(..) => 0u32,
        RenderNodeKind::Filter(..) => 1u32,
        RenderNodeKind::Destination => 1u32,
    }
}

/// How many output ports a node kind declares.
pub open spec fn outputs_of(kind: &RenderNodeKind) -> u32 {
    match kind {
        RenderNodeKind::Source(..) => 1u32,
        RenderNodeKind::Filter(..) => 1u32,
        RenderNodeKind::Destination => 0u32,
    }
}

/// A node kind's own state is well-formed.
pub open spec fn kind_wf(kind: &RenderNodeKind) -> bool {
    match kind {
        RenderNodeKind::Source(s) => s.wf(),
        RenderNodeKind::Filter(f) => f.wf(),
        RenderNodeKind::Destination => true,
    }
}

/// The render-side graph.
pub struct Graph {
    nodes: Vec<Option<RenderNodeKind>>,
    edges: Vec<Edge>,
    free_list: Vec<usize>,
}

impl Graph {
    /// The node arena: one slot per id.
    pub closed spec fn nodes_spec(&self) -> Seq<Option<RenderNodeKind>> {
        self.nodes@
    }

    /// The edges, in insertion order.
    pub closed spec fn edges_spec(&self) -> Seq<Edge> {
        self.edges@
    }

    /// The reusable ids, oldest first.
    pub closed spec fn free_spec(&self) -> Seq<usize> {
        self.free_list@
    }

    /// The node at `id`, if live.
    pub open spec fn node_at(&self, id: int) -> Option<RenderNodeKind>
        recommends
            0 <= id < self.nodes_spec().len(),
    {
        self.nodes_spec()[id]
    }

    /// An edge's endpoints and ports are live and within arity.
    pub open spec fn edge_ok(&self, e: Edge) -> bool {
        &&& e.from < self.nodes_spec().len()
        &&& e.to < self.nodes_spec().len()
        &&& self.nodes_spec()[e.from as int] is Some
        &&& self.nodes_spec()[e.to as int] is Some
        &&& e.output_index < outputs_of(&self.nodes_spec()[e.from as int]->0)
        &&& e.input_index < inputs_of(&self.nodes_spec()[e.to as int]->0)
    }

    /// Internal well-formedness: every edge is live, every free id names an
    /// empty slot, free ids are distinct, and every live node is well-formed.
    pub open spec fn wf(&self) -> bool {
        &&& forall|i: int| 0 <= i < self.edges_spec().len() ==> self.edge_ok(#[trigger] self.edges_spec()[i])
        &&& forall|i: int|
            0 <= i < self.free_spec().len() ==> (#[trigger] self.free_spec()[i]) < self.nodes_spec().len()
                && self.nodes_spec()[self.free_spec()[i] as int] is None
        &&& forall|i: int, j: int|
            0 <= i < j < self.free_spec().len() ==> #[trigger] self.free_spec()[i]
                != #[trigger] self.free_spec()[j]
        &&& forall|id: int|
            0 <= id < self.nodes_spec().len() && self.nodes_spec()[id] is Some ==> kind_wf(
                &(#[trigger] self.nodes_spec()[id])->0,
            )
    }

    /// An empty graph.
    pub fn new() -> (r: Graph)
        ensures
            r.wf(),
            r.nodes_spec() == Seq::<Option<RenderNodeKind>>::empty(),
            r.edges_spec() == Seq::<Edge>::empty(),
            r.free_spec() == Seq::<usize>::empty(),
    {
        Graph { nodes: Vec::new(), edges: Vec::new(), free_list: Vec::new() }
    }

    /// Register a node, reusing the most recently freed id if any.
    pub fn add_node(&mut self, kind: RenderNodeKind) -> (id: usize)
        requires
            old(self).wf(),
            kind_wf(&kind),
            old(self).nodes_spec().len() < usize::MAX,
        ensures
            final(self).wf(),
            final(self).edges_spec() == old(self).edges_spec(),
            id < final(self).nodes_spec().len(),
            final(self).node_at(id as int) is Some,
            old(self).free_spec().len() > 0 ==> id == old(self).free_spec().last()
                && final(self).nodes_spec() == old(self).nodes_spec().update(
                id as int,
                Some(kind),
            ) && final(self).free_spec() == old(self).free_spec().drop_last(),
            old(self).free_spec().len() == 0 ==> id == old(self).nodes_spec().len() && final(self).nodes_spec() == old(self).nodes_spec().push(Some(kind)) && final(self).free_spec()
                == old(self).free_spec(),
    {
        let reused = self.free_list.pop();
        match reused {
            Some(id) => {
                self.nodes[id] = Some(kind);
                proof {
                    assert forall|i: int|
                        0 <= i < self.edges_spec().len() implies self.edge_ok(
                        #[trigger] self.edges_spec()[i],
                    ) by {
                        assert(old(self).edge_ok(old(self).edges_spec()[i]));
                    }
                }
                id
            },
            None => {
                let id = self.nodes.len();
                self.nodes.push(Some(kind));
                proof {
                    assert forall|i: int|
                        0 <= i < self.edges_spec().len() implies self.edge_ok(
                        #[trigger] self.edges_spec()[i],
                    ) by {
                        assert(old(self).edge_ok(old(self).edges_spec()[i]));
                    }
                }
                id
            },
        }
    }

    /// Connect an output port of `from` to an input port of `to`.  Fails,
    /// leaving the graph unchanged, when an endpoint is missing or a port is
    /// past its node's arity.
    pub fn connect(&mut self, from: usize, to: usize, output_index: u32, input_index: u32) -> (r:
        Result<(), GraphIntegrityError>)
        requires
            old(self).wf(),
        ensures
            final(self).wf(),
            final(self).nodes_spec() == old(self).nodes_spec(),
            final(self).free_spec() == old(self).free_spec(),
            ({
                let e = Edge { from, to, output_index, input_index };
                let missing = from >= old(self).nodes_spec().len() || to >= old(self).nodes_spec().len() || old(self).nodes_spec()[from as int] is None || old(self).nodes_spec()[to as int] is None;
                match r {
                    Ok(()) => old(self).edge_ok(e) && final(self).edges_spec() == old(self).edges_spec().push(e),
                    Err(err) => !old(self).edge_ok(e) && final(self).edges_spec() == old(self).edges_spec() && err == (if missing {
                        GraphIntegrityError::MissingNode
                    } else {
                        GraphIntegrityError::InvalidPort
                    }),
                }
            }),
    {
        if from >= self.nodes.len() || to >= self.nodes.len() {
            return Err(GraphIntegrityError::MissingNode);
        }
        let from_live = self.nodes[from].is_some();
        let to_live = self.nodes[to].is_some();
        if !from_live || !to_live {
            return Err(GraphIntegrityError::MissingNode);
        }
        let outs = match &self.nodes[from] {
            Some(RenderNodeKind::Source(..)) => 1u32,
            Some(RenderNodeKind::Filter(..)) => 1u32,
            Some(RenderNodeKind::Destination) => 0u32,
            None => 0u32,
        };
        let ins = match &self.nodes[to] {
            Some(RenderNodeKind::Source(..)) => 0u32,
            Some(RenderNodeKind::Filter(..)) => 1u32,
            Some(RenderNodeKind::Destination) => 1u32,
            None => 0u32,
        };
        if output_index >= outs || input_index >= ins {
            return Err(GraphIntegrityError::InvalidPort);
        }
        self.edges.push(Edge { from, to, output_index, input_index });
        proof {
            let e = Edge { from, to, output_index, input_index };
            assert(outs == outputs_of(&self.nodes_spec()[from as int]->0));
            assert(ins == inputs_of(&self.nodes_spec()[to as int]->0));
            assert(self.edge_ok(e));
            assert forall|i2: int|
                0 <= i2 < self.edges_spec().len() implies self.edge_ok(
                #[trigger] self.edges_spec()[i2],
            ) by {
                if i2 < old(self).edges_spec().len() {
                    assert(self.edges_spec()[i2] == old(self).edges_spec()[i2]);
                    assert(old(self).edge_ok(old(self).edges_spec()[i2]));
                } else {
                    assert(self.edges_spec()[i2] == e);
                }
            }
        }
        Ok(())
    }

    /// Remove every edge from `from` to `to`.
    pub fn disconnect(&mut self, from: usize, to: usize)
        requires
            old(self).wf(),
        ensures
            final(self).wf(),
            final(self).nodes_spec() == old(self).nodes_spec(),
            final(self).free_spec() == old(self).free_spec(),
            final(self).edges_spec() == old(self).edges_spec().filter(
                |e: Edge| !(e.from == from && e.to == to),
            ),
    {
        let mut kept: Vec<Edge> = Vec::new();
        let mut i: usize = 0;
        while i < self.edges.len()
            invariant
                old(self).wf(),
                self.nodes@ == old(self).nodes@,
                self.edges@ == old(self).edges@,
                0 <= i <= self.edges@.len(),
                kept@ == self.edges@.take(i as int).filter(
                    |e: Edge| !(e.from == from && e.to == to),
                ),
            decreases self.edges@.len() - i,
        {
            let e = self.edges[i];
            proof {
                assert(self.edges@.take(i + 1).drop_last() == self.edges@.take(i as int));
                assert(self.edges@.take(i + 1).last() == e);
                reveal(Seq::filter);
            }
            if !(e.from == from && e.to == to) {
                kept.push(e);
            }
            i += 1;
        }
        proof {
            assert(self.edges@.take(self.edges@.len() as int) == self.edges@);
        }
        self.edges = kept;
        proof {
            let f = |e: Edge| !(e.from == from && e.to == to);
            assert forall|i2: int|
                0 <= i2 < self.edges_spec().len() implies self.edge_ok(
                #[trigger] self.edges_spec()[i2],
            ) by {
                assert(old(self).edges_spec().filter(f).contains(self.edges_spec()[i2]));
                seq_filter_member(old(self).edges_spec(), f, self.edges_spec()[i2]);
                let j = choose|j: int|
                    0 <= j < old(self).edges_spec().len() && old(self).edges_spec()[j]
                        == self.edges_spec()[i2];
                assert(old(self).edge_ok(old(self).edges_spec()[j]));
            }
        }
    }
}

/// Some edge leaves node `id`.
pub open spec fn has_outgoing(edges: Seq<Edge>, id: int) -> bool {
    exists|i: int| 0 <= i < edges.len() && (#[trigger] edges[i]).from == id
}

/// Whether a node kind has nothing left to produce: a source is spent once
/// its playback ended, a filter keeps no tail, and the destination is never
/// pruned.
pub open spec fn kind_prunable(kind: &RenderNodeKind) -> bool {
    match kind {
        RenderNodeKind::Source(s) => s.state is Ended,
        RenderNodeKind::Filter(..) => true,
        RenderNodeKind::Destination => false,
    }
}

/// A live node with no downstream connection and nothing left to produce.
pub open spec fn slot_prunable(
    nodes: Seq<Option<RenderNodeKind>>,
    edges: Seq<Edge>,
    id: int,
) -> bool
    recommends
        0 <= id < nodes.len(),
{
    nodes[id] is Some && !has_outgoing(edges, id) && kind_prunable(&nodes[id]->0)
}

/// A source with its staged event taken.
pub open spec fn cleared(s: AudioBufferSourceRenderer) -> AudioBufferSourceRenderer {
    AudioBufferSourceRenderer { staged_event: None, ..s }
}

/// One arena slot advanced by a `frames`-frame quantum starting at `t0`:
/// sources advance and hand their staged event over; other kinds are driven
/// through their own processing contract separately.
pub open spec fn advanced_slot(
    slot: Option<RenderNodeKind>,
    t0: u64,
    frames: nat,
) -> Option<RenderNodeKind> {
    match slot {
        Some(RenderNodeKind::Source(s)) => Some(
            RenderNodeKind::Source(cleared(AudioBufferSourceRenderer::state_after(s, t0, frames))),
        ),
        _ => slot,
    }
}

/// The lifecycle messages the first `n` slots raise for this quantum, ids
/// ascending, one per source whose advanced state holds a staged event.
pub open spec fn staged_messages(
    nodes: Seq<Option<RenderNodeKind>>,
    t0: u64,
    frames: nat,
    n: int,
) -> Seq<EventEmitterMessage>
    decreases n,
{
    if n <= 0 {
        Seq::empty()
    } else {
        let rest = staged_messages(nodes, t0, frames, n - 1);
        match nodes[n - 1] {
            Some(RenderNodeKind::Source(s)) => {
                let adv = AudioBufferSourceRenderer::state_after(s, t0, frames);
                if adv.staged_event is Some {
                    rest.push(
                        EventEmitterMessage {
                            node_id: (n - 1) as u64,
                            event_type: adv.staged_event->0,
                        },
                    )
                } else {
                    rest
                }
            },
            _ => rest,
        }
    }
}

/// A silent block view: `channels` channels of `frames` zero samples.
pub open spec fn silence_view(channels: nat, frames: nat) -> Seq<Seq<i64>> {
    Seq::new(channels, |c: int| Seq::new(frames, |k: int| 0i64))
}

/// The samples a source produces this quantum, one channel per buffer
/// channel.
pub open spec fn source_block_view(
    s: AudioBufferSourceRenderer,
    t0: u64,
    frames: nat,
) -> Seq<Seq<i64>> {
    Seq::new(
        s.buffer@.len(),
        |ch: int|
            Seq::new(
                frames,
                |k: int|
                    AudioBufferSourceRenderer::step_sample(
                        AudioBufferSourceRenderer::state_after(s, t0, k as nat),
                        (t0 + k) as u64,
                        ch,
                    ),
            ),
    )
}

/// A source's quantum mixed to `channels` channels per the block mixing
/// policy.
pub open spec fn mixed_source_block(
    s: AudioBufferSourceRenderer,
    t0: u64,
    frames: nat,
    channels: nat,
) -> Seq<Seq<i64>> {
    Seq::new(
        channels,
        |c: int|
            Seq::new(
                frames,
                |k: int|
                    crate::buffer::mixed_sample(
                        source_block_view(s, t0, frames),
                        c,
                        k,
                        channels,
                    ) as i64,
            ),
    )
}

/// Two block views summed sample by sample, saturating.
pub open spec fn added_blocks(
    a: Seq<Seq<i64>>,
    b: Seq<Seq<i64>>,
    channels: nat,
    frames: nat,
) -> Seq<Seq<i64>> {
    Seq::new(
        channels,
        |c: int|
            Seq::new(
                frames,
                |k: int| crate::buffer::add_sat_spec(a[c][k] as int, b[c][k] as int) as i64,
            ),
    )
}

/// Some edge leads from `id` to a live destination node.
pub open spec fn feeds_destination(
    nodes: Seq<Option<RenderNodeKind>>,
    edges: Seq<Edge>,
    id: int,
) -> bool {
    exists|k: int|
        0 <= k < edges.len() && (#[trigger] edges[k]).from == id && edges[k].to < nodes.len()
            && nodes[edges[k].to as int] is Some && nodes[edges[k].to as int]->0 is Destination
}

/// The final mix of one quantum: the saturating sum, ids ascending, of the
/// blocks of the first `n` sources that feed a destination (each mixed to
/// `channels` channels; a source of more channels than a block may hold is
/// left out).
pub open spec fn quantum_mix(
    nodes: Seq<Option<RenderNodeKind>>,
    edges: Seq<Edge>,
    t0: u64,
    frames: nat,
    channels: nat,
    n: int,
) -> Seq<Seq<i64>>
    decreases n,
{
    if n <= 0 {
        silence_view(channels, frames)
    } else {
        let prev = quantum_mix(nodes, edges, t0, frames, channels, n - 1);
        match nodes[n - 1] {
            Some(RenderNodeKind::Source(s)) => {
                if feeds_destination(nodes, edges, n - 1) && s.buffer@.len()
                    <= crate::buffer::MAX_CHANNELS {
                    added_blocks(prev, mixed_source_block(s, t0, frames, channels), channels, frames)
                } else {
                    prev
                }
            },
            _ => prev,
        }
    }
}

/// The prunable ids among the first `n` slots, ascending.
pub open spec fn pruned_ids(
    nodes: Seq<Option<RenderNodeKind>>,
    edges: Seq<Edge>,
    n: int,
) -> Seq<usize>
    decreases n,
{
    if n <= 0 {
        Seq::empty()
    } else {
        let rest = pruned_ids(nodes, edges, n - 1);
        if slot_prunable(nodes, edges, n - 1) {
            rest.push((n - 1) as usize)
        } else {
            rest
        }
    }
}

impl Graph {
    /// Remove node `id`: clear its slot, drop every edge touching it, and
    /// return its id to the free list.  Fails, leaving the graph unchanged,
    /// when no live node has that id.
    pub fn remove_node(&mut self, id: usize) -> (r: Result<(), GraphIntegrityError>)
        requires
            old(self).wf(),
        ensures
            final(self).wf(),
            final(self).nodes_spec().len() == old(self).nodes_spec().len(),
            ({
                let live = id < old(self).nodes_spec().len() && old(self).nodes_spec()[id as int]
                    is Some;
                if live {
                    &&& r is Ok
                    &&& final(self).nodes_spec() == old(self).nodes_spec().update(id as int, None)
                    &&& final(self).edges_spec() == old(self).edges_spec().filter(
                        |e: Edge| !(e.from == id || e.to == id),
                    )
                    &&& final(self).free_spec() == old(self).free_spec().push(id)
                } else {
                    &&& r == Err::<(), GraphIntegrityError>(GraphIntegrityError::MissingNode)
                    &&& final(self).nodes_spec() == old(self).nodes_spec()
                    &&& final(self).edges_spec() == old(self).edges_spec()
                    &&& final(self).free_spec() == old(self).free_spec()
                }
            }),
    {
        if id >= self.nodes.len() {
            return Err(GraphIntegrityError::MissingNode);
        }
        if self.nodes[id].is_none() {
            return Err(GraphIntegrityError::MissingNode);
        }
        self.nodes[id] = None;
        self.free_list.push(id);
        let ghost pred = |e: Edge| !(e.from == id || e.to == id);
        let mut kept: Vec<Edge> = Vec::new();
        let mut i: usize = 0;
        while i < self.edges.len()
            invariant
                old(self).wf(),
                id < old(self).nodes_spec().len(),
                old(self).nodes_spec()[id as int] is Some,
                self.nodes@ == old(self).nodes@.update(id as int, None),
                self.edges@ == old(self).edges@,
                0 <= i <= self.edges@.len(),
                kept@ == self.edges@.take(i as int).filter(pred),
                pred == (|e: Edge| !(e.from == id || e.to == id)),
            decreases self.edges@.len() - i,
        {
            let e = self.edges[i];
            proof {
                assert(self.edges@.take(i + 1).drop_last() == self.edges@.take(i as int));
                assert(self.edges@.take(i + 1).last() == e);
                reveal(Seq::filter);
            }
            if !(e.from == id || e.to == id) {
                kept.push(e);
            }
            i += 1;
        }
        proof {
            assert(self.edges@.take(self.edges@.len() as int) == self.edges@);
        }
        self.edges = kept;
        proof {
            assert forall|i2: int|
                0 <= i2 < self.edges_spec().len() implies self.edge_ok(
                #[trigger] self.edges_spec()[i2],
            ) by {
                assert(old(self).edges_spec().filter(pred).contains(self.edges_spec()[i2]));
                seq_filter_member(old(self).edges_spec(), pred, self.edges_spec()[i2]);
                let j = choose|j: int|
                    0 <= j < old(self).edges_spec().len() && old(self).edges_spec()[j]
                        == self.edges_spec()[i2];
                assert(old(self).edge_ok(old(self).edges_spec()[j]));
            }
            assert forall|k: int|
                0 <= k < old(self).free_spec().len() implies #[trigger] self.free_spec()[k] != id
                    as usize by {
                assert(old(self).nodes_spec()[old(self).free_spec()[k] as int] is None);
            }
        }
        Ok(())
    }

    /// Whether a node is live at `id`.
    pub fn node_is_live(&self, id: usize) -> (b: bool)
        ensures
            b == (id < self.nodes_spec().len() && self.nodes_spec()[id as int] is Some),
    {
        id < self.nodes.len() && self.nodes[id].is_some()
    }

    /// How many edges the graph holds.
    pub fn edge_count(&self) -> (r: usize)
        ensures
            r == self.edges_spec().len(),
    {
        self.edges.len()
    }

    /// Whether some edge leads from `id` to a live destination node.
    fn feeds_destination_exec(&self, id: usize) -> (b: bool)
        ensures
            b == feeds_destination(self.nodes_spec(), self.edges_spec(), id as int),
    {
        let mut i: usize = 0;
        while i < self.edges.len()
            invariant
                0 <= i <= self.edges@.len(),
                forall|k: int|
                    0 <= k < i ==> !((#[trigger] self.edges@[k]).from == id
                        && self.edges@[k].to < self.nodes@.len()
                        && self.nodes@[self.edges@[k].to as int] is Some
                        && self.nodes@[self.edges@[k].to as int]->0 is Destination),
            decreases self.edges@.len() - i,
        {
            let e = self.edges[i];
            if e.from == id && e.to < self.nodes.len() {
                match &self.nodes[e.to] {
                    Some(RenderNodeKind::Destination) => {
                        return true;
                    },
                    _ => {},
                }
            }
            i += 1;
        }
        false
    }

    /// Whether some edge leaves node `id`.
    fn has_outgoing_exec(&self, id: usize) -> (b: bool)
        ensures
            b == has_outgoing(self.edges_spec(), id as int),
    {
        let mut i: usize = 0;
        while i < self.edges.len()
            invariant
                0 <= i <= self.edges@.len(),
                forall|j: int| 0 <= j < i ==> (#[trigger] self.edges@[j]).from != id,
            decreases self.edges@.len() - i,
        {
            if self.edges[i].from == id {
                return true;
            }
            i += 1;
        }
        false
    }

    /// Whether node `id` would be pruned now.
    fn prunable_exec(&self, id: usize) -> (b: bool)
        requires
            id < self.nodes_spec().len(),
        ensures
            b == slot_prunable(self.nodes_spec(), self.edges_spec(), id as int),
    {
        let live_prunable = match &self.nodes[id] {
            None => false,
            Some(RenderNodeKind::Source(s)) => matches!(s.state, PlaybackState::Ended),
            Some(RenderNodeKind::Filter(..)) => true,
            Some(RenderNodeKind::Destination) => false,
        };
        if !live_prunable {
            return false;
        }
        !self.has_outgoing_exec(id)
    }

    /// Remove every live node that has no downstream connection and nothing
    /// left to produce — a finished, non-looping source among them — within
    /// this call: its slot is cleared, its id returns to the free list, and
    /// edges into it disappear.
    pub fn prune(&mut self)
        requires
            old(self).wf(),
        ensures
            final(self).wf(),
            final(self).nodes_spec().len() == old(self).nodes_spec().len(),
            forall|id: int|
                0 <= id < old(self).nodes_spec().len() ==> final(self).nodes_spec()[id] == (
                if slot_prunable(old(self).nodes_spec(), old(self).edges_spec(), id) {
                    None
                } else {
                    old(self).nodes_spec()[id]
                }),
            final(self).edges_spec() == old(self).edges_spec().filter(
                |e: Edge|
                    !slot_prunable(old(self).nodes_spec(), old(self).edges_spec(), e.to as int),
            ),
            final(self).free_spec() == old(self).free_spec() + pruned_ids(
                old(self).nodes_spec(),
                old(self).edges_spec(),
                old(self).nodes_spec().len() as int,
            ),
    {
        let ghost onodes = self.nodes_spec();
        let ghost oedges = self.edges_spec();
        let ghost ofree = self.free_spec();
        let n = self.nodes.len();
        let mut flags: Vec<bool> = Vec::new();
        let mut id: usize = 0;
        while id < n
            invariant
                self == old(self),
                n == onodes.len(),
                onodes == self.nodes_spec(),
                oedges == self.edges_spec(),
                0 <= id <= n,
                flags@.len() == id,
                forall|j: int| 0 <= j < id ==> flags@[j] == slot_prunable(onodes, oedges, j),
            decreases n - id,
        {
            let f = self.prunable_exec(id);
            flags.push(f);
            id += 1;
        }
        let mut i: usize = 0;
        while i < n
            invariant
                old(self).wf(),
                n == onodes.len(),
                onodes == old(self).nodes_spec(),
                oedges == old(self).edges_spec(),
                ofree == old(self).free_spec(),
                0 <= i <= n,
                flags@.len() == n,
                forall|j: int| 0 <= j < n ==> flags@[j] == slot_prunable(onodes, oedges, j),
                self.nodes_spec().len() == n,
                self.edges_spec() == oedges,
                forall|j: int|
                    0 <= j < i ==> self.nodes_spec()[j] == (if slot_prunable(onodes, oedges, j) {
                        None
                    } else {
                        onodes[j]
                    }),
                forall|j: int| i <= j < n ==> self.nodes_spec()[j] == onodes[j],
                self.free_spec() == ofree + pruned_ids(onodes, oedges, i as int),
                forall|k: int|
                    0 <= k < ofree.len() ==> onodes[ofree[k] as int] is None && ofree[k] < n,
                forall|k: int|
                    ofree.len() <= k < self.free_spec().len() ==> (#[trigger] self.free_spec()[k])
                        < i && onodes[self.free_spec()[k] as int] is Some,
                forall|k: int|
                    0 <= k < self.free_spec().len() ==> (#[trigger] self.free_spec()[k]) < n
                        && self.nodes_spec()[self.free_spec()[k] as int] is None,
                forall|k: int, k2: int|
                    0 <= k < k2 < self.free_spec().len() ==> #[trigger] self.free_spec()[k]
                        != #[trigger] self.free_spec()[k2],
            decreases n - i,
        {
            if flags[i] {
                self.nodes[i] = None;
                self.free_list.push(i);
            }
            i += 1;
        }
        let ghost pred = |e: Edge| !slot_prunable(onodes, oedges, e.to as int);
        let mut kept: Vec<Edge> = Vec::new();
        let mut j: usize = 0;
        while j < self.edges.len()
            invariant
                old(self).wf(),
                n == onodes.len(),
                onodes == old(self).nodes_spec(),
                oedges == old(self).edges_spec(),
                self.edges_spec() == oedges,
                flags@.len() == n,
                forall|k: int| 0 <= k < n ==> flags@[k] == slot_prunable(onodes, oedges, k),
                0 <= j <= oedges.len(),
                kept@ == oedges.take(j as int).filter(pred),
                pred == (|e: Edge| !slot_prunable(onodes, oedges, e.to as int)),
            decreases oedges.len() - j,
        {
            let e = self.edges[j];
            proof {
                assert(oedges.take(j + 1).drop_last() == oedges.take(j as int));
                assert(oedges.take(j + 1).last() == e);
                reveal(Seq::filter);
                assert(old(self).edge_ok(old(self).edges_spec()[j as int]));
                assert(e.to < n);
                assert(flags@[e.to as int] == slot_prunable(onodes, oedges, e.to as int));
                assert(pred(e) == !slot_prunable(onodes, oedges, e.to as int));
            }
            if !flags[e.to] {
                kept.push(e);
            }
            j += 1;
        }
        proof {
            assert(oedges.take(oedges.len() as int) == oedges);
        }
        self.edges = kept;
        proof {
            assert forall|i2: int|
                0 <= i2 < self.edges_spec().len() implies self.edge_ok(
                #[trigger] self.edges_spec()[i2],
            ) by {
                assert(oedges.filter(pred).contains(self.edges_spec()[i2]));
                seq_filter_member(oedges, pred, self.edges_spec()[i2]);
                let j2 = choose|j2: int|
                    0 <= j2 < oedges.len() && oedges[j2] == self.edges_spec()[i2];
                assert(old(self).edge_ok(oedges[j2]));
                let e = self.edges_spec()[i2];
                assert(has_outgoing(oedges, e.from as int)) by {
                    assert(oedges[j2].from == e.from);
                }
                assert(!slot_prunable(onodes, oedges, e.from as int));
                assert(pred(e));
                assert(!slot_prunable(onodes, oedges, e.to as int));
            }
        }
    }

    /// Apply one control command.  A command naming a missing node, or one
    /// whose target is not of the required kind or lifecycle state, is
    /// rejected and the graph is left exactly as it was.
    pub fn apply_command(&mut self, cmd: Command) -> (r: Result<(), GraphIntegrityError>)
        requires
            old(self).wf(),
        ensures
            final(self).wf(),
            final(self).nodes_spec().len() == old(self).nodes_spec().len(),
            match cmd {
                Command::Connect { from, to, output_index, input_index } => ({
                    let e = Edge { from, to, output_index, input_index };
                    let missing = from >= old(self).nodes_spec().len() || to >= old(
                        self,
                    ).nodes_spec().len() || old(self).nodes_spec()[from as int] is None || old(
                        self,
                    ).nodes_spec()[to as int] is None;
                    &&& final(self).nodes_spec() == old(self).nodes_spec()
                    &&& final(self).free_spec() == old(self).free_spec()
                    &&& match r {
                        Ok(()) => old(self).edge_ok(e) && final(self).edges_spec() == old(
                            self,
                        ).edges_spec().push(e),
                        Err(err) => !old(self).edge_ok(e) && final(self).edges_spec() == old(
                            self,
                        ).edges_spec() && err == (if missing {
                            GraphIntegrityError::MissingNode
                        } else {
                            GraphIntegrityError::InvalidPort
                        }),
                    }
                }),
                Command::Disconnect { from, to } => {
                    &&& r is Ok
                    &&& final(self).nodes_spec() == old(self).nodes_spec()
                    &&& final(self).free_spec() == old(self).free_spec()
                    &&& final(self).edges_spec() == old(self).edges_spec().filter(
                        |e: Edge| !(e.from == from && e.to == to),
                    )
                },
                Command::Drop { node } => ({
                    let live = node < old(self).nodes_spec().len() && old(
                        self,
                    ).nodes_spec()[node as int] is Some;
                    if live {
                        &&& r is Ok
                        &&& final(self).nodes_spec() == old(self).nodes_spec().update(
                            node as int,
                            None,
                        )
                        &&& final(self).edges_spec() == old(self).edges_spec().filter(
                            |e: Edge| !(e.from == node || e.to == node),
                        )
                        &&& final(self).free_spec() == old(self).free_spec().push(node)
                    } else {
                        &&& r == Err::<(), GraphIntegrityError>(GraphIntegrityError::MissingNode)
                        &&& final(self).nodes_spec() == old(self).nodes_spec()
                        &&& final(self).edges_spec() == old(self).edges_spec()
                        &&& final(self).free_spec() == old(self).free_spec()
                    }
                }),
                _ => ({
                    let node = cmd_node(&cmd);
                    &&& final(self).edges_spec() == old(self).edges_spec()
                    &&& final(self).free_spec() == old(self).free_spec()
                    &&& if node >= old(self).nodes_spec().len() || !(old(
                        self,
                    ).nodes_spec()[node as int] is Some) {
                        r == Err::<(), GraphIntegrityError>(GraphIntegrityError::MissingNode)
                            && final(self).nodes_spec() == old(self).nodes_spec()
                    } else {
                        match old(self).nodes_spec()[node as int]->0 {
                            RenderNodeKind::Source(s) => command_outcome(
                                old(self).nodes_spec(),
                                s,
                                &cmd,
                                r,
                                final(self).nodes_spec(),
                            ),
                            _ => r == Err::<(), GraphIntegrityError>(
                                GraphIntegrityError::WrongNodeState,
                            ) && final(self).nodes_spec() == old(self).nodes_spec(),
                        }
                    }
                }),
            },
    {
        match cmd {
            Command::Connect { from, to, output_index, input_index } => {
                self.connect(from, to, output_index, input_index)
            },
            Command::Disconnect { from, to } => {
                self.disconnect(from, to);
                Ok(())
            },
            Command::Drop { node } => self.remove_node(node),
            other => self.apply_source_command(other),
        }
    }

    /// Apply one of the source-targeted commands.
    fn apply_source_command(&mut self, cmd: Command) -> (r: Result<(), GraphIntegrityError>)
        requires
            old(self).wf(),
            cmd is Start || cmd is Stop || cmd is SetLoop || cmd is SetRate,
        ensures
            final(self).wf(),
            final(self).nodes_spec().len() == old(self).nodes_spec().len(),
            final(self).edges_spec() == old(self).edges_spec(),
            final(self).free_spec() == old(self).free_spec(),
            ({
                let node = cmd_node(&cmd);
                if node >= old(self).nodes_spec().len() || !(old(self).nodes_spec()[node as int]
                    is Some) {
                    r == Err::<(), GraphIntegrityError>(GraphIntegrityError::MissingNode)
                        && final(self).nodes_spec() == old(self).nodes_spec()
                } else {
                    match old(self).nodes_spec()[node as int]->0 {
                        RenderNodeKind::Source(s) => command_outcome(
                            old(self).nodes_spec(),
                            s,
                            &cmd,
                            r,
                            final(self).nodes_spec(),
                        ),
                        _ => r == Err::<(), GraphIntegrityError>(
                            GraphIntegrityError::WrongNodeState,
                        ) && final(self).nodes_spec() == old(self).nodes_spec(),
                    }
                }
            }),
    {
        let node = match &cmd {
            Command::Start { node, .. } => *node,
            Command::Stop { node, .. } => *node,
            Command::SetLoop { node, .. } => *node,
            Command::SetRate { node, .. } => *node,
            Command::Connect { from, .. } => *from,
            Command::Disconnect { from, .. } => *from,
            Command::Drop { node } => *node,
        };
        if node >= self.nodes.len() {
            return Err(GraphIntegrityError::MissingNode);
        }
        let mut slot: Option<RenderNodeKind> = None;
        core::mem::swap(&mut slot, &mut self.nodes[node]);
        match slot {
            None => {
                self.nodes[node] = None;
                proof {
                    assert(self.nodes_spec() =~= old(self).nodes_spec());
                    restore_wf(old(self), self);
                }
                Err(GraphIntegrityError::MissingNode)
            },
            Some(RenderNodeKind::Source(mut s)) => {
                let out: Result<(), GraphIntegrityError>;
                match cmd {
                    Command::Start { when, offset, duration, .. } => {
                        if !matches!(s.state, PlaybackState::Unscheduled) {
                            out = Err(GraphIntegrityError::WrongNodeState);
                        } else {
                            let frames = s.buffer.channel_count();
                            let nframes: usize = if frames == 0 {
                                0
                            } else {
                                s.buffer.frames()
                            };
                            let full: i64 = (nframes as i64) * crate::node::buffer_source::POS_ONE;
                            proof {
                                assert(nframes as int * 65536 <= 0x4000_0000 * 65536)
                                    by (nonlinear_arith)
                                    requires
                                        0 <= nframes as int <= 0x4000_0000,
                                ;
                            }
                            if offset < 0 || offset > full {
                                out = Err(GraphIntegrityError::WrongNodeState);
                            } else {
                                s.start(when, offset, duration);
                                out = Ok(());
                            }
                        }
                    },
                    Command::Stop { when, .. } => {
                        if matches!(s.state, PlaybackState::Scheduled) || matches!(
                            s.state,
                            PlaybackState::Playing,
                        ) {
                            s.stop(when);
                            out = Ok(());
                        } else {
                            out = Err(GraphIntegrityError::WrongNodeState);
                        }
                    },
                    Command::SetLoop { enabled, start, end, .. } => {
                        s.set_loop(enabled, start, end);
                        out = Ok(());
                    },
                    Command::SetRate { rate, .. } => {
                        s.set_playback_rate(rate);
                        out = Ok(());
                    },
                    Command::Connect { .. } | Command::Disconnect { .. } | Command::Drop {
                        ..
                    } => {
                        out = Ok(());
                    },
                }
                self.nodes[node] = Some(RenderNodeKind::Source(s));
                proof {
                    assert(self.nodes_spec() =~= old(self).nodes_spec().update(
                        node as int,
                        self.nodes_spec()[node as int],
                    ));
                    if out is Err {
                        assert(self.nodes_spec() =~= old(self).nodes_spec());
                    }
                    restore_wf(old(self), self);
                }
                out
            },
            Some(other) => {
                self.nodes[node] = Some(other);
                proof {
                    assert(self.nodes_spec() =~= old(self).nodes_spec());
                    restore_wf(old(self), self);
                }
                Err(GraphIntegrityError::WrongNodeState)
            },
        }
    }

    /// Render one quantum: advance every live source by `frames` frames from
    /// `t0`, gather the destination's final mix — the saturating sum of every
    /// source that feeds a destination, mixed to `channels` channels —
    /// collect each staged lifecycle event exactly once (ids ascending), and
    /// prune what finished.
    pub fn process_quantum(&mut self, t0: u64, frames: usize, channels: usize) -> (r: (
        AudioRenderQuantum,
        Vec<EventEmitterMessage>,
    ))
        requires
            old(self).wf(),
            t0 + frames <= u64::MAX,
            1 <= channels <= crate::buffer::MAX_CHANNELS,
        ensures
            final(self).wf(),
            final(self).nodes_spec().len() == old(self).nodes_spec().len(),
            r.0@ == quantum_mix(
                old(self).nodes_spec(),
                old(self).edges_spec(),
                t0,
                frames as nat,
                channels as nat,
                old(self).nodes_spec().len() as int,
            ),
            r.1@ == staged_messages(old(self).nodes_spec(), t0, frames as nat,
                old(self).nodes_spec().len() as int),
            ({
                let adv = Seq::new(
                    old(self).nodes_spec().len(),
                    |id: int| advanced_slot(old(self).nodes_spec()[id], t0, frames as nat),
                );
                &&& forall|id: int|
                    0 <= id < adv.len() ==> final(self).nodes_spec()[id] == (if slot_prunable(
                        adv,
                        old(self).edges_spec(),
                        id,
                    ) {
                        None
                    } else {
                        adv[id]
                    })
                &&& final(self).edges_spec() == old(self).edges_spec().filter(
                    |e: Edge| !slot_prunable(adv, old(self).edges_spec(), e.to as int),
                )
                &&& final(self).free_spec() == old(self).free_spec() + pruned_ids(
                    adv,
                    old(self).edges_spec(),
                    adv.len() as int,
                )
            }),
    {
        let ghost onodes = self.nodes_spec();
        let ghost oedges = self.edges_spec();
        let ghost adv = Seq::new(
            onodes.len(),
            |id: int| advanced_slot(onodes[id], t0, frames as nat),
        );
        let n = self.nodes.len();
        let mut feeds: Vec<bool> = Vec::new();
        let mut fid: usize = 0;
        while fid < n
            invariant
                self == old(self),
                n == onodes.len(),
                onodes == self.nodes_spec(),
                oedges == self.edges_spec(),
                0 <= fid <= n,
                feeds@.len() == fid,
                forall|j: int| 0 <= j < fid ==> feeds@[j] == feeds_destination(onodes, oedges, j),
            decreases n - fid,
        {
            let f = self.feeds_destination_exec(fid);
            feeds.push(f);
            fid += 1;
        }
        let mut mix = AudioRenderQuantum::silence(channels, frames);
        proof {
            assert(mix@ =~~= quantum_mix(onodes, oedges, t0, frames as nat, channels as nat, 0));
        }
        let mut events: Vec<EventEmitterMessage> = Vec::new();
        let mut id: usize = 0;
        while id < n
            invariant
                old(self).wf(),
                t0 + frames <= u64::MAX,
                1 <= channels <= crate::buffer::MAX_CHANNELS,
                n == onodes.len(),
                onodes == old(self).nodes_spec(),
                oedges == old(self).edges_spec(),
                adv == Seq::new(
                    onodes.len(),
                    |id2: int| advanced_slot(onodes[id2], t0, frames as nat),
                ),
                0 <= id <= n,
                feeds@.len() == n,
                forall|j: int| 0 <= j < n ==> feeds@[j] == feeds_destination(onodes, oedges, j),
                self.nodes_spec().len() == n,
                self.edges_spec() == old(self).edges_spec(),
                self.free_spec() == old(self).free_spec(),
                forall|j: int| 0 <= j < id ==> self.nodes_spec()[j] == adv[j],
                forall|j: int| id <= j < n ==> self.nodes_spec()[j] == onodes[j],
                self.wf(),
                mix@.len() == channels,
                mix.wf(frames as nat),
                mix@ == quantum_mix(onodes, oedges, t0, frames as nat, channels as nat, id as int),
                events@ == staged_messages(onodes, t0, frames as nat, id as int),
            decreases n - id,
        {
            let mut slot: Option<RenderNodeKind> = None;
            core::mem::swap(&mut slot, &mut self.nodes[id]);
            let ghost mid = *self;
            match slot {
                Some(RenderNodeKind::Source(mut s)) => {
                    let ghost s0 = s;
                    let block = s.process_quantum(t0, frames);
                    if feeds[id] && block.channel_count() <= crate::buffer::MAX_CHANNELS {
                        proof {
                            assert(block@ =~~= source_block_view(s0, t0, frames as nat));
                            assert(block.wf(frames as nat));
                        }
                        let mixed = block.mix_to_channel_count(channels, frames);
                        let ghost premix = mix@;
                        mix.add_block(&mixed);
                        proof {
                            assert(mixed@ =~~= mixed_source_block(
                                s0,
                                t0,
                                frames as nat,
                                channels as nat,
                            ));
                            assert(mix@ =~~= added_blocks(
                                premix,
                                mixed_source_block(s0, t0, frames as nat, channels as nat),
                                channels as nat,
                                frames as nat,
                            ));
                        }
                    }
                    let ev = s.staged_event;
                    s.staged_event = None;
                    match ev {
                        Some(et) => {
                            events.push(
                                EventEmitterMessage { node_id: id as u64, event_type: et },
                            );
                        },
                        None => {},
                    }
                    self.nodes[id] = Some(RenderNodeKind::Source(s));
                },
                other => {
                    self.nodes[id] = other;
                },
            }
            proof {
                assert(self.nodes_spec()[id as int] == adv[id as int]);
                assert(mix@ == quantum_mix(
                    onodes,
                    oedges,
                    t0,
                    frames as nat,
                    channels as nat,
                    id + 1,
                ));
                assert forall|i2: int|
                    0 <= i2 < self.edges_spec().len() implies self.edge_ok(
                    #[trigger] self.edges_spec()[i2],
                ) by {
                    assert(old(self).edge_ok(old(self).edges_spec()[i2]));
                }
            }
            id += 1;
        }
        proof {
            assert(self.nodes_spec() =~= adv);
        }
        self.prune();
        (mix, events)
    }
}

/// The node id a command addresses.
pub open spec fn cmd_node(cmd: &Command) -> usize {
    match cmd {
        Command::Start { node, .. } => *node,
        Command::Stop { node, .. } => *node,
        Command::SetLoop { node, .. } => *node,
        Command::SetRate { node, .. } => *node,
        Command::Connect { from, .. } => *from,
        Command::Disconnect { from, .. } => *from,
        Command::Drop { node } => *node,
    }
}

/// What applying `cmd` to the source `s` at its slot must yield: the exact
/// success condition, the updated node on success, and an untouched graph on
/// rejection.
pub open spec fn command_outcome(
    onodes: Seq<Option<RenderNodeKind>>,
    s: AudioBufferSourceRenderer,
    cmd: &Command,
    r: Result<(), GraphIntegrityError>,
    fnodes: Seq<Option<RenderNodeKind>>,
) -> bool {
    let node = cmd_node(cmd) as int;
    match *cmd {
        Command::Start { when, offset, duration, .. } => {
            if s.state is Unscheduled && 0 <= offset <= s.buf_frames() * 65536 {
                r is Ok && fnodes == onodes.update(
                    node,
                    Some(
                        RenderNodeKind::Source(
                            AudioBufferSourceRenderer {
                                state: PlaybackState::Scheduled,
                                start_frame: when,
                                duration_frames: duration,
                                position: offset,
                                ..s
                            },
                        ),
                    ),
                )
            } else {
                r == Err::<(), GraphIntegrityError>(GraphIntegrityError::WrongNodeState) && fnodes
                    == onodes
            }
        },
        Command::Stop { when, .. } => {
            if s.state is Scheduled || s.state is Playing {
                r is Ok && fnodes == onodes.update(
                    node,
                    Some(
                        RenderNodeKind::Source(
                            AudioBufferSourceRenderer { stop_frame: when, ..s },
                        ),
                    ),
                )
            } else {
                r == Err::<(), GraphIntegrityError>(GraphIntegrityError::WrongNodeState) && fnodes
                    == onodes
            }
        },
        Command::SetLoop { enabled, start, end, .. } => {
            let full_end = s.buf_frames() * 65536;
            let valid = 0 <= start && start < end && end <= full_end;
            let s2 = if !enabled || s.buf_frames() == 0 {
                AudioBufferSourceRenderer { loop_enabled: false, ..s }
            } else if valid {
                AudioBufferSourceRenderer { loop_enabled: true, loop_start: start, loop_end: end, ..s }
            } else {
                AudioBufferSourceRenderer {
                    loop_enabled: true,
                    loop_start: 0,
                    loop_end: full_end as i64,
                    ..s
                }
            };
            r is Ok && fnodes == onodes.update(node, Some(RenderNodeKind::Source(s2)))
        },
        Command::Connect { .. } => true,
        Command::Disconnect { .. } => true,
        Command::Drop { .. } => true,
        Command::SetRate { rate, .. } => r is Ok && fnodes == onodes.update(
            node,
            Some(
                RenderNodeKind::Source(
                    AudioBufferSourceRenderer {
                        rate: crate::node::buffer_source::clamp_spec(
                            rate as int,
                            -(crate::node::buffer_source::MAX_RATE_MAG as int),
                            crate::node::buffer_source::MAX_RATE_MAG as int,
                        ) as i64,
                        ..s
                    },
                ),
            ),
        ),
    }
}

/// Nodes unchanged in every live slot keep the graph well-formed.
proof fn restore_wf(g0: &Graph, g1: &Graph)
    requires
        g0.wf(),
        g1.nodes_spec().len() == g0.nodes_spec().len(),
        g1.edges_spec() == g0.edges_spec(),
        g1.free_spec() == g0.free_spec(),
        forall|id: int|
            0 <= id < g1.nodes_spec().len() ==> ((#[trigger] g1.nodes_spec()[id]) is Some
                <==> g0.nodes_spec()[id] is Some),
        forall|id: int|
            0 <= id < g1.nodes_spec().len() && g1.nodes_spec()[id] is Some ==> kind_wf(
                &(#[trigger] g1.nodes_spec()[id])->0,
            ) && inputs_of(&g1.nodes_spec()[id]->0) == inputs_of(&g0.nodes_spec()[id]->0)
                && outputs_of(&g1.nodes_spec()[id]->0) == outputs_of(&g0.nodes_spec()[id]->0),
    ensures
        g1.wf(),
{
    assert forall|i: int|
        0 <= i < g1.edges_spec().len() implies g1.edge_ok(#[trigger] g1.edges_spec()[i]) by {
        assert(g0.edge_ok(g0.edges_spec()[i]));
    }
}

/// Every element of a filtered sequence occurs in the sequence it was filtered from.
proof fn seq_filter_member(s: Seq<Edge>, f: spec_fn(Edge) -> bool, e: Edge)
    requires
        s.filter(f).contains(e),
    ensures
        exists|j: int| 0 <= j < s.len() && s[j] == e,
    decreases s.len(),
{
    reveal(Seq::filter);
    if s.len() > 0 {
        if f(s.last()) && e == s.last() {
            assert(s[s.len() - 1] == e);
        } else {
            seq_filter_member(s.drop_last(), f, e);
            let j = choose|j: int| 0 <= j < s.drop_last().len() && s.drop_last()[j] == e;
            assert(s[j] == e);
        }
    }
}

} // verus!
