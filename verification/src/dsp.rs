//! Audio DSP block planning: from a validated graph and its execution order,
//! the audio-block nodes in order, one buffer per audio signal output, the
//! signal edges with the buffers they read, and each node's control inputs.
use vstd::prelude::*;
use crate::contract::{
    DataFlow, Edge, ExecutionModel, GraphDocument, GraphNode, ParamValueView, Port, PortDirection,
    copy_params, find_node, find_node_index, lemma_find_node_index_spec,
    param_entry_views,
};
use crate::text::{concat2, decimal, decimal_string, owned, str_eq};

verus! {

pub const AUDIO_SIGNAL_KIND: &'static str = "signal.audio";

pub const DEFAULT_BLOCK_SIZE: u32 = 64;

pub const DEFAULT_SAMPLE_RATE: u32 = 48_000;

pub const DEFAULT_SAMPLE_FORMAT: &'static str = "f32";

/// Block size and sample rate of a plan.
#[derive(Debug, Clone, Copy, PartialEq, Eq, Structural)]
pub struct AudioDspPlanOptions {
    pub block_size: u32,
    pub sample_rate: u32,
}

impl Default for AudioDspPlanOptions {
    fn default() -> (r: Self)
        ensures
            r.block_size == DEFAULT_BLOCK_SIZE,
            r.sample_rate == DEFAULT_SAMPLE_RATE,
    {
        AudioDspPlanOptions { block_size: DEFAULT_BLOCK_SIZE, sample_rate: DEFAULT_SAMPLE_RATE }
    }
}

/// A node of an execution plan: the node's id and how it runs.
#[derive(Debug, Clone, PartialEq, Eq)]
pub struct ExecutionPlanNode {
    pub node_id: String,
    pub execution_model: ExecutionModel,
}

/// The execution order of a validated graph.
#[derive(Debug, Clone, PartialEq, Eq)]
pub struct ExecutionPlan {
    pub nodes: Vec<ExecutionPlanNode>,
}

/// A block-scheduled audio plan.
#[derive(Debug, Clone, PartialEq, Eq)]
pub struct AudioDspPlan {
    pub graph_id: String,
    pub graph_revision: String,
    pub block_size: u32,
    pub sample_rate: u32,
    pub nodes: Vec<AudioDspPlanNode>,
    pub edges: Vec<AudioDspPlanEdge>,
    pub buffers: Vec<AudioDspBuffer>,
}

/// An audio-block node of a plan.
#[derive(Debug, Clone, PartialEq, Eq)]
pub struct AudioDspPlanNode {
    pub node_id: String,
    pub kind: String,
    pub kind_version: String,
    pub order: usize,
    pub params: Vec<crate::contract::ParamEntry>,
    pub signal_inputs: Vec<AudioDspSignalInput>,
    pub control_inputs: Vec<AudioDspControlInput>,
    pub signal_outputs: Vec<AudioDspSignalOutput>,
}

/// An audio input port and the buffer it reads.
#[derive(Debug, Clone, PartialEq, Eq)]
pub struct AudioDspSignalInput {
    pub port_id: String,
    pub source_node_id: String,
    pub source_port_id: String,
    pub buffer_id: String,
}

/// A non-audio input port and the first edge that feeds it, if any.
#[derive(Debug, Clone, PartialEq, Eq)]
pub struct AudioDspControlInput {
    pub port_id: String,
    pub data_kind: String,
    pub source_node_id: Option<String>,
    pub source_port_id: Option<String>,
}

/// An audio output port and the buffer it writes.
#[derive(Debug, Clone, PartialEq, Eq)]
pub struct AudioDspSignalOutput {
    pub port_id: String,
    pub buffer_id: String,
}

/// An audio signal edge and the buffer it carries.
#[derive(Debug, Clone, PartialEq, Eq)]
pub struct AudioDspPlanEdge {
    pub from_node: String,
    pub from_port: String,
    pub to_node: String,
    pub to_port: String,
    pub buffer_id: String,
}

/// A mono sample buffer written by one audio output.
#[derive(Debug, Clone, PartialEq, Eq)]
pub struct AudioDspBuffer {
    pub id: String,
    pub producer_node_id: String,
    pub producer_port_id: String,
    pub sample_format: String,
    pub channels: u32,
}

/// Why no plan was built.
#[derive(Debug, Clone, PartialEq, Eq)]
pub enum AudioDspPlanError {
    /// The project did not validate; the report's text.
    InvalidProject(String),
    /// No execution plan could be built; the planner's message.
    Plan(String),
    InvalidBlockSize,
    InvalidSampleRate,
    SignalPortOutsideAudioBlock { node_id: String, port_id: String },
}

// ---------------------------------------------------------------------------
// Views.
// ---------------------------------------------------------------------------

pub struct SignalInputView {
    pub port_id: Seq<char>,
    pub source_node_id: Seq<char>,
    pub source_port_id: Seq<char>,
    pub buffer_id: Seq<char>,
}

pub struct ControlInputView {
    pub port_id: Seq<char>,
    pub data_kind: Seq<char>,
    pub source_node_id: Option<Seq<char>>,
    pub source_port_id: Option<Seq<char>>,
}

pub struct SignalOutputView {
    pub port_id: Seq<char>,
    pub buffer_id: Seq<char>,
}

pub struct PlanEdgeView {
    pub from_node: Seq<char>,
    pub from_port: Seq<char>,
    pub to_node: Seq<char>,
    pub to_port: Seq<char>,
    pub buffer_id: Seq<char>,
}

pub struct BufferView {
    pub id: Seq<char>,
    pub producer_node_id: Seq<char>,
    pub producer_port_id: Seq<char>,
    pub sample_format: Seq<char>,
    pub channels: u32,
}

pub struct PlanNodeView {
    pub node_id: Seq<char>,
    pub kind: Seq<char>,
    pub kind_version: Seq<char>,
    pub order: int,
    pub params: Seq<(Seq<char>, ParamValueView)>,
    pub signal_inputs: Seq<SignalInputView>,
    pub control_inputs: Seq<ControlInputView>,
    pub signal_outputs: Seq<SignalOutputView>,
}

pub struct PlanView {
    pub graph_id: Seq<char>,
    pub graph_revision: Seq<char>,
    pub block_size: u32,
    pub sample_rate: u32,
    pub nodes: Seq<PlanNodeView>,
    pub edges: Seq<PlanEdgeView>,
    pub buffers: Seq<BufferView>,
}

pub enum PlanErrorView {
    InvalidProject(Seq<char>),
    Plan(Seq<char>),
    InvalidBlockSize,
    InvalidSampleRate,
    SignalPortOutsideAudioBlock(Seq<char>, Seq<char>),
}

pub open spec fn opt_view(o: Option<String>) -> Option<Seq<char>> {
    match o {
        Some(s) => Some(s@),
        None => None,
    }
}

impl View for AudioDspSignalInput {
    type V = SignalInputView;

    open spec fn view(&self) -> SignalInputView {
        SignalInputView {
            port_id: self.port_id@,
            source_node_id: self.source_node_id@,
            source_port_id: self.source_port_id@,
            buffer_id: self.buffer_id@,
        }
    }
}

impl View for AudioDspControlInput {
    type V = ControlInputView;

    open spec fn view(&self) -> ControlInputView {
        ControlInputView {
            port_id: self.port_id@,
            data_kind: self.data_kind@,
            source_node_id: opt_view(self.source_node_id),
            source_port_id: opt_view(self.source_port_id),
        }
    }
}

impl View for AudioDspSignalOutput {
    type V = SignalOutputView;

    open spec fn view(&self) -> SignalOutputView {
        SignalOutputView { port_id: self.port_id@, buffer_id: self.buffer_id@ }
    }
}

impl View for AudioDspPlanEdge {
    type V = PlanEdgeView;

    open spec fn view(&self) -> PlanEdgeView {
        PlanEdgeView {
            from_node: self.from_node@,
            from_port: self.from_port@,
            to_node: self.to_node@,
            to_port: self.to_port@,
            buffer_id: self.buffer_id@,
        }
    }
}

impl View for AudioDspBuffer {
    type V = BufferView;

    open spec fn view(&self) -> BufferView {
        BufferView {
            id: self.id@,
            producer_node_id: self.producer_node_id@,
            producer_port_id: self.producer_port_id@,
            sample_format: self.sample_format@,
            channels: self.channels,
        }
    }
}

pub open spec fn signal_input_views(v: Seq<AudioDspSignalInput>) -> Seq<SignalInputView> {
    v.map_values(|x: AudioDspSignalInput| x@)
}

pub open spec fn control_input_views(v: Seq<AudioDspControlInput>) -> Seq<ControlInputView> {
    v.map_values(|x: AudioDspControlInput| x@)
}

pub open spec fn signal_output_views(v: Seq<AudioDspSignalOutput>) -> Seq<SignalOutputView> {
    v.map_values(|x: AudioDspSignalOutput| x@)
}

pub open spec fn edge_views(v: Seq<AudioDspPlanEdge>) -> Seq<PlanEdgeView> {
    v.map_values(|x: AudioDspPlanEdge| x@)
}

pub open spec fn buffer_views(v: Seq<AudioDspBuffer>) -> Seq<BufferView> {
    v.map_values(|x: AudioDspBuffer| x@)
}

impl View for AudioDspPlanNode {
    type V = PlanNodeView;

    open spec fn view(&self) -> PlanNodeView {
        PlanNodeView {
            node_id: self.node_id@,
            kind: self.kind@,
            kind_version: self.kind_version@,
            order: self.order as int,
            params: param_entry_views(self.params@),
            signal_inputs: signal_input_views(self.signal_inputs@),
            control_inputs: control_input_views(self.control_inputs@),
            signal_outputs: signal_output_views(self.signal_outputs@),
        }
    }
}

pub open spec fn plan_node_views(v: Seq<AudioDspPlanNode>) -> Seq<PlanNodeView> {
    v.map_values(|x: AudioDspPlanNode| x@)
}

impl View for AudioDspPlan {
    type V = PlanView;

    open spec fn view(&self) -> PlanView {
        PlanView {
            graph_id: self.graph_id@,
            graph_revision: self.graph_revision@,
            block_size: self.block_size,
            sample_rate: self.sample_rate,
            nodes: plan_node_views(self.nodes@),
            edges: edge_views(self.edges@),
            buffers: buffer_views(self.buffers@),
        }
    }
}

impl View for AudioDspPlanError {
    type V = PlanErrorView;

    open spec fn view(&self) -> PlanErrorView {
        match self {
            AudioDspPlanError::InvalidProject(m) => PlanErrorView::InvalidProject(m@),
            AudioDspPlanError::Plan(m) => PlanErrorView::Plan(m@),
            AudioDspPlanError::InvalidBlockSize => PlanErrorView::InvalidBlockSize,
            AudioDspPlanError::InvalidSampleRate => PlanErrorView::InvalidSampleRate,
            AudioDspPlanError::SignalPortOutsideAudioBlock { node_id, port_id } => {
                PlanErrorView::SignalPortOutsideAudioBlock(node_id@, port_id@)
            },
        }
    }
}

// ---------------------------------------------------------------------------
// Specification.
// ---------------------------------------------------------------------------

pub open spec fn is_audio_signal_port_spec(p: Port) -> bool {
    p.data_type.flow == DataFlow::Signal && p.data_type.data_kind@ == AUDIO_SIGNAL_KIND@
}

pub open spec fn is_audio_signal_input_spec(p: Port) -> bool {
    p.direction == PortDirection::Input && is_audio_signal_port_spec(p)
}

pub open spec fn is_audio_signal_output_spec(p: Port) -> bool {
    p.direction == PortDirection::Output && is_audio_signal_port_spec(p)
}

/// The ids of the audio-block nodes of an execution plan, in plan order.
pub open spec fn audio_node_ids(plan: Seq<ExecutionPlanNode>) -> Seq<Seq<char>>
    decreases plan.len(),
{
    if plan.len() == 0 {
        Seq::empty()
    } else if plan.last().execution_model == ExecutionModel::AudioBlock {
        audio_node_ids(plan.drop_last()).push(plan.last().node_id@)
    } else {
        audio_node_ids(plan.drop_last())
    }
}

/// The graph node with the given id.
pub open spec fn node_with_id(nodes: Seq<GraphNode>, id: Seq<char>) -> GraphNode {
    nodes[find_node_index(nodes, id).unwrap()]
}

pub open spec fn nodes_with_ids(nodes: Seq<GraphNode>, ids: Seq<Seq<char>>) -> Seq<GraphNode> {
    ids.map_values(|id: Seq<char>| node_with_id(nodes, id))
}

/// The ids of the audio signal outputs among `ports`, in order.
pub open spec fn audio_output_ids(ports: Seq<Port>) -> Seq<Seq<char>>
    decreases ports.len(),
{
    if ports.len() == 0 {
        Seq::empty()
    } else if is_audio_signal_output_spec(ports.last()) {
        audio_output_ids(ports.drop_last()).push(ports.last().id@)
    } else {
        audio_output_ids(ports.drop_last())
    }
}

pub open spec fn keyed(node_id: Seq<char>, ports: Seq<Seq<char>>) -> Seq<(Seq<char>, Seq<char>)> {
    ports.map_values(|p: Seq<char>| (node_id, p))
}

/// (node, port) of each audio output of `nodes`, in node then port order:
/// the producers of the plan's buffers.
pub open spec fn output_keys(nodes: Seq<GraphNode>) -> Seq<(Seq<char>, Seq<char>)>
    decreases nodes.len(),
{
    if nodes.len() == 0 {
        Seq::empty()
    } else {
        output_keys(nodes.drop_last()) + keyed(nodes.last().id@, audio_output_ids(nodes.last().ports@))
    }
}

/// The last buffer written by `(node, port)`.
pub open spec fn buffer_index(keys: Seq<(Seq<char>, Seq<char>)>, node: Seq<char>, port: Seq<char>) -> Option<int>
    decreases keys.len(),
{
    if keys.len() == 0 {
        None
    } else if keys.last() == (node, port) {
        Some(keys.len() - 1)
    } else {
        buffer_index(keys.drop_last(), node, port)
    }
}

pub open spec fn buffer_name(k: int) -> Seq<char> {
    "audio_buffer_"@ + decimal(k as nat)
}

pub open spec fn buffer_of(keys: Seq<(Seq<char>, Seq<char>)>, node: Seq<char>, port: Seq<char>) -> Seq<char> {
    buffer_name(buffer_index(keys, node, port).unwrap())
}

pub open spec fn buffers_spec(keys: Seq<(Seq<char>, Seq<char>)>) -> Seq<BufferView> {
    Seq::new(
        keys.len(),
        |k: int|
            BufferView {
                id: buffer_name(k),
                producer_node_id: keys[k].0,
                producer_port_id: keys[k].1,
                sample_format: DEFAULT_SAMPLE_FORMAT@,
                channels: 1,
            },
    )
}

/// The first port with the given id.
pub open spec fn find_port_in(ports: Seq<Port>, id: Seq<char>) -> Option<Port>
    decreases ports.len(),
{
    if ports.len() == 0 {
        None
    } else if ports[0].id@ == id {
        Some(ports[0])
    } else {
        find_port_in(ports.drop_first(), id)
    }
}

/// The port `port_id` of the first node with id `node_id`.
pub open spec fn find_port_spec(nodes: Seq<GraphNode>, node_id: Seq<char>, port_id: Seq<char>) -> Option<Port> {
    match find_node_index(nodes, node_id) {
        Some(i) => find_port_in(nodes[i].ports@, port_id),
        None => None,
    }
}

/// An edge from an audio signal output to an audio signal input.
pub open spec fn is_audio_signal_edge_spec(e: Edge, nodes: Seq<GraphNode>) -> bool {
    match (find_port_spec(nodes, e.from.node@, e.from.port@), find_port_spec(nodes, e.to.node@, e.to.port@)) {
        (Some(from), Some(to)) => is_audio_signal_output_spec(from) && is_audio_signal_input_spec(to),
        _ => false,
    }
}

/// The audio signal edges of the graph, in edge order, with their buffers.
pub open spec fn signal_edges_spec(edges: Seq<Edge>, nodes: Seq<GraphNode>, keys: Seq<(Seq<char>, Seq<char>)>) -> Seq<PlanEdgeView>
    decreases edges.len(),
{
    if edges.len() == 0 {
        Seq::empty()
    } else if is_audio_signal_edge_spec(edges.last(), nodes) {
        let e = edges.last();
        signal_edges_spec(edges.drop_last(), nodes, keys).push(PlanEdgeView {
            from_node: e.from.node@,
            from_port: e.from.port@,
            to_node: e.to.node@,
            to_port: e.to.port@,
            buffer_id: buffer_of(keys, e.from.node@, e.from.port@),
        })
    } else {
        signal_edges_spec(edges.drop_last(), nodes, keys)
    }
}

/// The signal edges into `node_id`, as its signal inputs.
pub open spec fn signal_inputs_spec(edges: Seq<PlanEdgeView>, node_id: Seq<char>) -> Seq<SignalInputView>
    decreases edges.len(),
{
    if edges.len() == 0 {
        Seq::empty()
    } else if edges.last().to_node == node_id {
        let e = edges.last();
        signal_inputs_spec(edges.drop_last(), node_id).push(SignalInputView {
            port_id: e.to_port,
            source_node_id: e.from_node,
            source_port_id: e.from_port,
            buffer_id: e.buffer_id,
        })
    } else {
        signal_inputs_spec(edges.drop_last(), node_id)
    }
}

pub open spec fn signal_outputs_spec(node: GraphNode, keys: Seq<(Seq<char>, Seq<char>)>) -> Seq<SignalOutputView> {
    audio_output_ids(node.ports@).map_values(
        |p: Seq<char>| SignalOutputView { port_id: p, buffer_id: buffer_of(keys, node.id@, p) },
    )
}

/// The first edge into `port` of `node`.
pub open spec fn first_edge_to(edges: Seq<Edge>, node: Seq<char>, port: Seq<char>) -> Option<Edge>
    decreases edges.len(),
{
    if edges.len() == 0 {
        None
    } else if edges[0].to.node@ == node && edges[0].to.port@ == port {
        Some(edges[0])
    } else {
        first_edge_to(edges.drop_first(), node, port)
    }
}

pub open spec fn control_input_spec(p: Port, node_id: Seq<char>, edges: Seq<Edge>) -> ControlInputView {
    let source = first_edge_to(edges, node_id, p.id@);
    ControlInputView {
        port_id: p.id@,
        data_kind: p.data_type.data_kind@,
        source_node_id: match source {
            Some(e) => Some(e.from.node@),
            None => None,
        },
        source_port_id: match source {
            Some(e) => Some(e.from.port@),
            None => None,
        },
    }
}

/// The input ports that carry no audio signal, with their first source.
pub open spec fn control_inputs_spec(ports: Seq<Port>, node_id: Seq<char>, edges: Seq<Edge>) -> Seq<ControlInputView>
    decreases ports.len(),
{
    if ports.len() == 0 {
        Seq::empty()
    } else if ports.last().direction == PortDirection::Input && !is_audio_signal_port_spec(ports.last()) {
        control_inputs_spec(ports.drop_last(), node_id, edges).push(control_input_spec(ports.last(), node_id, edges))
    } else {
        control_inputs_spec(ports.drop_last(), node_id, edges)
    }
}

pub open spec fn plan_node_spec(
    node: GraphNode,
    order: int,
    signal_edges: Seq<PlanEdgeView>,
    keys: Seq<(Seq<char>, Seq<char>)>,
    edges: Seq<Edge>,
) -> PlanNodeView {
    PlanNodeView {
        node_id: node.id@,
        kind: node.kind@,
        kind_version: node.kind_version@,
        order,
        params: param_entry_views(node.params@),
        signal_inputs: signal_inputs_spec(signal_edges, node.id@),
        control_inputs: control_inputs_spec(node.ports@, node.id@, edges),
        signal_outputs: signal_outputs_spec(node, keys),
    }
}

/// The first audio signal port among `ports`.
pub open spec fn first_audio_port(ports: Seq<Port>) -> Option<Port>
    decreases ports.len(),
{
    if ports.len() == 0 {
        None
    } else if is_audio_signal_port_spec(ports[0]) {
        Some(ports[0])
    } else {
        first_audio_port(ports.drop_first())
    }
}

/// The first graph node outside the audio block that has an audio signal
/// port, with that port.
pub open spec fn signal_port_outside(nodes: Seq<GraphNode>, audio_ids: Seq<Seq<char>>) -> Option<(Seq<char>, Seq<char>)>
    decreases nodes.len(),
{
    if nodes.len() == 0 {
        None
    } else if !audio_ids.contains(nodes[0].id@) && first_audio_port(nodes[0].ports@) is Some {
        Some((nodes[0].id@, first_audio_port(nodes[0].ports@).unwrap().id@))
    } else {
        signal_port_outside(nodes.drop_first(), audio_ids)
    }
}

/// Every node of the plan is a node of the graph.
pub open spec fn plan_nodes_in_graph(plan: Seq<ExecutionPlanNode>, nodes: Seq<GraphNode>) -> bool {
    forall|k: int| 0 <= k < plan.len() ==> (#[trigger] find_node_index(nodes, plan[k].node_id@)) is Some
}

/// The plan built from a validated graph and its execution order.
pub open spec fn build_spec(graph: GraphDocument, plan: Seq<ExecutionPlanNode>, options: AudioDspPlanOptions) -> Result<PlanView, PlanErrorView> {
    if options.block_size == 0 {
        Err(PlanErrorView::InvalidBlockSize)
    } else if options.sample_rate == 0 {
        Err(PlanErrorView::InvalidSampleRate)
    } else {
        let ids = audio_node_ids(plan);
        match signal_port_outside(graph.nodes@, ids) {
            Some((n, p)) => Err(PlanErrorView::SignalPortOutsideAudioBlock(n, p)),
            None => {
                let anodes = nodes_with_ids(graph.nodes@, ids);
                let keys = output_keys(anodes);
                let sig = signal_edges_spec(graph.edges@, graph.nodes@, keys);
                Ok(PlanView {
                    graph_id: graph.id@,
                    graph_revision: graph.revision@,
                    block_size: options.block_size,
                    sample_rate: options.sample_rate,
                    nodes: Seq::new(anodes.len(), |k: int| plan_node_spec(anodes[k], k, sig, keys, graph.edges@)),
                    edges: sig,
                    buffers: buffers_spec(keys),
                })
            },
        }
    }
}

pub open spec fn error_message_spec(e: PlanErrorView) -> Seq<char> {
    match e {
        PlanErrorView::InvalidProject(m) => m,
        PlanErrorView::Plan(m) => m,
        PlanErrorView::InvalidBlockSize => "audio dsp block size must be greater than zero"@,
        PlanErrorView::InvalidSampleRate => "audio dsp sample rate must be greater than zero"@,
        PlanErrorView::SignalPortOutsideAudioBlock(n, p) => "audio signal port "@ + n + "."@ + p
            + " is not an audio_block node"@,
    }
}


// ---------------------------------------------------------------------------
// Lemmas.
// ---------------------------------------------------------------------------

proof fn lemma_buffer_index(keys: Seq<(Seq<char>, Seq<char>)>, n: Seq<char>, p: Seq<char>)
    ensures
        buffer_index(keys, n, p) matches Some(k) ==> 0 <= k < keys.len() && keys[k] == (n, p),
        buffer_index(keys, n, p) is None ==> !keys.contains((n, p)),
    decreases keys.len(),
{
    if keys.len() > 0 {
        let init = keys.drop_last();
        lemma_buffer_index(init, n, p);
        if keys.last() != (n, p) && buffer_index(keys, n, p) is None {
            assert forall|j: int| 0 <= j < keys.len() implies keys[j] != (n, p) by {
                if j < keys.len() - 1 {
                    assert(init[j] == keys[j]);
                }
            }
        }
    }
}

proof fn lemma_audio_output_ids_contains(ports: Seq<Port>, k: int)
    requires
        0 <= k < ports.len(),
        is_audio_signal_output_spec(ports[k]),
    ensures
        audio_output_ids(ports).contains(ports[k].id@),
    decreases ports.len(),
{
    let init = ports.drop_last();
    if k == ports.len() - 1 {
        assert(audio_output_ids(ports).last() == ports[k].id@);
    } else {
        assert(init[k] == ports[k]);
        lemma_audio_output_ids_contains(init, k);
        let j = choose|j: int| 0 <= j < audio_output_ids(init).len() && audio_output_ids(init)[j] == ports[k].id@;
        assert(audio_output_ids(ports)[j] == ports[k].id@);
    }
}

proof fn lemma_output_keys_contains(nodes: Seq<GraphNode>, j: int, q: Seq<char>)
    requires
        0 <= j < nodes.len(),
        audio_output_ids(nodes[j].ports@).contains(q),
    ensures
        output_keys(nodes).contains((nodes[j].id@, q)),
    decreases nodes.len(),
{
    let init = nodes.drop_last();
    if j == nodes.len() - 1 {
        let outs = audio_output_ids(nodes[j].ports@);
        let m = choose|m: int| 0 <= m < outs.len() && outs[m] == q;
        let tail = keyed(nodes.last().id@, outs);
        assert(output_keys(nodes)[output_keys(init).len() + m] == tail[m]);
    } else {
        assert(init[j] == nodes[j]);
        lemma_output_keys_contains(init, j, q);
        let m = choose|m: int| 0 <= m < output_keys(init).len() && output_keys(init)[m] == (nodes[j].id@, q);
        assert(output_keys(nodes)[m] == output_keys(init)[m]);
    }
}

proof fn lemma_first_audio_port_some(ports: Seq<Port>, k: int)
    requires
        0 <= k < ports.len(),
        is_audio_signal_port_spec(ports[k]),
    ensures
        first_audio_port(ports) is Some,
    decreases ports.len(),
{
    if k > 0 && !is_audio_signal_port_spec(ports[0]) {
        assert(ports.drop_first()[k - 1] == ports[k]);
        lemma_first_audio_port_some(ports.drop_first(), k - 1);
    }
}

proof fn lemma_outside_none(nodes: Seq<GraphNode>, ids: Seq<Seq<char>>, i: int)
    requires
        signal_port_outside(nodes, ids) is None,
        0 <= i < nodes.len(),
    ensures
        ids.contains(nodes[i].id@) || first_audio_port(nodes[i].ports@) is None,
    decreases nodes.len(),
{
    if i > 0 {
        assert(nodes.drop_first()[i - 1] == nodes[i]);
        lemma_outside_none(nodes.drop_first(), ids, i - 1);
    }
}

proof fn lemma_find_port_in(ports: Seq<Port>, id: Seq<char>)
    ensures
        find_port_in(ports, id) matches Some(p) ==> exists|k: int| 0 <= k < ports.len() && ports[k] == p && p.id@ == id,
    decreases ports.len(),
{
    if ports.len() > 0 && ports[0].id@ != id {
        lemma_find_port_in(ports.drop_first(), id);
        if let Some(p) = find_port_in(ports, id) {
            let k = choose|k: int| 0 <= k < ports.drop_first().len() && ports.drop_first()[k] == p && p.id@ == id;
            assert(ports[k + 1] == p);
        }
    }
}

/// A node among the audio nodes has a buffer for each of its audio outputs.
proof fn lemma_own_outputs_have_buffers(anodes: Seq<GraphNode>, j: int, q: Seq<char>)
    requires
        0 <= j < anodes.len(),
        audio_output_ids(anodes[j].ports@).contains(q),
    ensures
        buffer_index(output_keys(anodes), anodes[j].id@, q) is Some,
{
    lemma_output_keys_contains(anodes, j, q);
    lemma_buffer_index(output_keys(anodes), anodes[j].id@, q);
}

/// Once no node outside the audio block has an audio port, every audio
/// signal edge reads a buffer.
proof fn lemma_edge_has_buffer(nodes: Seq<GraphNode>, ids: Seq<Seq<char>>, e: Edge)
    requires
        signal_port_outside(nodes, ids) is None,
        is_audio_signal_edge_spec(e, nodes),
    ensures
        buffer_index(output_keys(nodes_with_ids(nodes, ids)), e.from.node@, e.from.port@) is Some,
{
    lemma_find_node_index_spec(nodes, e.from.node@);
    let i = find_node_index(nodes, e.from.node@).unwrap();
    let ports = nodes[i].ports@;
    lemma_find_port_in(ports, e.from.port@);
    let f = find_port_in(ports, e.from.port@).unwrap();
    let k = choose|k: int| 0 <= k < ports.len() && ports[k] == f && f.id@ == e.from.port@;
    lemma_first_audio_port_some(ports, k);
    lemma_outside_none(nodes, ids, i);
    let j = choose|j: int| 0 <= j < ids.len() && ids[j] == nodes[i].id@;
    let anodes = nodes_with_ids(nodes, ids);
    assert(anodes[j] == nodes[i]);
    lemma_audio_output_ids_contains(ports, k);
    lemma_own_outputs_have_buffers(anodes, j, e.from.port@);
}


// ---------------------------------------------------------------------------
// Ports and edges.
// ---------------------------------------------------------------------------

pub fn is_audio_signal_port(port: &Port) -> (r: bool)
    ensures
        r == is_audio_signal_port_spec(*port),
{
    port.data_type.flow == DataFlow::Signal && str_eq(port.data_type.data_kind.as_str(), AUDIO_SIGNAL_KIND)
}

pub fn is_audio_signal_input(port: &Port) -> (r: bool)
    ensures
        r == is_audio_signal_input_spec(*port),
{
    port.direction == PortDirection::Input && is_audio_signal_port(port)
}

pub fn is_audio_signal_output(port: &Port) -> (r: bool)
    ensures
        r == is_audio_signal_output_spec(*port),
{
    port.direction == PortDirection::Output && is_audio_signal_port(port)
}

/// The port `port_id` of the first node with id `node_id`.
pub fn find_port<'a>(graph: &'a GraphDocument, node_id: &str, port_id: &str) -> (r: Option<&'a Port>)
    ensures
        match r {
            Some(p) => find_port_spec(graph.nodes@, node_id@, port_id@) == Some(*p),
            None => find_port_spec(graph.nodes@, node_id@, port_id@) is None,
        },
{
    match find_node(&graph.nodes, node_id) {
        Some(i) => find_port_of(&graph.nodes[i].ports, port_id),
        None => None,
    }
}

/// The first port in `ports` with this id.
pub fn find_port_of<'a>(ports: &'a Vec<Port>, port_id: &str) -> (r: Option<&'a Port>)
    ensures
        match r {
            Some(p) => find_port_in(ports@, port_id@) == Some(*p),
            None => find_port_in(ports@, port_id@) is None,
        },
{
    let mut j: usize = 0;
    assert(ports@.subrange(0, ports@.len() as int) =~= ports@);
    while j < ports.len()
        invariant
            j <= ports@.len(),
            find_port_in(ports@, port_id@) == find_port_in(ports@.subrange(j as int, ports@.len() as int), port_id@),
        decreases ports.len() - j,
    {
        let ghost rest = ports@.subrange(j as int, ports@.len() as int);
        assert(rest.drop_first() =~= ports@.subrange(j + 1, ports@.len() as int));
        assert(rest[0] == ports@[j as int]);
        if str_eq(ports[j].id.as_str(), port_id) {
            return Some(&ports[j]);
        }
        j = j + 1;
    }
    None
}

/// An edge from an audio signal output to an audio signal input; an edge
/// with a missing end is none.
pub fn is_audio_signal_edge(edge: &Edge, graph: &GraphDocument) -> (r: bool)
    ensures
        r == is_audio_signal_edge_spec(*edge, graph.nodes@),
{
    let from = match find_port(graph, edge.from.node.as_str(), edge.from.port.as_str()) {
        Some(p) => p,
        None => {
            return false;
        },
    };
    let to = match find_port(graph, edge.to.node.as_str(), edge.to.port.as_str()) {
        Some(p) => p,
        None => {
            return false;
        },
    };
    is_audio_signal_output(from) && is_audio_signal_input(to)
}

pub open spec fn buffer_keys(b: Seq<AudioDspBuffer>) -> Seq<(Seq<char>, Seq<char>)> {
    b.map_values(|x: AudioDspBuffer| (x.producer_node_id@, x.producer_port_id@))
}

/// The last buffer written by `(node_id, port_id)`.
fn find_buffer(buffers: &Vec<AudioDspBuffer>, node_id: &str, port_id: &str) -> (r: Option<usize>)
    ensures
        match r {
            Some(k) => buffer_index(buffer_keys(buffers@), node_id@, port_id@) == Some(k as int),
            None => buffer_index(buffer_keys(buffers@), node_id@, port_id@) is None,
        },
{
    let ghost keys = buffer_keys(buffers@);
    let mut k: usize = buffers.len();
    assert(keys.subrange(0, keys.len() as int) =~= keys);
    while k > 0
        invariant
            k <= buffers@.len(),
            keys == buffer_keys(buffers@),
            buffer_index(keys, node_id@, port_id@) == buffer_index(keys.subrange(0, k as int), node_id@, port_id@),
        decreases k,
    {
        let ghost prefix = keys.subrange(0, k as int);
        assert(prefix.drop_last() =~= keys.subrange(0, k - 1));
        assert(prefix.last() == keys[k - 1]);
        if str_eq(buffers[k - 1].producer_node_id.as_str(), node_id) && str_eq(
            buffers[k - 1].producer_port_id.as_str(),
            port_id,
        ) {
            return Some(k - 1);
        }
        k = k - 1;
    }
    None
}


// ---------------------------------------------------------------------------
// The audio block.
// ---------------------------------------------------------------------------

/// Graph indices of the audio-block nodes of the plan, in plan order.
fn audio_node_indices(graph: &GraphDocument, plan: &ExecutionPlan) -> (r: Vec<usize>)
    requires
        plan_nodes_in_graph(plan.nodes@, graph.nodes@),
    ensures
        r@.len() == audio_node_ids(plan.nodes@).len(),
        forall|k: int| 0 <= k < r@.len() ==> r@[k] < graph.nodes@.len()
            && find_node_index(graph.nodes@, audio_node_ids(plan.nodes@)[k]) == Some(r@[k] as int),
{
    let ghost p = plan.nodes@;
    let mut r: Vec<usize> = Vec::new();
    let mut i: usize = 0;
    while i < plan.nodes.len()
        invariant
            p == plan.nodes@,
            plan_nodes_in_graph(p, graph.nodes@),
            i <= p.len(),
            r@.len() == audio_node_ids(p.subrange(0, i as int)).len(),
            forall|k: int| 0 <= k < r@.len() ==> r@[k] < graph.nodes@.len()
                && find_node_index(graph.nodes@, audio_node_ids(p.subrange(0, i as int))[k]) == Some(r@[k] as int),
        decreases p.len() - i,
    {
        let ghost prev = audio_node_ids(p.subrange(0, i as int));
        proof {
            assert(p.subrange(0, i + 1).drop_last() =~= p.subrange(0, i as int));
            assert(p.subrange(0, i + 1).last() == p[i as int]);
        }
        let node = &plan.nodes[i];
        if node.execution_model == ExecutionModel::AudioBlock {
            assert(find_node_index(graph.nodes@, p[i as int].node_id@) is Some);
            match find_node(&graph.nodes, node.node_id.as_str()) {
                Some(g) => {
                    r.push(g);
                },
                None => {},
            }
        }
        i = i + 1;
    }
    proof {
        assert(p.subrange(0, p.len() as int) =~= p);
    }
    r
}

/// `indices` picks, in order, graph nodes whose ids are `ids`.
pub open spec fn indexes_ids(nodes: Seq<GraphNode>, indices: Seq<usize>, ids: Seq<Seq<char>>) -> bool {
    &&& indices.len() == ids.len()
    &&& forall|k: int| 0 <= k < indices.len() ==> #[trigger] indices[k] < nodes.len() && nodes[indices[k] as int].id@ == ids[k]
}

/// Whether one of the audio nodes has id `id`.
fn is_audio_node_id(graph: &GraphDocument, indices: &Vec<usize>, Ghost(ids): Ghost<Seq<Seq<char>>>, id: &str) -> (r: bool)
    requires
        indexes_ids(graph.nodes@, indices@, ids),
    ensures
        r == ids.contains(id@),
{
    let mut k: usize = 0;
    while k < indices.len()
        invariant
            k <= indices@.len(),
            indexes_ids(graph.nodes@, indices@, ids),
            forall|m: int| 0 <= m < k ==> ids[m] != id@,
        decreases indices.len() - k,
    {
        assert(indices@[k as int] < graph.nodes@.len());
        if str_eq(graph.nodes[indices[k]].id.as_str(), id) {
            assert(ids[k as int] == id@);
            return true;
        }
        k = k + 1;
    }
    false
}

/// The first audio signal port among `ports`.
fn first_audio_signal_port(ports: &Vec<Port>) -> (r: Option<&Port>)
    ensures
        match r {
            Some(p) => first_audio_port(ports@) == Some(*p),
            None => first_audio_port(ports@) is None,
        },
{
    let mut j: usize = 0;
    assert(ports@.subrange(0, ports@.len() as int) =~= ports@);
    while j < ports.len()
        invariant
            j <= ports@.len(),
            first_audio_port(ports@) == first_audio_port(ports@.subrange(j as int, ports@.len() as int)),
        decreases ports.len() - j,
    {
        let ghost rest = ports@.subrange(j as int, ports@.len() as int);
        assert(rest.drop_first() =~= ports@.subrange(j + 1, ports@.len() as int));
        assert(rest[0] == ports@[j as int]);
        if is_audio_signal_port(&ports[j]) {
            return Some(&ports[j]);
        }
        j = j + 1;
    }
    None
}

/// The first node outside the audio block with an audio signal port is an
/// error.
fn reject_signal_ports_outside_audio_block(
    graph: &GraphDocument,
    indices: &Vec<usize>,
    Ghost(ids): Ghost<Seq<Seq<char>>>,
) -> (r: Result<(), AudioDspPlanError>)
    requires
        indexes_ids(graph.nodes@, indices@, ids),
    ensures
        match r {
            Ok(_) => signal_port_outside(graph.nodes@, ids) is None,
            Err(e) => signal_port_outside(graph.nodes@, ids) matches Some((n, p)) && e@ == PlanErrorView::SignalPortOutsideAudioBlock(n, p),
        },
{
    let ghost nodes = graph.nodes@;
    let mut i: usize = 0;
    assert(nodes.subrange(0, nodes.len() as int) =~= nodes);
    while i < graph.nodes.len()
        invariant
            nodes == graph.nodes@,
            i <= nodes.len(),
            indexes_ids(graph.nodes@, indices@, ids),
            signal_port_outside(nodes, ids) == signal_port_outside(nodes.subrange(i as int, nodes.len() as int), ids),
        decreases nodes.len() - i,
    {
        let ghost rest = nodes.subrange(i as int, nodes.len() as int);
        assert(rest.drop_first() =~= nodes.subrange(i + 1, nodes.len() as int));
        assert(rest[0] == nodes[i as int]);
        let node = &graph.nodes[i];
        if !is_audio_node_id(graph, indices, Ghost(ids), node.id.as_str()) {
            match first_audio_signal_port(&node.ports) {
                Some(port) => {
                    return Err(AudioDspPlanError::SignalPortOutsideAudioBlock {
                        node_id: node.id.clone(),
                        port_id: port.id.clone(),
                    });
                },
                None => {},
            }
        }
        i = i + 1;
    }
    Ok(())
}


// ---------------------------------------------------------------------------
// Plan nodes.
// ---------------------------------------------------------------------------

fn signal_inputs_for(signal_edges: &Vec<AudioDspPlanEdge>, node_id: &str) -> (r: Vec<AudioDspSignalInput>)
    ensures
        signal_input_views(r@) == signal_inputs_spec(edge_views(signal_edges@), node_id@),
{
    let ghost ev = edge_views(signal_edges@);
    let mut r: Vec<AudioDspSignalInput> = Vec::new();
    let mut i: usize = 0;
    while i < signal_edges.len()
        invariant
            ev == edge_views(signal_edges@),
            i <= signal_edges@.len(),
            signal_input_views(r@) == signal_inputs_spec(ev.subrange(0, i as int), node_id@),
        decreases signal_edges.len() - i,
    {
        proof {
            assert(ev.subrange(0, i + 1).drop_last() =~= ev.subrange(0, i as int));
            assert(ev.subrange(0, i + 1).last() == ev[i as int]);
        }
        let e = &signal_edges[i];
        if str_eq(e.to_node.as_str(), node_id) {
            let ghost before = r@;
            r.push(AudioDspSignalInput {
                port_id: e.to_port.clone(),
                source_node_id: e.from_node.clone(),
                source_port_id: e.from_port.clone(),
                buffer_id: e.buffer_id.clone(),
            });
            proof {
                assert(signal_input_views(r@) =~= signal_input_views(before).push(r@.last()@));
            }
        }
        i = i + 1;
    }
    proof {
        assert(ev.subrange(0, ev.len() as int) =~= ev);
    }
    r
}

fn signal_outputs_for(node: &GraphNode, buffers: &Vec<AudioDspBuffer>) -> (r: Vec<AudioDspSignalOutput>)
    requires
        buffer_views(buffers@) == buffers_spec(buffer_keys(buffers@)),
        forall|q: Seq<char>| #[trigger] audio_output_ids(node.ports@).contains(q) ==> buffer_index(buffer_keys(buffers@), node.id@, q) is Some,
    ensures
        signal_output_views(r@) == signal_outputs_spec(*node, buffer_keys(buffers@)),
{
    let ghost keys = buffer_keys(buffers@);
    let ghost ports = node.ports@;
    let ghost f = |p: Seq<char>| SignalOutputView { port_id: p, buffer_id: buffer_of(keys, node.id@, p) };
    let mut r: Vec<AudioDspSignalOutput> = Vec::new();
    let mut j: usize = 0;
    while j < node.ports.len()
        invariant
            keys == buffer_keys(buffers@),
            ports == node.ports@,
            buffer_views(buffers@) == buffers_spec(keys),
            forall|q: Seq<char>| #[trigger] audio_output_ids(ports).contains(q) ==> buffer_index(keys, node.id@, q) is Some,
            f == (|p: Seq<char>| SignalOutputView { port_id: p, buffer_id: buffer_of(keys, node.id@, p) }),
            j <= ports.len(),
            signal_output_views(r@) == audio_output_ids(ports.subrange(0, j as int)).map_values(f),
        decreases ports.len() - j,
    {
        proof {
            assert(ports.subrange(0, j + 1).drop_last() =~= ports.subrange(0, j as int));
            assert(ports.subrange(0, j + 1).last() == ports[j as int]);
        }
        let port = &node.ports[j];
        if is_audio_signal_output(port) {
            proof {
                lemma_audio_output_ids_contains(ports, j as int);
            }
            match find_buffer(buffers, node.id.as_str(), port.id.as_str()) {
                Some(k) => {
                    proof {
                        lemma_buffer_index(keys, node.id@, port.id@);
                        assert(buffer_views(buffers@)[k as int] == buffers_spec(keys)[k as int]);
                    }
                    let ghost before = r@;
                    r.push(AudioDspSignalOutput { port_id: port.id.clone(), buffer_id: buffers[k].id.clone() });
                    proof {
                        assert(signal_output_views(r@) =~= signal_output_views(before).push(f(port.id@)));
                        assert(audio_output_ids(ports.subrange(0, j + 1)).map_values(f) =~= audio_output_ids(
                            ports.subrange(0, j as int),
                        ).map_values(f).push(f(port.id@)));
                    }
                },
                None => {
                    assert(false);
                },
            }
        }
        j = j + 1;
    }
    proof {
        assert(ports.subrange(0, ports.len() as int) =~= ports);
    }
    r
}

/// The first edge into `port_id` of `node_id`.
fn first_edge_into<'a>(edges: &'a Vec<Edge>, node_id: &str, port_id: &str) -> (r: Option<&'a Edge>)
    ensures
        match r {
            Some(e) => first_edge_to(edges@, node_id@, port_id@) == Some(*e),
            None => first_edge_to(edges@, node_id@, port_id@) is None,
        },
{
    let mut i: usize = 0;
    assert(edges@.subrange(0, edges@.len() as int) =~= edges@);
    while i < edges.len()
        invariant
            i <= edges@.len(),
            first_edge_to(edges@, node_id@, port_id@) == first_edge_to(edges@.subrange(i as int, edges@.len() as int), node_id@, port_id@),
        decreases edges.len() - i,
    {
        let ghost rest = edges@.subrange(i as int, edges@.len() as int);
        assert(rest.drop_first() =~= edges@.subrange(i + 1, edges@.len() as int));
        assert(rest[0] == edges@[i as int]);
        if str_eq(edges[i].to.node.as_str(), node_id) && str_eq(edges[i].to.port.as_str(), port_id) {
            return Some(&edges[i]);
        }
        i = i + 1;
    }
    None
}

fn control_inputs_for(node: &GraphNode, graph: &GraphDocument) -> (r: Vec<AudioDspControlInput>)
    ensures
        control_input_views(r@) == control_inputs_spec(node.ports@, node.id@, graph.edges@),
{
    let ghost ports = node.ports@;
    let mut r: Vec<AudioDspControlInput> = Vec::new();
    let mut j: usize = 0;
    while j < node.ports.len()
        invariant
            ports == node.ports@,
            j <= ports.len(),
            control_input_views(r@) == control_inputs_spec(ports.subrange(0, j as int), node.id@, graph.edges@),
        decreases ports.len() - j,
    {
        proof {
            assert(ports.subrange(0, j + 1).drop_last() =~= ports.subrange(0, j as int));
            assert(ports.subrange(0, j + 1).last() == ports[j as int]);
        }
        let port = &node.ports[j];
        if port.direction == PortDirection::Input && !is_audio_signal_port(port) {
            let source = first_edge_into(&graph.edges, node.id.as_str(), port.id.as_str());
            let input = AudioDspControlInput {
                port_id: port.id.clone(),
                data_kind: port.data_type.data_kind.clone(),
                source_node_id: match source {
                    Some(e) => Some(e.from.node.clone()),
                    None => None,
                },
                source_port_id: match source {
                    Some(e) => Some(e.from.port.clone()),
                    None => None,
                },
            };
            let ghost before = r@;
            proof {
                assert(input@ == control_input_spec(*port, node.id@, graph.edges@));
            }
            r.push(input);
            proof {
                assert(control_input_views(r@) =~= control_input_views(before).push(input@));
            }
        }
        j = j + 1;
    }
    proof {
        assert(ports.subrange(0, ports.len() as int) =~= ports);
    }
    r
}

/// The plan entry of an audio-block node.
fn audio_plan_node(
    node: &GraphNode,
    order: usize,
    signal_edges: &Vec<AudioDspPlanEdge>,
    buffers: &Vec<AudioDspBuffer>,
    graph: &GraphDocument,
) -> (r: AudioDspPlanNode)
    requires
        buffer_views(buffers@) == buffers_spec(buffer_keys(buffers@)),
        forall|q: Seq<char>| #[trigger] audio_output_ids(node.ports@).contains(q) ==> buffer_index(buffer_keys(buffers@), node.id@, q) is Some,
    ensures
        r@ == plan_node_spec(*node, order as int, edge_views(signal_edges@), buffer_keys(buffers@), graph.edges@),
{
    AudioDspPlanNode {
        node_id: node.id.clone(),
        kind: node.kind.clone(),
        kind_version: node.kind_version.clone(),
        order,
        params: copy_params(&node.params),
        signal_inputs: signal_inputs_for(signal_edges, node.id.as_str()),
        control_inputs: control_inputs_for(node, graph),
        signal_outputs: signal_outputs_for(node, buffers),
    }
}


// ---------------------------------------------------------------------------
// The plan.
// ---------------------------------------------------------------------------

/// The audio signal edges, in edge order, with the buffers they read.
fn signal_edges_for(
    graph: &GraphDocument,
    buffers: &Vec<AudioDspBuffer>,
    Ghost(ids): Ghost<Seq<Seq<char>>>,
) -> (r: Vec<AudioDspPlanEdge>)
    requires
        signal_port_outside(graph.nodes@, ids) is None,
        buffer_keys(buffers@) == output_keys(nodes_with_ids(graph.nodes@, ids)),
        buffer_views(buffers@) == buffers_spec(buffer_keys(buffers@)),
    ensures
        edge_views(r@) == signal_edges_spec(graph.edges@, graph.nodes@, output_keys(nodes_with_ids(graph.nodes@, ids))),
{
    let ghost nodes = graph.nodes@;
    let ghost keys = buffer_keys(buffers@);
    let ghost es = graph.edges@;
    let mut signal_edges: Vec<AudioDspPlanEdge> = Vec::new();
    let mut i: usize = 0;
    while i < graph.edges.len()
        invariant
            nodes == graph.nodes@,
            es == graph.edges@,
            signal_port_outside(nodes, ids) is None,
            keys == output_keys(nodes_with_ids(nodes, ids)),
            buffer_keys(buffers@) == keys,
            buffer_views(buffers@) == buffers_spec(keys),
            i <= es.len(),
            edge_views(signal_edges@) == signal_edges_spec(es.subrange(0, i as int), nodes, keys),
        decreases es.len() - i,
    {
        proof {
            assert(es.subrange(0, i + 1).drop_last() =~= es.subrange(0, i as int));
            assert(es.subrange(0, i + 1).last() == es[i as int]);
        }
        let edge = &graph.edges[i];
        if is_audio_signal_edge(edge, graph) {
            proof {
                lemma_edge_has_buffer(nodes, ids, *edge);
            }
            match find_buffer(buffers, edge.from.node.as_str(), edge.from.port.as_str()) {
                Some(k) => {
                    proof {
                        lemma_buffer_index(keys, edge.from.node@, edge.from.port@);
                        assert(buffer_views(buffers@)[k as int] == buffers_spec(keys)[k as int]);
                    }
                    let ghost before = signal_edges@;
                    signal_edges.push(AudioDspPlanEdge {
                        from_node: edge.from.node.clone(),
                        from_port: edge.from.port.clone(),
                        to_node: edge.to.node.clone(),
                        to_port: edge.to.port.clone(),
                        buffer_id: buffers[k].id.clone(),
                    });
                    proof {
                        assert(edge_views(signal_edges@) =~= edge_views(before).push(signal_edges@.last()@));
                    }
                },
                None => {
                    assert(false);
                },
            }
        }
        i = i + 1;
    }
    proof {
        assert(es.subrange(0, es.len() as int) =~= es);
    }
    signal_edges
}

/// The plan entries of the audio nodes, in plan order.
fn plan_nodes_for(
    graph: &GraphDocument,
    indices: &Vec<usize>,
    Ghost(anodes): Ghost<Seq<GraphNode>>,
    signal_edges: &Vec<AudioDspPlanEdge>,
    buffers: &Vec<AudioDspBuffer>,
) -> (r: Vec<AudioDspPlanNode>)
    requires
        indices@.len() == anodes.len(),
        forall|k: int| 0 <= k < indices@.len() ==> #[trigger] indices@[k] < graph.nodes@.len() && anodes[k] == graph.nodes@[indices@[k] as int],
        buffer_keys(buffers@) == output_keys(anodes),
        buffer_views(buffers@) == buffers_spec(buffer_keys(buffers@)),
    ensures
        plan_node_views(r@) == Seq::new(anodes.len(), |k: int| plan_node_spec(anodes[k], k, edge_views(signal_edges@), output_keys(anodes), graph.edges@)),
{
    let ghost keys = output_keys(anodes);
    let ghost sig = edge_views(signal_edges@);
    let mut plan_nodes: Vec<AudioDspPlanNode> = Vec::new();
    let mut a: usize = 0;
    while a < indices.len()
        invariant
            indices@.len() == anodes.len(),
            forall|k: int| 0 <= k < indices@.len() ==> #[trigger] indices@[k] < graph.nodes@.len() && anodes[k] == graph.nodes@[indices@[k] as int],
            keys == output_keys(anodes),
            sig == edge_views(signal_edges@),
            buffer_keys(buffers@) == keys,
            buffer_views(buffers@) == buffers_spec(keys),
            a <= indices@.len(),
            plan_nodes@.len() == a,
            forall|k: int| 0 <= k < a ==> #[trigger] plan_nodes@[k]@ == plan_node_spec(anodes[k], k, sig, keys, graph.edges@),
        decreases indices.len() - a,
    {
        let node = &graph.nodes[indices[a]];
        proof {
            assert(anodes[a as int] == graph.nodes@[indices@[a as int] as int]);
            assert forall|q: Seq<char>| #[trigger] audio_output_ids(node.ports@).contains(q) implies buffer_index(buffer_keys(buffers@), node.id@, q) is Some by {
                lemma_own_outputs_have_buffers(anodes, a as int, q);
            }
        }
        plan_nodes.push(audio_plan_node(node, a, signal_edges, buffers, graph));
        a = a + 1;
    }
    assert(plan_node_views(plan_nodes@) =~= Seq::new(anodes.len(), |k: int| plan_node_spec(anodes[k], k, sig, keys, graph.edges@)));
    plan_nodes
}

/// Builds the audio block plan of a validated graph from its execution plan.
/// The first graph node with an id is the node of that id.
pub fn plan_audio_blocks(
    graph: &GraphDocument,
    execution_plan: &ExecutionPlan,
    options: AudioDspPlanOptions,
) -> (r: Result<AudioDspPlan, AudioDspPlanError>)
    requires
        plan_nodes_in_graph(execution_plan.nodes@, graph.nodes@),
    ensures
        match r {
            Ok(plan) => build_spec(*graph, execution_plan.nodes@, options) == Ok::<PlanView, PlanErrorView>(plan@),
            Err(e) => build_spec(*graph, execution_plan.nodes@, options) == Err::<PlanView, PlanErrorView>(e@),
        },
{
    if options.block_size == 0 {
        return Err(AudioDspPlanError::InvalidBlockSize);
    }
    if options.sample_rate == 0 {
        return Err(AudioDspPlanError::InvalidSampleRate);
    }
    let ghost nodes = graph.nodes@;
    let ghost ids = audio_node_ids(execution_plan.nodes@);
    let ghost anodes = nodes_with_ids(nodes, ids);
    let indices = audio_node_indices(graph, execution_plan);
    proof {
        assert forall|k: int| 0 <= k < indices@.len() implies #[trigger] indices@[k] < nodes.len() && nodes[indices@[k] as int].id@ == ids[k]
            && anodes[k] == nodes[indices@[k] as int] by {
            lemma_find_node_index_spec(nodes, ids[k]);
        }
    }
    reject_signal_ports_outside_audio_block(graph, &indices, Ghost(ids))?;

    // One buffer per audio output, in node then port order.
    let mut buffers: Vec<AudioDspBuffer> = Vec::new();
    let mut a: usize = 0;
    while a < indices.len()
        invariant
            nodes == graph.nodes@,
            anodes == nodes_with_ids(nodes, ids),
            indices@.len() == anodes.len(),
            forall|k: int| 0 <= k < indices@.len() ==> #[trigger] indices@[k] < nodes.len() && anodes[k] == nodes[indices@[k] as int],
            a <= indices@.len(),
            buffer_keys(buffers@) == output_keys(anodes.subrange(0, a as int)),
            buffer_views(buffers@) == buffers_spec(buffer_keys(buffers@)),
        decreases indices.len() - a,
    {
        let node = &graph.nodes[indices[a]];
        let ghost done = output_keys(anodes.subrange(0, a as int));
        let ghost ports = node.ports@;
        let mut j: usize = 0;
        while j < node.ports.len()
            invariant
                ports == node.ports@,
                j <= ports.len(),
                buffer_keys(buffers@) == done + keyed(node.id@, audio_output_ids(ports.subrange(0, j as int))),
                buffer_views(buffers@) == buffers_spec(buffer_keys(buffers@)),
            decreases ports.len() - j,
        {
            proof {
                assert(ports.subrange(0, j + 1).drop_last() =~= ports.subrange(0, j as int));
                assert(ports.subrange(0, j + 1).last() == ports[j as int]);
            }
            let port = &node.ports[j];
            if is_audio_signal_output(port) {
                let ghost before = buffers@;
                let n = buffers.len();
                let id = concat2("audio_buffer_", decimal_string(n as u64).as_str());
                buffers.push(AudioDspBuffer {
                    id,
                    producer_node_id: node.id.clone(),
                    producer_port_id: port.id.clone(),
                    sample_format: owned(DEFAULT_SAMPLE_FORMAT),
                    channels: 1,
                });
                proof {
                    assert(buffer_keys(buffers@) =~= buffer_keys(before).push((node.id@, port.id@)));
                    assert(keyed(node.id@, audio_output_ids(ports.subrange(0, j + 1))) =~= keyed(node.id@, audio_output_ids(ports.subrange(0, j as int))).push((node.id@, port.id@)));
                    assert forall|t: int| 0 <= t < buffers@.len() implies buffer_views(buffers@)[t]
                        == buffers_spec(buffer_keys(buffers@))[t] by {
                        if t < n {
                            assert(buffer_views(before)[t] == buffers_spec(buffer_keys(before))[t]);
                        }
                    }
                    assert(buffer_views(buffers@) =~= buffers_spec(buffer_keys(buffers@)));
                }
            }
            j = j + 1;
        }
        proof {
            assert(ports.subrange(0, ports.len() as int) =~= ports);
            assert(anodes.subrange(0, a + 1).drop_last() =~= anodes.subrange(0, a as int));
            assert(anodes.subrange(0, a + 1).last() == anodes[a as int]);
        }
        a = a + 1;
    }
    proof {
        assert(anodes.subrange(0, anodes.len() as int) =~= anodes);
    }
    let ghost keys = output_keys(anodes);

    // The audio signal edges, with the buffers they read.
    let signal_edges = signal_edges_for(graph, &buffers, Ghost(ids));
    let ghost sig = signal_edges_spec(graph.edges@, nodes, keys);

    // The audio nodes, in plan order.
    let plan_nodes = plan_nodes_for(graph, &indices, Ghost(anodes), &signal_edges, &buffers);
    Ok(AudioDspPlan {
        graph_id: graph.id.clone(),
        graph_revision: graph.revision.clone(),
        block_size: options.block_size,
        sample_rate: options.sample_rate,
        nodes: plan_nodes,
        edges: signal_edges,
        buffers,
    })
}

/// The plan for a graph, given what validating and planning the project came
/// to: the options are checked first, then a validation or planning error is
/// passed on, then the audio blocks are planned.
pub open spec fn build_prepared_spec(graph: GraphDocument, prepared: Result<ExecutionPlan, AudioDspPlanError>, options: AudioDspPlanOptions) -> Result<PlanView, PlanErrorView> {
    if options.block_size == 0 {
        Err(PlanErrorView::InvalidBlockSize)
    } else if options.sample_rate == 0 {
        Err(PlanErrorView::InvalidSampleRate)
    } else {
        match prepared {
            Err(e) => Err(e@),
            Ok(p) => build_spec(graph, p.nodes@, options),
        }
    }
}

/// Builds the audio DSP plan of a graph. `prepared` is what validating the
/// project and building its execution plan came to (`InvalidProject` or
/// `Plan` when either failed).
pub fn build_audio_dsp_plan(
    graph: &GraphDocument,
    prepared: Result<ExecutionPlan, AudioDspPlanError>,
    options: AudioDspPlanOptions,
) -> (r: Result<AudioDspPlan, AudioDspPlanError>)
    requires
        prepared matches Ok(p) ==> plan_nodes_in_graph(p.nodes@, graph.nodes@),
    ensures
        match r {
            Ok(plan) => build_prepared_spec(*graph, prepared, options) == Ok::<PlanView, PlanErrorView>(plan@),
            Err(e) => build_prepared_spec(*graph, prepared, options) == Err::<PlanView, PlanErrorView>(e@),
        },
{
    if options.block_size == 0 {
        return Err(AudioDspPlanError::InvalidBlockSize);
    }
    if options.sample_rate == 0 {
        return Err(AudioDspPlanError::InvalidSampleRate);
    }
    match prepared {
        Err(e) => Err(e),
        Ok(execution_plan) => plan_audio_blocks(graph, &execution_plan, options),
    }
}

impl AudioDspPlanError {
    /// The error's message, as its `Display` renders it.
    pub fn message(&self) -> (r: String)
        ensures
            r@ == error_message_spec(self@),
    {
        match self {
            AudioDspPlanError::InvalidProject(m) => m.clone(),
            AudioDspPlanError::Plan(m) => m.clone(),
            AudioDspPlanError::InvalidBlockSize => owned("audio dsp block size must be greater than zero"),
            AudioDspPlanError::InvalidSampleRate => owned("audio dsp sample rate must be greater than zero"),
            AudioDspPlanError::SignalPortOutsideAudioBlock { node_id, port_id } => {
                let mut m = owned("audio signal port ");
                m.append(node_id.as_str());
                m.append(".");
                m.append(port_id.as_str());
                m.append(" is not an audio_block node");
                m
            },
        }
    }
}


// ---------------------------------------------------------------------------
// Laws.
// ---------------------------------------------------------------------------

proof fn lemma_signal_edges_read_producers(edges: Seq<Edge>, nodes: Seq<GraphNode>, ids: Seq<Seq<char>>)
    requires
        signal_port_outside(nodes, ids) is None,
    ensures
        ({
            let keys = output_keys(nodes_with_ids(nodes, ids));
            let sig = signal_edges_spec(edges, nodes, keys);
            forall|m: int| #![trigger sig[m]] 0 <= m < sig.len() ==> exists|k: int| 0 <= k < keys.len() && #[trigger] keys[k] == (sig[m].from_node, sig[m].from_port)
                && buffer_name(k) == sig[m].buffer_id
        }),
    decreases edges.len(),
{
    let keys = output_keys(nodes_with_ids(nodes, ids));
    if edges.len() > 0 {
        let init = edges.drop_last();
        lemma_signal_edges_read_producers(init, nodes, ids);
        let sig0 = signal_edges_spec(init, nodes, keys);
        let sig = signal_edges_spec(edges, nodes, keys);
        if is_audio_signal_edge_spec(edges.last(), nodes) {
            let e = edges.last();
            lemma_edge_has_buffer(nodes, ids, e);
            lemma_buffer_index(keys, e.from.node@, e.from.port@);
            let k = buffer_index(keys, e.from.node@, e.from.port@).unwrap();
            assert forall|m: int| #![trigger sig[m]] 0 <= m < sig.len() implies exists|k: int| 0 <= k < keys.len() && #[trigger] keys[k] == (sig[m].from_node, sig[m].from_port)
                && buffer_name(k) == sig[m].buffer_id by {
                if m < sig0.len() {
                    assert(sig[m] == sig0[m]);
                } else {
                    assert(keys[k] == (sig[m].from_node, sig[m].from_port));
                }
            }
        }
    }
}

/// Nodes numbered by their position.
pub open spec fn nodes_numbered(p: PlanView) -> bool {
    forall|k: int| 0 <= k < p.nodes.len() ==> (#[trigger] p.nodes[k]).order == k
}

/// Buffer `k` named `audio_buffer_k`.
pub open spec fn buffers_numbered(p: PlanView) -> bool {
    forall|k: int| 0 <= k < p.buffers.len() ==> (#[trigger] p.buffers[k]).id == "audio_buffer_"@ + decimal(k as nat)
}

/// Buffer `k` is the one edge `m` reads, and its source port writes it.
pub open spec fn edge_reads_buffer(p: PlanView, m: int, k: int) -> bool {
    &&& 0 <= k < p.buffers.len()
    &&& p.buffers[k].id == p.edges[m].buffer_id
    &&& p.buffers[k].producer_node_id == p.edges[m].from_node
    &&& p.buffers[k].producer_port_id == p.edges[m].from_port
}

/// Edge `m` reads a buffer that its source port writes.
pub open spec fn edge_has_source_buffer(p: PlanView, m: int) -> bool {
    exists|k: int| #[trigger] edge_reads_buffer(p, m, k)
}

/// Each signal edge reads a buffer that its source port writes.
pub open spec fn edges_read_source_buffers(p: PlanView) -> bool {
    forall|m: int| 0 <= m < p.edges.len() ==> #[trigger] edge_has_source_buffer(p, m)
}

/// Every buffer holds one channel of `f32` samples.
pub open spec fn buffers_mono_f32(p: PlanView) -> bool {
    forall|k: int| 0 <= k < p.buffers.len() ==> (#[trigger] p.buffers[k]).sample_format == "f32"@ && p.buffers[k].channels == 1
}

/// A plan that `build_audio_dsp_plan` returns carries the graph's id and
/// revision and the options' block size and sample rate; its nodes are
/// numbered by their position; buffer `k` is `audio_buffer_k`, one channel of
/// `f32` samples; and every signal edge reads the buffer that its source port
/// writes.
pub proof fn law_plan_edges_read_their_source_buffer(
    graph: GraphDocument,
    prepared: Result<ExecutionPlan, AudioDspPlanError>,
    options: AudioDspPlanOptions,
)
    requires
        build_prepared_spec(graph, prepared, options) is Ok,
    ensures
        ({
            let p = build_prepared_spec(graph, prepared, options)->Ok_0;
            &&& p.graph_id == graph.id@
            &&& p.graph_revision == graph.revision@
            &&& p.block_size == options.block_size
            &&& p.sample_rate == options.sample_rate
            &&& nodes_numbered(p)
            &&& buffers_numbered(p)
            &&& buffers_mono_f32(p)
            &&& edges_read_source_buffers(p)
        }),
{
    let plan = prepared->Ok_0.nodes@;
    let ids = audio_node_ids(plan);
    let keys = output_keys(nodes_with_ids(graph.nodes@, ids));
    lemma_signal_edges_read_producers(graph.edges@, graph.nodes@, ids);
    let p = build_spec(graph, plan, options)->Ok_0;
    assert(p == build_prepared_spec(graph, prepared, options)->Ok_0);
    assert(p.buffers == buffers_spec(keys));
    assert forall|k: int| 0 <= k < p.nodes.len() implies (#[trigger] p.nodes[k]).order == k by {}
    assert forall|k: int| 0 <= k < p.buffers.len() implies (#[trigger] p.buffers[k]).id == "audio_buffer_"@ + decimal(k as nat) by {
        assert(p.buffers[k] == buffers_spec(keys)[k]);
    }
    assert forall|k: int| 0 <= k < p.buffers.len() implies (#[trigger] p.buffers[k]).sample_format == "f32"@ && p.buffers[k].channels == 1 by {
        assert(p.buffers[k] == buffers_spec(keys)[k]);
        reveal_strlit("f32");
    }
    assert forall|m: int| 0 <= m < p.edges.len() implies #[trigger] edge_has_source_buffer(p, m) by {
        let k = choose|k: int| 0 <= k < keys.len() && #[trigger] keys[k] == (p.edges[m].from_node, p.edges[m].from_port)
            && buffer_name(k) == p.edges[m].buffer_id;
        assert(p.buffers[k] == buffers_spec(keys)[k]);
        assert(edge_reads_buffer(p, m, k));
    }
}

/// A zero block size or sample rate is refused before anything else, even
/// before a validation or planning error.
pub proof fn law_zero_options_refused(graph: GraphDocument, prepared: Result<ExecutionPlan, AudioDspPlanError>, options: AudioDspPlanOptions)
    ensures
        options.block_size == 0 ==> build_prepared_spec(graph, prepared, options) == Err::<PlanView, PlanErrorView>(PlanErrorView::InvalidBlockSize),
        options.block_size != 0 && options.sample_rate == 0 ==> build_prepared_spec(graph, prepared, options) == Err::<PlanView, PlanErrorView>(PlanErrorView::InvalidSampleRate),
{
}

/// An input port that carries no audio signal.
pub open spec fn is_control_port(p: Port) -> bool {
    p.direction == PortDirection::Input
        && !(p.data_type.flow == DataFlow::Signal && p.data_type.data_kind@ == AUDIO_SIGNAL_KIND@)
}

/// Some port among `ports` is a control port with the input's id and data
/// kind.
pub open spec fn names_control_port(ports: Seq<Port>, c: ControlInputView) -> bool {
    exists|j: int| 0 <= j < ports.len() && is_control_port(ports[j]) && #[trigger] ports[j].id@ == c.port_id
        && ports[j].data_type.data_kind@ == c.data_kind
}

/// Some control input names `id`.
pub open spec fn lists_port(ci: Seq<ControlInputView>, id: Seq<char>) -> bool {
    exists|m: int| 0 <= m < ci.len() && #[trigger] ci[m].port_id == id
}

proof fn lemma_control_inputs_sound(ports: Seq<Port>, node_id: Seq<char>, edges: Seq<Edge>)
    ensures
        forall|m: int| 0 <= m < control_inputs_spec(ports, node_id, edges).len()
            ==> names_control_port(ports, #[trigger] control_inputs_spec(ports, node_id, edges)[m]),
    decreases ports.len(),
{
    if ports.len() > 0 {
        let init = ports.drop_last();
        lemma_control_inputs_sound(init, node_id, edges);
        let ci0 = control_inputs_spec(init, node_id, edges);
        let ci = control_inputs_spec(ports, node_id, edges);
        let last = ports.len() - 1;
        assert forall|m: int| 0 <= m < ci.len() implies names_control_port(ports, #[trigger] ci[m]) by {
            if m < ci0.len() {
                assert(ci[m] == ci0[m]);
                assert(names_control_port(init, ci0[m]));
                let j = choose|j: int| 0 <= j < init.len() && is_control_port(init[j]) && #[trigger] init[j].id@ == ci0[m].port_id
                    && init[j].data_type.data_kind@ == ci0[m].data_kind;
                assert(ports[j] == init[j]);
            } else {
                assert(ports[last] == ports.last());
                assert(ports[last].id@ == ci[m].port_id);
            }
        }
    }
}

proof fn lemma_control_inputs_complete(ports: Seq<Port>, node_id: Seq<char>, edges: Seq<Edge>)
    ensures
        forall|j: int| 0 <= j < ports.len() && is_control_port(#[trigger] ports[j])
            ==> lists_port(control_inputs_spec(ports, node_id, edges), ports[j].id@),
    decreases ports.len(),
{
    if ports.len() > 0 {
        let init = ports.drop_last();
        lemma_control_inputs_complete(init, node_id, edges);
        let ci0 = control_inputs_spec(init, node_id, edges);
        let ci = control_inputs_spec(ports, node_id, edges);
        let last = ports.len() - 1;
        assert forall|j: int| 0 <= j < ports.len() && is_control_port(#[trigger] ports[j]) implies lists_port(ci, ports[j].id@) by {
            if j < last {
                assert(init[j] == ports[j]);
                assert(lists_port(ci0, init[j].id@));
                let m = choose|m: int| 0 <= m < ci0.len() && #[trigger] ci0[m].port_id == init[j].id@;
                assert(ci[m] == ci0[m]);
            } else {
                assert(ports[last] == ports.last());
                assert(ci[ci.len() - 1].port_id == ports[j].id@);
            }
        }
    }
}

proof fn lemma_audio_node_ids_from_plan(plan: Seq<ExecutionPlanNode>, k: int)
    requires
        0 <= k < audio_node_ids(plan).len(),
    ensures
        exists|j: int| 0 <= j < plan.len() && #[trigger] plan[j].node_id@ == audio_node_ids(plan)[k],
    decreases plan.len(),
{
    let init = plan.drop_last();
    if plan.last().execution_model == ExecutionModel::AudioBlock && k == audio_node_ids(plan).len() - 1 {
        assert(plan[plan.len() - 1].node_id@ == audio_node_ids(plan)[k]);
    } else {
        lemma_audio_node_ids_from_plan(init, k);
        let j = choose|j: int| 0 <= j < init.len() && #[trigger] init[j].node_id@ == audio_node_ids(init)[k];
        assert(plan[j] == init[j]);
    }
}

/// The control inputs of every node of a plan that `build_audio_dsp_plan`
/// returns are the input ports of that graph node that carry no audio
/// signal: each control input names such a port and its data kind, and
/// each such port is a control input. Output ports and audio signal inputs
/// never are.
pub proof fn law_plan_control_inputs_are_non_signal_inputs(
    graph: GraphDocument,
    prepared: Result<ExecutionPlan, AudioDspPlanError>,
    options: AudioDspPlanOptions,
    k: int,
)
    requires
        prepared matches Ok(pl) ==> plan_nodes_in_graph(pl.nodes@, graph.nodes@),
        build_prepared_spec(graph, prepared, options) is Ok,
        0 <= k < build_prepared_spec(graph, prepared, options)->Ok_0.nodes.len(),
    ensures
        ({
            let pn = build_prepared_spec(graph, prepared, options)->Ok_0.nodes[k];
            exists|g: int| 0 <= g < graph.nodes@.len() && #[trigger] graph.nodes@[g].id@ == pn.node_id
                && (forall|m: int| 0 <= m < pn.control_inputs.len() ==> names_control_port(graph.nodes@[g].ports@, #[trigger] pn.control_inputs[m]))
                && (forall|j: int| 0 <= j < graph.nodes@[g].ports@.len() && is_control_port(#[trigger] graph.nodes@[g].ports@[j])
                    ==> lists_port(pn.control_inputs, graph.nodes@[g].ports@[j].id@))
        }),
{
    let plan = prepared->Ok_0.nodes@;
    let ids = audio_node_ids(plan);
    let anodes = nodes_with_ids(graph.nodes@, ids);
    let keys = output_keys(anodes);
    let sig = signal_edges_spec(graph.edges@, graph.nodes@, keys);
    let p = build_prepared_spec(graph, prepared, options)->Ok_0;
    assert(p == build_spec(graph, plan, options)->Ok_0);
    assert(p.nodes[k] == plan_node_spec(anodes[k], k, sig, keys, graph.edges@));
    lemma_audio_node_ids_from_plan(plan, k);
    let j = choose|j: int| 0 <= j < plan.len() && #[trigger] plan[j].node_id@ == ids[k];
    assert(find_node_index(graph.nodes@, plan[j].node_id@) is Some);
    crate::contract::lemma_find_node_index_spec(graph.nodes@, ids[k]);
    let g = find_node_index(graph.nodes@, ids[k]).unwrap();
    assert(anodes[k] == graph.nodes@[g]);
    lemma_control_inputs_sound(graph.nodes@[g].ports@, graph.nodes@[g].id@, graph.edges@);
    lemma_control_inputs_complete(graph.nodes@[g].ports@, graph.nodes@[g].id@, graph.edges@);
    assert(graph.nodes@[g].id@ == p.nodes[k].node_id);
}

} // verus!
