use skenion_runtime::contract::{
    DataFlow, DataType, Edge, ExecutionModel, F32Value, F64Value, GraphDocument, GraphNode,
    JsonNumber, JsonNumberRepr, ParamEntry, ParamValue, Port, PortActivation, PortDirection,
    PortRef,
};
use skenion_runtime::dsp::{
    build_audio_dsp_plan, find_port_of, is_audio_signal_edge, AudioDspControlInput, AudioDspPlanError,
    AudioDspPlanOptions, AudioDspSignalInput, ExecutionPlan, ExecutionPlanNode,
    DEFAULT_BLOCK_SIZE, DEFAULT_SAMPLE_RATE,
};

fn port(id: &str, direction: PortDirection, flow: DataFlow, kind: &str, activation: Option<PortActivation>) -> Port {
    Port {
        id: id.to_owned(),
        direction,
        label: None,
        data_type: DataType {
            flow,
            data_kind: kind.to_owned(),
            unit: None,
            range: None,
            shape: None,
            channels: None,
            sample_rate: None,
            format: None,
            color_space: None,
            frame_rate: None,
            alpha_policy: None,
            values: None,
        },
        required: None,
        default_value: None,
        activation,
    }
}

fn float_param(key: &str, x: f64) -> ParamEntry {
    ParamEntry {
        key: key.to_owned(),
        value: ParamValue::Number(JsonNumber {
            repr: JsonNumberRepr::Float(F64Value { bits: x.to_bits(), text: x.to_string() }),
            as_f32: F32Value { bits: (x as f32).to_bits(), text: (x as f32).to_string() },
        }),
    }
}

fn node(id: &str, kind: &str, params: Vec<ParamEntry>, ports: Vec<Port>) -> GraphNode {
    GraphNode { id: id.to_owned(), kind: kind.to_owned(), kind_version: "0.1.0".to_owned(), params, ports }
}

fn float_node(id: &str, value: f64) -> GraphNode {
    node(id, "core.float", vec![float_param("value", value)], vec![port("value", PortDirection::Output, DataFlow::Value, "number.float", None)])
}

fn audio_osc_node(id: &str) -> GraphNode {
    node(id, "audio.osc", vec![float_param("frequency", 440.0)], vec![
        port("frequency", PortDirection::Input, DataFlow::Value, "number.float", Some(PortActivation::Latched)),
        port("out", PortDirection::Output, DataFlow::Signal, "signal.audio", None),
    ])
}

fn audio_binary_node(id: &str, kind: &str) -> GraphNode {
    node(id, kind, Vec::new(), vec![
        port("left", PortDirection::Input, DataFlow::Signal, "signal.audio", Some(PortActivation::Latched)),
        port("right", PortDirection::Input, DataFlow::Signal, "signal.audio", Some(PortActivation::Latched)),
        port("out", PortDirection::Output, DataFlow::Signal, "signal.audio", None),
    ])
}

fn audio_snapshot_node(id: &str) -> GraphNode {
    node(id, "audio.snapshot", Vec::new(), vec![
        port("signal", PortDirection::Input, DataFlow::Signal, "signal.audio", Some(PortActivation::Latched)),
        port("trigger", PortDirection::Input, DataFlow::Event, "message.any", Some(PortActivation::Trigger)),
        port("value", PortDirection::Output, DataFlow::Value, "number.float", None),
    ])
}

fn bad_signal_node(id: &str) -> GraphNode {
    node(id, "test.bad-signal", Vec::new(), vec![port("out", PortDirection::Output, DataFlow::Signal, "signal.audio", None)])
}

fn edge(from_node: &str, from_port: &str, to_node: &str, to_port: &str) -> Edge {
    Edge {
        from: PortRef { node: from_node.to_owned(), port: from_port.to_owned() },
        to: PortRef { node: to_node.to_owned(), port: to_port.to_owned() },
    }
}

fn graph(id: &str, revision: &str, nodes: Vec<GraphNode>, edges: Vec<Edge>) -> GraphDocument {
    GraphDocument {
        schema: "skenion.graph".to_owned(),
        schema_version: "0.1.0".to_owned(),
        id: id.to_owned(),
        revision: revision.to_owned(),
        nodes,
        edges,
    }
}

/// The execution order the planner gives: nodes in the given order, with
/// the execution model their definitions declare.
fn plan(nodes: &[(&str, ExecutionModel)]) -> Result<ExecutionPlan, AudioDspPlanError> {
    Ok(ExecutionPlan {
        nodes: nodes
            .iter()
            .map(|(id, model)| ExecutionPlanNode { node_id: (*id).to_owned(), execution_model: *model })
            .collect(),
    })
}

#[test]
fn builds_stable_audio_block_plan_with_buffers_and_control_inputs() {
    let graph = graph(
        "audio-dsp",
        "7",
        vec![float_node("freq", 220.0), audio_osc_node("osc"), audio_binary_node("mul", "audio.operator.mul"), audio_snapshot_node("snap")],
        vec![edge("freq", "value", "osc", "frequency"), edge("osc", "out", "mul", "left"), edge("mul", "out", "snap", "signal")],
    );
    let prepared = plan(&[
        ("freq", ExecutionModel::Value),
        ("osc", ExecutionModel::AudioBlock),
        ("mul", ExecutionModel::AudioBlock),
        ("snap", ExecutionModel::AudioBlock),
    ]);

    let plan = build_audio_dsp_plan(&graph, prepared, AudioDspPlanOptions { block_size: 128, sample_rate: 44_100 }).unwrap();

    assert_eq!(plan.graph_id, "audio-dsp");
    assert_eq!(plan.graph_revision, "7");
    assert_eq!(plan.block_size, 128);
    assert_eq!(plan.sample_rate, 44_100);
    assert_eq!(
        plan.nodes.iter().map(|node| (node.order, node.node_id.as_str())).collect::<Vec<_>>(),
        vec![(0, "osc"), (1, "mul"), (2, "snap")]
    );
    assert_eq!(
        plan.buffers
            .iter()
            .map(|buffer| (buffer.id.as_str(), buffer.producer_node_id.as_str(), buffer.producer_port_id.as_str()))
            .collect::<Vec<_>>(),
        vec![("audio_buffer_0", "osc", "out"), ("audio_buffer_1", "mul", "out")]
    );
    assert_eq!(
        plan.edges
            .iter()
            .map(|edge| (
                edge.from_node.as_str(),
                edge.from_port.as_str(),
                edge.to_node.as_str(),
                edge.to_port.as_str(),
                edge.buffer_id.as_str(),
            ))
            .collect::<Vec<_>>(),
        vec![("osc", "out", "mul", "left", "audio_buffer_0"), ("mul", "out", "snap", "signal", "audio_buffer_1")]
    );
    assert_eq!(
        plan.nodes[0].control_inputs,
        vec![AudioDspControlInput {
            port_id: "frequency".to_owned(),
            data_kind: "number.float".to_owned(),
            source_node_id: Some("freq".to_owned()),
            source_port_id: Some("value".to_owned()),
        }]
    );
    assert_eq!(
        plan.nodes[1].signal_inputs,
        vec![AudioDspSignalInput {
            port_id: "left".to_owned(),
            source_node_id: "osc".to_owned(),
            source_port_id: "out".to_owned(),
            buffer_id: "audio_buffer_0".to_owned(),
        }]
    );
    assert_eq!(plan.nodes[2].signal_outputs, Vec::new());
    assert_eq!(plan.nodes[2].control_inputs[0].port_id, "trigger");
    assert_eq!(plan.nodes[0].params, graph.nodes[1].params);
    assert_eq!(plan.buffers[0].sample_format, "f32");
    assert_eq!(plan.buffers[0].channels, 1);
}

#[test]
fn builds_empty_plan_when_graph_has_no_audio_nodes() {
    let graph = graph("control-only", "1", vec![float_node("value", 1.0)], Vec::new());

    let plan = build_audio_dsp_plan(&graph, plan(&[("value", ExecutionModel::Value)]), AudioDspPlanOptions::default()).unwrap();

    assert_eq!(plan.nodes, Vec::new());
    assert_eq!(plan.edges, Vec::new());
    assert_eq!(plan.buffers, Vec::new());
    assert_eq!(plan.block_size, DEFAULT_BLOCK_SIZE);
    assert_eq!(plan.sample_rate, DEFAULT_SAMPLE_RATE);
}

#[test]
fn rejects_invalid_options_and_projects() {
    let graph = graph("invalid-options", "1", vec![float_node("value", 1.0)], Vec::new());
    let prepared = || plan(&[("value", ExecutionModel::Value)]);

    let block_error =
        build_audio_dsp_plan(&graph, prepared(), AudioDspPlanOptions { block_size: 0, sample_rate: 48_000 }).unwrap_err();
    let rate_error =
        build_audio_dsp_plan(&graph, prepared(), AudioDspPlanOptions { block_size: 64, sample_rate: 0 }).unwrap_err();
    let project_error = build_audio_dsp_plan(
        &graph,
        Err(AudioDspPlanError::InvalidProject("missing node definition core.float".to_owned())),
        AudioDspPlanOptions::default(),
    )
    .unwrap_err();

    assert!(matches!(block_error, AudioDspPlanError::InvalidBlockSize));
    assert!(matches!(rate_error, AudioDspPlanError::InvalidSampleRate));
    assert!(matches!(project_error, AudioDspPlanError::InvalidProject(_)));
    assert_eq!(block_error.message(), "audio dsp block size must be greater than zero");
    assert_eq!(rate_error.message(), "audio dsp sample rate must be greater than zero");
}

#[test]
fn rejects_signal_ports_outside_audio_block_nodes() {
    let graph = graph("bad-signal", "1", vec![bad_signal_node("bad")], Vec::new());

    let error = build_audio_dsp_plan(&graph, plan(&[("bad", ExecutionModel::Value)]), AudioDspPlanOptions::default()).unwrap_err();

    assert!(matches!(error, AudioDspPlanError::SignalPortOutsideAudioBlock { .. }));
    assert!(error.message().contains("bad.out"));
}

#[test]
fn signal_edge_helper_ignores_missing_endpoint_ports() {
    let graph = graph("missing-edge-ports", "1", vec![audio_osc_node("osc"), audio_binary_node("mul", "audio.operator.mul")], Vec::new());
    let missing_from = edge("osc", "missing", "mul", "left");
    let missing_to = edge("osc", "out", "mul", "missing");

    assert!(!is_audio_signal_edge(&missing_from, &graph));
    assert!(!is_audio_signal_edge(&missing_to, &graph));
    assert!(is_audio_signal_edge(&edge("osc", "out", "mul", "left"), &graph));
}

#[test]
fn options_are_checked_before_the_validation_outcome() {
    let graph = graph("g", "1", Vec::new(), Vec::new());
    let error = build_audio_dsp_plan(
        &graph,
        Err(AudioDspPlanError::Plan("cycle".to_owned())),
        AudioDspPlanOptions { block_size: 0, sample_rate: 0 },
    )
    .unwrap_err();
    assert!(matches!(error, AudioDspPlanError::InvalidBlockSize));
    let error = build_audio_dsp_plan(&graph, Err(AudioDspPlanError::Plan("cycle".to_owned())), AudioDspPlanOptions::default()).unwrap_err();
    assert_eq!(error.message(), "cycle");
}

#[test]
fn every_signal_edge_reads_the_buffer_its_source_writes() {
    let graph = graph(
        "fan",
        "1",
        vec![audio_osc_node("a"), audio_osc_node("b"), audio_binary_node("m", "audio.operator.mul")],
        vec![edge("b", "out", "m", "right"), edge("a", "out", "m", "left"), edge("a", "frequency", "m", "left")],
    );
    let plan = build_audio_dsp_plan(
        &graph,
        plan(&[("a", ExecutionModel::AudioBlock), ("b", ExecutionModel::AudioBlock), ("m", ExecutionModel::AudioBlock)]),
        AudioDspPlanOptions::default(),
    )
    .unwrap();
    assert_eq!(plan.edges.len(), 2);
    for e in &plan.edges {
        let buffer = plan.buffers.iter().find(|b| b.id == e.buffer_id).unwrap();
        assert_eq!((buffer.producer_node_id.as_str(), buffer.producer_port_id.as_str()), (e.from_node.as_str(), e.from_port.as_str()));
    }
    assert_eq!(plan.edges[0].buffer_id, "audio_buffer_1");
    assert_eq!(plan.nodes[2].signal_inputs.len(), 2);
    assert_eq!(plan.nodes[2].signal_inputs[0].port_id, "right");
}

#[test]
fn finds_a_node_port_by_id() {
    let osc = audio_osc_node("osc");
    let out = find_port_of(&osc.ports, "out").expect("out port");
    assert_eq!(out.id, "out");
    assert_eq!(out.direction, PortDirection::Output);
    assert_eq!(find_port_of(&osc.ports, "frequency").map(|p| p.direction), Some(PortDirection::Input));
    assert!(find_port_of(&osc.ports, "missing").is_none());
}
