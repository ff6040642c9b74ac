use skenion_runtime::contract::{
    DataFlow, DataType, Edge, F32Value, F64Value, GraphDocument, GraphNode, JsonNumber,
    JsonNumberRepr, JsonScalar, ParamEntry, ParamValue, Port, PortActivation, PortDirection,
    PortRef,
};
use skenion_runtime::control_state::{
    ControlState, RuntimeControlEmission, RuntimeControlEventResponse, RuntimeControlEventRequest, RuntimeControlReadRequest,
    RuntimeControlReadResponse, RuntimeControlReadTarget, RuntimeControlStateResponse,
};
use skenion_runtime::control_table::ControlTable;
use skenion_runtime::control_value::{
    supports_runtime_control_events, ControlValue, RgbaValue, COLOR_RGBA_KIND, MESSAGE_KIND,
    STRING_KIND, TOGGLE_KIND, UI_BUTTON_KIND, UI_SLIDER_F32_KIND, UI_TOGGLE_KIND, VALUE_BOOL_KIND,
    VALUE_F32_KIND, VALUE_I32_KIND,
};

fn f32v(x: f32) -> F32Value {
    F32Value { bits: x.to_bits(), text: x.to_string() }
}

fn float_number(x: f64) -> JsonNumber {
    JsonNumber {
        repr: JsonNumberRepr::Float(F64Value { bits: x.to_bits(), text: x.to_string() }),
        as_f32: f32v(x as f32),
    }
}

fn int_number(x: i64) -> JsonNumber {
    let repr = if x >= 0 { JsonNumberRepr::PosInt(x as u64) } else { JsonNumberRepr::NegInt(x) };
    JsonNumber { repr, as_f32: f32v(x as f32) }
}

fn float(x: f64) -> ParamValue {
    ParamValue::Number(float_number(x))
}

fn int_param(x: i64) -> ParamValue {
    ParamValue::Number(int_number(x))
}

fn text(s: &str) -> ParamValue {
    ParamValue::String(s.to_owned())
}

fn f32c(x: f32) -> ControlValue {
    ControlValue::F32(f32v(x))
}

fn string(s: &str) -> ControlValue {
    ControlValue::String(s.to_owned())
}

fn req(node: &str, port: &str, value: ControlValue) -> RuntimeControlEventRequest {
    RuntimeControlEventRequest { node_id: node.to_owned(), port_id: port.to_owned(), value }
}

fn emission(node: &str, port: &str, value: ControlValue) -> RuntimeControlEmission {
    RuntimeControlEmission { node_id: node.to_owned(), port_id: port.to_owned(), value }
}

fn graph(nodes: Vec<GraphNode>) -> GraphDocument {
    GraphDocument {
        schema: "skenion.graph".to_owned(),
        schema_version: "0.1.0".to_owned(),
        id: "control-graph".to_owned(),
        revision: "1".to_owned(),
        nodes,
        edges: Vec::new(),
    }
}

fn edge(from_node: &str, from_port: &str, to_node: &str, to_port: &str) -> Edge {
    Edge {
        from: PortRef { node: from_node.to_owned(), port: from_port.to_owned() },
        to: PortRef { node: to_node.to_owned(), port: to_port.to_owned() },
    }
}

fn set_param(node: &mut GraphNode, key: &str, value: ParamValue) {
    if let Some(entry) = node.params.iter_mut().find(|entry| entry.key == key) {
        entry.value = value;
    } else {
        node.params.push(ParamEntry { key: key.to_owned(), value });
    }
}

fn value_node(id: &str, kind: &str, value: ParamValue) -> GraphNode {
    let ports = match kind {
        VALUE_F32_KIND => stored_value_ports("number.f32"),
        VALUE_I32_KIND => stored_value_ports("number.i32"),
        VALUE_BOOL_KIND | TOGGLE_KIND => stored_value_ports("boolean"),
        COLOR_RGBA_KIND => stored_value_ports("color.rgba"),
        STRING_KIND => stored_value_ports("string"),
        MESSAGE_KIND => message_ports(),
        UI_SLIDER_F32_KIND => stored_value_ports("number.f32"),
        UI_TOGGLE_KIND => ui_toggle_ports(),
        _ => Vec::new(),
    };
    GraphNode {
        id: id.to_owned(),
        kind: kind.to_owned(),
        kind_version: "0.1.0".to_owned(),
        params: vec![ParamEntry { key: "value".to_owned(), value }],
        ports,
    }
}

fn ui_button_node(id: &str) -> GraphNode {
    GraphNode {
        id: id.to_owned(),
        kind: UI_BUTTON_KIND.to_owned(),
        kind_version: "0.1.0".to_owned(),
        params: Vec::new(),
        ports: vec![
            port("in", PortDirection::Input, DataFlow::Value, "message.any", Some(PortActivation::Trigger)),
            port("bang", PortDirection::Output, DataFlow::Event, "event.bang", None),
        ],
    }
}

fn stored_value_ports(data_kind: &str) -> Vec<Port> {
    vec![
        port("in", PortDirection::Input, DataFlow::Value, data_kind, Some(PortActivation::Trigger)),
        port("set", PortDirection::Input, DataFlow::Value, data_kind, Some(PortActivation::Latched)),
        port("bang", PortDirection::Input, DataFlow::Event, "event.bang", Some(PortActivation::Trigger)),
        port("value", PortDirection::Output, DataFlow::Value, data_kind, None),
    ]
}

fn message_ports() -> Vec<Port> {
    vec![
        port("in", PortDirection::Input, DataFlow::Value, "message.any", Some(PortActivation::Trigger)),
        port("set", PortDirection::Input, DataFlow::Value, "message.any", Some(PortActivation::Latched)),
        port("bang", PortDirection::Input, DataFlow::Event, "event.bang", Some(PortActivation::Trigger)),
        port("value", PortDirection::Output, DataFlow::Value, "string", None),
    ]
}

fn ui_toggle_ports() -> Vec<Port> {
    vec![
        port("in", PortDirection::Input, DataFlow::Value, "message.any", Some(PortActivation::Trigger)),
        port("set", PortDirection::Input, DataFlow::Value, "message.any", Some(PortActivation::Latched)),
        port("value", PortDirection::Output, DataFlow::Value, "boolean", None),
    ]
}

fn port(id: &str, direction: PortDirection, flow: DataFlow, data_kind: &str, activation: Option<PortActivation>) -> Port {
    Port {
        id: id.to_owned(),
        direction,
        label: None,
        data_type: DataType {
            flow,
            data_kind: data_kind.to_owned(),
            unit: None,
            range: None,
            shape: None,
            channels: None,
            sample_rate: None,
            format: None,
            color_space: None,
            frame_rate: None,
            alpha_policy: None,
            values: None,
        },
        required: None,
        default_value: None,
        activation,
    }
}

#[test]
fn initializes_control_values_from_graph() {
    let rgba = ParamValue::Array(
        [0.1, 0.2, 0.3, 1.0].iter().map(|x| JsonScalar::Number(float_number(*x))).collect(),
    );
    let state = ControlState::from_graph(&graph(vec![
        value_node("f32", VALUE_F32_KIND, float(1.25)),
        value_node("i32", VALUE_I32_KIND, int_param(7)),
        value_node("bool", VALUE_BOOL_KIND, ParamValue::Bool(true)),
        value_node("rgba", COLOR_RGBA_KIND, rgba),
        value_node("string", STRING_KIND, text("ready")),
        value_node("toggle", TOGGLE_KIND, ParamValue::Bool(false)),
        value_node("message", MESSAGE_KIND, text("perform")),
        value_node("slider", UI_SLIDER_F32_KIND, float(0.75)),
        value_node("ui_toggle", UI_TOGGLE_KIND, ParamValue::Bool(true)),
        value_node("other", "core.target", int_param(10)),
    ]));

    assert_eq!(state.values.len(), 9);
    assert!(state.channels.is_empty());
    assert_eq!(state.value_for_node("f32"), Some(&f32c(1.25)));
    assert_eq!(state.value_for_node("i32"), Some(&ControlValue::I32(7)));
    assert_eq!(
        state.value_for_node("rgba"),
        Some(&ControlValue::Rgba(RgbaValue {
            red: f32v(0.1),
            green: f32v(0.2),
            blue: f32v(0.3),
            alpha: f32v(1.0),
        }))
    );
    assert_eq!(state.value_for_node("string"), Some(&string("ready")));
    assert_eq!(state.value_for_node("toggle"), Some(&ControlValue::Bool(false)));
    assert_eq!(state.value_for_node("message"), Some(&string("perform")));
    assert_eq!(state.value_for_node("slider"), Some(&f32c(0.75)));
    assert_eq!(state.value_for_node("ui_toggle"), Some(&ControlValue::Bool(true)));
    assert_eq!(state.value_for_node("other"), None);
}

#[test]
fn set_updates_without_emission() {
    let graph = graph(vec![value_node("value_1", VALUE_F32_KIND, float(1.0))]);
    let mut state = ControlState::from_graph(&graph);

    let response = state.apply_event(req("value_1", "set", f32c(32.0)), &graph);

    assert!(response.ok);
    assert!(response.emitted.is_empty());
    assert_eq!(state.value_for_node("value_1"), Some(&f32c(32.0)));
}

#[test]
fn in_updates_and_emits() {
    let graph = graph(vec![value_node("value_1", VALUE_I32_KIND, int_param(1))]);
    let mut state = ControlState::from_graph(&graph);

    let response = state.apply_event(req("value_1", "in", ControlValue::I32(12)), &graph);

    assert!(response.ok);
    assert_eq!(response.emitted, vec![emission("value_1", "value", ControlValue::I32(12))]);
    assert_eq!(state.value_for_node("value_1"), Some(&ControlValue::I32(12)));
}

#[test]
fn bang_emits_stored_value_without_update() {
    let graph = graph(vec![value_node("value_1", VALUE_BOOL_KIND, ParamValue::Bool(true))]);
    let mut state = ControlState::from_graph(&graph);

    let response = state.apply_event(req("value_1", "bang", ControlValue::Bang), &graph);

    assert!(response.ok);
    assert_eq!(response.emitted, vec![emission("value_1", "value", ControlValue::Bool(true))]);
    assert_eq!(state.value_for_node("value_1"), Some(&ControlValue::Bool(true)));
}

#[test]
fn toggle_bang_flips_and_emits() {
    let graph = graph(vec![value_node("toggle_1", TOGGLE_KIND, ParamValue::Bool(false))]);
    let mut state = ControlState::from_graph(&graph);

    let response = state.apply_event(req("toggle_1", "bang", ControlValue::Bang), &graph);

    assert!(response.ok);
    assert_eq!(response.emitted, vec![emission("toggle_1", "value", ControlValue::Bool(true))]);
    assert_eq!(state.value_for_node("toggle_1"), Some(&ControlValue::Bool(true)));
}

#[test]
fn toggle_accepts_on_off_and_set_messages() {
    let graph = graph(vec![value_node("toggle_1", UI_TOGGLE_KIND, ParamValue::Bool(false))]);
    let mut state = ControlState::from_graph(&graph);

    let on = state.apply_event(req("toggle_1", "in", string("on")), &graph);
    assert!(on.ok);
    assert_eq!(on.emitted[0].value, ControlValue::Bool(true));

    let set_off = state.apply_event(req("toggle_1", "set", string("set off")), &graph);
    assert!(set_off.ok);
    assert!(set_off.emitted.is_empty());
    assert_eq!(state.value_for_node("toggle_1"), Some(&ControlValue::Bool(false)));
}

#[test]
fn string_and_message_controls_emit_strings() {
    let graph = graph(vec![
        value_node("string_1", STRING_KIND, text("ready")),
        value_node("message_1", MESSAGE_KIND, text("perform")),
    ]);
    let mut state = ControlState::from_graph(&graph);

    let string_response = state.apply_event(req("string_1", "in", string("running")), &graph);
    assert!(string_response.ok);
    assert_eq!(string_response.emitted[0].value, string("running"));

    let message_response = state.apply_event(req("message_1", "bang", ControlValue::Bang), &graph);
    assert!(message_response.ok);
    assert_eq!(message_response.emitted, vec![emission("message_1", "value", string("perform"))]);

    let set_response = state.apply_event(req("message_1", "set", string("set updated")), &graph);
    assert!(set_response.ok);
    assert!(set_response.emitted.is_empty());
    assert_eq!(state.value_for_node("message_1"), Some(&string("updated")));
}

#[test]
fn object_send_name_updates_channel_and_receive_name_state() {
    let mut sender = value_node("slider_1", UI_SLIDER_F32_KIND, float(0.25));
    set_param(&mut sender, "sendName", text("speed"));
    let mut receiver = value_node("value_1", VALUE_F32_KIND, float(0.0));
    set_param(&mut receiver, "receiveName", text("speed"));
    let graph = graph(vec![sender, receiver]);
    let mut state = ControlState::from_graph(&graph);

    let response = state.apply_event(req("slider_1", "in", f32c(1.25)), &graph);

    assert!(response.ok);
    assert_eq!(state.channels.get("number.f32:speed"), Some(&f32c(1.25)));
    assert_eq!(state.value_for_node("value_1"), Some(&f32c(1.25)));
}

#[test]
fn object_set_does_not_update_send_name_channel() {
    let mut node = value_node("value_1", VALUE_F32_KIND, float(0.25));
    set_param(&mut node, "sendName", text("speed"));
    let graph = graph(vec![node]);
    let mut state = ControlState::from_graph(&graph);

    let response = state.apply_event(req("value_1", "set", f32c(2.0)), &graph);

    assert!(response.ok);
    assert!(response.emitted.is_empty());
    assert_eq!(state.value_for_node("value_1"), Some(&f32c(2.0)));
    assert!(state.channels.is_empty());
}

#[test]
fn object_edges_propagate_to_connected_control_inputs() {
    let mut graph = graph(vec![
        value_node("slider_1", UI_SLIDER_F32_KIND, float(0.25)),
        value_node("value_1", VALUE_F32_KIND, float(0.0)),
        value_node("message_1", MESSAGE_KIND, text("go")),
        ui_button_node("button_1"),
    ]);
    graph.edges = vec![
        edge("slider_1", "value", "value_1", "in"),
        edge("button_1", "bang", "message_1", "bang"),
    ];
    let mut state = ControlState::from_graph(&graph);

    let slider = state.apply_event(req("slider_1", "value", f32c(1.5)), &graph);
    assert!(slider.ok);
    assert_eq!(slider.emitted.len(), 2);
    assert_eq!(state.value_for_node("value_1"), Some(&f32c(1.5)));

    let button = state.apply_event(req("button_1", "in", ControlValue::Bang), &graph);
    assert!(button.ok);
    assert_eq!(
        button.emitted,
        vec![
            emission("button_1", "bang", ControlValue::Bang),
            emission("message_1", "value", string("go")),
        ]
    );
}

#[test]
fn object_edge_propagation_ignores_edges_to_missing_targets() {
    let mut graph = graph(vec![value_node("slider_1", UI_SLIDER_F32_KIND, float(0.25))]);
    graph.edges = vec![edge("slider_1", "value", "missing", "in")];
    let mut state = ControlState::from_graph(&graph);

    let response = state.apply_event(req("slider_1", "value", f32c(1.5)), &graph);

    assert!(response.ok);
    assert_eq!(response.emitted.len(), 1);
    assert!(state.channels.is_empty());
}

#[test]
fn object_edge_propagation_rejects_invalid_target_port() {
    let mut graph = graph(vec![
        value_node("slider_1", UI_SLIDER_F32_KIND, float(0.25)),
        value_node("value_1", VALUE_F32_KIND, float(0.0)),
    ]);
    graph.edges = vec![edge("slider_1", "value", "value_1", "missing")];
    let mut state = ControlState::from_graph(&graph);

    let response = state.apply_event(req("slider_1", "value", f32c(1.5)), &graph);

    assert!(!response.ok);
    assert!(response.diagnostics[0].message.contains("port missing"));
    assert!(state.channels.is_empty());
}

#[test]
fn ui_panel_propagation_stops_at_runtime_safety_limit() {
    let mut graph = graph(vec![
        value_node("slider_1", UI_SLIDER_F32_KIND, float(0.25)),
        value_node("value_1", VALUE_F32_KIND, float(0.0)),
    ]);
    graph.edges = vec![
        edge("slider_1", "value", "value_1", "in"),
        edge("value_1", "value", "value_1", "in"),
    ];
    let mut state = ControlState::from_graph(&graph);

    let response = state.apply_event(req("slider_1", "value", f32c(1.5)), &graph);

    assert!(!response.ok);
    assert!(response.diagnostics[0].message.contains("runtime safety limit"));
}

#[test]
fn ui_panel_controls_emit_runtime_values() {
    let graph = graph(vec![
        value_node("slider_1", UI_SLIDER_F32_KIND, float(0.5)),
        value_node("toggle_1", UI_TOGGLE_KIND, ParamValue::Bool(false)),
        ui_button_node("button_1"),
    ]);
    let mut state = ControlState::from_graph(&graph);

    let slider = state.apply_event(req("slider_1", "value", f32c(1.25)), &graph);
    assert!(slider.ok);
    assert_eq!(slider.emitted[0].value, f32c(1.25));
    assert_eq!(state.value_for_node("slider_1"), Some(&f32c(1.25)));

    let toggle = state.apply_event(req("toggle_1", "value", ControlValue::Bang), &graph);
    assert!(toggle.ok);
    assert_eq!(toggle.emitted[0].value, ControlValue::Bool(true));
    assert_eq!(state.value_for_node("toggle_1"), Some(&ControlValue::Bool(true)));

    let button = state.apply_event(req("button_1", "bang", ControlValue::Bang), &graph);
    assert!(button.ok);
    assert_eq!(button.emitted[0].value, ControlValue::Bang);
}

#[test]
fn ui_panel_controls_reject_wrong_ports_and_types() {
    let graph = graph(vec![
        value_node("slider_1", UI_SLIDER_F32_KIND, float(0.5)),
        value_node("toggle_1", UI_TOGGLE_KIND, ParamValue::Bool(false)),
        ui_button_node("button_1"),
    ]);
    let mut state = ControlState::from_graph(&graph);

    for request in [
        req("button_1", "value", ControlValue::Bang),
        req("slider_1", "value", ControlValue::Bool(true)),
        req("toggle_1", "value", f32c(2.0)),
    ] {
        let response = state.apply_event(request, &graph);
        assert!(!response.ok);
        assert!(response.emitted.is_empty());
    }

    let any_button = state.apply_event(req("button_1", "in", ControlValue::Bool(true)), &graph);
    assert!(any_button.ok);
    assert_eq!(any_button.emitted[0].value, ControlValue::Bang);

    let slider_set = state.apply_event(req("slider_1", "set", f32c(1.0)), &graph);
    assert!(slider_set.ok);
    assert!(slider_set.emitted.is_empty());
    assert_eq!(state.value_for_node("slider_1"), Some(&f32c(1.0)));

    let bool_toggle = state.apply_event(req("toggle_1", "value", ControlValue::Bool(true)), &graph);
    assert!(bool_toggle.ok);
    assert_eq!(state.value_for_node("toggle_1"), Some(&ControlValue::Bool(true)));

    state.values.remove("toggle_1");
    let missing_state = state.apply_event(req("toggle_1", "value", ControlValue::Bang), &graph);
    assert!(!missing_state.ok);
    assert!(missing_state.diagnostics[0].message.contains("has no runtime control state"));
}

#[test]
fn control_state_response_serializes_values_and_channels() {
    let mut values = ControlTable::new();
    values.insert("slider_1".to_owned(), f32c(0.5));
    let mut channels = ControlTable::new();
    channels.insert("number.f32:speed".to_owned(), f32c(1.5));

    let response = RuntimeControlStateResponse {
        ok: true,
        control_revision: 7,
        values,
        channels,
        diagnostics: Vec::new(),
    };

    assert!(response.ok);
    assert_eq!(response.control_revision, 7);
    assert_eq!(response.values.len(), 1);
    assert_eq!(response.values.get("slider_1"), Some(&f32c(0.5)));
    assert_eq!(response.channels.len(), 1);
    assert_eq!(response.channels.get("number.f32:speed"), Some(&f32c(1.5)));
    assert!(response.diagnostics.is_empty());
}

#[test]
fn helper_fallbacks_and_read_responses_are_covered() {
    let node = value_node("value_1", VALUE_F32_KIND, float(0.5));
    let address = RuntimeControlReadRequest {
        node_id: "value_1".to_owned(),
        target: RuntimeControlReadTarget::Param,
        id: "value".to_owned(),
    };

    assert!(supports_runtime_control_events(UI_BUTTON_KIND));
    assert!(!supports_runtime_control_events("core.target"));
    assert_eq!(
        ControlState::from_graph(&graph(vec![node.clone()])).output_value_for_node(&node, "value"),
        Some(f32c(0.5))
    );

    assert_eq!(
        RuntimeControlReadResponse::ok(address.clone(), "{\"type\":\"json\"}".to_owned()).value,
        Some("{\"type\":\"json\"}".to_owned())
    );
    assert!(!RuntimeControlReadResponse::error(address, "missing value".to_owned()).ok);
}

#[test]
fn ui_event_defensive_unknown_kind_branch_is_covered() {
    let node = value_node("custom_ui", "ui.custom", ParamValue::Null);
    let mut state = ControlState::default();

    let response = state.apply_ui_event(&node, req("custom_ui", "value", ControlValue::Bang));

    assert!(!response.ok);
    assert!(response.diagnostics[0].message.contains("does not support runtime control events"));
}

#[test]
fn invalid_events_do_not_mutate_state() {
    let graph = graph(vec![value_node("value_1", VALUE_F32_KIND, float(1.0))]);
    let mut state = ControlState::from_graph(&graph);

    for request in [
        req("missing", "set", f32c(2.0)),
        req("value_1", "value", f32c(2.0)),
        req("value_1", "set", ControlValue::Bool(true)),
        req("value_1", "bang", f32c(2.0)),
    ] {
        let response = state.apply_event(request, &graph);
        assert!(!response.ok);
        assert!(response.emitted.is_empty());
        assert!(!response.diagnostics.is_empty());
        assert_eq!(state.value_for_node("value_1"), Some(&f32c(1.0)));
    }
}

#[test]
fn rejects_corrupt_toggle_state_and_existing_unsupported_input_port() {
    let mut graph = graph(vec![value_node("toggle_1", TOGGLE_KIND, ParamValue::Bool(false))]);
    graph.nodes[0].ports.push(port(
        "other",
        PortDirection::Input,
        DataFlow::Event,
        "event.bang",
        Some(PortActivation::Trigger),
    ));
    let mut state = ControlState::from_graph(&graph);
    state.values.insert("toggle_1".to_owned(), string("not-bool"));

    let corrupt = state.apply_event(req("toggle_1", "bang", ControlValue::Bang), &graph);
    assert!(!corrupt.ok);
    assert!(corrupt.diagnostics[0].message.contains("non-boolean toggle state"));

    state.values.insert("toggle_1".to_owned(), ControlValue::Bool(false));
    let unsupported = state.apply_event(req("toggle_1", "other", ControlValue::Bang), &graph);
    assert!(!unsupported.ok);
    assert!(unsupported.diagnostics[0]
        .message
        .contains("does not support runtime control input port other"));
}

#[test]
fn rejects_non_control_nodes_and_missing_control_state() {
    let graph = graph(vec![
        value_node("value_1", VALUE_F32_KIND, float(1.0)),
        value_node("target_1", "core.target", float(1.0)),
    ]);

    let mut state = ControlState::from_graph(&graph);
    let non_control = state.apply_event(req("target_1", "set", f32c(2.0)), &graph);
    assert!(!non_control.ok);
    assert!(non_control.diagnostics[0].message.contains("does not support runtime control events"));

    state.values.remove("value_1");
    let missing_state = state.apply_event(req("value_1", "set", f32c(2.0)), &graph);
    assert!(!missing_state.ok);
    assert!(missing_state.diagnostics[0].message.contains("has no runtime control state"));
}

#[test]
fn runtime_metadata_is_attached_to_a_response() {
    let response = RuntimeControlEventResponse::ok(vec![emission("a", "value", ControlValue::Bang)]).with_runtime_metadata(true, 3);
    assert!(response.ok);
    assert!(response.changed);
    assert_eq!(response.control_revision, Some(3));
    assert_eq!(response.emitted.len(), 1);
    let failed = RuntimeControlEventResponse::error("nope".to_owned());
    assert!(!failed.ok);
    assert_eq!(failed.diagnostics[0].message, "nope");
}

#[test]
fn event_answers_report_no_change_and_start_with_the_addressed_node() {
    let mut graph = graph(vec![
        value_node("a", VALUE_I32_KIND, int_param(1)),
        value_node("b", VALUE_I32_KIND, int_param(2)),
        value_node("c", VALUE_I32_KIND, int_param(3)),
    ]);
    graph.edges = vec![edge("a", "value", "b", "in")];
    let mut state = ControlState::from_graph(&graph);

    let response = state.apply_event(req("a", "in", ControlValue::I32(7)), &graph);
    assert!(response.ok && response.diagnostics.is_empty());
    assert!(!response.changed && response.control_revision.is_none());
    assert_eq!(response.emitted[0].node_id, "a");
    assert!(response.emitted.iter().all(|e| e.port_id == "value" || e.port_id == "bang"));
    assert!(response.emitted.iter().all(|e| graph.nodes.iter().any(|n| n.id == e.node_id)));
    assert_eq!(state.value_for_node("c"), Some(&ControlValue::I32(3)));

    let before = state.value_for_node("b").cloned();
    let refused = state.apply_event(req("b", "in", string("x")), &graph);
    assert!(!refused.ok && refused.emitted.is_empty() && refused.diagnostics.len() == 1);
    assert!(!refused.changed && refused.control_revision.is_none());
    assert_eq!(state.value_for_node("b").cloned(), before);
}
