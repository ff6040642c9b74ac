//! The runtime control state of a graph and its event machine: control
//! objects hold values, react to events on their input ports, emit values,
//! publish on named channels, and forward emissions along graph edges.
use vstd::prelude::*;
use crate::contract::{
    Edge, GraphDocument, GraphNode, ParamValue, Port, PortDirection, find_node, find_node_index,
    param_get, param_lookup,
};
use crate::control_table::ControlTable;
use crate::control_value::{
    COLOR_RGBA_KIND, COMMENT_KIND, ControlValue, ControlValueView, MESSAGE_KIND,
    PANEL_KIND, STRING_KIND, TOGGLE_KIND, UI_BUTTON_KIND, UI_SLIDER_F32_KIND, UI_TOGGLE_KIND,
    VALUE_BOOL_KIND, VALUE_F32_KIND, VALUE_I32_KIND, data_kind_for_control_value, data_kind_spec,
    default_value_spec, is_ui_control_kind, is_ui_control_kind_spec, kind_label_spec, same_type,
    supports_runtime_control_events, supports_runtime_control_events_spec,
};
use crate::diagnostic::{
    DiagnosticView, RuntimeDiagnostic, diagnostic_views, error_diagnostic,
};
use crate::text::{
    ascii_lower_eq, ascii_lowercase, chars_of, concat2, owned, signed_decimal,
    signed_decimal_string, str_eq, strip_prefix, strip_prefix_str, trim, trim_str,
};

verus! {

/// The values of a graph's control objects and of its named channels.
#[derive(Debug, PartialEq, Eq)]
pub struct ControlState {
    pub values: ControlTable,
    pub channels: ControlTable,
}

/// The view of a control state.
pub struct ControlStateView {
    pub values: Map<Seq<char>, ControlValueView>,
    pub channels: Map<Seq<char>, ControlValueView>,
}

impl View for ControlState {
    type V = ControlStateView;

    open spec fn view(&self) -> ControlStateView {
        ControlStateView { values: self.values@, channels: self.channels@ }
    }
}

/// An event sent to an input port of a control object.
#[derive(Debug, Clone, PartialEq, Eq)]
pub struct RuntimeControlEventRequest {
    pub node_id: String,
    pub port_id: String,
    pub value: ControlValue,
}

/// The view of an event request.
pub struct RequestView {
    pub node_id: Seq<char>,
    pub port_id: Seq<char>,
    pub value: ControlValueView,
}

impl View for RuntimeControlEventRequest {
    type V = RequestView;

    open spec fn view(&self) -> RequestView {
        RequestView { node_id: self.node_id@, port_id: self.port_id@, value: self.value@ }
    }
}

/// A value that a control object emits on an output port.
#[derive(Debug, Clone, PartialEq, Eq)]
pub struct RuntimeControlEmission {
    pub node_id: String,
    pub port_id: String,
    pub value: ControlValue,
}

/// The view of an emission.
pub struct EmissionView {
    pub node_id: Seq<char>,
    pub port_id: Seq<char>,
    pub value: ControlValueView,
}

impl View for RuntimeControlEmission {
    type V = EmissionView;

    open spec fn view(&self) -> EmissionView {
        EmissionView { node_id: self.node_id@, port_id: self.port_id@, value: self.value@ }
    }
}

/// The views of a sequence of emissions.
pub open spec fn emission_views(e: Seq<RuntimeControlEmission>) -> Seq<EmissionView> {
    e.map_values(|x: RuntimeControlEmission| x@)
}

/// The answer to an event request.
#[derive(Debug, Clone, PartialEq, Eq)]
pub struct RuntimeControlEventResponse {
    pub ok: bool,
    pub changed: bool,
    pub control_revision: Option<u64>,
    pub emitted: Vec<RuntimeControlEmission>,
    pub diagnostics: Vec<RuntimeDiagnostic>,
}

/// The view of an event response.
pub struct ResponseView {
    pub ok: bool,
    pub changed: bool,
    pub control_revision: Option<u64>,
    pub emitted: Seq<EmissionView>,
    pub diagnostics: Seq<DiagnosticView>,
}

impl View for RuntimeControlEventResponse {
    type V = ResponseView;

    open spec fn view(&self) -> ResponseView {
        ResponseView {
            ok: self.ok,
            changed: self.changed,
            control_revision: self.control_revision,
            emitted: emission_views(self.emitted@),
            diagnostics: diagnostic_views(self.diagnostics@),
        }
    }
}

/// The full control state of a graph, as the state endpoint reports it.
#[derive(Debug, PartialEq, Eq)]
pub struct RuntimeControlStateResponse {
    pub ok: bool,
    pub control_revision: u64,
    pub values: ControlTable,
    pub channels: ControlTable,
    pub diagnostics: Vec<RuntimeDiagnostic>,
}

/// What a control read addresses.
#[derive(Debug, Clone, Copy, PartialEq, Eq, Structural)]
pub enum RuntimeControlReadTarget {
    Param,
    Port,
    State,
}

/// A request to read a parameter, port or state of a node.
#[derive(Debug, Clone, PartialEq, Eq)]
pub struct RuntimeControlReadRequest {
    pub node_id: String,
    pub target: RuntimeControlReadTarget,
    pub id: String,
}

/// The answer to a control read: the value read, as JSON text, or why none.
#[derive(Debug, Clone, PartialEq, Eq)]
pub struct RuntimeControlReadResponse {
    pub ok: bool,
    pub address: RuntimeControlReadRequest,
    pub value: Option<String>,
    pub diagnostics: Vec<RuntimeDiagnostic>,
}

impl RuntimeControlReadResponse {
    /// A successful read of `value` (JSON text) at `address`.
    pub fn ok(address: RuntimeControlReadRequest, value: String) -> (r: Self)
        ensures
            r.ok,
            r.address == address,
            r.value == Some(value),
            r.diagnostics@.len() == 0,
    {
        RuntimeControlReadResponse { ok: true, address, value: Some(value), diagnostics: Vec::new() }
    }

    /// A failed read at `address`, with one error diagnostic.
    pub fn error(address: RuntimeControlReadRequest, message: String) -> (r: Self)
        ensures
            !r.ok,
            r.address == address,
            r.value is None,
            diagnostic_views(r.diagnostics@) == seq![error_diagnostic(message@)],
    {
        let r = RuntimeControlReadResponse {
            ok: false,
            address,
            value: None,
            diagnostics: vec![RuntimeDiagnostic::error(message)],
        };
        assert(diagnostic_views(r.diagnostics@) =~= seq![error_diagnostic(message@)]);
        r
    }
}

// ---------------------------------------------------------------------------
// Specification of the event machine.
// ---------------------------------------------------------------------------

/// A successful response with the given emissions.
pub open spec fn ok_response(emitted: Seq<EmissionView>) -> ResponseView {
    ResponseView {
        ok: true,
        changed: false,
        control_revision: None,
        emitted,
        diagnostics: Seq::empty(),
    }
}

/// A failed response with one error diagnostic.
pub open spec fn error_response(message: Seq<char>) -> ResponseView {
    ResponseView {
        ok: false,
        changed: false,
        control_revision: None,
        emitted: Seq::empty(),
        diagnostics: seq![error_diagnostic(message)],
    }
}

pub open spec fn emission(node_id: Seq<char>, port_id: Seq<char>, value: ControlValueView) -> EmissionView {
    EmissionView { node_id, port_id, value }
}

pub open spec fn set_value(s: ControlStateView, id: Seq<char>, v: ControlValueView) -> ControlStateView {
    ControlStateView { values: s.values.insert(id, v), channels: s.channels }
}

pub open spec fn msg_missing_node(id: Seq<char>) -> Seq<char> {
    "control node "@ + id + " does not exist"@
}

pub open spec fn msg_no_events(id: Seq<char>, kind: Seq<char>) -> Seq<char> {
    "node "@ + id + " ("@ + kind + ") does not support runtime control events"@
}

pub open spec fn msg_no_state(id: Seq<char>) -> Seq<char> {
    "node "@ + id + " has no runtime control state"@
}

pub open spec fn msg_bad_port(id: Seq<char>, port: Seq<char>) -> Seq<char> {
    "node "@ + id + " does not support runtime control input port "@ + port
}

pub open spec fn msg_type_mismatch(id: Seq<char>, expected: Seq<char>, got: Seq<char>) -> Seq<char> {
    "control input "@ + id + " expects "@ + expected + ", got "@ + got
}

pub open spec fn msg_port_expects(id: Seq<char>, port: Seq<char>, expected: Seq<char>, got: Seq<char>) -> Seq<char> {
    "control input "@ + id + "."@ + port + " expects "@ + expected + ", got "@ + got
}

pub open spec fn msg_non_bool_toggle(id: Seq<char>) -> Seq<char> {
    "node "@ + id + " has non-boolean toggle state"@
}

pub open spec fn msg_toggle_input(id: Seq<char>, port: Seq<char>) -> Seq<char> {
    "control input "@ + id + "."@ + port + " expects bang, bool, 0/1, or on/off"@
}

pub open spec fn msg_safety_limit() -> Seq<char> {
    "control event propagation exceeded the v0 runtime safety limit"@
}

/// The text a message-like object stores when `set` to a value.
pub open spec fn message_text(v: ControlValueView) -> Seq<char> {
    match v {
        ControlValueView::Str(t) => match strip_prefix(t, "set "@) {
            Some(rest) => rest,
            None => t,
        },
        ControlValueView::F32(f) => f.text,
        ControlValueView::I32(i) => signed_decimal(i as int),
        ControlValueView::Bool(b) => if b {
            "on"@
        } else {
            "off"@
        },
        ControlValueView::Rgba(r, g, b, a) => "rgba "@ + r.text + " "@ + g.text + " "@ + b.text
            + " "@ + a.text,
        ControlValueView::Bang => "bang"@,
    }
}

/// A `set ...` string sent to a message's inlet replaces its text silently.
pub open spec fn silent_set(v: ControlValueView) -> Option<Seq<char>> {
    match v {
        ControlValueView::Str(t) => strip_prefix(t, "set "@),
        _ => None,
    }
}

/// The canonical word of a toggle command string.
pub open spec fn toggle_word(t: Seq<char>) -> Seq<char> {
    let base = match strip_prefix(t, "set "@) {
        Some(rest) => rest,
        None => t,
    };
    ascii_lowercase(trim(base))
}

/// The next toggle state for an input, if the input is one a toggle accepts.
/// A float input is compared as a float: `0.0` and `-0.0` switch off, `1.0`
/// switches on.
pub open spec fn coerce_toggle(v: ControlValueView, current: bool) -> Option<bool> {
    match v {
        ControlValueView::Bang => Some(!current),
        ControlValueView::Bool(b) => Some(b),
        ControlValueView::I32(i) => if i == 0 {
            Some(false)
        } else if i == 1 {
            Some(true)
        } else {
            None
        },
        ControlValueView::F32(f) => if f.bits == 0 || f.bits == 0x8000_0000 {
            Some(false)
        } else if f.bits == 0x3f80_0000 {
            Some(true)
        } else {
            None
        },
        ControlValueView::Str(t) => {
            let w = toggle_word(t);
            if w == "0"@ || w == "off"@ || w == "false"@ {
                Some(false)
            } else if w == "1"@ || w == "on"@ || w == "true"@ {
                Some(true)
            } else if w == "bang"@ {
                Some(!current)
            } else {
                None
            }
        },
        ControlValueView::Rgba(..) => None,
    }
}

/// Whether a node has an input port with this id.
pub open spec fn has_input_port(ports: Seq<Port>, id: Seq<char>) -> bool {
    exists|j: int| 0 <= j < ports.len() && ports[j].id@ == id && ports[j].direction == PortDirection::Input
}

pub open spec fn is_message_like(kind: Seq<char>) -> bool {
    kind == MESSAGE_KIND@ || kind == COMMENT_KIND@ || kind == PANEL_KIND@
}

/// A toggle receiving `value` on `port`.
pub open spec fn toggle_outcome(
    s: ControlStateView,
    node: GraphNode,
    port: Seq<char>,
    value: ControlValueView,
    stored: ControlValueView,
) -> (ControlStateView, ResponseView) {
    match stored {
        ControlValueView::Bool(current) => match coerce_toggle(value, current) {
            None => (s, error_response(msg_toggle_input(node.id@, port))),
            Some(next) => {
                let s2 = set_value(s, node.id@, ControlValueView::Bool(next));
                if port == "set"@ {
                    (s2, ok_response(Seq::empty()))
                } else {
                    (s2, ok_response(seq![emission(node.id@, "value"@, ControlValueView::Bool(next))]))
                }
            },
        },
        _ => (s, error_response(msg_non_bool_toggle(node.id@))),
    }
}

/// A value object (number, string, colour, toggle, message, ...) receiving
/// an event on one of its input ports, with `stored` its current value.
pub open spec fn stored_outcome(
    s: ControlStateView,
    node: GraphNode,
    req: RequestView,
    stored: ControlValueView,
) -> (ControlStateView, ResponseView) {
    let id = node.id@;
    let kind = node.kind@;
    if req.port_id == "set"@ {
        if is_message_like(kind) {
            (set_value(s, id, ControlValueView::Str(message_text(req.value))), ok_response(Seq::empty()))
        } else if !same_type(req.value, stored) {
            (s, error_response(msg_type_mismatch(id, kind_label_spec(stored), kind_label_spec(req.value))))
        } else {
            (set_value(s, id, req.value), ok_response(Seq::empty()))
        }
    } else if req.port_id == "in"@ {
        if kind == MESSAGE_KIND@ {
            match silent_set(req.value) {
                Some(t) => (set_value(s, id, ControlValueView::Str(t)), ok_response(Seq::empty())),
                None => (s, ok_response(seq![emission(id, "value"@, stored)])),
            }
        } else if kind == TOGGLE_KIND@ {
            toggle_outcome(s, node, "in"@, req.value, stored)
        } else if !same_type(req.value, stored) {
            (s, error_response(msg_type_mismatch(id, kind_label_spec(stored), kind_label_spec(req.value))))
        } else {
            (set_value(s, id, req.value), ok_response(seq![emission(id, "value"@, req.value)]))
        }
    } else if req.port_id == "bang"@ {
        if req.value != ControlValueView::Bang {
            (s, error_response(msg_port_expects(id, "bang"@, "bang"@, kind_label_spec(req.value))))
        } else if kind == TOGGLE_KIND@ {
            toggle_outcome(s, node, "bang"@, req.value, stored)
        } else {
            (s, ok_response(seq![emission(id, "value"@, stored)]))
        }
    } else {
        (s, error_response(msg_bad_port(id, req.port_id)))
    }
}

/// A UI slider receiving an event.
pub open spec fn slider_outcome(s: ControlStateView, node: GraphNode, req: RequestView) -> (ControlStateView, ResponseView) {
    let id = node.id@;
    if req.port_id == "set"@ {
        if req.value is F32 {
            (set_value(s, id, req.value), ok_response(Seq::empty()))
        } else {
            (s, error_response(msg_port_expects(id, "set"@, "f32"@, kind_label_spec(req.value))))
        }
    } else if req.port_id == "in"@ || req.port_id == "value"@ {
        if req.value is F32 {
            (set_value(s, id, req.value), ok_response(seq![emission(id, "value"@, req.value)]))
        } else {
            (s, error_response(msg_port_expects(id, req.port_id, "f32"@, kind_label_spec(req.value))))
        }
    } else if req.port_id == "bang"@ {
        if req.value != ControlValueView::Bang {
            (s, error_response(msg_port_expects(id, "bang"@, "bang"@, kind_label_spec(req.value))))
        } else if !s.values.contains_key(id) {
            (s, error_response(msg_no_state(id)))
        } else {
            (s, ok_response(seq![emission(id, "value"@, s.values[id])]))
        }
    } else {
        (s, error_response(msg_bad_port(id, req.port_id)))
    }
}

/// A UI widget (button, slider, toggle) receiving an event.
pub open spec fn ui_outcome(s: ControlStateView, node: GraphNode, req: RequestView) -> (ControlStateView, ResponseView) {
    let id = node.id@;
    let kind = node.kind@;
    if kind == UI_BUTTON_KIND@ {
        if req.port_id != "in"@ && req.port_id != "bang"@ {
            (s, error_response(msg_bad_port(id, req.port_id)))
        } else {
            (s, ok_response(seq![emission(id, "bang"@, ControlValueView::Bang)]))
        }
    } else if kind == UI_SLIDER_F32_KIND@ {
        slider_outcome(s, node, req)
    } else if kind == UI_TOGGLE_KIND@ {
        if !s.values.contains_key(id) {
            (s, error_response(msg_no_state(id)))
        } else {
            toggle_outcome(s, node, req.port_id, req.value, s.values[id])
        }
    } else {
        (s, error_response(msg_no_events(id, kind)))
    }
}

/// An event applied to the addressed node alone, without forwarding.
#[verifier::opaque]
pub open spec fn direct_outcome(s: ControlStateView, req: RequestView, nodes: Seq<GraphNode>) -> (ControlStateView, ResponseView) {
    match find_node_index(nodes, req.node_id) {
        None => (s, error_response(msg_missing_node(req.node_id))),
        Some(i) => {
            let node = nodes[i];
            if !supports_runtime_control_events_spec(node.kind@) {
                (s, error_response(msg_no_events(node.id@, node.kind@)))
            } else if is_ui_control_kind_spec(node.kind@) {
                ui_outcome(s, node, req)
            } else if !s.values.contains_key(node.id@) {
                (s, error_response(msg_no_state(node.id@)))
            } else if !has_input_port(node.ports@, req.port_id) {
                (s, error_response(msg_bad_port(node.id@, req.port_id)))
            } else {
                stored_outcome(s, node, req, s.values[node.id@])
            }
        },
    }
}

/// A string parameter of a node, trimmed; absent when missing, not a string
/// or blank.
pub open spec fn named_param(node: GraphNode, key: Seq<char>) -> Option<Seq<char>> {
    match param_lookup(node.params@, key) {
        Some(ParamValue::String(s)) => if trim(s@).len() == 0 {
            None
        } else {
            Some(trim(s@))
        },
        _ => None,
    }
}

/// Whether objects of this kind take values of this data kind from a channel.
pub open spec fn accepts_data_kind(kind: Seq<char>, data_kind: Seq<char>) -> bool {
    if kind == VALUE_F32_KIND@ || kind == UI_SLIDER_F32_KIND@ {
        data_kind == "number.f32"@
    } else if kind == VALUE_I32_KIND@ {
        data_kind == "number.i32"@
    } else if kind == VALUE_BOOL_KIND@ || kind == TOGGLE_KIND@ || kind == UI_TOGGLE_KIND@ {
        data_kind == "boolean"@
    } else if kind == COLOR_RGBA_KIND@ {
        data_kind == "color.rgba"@
    } else if kind == STRING_KIND@ || kind == MESSAGE_KIND@ || kind == COMMENT_KIND@ || kind
        == PANEL_KIND@ {
        data_kind == "string"@
    } else if kind == UI_BUTTON_KIND@ {
        data_kind == "event.bang"@
    } else {
        false
    }
}

/// Whether the node with id `k` among `nodes` receives from the channel.
pub open spec fn is_receiver(
    nodes: Seq<GraphNode>,
    k: Seq<char>,
    data_kind: Seq<char>,
    channel: Seq<char>,
    source: Seq<char>,
) -> bool {
    k != source && exists|j: int|
        0 <= j < nodes.len() && #[trigger] nodes[j].id@ == k && named_param(
            nodes[j],
            "receiveName"@,
        ) == Some(channel) && accepts_data_kind(nodes[j].kind@, data_kind)
}

/// Node values after a value published on a channel reached its receivers.
pub open spec fn receive_values(
    values: Map<Seq<char>, ControlValueView>,
    data_kind: Seq<char>,
    channel: Seq<char>,
    v: ControlValueView,
    source: Seq<char>,
    nodes: Seq<GraphNode>,
) -> Map<Seq<char>, ControlValueView> {
    Map::new(
        |k: Seq<char>| values.contains_key(k) || is_receiver(nodes, k, data_kind, channel, source),
        |k: Seq<char>| if is_receiver(nodes, k, data_kind, channel, source) {
            v
        } else {
            values[k]
        },
    )
}

/// An emission published on the channel its source names in `sendName`.
#[verifier::opaque]
pub open spec fn publish(s: ControlStateView, em: EmissionView, nodes: Seq<GraphNode>) -> ControlStateView {
    match find_node_index(nodes, em.node_id) {
        None => s,
        Some(i) => match named_param(nodes[i], "sendName"@) {
            None => s,
            Some(channel) => {
                let kind = data_kind_spec(em.value);
                ControlStateView {
                    values: receive_values(s.values, kind, channel, em.value, em.node_id, nodes),
                    channels: s.channels.insert(kind + ":"@ + channel, em.value),
                }
            },
        },
    }
}

/// The work list of the forwarding loop.
pub struct Propagation {
    pub state: ControlStateView,
    pub queue: Seq<EmissionView>,
    pub emitted: Seq<EmissionView>,
    pub failure: Option<ResponseView>,
}

/// Edge `edges[j]` delivers the emission when it leaves the emitting port
/// and ends at an object that accepts control events.
#[verifier::opaque]
pub open spec fn fan_out_step(
    st: Propagation,
    em: EmissionView,
    nodes: Seq<GraphNode>,
    edges: Seq<Edge>,
    j: int,
) -> Propagation {
    let e = edges[j];
    if e.from.node@ == em.node_id && e.from.port@ == em.port_id {
        match find_node_index(nodes, e.to.node@) {
            None => st,
            Some(t) => if !supports_runtime_control_events_spec(nodes[t].kind@) {
                st
            } else {
                let out = direct_outcome(
                    st.state,
                    RequestView { node_id: nodes[t].id@, port_id: e.to.port@, value: em.value },
                    nodes,
                );
                if !out.1.ok {
                    Propagation { state: out.0, queue: st.queue, emitted: st.emitted, failure: Some(out.1) }
                } else {
                    Propagation {
                        state: out.0,
                        queue: st.queue + out.1.emitted,
                        emitted: st.emitted + out.1.emitted,
                        failure: None,
                    }
                }
            },
        }
    } else {
        st
    }
}

/// The edges from `edges[j..]` leaving the emitting port deliver the emission,
/// in order, until one delivery fails.
pub open spec fn fan_out(
    st: Propagation,
    em: EmissionView,
    nodes: Seq<GraphNode>,
    edges: Seq<Edge>,
    j: int,
) -> Propagation
    decreases edges.len() - j,
{
    if j < 0 || j >= edges.len() || st.failure is Some {
        st
    } else {
        fan_out(fan_out_step(st, em, nodes, edges, j), em, nodes, edges, j + 1)
    }
}

/// How many emissions the forwarding loop handles before it gives up.
pub open spec fn safety_limit(edge_count: nat) -> int {
    let doubled = if 2 * edge_count > usize::MAX { usize::MAX as int } else { (2 * edge_count) as int };
    if doubled > 32 { doubled } else { 32 }
}

/// The forwarding loop: the last queued emission is published and delivered
/// along its edges; the emissions this causes are queued and reported.
pub open spec fn propagate_from(
    st: Propagation,
    nodes: Seq<GraphNode>,
    edges: Seq<Edge>,
    visited: int,
    limit: int,
) -> (ControlStateView, ResponseView)
    decreases limit + 1 - visited,
{
    if st.queue.len() == 0 {
        (st.state, ok_response(st.emitted))
    } else if visited < 0 || visited > limit {
        (st.state, error_response(msg_safety_limit()))
    } else {
        let em = st.queue.last();
        let s1 = publish(st.state, em, nodes);
        if visited + 1 > limit {
            (s1, error_response(msg_safety_limit()))
        } else {
            let st2 = fan_out(
                Propagation { state: s1, queue: st.queue.drop_last(), emitted: st.emitted, failure: None },
                em,
                nodes,
                edges,
                0,
            );
            match st2.failure {
                Some(r) => (st2.state, r),
                None => propagate_from(st2, nodes, edges, visited + 1, limit),
            }
        }
    }
}

/// An event applied to a graph: the addressed node reacts, and when it
/// accepts the event its emissions are published and forwarded.
pub open spec fn event_outcome(s: ControlStateView, req: RequestView, graph: GraphDocument) -> (ControlStateView, ResponseView) {
    let direct = direct_outcome(s, req, graph.nodes@);
    if !direct.1.ok {
        direct
    } else {
        propagate_from(
            Propagation { state: direct.0, queue: direct.1.emitted, emitted: direct.1.emitted, failure: None },
            graph.nodes@,
            graph.edges@,
            0,
            safety_limit(graph.edges@.len()),
        )
    }
}

/// The values control objects start with, node by node.
pub open spec fn initial_values(nodes: Seq<GraphNode>) -> Map<Seq<char>, ControlValueView>
    decreases nodes.len(),
{
    if nodes.len() == 0 {
        Map::empty()
    } else {
        let prev = initial_values(nodes.drop_last());
        match default_value_spec(nodes.last()) {
            Some(v) => prev.insert(nodes.last().id@, v),
            None => prev,
        }
    }
}


// ---------------------------------------------------------------------------
// Executable event machine.
// ---------------------------------------------------------------------------

impl RuntimeControlEmission {
    /// An emission with the same view.
    pub fn duplicate(&self) -> (r: RuntimeControlEmission)
        ensures
            r@ == self@,
    {
        RuntimeControlEmission {
            node_id: self.node_id.clone(),
            port_id: self.port_id.clone(),
            value: self.value.duplicate(),
        }
    }
}

fn new_emission(node_id: &String, port_id: &str, value: ControlValue) -> (r: RuntimeControlEmission)
    ensures
        r@ == emission(node_id@, port_id@, value@),
{
    RuntimeControlEmission { node_id: node_id.clone(), port_id: owned(port_id), value }
}

fn copy_emissions(e: &Vec<RuntimeControlEmission>) -> (r: Vec<RuntimeControlEmission>)
    ensures
        emission_views(r@) == emission_views(e@),
{
    let mut r: Vec<RuntimeControlEmission> = Vec::new();
    let mut i: usize = 0;
    while i < e.len()
        invariant
            i <= e@.len(),
            r@.len() == i,
            forall|k: int| 0 <= k < i ==> r@[k]@ == e@[k]@,
        decreases e.len() - i,
    {
        r.push(e[i].duplicate());
        i = i + 1;
    }
    assert(emission_views(r@) =~= emission_views(e@));
    r
}

impl RuntimeControlEventResponse {
    /// A successful response with the given emissions.
    pub fn ok(emitted: Vec<RuntimeControlEmission>) -> (r: RuntimeControlEventResponse)
        ensures
            r@ == ok_response(emission_views(emitted@)),
    {
        let r = RuntimeControlEventResponse {
            ok: true,
            changed: false,
            control_revision: None,
            emitted,
            diagnostics: Vec::new(),
        };
        assert(diagnostic_views(r.diagnostics@) =~= Seq::<DiagnosticView>::empty());
        r
    }

    /// A failed response with one error diagnostic.
    pub fn error(message: String) -> (r: RuntimeControlEventResponse)
        ensures
            r@ == error_response(message@),
    {
        let mut diagnostics: Vec<RuntimeDiagnostic> = Vec::new();
        diagnostics.push(RuntimeDiagnostic::error(message));
        let r = RuntimeControlEventResponse {
            ok: false,
            changed: false,
            control_revision: None,
            emitted: Vec::new(),
            diagnostics,
        };
        assert(diagnostic_views(r.diagnostics@) =~= seq![error_diagnostic(message@)]);
        assert(emission_views(r.emitted@) =~= Seq::<EmissionView>::empty());
        r
    }

    /// The response stamped with whether the state changed and its revision.
    pub fn with_runtime_metadata(self, changed: bool, control_revision: u64) -> (r: RuntimeControlEventResponse)
        ensures
            r@ == (ResponseView { changed, control_revision: Some(control_revision), ..self@ }),
    {
        let mut r = self;
        r.changed = changed;
        r.control_revision = Some(control_revision);
        r
    }
}

fn ok_none() -> (r: RuntimeControlEventResponse)
    ensures
        r@ == ok_response(Seq::empty()),
{
    let r = RuntimeControlEventResponse::ok(Vec::new());
    assert(emission_views(Seq::<RuntimeControlEmission>::empty()) =~= Seq::<EmissionView>::empty());
    r
}

fn ok_one(e: RuntimeControlEmission) -> (r: RuntimeControlEventResponse)
    ensures
        r@ == ok_response(seq![e@]),
{
    let ghost v = e@;
    let mut emitted: Vec<RuntimeControlEmission> = Vec::new();
    emitted.push(e);
    assert(emission_views(emitted@) =~= seq![v]);
    RuntimeControlEventResponse::ok(emitted)
}

fn msg_missing_node_text(id: &str) -> (r: String)
    ensures
        r@ == msg_missing_node(id@),
{
    let mut m = owned("control node ");
    m.append(id);
    m.append(" does not exist");
    m
}

fn msg_no_events_text(id: &str, kind: &str) -> (r: String)
    ensures
        r@ == msg_no_events(id@, kind@),
{
    let mut m = owned("node ");
    m.append(id);
    m.append(" (");
    m.append(kind);
    m.append(") does not support runtime control events");
    m
}

fn msg_no_state_text(id: &str) -> (r: String)
    ensures
        r@ == msg_no_state(id@),
{
    let mut m = owned("node ");
    m.append(id);
    m.append(" has no runtime control state");
    m
}

fn msg_bad_port_text(id: &str, port: &str) -> (r: String)
    ensures
        r@ == msg_bad_port(id@, port@),
{
    let mut m = owned("node ");
    m.append(id);
    m.append(" does not support runtime control input port ");
    m.append(port);
    m
}

fn msg_type_mismatch_text(id: &str, expected: &str, got: &str) -> (r: String)
    ensures
        r@ == msg_type_mismatch(id@, expected@, got@),
{
    let mut m = owned("control input ");
    m.append(id);
    m.append(" expects ");
    m.append(expected);
    m.append(", got ");
    m.append(got);
    m
}

/// `Ok` when `value` has the type of the stored value, else the mismatch message.
pub fn ensure_value_type(value: &ControlValue, stored: &ControlValue, node_id: &str) -> (r: Result<(), String>)
    ensures
        match r {
            Ok(_) => same_type(value@, stored@),
            Err(m) => !same_type(value@, stored@) && m@ == msg_type_mismatch(
                node_id@,
                kind_label_spec(stored@),
                kind_label_spec(value@),
            ),
        },
{
    if value.matches_stored_type(stored) {
        return Ok(());
    }
    Err(msg_type_mismatch_text(node_id, stored.kind_label(), value.kind_label()))
}

fn msg_port_expects_text(id: &str, port: &str, expected: &str, got: &str) -> (r: String)
    ensures
        r@ == msg_port_expects(id@, port@, expected@, got@),
{
    let mut m = owned("control input ");
    m.append(id);
    m.append(".");
    m.append(port);
    m.append(" expects ");
    m.append(expected);
    m.append(", got ");
    m.append(got);
    m
}

fn msg_non_bool_toggle_text(id: &str) -> (r: String)
    ensures
        r@ == msg_non_bool_toggle(id@),
{
    let mut m = owned("node ");
    m.append(id);
    m.append(" has non-boolean toggle state");
    m
}

fn msg_toggle_input_text(id: &str, port: &str) -> (r: String)
    ensures
        r@ == msg_toggle_input(id@, port@),
{
    let mut m = owned("control input ");
    m.append(id);
    m.append(".");
    m.append(port);
    m.append(" expects bang, bool, 0/1, or on/off");
    m
}

/// The text a message-like object stores when `set` to a value.
pub fn message_text_from_value(value: &ControlValue) -> (r: String)
    ensures
        r@ == message_text(value@),
{
    match value {
        ControlValue::String(v) => match strip_prefix_str(v.as_str(), "set ") {
            Some(rest) => rest,
            None => v.clone(),
        },
        ControlValue::F32(f) => f.text.clone(),
        ControlValue::I32(i) => signed_decimal_string(*i as i64),
        ControlValue::Bool(b) => if *b {
            owned("on")
        } else {
            owned("off")
        },
        ControlValue::Rgba(c) => {
            let mut m = owned("rgba ");
            m.append(c.red.text.as_str());
            m.append(" ");
            m.append(c.green.text.as_str());
            m.append(" ");
            m.append(c.blue.text.as_str());
            m.append(" ");
            m.append(c.alpha.text.as_str());
            m
        },
        ControlValue::Bang => owned("bang"),
    }
}

/// The new text when a `set ...` string reaches a message's inlet.
pub fn silent_set_message(value: &ControlValue) -> (r: Option<String>)
    ensures
        r matches Some(t) ==> silent_set(value@) == Some(t@),
        r is None ==> silent_set(value@) is None,
{
    match value {
        ControlValue::String(v) => strip_prefix_str(v.as_str(), "set "),
        _ => None,
    }
}

/// The next toggle state for an input (see `coerce_toggle`).
pub fn coerce_toggle_input(value: &ControlValue, current: bool) -> (r: Option<bool>)
    ensures
        r == coerce_toggle(value@, current),
{
    match value {
        ControlValue::Bang => Some(!current),
        ControlValue::Bool(b) => Some(*b),
        ControlValue::I32(i) => if *i == 0 {
            Some(false)
        } else if *i == 1 {
            Some(true)
        } else {
            None
        },
        ControlValue::F32(f) => if f.bits == 0 || f.bits == 0x8000_0000 {
            Some(false)
        } else if f.bits == 0x3f80_0000 {
            Some(true)
        } else {
            None
        },
        ControlValue::String(t) => {
            let base = match strip_prefix_str(t.as_str(), "set ") {
                Some(rest) => rest,
                None => t.clone(),
            };
            let trimmed = trim_str(base.as_str());
            let chars = chars_of(trimmed.as_str());
            assert(chars@ == trim(base@));
            if ascii_lower_eq(&chars, "0") || ascii_lower_eq(&chars, "off") || ascii_lower_eq(
                &chars,
                "false",
            ) {
                Some(false)
            } else if ascii_lower_eq(&chars, "1") || ascii_lower_eq(&chars, "on") || ascii_lower_eq(
                &chars,
                "true",
            ) {
                Some(true)
            } else if ascii_lower_eq(&chars, "bang") {
                Some(!current)
            } else {
                None
            }
        },
        ControlValue::Rgba(_) => None,
    }
}

/// Whether the node has an input port with this id.
pub fn has_input_port_exec(ports: &Vec<Port>, id: &str) -> (r: bool)
    ensures
        r == has_input_port(ports@, id@),
{
    let mut j: usize = 0;
    while j < ports.len()
        invariant
            j <= ports@.len(),
            forall|k: int| 0 <= k < j ==> !(ports@[k].id@ == id@ && ports@[k].direction == PortDirection::Input),
        decreases ports.len() - j,
    {
        if str_eq(ports[j].id.as_str(), id) && ports[j].direction == PortDirection::Input {
            return true;
        }
        j = j + 1;
    }
    false
}

/// A trimmed, non-blank string parameter of a node.
pub fn read_named_param(node: &GraphNode, key: &str) -> (r: Option<String>)
    ensures
        r matches Some(t) ==> named_param(*node, key@) == Some(t@),
        r is None ==> named_param(*node, key@) is None,
{
    match param_get(&node.params, key) {
        Some(ParamValue::String(s)) => {
            let t = trim_str(s.as_str());
            if t.unicode_len() == 0 {
                None
            } else {
                Some(t)
            }
        },
        _ => None,
    }
}

/// Whether objects of this kind take values of this data kind from a channel.
pub fn object_accepts_data_kind(kind: &str, data_kind: &str) -> (r: bool)
    ensures
        r == accepts_data_kind(kind@, data_kind@),
{
    if str_eq(kind, VALUE_F32_KIND) || str_eq(kind, UI_SLIDER_F32_KIND) {
        str_eq(data_kind, "number.f32")
    } else if str_eq(kind, VALUE_I32_KIND) {
        str_eq(data_kind, "number.i32")
    } else if str_eq(kind, VALUE_BOOL_KIND) || str_eq(kind, TOGGLE_KIND) || str_eq(kind, UI_TOGGLE_KIND) {
        str_eq(data_kind, "boolean")
    } else if str_eq(kind, COLOR_RGBA_KIND) {
        str_eq(data_kind, "color.rgba")
    } else if str_eq(kind, STRING_KIND) || str_eq(kind, MESSAGE_KIND) || str_eq(kind, COMMENT_KIND)
        || str_eq(kind, PANEL_KIND) {
        str_eq(data_kind, "string")
    } else if str_eq(kind, UI_BUTTON_KIND) {
        str_eq(data_kind, "event.bang")
    } else {
        false
    }
}

pub proof fn lemma_receive_step(
    values: Map<Seq<char>, ControlValueView>,
    data_kind: Seq<char>,
    channel: Seq<char>,
    v: ControlValueView,
    source: Seq<char>,
    nodes: Seq<GraphNode>,
    j: int,
)
    requires
        0 <= j < nodes.len(),
    ensures
        receive_values(values, data_kind, channel, v, source, nodes.subrange(0, j + 1)) == (if nodes[j].id@
            != source && named_param(nodes[j], "receiveName"@) == Some(channel) && accepts_data_kind(
            nodes[j].kind@,
            data_kind,
        ) {
            receive_values(values, data_kind, channel, v, source, nodes.subrange(0, j)).insert(nodes[j].id@, v)
        } else {
            receive_values(values, data_kind, channel, v, source, nodes.subrange(0, j))
        }),
{
    let p = nodes.subrange(0, j);
    let q = nodes.subrange(0, j + 1);
    let c = nodes[j].id@ != source && named_param(nodes[j], "receiveName"@) == Some(channel)
        && accepts_data_kind(nodes[j].kind@, data_kind);
    assert forall|k: Seq<char>| #[trigger] is_receiver(q, k, data_kind, channel, source) == (is_receiver(p, k, data_kind, channel, source) || (c && k == nodes[j].id@)) by {
        if is_receiver(q, k, data_kind, channel, source) {
            let w = choose|w: int| 0 <= w < q.len() && #[trigger] q[w].id@ == k && named_param(q[w], "receiveName"@) == Some(channel) && accepts_data_kind(q[w].kind@, data_kind);
            if w < j {
                assert(p[w] == q[w]);
            } else {
                assert(q[w] == nodes[j]);
            }
        }
        if is_receiver(p, k, data_kind, channel, source) {
            let w = choose|w: int| 0 <= w < p.len() && #[trigger] p[w].id@ == k && named_param(p[w], "receiveName"@) == Some(channel) && accepts_data_kind(p[w].kind@, data_kind);
            assert(q[w] == p[w]);
        }
        if c && k == nodes[j].id@ {
            assert(q[j] == nodes[j]);
        }
    }
    let lhs = receive_values(values, data_kind, channel, v, source, q);
    let base = receive_values(values, data_kind, channel, v, source, p);
    if c {
        assert(lhs =~= base.insert(nodes[j].id@, v));
    } else {
        assert(lhs =~= base);
    }
}

impl Default for ControlState {
    fn default() -> (r: ControlState)
        ensures
            r@.values == Map::<Seq<char>, ControlValueView>::empty(),
            r@.channels == Map::<Seq<char>, ControlValueView>::empty(),
    {
        ControlState { values: ControlTable::new(), channels: ControlTable::new() }
    }
}

impl ControlState {
    /// The initial control state of a graph: each control object holds its
    /// starting value; no channel holds a value.
    pub fn from_graph(graph: &GraphDocument) -> (r: ControlState)
        ensures
            r@.values == initial_values(graph.nodes@),
            r@.channels == Map::<Seq<char>, ControlValueView>::empty(),
    {
        let mut values = ControlTable::new();
        let mut i: usize = 0;
        while i < graph.nodes.len()
            invariant
                i <= graph.nodes@.len(),
                values@ == initial_values(graph.nodes@.subrange(0, i as int)),
            decreases graph.nodes.len() - i,
        {
            let node = &graph.nodes[i];
            proof {
                let p = graph.nodes@.subrange(0, i + 1);
                assert(p.drop_last() =~= graph.nodes@.subrange(0, i as int));
                assert(p.last() == graph.nodes@[i as int]);
            }
            match ControlValue::for_node_default(node) {
                Some(v) => values.insert(node.id.clone(), v),
                None => {},
            }
            i = i + 1;
        }
        assert(graph.nodes@.subrange(0, graph.nodes@.len() as int) =~= graph.nodes@);
        ControlState { values, channels: ControlTable::new() }
    }

    /// The value a node holds.
    pub fn value_for_node(&self, node_id: &str) -> (r: Option<&ControlValue>)
        ensures
            r matches Some(v) ==> self@.values.contains_key(node_id@) && self@.values[node_id@] == v@,
            r is None ==> !self@.values.contains_key(node_id@),
    {
        self.values.get(node_id)
    }

    /// The value a node presents on an output port: its stored value on
    /// `value`, nothing on any other port.
    pub fn output_value_for_node(&self, node: &GraphNode, port_id: &str) -> (r: Option<ControlValue>)
        ensures
            port_id@ != "value"@ ==> r is None,
            port_id@ == "value"@ ==> (r matches Some(v) ==> self@.values.contains_key(node.id@)
                && self@.values[node.id@] == v@),
            port_id@ == "value"@ ==> (r is None ==> !self@.values.contains_key(node.id@)),
    {
        if !str_eq(port_id, "value") {
            return None;
        }
        match self.values.get(node.id.as_str()) {
            Some(v) => Some(v.duplicate()),
            None => None,
        }
    }

    fn set_node_value(&mut self, id: &String, value: ControlValue)
        ensures
            final(self)@ == set_value(old(self)@, id@, value@),
    {
        self.values.insert(id.clone(), value);
    }

    /// A toggle receiving `value` on `port_id` (see `toggle_outcome`).
    fn apply_toggle_event(
        &mut self,
        node: &GraphNode,
        port_id: &str,
        value: ControlValue,
        stored: ControlValue,
    ) -> (r: RuntimeControlEventResponse)
        ensures
            (final(self)@, r@) == toggle_outcome(old(self)@, *node, port_id@, value@, stored@),
    {
        let current = match stored {
            ControlValue::Bool(b) => b,
            _ => return RuntimeControlEventResponse::error(msg_non_bool_toggle_text(node.id.as_str())),
        };
        let silent = str_eq(port_id, "set");
        let next = match coerce_toggle_input(&value, current) {
            Some(b) => b,
            None => return RuntimeControlEventResponse::error(
                msg_toggle_input_text(node.id.as_str(), port_id),
            ),
        };
        self.set_node_value(&node.id, ControlValue::Bool(next));
        if silent {
            ok_none()
        } else {
            ok_one(new_emission(&node.id, "value", ControlValue::Bool(next)))
        }
    }

    /// A value object receiving an event (see `stored_outcome`).
    fn apply_stored_event(
        &mut self,
        node: &GraphNode,
        request: RuntimeControlEventRequest,
        stored: ControlValue,
    ) -> (r: RuntimeControlEventResponse)
        ensures
            (final(self)@, r@) == stored_outcome(old(self)@, *node, request@, stored@),
    {
        let RuntimeControlEventRequest { node_id: _, port_id, value } = request;
        let id = &node.id;
        let kind = node.kind.as_str();
        if str_eq(port_id.as_str(), "set") {
            if str_eq(kind, MESSAGE_KIND) || str_eq(kind, COMMENT_KIND) || str_eq(kind, PANEL_KIND) {
                let next = message_text_from_value(&value);
                self.set_node_value(id, ControlValue::String(next));
                return ok_none();
            }
            if let Err(message) = ensure_value_type(&value, &stored, id.as_str()) {
                return RuntimeControlEventResponse::error(message);
            }
            self.set_node_value(id, value);
            ok_none()
        } else if str_eq(port_id.as_str(), "in") {
            if str_eq(kind, MESSAGE_KIND) {
                if let Some(next) = silent_set_message(&value) {
                    self.set_node_value(id, ControlValue::String(next));
                    return ok_none();
                }
                return ok_one(new_emission(id, "value", stored));
            }
            if str_eq(kind, TOGGLE_KIND) {
                return self.apply_toggle_event(node, "in", value, stored);
            }
            if let Err(message) = ensure_value_type(&value, &stored, id.as_str()) {
                return RuntimeControlEventResponse::error(message);
            }
            self.set_node_value(id, value.duplicate());
            ok_one(new_emission(id, "value", value))
        } else if str_eq(port_id.as_str(), "bang") {
            if !matches!(value, ControlValue::Bang) {
                return RuntimeControlEventResponse::error(
                    msg_port_expects_text(id.as_str(), "bang", "bang", value.kind_label()),
                );
            }
            if str_eq(kind, TOGGLE_KIND) {
                return self.apply_toggle_event(node, "bang", value, stored);
            }
            ok_one(new_emission(id, "value", stored))
        } else {
            RuntimeControlEventResponse::error(msg_bad_port_text(id.as_str(), port_id.as_str()))
        }
    }

    /// A UI slider receiving an event (see `slider_outcome`).
    fn apply_slider_event(&mut self, node: &GraphNode, request: RuntimeControlEventRequest) -> (r: RuntimeControlEventResponse)
        ensures
            (final(self)@, r@) == slider_outcome(old(self)@, *node, request@),
    {
        let RuntimeControlEventRequest { node_id: _, port_id, value } = request;
        let id = &node.id;
        if str_eq(port_id.as_str(), "set") {
            if !matches!(value, ControlValue::F32(_)) {
                return RuntimeControlEventResponse::error(
                    msg_port_expects_text(id.as_str(), "set", "f32", value.kind_label()),
                );
            }
            self.set_node_value(id, value);
            ok_none()
        } else if str_eq(port_id.as_str(), "in") || str_eq(port_id.as_str(), "value") {
            if !matches!(value, ControlValue::F32(_)) {
                return RuntimeControlEventResponse::error(
                    msg_port_expects_text(id.as_str(), port_id.as_str(), "f32", value.kind_label()),
                );
            }
            self.set_node_value(id, value.duplicate());
            ok_one(new_emission(id, "value", value))
        } else if str_eq(port_id.as_str(), "bang") {
            if !matches!(value, ControlValue::Bang) {
                return RuntimeControlEventResponse::error(
                    msg_port_expects_text(id.as_str(), "bang", "bang", value.kind_label()),
                );
            }
            match self.values.get(id.as_str()) {
                Some(v) => {
                    let v = v.duplicate();
                    ok_one(new_emission(id, "value", v))
                },
                None => RuntimeControlEventResponse::error(msg_no_state_text(id.as_str())),
            }
        } else {
            RuntimeControlEventResponse::error(msg_bad_port_text(id.as_str(), port_id.as_str()))
        }
    }

    /// A UI widget receiving an event (see `ui_outcome`).
    pub fn apply_ui_event(&mut self, node: &GraphNode, request: RuntimeControlEventRequest) -> (r: RuntimeControlEventResponse)
        ensures
            (final(self)@, r@) == ui_outcome(old(self)@, *node, request@),
    {
        let kind = node.kind.as_str();
        if str_eq(kind, UI_BUTTON_KIND) {
            if !str_eq(request.port_id.as_str(), "in") && !str_eq(request.port_id.as_str(), "bang") {
                return RuntimeControlEventResponse::error(
                    msg_bad_port_text(node.id.as_str(), request.port_id.as_str()),
                );
            }
            ok_one(new_emission(&node.id, "bang", ControlValue::Bang))
        } else if str_eq(kind, UI_SLIDER_F32_KIND) {
            self.apply_slider_event(node, request)
        } else if str_eq(kind, UI_TOGGLE_KIND) {
            let stored = match self.values.get(node.id.as_str()) {
                Some(v) => v.duplicate(),
                None => return RuntimeControlEventResponse::error(msg_no_state_text(node.id.as_str())),
            };
            let RuntimeControlEventRequest { node_id: _, port_id, value } = request;
            self.apply_toggle_event(node, port_id.as_str(), value, stored)
        } else {
            RuntimeControlEventResponse::error(msg_no_events_text(node.id.as_str(), kind))
        }
    }

    /// An event applied to the addressed node alone (see `direct_outcome`).
    fn apply_event_direct(&mut self, request: RuntimeControlEventRequest, graph: &GraphDocument) -> (r: RuntimeControlEventResponse)
        ensures
            (final(self)@, r@) == direct_outcome(old(self)@, request@, graph.nodes@),
            final(self)@.channels == old(self)@.channels,
            forall|k: Seq<char>| k != request@.node_id ==> (#[trigger] final(self)@.values.contains_key(k)
                <==> old(self)@.values.contains_key(k)),
            forall|k: Seq<char>| k != request@.node_id && old(self)@.values.contains_key(k)
                ==> #[trigger] final(self)@.values[k] == old(self)@.values[k],
    {
        proof {
            law_direct_step_touches_only_the_addressed_node(self@, request@, *graph);
            reveal(direct_outcome);
        }
        let i = match find_node(&graph.nodes, request.node_id.as_str()) {
            Some(i) => i,
            None => return RuntimeControlEventResponse::error(msg_missing_node_text(request.node_id.as_str())),
        };
        let node = &graph.nodes[i];
        if !supports_runtime_control_events(node.kind.as_str()) {
            return RuntimeControlEventResponse::error(
                msg_no_events_text(node.id.as_str(), node.kind.as_str()),
            );
        }
        if is_ui_control_kind(node.kind.as_str()) {
            return self.apply_ui_event(node, request);
        }
        let stored = match self.values.get(node.id.as_str()) {
            Some(v) => v.duplicate(),
            None => return RuntimeControlEventResponse::error(msg_no_state_text(node.id.as_str())),
        };
        if !has_input_port_exec(&node.ports, request.port_id.as_str()) {
            return RuntimeControlEventResponse::error(
                msg_bad_port_text(node.id.as_str(), request.port_id.as_str()),
            );
        }
        self.apply_stored_event(node, request, stored)
    }

    /// Values reach the objects that receive from the channel (see
    /// `receive_values`).
    fn apply_receive_name_updates(
        &mut self,
        data_kind: &str,
        channel: &String,
        value: &ControlValue,
        source_node_id: &str,
        graph: &GraphDocument,
    )
        ensures
            final(self)@.values == receive_values(old(self)@.values, data_kind@, channel@, value@, source_node_id@, graph.nodes@),
            final(self)@.channels == old(self)@.channels,
    {
        let ghost old_values = self@.values;
        let mut j: usize = 0;
        assert(receive_values(old_values, data_kind@, channel@, value@, source_node_id@, graph.nodes@.subrange(0, 0)) =~= old_values);
        while j < graph.nodes.len()
            invariant
                j <= graph.nodes@.len(),
                self@.values == receive_values(old_values, data_kind@, channel@, value@, source_node_id@, graph.nodes@.subrange(0, j as int)),
                self@.channels == old(self)@.channels,
            decreases graph.nodes.len() - j,
        {
            let node = &graph.nodes[j];
            proof {
                lemma_receive_step(old_values, data_kind@, channel@, value@, source_node_id@, graph.nodes@, j as int);
            }
            if !str_eq(node.id.as_str(), source_node_id) {
                match read_named_param(node, "receiveName") {
                    Some(name) => {
                        if name == *channel && object_accepts_data_kind(node.kind.as_str(), data_kind) {
                            self.values.insert(node.id.clone(), value.duplicate());
                        }
                    },
                    None => {},
                }
            }
            j = j + 1;
        }
        assert(graph.nodes@.subrange(0, graph.nodes@.len() as int) =~= graph.nodes@);
    }

    /// An emission published on its source's `sendName` channel (see
    /// `publish`).
    fn publish_object_channel(&mut self, emission: &RuntimeControlEmission, graph: &GraphDocument)
        ensures
            final(self)@ == publish(old(self)@, emission@, graph.nodes@),
    {
        proof {
            reveal(publish);
        }
        let i = match find_node(&graph.nodes, emission.node_id.as_str()) {
            Some(i) => i,
            None => return,
        };
        let source_node = &graph.nodes[i];
        let data_kind = data_kind_for_control_value(&emission.value);
        let channel_name = match read_named_param(source_node, "sendName") {
            Some(name) => name,
            None => return,
        };
        let mut key = concat2(data_kind, ":");
        key.append(channel_name.as_str());
        self.channels.insert(key, emission.value.duplicate());
        self.apply_receive_name_updates(
            data_kind,
            &channel_name,
            &emission.value,
            emission.node_id.as_str(),
            graph,
        );
    }
}


/// Whether a response is a plain success carrying its emissions.
pub open spec fn is_ok_form(r: ResponseView) -> bool {
    r.ok && r == ok_response(r.emitted)
}

/// Whether a response is a failure with a single error diagnostic.
pub open spec fn is_error_form(r: ResponseView) -> bool {
    !r.ok && exists|m: Seq<char>| r == error_response(m)
}

/// Whether every emission comes from node `id`, and there is at most one.
pub open spec fn from_node_only(e: Seq<EmissionView>, id: Seq<char>) -> bool {
    e.len() <= 1 && forall|k: int| 0 <= k < e.len() ==> #[trigger] e[k].node_id == id
}

pub proof fn lemma_toggle_form(s: ControlStateView, node: GraphNode, port: Seq<char>, value: ControlValueView, stored: ControlValueView)
    ensures
        is_ok_form(toggle_outcome(s, node, port, value, stored).1) || is_error_form(toggle_outcome(s, node, port, value, stored).1),
        !toggle_outcome(s, node, port, value, stored).1.ok ==> toggle_outcome(s, node, port, value, stored).0 == s,
        from_node_only(toggle_outcome(s, node, port, value, stored).1.emitted, node.id@),
{
}

/// An event on the addressed node either succeeds plainly or fails with one
/// error and leaves the state as it was.
pub proof fn lemma_direct_form(s: ControlStateView, req: RequestView, nodes: Seq<GraphNode>)
    ensures
        is_ok_form(direct_outcome(s, req, nodes).1) || is_error_form(direct_outcome(s, req, nodes).1),
        !direct_outcome(s, req, nodes).1.ok ==> direct_outcome(s, req, nodes).0 == s,
        from_node_only(direct_outcome(s, req, nodes).1.emitted, req.node_id),
{
    reveal(direct_outcome);
    match find_node_index(nodes, req.node_id) {
        None => {},
        Some(i) => {
            crate::contract::lemma_find_node_index_spec(nodes, req.node_id);
            let node = nodes[i];
            assert(node.id@ == req.node_id);
            if supports_runtime_control_events_spec(node.kind@) {
                if is_ui_control_kind_spec(node.kind@) {
                    if node.kind@ == UI_TOGGLE_KIND@ && s.values.contains_key(node.id@) {
                        lemma_toggle_form(s, node, req.port_id, req.value, s.values[node.id@]);
                    }
                } else if s.values.contains_key(node.id@) && has_input_port(node.ports@, req.port_id) {
                    lemma_toggle_form(s, node, "in"@, req.value, s.values[node.id@]);
                    lemma_toggle_form(s, node, "bang"@, req.value, s.values[node.id@]);
                }
            }
        },
    }
}

impl ControlState {
    /// Delivers an emission along `graph.edges[j]` (see `fan_out_step`); a
    /// rejected delivery is returned.
    fn deliver_along_edge(
        &mut self,
        j: usize,
        em: &RuntimeControlEmission,
        queue: &mut Vec<RuntimeControlEmission>,
        emitted: &mut Vec<RuntimeControlEmission>,
        graph: &GraphDocument,
    ) -> (r: Option<RuntimeControlEventResponse>)
        requires
            j < graph.edges@.len(),
        ensures
            ({
                let next = fan_out_step(
                    Propagation { state: old(self)@, queue: emission_views(old(queue)@), emitted: emission_views(old(emitted)@), failure: None },
                    em@,
                    graph.nodes@,
                    graph.edges@,
                    j as int,
                );
                &&& r is None ==> next == Propagation { state: final(self)@, queue: emission_views(final(queue)@), emitted: emission_views(final(emitted)@), failure: None }
                &&& r matches Some(f) ==> next.failure == Some(f@) && next.state == final(self)@
            }),
    {
        proof {
            reveal(fan_out_step);
        }
        let edge = &graph.edges[j];
        if str_eq(edge.from.node.as_str(), em.node_id.as_str()) && str_eq(edge.from.port.as_str(), em.port_id.as_str()) {
            match find_node(&graph.nodes, edge.to.node.as_str()) {
                None => {},
                Some(t) => {
                    let target_node = &graph.nodes[t];
                    if supports_runtime_control_events(target_node.kind.as_str()) {
                        let request = RuntimeControlEventRequest {
                            node_id: target_node.id.clone(),
                            port_id: edge.to.port.clone(),
                            value: em.value.duplicate(),
                        };
                        let target_response = self.apply_event_direct(request, graph);
                        if !target_response.ok {
                            return Some(target_response);
                        }
                        let ghost qb = emission_views(queue@);
                        let ghost eb = emission_views(emitted@);
                        let mut k: usize = 0;
                        while k < target_response.emitted.len()
                            invariant
                                k <= target_response.emitted@.len(),
                                emission_views(queue@) == qb + emission_views(target_response.emitted@).subrange(0, k as int),
                                emission_views(emitted@) == eb + emission_views(target_response.emitted@).subrange(0, k as int),
                            decreases target_response.emitted.len() - k,
                        {
                            let ghost qk = queue@;
                            let ghost ek = emitted@;
                            queue.push(target_response.emitted[k].duplicate());
                            emitted.push(target_response.emitted[k].duplicate());
                            proof {
                                let tv = emission_views(target_response.emitted@);
                                assert(emission_views(queue@) =~= emission_views(qk).push(tv[k as int]));
                                assert(emission_views(emitted@) =~= emission_views(ek).push(tv[k as int]));
                                assert(tv.subrange(0, k + 1) =~= tv.subrange(0, k as int).push(tv[k as int]));
                            }
                            k = k + 1;
                        }
                        proof {
                            let tv = emission_views(target_response.emitted@);
                            assert(tv.subrange(0, tv.len() as int) =~= tv);
                        }
                    }
                },
            }
        }
        None
    }

    /// The forwarding loop (see `propagate_from`).
    fn propagate_emissions(&mut self, response: RuntimeControlEventResponse, graph: &GraphDocument) -> (r: RuntimeControlEventResponse)
        requires
            is_ok_form(response@),
        ensures
            (final(self)@, r@) == propagate_from(
                Propagation { state: old(self)@, queue: response@.emitted, emitted: response@.emitted, failure: None },
                graph.nodes@,
                graph.edges@,
                0,
                safety_limit(graph.edges@.len()),
            ),
    {
        let ghost nodes = graph.nodes@;
        let ghost edges = graph.edges@;
        let n = graph.edges.len();
        let doubled: usize = if n > usize::MAX / 2 {
            usize::MAX
        } else {
            n * 2
        };
        let limit: usize = if doubled > 32 {
            doubled
        } else {
            32
        };
        assert(limit == safety_limit(edges.len()));
        let ghost initial = response@.emitted;
        let mut emitted = response.emitted;
        let mut queue = copy_emissions(&emitted);
        let mut visited: usize = 0;
        let ghost goal = propagate_from(
            Propagation { state: self@, queue: emission_views(queue@), emitted: emission_views(emitted@), failure: None },
            nodes,
            edges,
            0,
            limit as int,
        );
        assert(goal == propagate_from(
            Propagation { state: old(self)@, queue: initial, emitted: initial, failure: None },
            graph.nodes@,
            graph.edges@,
            0,
            safety_limit(graph.edges@.len()),
        ));
        loop
            invariant
                nodes == graph.nodes@,
                edges == graph.edges@,
                visited <= limit,
                initial == response@.emitted,
                limit == safety_limit(edges.len()),
                goal == propagate_from(
                    Propagation { state: old(self)@, queue: initial, emitted: initial, failure: None },
                    nodes,
                    edges,
                    0,
                    limit as int,
                ),
                goal == propagate_from(
                    Propagation { state: self@, queue: emission_views(queue@), emitted: emission_views(emitted@), failure: None },
                    nodes,
                    edges,
                    visited as int,
                    limit as int,
                ),
            decreases limit - visited,
        {
            let ghost q0 = emission_views(queue@);
            let em = match queue.pop() {
                Some(e) => e,
                None => {
                    assert(q0.len() == 0);
                    return RuntimeControlEventResponse::ok(emitted);
                },
            };
            proof {
                assert(emission_views(queue@) =~= q0.drop_last());
                assert(em@ == q0.last());
            }
            self.publish_object_channel(&em, graph);
            if visited >= limit {
                return RuntimeControlEventResponse::error(owned(
                    "control event propagation exceeded the v0 runtime safety limit",
                ));
            }
            let ghost p0 = Propagation { state: self@, queue: emission_views(queue@), emitted: emission_views(emitted@), failure: None };
            let mut j: usize = 0;
            while j < graph.edges.len()
                invariant
                    nodes == graph.nodes@,
                    edges == graph.edges@,
                    visited < limit,
                    initial == response@.emitted,
                    limit == safety_limit(edges.len()),
                    goal == propagate_from(
                        Propagation { state: old(self)@, queue: initial, emitted: initial, failure: None },
                        nodes,
                        edges,
                        0,
                        limit as int,
                    ),
                    j <= edges.len(),
                    goal == match fan_out(p0, em@, nodes, edges, 0).failure {
                        Some(r) => (fan_out(p0, em@, nodes, edges, 0).state, r),
                        None => propagate_from(fan_out(p0, em@, nodes, edges, 0), nodes, edges, visited + 1, limit as int),
                    },
                    fan_out(p0, em@, nodes, edges, 0) == fan_out(
                        Propagation { state: self@, queue: emission_views(queue@), emitted: emission_views(emitted@), failure: None },
                        em@,
                        nodes,
                        edges,
                        j as int,
                    ),
                decreases graph.edges.len() - j,
            {
                let ghost cur = Propagation { state: self@, queue: emission_views(queue@), emitted: emission_views(emitted@), failure: None };
                let ghost next = fan_out_step(cur, em@, nodes, edges, j as int);
                let delivered = self.deliver_along_edge(j, &em, &mut queue, &mut emitted, graph);
                proof {
                    assert(fan_out(cur, em@, nodes, edges, j as int) == fan_out(next, em@, nodes, edges, j + 1));
                }
                if let Some(failure) = delivered {
                    proof {
                        assert(fan_out(next, em@, nodes, edges, j + 1) == next);
                    }
                    return failure;
                }
                j = j + 1;
            }
            visited = visited + 1;
        }
    }

    /// Applies an event to a graph: the addressed control object reacts, and
    /// when it accepts the event its emissions are published on named
    /// channels and forwarded along the graph's edges (see `event_outcome`).
    pub fn apply_event(&mut self, request: RuntimeControlEventRequest, graph: &GraphDocument) -> (r: RuntimeControlEventResponse)
        ensures
            (final(self)@, r@) == event_outcome(old(self)@, request@, *graph),
    {
        proof {
            lemma_direct_form(self@, request@, graph.nodes@);
        }
        let response = self.apply_event_direct(request, graph);
        if !response.ok {
            return response;
        }
        self.propagate_emissions(response, graph)
    }
}


// ---------------------------------------------------------------------------
// Laws of the event machine.
// ---------------------------------------------------------------------------

/// `a` is a prefix of `b`.
pub open spec fn is_prefix<A>(a: Seq<A>, b: Seq<A>) -> bool {
    a.len() <= b.len() && b.subrange(0, a.len() as int) == a
}

proof fn lemma_fan_out_form(st: Propagation, em: EmissionView, nodes: Seq<GraphNode>, edges: Seq<Edge>, j: int)
    requires
        st.failure matches Some(r) ==> is_error_form(r),
    ensures
        fan_out(st, em, nodes, edges, j).failure matches Some(r) ==> is_error_form(r),
        is_prefix(st.emitted, fan_out(st, em, nodes, edges, j).emitted),
    decreases edges.len() - j,
{
    if j < 0 || j >= edges.len() || st.failure is Some {
        assert(st.emitted.subrange(0, st.emitted.len() as int) =~= st.emitted);
    } else {
        reveal(fan_out_step);
        let e = edges[j];
        if e.from.node@ == em.node_id && e.from.port@ == em.port_id {
            match find_node_index(nodes, e.to.node@) {
                None => {},
                Some(t) => {
                    lemma_direct_form(
                        st.state,
                        RequestView { node_id: nodes[t].id@, port_id: e.to.port@, value: em.value },
                        nodes,
                    );
                },
            }
        }
        let next = fan_out_step(st, em, nodes, edges, j);
        assert(is_prefix(st.emitted, next.emitted)) by {
            assert(next.emitted.subrange(0, st.emitted.len() as int) =~= st.emitted);
        }
        lemma_fan_out_form(next, em, nodes, edges, j + 1);
        let last = fan_out(next, em, nodes, edges, j + 1);
        assert(last.emitted.subrange(0, st.emitted.len() as int) =~= next.emitted.subrange(0, st.emitted.len() as int));
    }
}

proof fn lemma_propagate_form(st: Propagation, nodes: Seq<GraphNode>, edges: Seq<Edge>, visited: int, limit: int)
    requires
        st.failure is None,
    ensures
        ({
            let r = propagate_from(st, nodes, edges, visited, limit).1;
            (is_ok_form(r) && is_prefix(st.emitted, r.emitted)) || is_error_form(r)
        }),
    decreases limit + 1 - visited,
{
    if st.queue.len() == 0 {
        assert(st.emitted.subrange(0, st.emitted.len() as int) =~= st.emitted);
    } else if visited < 0 || visited > limit {
    } else {
        let em = st.queue.last();
        let s1 = publish(st.state, em, nodes);
        if visited + 1 > limit {
        } else {
            let p0 = Propagation { state: s1, queue: st.queue.drop_last(), emitted: st.emitted, failure: None };
            lemma_fan_out_form(p0, em, nodes, edges, 0);
            let st2 = fan_out(p0, em, nodes, edges, 0);
            if st2.failure is None {
                lemma_propagate_form(st2, nodes, edges, visited + 1, limit);
                let r = propagate_from(st2, nodes, edges, visited + 1, limit).1;
                if is_ok_form(r) {
                    assert(r.emitted.subrange(0, st.emitted.len() as int) =~= r.emitted.subrange(0, st2.emitted.len() as int).subrange(0, st.emitted.len() as int));
                }
            }
        }
    }
}

/// Every answer to an event is either a plain success, whose emissions begin
/// with those of the addressed object, or a failure that carries exactly one
/// error diagnostic and no emission.
pub proof fn law_event_response_shape(s: ControlStateView, req: RequestView, graph: GraphDocument)
    ensures
        ({
            let r = event_outcome(s, req, graph).1;
            &&& r.ok ==> r.diagnostics.len() == 0 && r.changed == false && r.control_revision is None
                && is_prefix(direct_outcome(s, req, graph.nodes@).1.emitted, r.emitted)
            &&& !r.ok ==> r.emitted.len() == 0 && r.diagnostics.len() == 1
                && r.diagnostics[0].severity == crate::diagnostic::DiagnosticSeverity::Error
        }),
{
    lemma_direct_form(s, req, graph.nodes@);
    let direct = direct_outcome(s, req, graph.nodes@);
    if direct.1.ok {
        lemma_propagate_form(
            Propagation { state: direct.0, queue: direct.1.emitted, emitted: direct.1.emitted, failure: None },
            graph.nodes@,
            graph.edges@,
            0,
            safety_limit(graph.edges@.len()),
        );
    }
}

/// An event that the addressed object rejects (unknown node, unsupported
/// port, wrong value type, ...) leaves the control state unchanged.
pub proof fn law_rejected_event_keeps_state(s: ControlStateView, req: RequestView, graph: GraphDocument)
    requires
        !direct_outcome(s, req, graph.nodes@).1.ok,
    ensures
        event_outcome(s, req, graph).0 == s,
        !event_outcome(s, req, graph).1.ok,
{
    lemma_direct_form(s, req, graph.nodes@);
}

proof fn lemma_fan_out_idle(st: Propagation, em: EmissionView, nodes: Seq<GraphNode>, edges: Seq<Edge>, j: int)
    requires
        forall|k: int| 0 <= k < edges.len() ==> #[trigger] edges[k].from.node@ != em.node_id,
    ensures
        fan_out(st, em, nodes, edges, j) == st,
    decreases edges.len() - j,
{
    if j < 0 || j >= edges.len() || st.failure is Some {
    } else {
        reveal(fan_out_step);
        assert(edges[j].from.node@ != em.node_id);
        lemma_fan_out_idle(st, em, nodes, edges, j + 1);
    }
}

proof fn lemma_quiet_propagation(st: Propagation, nodes: Seq<GraphNode>, edges: Seq<Edge>, visited: int, limit: int, id: Seq<char>)
    requires
        st.failure is None,
        forall|k: int| 0 <= k < st.queue.len() ==> #[trigger] st.queue[k].node_id == id,
        forall|k: int| 0 <= k < edges.len() ==> #[trigger] edges[k].from.node@ != id,
        find_node_index(nodes, id) matches Some(i) ==> named_param(nodes[i], "sendName"@) is None,
        0 <= visited,
        visited + st.queue.len() <= limit,
    ensures
        propagate_from(st, nodes, edges, visited, limit) == (st.state, ok_response(st.emitted)),
    decreases st.queue.len(),
{
    if st.queue.len() == 0 {
    } else {
        let em = st.queue.last();
        assert(em.node_id == id);
        reveal(publish);
        let s1 = publish(st.state, em, nodes);
        assert(s1 == st.state);
        let p0 = Propagation { state: s1, queue: st.queue.drop_last(), emitted: st.emitted, failure: None };
        lemma_fan_out_idle(p0, em, nodes, edges, 0);
        lemma_quiet_propagation(p0, nodes, edges, visited + 1, limit, id);
    }
}

/// When nothing leaves the addressed object (no edge starts at it and it
/// names no `sendName` channel), an event it accepts is answered exactly as
/// the object itself answers it: forwarding adds nothing.
pub proof fn law_quiet_object_answers_directly(s: ControlStateView, req: RequestView, graph: GraphDocument)
    requires
        forall|k: int| 0 <= k < graph.edges@.len() ==> #[trigger] graph.edges@[k].from.node@ != req.node_id,
        find_node_index(graph.nodes@, req.node_id) matches Some(i) ==> named_param(graph.nodes@[i], "sendName"@) is None,
    ensures
        event_outcome(s, req, graph) == direct_outcome(s, req, graph.nodes@),
{
    lemma_direct_form(s, req, graph.nodes@);
    let direct = direct_outcome(s, req, graph.nodes@);
    if direct.1.ok {
        lemma_quiet_propagation(
            Propagation { state: direct.0, queue: direct.1.emitted, emitted: direct.1.emitted, failure: None },
            graph.nodes@,
            graph.edges@,
            0,
            safety_limit(graph.edges@.len()),
            req.node_id,
        );
    }
}

/// `set` on a value object stores a value of its type silently: nothing is
/// emitted, published or forwarded.
pub proof fn law_set_stores_silently(s: ControlStateView, req: RequestView, graph: GraphDocument, i: int)
    requires
        find_node_index(graph.nodes@, req.node_id) == Some(i),
        crate::control_value::is_control_value_kind_spec(graph.nodes@[i].kind@),
        !is_message_like(graph.nodes@[i].kind@),
        s.values.contains_key(req.node_id),
        has_input_port(graph.nodes@[i].ports@, "set"@),
        req.port_id == "set"@,
        same_type(req.value, s.values[req.node_id]),
    ensures
        event_outcome(s, req, graph) == (set_value(s, req.node_id, req.value), ok_response(Seq::empty())),
{
    reveal(direct_outcome);
    reveal_strlit("set");
    reveal_strlit("in");
    reveal_strlit("bang");
    crate::contract::lemma_find_node_index_spec(graph.nodes@, req.node_id);
    crate::control_value::lemma_control_kinds_are_not_ui(graph.nodes@[i].kind@);
}

/// A `bang` on a number, colour or string object re-emits its stored value
/// on `value` and changes nothing.
pub proof fn law_bang_reemits_stored_value(s: ControlStateView, req: RequestView, graph: GraphDocument, i: int)
    requires
        find_node_index(graph.nodes@, req.node_id) == Some(i),
        crate::control_value::is_control_value_kind_spec(graph.nodes@[i].kind@),
        graph.nodes@[i].kind@ != TOGGLE_KIND@,
        s.values.contains_key(req.node_id),
        has_input_port(graph.nodes@[i].ports@, "bang"@),
        req.port_id == "bang"@,
        req.value == ControlValueView::Bang,
    ensures
        direct_outcome(s, req, graph.nodes@) == (s, ok_response(seq![emission(req.node_id, "value"@, s.values[req.node_id])])),
{
    reveal(direct_outcome);
    reveal_strlit("set");
    reveal_strlit("in");
    reveal_strlit("bang");
    crate::contract::lemma_find_node_index_spec(graph.nodes@, req.node_id);
    crate::control_value::lemma_control_kinds_are_not_ui(graph.nodes@[i].kind@);
}

/// A `bang` flips a toggle and emits the new state.
pub proof fn law_toggle_bang_flips(s: ControlStateView, req: RequestView, graph: GraphDocument, i: int, current: bool)
    requires
        find_node_index(graph.nodes@, req.node_id) == Some(i),
        graph.nodes@[i].kind@ == TOGGLE_KIND@ || graph.nodes@[i].kind@ == UI_TOGGLE_KIND@,
        s.values.contains_key(req.node_id),
        s.values[req.node_id] == ControlValueView::Bool(current),
        graph.nodes@[i].kind@ == TOGGLE_KIND@ ==> has_input_port(graph.nodes@[i].ports@, "bang"@),
        req.port_id == "bang"@,
        req.value == ControlValueView::Bang,
    ensures
        direct_outcome(s, req, graph.nodes@) == (
            set_value(s, req.node_id, ControlValueView::Bool(!current)),
            ok_response(seq![emission(req.node_id, "value"@, ControlValueView::Bool(!current))]),
        ),
{
    reveal(direct_outcome);
    reveal_strlit("set");
    reveal_strlit("in");
    reveal_strlit("bang");
    crate::contract::lemma_find_node_index_spec(graph.nodes@, req.node_id);
    crate::control_value::lemma_control_kinds_are_not_ui(graph.nodes@[i].kind@);
}

/// An emission on the `value` or `bang` port of a node of the graph.
pub open spec fn emission_on_graph(e: EmissionView, nodes: Seq<GraphNode>) -> bool {
    &&& (e.port_id == "value"@ || e.port_id == "bang"@)
    &&& exists|j: int| 0 <= j < nodes.len() && #[trigger] nodes[j].id@ == e.node_id
}

/// Every emission is on the `value` or `bang` port of a node of the graph.
pub open spec fn all_on_graph(es: Seq<EmissionView>, nodes: Seq<GraphNode>) -> bool {
    forall|k: int| 0 <= k < es.len() ==> emission_on_graph(#[trigger] es[k], nodes)
}

proof fn lemma_concat_on_graph(a: Seq<EmissionView>, b: Seq<EmissionView>, nodes: Seq<GraphNode>)
    requires
        all_on_graph(a, nodes),
        all_on_graph(b, nodes),
    ensures
        all_on_graph(a + b, nodes),
{
    assert forall|k: int| 0 <= k < (a + b).len() implies emission_on_graph(#[trigger] (a + b)[k], nodes) by {
        if k < a.len() {
            assert((a + b)[k] == a[k]);
        } else {
            assert((a + b)[k] == b[k - a.len()]);
        }
    }
}

/// The addressed node's own reaction: its emissions are on the `value` or
/// `bang` port of a graph node, it touches no channel, and it changes no
/// value but the addressed node's.
proof fn lemma_direct_scope(s: ControlStateView, req: RequestView, nodes: Seq<GraphNode>)
    ensures
        all_on_graph(direct_outcome(s, req, nodes).1.emitted, nodes),
        direct_outcome(s, req, nodes).0.channels == s.channels,
        direct_outcome(s, req, nodes).0.values.remove(req.node_id) == s.values.remove(req.node_id),
{
    reveal(direct_outcome);
    lemma_direct_form(s, req, nodes);
    let out = direct_outcome(s, req, nodes);
    match find_node_index(nodes, req.node_id) {
        None => {},
        Some(i) => {
            crate::contract::lemma_find_node_index_spec(nodes, req.node_id);
            let node = nodes[i];
            assert(node.id@ == req.node_id);
            assert forall|k: int| 0 <= k < out.1.emitted.len() implies emission_on_graph(#[trigger] out.1.emitted[k], nodes) by {
                assert(nodes[i].id@ == out.1.emitted[k].node_id);
            }
            assert(out.0.values.remove(req.node_id) =~= s.values.remove(req.node_id));
        },
    }
}

proof fn lemma_fan_out_on_graph(st: Propagation, em: EmissionView, nodes: Seq<GraphNode>, edges: Seq<Edge>, j: int)
    requires
        all_on_graph(st.queue, nodes),
        all_on_graph(st.emitted, nodes),
    ensures
        all_on_graph(fan_out(st, em, nodes, edges, j).queue, nodes),
        all_on_graph(fan_out(st, em, nodes, edges, j).emitted, nodes),
    decreases edges.len() - j,
{
    if j < 0 || j >= edges.len() || st.failure is Some {
    } else {
        reveal(fan_out_step);
        let e = edges[j];
        if e.from.node@ == em.node_id && e.from.port@ == em.port_id {
            match find_node_index(nodes, e.to.node@) {
                None => {},
                Some(t) => {
                    let req = RequestView { node_id: nodes[t].id@, port_id: e.to.port@, value: em.value };
                    lemma_direct_scope(st.state, req, nodes);
                    let out = direct_outcome(st.state, req, nodes);
                    lemma_concat_on_graph(st.queue, out.1.emitted, nodes);
                    lemma_concat_on_graph(st.emitted, out.1.emitted, nodes);
                },
            }
        }
        lemma_fan_out_on_graph(fan_out_step(st, em, nodes, edges, j), em, nodes, edges, j + 1);
    }
}

proof fn lemma_propagate_on_graph(st: Propagation, nodes: Seq<GraphNode>, edges: Seq<Edge>, visited: int, limit: int)
    requires
        st.failure is None,
        all_on_graph(st.queue, nodes),
        all_on_graph(st.emitted, nodes),
    ensures
        all_on_graph(propagate_from(st, nodes, edges, visited, limit).1.emitted, nodes),
    decreases limit + 1 - visited,
{
    if st.queue.len() == 0 {
    } else if visited < 0 || visited > limit {
    } else {
        let em = st.queue.last();
        let s1 = publish(st.state, em, nodes);
        if visited + 1 > limit {
        } else {
            let q = st.queue.drop_last();
            assert forall|k: int| 0 <= k < q.len() implies emission_on_graph(#[trigger] q[k], nodes) by {
                assert(q[k] == st.queue[k]);
            }
            let p0 = Propagation { state: s1, queue: q, emitted: st.emitted, failure: None };
            lemma_fan_out_on_graph(p0, em, nodes, edges, 0);
            lemma_fan_out_form(p0, em, nodes, edges, 0);
            let st2 = fan_out(p0, em, nodes, edges, 0);
            if st2.failure is None {
                lemma_propagate_on_graph(st2, nodes, edges, visited + 1, limit);
            }
        }
    }
}

/// What every answer to an event looks like: it succeeds exactly when it
/// carries no diagnostic; it reports no change and no control revision; a
/// refused event emits nothing and carries one diagnostic; the first emission
/// of an accepted event comes from the addressed node; and every emission is
/// on the `value` or `bang` port of a node of the graph.
pub proof fn law_event_response_fields(s: ControlStateView, req: RequestView, graph: GraphDocument)
    ensures
        ({
            let r = event_outcome(s, req, graph).1;
            &&& r.ok <==> r.diagnostics.len() == 0
            &&& !r.changed && r.control_revision is None
            &&& !r.ok ==> r.emitted.len() == 0 && r.diagnostics.len() == 1
            &&& r.ok && r.emitted.len() > 0 ==> r.emitted[0].node_id == req.node_id
            &&& all_on_graph(r.emitted, graph.nodes@)
        }),
{
    law_event_response_shape(s, req, graph);
    lemma_direct_form(s, req, graph.nodes@);
    lemma_direct_scope(s, req, graph.nodes@);
    let direct = direct_outcome(s, req, graph.nodes@);
    let r = event_outcome(s, req, graph).1;
    if direct.1.ok {
        let st = Propagation { state: direct.0, queue: direct.1.emitted, emitted: direct.1.emitted, failure: None };
        let limit = safety_limit(graph.edges@.len());
        lemma_propagate_form(st, graph.nodes@, graph.edges@, 0, limit);
        lemma_propagate_on_graph(st, graph.nodes@, graph.edges@, 0, limit);
        if r.ok && r.emitted.len() > 0 {
            if direct.1.emitted.len() == 0 {
                assert(r.emitted.len() == 0);
            } else {
                assert(r.emitted.subrange(0, direct.1.emitted.len() as int)[0] == r.emitted[0]);
                assert(direct.1.emitted[0].node_id == req.node_id);
            }
        }
    }
}

/// The addressed node's own reaction to an event (what `apply_event` does
/// before anything is forwarded) changes no value but the addressed node's
/// and never touches a channel.
pub proof fn law_direct_step_touches_only_the_addressed_node(s: ControlStateView, req: RequestView, graph: GraphDocument)
    ensures
        direct_outcome(s, req, graph.nodes@).0.channels == s.channels,
        forall|k: Seq<char>| k != req.node_id ==> (#[trigger] direct_outcome(s, req, graph.nodes@).0.values.contains_key(k)
            <==> s.values.contains_key(k)),
        forall|k: Seq<char>| k != req.node_id && s.values.contains_key(k) ==> #[trigger] direct_outcome(s, req, graph.nodes@).0.values[k]
            == s.values[k],
{
    lemma_direct_scope(s, req, graph.nodes@);
    let out = direct_outcome(s, req, graph.nodes@).0;
    assert forall|k: Seq<char>| k != req.node_id implies (#[trigger] out.values.contains_key(k) <==> s.values.contains_key(k)) by {
        assert(out.values.remove(req.node_id).contains_key(k) == out.values.contains_key(k));
        assert(s.values.remove(req.node_id).contains_key(k) == s.values.contains_key(k));
    }
    assert forall|k: Seq<char>| k != req.node_id && s.values.contains_key(k) implies #[trigger] out.values[k] == s.values[k] by {
        assert(out.values.remove(req.node_id)[k] == out.values[k]);
        assert(s.values.remove(req.node_id)[k] == s.values[k]);
    }
}

/// A toggle's `in` port switches it absolutely: integer `1`, `true`, the
/// float `1.0`, or the string `1`, `on` or `true` switch it on, and integer
/// `0`, `false`, the float `0.0` (either sign), or `0`, `off` or `false`
/// switch it off, whatever its current state; the new state is stored and
/// emitted on `value`. (Only a bang flips it.)
pub proof fn law_toggle_in_switches_absolutely(s: ControlStateView, req: RequestView, graph: GraphDocument, i: int, current: bool)
    requires
        find_node_index(graph.nodes@, req.node_id) == Some(i),
        graph.nodes@[i].kind@ == TOGGLE_KIND@,
        s.values.contains_key(req.node_id),
        s.values[req.node_id] == ControlValueView::Bool(current),
        has_input_port(graph.nodes@[i].ports@, "in"@),
        req.port_id == "in"@,
    ensures
        ({
            let out = direct_outcome(s, req, graph.nodes@);
            let on = req.value == ControlValueView::I32(1) || req.value == ControlValueView::Bool(true)
                || (req.value is F32 && req.value->F32_0.bits == 0x3f80_0000u32)
                || req.value == ControlValueView::Str("1"@) || req.value == ControlValueView::Str("on"@)
                || req.value == ControlValueView::Str("true"@);
            let off = req.value == ControlValueView::I32(0) || req.value == ControlValueView::Bool(false)
                || (req.value is F32 && (req.value->F32_0.bits == 0u32 || req.value->F32_0.bits == 0x8000_0000u32))
                || req.value == ControlValueView::Str("0"@) || req.value == ControlValueView::Str("off"@)
                || req.value == ControlValueView::Str("false"@);
            &&& on ==> out.0.values == s.values.insert(req.node_id, ControlValueView::Bool(true))
                && out.0.channels == s.channels && out.1.ok
                && out.1.emitted == seq![EmissionView { node_id: req.node_id, port_id: "value"@, value: ControlValueView::Bool(true) }]
            &&& off ==> out.0.values == s.values.insert(req.node_id, ControlValueView::Bool(false))
                && out.0.channels == s.channels && out.1.ok
                && out.1.emitted == seq![EmissionView { node_id: req.node_id, port_id: "value"@, value: ControlValueView::Bool(false) }]
        }),
{
    reveal(direct_outcome);
    reveal_strlit("set");
    reveal_strlit("in");
    reveal_strlit("bang");
    crate::contract::lemma_find_node_index_spec(graph.nodes@, req.node_id);
    crate::control_value::lemma_control_kinds_are_not_ui(graph.nodes@[i].kind@);
    assert(TOGGLE_KIND@ != MESSAGE_KIND@) by {
        reveal_strlit("core.toggle");
        reveal_strlit("core.message");
        assert(TOGGLE_KIND@.len() != MESSAGE_KIND@.len());
    }
    lemma_toggle_words();
    assert("on"@ != "0"@ && "on"@ != "off"@ && "on"@ != "false"@ && "1"@ != "0"@ && "1"@ != "off"@
        && "1"@ != "false"@ && "true"@ != "0"@ && "true"@ != "off"@ && "true"@ != "false"@) by {
        reveal_strlit("on");
        reveal_strlit("1");
        reveal_strlit("true");
        reveal_strlit("0");
        reveal_strlit("off");
        reveal_strlit("false");
        assert("on"@[1] != "off"@[1]);
    }
}

/// The toggle words of the plain strings `0`, `off`, `false`, `1`, `on`
/// and `true` are those strings.
proof fn lemma_toggle_words()
    ensures
        toggle_word("0"@) == "0"@,
        toggle_word("off"@) == "off"@,
        toggle_word("false"@) == "false"@,
        toggle_word("1"@) == "1"@,
        toggle_word("on"@) == "on"@,
        toggle_word("true"@) == "true"@,
{
    assert(plain_word("0"@)) by {
        reveal_strlit("0");
        reveal_strlit("set ");
        assert("0"@.len() < 4 || "0"@[0] != "set "@[0]);
    }
    lemma_plain_toggle_word("0"@);
    assert(plain_word("off"@)) by {
        reveal_strlit("off");
        reveal_strlit("set ");
        assert("off"@.len() < 4 || "off"@[0] != "set "@[0]);
    }
    lemma_plain_toggle_word("off"@);
    assert(plain_word("false"@)) by {
        reveal_strlit("false");
        reveal_strlit("set ");
        assert("false"@.len() < 4 || "false"@[0] != "set "@[0]);
    }
    lemma_plain_toggle_word("false"@);
    assert(plain_word("1"@)) by {
        reveal_strlit("1");
        reveal_strlit("set ");
        assert("1"@.len() < 4 || "1"@[0] != "set "@[0]);
    }
    lemma_plain_toggle_word("1"@);
    assert(plain_word("on"@)) by {
        reveal_strlit("on");
        reveal_strlit("set ");
        assert("on"@.len() < 4 || "on"@[0] != "set "@[0]);
    }
    lemma_plain_toggle_word("on"@);
    assert(plain_word("true"@)) by {
        reveal_strlit("true");
        reveal_strlit("set ");
        assert("true"@.len() < 4 || "true"@[0] != "set "@[0]);
    }
    lemma_plain_toggle_word("true"@);
}

/// A non-empty word of no white space and no upper-case ASCII letter that
/// does not start with `set `.
pub open spec fn plain_word(w: Seq<char>) -> bool {
    &&& w.len() > 0
    &&& forall|k: int| 0 <= k < w.len() ==> !crate::text::is_white_space(#[trigger] w[k]) && !('A' <= w[k] && w[k] <= 'Z')
    &&& (w.len() < 4 || w[0] != 's')
}

proof fn lemma_plain_toggle_word(w: Seq<char>)
    requires
        plain_word(w),
    ensures
        toggle_word(w) == w,
{
    reveal_strlit("set ");
    if 4 <= w.len() {
        assert(w.subrange(0, 4)[0] == w[0]);
    }
    assert(strip_prefix(w, "set "@) is None);
    assert(crate::text::skip_white_space(w, 0) == 0);
    assert(crate::text::trim_end_index(w, 0, w.len() as int) == w.len());
    assert(trim(w) =~= w);
    assert(ascii_lowercase(w) =~= w);
}

} // verus!
