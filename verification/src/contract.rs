//! The Skenion node-definition and graph-document data model (v0.1).
//!
//! Numbers that JSON documents write as floating point are held by their IEEE
//! bit patterns together with the text that `Display` gives for them: the
//! runtime logic only stores, compares and prints them.
use vstd::prelude::*;
use crate::text::{str_eq, string_views};
use crate::control_value::F32View;

verus! {

/// How values travel along a port.
#[derive(Debug, Clone, Copy, PartialEq, Eq, Structural)]
pub enum DataFlow {
    Value,
    Event,
    Signal,
    Stream,
    Resource,
}

/// Whether a port receives or produces data.
#[derive(Debug, Clone, Copy, PartialEq, Eq, Structural)]
pub enum PortDirection {
    Input,
    Output,
}

/// Whether an input triggers evaluation or only latches its value.
#[derive(Debug, Clone, Copy, PartialEq, Eq, Structural)]
pub enum PortActivation {
    Trigger,
    Latched,
}

/// The scheduling model of a node.
#[derive(Debug, Clone, Copy, PartialEq, Eq, Structural)]
pub enum ExecutionModel {
    Event,
    Value,
    Frame,
    AudioBlock,
    VideoFrame,
    GpuPass,
    AsyncResource,
    ScriptControl,
    NativePlugin,
}

/// A 32-bit float: its bit pattern and its `Display` text.
#[derive(Debug, Clone, PartialEq, Eq)]
pub struct F32Value {
    pub bits: u32,
    pub text: String,
}

/// A 64-bit float: its bit pattern and its `Display` text.
#[derive(Debug, Clone, PartialEq, Eq)]
pub struct F64Value {
    pub bits: u64,
    pub text: String,
}

/// The view of a 64-bit float: bit pattern and display text.
pub struct F64View {
    pub bits: u64,
    pub text: Seq<char>,
}

impl View for F64Value {
    type V = F64View;

    open spec fn view(&self) -> F64View {
        F64View { bits: self.bits, text: self.text@ }
    }
}

/// A float with the same view.
pub fn copy_f64(v: &F64Value) -> (r: F64Value)
    ensures
        r@ == v@,
{
    F64Value { bits: v.bits, text: v.text.clone() }
}

/// A JSON number as serde_json holds it.
#[derive(Debug, Clone, PartialEq, Eq)]
pub enum JsonNumberRepr {
    PosInt(u64),
    NegInt(i64),
    Float(F64Value),
}

/// A JSON number together with its reading as a 32-bit float.
#[derive(Debug, Clone, PartialEq, Eq)]
pub struct JsonNumber {
    pub repr: JsonNumberRepr,
    pub as_f32: F32Value,
}

/// A JSON scalar.
#[derive(Debug, Clone, PartialEq, Eq)]
pub enum JsonScalar {
    Null,
    Bool(bool),
    Number(JsonNumber),
    String(String),
}

/// A JSON value held in node parameters and port defaults. Scalars and
/// arrays of scalars are held structurally; any other value (objects, nested
/// arrays) is held as its serialized JSON text, which nothing here reads.
#[derive(Debug, Clone, PartialEq, Eq)]
pub enum ParamValue {
    Null,
    Bool(bool),
    Number(JsonNumber),
    String(String),
    Array(Vec<JsonScalar>),
    Json(String),
}

/// One member of a JSON object.
#[derive(Debug, Clone, PartialEq, Eq)]
pub struct ParamEntry {
    pub key: String,
    pub value: ParamValue,
}

/// A numeric range hint.
#[derive(Debug, Clone, PartialEq, Eq)]
pub struct NumberRange {
    pub min: Option<F64Value>,
    pub max: Option<F64Value>,
    pub step: Option<F64Value>,
}

/// Either one string or a list of strings.
#[derive(Debug, Clone, PartialEq, Eq)]
pub enum StringOrStrings {
    One(String),
    Many(Vec<String>),
}

impl StringOrStrings {
    /// The strings it holds, in order.
    pub open spec fn spec_values(&self) -> Seq<Seq<char>> {
        match self {
            StringOrStrings::One(value) => seq![value@],
            StringOrStrings::Many(values) => string_views(values@),
        }
    }

    /// The strings it holds, in order.
    pub fn values(&self) -> (r: Vec<&str>)
        ensures
            r@.map_values(|s: &str| s@) == self.spec_values(),
    {
        match self {
            StringOrStrings::One(value) => {
                let mut r: Vec<&str> = Vec::new();
                r.push(value.as_str());
                proof {
                    assert(r@.map_values(|s: &str| s@) =~= seq![value@]);
                }
                r
            },
            StringOrStrings::Many(values) => {
                let mut r: Vec<&str> = Vec::new();
                let mut i: usize = 0;
                while i < values.len()
                    invariant
                        i <= values@.len(),
                        r@.len() == i,
                        forall|k: int| 0 <= k < i ==> r@[k]@ == values@[k]@,
                    decreases values.len() - i,
                {
                    r.push(values[i].as_str());
                    i = i + 1;
                }
                proof {
                    assert(r@.map_values(|s: &str| s@) =~= string_views(values@));
                }
                r
            },
        }
    }
}

/// The type of the data a port carries.
#[derive(Debug, Clone, PartialEq, Eq)]
pub struct DataType {
    pub flow: DataFlow,
    pub data_kind: String,
    pub unit: Option<String>,
    pub range: Option<NumberRange>,
    pub shape: Option<Vec<u64>>,
    pub channels: Option<u64>,
    pub sample_rate: Option<F64Value>,
    pub format: Option<StringOrStrings>,
    pub color_space: Option<String>,
    pub frame_rate: Option<F64Value>,
    pub alpha_policy: Option<String>,
    pub values: Option<Vec<ParamValue>>,
}

/// A node port.
#[derive(Debug, Clone, PartialEq, Eq)]
pub struct Port {
    pub id: String,
    pub direction: PortDirection,
    pub label: Option<String>,
    pub data_type: DataType,
    pub required: Option<bool>,
    pub default_value: Option<ParamValue>,
    pub activation: Option<PortActivation>,
}

/// How and when a node runs.
#[derive(Debug, Clone, PartialEq, Eq)]
pub struct NodeExecution {
    pub model: ExecutionModel,
    pub clock: Option<String>,
}

/// Whether a node keeps state between runs.
#[derive(Debug, Clone, Copy, PartialEq, Eq, Structural)]
pub struct NodeState {
    pub persistent: bool,
}

/// A node definition manifest.
#[derive(Debug, Clone, PartialEq, Eq)]
pub struct NodeDefinition {
    pub schema: String,
    pub schema_version: String,
    pub id: String,
    pub version: String,
    pub display_name: String,
    pub category: String,
    pub script_api_version: Option<String>,
    pub bundle_hash: Option<String>,
    pub ports: Vec<Port>,
    pub execution: NodeExecution,
    pub state: NodeState,
    pub permissions: Vec<String>,
    pub capabilities: Vec<String>,
}

/// A graph document.
#[derive(Debug, Clone, PartialEq, Eq)]
pub struct GraphDocument {
    pub schema: String,
    pub schema_version: String,
    pub id: String,
    pub revision: String,
    pub nodes: Vec<GraphNode>,
    pub edges: Vec<Edge>,
}

/// A node instance in a graph.
#[derive(Debug, Clone, PartialEq, Eq)]
pub struct GraphNode {
    pub id: String,
    pub kind: String,
    pub kind_version: String,
    pub params: Vec<ParamEntry>,
    pub ports: Vec<Port>,
}

/// One end of an edge.
#[derive(Debug, Clone, PartialEq, Eq)]
pub struct PortRef {
    pub node: String,
    pub port: String,
}

/// A connection from an output port to an input port.
#[derive(Debug, Clone, PartialEq, Eq)]
pub struct Edge {
    pub from: PortRef,
    pub to: PortRef,
}

/// The value of the first member named `key` of a JSON object.
pub open spec fn param_lookup(params: Seq<ParamEntry>, key: Seq<char>) -> Option<ParamValue>
    decreases params.len(),
{
    if params.len() == 0 {
        None
    } else if params[0].key@ == key {
        Some(params[0].value)
    } else {
        param_lookup(params.drop_first(), key)
    }
}

/// `Map::get` on a JSON object.
pub fn param_get<'a>(params: &'a Vec<ParamEntry>, key: &str) -> (r: Option<&'a ParamValue>)
    ensures
        r matches Some(v) ==> param_lookup(params@, key@) == Some(*v),
        r is None ==> param_lookup(params@, key@) is None,
{
    let mut i: usize = 0;
    assert(params@.subrange(0, params@.len() as int) =~= params@);
    while i < params.len()
        invariant
            i <= params@.len(),
            param_lookup(params@, key@) == param_lookup(params@.subrange(i as int, params@.len() as int), key@),
        decreases params.len() - i,
    {
        let ghost rest = params@.subrange(i as int, params@.len() as int);
        assert(rest.drop_first() =~= params@.subrange(i + 1, params@.len() as int));
        if str_eq(params[i].key.as_str(), key) {
            return Some(&params[i].value);
        }
        i = i + 1;
    }
    None
}

/// Index of the first node with the given id.
pub open spec fn find_node_index(nodes: Seq<GraphNode>, id: Seq<char>) -> Option<int> {
    if exists|i: int| 0 <= i < nodes.len() && nodes[i].id@ == id {
        Some(choose|i: int| 0 <= i < nodes.len() && nodes[i].id@ == id
            && forall|k: int| 0 <= k < i ==> nodes[k].id@ != id)
    } else {
        None
    }
}

pub proof fn lemma_find_node_index(nodes: Seq<GraphNode>, id: Seq<char>, i: int)
    requires
        0 <= i < nodes.len(),
        nodes[i].id@ == id,
        forall|k: int| 0 <= k < i ==> nodes[k].id@ != id,
    ensures
        find_node_index(nodes, id) == Some(i),
{
    let j = choose|j: int| 0 <= j < nodes.len() && nodes[j].id@ == id
        && forall|k: int| 0 <= k < j ==> nodes[k].id@ != id;
    assert(0 <= j < nodes.len() && nodes[j].id@ == id && forall|k: int| 0 <= k < j ==> nodes[k].id@ != id);
    if j < i {
        assert(nodes[j].id@ != id);
    }
    if i < j {
        assert(nodes[i].id@ != id);
    }
}

proof fn lemma_minimal_witness(nodes: Seq<GraphNode>, id: Seq<char>, i: int)
    requires
        0 <= i < nodes.len(),
        nodes[i].id@ == id,
    ensures
        exists|m: int| 0 <= m < nodes.len() && nodes[m].id@ == id && forall|k: int| 0 <= k < m ==> nodes[k].id@ != id,
    decreases i,
{
    if exists|k: int| 0 <= k < i && nodes[k].id@ == id {
        let k = choose|k: int| 0 <= k < i && nodes[k].id@ == id;
        lemma_minimal_witness(nodes, id, k);
    } else {
        assert(forall|k: int| 0 <= k < i ==> nodes[k].id@ != id);
    }
}

/// What `find_node_index` gives: the first node with the id, or none.
pub proof fn lemma_find_node_index_spec(nodes: Seq<GraphNode>, id: Seq<char>)
    ensures
        find_node_index(nodes, id) matches Some(i) ==> 0 <= i < nodes.len() && nodes[i].id@ == id
            && forall|k: int| 0 <= k < i ==> nodes[k].id@ != id,
        find_node_index(nodes, id) is None ==> forall|k: int| 0 <= k < nodes.len() ==> nodes[k].id@ != id,
{
    if exists|i: int| 0 <= i < nodes.len() && nodes[i].id@ == id {
        let i = choose|i: int| 0 <= i < nodes.len() && nodes[i].id@ == id;
        lemma_minimal_witness(nodes, id, i);
    }
}

/// `nodes.iter().position(|node| node.id == id)`.
pub fn find_node(nodes: &Vec<GraphNode>, id: &str) -> (r: Option<usize>)
    ensures
        r matches Some(i) ==> find_node_index(nodes@, id@) == Some(i as int) && i < nodes@.len(),
        r is None ==> find_node_index(nodes@, id@) is None,
{
    let mut i: usize = 0;
    while i < nodes.len()
        invariant
            i <= nodes@.len(),
            forall|k: int| 0 <= k < i ==> nodes@[k].id@ != id@,
        decreases nodes.len() - i,
    {
        if str_eq(nodes[i].id.as_str(), id) {
            proof {
                lemma_find_node_index(nodes@, id@, i as int);
            }
            return Some(i);
        }
        i = i + 1;
    }
    None
}


/// The view of a JSON number.
pub enum JsonNumberView {
    PosInt(u64),
    NegInt(i64),
    Float(F64View),
}

/// The view of a JSON scalar.
pub enum JsonScalarView {
    Null,
    Bool(bool),
    Number(JsonNumberView, F32View),
    String(Seq<char>),
}

/// The view of a parameter value.
pub enum ParamValueView {
    Null,
    Bool(bool),
    Number(JsonNumberView, F32View),
    String(Seq<char>),
    Array(Seq<JsonScalarView>),
    Json(Seq<char>),
}

impl View for JsonNumberRepr {
    type V = JsonNumberView;

    open spec fn view(&self) -> JsonNumberView {
        match self {
            JsonNumberRepr::PosInt(v) => JsonNumberView::PosInt(*v),
            JsonNumberRepr::NegInt(v) => JsonNumberView::NegInt(*v),
            JsonNumberRepr::Float(v) => JsonNumberView::Float(v@),
        }
    }
}

impl View for JsonScalar {
    type V = JsonScalarView;

    open spec fn view(&self) -> JsonScalarView {
        match self {
            JsonScalar::Null => JsonScalarView::Null,
            JsonScalar::Bool(b) => JsonScalarView::Bool(*b),
            JsonScalar::Number(n) => JsonScalarView::Number(n.repr@, n.as_f32@),
            JsonScalar::String(t) => JsonScalarView::String(t@),
        }
    }
}

pub open spec fn scalar_views(v: Seq<JsonScalar>) -> Seq<JsonScalarView> {
    v.map_values(|x: JsonScalar| x@)
}

impl View for ParamValue {
    type V = ParamValueView;

    open spec fn view(&self) -> ParamValueView {
        match self {
            ParamValue::Null => ParamValueView::Null,
            ParamValue::Bool(b) => ParamValueView::Bool(*b),
            ParamValue::Number(n) => ParamValueView::Number(n.repr@, n.as_f32@),
            ParamValue::String(t) => ParamValueView::String(t@),
            ParamValue::Array(a) => ParamValueView::Array(scalar_views(a@)),
            ParamValue::Json(t) => ParamValueView::Json(t@),
        }
    }
}

impl View for ParamEntry {
    type V = (Seq<char>, ParamValueView);

    open spec fn view(&self) -> (Seq<char>, ParamValueView) {
        (self.key@, self.value@)
    }
}

pub open spec fn param_entry_views(v: Seq<ParamEntry>) -> Seq<(Seq<char>, ParamValueView)> {
    v.map_values(|x: ParamEntry| x@)
}

fn copy_number(n: &JsonNumber) -> (r: JsonNumber)
    ensures
        r.repr@ == n.repr@,
        r.as_f32@ == n.as_f32@,
{
    let repr = match &n.repr {
        JsonNumberRepr::PosInt(v) => JsonNumberRepr::PosInt(*v),
        JsonNumberRepr::NegInt(v) => JsonNumberRepr::NegInt(*v),
        JsonNumberRepr::Float(v) => JsonNumberRepr::Float(copy_f64(v)),
    };
    JsonNumber { repr, as_f32: F32Value { bits: n.as_f32.bits, text: n.as_f32.text.clone() } }
}

fn copy_scalar(v: &JsonScalar) -> (r: JsonScalar)
    ensures
        r@ == v@,
{
    match v {
        JsonScalar::Null => JsonScalar::Null,
        JsonScalar::Bool(b) => JsonScalar::Bool(*b),
        JsonScalar::Number(n) => JsonScalar::Number(copy_number(n)),
        JsonScalar::String(t) => JsonScalar::String(t.clone()),
    }
}

/// A parameter value with the same view.
pub fn copy_param_value(v: &ParamValue) -> (r: ParamValue)
    ensures
        r@ == v@,
{
    match v {
        ParamValue::Null => ParamValue::Null,
        ParamValue::Bool(b) => ParamValue::Bool(*b),
        ParamValue::Number(n) => ParamValue::Number(copy_number(n)),
        ParamValue::String(t) => ParamValue::String(t.clone()),
        ParamValue::Array(a) => {
            let mut r: Vec<JsonScalar> = Vec::new();
            let mut i: usize = 0;
            while i < a.len()
                invariant
                    i <= a@.len(),
                    scalar_views(r@) == scalar_views(a@).subrange(0, i as int),
                decreases a.len() - i,
            {
                let ghost before = r@;
                r.push(copy_scalar(&a[i]));
                proof {
                    assert(scalar_views(r@) =~= scalar_views(before).push(a@[i as int]@));
                    assert(scalar_views(a@).subrange(0, i + 1) =~= scalar_views(a@).subrange(0, i as int).push(a@[i as int]@));
                }
                i = i + 1;
            }
            proof {
                assert(scalar_views(a@).subrange(0, a@.len() as int) =~= scalar_views(a@));
            }
            ParamValue::Array(r)
        },
        ParamValue::Json(t) => ParamValue::Json(t.clone()),
    }
}

/// Parameters with the same views, in the same order.
pub fn copy_params(params: &Vec<ParamEntry>) -> (r: Vec<ParamEntry>)
    ensures
        param_entry_views(r@) == param_entry_views(params@),
{
    let mut r: Vec<ParamEntry> = Vec::new();
    let mut i: usize = 0;
    while i < params.len()
        invariant
            i <= params@.len(),
            param_entry_views(r@) == param_entry_views(params@).subrange(0, i as int),
        decreases params.len() - i,
    {
        let ghost before = r@;
        r.push(ParamEntry { key: params[i].key.clone(), value: copy_param_value(&params[i].value) });
        proof {
            assert(param_entry_views(r@) =~= param_entry_views(before).push(params@[i as int]@));
            assert(param_entry_views(params@).subrange(0, i + 1) =~= param_entry_views(params@).subrange(0, i as int).push(params@[i as int]@));
        }
        i = i + 1;
    }
    proof {
        assert(param_entry_views(params@).subrange(0, params@.len() as int) =~= param_entry_views(params@));
    }
    r
}
} // verus!
