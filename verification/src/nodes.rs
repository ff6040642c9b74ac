//! The first-party core node catalog: each node's kind, display name,
//! aliases and the constructor family that builds it.
use vstd::prelude::*;

verus! {

/// The family of constructors a core node is built by.
#[derive(Debug, Clone, Copy, PartialEq, Eq, Structural)]
pub enum CoreNodeConstructor {
    ControlOperator,
    ControlValue,
    Audio,
    Subpatch,
    BoundaryPort,
}

/// Metadata of a first-party core node.
#[derive(Debug, Clone, Copy)]
pub struct CoreNodeDescriptor {
    kind: &'static str,
    display_name: &'static str,
    aliases: &'static [&'static str],
    constructor: CoreNodeConstructor,
}

/// The catalog category of a constructor family.
pub open spec fn catalog_category_spec(constructor: CoreNodeConstructor) -> Seq<char> {
    match constructor {
        CoreNodeConstructor::Audio => "Core Audio"@,
        _ => "Core"@,
    }
}

impl CoreNodeDescriptor {
    pub closed spec fn spec_kind(&self) -> &'static str {
        self.kind
    }

    pub closed spec fn spec_display_name(&self) -> &'static str {
        self.display_name
    }

    pub closed spec fn spec_aliases(&self) -> &'static [&'static str] {
        self.aliases
    }

    pub closed spec fn spec_constructor(&self) -> CoreNodeConstructor {
        self.constructor
    }

    pub fn new(
        kind: &'static str,
        display_name: &'static str,
        aliases: &'static [&'static str],
        constructor: CoreNodeConstructor,
    ) -> (r: Self)
        ensures
            r.spec_kind() == kind,
            r.spec_display_name() == display_name,
            r.spec_aliases() == aliases,
            r.spec_constructor() == constructor,
    {
        CoreNodeDescriptor { kind, display_name, aliases, constructor }
    }

    pub fn kind(&self) -> (r: &'static str)
        ensures
            r == self.spec_kind(),
    {
        self.kind
    }

    pub fn display_name(&self) -> (r: &'static str)
        ensures
            r == self.spec_display_name(),
    {
        self.display_name
    }

    pub fn aliases(&self) -> (r: &'static [&'static str])
        ensures
            r == self.spec_aliases(),
    {
        self.aliases
    }

    pub fn constructor(&self) -> (r: CoreNodeConstructor)
        ensures
            r == self.spec_constructor(),
    {
        self.constructor
    }

    /// `Core Audio` for audio nodes, `Core` for every other node.
    pub fn catalog_category(&self) -> (r: &'static str)
        ensures
            r@ == catalog_category_spec(self.spec_constructor()),
    {
        proof {
            reveal_strlit("Core Audio");
            reveal_strlit("Core");
        }
        match self.constructor {
            CoreNodeConstructor::Audio => "Core Audio",
            _ => "Core",
        }
    }
}


/// The view of a descriptor.
pub struct DescriptorView {
    pub kind: Seq<char>,
    pub display_name: Seq<char>,
    pub aliases: Seq<Seq<char>>,
    pub constructor: CoreNodeConstructor,
}

pub open spec fn str_views(s: Seq<&'static str>) -> Seq<Seq<char>> {
    s.map_values(|x: &'static str| x@)
}

impl View for CoreNodeDescriptor {
    type V = DescriptorView;

    closed spec fn view(&self) -> DescriptorView {
        DescriptorView {
            kind: self.kind@,
            display_name: self.display_name@,
            aliases: str_views(self.aliases@),
            constructor: self.constructor,
        }
    }
}

pub open spec fn descriptor_views(d: Seq<CoreNodeDescriptor>) -> Seq<DescriptorView> {
    d.map_values(|x: CoreNodeDescriptor| x@)
}

/// What a descriptor's view holds.
pub proof fn lemma_descriptor_view(d: CoreNodeDescriptor)
    ensures
        d@.kind == d.spec_kind()@,
        d@.display_name == d.spec_display_name()@,
        d@.aliases == str_views(d.spec_aliases()@),
        d@.constructor == d.spec_constructor(),
{
}

/// The first-party core nodes, in catalog order.
pub open spec fn first_party_core_nodes_spec() -> Seq<DescriptorView> {
    seq![
        DescriptorView { kind: "object.core.operator.add"@, display_name: "Add"@, aliases: seq!["+"@, "add"@, "object.core.operator.add"@], constructor: CoreNodeConstructor::ControlOperator },
        DescriptorView { kind: "object.core.operator.sub"@, display_name: "Subtract"@, aliases: seq!["-"@, "sub"@, "object.core.operator.sub"@], constructor: CoreNodeConstructor::ControlOperator },
        DescriptorView { kind: "object.core.operator.mul"@, display_name: "Multiply"@, aliases: seq!["*"@, "mul"@, "object.core.operator.mul"@], constructor: CoreNodeConstructor::ControlOperator },
        DescriptorView { kind: "object.core.operator.div"@, display_name: "Divide"@, aliases: seq!["/"@, "div"@, "object.core.operator.div"@], constructor: CoreNodeConstructor::ControlOperator },
        DescriptorView { kind: "object.core.operator.pow"@, display_name: "Power"@, aliases: seq!["pow"@, "object.core.operator.pow"@], constructor: CoreNodeConstructor::ControlOperator },
        DescriptorView { kind: "object.core.operator.min"@, display_name: "Minimum"@, aliases: seq!["min"@, "object.core.operator.min"@], constructor: CoreNodeConstructor::ControlOperator },
        DescriptorView { kind: "object.core.operator.max"@, display_name: "Maximum"@, aliases: seq!["max"@, "object.core.operator.max"@], constructor: CoreNodeConstructor::ControlOperator },
        DescriptorView { kind: "object.core.operator.sqrt"@, display_name: "Square Root"@, aliases: seq!["sqrt"@, "object.core.operator.sqrt"@], constructor: CoreNodeConstructor::ControlOperator },
        DescriptorView { kind: "object.core.float"@, display_name: "Float"@, aliases: seq!["f"@, "float"@, "number"@, "object.core.float"@], constructor: CoreNodeConstructor::ControlValue },
        DescriptorView { kind: "object.core.int"@, display_name: "Integer"@, aliases: seq!["i"@, "int"@, "object.core.int"@], constructor: CoreNodeConstructor::ControlValue },
        DescriptorView { kind: "object.core.uint"@, display_name: "Unsigned Integer"@, aliases: seq!["u"@, "uint"@, "object.core.uint"@], constructor: CoreNodeConstructor::ControlValue },
        DescriptorView { kind: "object.core.bang"@, display_name: "Bang"@, aliases: seq!["b"@, "bang"@, "object.core.bang"@], constructor: CoreNodeConstructor::ControlValue },
        DescriptorView { kind: "object.core.message"@, display_name: "Message"@, aliases: seq!["msg"@, "message"@, "object.core.message"@], constructor: CoreNodeConstructor::ControlValue },
        DescriptorView { kind: "object.core.comment"@, display_name: "Comment"@, aliases: seq!["comment"@, "object.core.comment"@], constructor: CoreNodeConstructor::ControlValue },
        DescriptorView { kind: "object.core.audio.sig"@, display_name: "Signal"@, aliases: seq!["sig~"@, "object.core.audio.sig"@], constructor: CoreNodeConstructor::Audio },
        DescriptorView { kind: "object.core.audio.osc"@, display_name: "Oscillator"@, aliases: seq!["osc~"@, "object.core.audio.osc"@], constructor: CoreNodeConstructor::Audio },
        DescriptorView { kind: "object.core.audio.operator.mul"@, display_name: "Audio Multiply"@, aliases: seq!["*~"@, "object.core.audio.operator.mul"@], constructor: CoreNodeConstructor::Audio },
        DescriptorView { kind: "object.core.audio.input"@, display_name: "Audio Input"@, aliases: seq!["adc~"@, "object.core.audio.input"@], constructor: CoreNodeConstructor::Audio },
        DescriptorView { kind: "object.core.audio.output"@, display_name: "Audio Output"@, aliases: seq!["dac~"@, "object.core.audio.output"@], constructor: CoreNodeConstructor::Audio },
        DescriptorView { kind: "object.core.subpatch"@, display_name: "Subpatch"@, aliases: seq!["p"@, "object.core.subpatch"@], constructor: CoreNodeConstructor::Subpatch },
        DescriptorView { kind: "object.core.inlet"@, display_name: "Inlet"@, aliases: seq!["inlet"@, "object.core.inlet"@], constructor: CoreNodeConstructor::BoundaryPort },
        DescriptorView { kind: "object.core.outlet"@, display_name: "Outlet"@, aliases: seq!["outlet"@, "object.core.outlet"@], constructor: CoreNodeConstructor::BoundaryPort },
    ]
}

/// The first-party core nodes, in catalog order.
pub fn first_party_core_nodes() -> (r: Vec<CoreNodeDescriptor>)
    ensures
        descriptor_views(r@) == first_party_core_nodes_spec(),
{
    let r = vec![
        CoreNodeDescriptor::new("object.core.operator.add", "Add", &["+", "add", "object.core.operator.add"], CoreNodeConstructor::ControlOperator),
        CoreNodeDescriptor::new("object.core.operator.sub", "Subtract", &["-", "sub", "object.core.operator.sub"], CoreNodeConstructor::ControlOperator),
        CoreNodeDescriptor::new("object.core.operator.mul", "Multiply", &["*", "mul", "object.core.operator.mul"], CoreNodeConstructor::ControlOperator),
        CoreNodeDescriptor::new("object.core.operator.div", "Divide", &["/", "div", "object.core.operator.div"], CoreNodeConstructor::ControlOperator),
        CoreNodeDescriptor::new("object.core.operator.pow", "Power", &["pow", "object.core.operator.pow"], CoreNodeConstructor::ControlOperator),
        CoreNodeDescriptor::new("object.core.operator.min", "Minimum", &["min", "object.core.operator.min"], CoreNodeConstructor::ControlOperator),
        CoreNodeDescriptor::new("object.core.operator.max", "Maximum", &["max", "object.core.operator.max"], CoreNodeConstructor::ControlOperator),
        CoreNodeDescriptor::new("object.core.operator.sqrt", "Square Root", &["sqrt", "object.core.operator.sqrt"], CoreNodeConstructor::ControlOperator),
        CoreNodeDescriptor::new("object.core.float", "Float", &["f", "float", "number", "object.core.float"], CoreNodeConstructor::ControlValue),
        CoreNodeDescriptor::new("object.core.int", "Integer", &["i", "int", "object.core.int"], CoreNodeConstructor::ControlValue),
        CoreNodeDescriptor::new("object.core.uint", "Unsigned Integer", &["u", "uint", "object.core.uint"], CoreNodeConstructor::ControlValue),
        CoreNodeDescriptor::new("object.core.bang", "Bang", &["b", "bang", "object.core.bang"], CoreNodeConstructor::ControlValue),
        CoreNodeDescriptor::new("object.core.message", "Message", &["msg", "message", "object.core.message"], CoreNodeConstructor::ControlValue),
        CoreNodeDescriptor::new("object.core.comment", "Comment", &["comment", "object.core.comment"], CoreNodeConstructor::ControlValue),
        CoreNodeDescriptor::new("object.core.audio.sig", "Signal", &["sig~", "object.core.audio.sig"], CoreNodeConstructor::Audio),
        CoreNodeDescriptor::new("object.core.audio.osc", "Oscillator", &["osc~", "object.core.audio.osc"], CoreNodeConstructor::Audio),
        CoreNodeDescriptor::new("object.core.audio.operator.mul", "Audio Multiply", &["*~", "object.core.audio.operator.mul"], CoreNodeConstructor::Audio),
        CoreNodeDescriptor::new("object.core.audio.input", "Audio Input", &["adc~", "object.core.audio.input"], CoreNodeConstructor::Audio),
        CoreNodeDescriptor::new("object.core.audio.output", "Audio Output", &["dac~", "object.core.audio.output"], CoreNodeConstructor::Audio),
        CoreNodeDescriptor::new("object.core.subpatch", "Subpatch", &["p", "object.core.subpatch"], CoreNodeConstructor::Subpatch),
        CoreNodeDescriptor::new("object.core.inlet", "Inlet", &["inlet", "object.core.inlet"], CoreNodeConstructor::BoundaryPort),
        CoreNodeDescriptor::new("object.core.outlet", "Outlet", &["outlet", "object.core.outlet"], CoreNodeConstructor::BoundaryPort),
    ];
    proof {
        let v = descriptor_views(r@);
        let t = first_party_core_nodes_spec();
        assert forall|k: int| 0 <= k < t.len() implies v[k] == t[k] by {
            assert(v[k].aliases =~= t[k].aliases);
        }
        assert(v =~= t);
    }
    r
}

/// Every first-party core node lists its own kind among its aliases.
pub proof fn law_core_node_kind_is_alias(k: int)
    requires
        0 <= k < first_party_core_nodes_spec().len(),
    ensures
        first_party_core_nodes_spec()[k].aliases.contains(first_party_core_nodes_spec()[k].kind),
{
    let d = first_party_core_nodes_spec()[k];
    assert(d.aliases[d.aliases.len() - 1] == d.kind);
}

} // verus!
