//! The object registry behind object specs (v0.1): first-party core objects
//! and the patches of the project's library as candidates, the lookup of a
//! class symbol among them, and the resolutions that do not need a core
//! object's constructor: unresolved, ambiguous and project-patch ones.
use vstd::prelude::*;
use crate::contract::{F64Value, copy_f64};
use crate::nodes::{
    CoreNodeConstructor, CoreNodeDescriptor, DescriptorView, catalog_category_spec,
    descriptor_views, first_party_core_nodes, first_party_core_nodes_spec, str_views,
};
use crate::object_text::{
    AtomView, DiagnosticTextView, ObjectTextParam, ObjectTextParamValue, ParamValueView,
    ParamView, atom_text, integer_spec, joined_text, numeric_spec, one_param, param_value_option_view,
    param_views, symbol_spec, unsigned_spec,
};
use crate::text::{
    chars_of, concat2, decimal, decimal_string, owned, signed_decimal_string, str_eq, string_views,
    strip_prefix, strip_prefix_str, starts_with_str,
};

verus! {

pub const CURRENT_KIND_VERSION: &'static str = "0.1.0";

pub const PROJECT_PATCH_OBJECT_KIND_PREFIX: &'static str = "object.project.patch.";

/// A creation argument of an object spec.
#[derive(Debug, Clone, PartialEq, Eq)]
pub enum ObjectSpecAtom {
    Float(F64Value),
    Int(i64),
    Bool(bool),
    Symbol(String),
}

/// A diagnostic code and message.
#[derive(Debug, Clone, PartialEq, Eq)]
pub struct ObjectSpecDiagnostic {
    pub code: String,
    pub message: String,
}

#[derive(Debug, Clone, Copy, PartialEq, Eq, Structural)]
pub enum ObjectSpecPortDirection {
    Input,
    Output,
}

#[derive(Debug, Clone, Copy, PartialEq, Eq, Structural)]
pub enum ObjectSpecPortRate {
    Event,
    Control,
    Audio,
    Render,
    Gpu,
    Resource,
    Io,
}

#[derive(Debug, Clone, Copy, PartialEq, Eq, Structural)]
pub enum ObjectSpecPortActivation {
    Trigger,
    Latched,
    Passive,
}

/// A port of an object instance. `message_keys` is the canonical JSON of the
/// port's message key policy.
#[derive(Debug, Clone, PartialEq, Eq)]
pub struct ObjectSpecPort {
    pub id: String,
    pub direction: ObjectSpecPortDirection,
    pub port_type: String,
    pub label: Option<String>,
    pub rate: ObjectSpecPortRate,
    pub accepts: Option<Vec<String>>,
    pub activation: Option<ObjectSpecPortActivation>,
    pub message_keys: Option<String>,
}

/// What a resolution reports about a candidate.
#[derive(Debug, Clone, PartialEq, Eq)]
pub struct ObjectSpecCandidateSummary {
    pub id: String,
    pub source: String,
    pub kind: String,
    pub display_name: String,
}

/// The outcome of resolving an object spec.
#[derive(Debug, Clone, PartialEq, Eq)]
pub struct ObjectSpecResolution {
    pub input: String,
    pub display_text: String,
    pub class_symbol: String,
    pub creation_args: Vec<ObjectSpecAtom>,
    pub resolved_kind: Option<String>,
    pub resolved_kind_version: Option<String>,
    pub params: Vec<ObjectTextParam>,
    pub instance_ports: Vec<ObjectSpecPort>,
    pub candidates: Vec<ObjectSpecCandidateSummary>,
    pub diagnostics: Vec<ObjectSpecDiagnostic>,
}

/// Where a candidate comes from.
#[derive(Debug, Clone, Copy, PartialEq, Eq, Structural)]
pub enum ObjectRegistrySource {
    FirstPartyCore,
    ProjectPatch,
    PackageProvider,
    NativeProvider,
}

/// A patch of the project's library as a candidate. `interface_digest` is
/// the SHA-256 value of the patch's interface digest.
#[derive(Debug, Clone, PartialEq, Eq)]
pub struct ProjectPatchCandidate {
    pub patch_id: String,
    pub revision: String,
    pub description: Option<String>,
    pub interface_digest: String,
    pub ports: Vec<ObjectSpecPort>,
}

/// A patch of the project's library as the registry takes it: what the
/// candidate carries, and the patch's title when its metadata has one.
#[derive(Debug, Clone, PartialEq, Eq)]
pub struct ProjectPatchEntry {
    pub patch: ProjectPatchCandidate,
    pub title: Option<String>,
}

/// An object the registry can construct.
#[derive(Debug, Clone, PartialEq, Eq)]
pub struct ObjectRegistryCandidate {
    pub id: String,
    pub source: ObjectRegistrySource,
    pub aliases: Vec<String>,
    pub kind: String,
    pub kind_version: String,
    pub display_name: String,
    pub constructor: Option<CoreNodeConstructor>,
    pub catalog_category: Option<&'static str>,
    pub project_patch: Option<ProjectPatchCandidate>,
}

/// An object spec as the parser read it.
#[derive(Debug, Clone, PartialEq, Eq)]
pub struct ParsedObjectSpec {
    pub input: String,
    pub display_text: String,
    pub class_symbol: String,
    pub creation_args: Vec<ObjectSpecAtom>,
}

/// The candidates of a registry.
#[derive(Debug, Clone, PartialEq, Eq)]
pub struct ObjectRegistry {
    pub candidates: Vec<ObjectRegistryCandidate>,
    pub allow_unchecked_project_patch_refs: bool,
}

// ---------------------------------------------------------------------------
// Views.
// ---------------------------------------------------------------------------

pub open spec fn opt_str(o: Option<String>) -> Option<Seq<char>> {
    match o {
        Some(s) => Some(s@),
        None => None,
    }
}

impl View for ObjectSpecAtom {
    type V = AtomView;

    open spec fn view(&self) -> AtomView {
        match self {
            ObjectSpecAtom::Float(v) => AtomView::Float(v@),
            ObjectSpecAtom::Int(v) => AtomView::Int(*v),
            ObjectSpecAtom::Bool(v) => AtomView::Bool(*v),
            ObjectSpecAtom::Symbol(v) => AtomView::Symbol(v@),
        }
    }
}

pub open spec fn spec_atom_views(a: Seq<ObjectSpecAtom>) -> Seq<AtomView> {
    a.map_values(|x: ObjectSpecAtom| x@)
}

pub struct SpecPortView {
    pub id: Seq<char>,
    pub direction: ObjectSpecPortDirection,
    pub port_type: Seq<char>,
    pub label: Option<Seq<char>>,
    pub rate: ObjectSpecPortRate,
    pub accepts: Option<Seq<Seq<char>>>,
    pub activation: Option<ObjectSpecPortActivation>,
    pub message_keys: Option<Seq<char>>,
}

impl View for ObjectSpecPort {
    type V = SpecPortView;

    open spec fn view(&self) -> SpecPortView {
        SpecPortView {
            id: self.id@,
            direction: self.direction,
            port_type: self.port_type@,
            label: opt_str(self.label),
            rate: self.rate,
            accepts: match self.accepts {
                Some(a) => Some(string_views(a@)),
                None => None,
            },
            activation: self.activation,
            message_keys: opt_str(self.message_keys),
        }
    }
}

pub open spec fn spec_port_views(p: Seq<ObjectSpecPort>) -> Seq<SpecPortView> {
    p.map_values(|x: ObjectSpecPort| x@)
}

pub struct SummaryView {
    pub id: Seq<char>,
    pub source: Seq<char>,
    pub kind: Seq<char>,
    pub display_name: Seq<char>,
}

impl View for ObjectSpecCandidateSummary {
    type V = SummaryView;

    open spec fn view(&self) -> SummaryView {
        SummaryView { id: self.id@, source: self.source@, kind: self.kind@, display_name: self.display_name@ }
    }
}

pub open spec fn summary_views(s: Seq<ObjectSpecCandidateSummary>) -> Seq<SummaryView> {
    s.map_values(|x: ObjectSpecCandidateSummary| x@)
}

impl View for ObjectSpecDiagnostic {
    type V = DiagnosticTextView;

    open spec fn view(&self) -> DiagnosticTextView {
        DiagnosticTextView { code: self.code@, message: self.message@ }
    }
}

pub open spec fn spec_diagnostic_views(d: Seq<ObjectSpecDiagnostic>) -> Seq<DiagnosticTextView> {
    d.map_values(|x: ObjectSpecDiagnostic| x@)
}

pub struct SpecResolutionView {
    pub input: Seq<char>,
    pub display_text: Seq<char>,
    pub class_symbol: Seq<char>,
    pub creation_args: Seq<AtomView>,
    pub resolved_kind: Option<Seq<char>>,
    pub resolved_kind_version: Option<Seq<char>>,
    pub params: Seq<ParamView>,
    pub instance_ports: Seq<SpecPortView>,
    pub candidates: Seq<SummaryView>,
    pub diagnostics: Seq<DiagnosticTextView>,
}

impl View for ObjectSpecResolution {
    type V = SpecResolutionView;

    open spec fn view(&self) -> SpecResolutionView {
        SpecResolutionView {
            input: self.input@,
            display_text: self.display_text@,
            class_symbol: self.class_symbol@,
            creation_args: spec_atom_views(self.creation_args@),
            resolved_kind: opt_str(self.resolved_kind),
            resolved_kind_version: opt_str(self.resolved_kind_version),
            params: param_views(self.params@),
            instance_ports: spec_port_views(self.instance_ports@),
            candidates: summary_views(self.candidates@),
            diagnostics: spec_diagnostic_views(self.diagnostics@),
        }
    }
}

impl ObjectSpecResolution {
    /// Whether the spec resolved without diagnostics.
    pub fn ok(&self) -> (r: bool)
        ensures
            r == (self@.diagnostics.len() == 0),
    {
        self.diagnostics.len() == 0
    }
}

// ---------------------------------------------------------------------------
// Names.
// ---------------------------------------------------------------------------

/// Characters kept in a project patch kind; every other becomes `-`.
pub open spec fn kind_char(c: char) -> char {
    if ('a' <= c <= 'z') || ('A' <= c <= 'Z') || ('0' <= c <= '9') || c == '-' || c == '.' {
        c
    } else {
        '-'
    }
}

/// The object kind of a project patch.
pub open spec fn project_patch_object_kind_spec(patch_id: Seq<char>) -> Seq<char> {
    PROJECT_PATCH_OBJECT_KIND_PREFIX@ + patch_id.map_values(|c: char| kind_char(c))
}

/// The object kind of a project patch.
pub fn project_patch_object_kind(patch_id: &str) -> (r: String)
    ensures
        r@ == project_patch_object_kind_spec(patch_id@),
{
    let c = chars_of(patch_id);
    let mut r = owned(PROJECT_PATCH_OBJECT_KIND_PREFIX);
    let mut i: usize = 0;
    while i < c.len()
        invariant
            c@ == patch_id@,
            i <= c@.len(),
            r@ == PROJECT_PATCH_OBJECT_KIND_PREFIX@ + c@.subrange(0, i as int).map_values(|x: char| kind_char(x)),
        decreases c.len() - i,
    {
        let x = c[i];
        let keep = ('a' <= x && x <= 'z') || ('A' <= x && x <= 'Z') || ('0' <= x && x <= '9') || x == '-' || x == '.';
        let ghost before = r@;
        if keep {
            r.append(patch_id.substring_char(i, i + 1));
        } else {
            r.append("-");
        }
        proof {
            reveal_strlit("-");
            assert(patch_id@.subrange(i as int, i + 1) =~= seq![x]);
            assert(c@.subrange(0, i + 1).map_values(|x: char| kind_char(x)) =~= c@.subrange(0, i as int).map_values(
                |x: char| kind_char(x),
            ).push(kind_char(x)));
        }
        i = i + 1;
    }
    proof {
        assert(c@.subrange(0, c@.len() as int) =~= c@);
    }
    r
}

pub open spec fn spec_payload_identity(kind: Seq<char>) -> bool {
    ||| kind == "value"@
    ||| kind == "data"@
    ||| kind == "payload"@
    ||| kind == "bool"@
    ||| kind == "string"@
    ||| kind == "object.core.bool"@
    ||| kind == "object.core.string"@
    ||| kind == "value.core.message"@
    ||| kind == "value.core.bang"@
    ||| kind == "value.core.string"@
    ||| kind == "value.core.tensor"@
    ||| strip_prefix(kind, "value."@) is Some
    ||| strip_prefix(kind, "data."@) is Some
    ||| strip_prefix(kind, "payload."@) is Some
    ||| strip_prefix(kind, "control."@) is Some
}

/// Whether `kind` names a payload identity rather than an object.
pub fn is_payload_identity_kind(kind: &str) -> (r: bool)
    ensures
        r == spec_payload_identity(kind@),
{
    str_eq(kind, "value") || str_eq(kind, "data") || str_eq(kind, "payload") || str_eq(kind, "bool")
        || str_eq(kind, "string") || str_eq(kind, "object.core.bool") || str_eq(kind, "object.core.string")
        || str_eq(kind, "value.core.message") || str_eq(kind, "value.core.bang")
        || str_eq(kind, "value.core.string") || str_eq(kind, "value.core.tensor")
        || starts_with_str(kind, "value.") || starts_with_str(kind, "data.")
        || starts_with_str(kind, "payload.") || starts_with_str(kind, "control.")
}

pub open spec fn spec_diagnostic_code(code: Seq<char>) -> Seq<char> {
    if code == "empty-object-spec"@ {
        "object-spec.empty"@
    } else if code == "invalid-syntax"@ {
        "object-spec.invalid-syntax"@
    } else if strip_prefix(code, "object-spec."@) is Some {
        code
    } else {
        "object-spec."@ + code
    }
}

/// The runtime diagnostic code for a parser diagnostic code.
pub fn runtime_object_spec_diagnostic_code(code: &str) -> (r: String)
    ensures
        r@ == spec_diagnostic_code(code@),
{
    if str_eq(code, "empty-object-spec") {
        owned("object-spec.empty")
    } else if str_eq(code, "invalid-syntax") {
        owned("object-spec.invalid-syntax")
    } else if starts_with_str(code, "object-spec.") {
        owned(code)
    } else {
        concat2("object-spec.", code)
    }
}

pub open spec fn spec_unsupported_audio(class: Seq<char>) -> Option<Seq<char>> {
    if class == "+~"@ || class == "-~"@ || class == "/~"@ || class == "object.core.audio.operator.add"@
        || class == "object.core.audio.operator.sub"@ || class == "object.core.audio.operator.div"@ {
        Some("audio add/sub/div aliases are not executable in the current Runtime substrate"@)
    } else if class == "sqrt~"@ || class == "object.core.audio.operator.sqrt"@ {
        Some("audio sqrt is not executable in the current Runtime substrate"@)
    } else if class == "phasor~"@ || class == "object.core.audio.phasor"@ {
        Some("audio phasor is not executable in the current Runtime substrate"@)
    } else {
        None
    }
}

/// The message for a first-party audio alias that cannot run here.
pub fn unsupported_first_party_audio_message(class_symbol: &str) -> (r: Option<&'static str>)
    ensures
        match r {
            Some(m) => spec_unsupported_audio(class_symbol@) == Some(m@),
            None => spec_unsupported_audio(class_symbol@) is None,
        },
{
    if str_eq(class_symbol, "+~") || str_eq(class_symbol, "-~") || str_eq(class_symbol, "/~")
        || str_eq(class_symbol, "object.core.audio.operator.add") || str_eq(class_symbol, "object.core.audio.operator.sub")
        || str_eq(class_symbol, "object.core.audio.operator.div") {
        Some("audio add/sub/div aliases are not executable in the current Runtime substrate")
    } else if str_eq(class_symbol, "sqrt~") || str_eq(class_symbol, "object.core.audio.operator.sqrt") {
        Some("audio sqrt is not executable in the current Runtime substrate")
    } else if str_eq(class_symbol, "phasor~") || str_eq(class_symbol, "object.core.audio.phasor") {
        Some("audio phasor is not executable in the current Runtime substrate")
    } else {
        None
    }
}

/// The catalog id of a core candidate: `core.` and its kind without the
/// `object.core.` prefix.
pub open spec fn spec_core_catalog_id(kind: Seq<char>) -> Seq<char> {
    "core."@ + match strip_prefix(kind, "object.core."@) {
        Some(rest) => rest,
        None => kind,
    }
}

pub fn catalog_id_for_core_candidate(candidate: &ObjectRegistryCandidate) -> (r: String)
    ensures
        r@ == spec_core_catalog_id(candidate.kind@),
{
    match strip_prefix_str(candidate.kind.as_str(), "object.core.") {
        Some(rest) => concat2("core.", rest.as_str()),
        None => concat2("core.", candidate.kind.as_str()),
    }
}

/// The catalog category of a candidate (`Core` when it has none).
pub fn core_catalog_category(candidate: &ObjectRegistryCandidate) -> (r: &'static str)
    ensures
        r@ == match candidate.catalog_category {
            Some(c) => c@,
            None => "Core"@,
        },
{
    match candidate.catalog_category {
        Some(c) => c,
        None => "Core",
    }
}


// ---------------------------------------------------------------------------
// Candidates.
// ---------------------------------------------------------------------------

pub struct PatchCandidateView {
    pub patch_id: Seq<char>,
    pub revision: Seq<char>,
    pub description: Option<Seq<char>>,
    pub interface_digest: Seq<char>,
    pub ports: Seq<SpecPortView>,
}

pub struct CandidateView {
    pub id: Seq<char>,
    pub source: ObjectRegistrySource,
    pub aliases: Seq<Seq<char>>,
    pub kind: Seq<char>,
    pub kind_version: Seq<char>,
    pub display_name: Seq<char>,
    pub constructor: Option<CoreNodeConstructor>,
    pub catalog_category: Option<Seq<char>>,
    pub project_patch: Option<PatchCandidateView>,
}

impl View for ProjectPatchCandidate {
    type V = PatchCandidateView;

    open spec fn view(&self) -> PatchCandidateView {
        PatchCandidateView {
            patch_id: self.patch_id@,
            revision: self.revision@,
            description: opt_str(self.description),
            interface_digest: self.interface_digest@,
            ports: spec_port_views(self.ports@),
        }
    }
}

impl View for ObjectRegistryCandidate {
    type V = CandidateView;

    open spec fn view(&self) -> CandidateView {
        CandidateView {
            id: self.id@,
            source: self.source,
            aliases: string_views(self.aliases@),
            kind: self.kind@,
            kind_version: self.kind_version@,
            display_name: self.display_name@,
            constructor: self.constructor,
            catalog_category: match self.catalog_category {
                Some(c) => Some(c@),
                None => None,
            },
            project_patch: match self.project_patch {
                Some(p) => Some(p@),
                None => None,
            },
        }
    }
}

pub open spec fn candidate_views(c: Seq<ObjectRegistryCandidate>) -> Seq<CandidateView> {
    c.map_values(|x: ObjectRegistryCandidate| x@)
}

pub open spec fn source_label(source: ObjectRegistrySource) -> Seq<char> {
    match source {
        ObjectRegistrySource::FirstPartyCore => "first-party-core"@,
        ObjectRegistrySource::ProjectPatch => "project-patch"@,
        ObjectRegistrySource::PackageProvider => "package-provider"@,
        ObjectRegistrySource::NativeProvider => "native-provider"@,
    }
}

pub open spec fn summary_spec(c: CandidateView) -> SummaryView {
    SummaryView { id: c.id, source: source_label(c.source), kind: c.kind, display_name: c.display_name }
}

/// The first alias outside the `object.` namespace.
pub open spec fn first_plain_alias(aliases: Seq<Seq<char>>) -> Option<Seq<char>>
    decreases aliases.len(),
{
    if aliases.len() == 0 {
        None
    } else if strip_prefix(aliases[0], "object."@) is None {
        Some(aliases[0])
    } else {
        first_plain_alias(aliases.drop_first())
    }
}

pub open spec fn canonical_object_spec_spec(aliases: Seq<Seq<char>>) -> Option<Seq<char>> {
    match first_plain_alias(aliases) {
        Some(a) => Some(a),
        None => if aliases.len() > 0 { Some(aliases[0]) } else { None },
    }
}

fn copy_opt_string(o: &Option<String>) -> (r: Option<String>)
    ensures
        opt_str(r) == opt_str(*o),
{
    match o {
        Some(s) => Some(s.clone()),
        None => None,
    }
}

fn copy_strings(v: &Vec<String>) -> (r: Vec<String>)
    ensures
        string_views(r@) == string_views(v@),
{
    let mut r: Vec<String> = Vec::new();
    let mut i: usize = 0;
    while i < v.len()
        invariant
            i <= v@.len(),
            string_views(r@) == string_views(v@).subrange(0, i as int),
        decreases v.len() - i,
    {
        let ghost before = r@;
        r.push(v[i].clone());
        proof {
            assert(string_views(r@) =~= string_views(before).push(v@[i as int]@));
            assert(string_views(v@).subrange(0, i + 1) =~= string_views(v@).subrange(0, i as int).push(v@[i as int]@));
        }
        i = i + 1;
    }
    proof {
        assert(string_views(v@).subrange(0, v@.len() as int) =~= string_views(v@));
    }
    r
}

fn copy_port(p: &ObjectSpecPort) -> (r: ObjectSpecPort)
    ensures
        r@ == p@,
{
    ObjectSpecPort {
        id: p.id.clone(),
        direction: p.direction,
        port_type: p.port_type.clone(),
        label: copy_opt_string(&p.label),
        rate: p.rate,
        accepts: match &p.accepts {
            Some(a) => Some(copy_strings(a)),
            None => None,
        },
        activation: p.activation,
        message_keys: copy_opt_string(&p.message_keys),
    }
}

fn copy_ports(v: &Vec<ObjectSpecPort>) -> (r: Vec<ObjectSpecPort>)
    ensures
        spec_port_views(r@) == spec_port_views(v@),
{
    let mut r: Vec<ObjectSpecPort> = Vec::new();
    let mut i: usize = 0;
    while i < v.len()
        invariant
            i <= v@.len(),
            spec_port_views(r@) == spec_port_views(v@).subrange(0, i as int),
        decreases v.len() - i,
    {
        let ghost before = r@;
        r.push(copy_port(&v[i]));
        proof {
            assert(spec_port_views(r@) =~= spec_port_views(before).push(v@[i as int]@));
            assert(spec_port_views(v@).subrange(0, i + 1) =~= spec_port_views(v@).subrange(0, i as int).push(v@[i as int]@));
        }
        i = i + 1;
    }
    proof {
        assert(spec_port_views(v@).subrange(0, v@.len() as int) =~= spec_port_views(v@));
    }
    r
}

fn copy_candidate(c: &ObjectRegistryCandidate) -> (r: ObjectRegistryCandidate)
    ensures
        r@ == c@,
{
    ObjectRegistryCandidate {
        id: c.id.clone(),
        source: c.source,
        aliases: copy_strings(&c.aliases),
        kind: c.kind.clone(),
        kind_version: c.kind_version.clone(),
        display_name: c.display_name.clone(),
        constructor: c.constructor,
        catalog_category: c.catalog_category,
        project_patch: match &c.project_patch {
            Some(p) => Some(copy_patch_candidate(p)),
            None => None,
        },
    }
}

fn copy_patch_candidate(p: &ProjectPatchCandidate) -> (r: ProjectPatchCandidate)
    ensures
        r@ == p@,
{
    ProjectPatchCandidate {
        patch_id: p.patch_id.clone(),
        revision: p.revision.clone(),
        description: copy_opt_string(&p.description),
        interface_digest: p.interface_digest.clone(),
        ports: copy_ports(&p.ports),
    }
}

impl ObjectRegistryCandidate {
    /// Whether one of the candidate's aliases is `class_symbol`.
    pub fn matches_class_symbol(&self, class_symbol: &str) -> (r: bool)
        ensures
            r == self@.aliases.contains(class_symbol@),
    {
        let mut i: usize = 0;
        while i < self.aliases.len()
            invariant
                i <= self.aliases@.len(),
                forall|k: int| 0 <= k < i ==> self@.aliases[k] != class_symbol@,
            decreases self.aliases.len() - i,
        {
            if str_eq(self.aliases[i].as_str(), class_symbol) {
                assert(self@.aliases[i as int] == class_symbol@);
                return true;
            }
            i = i + 1;
        }
        false
    }

    /// What a resolution reports about this candidate.
    pub fn summary(&self) -> (r: ObjectSpecCandidateSummary)
        ensures
            r@ == summary_spec(self@),
    {
        let source = match self.source {
            ObjectRegistrySource::FirstPartyCore => "first-party-core",
            ObjectRegistrySource::ProjectPatch => "project-patch",
            ObjectRegistrySource::PackageProvider => "package-provider",
            ObjectRegistrySource::NativeProvider => "native-provider",
        };
        ObjectSpecCandidateSummary {
            id: self.id.clone(),
            source: owned(source),
            kind: self.kind.clone(),
            display_name: self.display_name.clone(),
        }
    }

    /// The object spec this candidate is written with.
    pub fn canonical_object_spec(&self) -> (r: Option<String>)
        ensures
            opt_str(r) == canonical_object_spec_spec(self@.aliases),
    {
        let ghost a = self@.aliases;
        let mut i: usize = 0;
        assert(a.subrange(0, a.len() as int) =~= a);
        while i < self.aliases.len()
            invariant
                a == self@.aliases,
                i <= a.len(),
                first_plain_alias(a) == first_plain_alias(a.subrange(i as int, a.len() as int)),
            decreases self.aliases.len() - i,
        {
            let ghost rest = a.subrange(i as int, a.len() as int);
            assert(rest.drop_first() =~= a.subrange(i + 1, a.len() as int));
            assert(rest[0] == a[i as int]);
            if !starts_with_str(self.aliases[i].as_str(), "object.") {
                return Some(self.aliases[i].clone());
            }
            i = i + 1;
        }
        if self.aliases.len() > 0 {
            Some(self.aliases[0].clone())
        } else {
            None
        }
    }
}

/// The candidate of a first-party core node.
pub open spec fn core_candidate_spec(d: DescriptorView) -> CandidateView {
    CandidateView {
        id: d.kind,
        source: ObjectRegistrySource::FirstPartyCore,
        aliases: d.aliases,
        kind: d.kind,
        kind_version: CURRENT_KIND_VERSION@,
        display_name: d.display_name,
        constructor: Some(d.constructor),
        catalog_category: Some(catalog_category_spec(d.constructor)),
        project_patch: None,
    }
}

/// The candidate of a project patch.
pub open spec fn project_patch_candidate_spec(patch: PatchCandidateView, title: Option<Seq<char>>) -> CandidateView {
    CandidateView {
        id: "project-patch:"@ + patch.patch_id,
        source: ObjectRegistrySource::ProjectPatch,
        aliases: seq![patch.patch_id],
        kind: project_patch_object_kind_spec(patch.patch_id),
        kind_version: CURRENT_KIND_VERSION@,
        display_name: match title {
            Some(t) => t,
            None => patch.patch_id,
        },
        constructor: None,
        catalog_category: None,
        project_patch: Some(patch),
    }
}

fn core_candidate(node: &CoreNodeDescriptor) -> (r: ObjectRegistryCandidate)
    ensures
        r@ == core_candidate_spec(node@),
{
    proof {
        crate::nodes::lemma_descriptor_view(*node);
    }
    let aliases_in = node.aliases();
    let mut aliases: Vec<String> = Vec::new();
    let mut i: usize = 0;
    while i < aliases_in.len()
        invariant
            aliases_in@ == node.spec_aliases()@,
            i <= aliases_in@.len(),
            string_views(aliases@) == str_views(aliases_in@).subrange(0, i as int),
        decreases aliases_in.len() - i,
    {
        let ghost before = aliases@;
        aliases.push(owned(aliases_in[i]));
        proof {
            assert(string_views(aliases@) =~= string_views(before).push(aliases_in@[i as int]@));
            assert(str_views(aliases_in@).subrange(0, i + 1) =~= str_views(aliases_in@).subrange(0, i as int).push(aliases_in@[i as int]@));
        }
        i = i + 1;
    }
    proof {
        assert(str_views(aliases_in@).subrange(0, aliases_in@.len() as int) =~= str_views(aliases_in@));
    }
    ObjectRegistryCandidate {
        id: owned(node.kind()),
        source: ObjectRegistrySource::FirstPartyCore,
        aliases,
        kind: owned(node.kind()),
        kind_version: owned(CURRENT_KIND_VERSION),
        display_name: owned(node.display_name()),
        constructor: Some(node.constructor()),
        catalog_category: Some(node.catalog_category()),
        project_patch: None,
    }
}

impl ObjectRegistry {
    /// The registry of the first-party core objects, in catalog order.
    pub fn first_party_core() -> (r: ObjectRegistry)
        ensures
            candidate_views(r.candidates@) == first_party_core_nodes_spec().map_values(|d: DescriptorView| core_candidate_spec(d)),
            !r.allow_unchecked_project_patch_refs,
            audio_io_candidates_are_core(candidate_views(r.candidates@)),
    {
        proof {
            lemma_first_party_audio_io();
        }
        let nodes = first_party_core_nodes();
        let ghost target = first_party_core_nodes_spec().map_values(|d: DescriptorView| core_candidate_spec(d));
        let mut candidates: Vec<ObjectRegistryCandidate> = Vec::new();
        let mut i: usize = 0;
        while i < nodes.len()
            invariant
                descriptor_views(nodes@) == first_party_core_nodes_spec(),
                target == first_party_core_nodes_spec().map_values(|d: DescriptorView| core_candidate_spec(d)),
                i <= nodes@.len(),
                candidate_views(candidates@) == target.subrange(0, i as int),
            decreases nodes.len() - i,
        {
            let ghost before = candidates@;
            candidates.push(core_candidate(&nodes[i]));
            proof {
                assert(descriptor_views(nodes@)[i as int] == nodes@[i as int]@);
                assert(candidate_views(candidates@) =~= candidate_views(before).push(target[i as int]));
                assert(target.subrange(0, i + 1) =~= target.subrange(0, i as int).push(target[i as int]));
            }
            i = i + 1;
        }
        proof {
            assert(target.subrange(0, target.len() as int) =~= target);
        }
        ObjectRegistry { candidates, allow_unchecked_project_patch_refs: false }
    }

    /// The same registry, accepting references to patches it does not hold.
    pub fn allow_unchecked_project_patch_refs(self) -> (r: ObjectRegistry)
        ensures
            r.candidates == self.candidates,
            r.allow_unchecked_project_patch_refs,
    {
        ObjectRegistry { candidates: self.candidates, allow_unchecked_project_patch_refs: true }
    }

    /// Adds a patch of the project's library as a candidate, titled `title`
    /// when the patch has one.
    pub fn register_project_patch(&mut self, patch: ProjectPatchCandidate, title: Option<String>)
        ensures
            candidate_views(final(self).candidates@) == candidate_views(old(self).candidates@).push(
                project_patch_candidate_spec(patch@, opt_str(title)),
            ),
            final(self).allow_unchecked_project_patch_refs == old(self).allow_unchecked_project_patch_refs,
    {
        let kind = project_patch_object_kind(patch.patch_id.as_str());
        let display_name = match title {
            Some(t) => t,
            None => patch.patch_id.clone(),
        };
        let candidate = ObjectRegistryCandidate {
            id: concat2("project-patch:", patch.patch_id.as_str()),
            source: ObjectRegistrySource::ProjectPatch,
            aliases: vec![patch.patch_id.clone()],
            kind,
            kind_version: owned(CURRENT_KIND_VERSION),
            display_name,
            constructor: None,
            catalog_category: None,
            project_patch: Some(patch),
        };
        let ghost before = self.candidates@;
        proof {
            assert(string_views(candidate.aliases@) =~= seq![candidate.project_patch.unwrap().patch_id@]);
        }
        self.candidates.push(candidate);
        proof {
            assert(candidate_views(self.candidates@) =~= candidate_views(before).push(candidate@));
        }
    }

    /// The first-party core registry with the patches of a project's
    /// library after it, in library order.
    pub fn for_patch_library(patch_library: &Vec<ProjectPatchEntry>) -> (r: ObjectRegistry)
        ensures
            candidate_views(r.candidates@) == first_party_core_nodes_spec().map_values(|d: DescriptorView| core_candidate_spec(d))
                + patch_library_candidates(patch_library@),
            !r.allow_unchecked_project_patch_refs,
            registry_wf(candidate_views(r.candidates@)),
            audio_io_candidates_are_core(candidate_views(r.candidates@)),
    {
        let mut registry = ObjectRegistry::first_party_core();
        let ghost core = candidate_views(registry.candidates@);
        proof {
            lemma_first_party_registry_wf();
        }
        let mut i: usize = 0;
        while i < patch_library.len()
            invariant
                i <= patch_library@.len(),
                core == first_party_core_nodes_spec().map_values(|d: DescriptorView| core_candidate_spec(d)),
                registry_wf(core),
                candidate_views(registry.candidates@) == core + patch_library_candidates(patch_library@.subrange(0, i as int)),
                !registry.allow_unchecked_project_patch_refs,
            decreases patch_library.len() - i,
        {
            let entry = &patch_library[i];
            registry.register_project_patch(copy_patch_candidate(&entry.patch), copy_opt_string(&entry.title));
            proof {
                assert(patch_library@.subrange(0, i + 1).drop_last() =~= patch_library@.subrange(0, i as int));
                assert(patch_library@.subrange(0, i + 1).last() == patch_library@[i as int]);
                assert(candidate_views(registry.candidates@) =~= core + patch_library_candidates(patch_library@.subrange(0, i + 1)));
            }
            i = i + 1;
        }
        proof {
            assert(patch_library@.subrange(0, patch_library@.len() as int) =~= patch_library@);
            let c = candidate_views(registry.candidates@);
            assert forall|k: int| 0 <= k < c.len() implies core_kind_known(#[trigger] c[k]) by {
                if k >= core.len() {
                    lemma_patch_library_len(patch_library@);
                    lemma_patch_library_candidates_unconstructed(patch_library@, k - core.len());
                }
            }
            lemma_first_party_audio_io();
            assert forall|k: int| 0 <= k < c.len()
                && ((#[trigger] c[k]).kind == "object.core.audio.input"@ || c[k].kind == "object.core.audio.output"@)
                implies c[k].source == ObjectRegistrySource::FirstPartyCore && c[k].constructor == Some(CoreNodeConstructor::Audio) by {
                if k >= core.len() {
                    lemma_patch_library_len(patch_library@);
                    lemma_patch_library_candidates_unconstructed(patch_library@, k - core.len());
                    lemma_patch_kind_is_no_audio_io(patch_library@[k - core.len()].patch@.patch_id);
                } else {
                    assert(c[k] == core[k]);
                }
            }
        }
        registry
    }
}

/// The candidates of a project's patches, in library order.
pub open spec fn patch_library_candidates(entries: Seq<ProjectPatchEntry>) -> Seq<CandidateView>
    decreases entries.len(),
{
    if entries.len() == 0 {
        Seq::empty()
    } else {
        patch_library_candidates(entries.drop_last()).push(
            project_patch_candidate_spec(entries.last().patch@, opt_str(entries.last().title)),
        )
    }
}

proof fn lemma_patch_library_candidates_unconstructed(entries: Seq<ProjectPatchEntry>, k: int)
    requires
        0 <= k < entries.len(),
    ensures
        patch_library_candidates(entries)[k].constructor is None,
        patch_library_candidates(entries)[k].source == ObjectRegistrySource::ProjectPatch,
        patch_library_candidates(entries)[k].kind == project_patch_object_kind_spec(entries[k].patch@.patch_id),
    decreases entries.len(),
{
    lemma_patch_library_len(entries.drop_last());
    if k < entries.len() - 1 {
        lemma_patch_library_candidates_unconstructed(entries.drop_last(), k);
    }
}

proof fn lemma_patch_library_len(entries: Seq<ProjectPatchEntry>)
    ensures
        patch_library_candidates(entries).len() == entries.len(),
    decreases entries.len(),
{
    if entries.len() > 0 {
        lemma_patch_library_len(entries.drop_last());
    }
}


// ---------------------------------------------------------------------------
// Resolutions.
// ---------------------------------------------------------------------------

pub struct ParsedView {
    pub input: Seq<char>,
    pub display_text: Seq<char>,
    pub class_symbol: Seq<char>,
    pub creation_args: Seq<AtomView>,
}

impl View for ParsedObjectSpec {
    type V = ParsedView;

    open spec fn view(&self) -> ParsedView {
        ParsedView {
            input: self.input@,
            display_text: self.display_text@,
            class_symbol: self.class_symbol@,
            creation_args: spec_atom_views(self.creation_args@),
        }
    }
}

pub open spec fn failure_with_spec(p: ParsedView, candidates: Seq<SummaryView>, code: Seq<char>, message: Seq<char>) -> SpecResolutionView {
    SpecResolutionView {
        input: p.input,
        display_text: p.display_text,
        class_symbol: p.class_symbol,
        creation_args: p.creation_args,
        resolved_kind: None,
        resolved_kind_version: None,
        params: Seq::empty(),
        instance_ports: Seq::empty(),
        candidates,
        diagnostics: seq![DiagnosticTextView { code, message }],
    }
}

pub open spec fn success_with_spec(p: ParsedView, c: CandidateView, params: Seq<ParamView>, ports: Seq<SpecPortView>) -> SpecResolutionView {
    SpecResolutionView {
        input: p.input,
        display_text: p.display_text,
        class_symbol: p.class_symbol,
        creation_args: p.creation_args,
        resolved_kind: Some(c.kind),
        resolved_kind_version: Some(c.kind_version),
        params,
        instance_ports: ports,
        candidates: seq![summary_spec(c)],
        diagnostics: Seq::empty(),
    }
}

pub open spec fn unresolved_spec(p: ParsedView) -> SpecResolutionView {
    failure_with_spec(p, Seq::empty(), "object-spec.unresolved"@,
        p.class_symbol + " is not available in the local Runtime object registry"@)
}

/// `id (source)` for each candidate, joined by `, `.
pub open spec fn candidate_list(s: Seq<SummaryView>) -> Seq<char>
    decreases s.len(),
{
    if s.len() == 0 {
        Seq::empty()
    } else if s.len() == 1 {
        s[0].id + " ("@ + s[0].source + ")"@
    } else {
        candidate_list(s.drop_last()) + ", "@ + s.last().id + " ("@ + s.last().source + ")"@
    }
}

pub open spec fn ambiguous_spec(p: ParsedView, candidates: Seq<CandidateView>) -> SpecResolutionView {
    let summaries = candidates.map_values(|c: CandidateView| summary_spec(c));
    failure_with_spec(p, summaries, "object-spec.ambiguous"@,
        p.class_symbol + " matches multiple Runtime object candidates: "@ + candidate_list(summaries))
}

/// The reference of `p <patch>`: its only argument, when a non-empty symbol.
pub open spec fn explicit_ref_spec(p: ParsedView) -> Option<Seq<char>> {
    if p.creation_args.len() == 1 {
        symbol_spec(p.creation_args[0])
    } else {
        None
    }
}

pub open spec fn is_subpatch_symbol(class: Seq<char>) -> bool {
    class == "p"@ || class == "object.core.subpatch"@
}

pub open spec fn construct_project_patch_spec(p: ParsedView, c: CandidateView) -> SpecResolutionView {
    let one = seq![summary_spec(c)];
    match c.project_patch {
        None => failure_with_spec(p, one, "object-spec.unresolved"@, "project patch candidate is missing patch metadata"@),
        Some(patch) => {
            let ok = success_with_spec(
                p,
                c,
                seq![
                    ParamView { key: "patchRef"@, value: ParamValueView::Text(patch.patch_id) },
                    ParamView { key: "patchRevision"@, value: ParamValueView::Text(patch.revision) },
                ],
                patch.ports,
            );
            if is_subpatch_symbol(p.class_symbol) {
                if p.creation_args.len() != 1 {
                    failure_with_spec(p, one, "object-spec.invalid-arg-count"@,
                        "subpatch object spec requires exactly one patch reference"@)
                } else if symbol_spec(p.creation_args[0]) is None {
                    failure_with_spec(p, one, "object-spec.invalid-arg-type"@,
                        p.class_symbol + " reference argument must be a symbol"@)
                } else if symbol_spec(p.creation_args[0]).unwrap() != patch.patch_id {
                    failure_with_spec(p, one, "object-spec.unresolved"@,
                        "project patch "@ + symbol_spec(p.creation_args[0]).unwrap() + " is not available in the active project"@)
                } else {
                    ok
                }
            } else if p.creation_args.len() != 0 {
                failure_with_spec(p, one, "object-spec.invalid-arg-count"@,
                    p.class_symbol + " project patch shortcut accepts no creation arguments"@)
            } else {
                ok
            }
        },
    }
}

fn failure_with_candidates(
    parsed: ParsedObjectSpec,
    candidates: Vec<ObjectSpecCandidateSummary>,
    code: &str,
    message: String,
) -> (r: ObjectSpecResolution)
    ensures
        r@ == failure_with_spec(parsed@, summary_views(candidates@), code@, message@),
{
    let r = ObjectSpecResolution {
        input: parsed.input,
        display_text: parsed.display_text,
        class_symbol: parsed.class_symbol,
        creation_args: parsed.creation_args,
        resolved_kind: None,
        resolved_kind_version: None,
        params: Vec::new(),
        instance_ports: Vec::new(),
        candidates,
        diagnostics: vec![ObjectSpecDiagnostic { code: owned(code), message }],
    };
    assert(param_views(r.params@) =~= Seq::<ParamView>::empty());
    assert(spec_port_views(r.instance_ports@) =~= Seq::<SpecPortView>::empty());
    assert(spec_diagnostic_views(r.diagnostics@) =~= seq![DiagnosticTextView { code: code@, message: message@ }]);
    r
}

fn failure(parsed: ParsedObjectSpec, code: &str, message: String) -> (r: ObjectSpecResolution)
    ensures
        r@ == failure_with_spec(parsed@, Seq::empty(), code@, message@),
{
    let none: Vec<ObjectSpecCandidateSummary> = Vec::new();
    assert(summary_views(none@) =~= Seq::<SummaryView>::empty());
    failure_with_candidates(parsed, none, code, message)
}

fn one_summary(candidate: &ObjectRegistryCandidate) -> (r: Vec<ObjectSpecCandidateSummary>)
    ensures
        summary_views(r@) == seq![summary_spec(candidate@)],
{
    let r = vec![candidate.summary()];
    assert(summary_views(r@) =~= seq![summary_spec(candidate@)]);
    r
}

/// The resolution when no candidate matches.
pub fn unresolved_resolution(parsed: ParsedObjectSpec) -> (r: ObjectSpecResolution)
    ensures
        r@ == unresolved_spec(parsed@),
{
    let message = concat2(parsed.class_symbol.as_str(), " is not available in the local Runtime object registry");
    failure(parsed, "object-spec.unresolved", message)
}

/// The resolution when several candidates match.
pub fn ambiguous_resolution(parsed: ParsedObjectSpec, candidates: Vec<ObjectRegistryCandidate>) -> (r: ObjectSpecResolution)
    ensures
        r@ == ambiguous_spec(parsed@, candidate_views(candidates@)),
{
    let ghost target = candidate_views(candidates@).map_values(|c: CandidateView| summary_spec(c));
    let mut summaries: Vec<ObjectSpecCandidateSummary> = Vec::new();
    let mut list = String::new();
    let mut i: usize = 0;
    while i < candidates.len()
        invariant
            target == candidate_views(candidates@).map_values(|c: CandidateView| summary_spec(c)),
            i <= candidates@.len(),
            summary_views(summaries@) == target.subrange(0, i as int),
            list@ == candidate_list(target.subrange(0, i as int)),
        decreases candidates.len() - i,
    {
        let summary = candidates[i].summary();
        let ghost before = summaries@;
        let ghost before_list = list@;
        proof {
            assert(target[i as int] == summary@);
            assert(target.subrange(0, i + 1).drop_last() =~= target.subrange(0, i as int));
            assert(target.subrange(0, i + 1).last() == summary@);
            if i == 0 {
                assert(before_list =~= Seq::<char>::empty());
            }
        }
        if i > 0 {
            list.append(", ");
        }
        list.append(summary.id.as_str());
        list.append(" (");
        list.append(summary.source.as_str());
        list.append(")");
        summaries.push(summary);
        proof {
            assert(summary_views(summaries@) =~= summary_views(before).push(target[i as int]));
            assert(target.subrange(0, i + 1) =~= target.subrange(0, i as int).push(target[i as int]));
            if i == 0 {
                assert(list@ =~= target[0].id + " ("@ + target[0].source + ")"@);
            } else {
                assert(list@ =~= before_list + ", "@ + target[i as int].id + " ("@ + target[i as int].source + ")"@);
            }
        }
        i = i + 1;
    }
    proof {
        assert(target.subrange(0, target.len() as int) =~= target);
    }
    let mut message = concat2(parsed.class_symbol.as_str(), " matches multiple Runtime object candidates: ");
    message.append(list.as_str());
    failure_with_candidates(parsed, summaries, "object-spec.ambiguous", message)
}

/// The only argument of `p <patch>`, when a non-empty symbol.
pub fn explicit_project_patch_ref(parsed: &ParsedObjectSpec) -> (r: Option<String>)
    ensures
        opt_str(r) == explicit_ref_spec(parsed@),
{
    if parsed.creation_args.len() != 1 {
        return None;
    }
    assert(parsed@.creation_args[0] == parsed.creation_args@[0]@);
    match &parsed.creation_args[0] {
        ObjectSpecAtom::Symbol(v) => if v.unicode_len() > 0 {
            Some(v.clone())
        } else {
            None
        },
        _ => None,
    }
}

/// Resolves an object spec to a project patch candidate.
pub fn construct_project_patch(parsed: ParsedObjectSpec, candidate: &ObjectRegistryCandidate) -> (r: ObjectSpecResolution)
    ensures
        r@ == construct_project_patch_spec(parsed@, candidate@),
{
    let patch = match &candidate.project_patch {
        Some(p) => p,
        None => {
            return failure_with_candidates(parsed, one_summary(candidate), "object-spec.unresolved",
                owned("project patch candidate is missing patch metadata"));
        },
    };
    if str_eq(parsed.class_symbol.as_str(), "p") || str_eq(parsed.class_symbol.as_str(), "object.core.subpatch") {
        if parsed.creation_args.len() != 1 {
            return failure_with_candidates(parsed, one_summary(candidate), "object-spec.invalid-arg-count",
                owned("subpatch object spec requires exactly one patch reference"));
        }
        match explicit_project_patch_ref(&parsed) {
            None => {
                let message = concat2(parsed.class_symbol.as_str(), " reference argument must be a symbol");
                return failure_with_candidates(parsed, one_summary(candidate), "object-spec.invalid-arg-type", message);
            },
            Some(reference) => {
                if !str_eq(reference.as_str(), patch.patch_id.as_str()) {
                    let mut message = concat2("project patch ", reference.as_str());
                    message.append(" is not available in the active project");
                    return failure_with_candidates(parsed, one_summary(candidate), "object-spec.unresolved", message);
                }
            },
        }
    } else if parsed.creation_args.len() != 0 {
        let message = concat2(parsed.class_symbol.as_str(), " project patch shortcut accepts no creation arguments");
        return failure_with_candidates(parsed, one_summary(candidate), "object-spec.invalid-arg-count", message);
    }
    let params = vec![
        ObjectTextParam { key: owned("patchRef"), value: ObjectTextParamValue::Text(patch.patch_id.clone()) },
        ObjectTextParam { key: owned("patchRevision"), value: ObjectTextParamValue::Text(patch.revision.clone()) },
    ];
    let ports = copy_ports(&patch.ports);
    let candidates = one_summary(candidate);
    let r = ObjectSpecResolution {
        input: parsed.input,
        display_text: parsed.display_text,
        class_symbol: parsed.class_symbol,
        creation_args: parsed.creation_args,
        resolved_kind: Some(candidate.kind.clone()),
        resolved_kind_version: Some(candidate.kind_version.clone()),
        params,
        instance_ports: ports,
        candidates,
        diagnostics: Vec::new(),
    };
    proof {
        assert(param_views(r.params@) =~= seq![
            ParamView { key: "patchRef"@, value: ParamValueView::Text(patch@.patch_id) },
            ParamView { key: "patchRevision"@, value: ParamValueView::Text(patch@.revision) },
        ]);
        assert(spec_diagnostic_views(r.diagnostics@) =~= Seq::<DiagnosticTextView>::empty());
    }
    r
}


// ---------------------------------------------------------------------------
// Lookup and resolution steps.
// ---------------------------------------------------------------------------

/// The candidates with `class` among their aliases, in registry order.
pub open spec fn alias_matches(c: Seq<CandidateView>, class: Seq<char>) -> Seq<CandidateView>
    decreases c.len(),
{
    if c.len() == 0 {
        Seq::empty()
    } else if c.last().aliases.contains(class) {
        alias_matches(c.drop_last(), class).push(c.last())
    } else {
        alias_matches(c.drop_last(), class)
    }
}

pub open spec fn is_patch_candidate(c: CandidateView, patch_id: Seq<char>) -> bool {
    &&& c.source == ObjectRegistrySource::ProjectPatch
    &&& c.project_patch matches Some(p) && p.patch_id == patch_id
}

/// The project patch candidates of patch `patch_id`, in registry order.
pub open spec fn patch_matches(c: Seq<CandidateView>, patch_id: Seq<char>) -> Seq<CandidateView>
    decreases c.len(),
{
    if c.len() == 0 {
        Seq::empty()
    } else if is_patch_candidate(c.last(), patch_id) {
        patch_matches(c.drop_last(), patch_id).push(c.last())
    } else {
        patch_matches(c.drop_last(), patch_id)
    }
}

/// The first first-party core candidate of kind `kind`.
pub open spec fn first_core_candidate(c: Seq<CandidateView>, kind: Seq<char>) -> Option<CandidateView>
    decreases c.len(),
{
    if c.len() == 0 {
        None
    } else if c[0].source == ObjectRegistrySource::FirstPartyCore && c[0].kind == kind {
        Some(c[0])
    } else {
        first_core_candidate(c.drop_first(), kind)
    }
}

pub open spec fn zero_digest() -> Seq<char> {
    Seq::new(64, |i: int| '0')
}

/// The stand-in candidate for a patch reference the registry does not hold.
pub open spec fn unchecked_patch_candidate_spec(patch_id: Seq<char>) -> CandidateView {
    CandidateView {
        id: "project-patch:"@ + patch_id,
        source: ObjectRegistrySource::ProjectPatch,
        aliases: seq![patch_id],
        kind: "object.core.subpatch"@,
        kind_version: CURRENT_KIND_VERSION@,
        display_name: patch_id,
        constructor: Some(CoreNodeConstructor::Subpatch),
        catalog_category: Some("Core"@),
        project_patch: Some(PatchCandidateView {
            patch_id,
            revision: CURRENT_KIND_VERSION@,
            description: None,
            interface_digest: zero_digest(),
            ports: Seq::empty(),
        }),
    }
}

/// The candidates an object spec may mean.
pub open spec fn lookup_spec(c: Seq<CandidateView>, allow_unchecked: bool, p: ParsedView) -> Seq<CandidateView> {
    if is_subpatch_symbol(p.class_symbol) {
        match explicit_ref_spec(p) {
            None => match first_core_candidate(c, "object.core.subpatch"@) {
                Some(x) => seq![x],
                None => Seq::empty(),
            },
            Some(id) => if patch_matches(c, id).len() > 0 || !allow_unchecked {
                patch_matches(c, id)
            } else {
                seq![unchecked_patch_candidate_spec(id)]
            },
        }
    } else {
        alias_matches(c, p.class_symbol)
    }
}

/// A step of resolution: done, or a first-party core object to construct.
#[derive(Debug, Clone, PartialEq, Eq)]
pub enum ObjectSpecStep {
    Resolved(ObjectSpecResolution),
    ConstructCore(ParsedObjectSpec, ObjectRegistryCandidate),
}

pub enum StepView {
    Resolved(SpecResolutionView),
    ConstructCore(ParsedView, CandidateView),
}

impl View for ObjectSpecStep {
    type V = StepView;

    open spec fn view(&self) -> StepView {
        match self {
            ObjectSpecStep::Resolved(r) => StepView::Resolved(r@),
            ObjectSpecStep::ConstructCore(p, c) => StepView::ConstructCore(p@, c@),
        }
    }
}

/// Resolution of a parsed object spec against the registry.
pub open spec fn resolve_step_spec(c: Seq<CandidateView>, allow_unchecked: bool, p: ParsedView) -> StepView {
    if spec_payload_identity(p.class_symbol) {
        StepView::Resolved(failure_with_spec(p, Seq::empty(), "object-spec.payload-identity"@,
            p.class_symbol + " is a payload identity, not an executable object"@))
    } else if spec_unsupported_audio(p.class_symbol) is Some {
        StepView::Resolved(failure_with_spec(p, Seq::empty(), "object-spec.unsupported-first-party"@,
            spec_unsupported_audio(p.class_symbol).unwrap()))
    } else {
        let found = lookup_spec(c, allow_unchecked, p);
        if found.len() == 0 {
            StepView::Resolved(unresolved_spec(p))
        } else if found.len() == 1 {
            match found[0].source {
                ObjectRegistrySource::FirstPartyCore => StepView::ConstructCore(p, found[0]),
                ObjectRegistrySource::ProjectPatch => StepView::Resolved(construct_project_patch_spec(p, found[0])),
                _ => StepView::Resolved(failure_with_spec(p, Seq::empty(), "object-spec.provider-unavailable"@,
                    "package and native object providers are reserved but not loaded in this Runtime tranche"@)),
            }
        } else {
            StepView::Resolved(ambiguous_spec(p, found))
        }
    }
}

fn zero_digest_string() -> (r: String)
    ensures
        r@ == zero_digest(),
{
    let mut r = String::new();
    let mut i: usize = 0;
    while i < 64
        invariant
            i <= 64,
            r@ == Seq::new(i as nat, |k: int| '0'),
        decreases 64 - i,
    {
        r.append("0");
        proof {
            reveal_strlit("0");
            assert(r@ =~= Seq::new((i + 1) as nat, |k: int| '0'));
        }
        i = i + 1;
    }
    r
}

impl ObjectRegistry {
    /// The first first-party core candidate of kind `kind`.
    fn core_candidate(&self, kind: &str) -> (r: Option<ObjectRegistryCandidate>)
        ensures
            match r {
                Some(x) => first_core_candidate(candidate_views(self.candidates@), kind@) == Some(x@),
                None => first_core_candidate(candidate_views(self.candidates@), kind@) is None,
            },
    {
        let ghost v = candidate_views(self.candidates@);
        let mut i: usize = 0;
        assert(v.subrange(0, v.len() as int) =~= v);
        while i < self.candidates.len()
            invariant
                v == candidate_views(self.candidates@),
                i <= v.len(),
                first_core_candidate(v, kind@) == first_core_candidate(v.subrange(i as int, v.len() as int), kind@),
            decreases self.candidates.len() - i,
        {
            let ghost rest = v.subrange(i as int, v.len() as int);
            assert(rest.drop_first() =~= v.subrange(i + 1, v.len() as int));
            assert(rest[0] == v[i as int]);
            let c = &self.candidates[i];
            if c.source == ObjectRegistrySource::FirstPartyCore && str_eq(c.kind.as_str(), kind) {
                return Some(copy_candidate(c));
            }
            i = i + 1;
        }
        None
    }

    /// The candidates an object spec may mean.
    pub fn lookup_candidates(&self, parsed: &ParsedObjectSpec) -> (r: Vec<ObjectRegistryCandidate>)
        ensures
            candidate_views(r@) == lookup_spec(candidate_views(self.candidates@), self.allow_unchecked_project_patch_refs, parsed@),
    {
        let ghost v = candidate_views(self.candidates@);
        let class = parsed.class_symbol.as_str();
        if str_eq(class, "p") || str_eq(class, "object.core.subpatch") {
            match explicit_project_patch_ref(parsed) {
                None => {
                    return match self.core_candidate("object.core.subpatch") {
                        Some(x) => {
                            let r = vec![x];
                            assert(candidate_views(r@) =~= seq![r@[0]@]);
                            r
                        },
                        None => {
                            let r: Vec<ObjectRegistryCandidate> = Vec::new();
                            assert(candidate_views(r@) =~= Seq::<CandidateView>::empty());
                            r
                        },
                    };
                },
                Some(patch_id) => {
                    let mut matches: Vec<ObjectRegistryCandidate> = Vec::new();
                    let mut i: usize = 0;
                    while i < self.candidates.len()
                        invariant
                            v == candidate_views(self.candidates@),
                            i <= v.len(),
                            candidate_views(matches@) == patch_matches(v.subrange(0, i as int), patch_id@),
                        decreases self.candidates.len() - i,
                    {
                        proof {
                            assert(v.subrange(0, i + 1).drop_last() =~= v.subrange(0, i as int));
                            assert(v.subrange(0, i + 1).last() == v[i as int]);
                        }
                        let c = &self.candidates[i];
                        let hit = match &c.project_patch {
                            Some(p) => c.source == ObjectRegistrySource::ProjectPatch && str_eq(p.patch_id.as_str(), patch_id.as_str()),
                            None => false,
                        };
                        if hit {
                            let ghost before = matches@;
                            matches.push(copy_candidate(c));
                            proof {
                                assert(candidate_views(matches@) =~= candidate_views(before).push(v[i as int]));
                            }
                        }
                        i = i + 1;
                    }
                    proof {
                        assert(v.subrange(0, v.len() as int) =~= v);
                    }
                    if matches.len() > 0 || !self.allow_unchecked_project_patch_refs {
                        return matches;
                    }
                    let digest = zero_digest_string();
                    let candidate = ObjectRegistryCandidate {
                        id: concat2("project-patch:", patch_id.as_str()),
                        source: ObjectRegistrySource::ProjectPatch,
                        aliases: vec![patch_id.clone()],
                        kind: owned("object.core.subpatch"),
                        kind_version: owned(CURRENT_KIND_VERSION),
                        display_name: patch_id.clone(),
                        constructor: Some(CoreNodeConstructor::Subpatch),
                        catalog_category: Some("Core"),
                        project_patch: Some(ProjectPatchCandidate {
                            patch_id: patch_id.clone(),
                            revision: owned(CURRENT_KIND_VERSION),
                            description: None,
                            interface_digest: digest,
                            ports: Vec::new(),
                        }),
                    };
                    proof {
                        reveal_strlit("Core");
                        assert(string_views(candidate.aliases@) =~= seq![patch_id@]);
                        assert(spec_port_views(candidate.project_patch.unwrap().ports@) =~= Seq::<SpecPortView>::empty());
                        assert(candidate@ == unchecked_patch_candidate_spec(patch_id@));
                    }
                    let r = vec![candidate];
                    assert(candidate_views(r@) =~= seq![unchecked_patch_candidate_spec(patch_id@)]);
                    return r;
                },
            }
        }
        let mut matches: Vec<ObjectRegistryCandidate> = Vec::new();
        let mut i: usize = 0;
        while i < self.candidates.len()
            invariant
                v == candidate_views(self.candidates@),
                i <= v.len(),
                candidate_views(matches@) == alias_matches(v.subrange(0, i as int), parsed@.class_symbol),
            decreases self.candidates.len() - i,
        {
            proof {
                assert(v.subrange(0, i + 1).drop_last() =~= v.subrange(0, i as int));
                assert(v.subrange(0, i + 1).last() == v[i as int]);
            }
            let c = &self.candidates[i];
            if c.matches_class_symbol(parsed.class_symbol.as_str()) {
                let ghost before = matches@;
                matches.push(copy_candidate(c));
                proof {
                    assert(candidate_views(matches@) =~= candidate_views(before).push(v[i as int]));
                }
            }
            i = i + 1;
        }
        proof {
            assert(v.subrange(0, v.len() as int) =~= v);
        }
        matches
    }

    /// Resolves a parsed object spec: to a resolution, or to the first-party
    /// core object whose constructor builds it.
    pub fn resolve(&self, parsed: ParsedObjectSpec) -> (r: ObjectSpecStep)
        ensures
            r@ == resolve_step_spec(candidate_views(self.candidates@), self.allow_unchecked_project_patch_refs, parsed@),
    {
        if is_payload_identity_kind(parsed.class_symbol.as_str()) {
            let message = concat2(parsed.class_symbol.as_str(), " is a payload identity, not an executable object");
            return ObjectSpecStep::Resolved(failure(parsed, "object-spec.payload-identity", message));
        }
        match unsupported_first_party_audio_message(parsed.class_symbol.as_str()) {
            Some(message) => {
                return ObjectSpecStep::Resolved(failure(parsed, "object-spec.unsupported-first-party", owned(message)));
            },
            None => {},
        }
        let mut candidates = self.lookup_candidates(&parsed);
        if candidates.len() == 0 {
            return ObjectSpecStep::Resolved(unresolved_resolution(parsed));
        }
        if candidates.len() == 1 {
            let candidate = candidates.pop().unwrap();
            return match candidate.source {
                ObjectRegistrySource::FirstPartyCore => ObjectSpecStep::ConstructCore(parsed, candidate),
                ObjectRegistrySource::ProjectPatch => ObjectSpecStep::Resolved(construct_project_patch(parsed, &candidate)),
                _ => ObjectSpecStep::Resolved(failure(parsed, "object-spec.provider-unavailable",
                    owned("package and native object providers are reserved but not loaded in this Runtime tranche"))),
            };
        }
        ObjectSpecStep::Resolved(ambiguous_resolution(parsed, candidates))
    }
}



// ---------------------------------------------------------------------------
// First-party core constructors.
// ---------------------------------------------------------------------------

/// The port lists of the first-party core objects, as the object-spec port
/// catalog builds them; `stored_*` are those of the stored-value objects of
/// each number type.
#[derive(Debug, Clone, PartialEq, Eq)]
pub struct ObjectSpecPortCatalog {
    pub control_operator: Vec<ObjectSpecPort>,
    pub control_sqrt: Vec<ObjectSpecPort>,
    pub bang: Vec<ObjectSpecPort>,
    pub message: Vec<ObjectSpecPort>,
    pub comment: Vec<ObjectSpecPort>,
    pub stored_float: Vec<ObjectSpecPort>,
    pub stored_int: Vec<ObjectSpecPort>,
    pub stored_uint: Vec<ObjectSpecPort>,
    pub audio_sig: Vec<ObjectSpecPort>,
    pub audio_osc: Vec<ObjectSpecPort>,
    pub audio_binary: Vec<ObjectSpecPort>,
    pub audio_input: Vec<ObjectSpecPort>,
    pub audio_output: Vec<ObjectSpecPort>,
}

pub struct PortCatalogView {
    pub control_operator: Seq<SpecPortView>,
    pub control_sqrt: Seq<SpecPortView>,
    pub bang: Seq<SpecPortView>,
    pub message: Seq<SpecPortView>,
    pub comment: Seq<SpecPortView>,
    pub stored_float: Seq<SpecPortView>,
    pub stored_int: Seq<SpecPortView>,
    pub stored_uint: Seq<SpecPortView>,
    pub audio_sig: Seq<SpecPortView>,
    pub audio_osc: Seq<SpecPortView>,
    pub audio_binary: Seq<SpecPortView>,
    pub audio_input: Seq<SpecPortView>,
    pub audio_output: Seq<SpecPortView>,
}

impl View for ObjectSpecPortCatalog {
    type V = PortCatalogView;

    open spec fn view(&self) -> PortCatalogView {
        PortCatalogView {
            control_operator: spec_port_views(self.control_operator@),
            control_sqrt: spec_port_views(self.control_sqrt@),
            bang: spec_port_views(self.bang@),
            message: spec_port_views(self.message@),
            comment: spec_port_views(self.comment@),
            stored_float: spec_port_views(self.stored_float@),
            stored_int: spec_port_views(self.stored_int@),
            stored_uint: spec_port_views(self.stored_uint@),
            audio_sig: spec_port_views(self.audio_sig@),
            audio_osc: spec_port_views(self.audio_osc@),
            audio_binary: spec_port_views(self.audio_binary@),
            audio_input: spec_port_views(self.audio_input@),
            audio_output: spec_port_views(self.audio_output@),
        }
    }
}

pub open spec fn plain_failure(p: ParsedView, code: Seq<char>, message: Seq<char>) -> SpecResolutionView {
    failure_with_spec(p, Seq::empty(), code, message)
}

pub open spec fn spec_count_code() -> Seq<char> {
    "object-spec.invalid-arg-count"@
}

pub open spec fn spec_type_code() -> Seq<char> {
    "object-spec.invalid-arg-type"@
}

pub open spec fn is_control_value_core_kind(kind: Seq<char>) -> bool {
    kind == "object.core.bang"@ || kind == "object.core.message"@ || kind == "object.core.comment"@
        || kind == "object.core.float"@ || kind == "object.core.int"@ || kind == "object.core.uint"@
}

pub open spec fn is_audio_core_kind(kind: Seq<char>) -> bool {
    kind == "object.core.audio.sig"@ || kind == "object.core.audio.osc"@ || kind == "object.core.audio.operator.mul"@
        || kind == "object.core.audio.input"@ || kind == "object.core.audio.output"@
}

/// A candidate whose constructor family knows its kind: control values and
/// audio objects are built only for their own kinds.
pub open spec fn core_kind_known(c: CandidateView) -> bool {
    &&& c.constructor == Some(CoreNodeConstructor::ControlValue) ==> is_control_value_core_kind(c.kind)
    &&& c.constructor == Some(CoreNodeConstructor::Audio) ==> is_audio_core_kind(c.kind)
}

pub open spec fn core_operator_spec(p: ParsedView, c: CandidateView, cat: PortCatalogView) -> SpecResolutionView {
    let args = p.creation_args;
    if c.kind == "object.core.operator.sqrt"@ {
        if args.len() != 0 {
            plain_failure(p, spec_count_code(), "sqrt accepts no creation arguments"@)
        } else {
            success_with_spec(p, c, Seq::empty(), cat.control_sqrt)
        }
    } else if args.len() > 1 {
        plain_failure(p, spec_count_code(), p.class_symbol + " accepts at most one creation argument"@)
    } else if args.len() == 1 && numeric_spec(args[0]) is None {
        plain_failure(p, spec_type_code(), p.class_symbol + " creation argument must be numeric"@)
    } else {
        let right = if args.len() == 1 { numeric_spec(args[0]).unwrap() } else { ParamValueView::WholeFloat(0) };
        success_with_spec(p, c, one_param("right"@, right), cat.control_operator)
    }
}

pub open spec fn core_number_spec(p: ParsedView, c: CandidateView, coerced: Option<ParamValueView>, ports: Seq<SpecPortView>) -> SpecResolutionView {
    let args = p.creation_args;
    if args.len() > 1 {
        plain_failure(p, spec_count_code(), p.class_symbol + " accepts at most one creation argument"@)
    } else if args.len() == 1 && coerced is None {
        plain_failure(p, spec_type_code(), p.class_symbol + " creation argument has the wrong numeric type"@)
    } else {
        let value = if args.len() == 1 { coerced.unwrap() } else { ParamValueView::Int(0) };
        success_with_spec(p, c, one_param("value"@, value), ports)
    }
}

pub open spec fn core_value_spec(p: ParsedView, c: CandidateView, cat: PortCatalogView) -> SpecResolutionView {
    let args = p.creation_args;
    let first = if args.len() == 1 { Some(args[0]) } else { None };
    if c.kind == "object.core.bang"@ {
        if args.len() != 0 {
            plain_failure(p, spec_count_code(), p.class_symbol + " accepts no creation arguments"@)
        } else {
            success_with_spec(p, c, Seq::empty(), cat.bang)
        }
    } else if c.kind == "object.core.message"@ || c.kind == "object.core.comment"@ {
        success_with_spec(p, c, one_param("text"@, ParamValueView::Text(joined_text(args))),
            if c.kind == "object.core.message"@ { cat.message } else { cat.comment })
    } else if c.kind == "object.core.float"@ {
        core_number_spec(p, c, match first { Some(a) => numeric_spec(a), None => None }, cat.stored_float)
    } else if c.kind == "object.core.int"@ {
        core_number_spec(p, c, match first { Some(a) => integer_spec(a), None => None }, cat.stored_int)
    } else {
        core_number_spec(p, c, match first { Some(a) => unsigned_spec(a), None => None }, cat.stored_uint)
    }
}

pub open spec fn core_audio_number_spec(p: ParsedView, c: CandidateView, key: Seq<char>, default_value: i64, ports: Seq<SpecPortView>) -> SpecResolutionView {
    let args = p.creation_args;
    if args.len() > 1 {
        plain_failure(p, spec_count_code(), p.class_symbol + " accepts at most one creation argument"@)
    } else if args.len() == 1 && numeric_spec(args[0]) is None {
        plain_failure(p, spec_type_code(), p.class_symbol + " creation argument must be numeric"@)
    } else {
        let value = if args.len() == 1 { numeric_spec(args[0]).unwrap() } else { ParamValueView::WholeFloat(default_value) };
        success_with_spec(p, c, one_param(key, value), ports)
    }
}

pub open spec fn core_audio_spec(p: ParsedView, c: CandidateView, cat: PortCatalogView) -> SpecResolutionView {
    let args = p.creation_args;
    if c.kind == "object.core.audio.sig"@ {
        core_audio_number_spec(p, c, "value"@, 0, cat.audio_sig)
    } else if c.kind == "object.core.audio.osc"@ {
        core_audio_number_spec(p, c, "frequency"@, 440, cat.audio_osc)
    } else if c.kind == "object.core.audio.operator.mul"@ {
        if args.len() != 0 {
            plain_failure(p, spec_count_code(), "*~ accepts no creation arguments in the current Runtime audio substrate"@)
        } else {
            success_with_spec(p, c, Seq::empty(), cat.audio_binary)
        }
    } else if args.len() != 0 {
        plain_failure(p, spec_count_code(), p.class_symbol + " accepts no creation arguments"@)
    } else {
        success_with_spec(p, c, Seq::empty(),
            if c.kind == "object.core.audio.input"@ { cat.audio_input } else { cat.audio_output })
    }
}

pub open spec fn core_named_ref_spec(p: ParsedView, c: CandidateView, key: Seq<char>, count_message: Seq<char>) -> SpecResolutionView {
    let args = p.creation_args;
    if args.len() != 1 {
        plain_failure(p, spec_count_code(), count_message)
    } else if symbol_spec(args[0]) is None {
        plain_failure(p, spec_type_code(), p.class_symbol + " reference argument must be a symbol"@)
    } else {
        success_with_spec(p, c, one_param(key, ParamValueView::Text(symbol_spec(args[0]).unwrap())), Seq::empty())
    }
}

pub open spec fn core_optional_ref_spec(p: ParsedView, c: CandidateView, key: Seq<char>) -> SpecResolutionView {
    let args = p.creation_args;
    if args.len() > 1 {
        plain_failure(p, spec_count_code(), p.class_symbol + " accepts at most one creation argument"@)
    } else if args.len() == 1 && symbol_spec(args[0]) is None {
        plain_failure(p, spec_type_code(), p.class_symbol + " reference argument must be a symbol"@)
    } else if args.len() == 1 {
        success_with_spec(p, c, one_param(key, ParamValueView::Text(symbol_spec(args[0]).unwrap())), Seq::empty())
    } else {
        success_with_spec(p, c, Seq::empty(), Seq::empty())
    }
}

/// Construction of a first-party core object by its constructor family.
pub open spec fn construct_core_spec(p: ParsedView, c: CandidateView, cat: PortCatalogView) -> SpecResolutionView {
    match c.constructor {
        Some(CoreNodeConstructor::ControlOperator) => core_operator_spec(p, c, cat),
        Some(CoreNodeConstructor::ControlValue) => core_value_spec(p, c, cat),
        Some(CoreNodeConstructor::Audio) => core_audio_spec(p, c, cat),
        Some(CoreNodeConstructor::Subpatch) => core_named_ref_spec(p, c, "patchRef"@,
            "subpatch object spec requires exactly one patch reference"@),
        Some(CoreNodeConstructor::BoundaryPort) => core_optional_ref_spec(p, c, "portId"@),
        None => failure_with_spec(p, seq![summary_spec(c)], "object-spec.unresolved"@,
            c.kind + " is registered but has no Runtime constructor"@),
    }
}

fn spec_numeric(atom: &ObjectSpecAtom) -> (r: Option<ObjectTextParamValue>)
    ensures
        param_value_option_view(r) == numeric_spec(atom@),
{
    match atom {
        ObjectSpecAtom::Float(f) => Some(ObjectTextParamValue::Float(copy_f64(f))),
        ObjectSpecAtom::Int(i) => Some(ObjectTextParamValue::WholeFloat(*i)),
        _ => None,
    }
}

fn spec_integer(atom: &ObjectSpecAtom) -> (r: Option<ObjectTextParamValue>)
    ensures
        param_value_option_view(r) == integer_spec(atom@),
{
    match atom {
        ObjectSpecAtom::Int(i) => Some(ObjectTextParamValue::Int(*i)),
        _ => None,
    }
}

fn spec_unsigned(atom: &ObjectSpecAtom) -> (r: Option<ObjectTextParamValue>)
    ensures
        param_value_option_view(r) == unsigned_spec(atom@),
{
    match atom {
        ObjectSpecAtom::Int(i) => if *i >= 0 {
            Some(ObjectTextParamValue::UInt(*i as u64))
        } else {
            None
        },
        _ => None,
    }
}

fn spec_symbol(atom: &ObjectSpecAtom) -> (r: Option<String>)
    ensures
        opt_str(r) == symbol_spec(atom@),
{
    match atom {
        ObjectSpecAtom::Symbol(v) => if v.unicode_len() > 0 {
            Some(v.clone())
        } else {
            None
        },
        _ => None,
    }
}

fn spec_atom_text(atom: &ObjectSpecAtom) -> (r: String)
    ensures
        r@ == atom_text(atom@),
{
    match atom {
        ObjectSpecAtom::Float(f) => f.text.clone(),
        ObjectSpecAtom::Int(i) => signed_decimal_string(*i),
        ObjectSpecAtom::Bool(b) => if *b {
            owned("true")
        } else {
            owned("false")
        },
        ObjectSpecAtom::Symbol(v) => v.clone(),
    }
}

fn spec_joined_text(args: &Vec<ObjectSpecAtom>) -> (r: String)
    ensures
        r@ == joined_text(spec_atom_views(args@)),
{
    let ghost views = spec_atom_views(args@);
    let mut r = String::new();
    let mut i: usize = 0;
    while i < args.len()
        invariant
            views == spec_atom_views(args@),
            i <= args@.len(),
            r@ == joined_text(views.subrange(0, i as int)),
        decreases args.len() - i,
    {
        let piece = spec_atom_text(&args[i]);
        let ghost before = r@;
        proof {
            let next = views.subrange(0, i + 1);
            assert(next.drop_last() =~= views.subrange(0, i as int));
            assert(next.last() == views[i as int]);
        }
        if i > 0 {
            r.append(" ");
        }
        r.append(piece.as_str());
        proof {
            if i == 0 {
                assert(before =~= Seq::<char>::empty());
                assert(r@ =~= atom_text(views[0]));
            } else {
                assert(r@ =~= before + " "@ + atom_text(views[i as int]));
            }
        }
        i = i + 1;
    }
    proof {
        assert(views.subrange(0, args@.len() as int) =~= views);
    }
    r
}

fn core_success(
    parsed: ParsedObjectSpec,
    candidate: &ObjectRegistryCandidate,
    params: Vec<ObjectTextParam>,
    ports: &Vec<ObjectSpecPort>,
) -> (r: ObjectSpecResolution)
    ensures
        r@ == success_with_spec(parsed@, candidate@, param_views(params@), spec_port_views(ports@)),
{
    let candidates = one_summary(candidate);
    let r = ObjectSpecResolution {
        input: parsed.input,
        display_text: parsed.display_text,
        class_symbol: parsed.class_symbol,
        creation_args: parsed.creation_args,
        resolved_kind: Some(candidate.kind.clone()),
        resolved_kind_version: Some(candidate.kind_version.clone()),
        params,
        instance_ports: copy_ports(ports),
        candidates,
        diagnostics: Vec::new(),
    };
    assert(spec_diagnostic_views(r.diagnostics@) =~= Seq::<DiagnosticTextView>::empty());
    r
}

fn no_spec_params() -> (r: Vec<ObjectTextParam>)
    ensures
        param_views(r@) == Seq::<ParamView>::empty(),
{
    let r: Vec<ObjectTextParam> = Vec::new();
    assert(param_views(r@) =~= Seq::<ParamView>::empty());
    r
}

fn one_spec_param(key: &str, value: ObjectTextParamValue) -> (r: Vec<ObjectTextParam>)
    ensures
        param_views(r@) == one_param(key@, value@),
{
    let r = vec![ObjectTextParam { key: owned(key), value }];
    assert(param_views(r@) =~= one_param(key@, value@));
    r
}

fn core_operator(parsed: ParsedObjectSpec, candidate: &ObjectRegistryCandidate, catalog: &ObjectSpecPortCatalog) -> (r: ObjectSpecResolution)
    ensures
        r@ == core_operator_spec(parsed@, candidate@, catalog@),
{
    let ghost p = parsed@;
    if str_eq(candidate.kind.as_str(), "object.core.operator.sqrt") {
        if parsed.creation_args.len() != 0 {
            return failure(parsed, "object-spec.invalid-arg-count", owned("sqrt accepts no creation arguments"));
        }
        return core_success(parsed, candidate, no_spec_params(), &catalog.control_sqrt);
    }
    if parsed.creation_args.len() > 1 {
        let message = concat2(parsed.class_symbol.as_str(), " accepts at most one creation argument");
        return failure(parsed, "object-spec.invalid-arg-count", message);
    }
    let right = if parsed.creation_args.len() == 1 {
        assert(p.creation_args[0] == parsed.creation_args@[0]@);
        match spec_numeric(&parsed.creation_args[0]) {
            Some(v) => v,
            None => {
                let message = concat2(parsed.class_symbol.as_str(), " creation argument must be numeric");
                return failure(parsed, "object-spec.invalid-arg-type", message);
            },
        }
    } else {
        ObjectTextParamValue::WholeFloat(0)
    };
    core_success(parsed, candidate, one_spec_param("right", right), &catalog.control_operator)
}

fn core_number(
    parsed: ParsedObjectSpec,
    candidate: &ObjectRegistryCandidate,
    coerced: Option<ObjectTextParamValue>,
    ports: &Vec<ObjectSpecPort>,
) -> (r: ObjectSpecResolution)
    ensures
        r@ == core_number_spec(parsed@, candidate@, param_value_option_view(coerced), spec_port_views(ports@)),
{
    if parsed.creation_args.len() > 1 {
        let message = concat2(parsed.class_symbol.as_str(), " accepts at most one creation argument");
        return failure(parsed, "object-spec.invalid-arg-count", message);
    }
    let value = if parsed.creation_args.len() == 1 {
        match coerced {
            Some(v) => v,
            None => {
                let message = concat2(parsed.class_symbol.as_str(), " creation argument has the wrong numeric type");
                return failure(parsed, "object-spec.invalid-arg-type", message);
            },
        }
    } else {
        ObjectTextParamValue::Int(0)
    };
    core_success(parsed, candidate, one_spec_param("value", value), ports)
}

fn core_value(parsed: ParsedObjectSpec, candidate: &ObjectRegistryCandidate, catalog: &ObjectSpecPortCatalog) -> (r: ObjectSpecResolution)
    ensures
        r@ == core_value_spec(parsed@, candidate@, catalog@),
{
    let ghost p = parsed@;
    let kind = candidate.kind.as_str();
    if str_eq(kind, "object.core.bang") {
        if parsed.creation_args.len() != 0 {
            let message = concat2(parsed.class_symbol.as_str(), " accepts no creation arguments");
            return failure(parsed, "object-spec.invalid-arg-count", message);
        }
        return core_success(parsed, candidate, no_spec_params(), &catalog.bang);
    }
    if str_eq(kind, "object.core.message") || str_eq(kind, "object.core.comment") {
        let text = spec_joined_text(&parsed.creation_args);
        let ports = if str_eq(kind, "object.core.message") { &catalog.message } else { &catalog.comment };
        return core_success(parsed, candidate, one_spec_param("text", ObjectTextParamValue::Text(text)), ports);
    }
    if parsed.creation_args.len() == 1 {
        assert(p.creation_args[0] == parsed.creation_args@[0]@);
    }
    if str_eq(kind, "object.core.float") {
        let coerced = if parsed.creation_args.len() == 1 { spec_numeric(&parsed.creation_args[0]) } else { None };
        core_number(parsed, candidate, coerced, &catalog.stored_float)
    } else if str_eq(kind, "object.core.int") {
        let coerced = if parsed.creation_args.len() == 1 { spec_integer(&parsed.creation_args[0]) } else { None };
        core_number(parsed, candidate, coerced, &catalog.stored_int)
    } else {
        let coerced = if parsed.creation_args.len() == 1 { spec_unsigned(&parsed.creation_args[0]) } else { None };
        core_number(parsed, candidate, coerced, &catalog.stored_uint)
    }
}

fn core_audio_number(
    parsed: ParsedObjectSpec,
    candidate: &ObjectRegistryCandidate,
    key: &str,
    default_value: i64,
    ports: &Vec<ObjectSpecPort>,
) -> (r: ObjectSpecResolution)
    ensures
        r@ == core_audio_number_spec(parsed@, candidate@, key@, default_value, spec_port_views(ports@)),
{
    let ghost p = parsed@;
    if parsed.creation_args.len() > 1 {
        let message = concat2(parsed.class_symbol.as_str(), " accepts at most one creation argument");
        return failure(parsed, "object-spec.invalid-arg-count", message);
    }
    let value = if parsed.creation_args.len() == 1 {
        assert(p.creation_args[0] == parsed.creation_args@[0]@);
        match spec_numeric(&parsed.creation_args[0]) {
            Some(v) => v,
            None => {
                let message = concat2(parsed.class_symbol.as_str(), " creation argument must be numeric");
                return failure(parsed, "object-spec.invalid-arg-type", message);
            },
        }
    } else {
        ObjectTextParamValue::WholeFloat(default_value)
    };
    core_success(parsed, candidate, one_spec_param(key, value), ports)
}

fn core_audio(parsed: ParsedObjectSpec, candidate: &ObjectRegistryCandidate, catalog: &ObjectSpecPortCatalog) -> (r: ObjectSpecResolution)
    ensures
        r@ == core_audio_spec(parsed@, candidate@, catalog@),
{
    let kind = candidate.kind.as_str();
    if str_eq(kind, "object.core.audio.sig") {
        return core_audio_number(parsed, candidate, "value", 0, &catalog.audio_sig);
    }
    if str_eq(kind, "object.core.audio.osc") {
        return core_audio_number(parsed, candidate, "frequency", 440, &catalog.audio_osc);
    }
    if str_eq(kind, "object.core.audio.operator.mul") {
        if parsed.creation_args.len() != 0 {
            return failure(parsed, "object-spec.invalid-arg-count",
                owned("*~ accepts no creation arguments in the current Runtime audio substrate"));
        }
        return core_success(parsed, candidate, no_spec_params(), &catalog.audio_binary);
    }
    if parsed.creation_args.len() != 0 {
        let message = concat2(parsed.class_symbol.as_str(), " accepts no creation arguments");
        return failure(parsed, "object-spec.invalid-arg-count", message);
    }
    let ports = if str_eq(kind, "object.core.audio.input") { &catalog.audio_input } else { &catalog.audio_output };
    core_success(parsed, candidate, no_spec_params(), ports)
}

fn core_named_ref(parsed: ParsedObjectSpec, candidate: &ObjectRegistryCandidate, key: &str, count_message: &str) -> (r: ObjectSpecResolution)
    ensures
        r@ == core_named_ref_spec(parsed@, candidate@, key@, count_message@),
{
    let ghost p = parsed@;
    if parsed.creation_args.len() != 1 {
        return failure(parsed, "object-spec.invalid-arg-count", owned(count_message));
    }
    assert(p.creation_args[0] == parsed.creation_args@[0]@);
    match spec_symbol(&parsed.creation_args[0]) {
        Some(reference) => {
            let none: Vec<ObjectSpecPort> = Vec::new();
            assert(spec_port_views(none@) =~= Seq::<SpecPortView>::empty());
            core_success(parsed, candidate, one_spec_param(key, ObjectTextParamValue::Text(reference)), &none)
        },
        None => {
            let message = concat2(parsed.class_symbol.as_str(), " reference argument must be a symbol");
            failure(parsed, "object-spec.invalid-arg-type", message)
        },
    }
}

fn core_optional_ref(parsed: ParsedObjectSpec, candidate: &ObjectRegistryCandidate, key: &str) -> (r: ObjectSpecResolution)
    ensures
        r@ == core_optional_ref_spec(parsed@, candidate@, key@),
{
    let ghost p = parsed@;
    let none: Vec<ObjectSpecPort> = Vec::new();
    assert(spec_port_views(none@) =~= Seq::<SpecPortView>::empty());
    if parsed.creation_args.len() > 1 {
        let message = concat2(parsed.class_symbol.as_str(), " accepts at most one creation argument");
        return failure(parsed, "object-spec.invalid-arg-count", message);
    }
    if parsed.creation_args.len() == 0 {
        return core_success(parsed, candidate, no_spec_params(), &none);
    }
    assert(p.creation_args[0] == parsed.creation_args@[0]@);
    match spec_symbol(&parsed.creation_args[0]) {
        Some(reference) => core_success(parsed, candidate, one_spec_param(key, ObjectTextParamValue::Text(reference)), &none),
        None => {
            let message = concat2(parsed.class_symbol.as_str(), " reference argument must be a symbol");
            failure(parsed, "object-spec.invalid-arg-type", message)
        },
    }
}

/// Constructs a first-party core object by its constructor family, with the
/// ports of `catalog`.
pub fn construct_first_party_core(
    parsed: ParsedObjectSpec,
    candidate: &ObjectRegistryCandidate,
    catalog: &ObjectSpecPortCatalog,
) -> (r: ObjectSpecResolution)
    requires
        core_kind_known(candidate@),
    ensures
        r@ == construct_core_spec(parsed@, candidate@, catalog@),
{
    match candidate.constructor {
        Some(CoreNodeConstructor::ControlOperator) => core_operator(parsed, candidate, catalog),
        Some(CoreNodeConstructor::ControlValue) => core_value(parsed, candidate, catalog),
        Some(CoreNodeConstructor::Audio) => core_audio(parsed, candidate, catalog),
        Some(CoreNodeConstructor::Subpatch) => core_named_ref(parsed, candidate, "patchRef",
            "subpatch object spec requires exactly one patch reference"),
        Some(CoreNodeConstructor::BoundaryPort) => core_optional_ref(parsed, candidate, "portId"),
        None => {
            let message = concat2(candidate.kind.as_str(), " is registered but has no Runtime constructor");
            failure_with_candidates(parsed, one_summary(candidate), "object-spec.unresolved", message)
        },
    }
}

// ---------------------------------------------------------------------------
// Parsed input.
// ---------------------------------------------------------------------------

/// A creation argument as the object-spec parser reads it.
#[derive(Debug, Clone, PartialEq, Eq)]
pub enum ContractObjectSpecAtom {
    Float(F64Value),
    Int(i64),
    Uint(u64),
    Bool(bool),
    Identifier(String),
    String(String),
}

/// What the object-spec parser (v0.1) gives for a text.
#[derive(Debug, Clone, PartialEq, Eq)]
pub struct ContractObjectSpec {
    pub ok: bool,
    pub input: String,
    pub display_text: String,
    pub class_name: String,
    pub creation_args: Vec<ContractObjectSpecAtom>,
    pub diagnostics: Vec<ObjectSpecDiagnostic>,
}

pub open spec fn contract_atom_spec(a: ContractObjectSpecAtom) -> AtomView {
    match a {
        ContractObjectSpecAtom::Float(f) => AtomView::Float(f@),
        ContractObjectSpecAtom::Int(i) => AtomView::Int(i),
        ContractObjectSpecAtom::Uint(u) => if u <= i64::MAX {
            AtomView::Int(u as i64)
        } else {
            AtomView::Symbol(decimal(u as nat))
        },
        ContractObjectSpecAtom::Bool(b) => AtomView::Bool(b),
        ContractObjectSpecAtom::Identifier(t) => AtomView::Symbol(t@),
        ContractObjectSpecAtom::String(t) => AtomView::Symbol(t@),
    }
}

/// A parser atom as a runtime creation argument: unsigned values beyond
/// `i64` become symbols holding their digits.
pub fn contract_object_spec_atom_to_runtime(atom: &ContractObjectSpecAtom) -> (r: ObjectSpecAtom)
    ensures
        r@ == contract_atom_spec(*atom),
{
    match atom {
        ContractObjectSpecAtom::Float(f) => ObjectSpecAtom::Float(copy_f64(f)),
        ContractObjectSpecAtom::Int(i) => ObjectSpecAtom::Int(*i),
        ContractObjectSpecAtom::Uint(u) => if *u <= 0x7fff_ffff_ffff_ffff {
            ObjectSpecAtom::Int(*u as i64)
        } else {
            ObjectSpecAtom::Symbol(decimal_string(*u))
        },
        ContractObjectSpecAtom::Bool(b) => ObjectSpecAtom::Bool(*b),
        ContractObjectSpecAtom::Identifier(t) => ObjectSpecAtom::Symbol(t.clone()),
        ContractObjectSpecAtom::String(t) => ObjectSpecAtom::Symbol(t.clone()),
    }
}

/// The parser's reading as a parsed object spec, or the failed resolution
/// its first diagnostic gives.
pub open spec fn parse_input_spec(c: ContractObjectSpec) -> Result<ParsedView, SpecResolutionView> {
    let p = ParsedView {
        input: c.input@,
        display_text: c.display_text@,
        class_symbol: c.class_name@,
        creation_args: c.creation_args@.map_values(|a: ContractObjectSpecAtom| contract_atom_spec(a)),
    };
    if c.ok {
        Ok(p)
    } else if c.diagnostics@.len() > 0 {
        Err(failure_with_spec(p, Seq::empty(), spec_diagnostic_code(c.diagnostics@[0].code@), c.diagnostics@[0].message@))
    } else {
        Err(failure_with_spec(p, Seq::empty(), "object-spec.invalid-syntax"@, "object spec could not be parsed"@))
    }
}

/// Takes the parser's reading of an object spec.
pub fn parse_object_spec_input_v01(parsed: ContractObjectSpec) -> (r: Result<ParsedObjectSpec, ObjectSpecResolution>)
    ensures
        match r {
            Ok(p) => parse_input_spec(parsed) == Ok::<ParsedView, SpecResolutionView>(p@),
            Err(e) => parse_input_spec(parsed) == Err::<ParsedView, SpecResolutionView>(e@),
        },
{
    let ghost target = parsed.creation_args@.map_values(|a: ContractObjectSpecAtom| contract_atom_spec(a));
    let mut args: Vec<ObjectSpecAtom> = Vec::new();
    let mut i: usize = 0;
    while i < parsed.creation_args.len()
        invariant
            target == parsed.creation_args@.map_values(|a: ContractObjectSpecAtom| contract_atom_spec(a)),
            i <= parsed.creation_args@.len(),
            spec_atom_views(args@) == target.subrange(0, i as int),
        decreases parsed.creation_args.len() - i,
    {
        let ghost before = args@;
        args.push(contract_object_spec_atom_to_runtime(&parsed.creation_args[i]));
        proof {
            assert(spec_atom_views(args@) =~= spec_atom_views(before).push(target[i as int]));
            assert(target.subrange(0, i + 1) =~= target.subrange(0, i as int).push(target[i as int]));
        }
        i = i + 1;
    }
    proof {
        assert(target.subrange(0, target.len() as int) =~= target);
    }
    let code = if parsed.diagnostics.len() > 0 {
        runtime_object_spec_diagnostic_code(parsed.diagnostics[0].code.as_str())
    } else {
        owned("object-spec.invalid-syntax")
    };
    let message = if parsed.diagnostics.len() > 0 {
        parsed.diagnostics[0].message.clone()
    } else {
        owned("object spec could not be parsed")
    };
    let spec = ParsedObjectSpec {
        input: parsed.input,
        display_text: parsed.display_text,
        class_symbol: parsed.class_name,
        creation_args: args,
    };
    if parsed.ok {
        return Ok(spec);
    }
    Err(failure(spec, code.as_str(), message))
}



// ---------------------------------------------------------------------------
// Whole resolution.
// ---------------------------------------------------------------------------

/// Every candidate's constructor family knows its kind.
pub open spec fn registry_wf(c: Seq<CandidateView>) -> bool {
    forall|i: int| 0 <= i < c.len() ==> core_kind_known(#[trigger] c[i])
}

pub proof fn lemma_first_party_registry_wf()
    ensures
        registry_wf(first_party_core_nodes_spec().map_values(|d: DescriptorView| core_candidate_spec(d))),
{
    let t = first_party_core_nodes_spec();
    let c = t.map_values(|d: DescriptorView| core_candidate_spec(d));
    assert forall|i: int| 0 <= i < c.len() implies core_kind_known(#[trigger] c[i]) by {
        assert(c[i] == core_candidate_spec(t[i]));
    }
}

proof fn lemma_lookup_wf(c: Seq<CandidateView>, allow_unchecked: bool, p: ParsedView)
    requires
        registry_wf(c),
    ensures
        registry_wf(lookup_spec(c, allow_unchecked, p)),
{
    lemma_alias_matches_wf(c, p.class_symbol);
    if let Some(id) = explicit_ref_spec(p) {
        lemma_patch_matches_wf(c, id);
    }
    lemma_first_core_wf(c, "object.core.subpatch"@);
}

proof fn lemma_alias_matches_wf(c: Seq<CandidateView>, class: Seq<char>)
    requires
        registry_wf(c),
    ensures
        registry_wf(alias_matches(c, class)),
    decreases c.len(),
{
    if c.len() > 0 {
        lemma_alias_matches_wf(c.drop_last(), class);
        let r = alias_matches(c, class);
        let r0 = alias_matches(c.drop_last(), class);
        assert forall|i: int| 0 <= i < r.len() implies core_kind_known(#[trigger] r[i]) by {
            if i < r0.len() {
                assert(r[i] == r0[i]);
            } else {
                assert(r[i] == c[c.len() - 1]);
            }
        }
    }
}

proof fn lemma_patch_matches_wf(c: Seq<CandidateView>, id: Seq<char>)
    requires
        registry_wf(c),
    ensures
        registry_wf(patch_matches(c, id)),
    decreases c.len(),
{
    if c.len() > 0 {
        lemma_patch_matches_wf(c.drop_last(), id);
        let r = patch_matches(c, id);
        let r0 = patch_matches(c.drop_last(), id);
        assert forall|i: int| 0 <= i < r.len() implies core_kind_known(#[trigger] r[i]) by {
            if i < r0.len() {
                assert(r[i] == r0[i]);
            } else {
                assert(r[i] == c[c.len() - 1]);
            }
        }
    }
}

proof fn lemma_first_core_wf(c: Seq<CandidateView>, kind: Seq<char>)
    requires
        registry_wf(c),
    ensures
        first_core_candidate(c, kind) matches Some(x) ==> core_kind_known(x),
    decreases c.len(),
{
    if c.len() > 0 {
        assert(core_kind_known(c[0]));
        if !(c[0].source == ObjectRegistrySource::FirstPartyCore && c[0].kind == kind) {
            assert forall|i: int| 0 <= i < c.drop_first().len() implies core_kind_known(#[trigger] c.drop_first()[i]) by {
                assert(c.drop_first()[i] == c[i + 1]);
            }
            lemma_first_core_wf(c.drop_first(), kind);
        }
    }
}

/// The resolution of a parsed object spec, first-party core objects built
/// with the ports of `catalog`.
pub open spec fn resolve_full_spec(c: Seq<CandidateView>, allow_unchecked: bool, p: ParsedView, cat: PortCatalogView) -> SpecResolutionView {
    match resolve_step_spec(c, allow_unchecked, p) {
        StepView::Resolved(r) => r,
        StepView::ConstructCore(p2, x) => construct_core_spec(p2, x, cat),
    }
}

/// The resolution of a text from the parser's reading of it.
pub open spec fn resolve_text_spec(c: Seq<CandidateView>, allow_unchecked: bool, parse: ContractObjectSpec, cat: PortCatalogView) -> SpecResolutionView {
    match parse_input_spec(parse) {
        Err(r) => r,
        Ok(p) => resolve_full_spec(c, allow_unchecked, p, cat),
    }
}

impl ObjectRegistry {
    /// Resolves an object spec from the parser's reading of its text; the
    /// first-party core objects get the ports of `catalog`.
    pub fn resolve_object_spec(&self, parse: ContractObjectSpec, catalog: &ObjectSpecPortCatalog) -> (r: ObjectSpecResolution)
        requires
            registry_wf(candidate_views(self.candidates@)),
        ensures
            r@ == resolve_text_spec(candidate_views(self.candidates@), self.allow_unchecked_project_patch_refs, parse, catalog@),
    {
        let parsed = match parse_object_spec_input_v01(parse) {
            Ok(parsed) => parsed,
            Err(resolution) => {
                return resolution;
            },
        };
        proof {
            lemma_lookup_wf(candidate_views(self.candidates@), self.allow_unchecked_project_patch_refs, parsed@);
        }
        match self.resolve(parsed) {
            ObjectSpecStep::Resolved(r) => r,
            ObjectSpecStep::ConstructCore(p, c) => {
                proof {
                    let found = lookup_spec(candidate_views(self.candidates@), self.allow_unchecked_project_patch_refs, p@);
                    assert(core_kind_known(found[0]));
                }
                construct_first_party_core(p, &c, catalog)
            },
        }
    }
}

/// Resolves an object spec against the first-party core objects, taking
/// references to any project patch as given.
pub fn resolve_object_spec_v01(parse: ContractObjectSpec, catalog: &ObjectSpecPortCatalog) -> (r: ObjectSpecResolution)
    ensures
        r@ == resolve_text_spec(
            first_party_core_nodes_spec().map_values(|d: DescriptorView| core_candidate_spec(d)),
            true,
            parse,
            catalog@,
        ),
{
    let registry = ObjectRegistry::first_party_core().allow_unchecked_project_patch_refs();
    proof {
        lemma_first_party_registry_wf();
    }
    registry.resolve_object_spec(parse, catalog)
}

// ---------------------------------------------------------------------------
// Laws.
// ---------------------------------------------------------------------------

proof fn lemma_alias_matches(c: Seq<CandidateView>, class: Seq<char>)
    ensures
        forall|i: int| 0 <= i < alias_matches(c, class).len() ==> (#[trigger] alias_matches(c, class)[i]).aliases.contains(class),
    decreases c.len(),
{
    if c.len() > 0 {
        lemma_alias_matches(c.drop_last(), class);
        let r = alias_matches(c, class);
        let r0 = alias_matches(c.drop_last(), class);
        assert forall|i: int| 0 <= i < r.len() implies (#[trigger] r[i]).aliases.contains(class) by {
            if i < r0.len() {
                assert(r[i] == r0[i]);
            }
        }
    }
}

/// Outside `p` and `object.core.subpatch`, every candidate the lookup gives
/// has the class symbol among its aliases.
pub proof fn law_lookup_matches_aliases(c: Seq<CandidateView>, allow_unchecked: bool, p: ParsedView)
    requires
        !is_subpatch_symbol(p.class_symbol),
    ensures
        forall|i: int| 0 <= i < lookup_spec(c, allow_unchecked, p).len()
            ==> (#[trigger] lookup_spec(c, allow_unchecked, p)[i]).aliases.contains(p.class_symbol),
{
    lemma_alias_matches(c, p.class_symbol);
}

/// A resolution names a kind exactly when it carries no diagnostic, and then
/// names one candidate; otherwise it carries exactly one diagnostic, and no
/// parameter or port.
pub proof fn law_resolution_is_kind_or_one_diagnostic(c: Seq<CandidateView>, allow_unchecked: bool, parse: ContractObjectSpec, cat: PortCatalogView)
    ensures
        ({
            let r = resolve_text_spec(c, allow_unchecked, parse, cat);
            &&& r.input == parse.input@ && r.class_symbol == parse.class_name@
            &&& (r.resolved_kind is Some) == (r.diagnostics.len() == 0)
            &&& r.resolved_kind is Some ==> r.candidates.len() == 1
            &&& r.resolved_kind is None ==> r.diagnostics.len() == 1 && r.params.len() == 0 && r.instance_ports.len() == 0
        }),
{
}

// ---------------------------------------------------------------------------
// Catalog entries of project patches.
// ---------------------------------------------------------------------------

/// How a catalog node definition executes.
#[derive(Debug, Clone, Copy, PartialEq, Eq, Structural)]
pub enum CatalogExecutionModel {
    AudioBlock,
    Control,
}

/// How the catalog shows an entry in the object palette.
#[derive(Debug, Clone, Copy, PartialEq, Eq, Structural)]
pub enum CatalogPalette {
    Text,
    Direct,
}

/// The node definition the catalog gives a project patch. `id` is the
/// definition id derived from the patch id and its interface digest.
#[derive(Debug, Clone, PartialEq, Eq)]
pub struct ProjectPatchNodeDefinition {
    pub schema: String,
    pub schema_version: String,
    pub id: String,
    pub version: String,
    pub display_name: String,
    pub category: String,
    pub ports: Vec<ObjectSpecPort>,
    pub execution_model: CatalogExecutionModel,
    pub persistent: bool,
}

pub struct PatchDefinitionView {
    pub schema: Seq<char>,
    pub schema_version: Seq<char>,
    pub id: Seq<char>,
    pub version: Seq<char>,
    pub display_name: Seq<char>,
    pub category: Seq<char>,
    pub ports: Seq<SpecPortView>,
    pub execution_model: CatalogExecutionModel,
    pub persistent: bool,
}

impl View for ProjectPatchNodeDefinition {
    type V = PatchDefinitionView;

    open spec fn view(&self) -> PatchDefinitionView {
        PatchDefinitionView {
            schema: self.schema@,
            schema_version: self.schema_version@,
            id: self.id@,
            version: self.version@,
            display_name: self.display_name@,
            category: self.category@,
            ports: spec_port_views(self.ports@),
            execution_model: self.execution_model,
            persistent: self.persistent,
        }
    }
}

/// A project patch's entry in the node catalog. `catalog_id` is `project.`
/// followed by the sanitized patch id.
#[derive(Debug, Clone, PartialEq, Eq)]
pub struct ProjectPatchCatalogEntry {
    pub catalog_id: String,
    pub canonical_object_spec: String,
    pub patch_id: String,
    pub interface_digest: String,
    pub definition: ProjectPatchNodeDefinition,
    pub creatable: bool,
    pub title: String,
    pub category: String,
    pub palette: CatalogPalette,
    pub description: Option<String>,
}

pub struct PatchCatalogEntryView {
    pub catalog_id: Seq<char>,
    pub canonical_object_spec: Seq<char>,
    pub patch_id: Seq<char>,
    pub interface_digest: Seq<char>,
    pub definition: PatchDefinitionView,
    pub creatable: bool,
    pub title: Seq<char>,
    pub category: Seq<char>,
    pub palette: CatalogPalette,
    pub description: Option<Seq<char>>,
}

impl View for ProjectPatchCatalogEntry {
    type V = PatchCatalogEntryView;

    open spec fn view(&self) -> PatchCatalogEntryView {
        PatchCatalogEntryView {
            catalog_id: self.catalog_id@,
            canonical_object_spec: self.canonical_object_spec@,
            patch_id: self.patch_id@,
            interface_digest: self.interface_digest@,
            definition: self.definition@,
            creatable: self.creatable,
            title: self.title@,
            category: self.category@,
            palette: self.palette,
            description: opt_str(self.description),
        }
    }
}

/// Whether some port runs at audio rate.
pub open spec fn has_audio_port(ports: Seq<SpecPortView>) -> bool {
    exists|i: int| 0 <= i < ports.len() && #[trigger] ports[i].rate == ObjectSpecPortRate::Audio
}

/// The catalog definition of a project patch: its ports, executed per audio
/// block when one of them runs at audio rate and as control otherwise, kept
/// in no persistent state.
pub open spec fn project_patch_definition_spec(c: CandidateView, p: PatchCandidateView, definition_id: Seq<char>) -> PatchDefinitionView {
    PatchDefinitionView {
        schema: "skenion.node.definition"@,
        schema_version: CURRENT_KIND_VERSION@,
        id: definition_id,
        version: CURRENT_KIND_VERSION@,
        display_name: c.display_name,
        category: "Project Patch"@,
        ports: p.ports,
        execution_model: if has_audio_port(p.ports) { CatalogExecutionModel::AudioBlock } else { CatalogExecutionModel::Control },
        persistent: false,
    }
}

/// The catalog entry of a candidate that holds a project patch; none for
/// any other candidate.
pub open spec fn project_patch_entry_spec(c: CandidateView, sanitized_patch_id: Seq<char>, definition_id: Seq<char>) -> Option<PatchCatalogEntryView> {
    match c.project_patch {
        None => None,
        Some(p) => Some(PatchCatalogEntryView {
            catalog_id: "project."@ + sanitized_patch_id,
            canonical_object_spec: p.patch_id,
            patch_id: p.patch_id,
            interface_digest: p.interface_digest,
            definition: project_patch_definition_spec(c, p, definition_id),
            creatable: true,
            title: c.display_name,
            category: "Project Patch"@,
            palette: CatalogPalette::Direct,
            description: p.description,
        }),
    }
}

/// The catalog definition of a project patch, with `definition_id` the id
/// derived from the patch id and its interface digest.
pub fn project_patch_catalog_definition(
    candidate: &ObjectRegistryCandidate,
    patch: &ProjectPatchCandidate,
    definition_id: &str,
) -> (r: ProjectPatchNodeDefinition)
    ensures
        r@ == project_patch_definition_spec(candidate@, patch@, definition_id@),
{
    let mut audio = false;
    let mut i: usize = 0;
    while i < patch.ports.len()
        invariant
            i <= patch.ports@.len(),
            audio == exists|k: int| 0 <= k < i && #[trigger] spec_port_views(patch.ports@)[k].rate == ObjectSpecPortRate::Audio,
        decreases patch.ports.len() - i,
    {
        proof {
            assert(spec_port_views(patch.ports@)[i as int] == patch.ports@[i as int]@);
        }
        let ghost v = spec_port_views(patch.ports@);
        let is_audio = patch.ports[i].rate == ObjectSpecPortRate::Audio;
        proof {
            if audio {
                let k = choose|k: int| 0 <= k < i && #[trigger] v[k].rate == ObjectSpecPortRate::Audio;
                assert(0 <= k < i + 1 && v[k].rate == ObjectSpecPortRate::Audio);
            }
            if is_audio {
                assert(v[i as int].rate == ObjectSpecPortRate::Audio);
            }
            if !audio && !is_audio {
                assert forall|k: int| 0 <= k < i + 1 implies #[trigger] v[k].rate != ObjectSpecPortRate::Audio by {
                    if k < i {
                        assert(!(0 <= k < i && v[k].rate == ObjectSpecPortRate::Audio));
                    }
                }
            }
        }
        if is_audio {
            audio = true;
        }
        i = i + 1;
    }
    proof {
        assert(spec_port_views(patch.ports@).len() == patch.ports@.len());
    }
    ProjectPatchNodeDefinition {
        schema: owned("skenion.node.definition"),
        schema_version: owned(CURRENT_KIND_VERSION),
        id: owned(definition_id),
        version: owned(CURRENT_KIND_VERSION),
        display_name: candidate.display_name.clone(),
        category: owned("Project Patch"),
        ports: copy_ports(&patch.ports),
        execution_model: if audio { CatalogExecutionModel::AudioBlock } else { CatalogExecutionModel::Control },
        persistent: false,
    }
}

/// The catalog entry of a candidate that holds a project patch, with
/// `sanitized_patch_id` the patch id made safe for a catalog id and
/// `definition_id` the id of its node definition; none for any other
/// candidate.
pub fn project_patch_catalog_entry(
    candidate: &ObjectRegistryCandidate,
    sanitized_patch_id: &str,
    definition_id: &str,
) -> (r: Option<ProjectPatchCatalogEntry>)
    ensures
        match r {
            Some(e) => project_patch_entry_spec(candidate@, sanitized_patch_id@, definition_id@) == Some(e@),
            None => project_patch_entry_spec(candidate@, sanitized_patch_id@, definition_id@) is None,
        },
{
    match &candidate.project_patch {
        None => None,
        Some(patch) => Some(ProjectPatchCatalogEntry {
            catalog_id: concat2("project.", sanitized_patch_id),
            canonical_object_spec: patch.patch_id.clone(),
            patch_id: patch.patch_id.clone(),
            interface_digest: patch.interface_digest.clone(),
            definition: project_patch_catalog_definition(candidate, patch, definition_id),
            creatable: true,
            title: candidate.display_name.clone(),
            category: owned("Project Patch"),
            palette: CatalogPalette::Direct,
            description: copy_opt_string(&patch.description),
        }),
    }
}

/// A candidate whose kind is the audio input or output object is the
/// first-party core one, built by the audio constructor.
pub open spec fn audio_io_candidates_are_core(c: Seq<CandidateView>) -> bool {
    forall|i: int| 0 <= i < c.len()
        && ((#[trigger] c[i]).kind == "object.core.audio.input"@ || c[i].kind == "object.core.audio.output"@)
        ==> c[i].source == ObjectRegistrySource::FirstPartyCore && c[i].constructor == Some(CoreNodeConstructor::Audio)
}

proof fn lemma_alias_matches_members(c: Seq<CandidateView>, class: Seq<char>)
    ensures
        forall|i: int| 0 <= i < alias_matches(c, class).len() ==> c.contains(#[trigger] alias_matches(c, class)[i]),
    decreases c.len(),
{
    if c.len() > 0 {
        lemma_alias_matches_members(c.drop_last(), class);
        let r = alias_matches(c, class);
        let r0 = alias_matches(c.drop_last(), class);
        assert forall|i: int| 0 <= i < r.len() implies c.contains(#[trigger] r[i]) by {
            if i < r0.len() {
                assert(r[i] == r0[i]);
                let j = choose|j: int| 0 <= j < c.drop_last().len() && c.drop_last()[j] == r0[i];
                assert(c[j] == r0[i]);
            } else {
                assert(r[i] == c[c.len() - 1]);
            }
        }
    }
}

proof fn lemma_patch_matches_members(c: Seq<CandidateView>, id: Seq<char>)
    ensures
        forall|i: int| 0 <= i < patch_matches(c, id).len() ==> c.contains(#[trigger] patch_matches(c, id)[i]),
    decreases c.len(),
{
    if c.len() > 0 {
        lemma_patch_matches_members(c.drop_last(), id);
        let r = patch_matches(c, id);
        let r0 = patch_matches(c.drop_last(), id);
        assert forall|i: int| 0 <= i < r.len() implies c.contains(#[trigger] r[i]) by {
            if i < r0.len() {
                assert(r[i] == r0[i]);
                let j = choose|j: int| 0 <= j < c.drop_last().len() && c.drop_last()[j] == r0[i];
                assert(c[j] == r0[i]);
            } else {
                assert(r[i] == c[c.len() - 1]);
            }
        }
    }
}

proof fn lemma_first_core_member(c: Seq<CandidateView>, kind: Seq<char>)
    ensures
        first_core_candidate(c, kind) matches Some(x) ==> c.contains(x),
    decreases c.len(),
{
    if c.len() > 0 {
        if !(c[0].source == ObjectRegistrySource::FirstPartyCore && c[0].kind == kind) {
            lemma_first_core_member(c.drop_first(), kind);
            if let Some(x) = first_core_candidate(c.drop_first(), kind) {
                let j = choose|j: int| 0 <= j < c.drop_first().len() && c.drop_first()[j] == x;
                assert(c[j + 1] == x);
            }
        } else {
            assert(c[0] == c[0]);
        }
    }
}

/// The candidates a lookup gives are candidates of the registry, or the
/// stand-in for an unchecked patch reference.
proof fn lemma_lookup_members(c: Seq<CandidateView>, allow_unchecked: bool, p: ParsedView)
    ensures
        forall|i: int| 0 <= i < lookup_spec(c, allow_unchecked, p).len() ==> c.contains(#[trigger] lookup_spec(c, allow_unchecked, p)[i])
            || lookup_spec(c, allow_unchecked, p)[i].kind == "object.core.subpatch"@,
{
    lemma_alias_matches_members(c, p.class_symbol);
    lemma_first_core_member(c, "object.core.subpatch"@);
    if let Some(id) = explicit_ref_spec(p) {
        lemma_patch_matches_members(c, id);
    }
}

proof fn lemma_audio_io_kinds_differ()
    ensures
        "object.core.audio.input"@ != "object.core.audio.output"@,
        "object.core.audio.input"@ != "object.core.subpatch"@,
        "object.core.audio.output"@ != "object.core.subpatch"@,
        "object.core.audio.input"@ != "object.core.audio.sig"@,
        "object.core.audio.output"@ != "object.core.audio.sig"@,
        "object.core.audio.input"@ != "object.core.audio.osc"@,
        "object.core.audio.output"@ != "object.core.audio.osc"@,
        "object.core.audio.input"@ != "object.core.audio.operator.mul"@,
        "object.core.audio.output"@ != "object.core.audio.operator.mul"@,
{
    assert("object.core.audio.input"@ != "object.core.audio.output"@) by {
        reveal_strlit("object.core.audio.input");
        reveal_strlit("object.core.audio.output");
        assert("object.core.audio.input"@.len() == 23);
        assert("object.core.audio.output"@.len() == 24);
    }
    assert("object.core.audio.input"@ != "object.core.subpatch"@) by {
        reveal_strlit("object.core.audio.input");
        reveal_strlit("object.core.subpatch");
        assert("object.core.audio.input"@.len() == 23);
        assert("object.core.subpatch"@.len() == 20);
    }
    assert("object.core.audio.output"@ != "object.core.subpatch"@) by {
        reveal_strlit("object.core.audio.output");
        reveal_strlit("object.core.subpatch");
        assert("object.core.audio.output"@.len() == 24);
        assert("object.core.subpatch"@.len() == 20);
    }
    assert("object.core.audio.input"@ != "object.core.audio.sig"@) by {
        reveal_strlit("object.core.audio.input");
        reveal_strlit("object.core.audio.sig");
        assert("object.core.audio.input"@.len() == 23);
        assert("object.core.audio.sig"@.len() == 21);
    }
    assert("object.core.audio.output"@ != "object.core.audio.sig"@) by {
        reveal_strlit("object.core.audio.output");
        reveal_strlit("object.core.audio.sig");
        assert("object.core.audio.output"@.len() == 24);
        assert("object.core.audio.sig"@.len() == 21);
    }
    assert("object.core.audio.input"@ != "object.core.audio.osc"@) by {
        reveal_strlit("object.core.audio.input");
        reveal_strlit("object.core.audio.osc");
        assert("object.core.audio.input"@.len() == 23);
        assert("object.core.audio.osc"@.len() == 21);
    }
    assert("object.core.audio.output"@ != "object.core.audio.osc"@) by {
        reveal_strlit("object.core.audio.output");
        reveal_strlit("object.core.audio.osc");
        assert("object.core.audio.output"@.len() == 24);
        assert("object.core.audio.osc"@.len() == 21);
    }
    assert("object.core.audio.input"@ != "object.core.audio.operator.mul"@) by {
        reveal_strlit("object.core.audio.input");
        reveal_strlit("object.core.audio.operator.mul");
        assert("object.core.audio.input"@.len() == 23);
        assert("object.core.audio.operator.mul"@.len() == 30);
    }
    assert("object.core.audio.output"@ != "object.core.audio.operator.mul"@) by {
        reveal_strlit("object.core.audio.output");
        reveal_strlit("object.core.audio.operator.mul");
        assert("object.core.audio.output"@.len() == 24);
        assert("object.core.audio.operator.mul"@.len() == 30);
    }
}

/// A core object's resolution names its candidate's kind, if any.
proof fn lemma_core_names_its_kind(p: ParsedView, x: CandidateView, cat: PortCatalogView)
    ensures
        construct_core_spec(p, x, cat).resolved_kind is None || construct_core_spec(p, x, cat).resolved_kind == Some(x.kind),
{
}

/// A resolved audio input object carries the catalog's audio input ports
/// and a resolved audio output object the audio output ports, whatever the
/// spec's arguments and whichever registry resolves it, provided only the
/// first-party audio constructor stands behind those kinds.
pub proof fn law_audio_io_objects_get_their_own_ports(
    c: Seq<CandidateView>,
    allow_unchecked: bool,
    parse: ContractObjectSpec,
    cat: PortCatalogView,
)
    requires
        audio_io_candidates_are_core(c),
    ensures
        resolve_text_spec(c, allow_unchecked, parse, cat).resolved_kind == Some("object.core.audio.input"@)
            ==> resolve_text_spec(c, allow_unchecked, parse, cat).instance_ports == cat.audio_input,
        resolve_text_spec(c, allow_unchecked, parse, cat).resolved_kind == Some("object.core.audio.output"@)
            ==> resolve_text_spec(c, allow_unchecked, parse, cat).instance_ports == cat.audio_output,
{
    lemma_audio_io_kinds_differ();
    match parse_input_spec(parse) {
        Err(_) => {},
        Ok(p) => {
            let found = lookup_spec(c, allow_unchecked, p);
            lemma_lookup_members(c, allow_unchecked, p);
            if !spec_payload_identity(p.class_symbol) && spec_unsupported_audio(p.class_symbol) is None && found.len() == 1 {
                let x = found[0];
                assert(c.contains(x) || x.kind == "object.core.subpatch"@);
                if x.kind == "object.core.audio.input"@ || x.kind == "object.core.audio.output"@ {
                    let j = choose|j: int| 0 <= j < c.len() && c[j] == x;
                    assert(c[j].kind == x.kind);
                }
                lemma_core_names_its_kind(p, x, cat);
            }
        },
    }
}

/// In the first-party core registry only the audio constructor stands
/// behind the audio input and output kinds.
pub proof fn lemma_first_party_audio_io()
    ensures
        audio_io_candidates_are_core(first_party_core_nodes_spec().map_values(|d: DescriptorView| core_candidate_spec(d))),
{
    assert("object.core.operator.add"@ != "object.core.audio.input"@) by {
        reveal_strlit("object.core.operator.add");
        reveal_strlit("object.core.audio.input");
        assert("object.core.operator.add"@.len() != "object.core.audio.input"@.len());
    }
    assert("object.core.operator.add"@ != "object.core.audio.output"@) by {
        reveal_strlit("object.core.operator.add");
        reveal_strlit("object.core.audio.output");
        assert("object.core.operator.add"@[12] != "object.core.audio.output"@[12]);
    }
    assert("object.core.operator.sub"@ != "object.core.audio.input"@) by {
        reveal_strlit("object.core.operator.sub");
        reveal_strlit("object.core.audio.input");
        assert("object.core.operator.sub"@.len() != "object.core.audio.input"@.len());
    }
    assert("object.core.operator.sub"@ != "object.core.audio.output"@) by {
        reveal_strlit("object.core.operator.sub");
        reveal_strlit("object.core.audio.output");
        assert("object.core.operator.sub"@[12] != "object.core.audio.output"@[12]);
    }
    assert("object.core.operator.mul"@ != "object.core.audio.input"@) by {
        reveal_strlit("object.core.operator.mul");
        reveal_strlit("object.core.audio.input");
        assert("object.core.operator.mul"@.len() != "object.core.audio.input"@.len());
    }
    assert("object.core.operator.mul"@ != "object.core.audio.output"@) by {
        reveal_strlit("object.core.operator.mul");
        reveal_strlit("object.core.audio.output");
        assert("object.core.operator.mul"@[12] != "object.core.audio.output"@[12]);
    }
    assert("object.core.operator.div"@ != "object.core.audio.input"@) by {
        reveal_strlit("object.core.operator.div");
        reveal_strlit("object.core.audio.input");
        assert("object.core.operator.div"@.len() != "object.core.audio.input"@.len());
    }
    assert("object.core.operator.div"@ != "object.core.audio.output"@) by {
        reveal_strlit("object.core.operator.div");
        reveal_strlit("object.core.audio.output");
        assert("object.core.operator.div"@[12] != "object.core.audio.output"@[12]);
    }
    assert("object.core.operator.pow"@ != "object.core.audio.input"@) by {
        reveal_strlit("object.core.operator.pow");
        reveal_strlit("object.core.audio.input");
        assert("object.core.operator.pow"@.len() != "object.core.audio.input"@.len());
    }
    assert("object.core.operator.pow"@ != "object.core.audio.output"@) by {
        reveal_strlit("object.core.operator.pow");
        reveal_strlit("object.core.audio.output");
        assert("object.core.operator.pow"@[12] != "object.core.audio.output"@[12]);
    }
    assert("object.core.operator.min"@ != "object.core.audio.input"@) by {
        reveal_strlit("object.core.operator.min");
        reveal_strlit("object.core.audio.input");
        assert("object.core.operator.min"@.len() != "object.core.audio.input"@.len());
    }
    assert("object.core.operator.min"@ != "object.core.audio.output"@) by {
        reveal_strlit("object.core.operator.min");
        reveal_strlit("object.core.audio.output");
        assert("object.core.operator.min"@[12] != "object.core.audio.output"@[12]);
    }
    assert("object.core.operator.max"@ != "object.core.audio.input"@) by {
        reveal_strlit("object.core.operator.max");
        reveal_strlit("object.core.audio.input");
        assert("object.core.operator.max"@.len() != "object.core.audio.input"@.len());
    }
    assert("object.core.operator.max"@ != "object.core.audio.output"@) by {
        reveal_strlit("object.core.operator.max");
        reveal_strlit("object.core.audio.output");
        assert("object.core.operator.max"@[12] != "object.core.audio.output"@[12]);
    }
    assert("object.core.operator.sqrt"@ != "object.core.audio.input"@) by {
        reveal_strlit("object.core.operator.sqrt");
        reveal_strlit("object.core.audio.input");
        assert("object.core.operator.sqrt"@.len() != "object.core.audio.input"@.len());
    }
    assert("object.core.operator.sqrt"@ != "object.core.audio.output"@) by {
        reveal_strlit("object.core.operator.sqrt");
        reveal_strlit("object.core.audio.output");
        assert("object.core.operator.sqrt"@.len() != "object.core.audio.output"@.len());
    }
    assert("object.core.float"@ != "object.core.audio.input"@) by {
        reveal_strlit("object.core.float");
        reveal_strlit("object.core.audio.input");
        assert("object.core.float"@.len() != "object.core.audio.input"@.len());
    }
    assert("object.core.float"@ != "object.core.audio.output"@) by {
        reveal_strlit("object.core.float");
        reveal_strlit("object.core.audio.output");
        assert("object.core.float"@.len() != "object.core.audio.output"@.len());
    }
    assert("object.core.int"@ != "object.core.audio.input"@) by {
        reveal_strlit("object.core.int");
        reveal_strlit("object.core.audio.input");
        assert("object.core.int"@.len() != "object.core.audio.input"@.len());
    }
    assert("object.core.int"@ != "object.core.audio.output"@) by {
        reveal_strlit("object.core.int");
        reveal_strlit("object.core.audio.output");
        assert("object.core.int"@.len() != "object.core.audio.output"@.len());
    }
    assert("object.core.uint"@ != "object.core.audio.input"@) by {
        reveal_strlit("object.core.uint");
        reveal_strlit("object.core.audio.input");
        assert("object.core.uint"@.len() != "object.core.audio.input"@.len());
    }
    assert("object.core.uint"@ != "object.core.audio.output"@) by {
        reveal_strlit("object.core.uint");
        reveal_strlit("object.core.audio.output");
        assert("object.core.uint"@.len() != "object.core.audio.output"@.len());
    }
    assert("object.core.bang"@ != "object.core.audio.input"@) by {
        reveal_strlit("object.core.bang");
        reveal_strlit("object.core.audio.input");
        assert("object.core.bang"@.len() != "object.core.audio.input"@.len());
    }
    assert("object.core.bang"@ != "object.core.audio.output"@) by {
        reveal_strlit("object.core.bang");
        reveal_strlit("object.core.audio.output");
        assert("object.core.bang"@.len() != "object.core.audio.output"@.len());
    }
    assert("object.core.message"@ != "object.core.audio.input"@) by {
        reveal_strlit("object.core.message");
        reveal_strlit("object.core.audio.input");
        assert("object.core.message"@.len() != "object.core.audio.input"@.len());
    }
    assert("object.core.message"@ != "object.core.audio.output"@) by {
        reveal_strlit("object.core.message");
        reveal_strlit("object.core.audio.output");
        assert("object.core.message"@.len() != "object.core.audio.output"@.len());
    }
    assert("object.core.comment"@ != "object.core.audio.input"@) by {
        reveal_strlit("object.core.comment");
        reveal_strlit("object.core.audio.input");
        assert("object.core.comment"@.len() != "object.core.audio.input"@.len());
    }
    assert("object.core.comment"@ != "object.core.audio.output"@) by {
        reveal_strlit("object.core.comment");
        reveal_strlit("object.core.audio.output");
        assert("object.core.comment"@.len() != "object.core.audio.output"@.len());
    }
    assert("object.core.subpatch"@ != "object.core.audio.input"@) by {
        reveal_strlit("object.core.subpatch");
        reveal_strlit("object.core.audio.input");
        assert("object.core.subpatch"@.len() != "object.core.audio.input"@.len());
    }
    assert("object.core.subpatch"@ != "object.core.audio.output"@) by {
        reveal_strlit("object.core.subpatch");
        reveal_strlit("object.core.audio.output");
        assert("object.core.subpatch"@.len() != "object.core.audio.output"@.len());
    }
    assert("object.core.inlet"@ != "object.core.audio.input"@) by {
        reveal_strlit("object.core.inlet");
        reveal_strlit("object.core.audio.input");
        assert("object.core.inlet"@.len() != "object.core.audio.input"@.len());
    }
    assert("object.core.inlet"@ != "object.core.audio.output"@) by {
        reveal_strlit("object.core.inlet");
        reveal_strlit("object.core.audio.output");
        assert("object.core.inlet"@.len() != "object.core.audio.output"@.len());
    }
    assert("object.core.outlet"@ != "object.core.audio.input"@) by {
        reveal_strlit("object.core.outlet");
        reveal_strlit("object.core.audio.input");
        assert("object.core.outlet"@.len() != "object.core.audio.input"@.len());
    }
    assert("object.core.outlet"@ != "object.core.audio.output"@) by {
        reveal_strlit("object.core.outlet");
        reveal_strlit("object.core.audio.output");
        assert("object.core.outlet"@.len() != "object.core.audio.output"@.len());
    }
    let t = first_party_core_nodes_spec();
    let c = t.map_values(|d: DescriptorView| core_candidate_spec(d));
    assert forall|i: int| 0 <= i < c.len()
        && ((#[trigger] c[i]).kind == "object.core.audio.input"@ || c[i].kind == "object.core.audio.output"@)
        implies c[i].source == ObjectRegistrySource::FirstPartyCore && c[i].constructor == Some(CoreNodeConstructor::Audio) by {
        assert(c[i] == core_candidate_spec(t[i]));
    }
}

/// A project patch's object kind is neither the audio input nor the audio
/// output kind.
proof fn lemma_patch_kind_is_no_audio_io(patch_id: Seq<char>)
    ensures
        project_patch_object_kind_spec(patch_id) != "object.core.audio.input"@,
        project_patch_object_kind_spec(patch_id) != "object.core.audio.output"@,
{
    reveal_strlit("object.project.patch.");
    reveal_strlit("object.core.audio.input");
    reveal_strlit("object.core.audio.output");
    let k = project_patch_object_kind_spec(patch_id);
    assert(k[7] == 'p');
    assert("object.core.audio.input"@[7] == 'c');
    assert("object.core.audio.output"@[7] == 'c');
}

} // verus!
