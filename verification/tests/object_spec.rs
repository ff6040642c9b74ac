use skenion_runtime::contract::F64Value;
use skenion_runtime::object_spec::{
    resolve_object_spec_v01, ObjectSpecPortCatalog, ObjectSpecResolution,
    catalog_id_for_core_candidate, contract_object_spec_atom_to_runtime, core_catalog_category,
    is_payload_identity_kind, parse_object_spec_input_v01, project_patch_object_kind,
    runtime_object_spec_diagnostic_code, ContractObjectSpec, ContractObjectSpecAtom,
    ObjectRegistry, ObjectSpecAtom, ObjectSpecDiagnostic, ObjectSpecPort, ObjectSpecPortDirection,
    ObjectSpecPortRate, ObjectSpecStep, ParsedObjectSpec, ProjectPatchCandidate, ProjectPatchEntry,
};
use skenion_runtime::object_spec::{
    project_patch_catalog_entry, CatalogExecutionModel, CatalogPalette,
};
use skenion_runtime::object_text::ObjectTextParamValue;

fn parsed(class: &str, args: Vec<ObjectSpecAtom>) -> ParsedObjectSpec {
    ParsedObjectSpec { input: class.to_owned(), display_text: class.to_owned(), class_symbol: class.to_owned(), creation_args: args }
}

fn sym(s: &str) -> ObjectSpecAtom {
    ObjectSpecAtom::Symbol(s.to_owned())
}

fn patch(id: &str) -> ProjectPatchCandidate {
    ProjectPatchCandidate {
        patch_id: id.to_owned(),
        revision: "3".to_owned(),
        description: None,
        interface_digest: "ab".repeat(32),
        ports: vec![ObjectSpecPort {
            id: "in".to_owned(),
            direction: ObjectSpecPortDirection::Input,
            port_type: "value.core.float32".to_owned(),
            label: None,
            rate: ObjectSpecPortRate::Control,
            accepts: None,
            activation: None,
            message_keys: None,
        }],
    }
}

fn resolved(step: ObjectSpecStep) -> skenion_runtime::object_spec::ObjectSpecResolution {
    match step {
        ObjectSpecStep::Resolved(r) => r,
        ObjectSpecStep::ConstructCore(p, c) => panic!("expected a resolution, got core {} for {}", c.kind, p.class_symbol),
    }
}

#[test]
fn core_aliases_lead_to_their_constructor() {
    let registry = ObjectRegistry::first_party_core();
    assert_eq!(registry.candidates.len(), 22);
    match registry.resolve(parsed("osc~", vec![ObjectSpecAtom::Int(220)])) {
        ObjectSpecStep::ConstructCore(p, c) => {
            assert_eq!(c.kind, "object.core.audio.osc");
            assert_eq!(c.catalog_category, Some("Core Audio"));
            assert_eq!(p.creation_args, vec![ObjectSpecAtom::Int(220)]);
            assert_eq!(c.canonical_object_spec().as_deref(), Some("osc~"));
            assert_eq!(catalog_id_for_core_candidate(&c), "core.audio.osc");
            assert_eq!(core_catalog_category(&c), "Core Audio");
        }
        ObjectSpecStep::Resolved(r) => panic!("unexpected {:?}", r.diagnostics),
    }
    match registry.resolve(parsed("p", Vec::new())) {
        ObjectSpecStep::ConstructCore(_, c) => assert_eq!(c.kind, "object.core.subpatch"),
        ObjectSpecStep::Resolved(r) => panic!("unexpected {:?}", r.diagnostics),
    }
}

#[test]
fn payload_identities_unsupported_audio_and_unknown_symbols_are_refused() {
    let registry = ObjectRegistry::first_party_core();
    let payload = resolved(registry.resolve(parsed("value.core.bang", Vec::new())));
    assert_eq!(payload.diagnostics[0].code, "object-spec.payload-identity");
    assert!(!payload.ok());
    let audio = resolved(registry.resolve(parsed("+~", Vec::new())));
    assert_eq!(audio.diagnostics[0].code, "object-spec.unsupported-first-party");
    let unknown = resolved(registry.resolve(parsed("user.thing", Vec::new())));
    assert_eq!(unknown.diagnostics[0].code, "object-spec.unresolved");
    assert_eq!(unknown.diagnostics[0].message, "user.thing is not available in the local Runtime object registry");
    assert!(is_payload_identity_kind("control.anything"));
    assert!(!is_payload_identity_kind("object.core.float"));
}

#[test]
fn project_patches_resolve_by_shortcut_and_by_reference() {
    let mut registry = ObjectRegistry::first_party_core();
    registry.register_project_patch(patch("voice 1"), Some("Voice".to_owned()));
    let candidate = registry.candidates.last().unwrap();
    assert_eq!(candidate.id, "project-patch:voice 1");
    assert_eq!(candidate.kind, "object.project.patch.voice-1");
    assert_eq!(candidate.display_name, "Voice");

    let shortcut = resolved(registry.resolve(parsed("voice 1", Vec::new())));
    assert!(shortcut.ok());
    assert_eq!(shortcut.resolved_kind.as_deref(), Some("object.project.patch.voice-1"));
    assert_eq!(shortcut.params[0].key, "patchRef");
    assert_eq!(shortcut.params[0].value, ObjectTextParamValue::Text("voice 1".to_owned()));
    assert_eq!(shortcut.params[1].value, ObjectTextParamValue::Text("3".to_owned()));
    assert_eq!(shortcut.instance_ports.len(), 1);
    assert_eq!(shortcut.candidates[0].source, "project-patch");

    let by_ref = resolved(registry.resolve(parsed("p", vec![sym("voice 1")])));
    assert!(by_ref.ok());

    let with_args = resolved(registry.resolve(parsed("voice 1", vec![ObjectSpecAtom::Int(1)])));
    assert_eq!(with_args.diagnostics[0].code, "object-spec.invalid-arg-count");

    let missing = resolved(registry.resolve(parsed("p", vec![sym("other")])));
    assert_eq!(missing.diagnostics[0].code, "object-spec.unresolved");
}

#[test]
fn unchecked_reference_resolves_as_a_project_patch() {
    let registry = ObjectRegistry::first_party_core().allow_unchecked_project_patch_refs();
    let found = registry.lookup_candidates(&parsed("p", vec![sym("later")]));
    assert_eq!(found.len(), 1);
    assert_eq!(found[0].id, "project-patch:later");
    assert_eq!(found[0].project_patch.as_ref().unwrap().interface_digest, "0".repeat(64));
    let unchecked = resolved(registry.resolve(parsed("p", vec![sym("later")])));
    assert!(unchecked.ok());
    assert_eq!(unchecked.resolved_kind.as_deref(), Some("object.core.subpatch"));
    assert_eq!(unchecked.params[0].value, ObjectTextParamValue::Text("later".to_owned()));

    let mut twice = ObjectRegistry::first_party_core();
    twice.register_project_patch(patch("v"), None);
    twice.register_project_patch(patch("v"), None);
    let ambiguous = resolved(twice.resolve(parsed("v", Vec::new())));
    assert_eq!(ambiguous.diagnostics[0].code, "object-spec.ambiguous");
    assert_eq!(
        ambiguous.diagnostics[0].message,
        "v matches multiple Runtime object candidates: project-patch:v (project-patch), project-patch:v (project-patch)"
    );
    assert_eq!(ambiguous.candidates.len(), 2);
}

#[test]
fn parser_readings_become_parsed_specs_or_failures() {
    let ok = ContractObjectSpec {
        ok: true,
        input: "[i 5]".to_owned(),
        display_text: "i 5".to_owned(),
        class_name: "i".to_owned(),
        creation_args: vec![ContractObjectSpecAtom::Uint(5), ContractObjectSpecAtom::Uint(u64::MAX)],
        diagnostics: Vec::new(),
    };
    let parsed = parse_object_spec_input_v01(ok).unwrap();
    assert_eq!(parsed.class_symbol, "i");
    assert_eq!(parsed.creation_args, vec![ObjectSpecAtom::Int(5), sym("18446744073709551615")]);

    let bad = ContractObjectSpec {
        ok: false,
        input: "".to_owned(),
        display_text: "".to_owned(),
        class_name: "".to_owned(),
        creation_args: Vec::new(),
        diagnostics: vec![ObjectSpecDiagnostic { code: "empty-object-spec".to_owned(), message: "empty".to_owned() }],
    };
    let failure = parse_object_spec_input_v01(bad).unwrap_err();
    assert_eq!(failure.diagnostics[0].code, "object-spec.empty");
    assert_eq!(failure.diagnostics[0].message, "empty");

    assert_eq!(runtime_object_spec_diagnostic_code("invalid-syntax"), "object-spec.invalid-syntax");
    assert_eq!(runtime_object_spec_diagnostic_code("object-spec.x"), "object-spec.x");
    assert_eq!(runtime_object_spec_diagnostic_code("bad-token"), "object-spec.bad-token");
    assert_eq!(project_patch_object_kind("a/b_c.D-9"), "object.project.patch.a-b-c.D-9");
    assert_eq!(contract_object_spec_atom_to_runtime(&ContractObjectSpecAtom::Identifier("x".to_owned())), sym("x"));
}

fn list(name: &str) -> Vec<ObjectSpecPort> {
    vec![ObjectSpecPort {
        id: name.to_owned(),
        direction: ObjectSpecPortDirection::Output,
        port_type: "value.core.any".to_owned(),
        label: None,
        rate: ObjectSpecPortRate::Control,
        accepts: None,
        activation: None,
        message_keys: None,
    }]
}

fn catalog() -> ObjectSpecPortCatalog {
    ObjectSpecPortCatalog {
        control_operator: list("control_operator"),
        control_sqrt: list("control_sqrt"),
        bang: list("bang"),
        message: list("message"),
        comment: list("comment"),
        stored_float: list("stored_float"),
        stored_int: list("stored_int"),
        stored_uint: list("stored_uint"),
        audio_sig: list("audio_sig"),
        audio_osc: list("audio_osc"),
        audio_binary: list("audio_binary"),
        audio_input: list("audio_input"),
        audio_output: list("audio_output"),
    }
}

fn reading(class: &str, args: Vec<ContractObjectSpecAtom>) -> ContractObjectSpec {
    ContractObjectSpec {
        ok: true,
        input: class.to_owned(),
        display_text: class.to_owned(),
        class_name: class.to_owned(),
        creation_args: args,
        diagnostics: Vec::new(),
    }
}

fn full(class: &str, args: Vec<ContractObjectSpecAtom>) -> ObjectSpecResolution {
    resolve_object_spec_v01(reading(class, args), &catalog())
}

#[test]
fn first_party_objects_are_constructed_with_their_ports() {
    let osc = full("osc~", vec![ContractObjectSpecAtom::Uint(220)]);
    assert!(osc.ok());
    assert_eq!(osc.resolved_kind.as_deref(), Some("object.core.audio.osc"));
    assert_eq!(osc.params[0].key, "frequency");
    assert_eq!(osc.params[0].value, ObjectTextParamValue::WholeFloat(220));
    assert_eq!(osc.instance_ports[0].id, "audio_osc");
    assert_eq!(osc.candidates[0].source, "first-party-core");

    let half = F64Value { bits: 0.25f64.to_bits(), text: "0.25".to_owned() };
    let float = full("f", vec![ContractObjectSpecAtom::Float(half.clone())]);
    assert_eq!(float.params[0].value, ObjectTextParamValue::Float(half));
    assert_eq!(float.instance_ports[0].id, "stored_float");

    let int = full("i", Vec::new());
    assert_eq!(int.params[0].value, ObjectTextParamValue::Int(0));
    assert_eq!(int.instance_ports[0].id, "stored_int");

    let uint = full("u", vec![ContractObjectSpecAtom::Int(-1)]);
    assert_eq!(uint.diagnostics[0].code, "object-spec.invalid-arg-type");

    let add = full("+", vec![ContractObjectSpecAtom::Int(2)]);
    assert_eq!(add.resolved_kind.as_deref(), Some("object.core.operator.add"));
    assert_eq!(add.params[0].value, ObjectTextParamValue::WholeFloat(2));

    let sqrt = full("sqrt", vec![ContractObjectSpecAtom::Int(2)]);
    assert_eq!(sqrt.diagnostics[0].code, "object-spec.invalid-arg-count");
    assert_eq!(sqrt.diagnostics[0].message, "sqrt accepts no creation arguments");

    let msg = full("msg", vec![ContractObjectSpecAtom::Identifier("hello".to_owned()), ContractObjectSpecAtom::Bool(true)]);
    assert_eq!(msg.params[0].value, ObjectTextParamValue::Text("hello true".to_owned()));
    assert_eq!(msg.instance_ports[0].id, "message");

    let subpatch = full("p", Vec::new());
    assert_eq!(subpatch.diagnostics[0].message, "subpatch object spec requires exactly one patch reference");

    let inlet = full("inlet", vec![ContractObjectSpecAtom::Identifier("left".to_owned())]);
    assert_eq!(inlet.resolved_kind.as_deref(), Some("object.core.inlet"));
    assert_eq!(inlet.params[0].value, ObjectTextParamValue::Text("left".to_owned()));
    assert!(inlet.instance_ports.is_empty());

    let dac = full("dac~", Vec::new());
    assert_eq!(dac.instance_ports[0].id, "audio_output");
    let mul = full("*~", vec![ContractObjectSpecAtom::Int(1)]);
    assert_eq!(mul.diagnostics[0].message, "*~ accepts no creation arguments in the current Runtime audio substrate");

    let unknown = full("nothing", Vec::new());
    assert_eq!(unknown.diagnostics[0].code, "object-spec.unresolved");
}

#[test]
fn patch_library_follows_the_core_candidates_in_library_order() {
    let library = vec![
        ProjectPatchEntry { patch: patch("voice"), title: Some("Voice".to_owned()) },
        ProjectPatchEntry { patch: patch("bass line"), title: None },
    ];
    let registry = ObjectRegistry::for_patch_library(&library);
    assert_eq!(registry.candidates.len(), 24);
    assert_eq!(registry.candidates[21].kind, ObjectRegistry::first_party_core().candidates[21].kind);
    assert_eq!(registry.candidates[22].id, "project-patch:voice");
    assert_eq!(registry.candidates[22].display_name, "Voice");
    assert_eq!(registry.candidates[23].id, "project-patch:bass line");
    assert_eq!(registry.candidates[23].kind, "object.project.patch.bass-line");
    assert_eq!(registry.candidates[23].display_name, "bass line");
    let shortcut = resolved(registry.resolve(parsed("voice", Vec::new())));
    assert!(shortcut.ok());
    assert_eq!(shortcut.resolved_kind.as_deref(), Some("object.project.patch.voice"));
    let empty = ObjectRegistry::for_patch_library(&Vec::new());
    assert_eq!(empty.candidates.len(), 22);
}

#[test]
fn project_patches_get_catalog_entries_and_core_objects_none() {
    let mut registry = ObjectRegistry::first_party_core();
    let mut audio = patch("voice 1");
    audio.description = Some("a voice".to_owned());
    audio.ports[0].rate = ObjectSpecPortRate::Audio;
    registry.register_project_patch(audio, Some("Voice".to_owned()));
    registry.register_project_patch(patch("ctl"), None);

    let entry = project_patch_catalog_entry(&registry.candidates[22], "voice-1", "project.voice-1.ab").unwrap();
    assert_eq!(entry.catalog_id, "project.voice-1");
    assert_eq!(entry.canonical_object_spec, "voice 1");
    assert_eq!(entry.patch_id, "voice 1");
    assert_eq!(entry.interface_digest, "ab".repeat(32));
    assert!(entry.creatable);
    assert_eq!(entry.title, "Voice");
    assert_eq!(entry.category, "Project Patch");
    assert_eq!(entry.palette, CatalogPalette::Direct);
    assert_eq!(entry.description.as_deref(), Some("a voice"));
    assert_eq!(entry.definition.id, "project.voice-1.ab");
    assert_eq!(entry.definition.schema, "skenion.node.definition");
    assert_eq!(entry.definition.version, "0.1.0");
    assert_eq!(entry.definition.display_name, "Voice");
    assert_eq!(entry.definition.category, "Project Patch");
    assert_eq!(entry.definition.ports.len(), 1);
    assert_eq!(entry.definition.execution_model, CatalogExecutionModel::AudioBlock);
    assert!(!entry.definition.persistent);

    let control = project_patch_catalog_entry(&registry.candidates[23], "ctl", "project.ctl.ab").unwrap();
    assert_eq!(control.definition.execution_model, CatalogExecutionModel::Control);
    assert_eq!(control.title, "ctl");

    assert!(project_patch_catalog_entry(&registry.candidates[0], "x", "y").is_none());
}
