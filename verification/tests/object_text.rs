use skenion_runtime::contract::F64Value;
use skenion_runtime::object_text::{
    is_float_token, is_integer_token, is_payload_identity_kind, object_text_tokens,
    resolve_object_text_v01, ObjectTextAtom, ObjectTextParamValue, ObjectTextResolution,
    TokenReading,
};

fn readings_for(input: &str) -> Vec<TokenReading> {
    object_text_tokens(input)
        .into_iter()
        .map(|text| {
            let float = text
                .parse::<f64>()
                .ok()
                .filter(|value| value.is_finite())
                .map(|value| F64Value { bits: value.to_bits(), text: value.to_string() });
            TokenReading { text, float }
        })
        .collect()
}

fn resolve(input: &str) -> ObjectTextResolution {
    resolve_object_text_v01(input, &readings_for(input))
}

fn param<'a>(resolution: &'a ObjectTextResolution, key: &str) -> &'a ObjectTextParamValue {
    &resolution.params.iter().find(|p| p.key == key).expect("parameter present").value
}

fn as_f64(value: &ObjectTextParamValue) -> Option<f64> {
    match value {
        ObjectTextParamValue::Float(f) => Some(f64::from_bits(f.bits)),
        ObjectTextParamValue::WholeFloat(i) => Some(*i as f64),
        _ => None,
    }
}

#[test]
fn resolves_runtime_control_aliases_and_validates_args() {
    let add = resolve("[+ 1e3]");
    assert!(add.ok());
    assert_eq!(add.display_text, "+ 1e3");
    assert_eq!(add.class_symbol, "+");
    assert_eq!(add.resolved_kind.as_deref(), Some("core.operator.add"));
    assert_eq!(add.resolved_kind_version.as_deref(), Some("0.1.0"));
    assert_eq!(as_f64(param(&add, "right")), Some(1000.0));
    assert!(matches!(param(&add, "right"), ObjectTextParamValue::Float(_)));
    assert_eq!(add.instance_ports[0].id, "in");

    let sqrt = resolve("sqrt 2");
    assert_eq!(sqrt.diagnostics[0].code, "object-text.invalid-arg-count");

    let invalid = resolve("+ true");
    assert_eq!(invalid.diagnostics[0].code, "object-text.invalid-arg-type");
}

#[test]
fn resolves_runtime_value_audio_and_subpatch_aliases() {
    let float = resolve("f 0.25");
    assert!(float.ok());
    assert_eq!(float.resolved_kind.as_deref(), Some("core.float"));
    assert_eq!(as_f64(param(&float, "value")), Some(0.25));

    let osc = resolve("osc~ 220");
    assert!(osc.ok());
    assert_eq!(osc.resolved_kind.as_deref(), Some("audio.osc"));
    assert_eq!(as_f64(param(&osc, "frequency")), Some(220.0));

    let mul = resolve("*~");
    assert!(mul.ok());
    assert_eq!(mul.resolved_kind.as_deref(), Some("audio.operator.mul"));
    assert_eq!(mul.instance_ports.len(), 3);

    let scalar_mul = resolve("*~ 0.5");
    assert_eq!(scalar_mul.diagnostics[0].code, "object-text.invalid-arg-count");

    let unsupported = resolve("+~");
    assert_eq!(unsupported.diagnostics[0].code, "object-text.unsupported-first-party");

    let subpatch = resolve("p voice");
    assert!(subpatch.ok());
    assert_eq!(subpatch.resolved_kind.as_deref(), Some("core.subpatch"));
    assert_eq!(param(&subpatch, "patchRef"), &ObjectTextParamValue::Text("voice".to_owned()));
}

#[test]
fn rejects_payload_identities_as_object_text() {
    for input in ["control.number.float", "bool", "event.bang", "gpu.texture2d"] {
        let resolution = resolve(input);
        assert_eq!(resolution.resolved_kind, None);
        assert_eq!(resolution.diagnostics[0].code, "object-text.payload-identity");
    }
}

#[test]
fn reports_unresolved_and_syntax_diagnostics_without_runtime_mapping() {
    let unresolved = resolve("user.manipulator 1");
    assert_eq!(unresolved.diagnostics[0].code, "object-text.unresolved");

    let invalid = resolve("[+ 1");
    assert_eq!(invalid.diagnostics[0].code, "object-text.invalid-syntax");
}

#[test]
fn every_resolution_names_a_kind_or_carries_one_diagnostic() {
    for input in ["", "[ ]", "+ 1 2", "i 3", "u -1", "i 1.5", "msg hello 2 true", "inlet", "outlet a b", "p", "dac~", "adc~ 1"] {
        let r = resolve(input);
        assert_eq!(r.input, input);
        assert_eq!(r.resolved_kind.is_some(), r.diagnostics.is_empty());
        if r.resolved_kind.is_none() {
            assert_eq!(r.diagnostics.len(), 1);
            assert!(r.params.is_empty());
            assert!(r.instance_ports.is_empty());
        } else {
            assert_eq!(r.resolved_kind_version.as_deref(), Some("0.1.0"));
        }
    }
}

#[test]
fn creation_arguments_are_read_as_atoms() {
    let msg = resolve("msg hello -2 true 0.5 +7 99999999999999999999");
    assert!(msg.ok());
    assert_eq!(
        msg.creation_args[..5],
        [
            ObjectTextAtom::Symbol("hello".to_owned()),
            ObjectTextAtom::Int(-2),
            ObjectTextAtom::Bool(true),
            ObjectTextAtom::Float(F64Value { bits: 0.5f64.to_bits(), text: "0.5".to_owned() }),
            ObjectTextAtom::Int(7),
        ]
    );
    assert_eq!(msg.creation_args[5], ObjectTextAtom::Symbol("99999999999999999999".to_owned()));
    assert_eq!(
        param(&msg, "text"),
        &ObjectTextParamValue::Text("hello -2 true 0.5 7 99999999999999999999".to_owned())
    );

    assert!(is_integer_token("-9223372036854775808"));
    assert!(!is_integer_token("-"));
    assert!(!is_integer_token("1a"));
    assert!(is_float_token("1e3"));
    assert!(!is_float_token("12"));
    let min = resolve("i -9223372036854775808");
    assert_eq!(param(&min, "value"), &ObjectTextParamValue::Int(i64::MIN));
}

#[test]
fn value_objects_take_their_numeric_types() {
    assert_eq!(param(&resolve("i"), "value"), &ObjectTextParamValue::Int(0));
    assert_eq!(param(&resolve("u 4"), "value"), &ObjectTextParamValue::UInt(4));
    assert_eq!(resolve("u -4").diagnostics[0].code, "object-text.invalid-arg-type");
    assert_eq!(resolve("i 1.5").diagnostics[0].code, "object-text.invalid-arg-type");
    assert_eq!(param(&resolve("f 3"), "value"), &ObjectTextParamValue::WholeFloat(3));
    assert_eq!(as_f64(param(&resolve("sig~"), "value")), Some(0.0));
    assert_eq!(as_f64(param(&resolve("osc~"), "frequency")), Some(440.0));
    assert_eq!(resolve("b 1").diagnostics[0].code, "object-text.invalid-arg-count");
    assert_eq!(resolve("").diagnostics[0].code, "object-text.empty");
    assert_eq!(resolve("inlet 1").diagnostics[0].code, "object-text.invalid-arg-type");
    assert_eq!(param(&resolve("outlet right"), "portId"), &ObjectTextParamValue::Text("right".to_owned()));
    assert!(is_payload_identity_kind("value.anything"));
    assert!(!is_payload_identity_kind("core.float"));
    let unresolved = resolve("user.thing");
    assert_eq!(
        unresolved.diagnostics[0].message,
        "user.thing is not available in the local Runtime object resolver"
    );
}
