use skenion_runtime::control_state::{RuntimeControlEmission, RuntimeControlEventRequest, RuntimeControlEventResponse};
use skenion_runtime::control_table::ControlTable;
use skenion_runtime::control_value::ControlValue;
use skenion_runtime::realtime::{
    check_node_input_command, check_node_input_count, control_event_message_id,
    decide_node_input, invalid_node_input_payload, issue_code, node_input_ack, replayed_ack,
    summarize_node_inputs, AppliedNodeInput, NodeInputAction,
};

fn applied(ok: bool, changed: bool, revision: Option<u64>, emitted: Vec<RuntimeControlEmission>, values: &[(&str, i32)]) -> AppliedNodeInput {
    let mut changed_values = ControlTable::new();
    for (k, v) in values {
        changed_values.insert((*k).to_owned(), ControlValue::I32(*v));
    }
    AppliedNodeInput {
        request: RuntimeControlEventRequest { node_id: "n".to_owned(), port_id: "in".to_owned(), value: ControlValue::Bang },
        response: RuntimeControlEventResponse { ok, changed, control_revision: revision, emitted, diagnostics: Vec::new() },
        changed_values,
    }
}

fn emission(node: &str) -> RuntimeControlEmission {
    RuntimeControlEmission { node_id: node.to_owned(), port_id: "value".to_owned(), value: ControlValue::Bang }
}

#[test]
fn node_input_frames_need_a_command_id_and_an_idempotency_key() {
    let missing = check_node_input_command(&None, &Some("k".to_owned())).unwrap_err();
    assert_eq!(missing.code, "realtime.command.command-id-required");
    let blank = check_node_input_command(&Some("  ".to_owned()), &Some("k".to_owned())).unwrap_err();
    assert_eq!(blank.message, "node.input requires commandId");
    let no_key = check_node_input_command(&Some("c1".to_owned()), &None).unwrap_err();
    assert_eq!(no_key.code, "realtime.command.idempotency-key-required");
    assert!(check_node_input_command(&Some("c1".to_owned()), &Some("k".to_owned())).is_ok());

    assert_eq!(check_node_input_count(0).unwrap_err().code, "realtime.node-input.inputs-required");
    assert!(check_node_input_count(2).is_ok());
    assert_eq!(invalid_node_input_payload("missing field").message, "invalid node.input payload: missing field");
}

#[test]
fn applied_inputs_are_summarized_in_order() {
    let inputs = vec![
        applied(true, true, Some(4), vec![emission("a")], &[("a", 1), ("b", 2)]),
        applied(false, false, None, Vec::new(), &[]),
        applied(true, false, Some(6), vec![emission("c"), emission("d")], &[("a", 9)]),
        applied(true, false, None, Vec::new(), &[]),
    ];
    let summary = summarize_node_inputs(&inputs);
    assert!(!summary.accepted);
    assert!(summary.changed);
    assert_eq!(summary.control_revision, Some(6));
    assert_eq!(summary.events.iter().map(|e| e.node_id.as_str()).collect::<Vec<_>>(), vec!["a", "c", "d"]);
    assert_eq!(summary.values.get("a"), Some(&ControlValue::I32(9)));
    assert_eq!(summary.values.get("b"), Some(&ControlValue::I32(2)));
    assert!(summary.emits_event);

    let quiet = summarize_node_inputs(&vec![applied(true, false, None, Vec::new(), &[])]);
    assert!(quiet.accepted);
    assert!(!quiet.emits_event);
}

#[test]
fn control_event_ids_pad_the_sequence_to_six_digits() {
    assert_eq!(control_event_message_id("session_1", 42), "session_1_control_000042");
    assert_eq!(control_event_message_id("s", 1234567), "s_control_1234567");
    assert_eq!(control_event_message_id("s", 0), "s_control_000000");
    assert_eq!(issue_code(&None), "runtime.control.issue");
    assert_eq!(issue_code(&Some("x".to_owned())), "x");
}

fn some(s: &str) -> Option<String> {
    Some(s.to_owned())
}

#[test]
fn a_remembered_command_is_replayed_before_its_payload_is_read() {
    let bad: Result<usize, String> = Err("expected a map".to_owned());
    assert_eq!(decide_node_input(&some("c"), &some("k"), true, &bad), NodeInputAction::ReplayCached);
    match decide_node_input(&some("c"), &some("k"), false, &bad) {
        NodeInputAction::Reject(e) => {
            assert_eq!(e.code, "realtime.node-input.invalid-payload");
            assert_eq!(e.message, "invalid node.input payload: expected a map");
        }
        other => panic!("unexpected {other:?}"),
    }
    match decide_node_input(&some("c"), &some("k"), false, &Ok(0)) {
        NodeInputAction::Reject(e) => assert_eq!(e.code, "realtime.node-input.inputs-required"),
        other => panic!("unexpected {other:?}"),
    }
    match decide_node_input(&None, &some("k"), true, &Ok(1)) {
        NodeInputAction::Reject(e) => assert_eq!(e.code, "realtime.command.command-id-required"),
        other => panic!("unexpected {other:?}"),
    }
    match decide_node_input(&some("c"), &None, true, &Ok(1)) {
        NodeInputAction::Reject(e) => assert_eq!(e.code, "realtime.command.idempotency-key-required"),
        other => panic!("unexpected {other:?}"),
    }
    assert_eq!(decide_node_input(&some("c"), &some("k"), false, &Ok(2)), NodeInputAction::Apply);
}

#[test]
fn acks_carry_status_ids_and_cursor_and_replays_are_marked_cached() {
    let ack = node_input_ack(false, "m1", &None, &some("corr"), &some("k"), "cursor_7");
    assert_eq!(ack.status, "rejected");
    assert!(!ack.accepted && !ack.applied && !ack.conflict && !ack.cached);
    assert_eq!(ack.command_id, "m1");
    assert_eq!(ack.correlation_id, "corr");
    assert_eq!(ack.idempotency_key.as_deref(), Some("k"));
    assert_eq!(ack.event_cursor, "cursor_7");

    let accepted = node_input_ack(true, "m2", &some("c2"), &None, &None, "cursor_8");
    assert_eq!(accepted.status, "accepted");
    assert_eq!(accepted.command_id, "c2");
    assert_eq!(accepted.correlation_id, "m2");

    let replay = replayed_ack(accepted.clone(), "cursor_8b".to_owned());
    assert!(replay.cached);
    assert_eq!(replay.event_cursor, "cursor_8b");
    assert_eq!(replay.status, accepted.status);
    assert_eq!(replay.command_id, accepted.command_id);
}

#[test]
fn control_tables_list_rows_in_key_order() {
    let mut table = ControlTable::new();
    for key in ["b", "é", "a", "ab", "B"] {
        table.insert(key.to_owned(), ControlValue::Bang);
    }
    table.insert("a".to_owned(), ControlValue::I32(4));
    let keys: Vec<&str> = table.entries().iter().map(|entry| entry.key.as_str()).collect();
    assert_eq!(keys, vec!["B", "a", "ab", "b", "é"]);
    assert_eq!(table.get("a"), Some(&ControlValue::I32(4)));
    table.remove("ab");
    let keys: Vec<&str> = table.entries().iter().map(|entry| entry.key.as_str()).collect();
    assert_eq!(keys, vec!["B", "a", "b", "é"]);

    let summary = summarize_node_inputs(&vec![
        applied(true, true, None, Vec::new(), &[("z", 1), ("m", 2)]),
        applied(true, true, None, Vec::new(), &[("a", 3), ("m", 5)]),
    ]);
    let merged: Vec<(&str, &ControlValue)> = summary.values.entries().iter().map(|entry| (entry.key.as_str(), &entry.value)).collect();
    assert_eq!(merged, vec![("a", &ControlValue::I32(3)), ("m", &ControlValue::I32(5)), ("z", &ControlValue::I32(1))]);
}
