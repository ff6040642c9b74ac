use skenion_runtime::contract::{ExecutionModel, GraphDocument, NodeDefinition, NodeExecution, NodeState};
use skenion_runtime::diagnostic::RuntimeDiagnostic;
use skenion_runtime::dsp::{ExecutionPlan, ExecutionPlanNode};
use skenion_runtime::server::RuntimeApiResponse;
use skenion_runtime::session::{DummyExecutionReport, LoadOutcome, RuntimeSession};

fn sample_graph() -> GraphDocument {
    GraphDocument {
        schema: "skenion.graph".to_owned(),
        schema_version: "0.1.0".to_owned(),
        id: "minimal-value".to_owned(),
        revision: "1".to_owned(),
        nodes: Vec::new(),
        edges: Vec::new(),
    }
}

fn definition(id: &str) -> NodeDefinition {
    NodeDefinition {
        schema: "skenion.node.definition".to_owned(),
        schema_version: "0.1.0".to_owned(),
        id: id.to_owned(),
        version: "0.1.0".to_owned(),
        display_name: id.to_owned(),
        category: "Values".to_owned(),
        script_api_version: None,
        bundle_hash: None,
        ports: Vec::new(),
        execution: NodeExecution { model: ExecutionModel::Value, clock: None },
        state: NodeState { persistent: false },
        permissions: Vec::new(),
        capabilities: Vec::new(),
    }
}

fn sample_plan() -> ExecutionPlan {
    ExecutionPlan {
        nodes: vec![
            ExecutionPlanNode { node_id: "value_1".to_owned(), execution_model: ExecutionModel::Value },
            ExecutionPlanNode { node_id: "target_1".to_owned(), execution_model: ExecutionModel::Value },
        ],
    }
}

fn error(message: &str) -> RuntimeDiagnostic {
    RuntimeDiagnostic::error(message.to_owned())
}

fn run_frames(frames: usize) -> impl FnOnce(&ExecutionPlan) -> DummyExecutionReport {
    move |_plan: &ExecutionPlan| DummyExecutionReport { frame_count: frames, details: "{}".to_owned() }
}

/// A session holding the sample project after a planning attempt that
/// failed for want of the graph's node definitions, so that no plan is
/// stored.
fn session_with_unplannable_project() -> RuntimeSession {
    let mut session = RuntimeSession::default();
    let loaded = session.load_project(sample_graph(), Vec::new(), LoadOutcome::Planned(sample_plan()));
    assert!(loaded.ok && loaded.loaded);
    let cleared = session.plan_current(Err(vec![error("missing node definition core.value-f32")]));
    assert!(!cleared.ok);
    session
}

#[test]
fn invalid_registry_load_returns_diagnostics_without_revision_change() {
    let mut session = RuntimeSession::default();

    let response = session.load_project(
        sample_graph(),
        vec![definition("core.value-f32")],
        LoadOutcome::RegistryRefused(vec![error("invalid node definition core.value-f32: unsupported schemaVersion 9.9.9")]),
    );

    assert!(!response.ok);
    assert!(!response.loaded);
    assert_eq!(response.session_revision, 0);
    assert!(response.diagnostics[0].message.contains("invalid node definition"));
}

#[test]
fn validate_and_plan_fail_without_loaded_project() {
    let mut session = RuntimeSession::default();

    let validation = session.validate_current(Vec::new());
    let plan = session.plan_current(Ok(sample_plan()));

    assert!(!validation.ok);
    assert!(!plan.ok);
    assert!(plan.diagnostics[0].message.contains("no project loaded in runtime session"));
}

#[test]
fn plan_current_reports_invalid_stored_project() {
    let mut session = RuntimeSession::default();
    session.load_project(sample_graph(), Vec::new(), LoadOutcome::Planned(sample_plan()));

    let response = session.plan_current(Err(vec![error("missing node definition core.value-f32")]));

    assert!(!response.ok);
    assert!(response.plan.is_none());
    assert!(response.diagnostics[0].message.contains("missing node definition"));
}

#[test]
fn run_current_rebuilds_missing_plan() {
    let mut session = session_with_unplannable_project();

    let response = session.run_current(|| Ok(sample_plan()), run_frames(2));

    assert!(response.ok);
    assert!(response.plan.is_some());
    assert_eq!(response.report.unwrap().frame_count, 2);
}

#[test]
fn run_current_returns_plan_failure_when_rebuild_fails() {
    let mut session = session_with_unplannable_project();

    let response = session.run_current(|| Err(vec![error("missing node definition core.value-f32")]), run_frames(2));

    assert!(!response.ok);
    assert!(response.report.is_none());
    assert!(response.diagnostics[0].message.contains("missing node definition"));
}

#[test]
fn load_and_clear_advance_the_session_revision() {
    let mut session = RuntimeSession::default();
    let loaded = session.load_project(sample_graph(), vec![definition("core.value-f32")], LoadOutcome::Planned(sample_plan()));
    assert!(loaded.ok);
    assert!(loaded.loaded);
    assert_eq!(loaded.session_revision, 1);
    assert_eq!(loaded.graph_id.as_deref(), Some("minimal-value"));
    assert_eq!(session.snapshot().plan, Some(sample_plan()));

    let invalid = session.load_project(sample_graph(), Vec::new(), LoadOutcome::Invalid(vec![error("bad edge")]));
    assert!(!invalid.ok);
    assert_eq!(invalid.session_revision, 1);

    let valid = session.validate_current(Vec::new());
    assert!(valid.ok);

    let cleared = session.clear();
    assert!(cleared.ok);
    assert!(!cleared.loaded);
    assert_eq!(cleared.session_revision, 2);
    assert!(session.loaded_project().is_none());

    let api = RuntimeApiResponse::diagnostics(vec![error("boom")]);
    assert!(!api.ok);
    assert!(api.plan.is_none() && api.report.is_none());
}
