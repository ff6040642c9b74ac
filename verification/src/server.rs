//! Answers of the runtime's HTTP API.
use vstd::prelude::*;
use crate::diagnostic::{RuntimeDiagnostic, diagnostic_views};
use crate::dsp::ExecutionPlan;
use crate::session::DummyExecutionReport;

verus! {

/// An API answer: whether it succeeded, its diagnostics, and the plan and
/// run report where there are any.
#[derive(Debug, Clone, PartialEq, Eq)]
pub struct RuntimeApiResponse {
    pub ok: bool,
    pub diagnostics: Vec<RuntimeDiagnostic>,
    pub plan: Option<ExecutionPlan>,
    pub report: Option<DummyExecutionReport>,
}

impl RuntimeApiResponse {
    /// A failed answer carrying `diagnostics` and nothing else.
    pub fn diagnostics(diagnostics: Vec<RuntimeDiagnostic>) -> (r: Self)
        ensures
            !r.ok,
            diagnostic_views(r.diagnostics@) == diagnostic_views(diagnostics@),
            r.plan is None,
            r.report is None,
    {
        RuntimeApiResponse { ok: false, diagnostics, plan: None, report: None }
    }
}

} // verus!
