//! Diagnostics that runtime operations report.
use vstd::prelude::*;

verus! {

/// How serious a diagnostic is.
#[derive(Debug, Clone, Copy, PartialEq, Eq, Structural)]
pub enum DiagnosticSeverity {
    Error,
    Warning,
    Info,
}

/// A diagnostic attached to a runtime response.
#[derive(Debug, Clone, PartialEq, Eq)]
pub struct RuntimeDiagnostic {
    pub severity: DiagnosticSeverity,
    pub message: String,
}

/// The view of a diagnostic.
pub struct DiagnosticView {
    pub severity: DiagnosticSeverity,
    pub message: Seq<char>,
}

impl View for RuntimeDiagnostic {
    type V = DiagnosticView;

    open spec fn view(&self) -> DiagnosticView {
        DiagnosticView { severity: self.severity, message: self.message@ }
    }
}

/// The views of a sequence of diagnostics.
pub open spec fn diagnostic_views(d: Seq<RuntimeDiagnostic>) -> Seq<DiagnosticView> {
    d.map_values(|x: RuntimeDiagnostic| x@)
}

/// An error diagnostic with the given message.
pub open spec fn error_diagnostic(message: Seq<char>) -> DiagnosticView {
    DiagnosticView { severity: DiagnosticSeverity::Error, message }
}

impl RuntimeDiagnostic {
    /// An error diagnostic with the given message.
    pub fn error(message: String) -> (r: RuntimeDiagnostic)
        ensures
            r@ == error_diagnostic(message@),
    {
        RuntimeDiagnostic { severity: DiagnosticSeverity::Error, message }
    }

    /// A diagnostic with the same view.
    pub fn duplicate(&self) -> (r: RuntimeDiagnostic)
        ensures
            r@ == self@,
    {
        RuntimeDiagnostic { severity: self.severity, message: self.message.clone() }
    }
}

/// Copies a list of diagnostics.
pub fn copy_diagnostics(d: &Vec<RuntimeDiagnostic>) -> (r: Vec<RuntimeDiagnostic>)
    ensures
        diagnostic_views(r@) == diagnostic_views(d@),
{
    let mut r: Vec<RuntimeDiagnostic> = Vec::new();
    let mut i: usize = 0;
    while i < d.len()
        invariant
            i <= d@.len(),
            r@.len() == i,
            forall|k: int| 0 <= k < i ==> r@[k]@ == d@[k]@,
        decreases d.len() - i,
    {
        r.push(d[i].duplicate());
        i = i + 1;
    }
    assert(diagnostic_views(r@) =~= diagnostic_views(d@));
    r
}

} // verus!
