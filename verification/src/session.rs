//! The runtime session: the loaded project, its execution plan, the last
//! diagnostics and a revision counter, and the answers its operations give.
//!
//! Building the node registry, validating a graph against it, planning and
//! running the plan are done by the caller, which hands their outcomes in.
use vstd::prelude::*;
use crate::contract::{ExecutionModel, GraphDocument, NodeDefinition};
use crate::diagnostic::{
    DiagnosticView, RuntimeDiagnostic, copy_diagnostics, diagnostic_views, error_diagnostic,
};
use crate::dsp::{ExecutionPlan, ExecutionPlanNode};
use crate::text::owned;

verus! {

/// What the dummy executor reports for a run: the number of frames it ran
/// and the canonical JSON of the rest of its report.
#[derive(Debug, Clone, PartialEq, Eq)]
pub struct DummyExecutionReport {
    pub frame_count: usize,
    pub details: String,
}

/// A read-only view of the session.
#[derive(Debug, Clone, PartialEq, Eq)]
pub struct RuntimeSessionSnapshot {
    pub loaded: bool,
    pub graph_id: Option<String>,
    pub graph_revision: Option<String>,
    pub session_revision: u64,
    pub diagnostics: Vec<RuntimeDiagnostic>,
    pub plan: Option<ExecutionPlan>,
}

/// The answer to a session operation.
#[derive(Debug, Clone, PartialEq, Eq)]
pub struct RuntimeSessionResponse {
    pub ok: bool,
    pub loaded: bool,
    pub graph_id: Option<String>,
    pub graph_revision: Option<String>,
    pub session_revision: u64,
    pub diagnostics: Vec<RuntimeDiagnostic>,
    pub plan: Option<ExecutionPlan>,
    pub report: Option<DummyExecutionReport>,
}

/// A request to run the loaded project.
#[derive(Debug, Clone, PartialEq, Eq)]
pub struct SessionRunRequest {
    pub frames: Option<usize>,
}

/// What loading a project came to: the registry refused the node
/// definitions, the graph did not validate against the registry, or the
/// project validated and was planned.
#[derive(Debug, Clone, PartialEq, Eq)]
pub enum LoadOutcome {
    RegistryRefused(Vec<RuntimeDiagnostic>),
    Invalid(Vec<RuntimeDiagnostic>),
    Planned(ExecutionPlan),
}

/// The session.
#[derive(Debug)]
pub struct RuntimeSession {
    graph: Option<GraphDocument>,
    registry: Option<Vec<NodeDefinition>>,
    plan: Option<ExecutionPlan>,
    diagnostics: Vec<RuntimeDiagnostic>,
    revision: u64,
}

// ---------------------------------------------------------------------------
// Views.
// ---------------------------------------------------------------------------

pub open spec fn plan_view(p: ExecutionPlan) -> Seq<(Seq<char>, ExecutionModel)> {
    p.nodes@.map_values(|n: ExecutionPlanNode| (n.node_id@, n.execution_model))
}

pub open spec fn opt_plan_view(p: Option<ExecutionPlan>) -> Option<Seq<(Seq<char>, ExecutionModel)>> {
    match p {
        Some(p) => Some(plan_view(p)),
        None => None,
    }
}

pub open spec fn opt_str_view(o: Option<String>) -> Option<Seq<char>> {
    match o {
        Some(s) => Some(s@),
        None => None,
    }
}

pub struct ReportView {
    pub frame_count: usize,
    pub details: Seq<char>,
}

impl View for DummyExecutionReport {
    type V = ReportView;

    open spec fn view(&self) -> ReportView {
        ReportView { frame_count: self.frame_count, details: self.details@ }
    }
}

pub open spec fn opt_report_view(o: Option<DummyExecutionReport>) -> Option<ReportView> {
    match o {
        Some(r) => Some(r@),
        None => None,
    }
}

/// The view of a session.
pub struct SessionView {
    pub graph: Option<GraphDocument>,
    pub registry: Option<Seq<NodeDefinition>>,
    pub plan: Option<Seq<(Seq<char>, ExecutionModel)>>,
    pub diagnostics: Seq<DiagnosticView>,
    pub revision: u64,
}

impl View for RuntimeSession {
    type V = SessionView;

    closed spec fn view(&self) -> SessionView {
        SessionView {
            graph: self.graph,
            registry: match self.registry {
                Some(r) => Some(r@),
                None => None,
            },
            plan: opt_plan_view(self.plan),
            diagnostics: diagnostic_views(self.diagnostics@),
            revision: self.revision,
        }
    }
}

/// The view of a response.
pub struct ResponseView {
    pub ok: bool,
    pub loaded: bool,
    pub graph_id: Option<Seq<char>>,
    pub graph_revision: Option<Seq<char>>,
    pub session_revision: u64,
    pub diagnostics: Seq<DiagnosticView>,
    pub plan: Option<Seq<(Seq<char>, ExecutionModel)>>,
    pub report: Option<ReportView>,
}

impl View for RuntimeSessionResponse {
    type V = ResponseView;

    open spec fn view(&self) -> ResponseView {
        ResponseView {
            ok: self.ok,
            loaded: self.loaded,
            graph_id: opt_str_view(self.graph_id),
            graph_revision: opt_str_view(self.graph_revision),
            session_revision: self.session_revision,
            diagnostics: diagnostic_views(self.diagnostics@),
            plan: opt_plan_view(self.plan),
            report: opt_report_view(self.report),
        }
    }
}

/// Whether a project is loaded: a graph together with its registry.
pub open spec fn loaded_spec(s: SessionView) -> bool {
    s.graph is Some && s.registry is Some
}

/// The answer that reports the session as it stands.
pub open spec fn response_spec(s: SessionView, ok: bool, diagnostics: Seq<DiagnosticView>, report: Option<ReportView>) -> ResponseView {
    ResponseView {
        ok,
        loaded: s.graph is Some,
        graph_id: match s.graph {
            Some(g) => Some(g.id@),
            None => None,
        },
        graph_revision: match s.graph {
            Some(g) => Some(g.revision@),
            None => None,
        },
        session_revision: s.revision,
        diagnostics,
        plan: s.plan,
        report,
    }
}

pub open spec fn no_project_diagnostics() -> Seq<DiagnosticView> {
    seq![error_diagnostic("no project loaded in runtime session"@)]
}

// ---------------------------------------------------------------------------
// Operations.
// ---------------------------------------------------------------------------

fn copy_plan(p: &ExecutionPlan) -> (r: ExecutionPlan)
    ensures
        plan_view(r) == plan_view(*p),
{
    let mut nodes: Vec<ExecutionPlanNode> = Vec::new();
    let mut i: usize = 0;
    while i < p.nodes.len()
        invariant
            i <= p.nodes@.len(),
            nodes@.len() == i,
            forall|k: int| 0 <= k < i ==> nodes@[k].node_id@ == p.nodes@[k].node_id@ && nodes@[k].execution_model == p.nodes@[k].execution_model,
        decreases p.nodes.len() - i,
    {
        nodes.push(ExecutionPlanNode { node_id: p.nodes[i].node_id.clone(), execution_model: p.nodes[i].execution_model });
        i = i + 1;
    }
    let r = ExecutionPlan { nodes };
    assert(plan_view(r) =~= plan_view(*p));
    r
}

fn copy_opt_plan(p: &Option<ExecutionPlan>) -> (r: Option<ExecutionPlan>)
    ensures
        opt_plan_view(r) == opt_plan_view(*p),
{
    match p {
        Some(p) => Some(copy_plan(p)),
        None => None,
    }
}

fn no_project_loaded() -> (r: Vec<RuntimeDiagnostic>)
    ensures
        diagnostic_views(r@) == no_project_diagnostics(),
{
    let r = vec![RuntimeDiagnostic::error(owned("no project loaded in runtime session"))];
    assert(diagnostic_views(r@) =~= no_project_diagnostics());
    r
}

impl Default for RuntimeSession {
    fn default() -> (r: Self)
        ensures
            r@.graph is None,
            r@.registry is None,
            r@.plan is None,
            r@.diagnostics == Seq::<DiagnosticView>::empty(),
            r@.revision == 0,
    {
        let r = RuntimeSession { graph: None, registry: None, plan: None, diagnostics: Vec::new(), revision: 0 };
        assert(diagnostic_views(r.diagnostics@) =~= Seq::<DiagnosticView>::empty());
        r
    }
}

impl RuntimeSession {
    /// The plan the session holds.
    pub closed spec fn stored_plan(&self) -> Option<ExecutionPlan> {
        self.plan
    }

    /// The session as it stands.
    pub fn snapshot(&self) -> (r: RuntimeSessionSnapshot)
        ensures
            r.loaded == (self@.graph is Some),
            opt_str_view(r.graph_id) == response_spec(self@, true, self@.diagnostics, None).graph_id,
            opt_str_view(r.graph_revision) == response_spec(self@, true, self@.diagnostics, None).graph_revision,
            r.session_revision == self@.revision,
            diagnostic_views(r.diagnostics@) == self@.diagnostics,
            opt_plan_view(r.plan) == self@.plan,
    {
        RuntimeSessionSnapshot {
            loaded: self.graph.is_some(),
            graph_id: match &self.graph {
                Some(g) => Some(g.id.clone()),
                None => None,
            },
            graph_revision: match &self.graph {
                Some(g) => Some(g.revision.clone()),
                None => None,
            },
            session_revision: self.revision,
            diagnostics: copy_diagnostics(&self.diagnostics),
            plan: copy_opt_plan(&self.plan),
        }
    }

    /// The answer with `ok`, `diagnostics` and `report`, reporting the
    /// session as it stands.
    pub fn response(
        &self,
        ok: bool,
        diagnostics: Vec<RuntimeDiagnostic>,
        report: Option<DummyExecutionReport>,
    ) -> (r: RuntimeSessionResponse)
        ensures
            r@ == response_spec(self@, ok, diagnostic_views(diagnostics@), opt_report_view(report)),
            r.report == report,
    {
        let snapshot = self.snapshot();
        RuntimeSessionResponse {
            ok,
            loaded: snapshot.loaded,
            graph_id: snapshot.graph_id,
            graph_revision: snapshot.graph_revision,
            session_revision: snapshot.session_revision,
            diagnostics,
            plan: snapshot.plan,
            report,
        }
    }

    /// The loaded graph and the node definitions of its registry.
    pub fn loaded_project(&self) -> (r: Option<(&GraphDocument, &Vec<NodeDefinition>)>)
        ensures
            match r {
                Some((g, n)) => self@.graph == Some(*g) && self@.registry == Some(n@),
                None => !loaded_spec(self@),
            },
    {
        match (&self.graph, &self.registry) {
            (Some(g), Some(n)) => Some((g, n)),
            _ => None,
        }
    }

    /// Loads a project, given what building its registry, validating and
    /// planning it came to. A refused project leaves the session unchanged.
    pub fn load_project(&mut self, graph: GraphDocument, nodes: Vec<NodeDefinition>, outcome: LoadOutcome) -> (r: RuntimeSessionResponse)
        requires
            old(self)@.revision < u64::MAX,
        ensures
            match outcome {
                LoadOutcome::RegistryRefused(d) => final(self)@ == old(self)@
                    && r@ == response_spec(old(self)@, false, diagnostic_views(d@), None),
                LoadOutcome::Invalid(d) => final(self)@ == old(self)@
                    && r@ == response_spec(old(self)@, false, diagnostic_views(d@), None),
                LoadOutcome::Planned(p) => final(self)@ == (SessionView {
                    graph: Some(graph),
                    registry: Some(nodes@),
                    plan: Some(plan_view(p)),
                    diagnostics: Seq::empty(),
                    revision: (old(self)@.revision + 1) as u64,
                }) && r@ == response_spec(final(self)@, true, Seq::empty(), None),
            },
    {
        match outcome {
            LoadOutcome::RegistryRefused(diagnostics) => self.response(false, diagnostics, None),
            LoadOutcome::Invalid(diagnostics) => self.response(false, diagnostics, None),
            LoadOutcome::Planned(plan) => {
                self.graph = Some(graph);
                self.registry = Some(nodes);
                self.plan = Some(plan);
                self.diagnostics = Vec::new();
                self.revision = self.revision + 1;
                proof {
                    assert(diagnostic_views(self.diagnostics@) =~= Seq::<DiagnosticView>::empty());
                }
                let none: Vec<RuntimeDiagnostic> = Vec::new();
                assert(diagnostic_views(none@) =~= Seq::<DiagnosticView>::empty());
                self.response(true, none, None)
            },
        }
    }

    /// Validates the loaded project, given what validating it against its
    /// registry reported (nothing when it is valid). Without a project, the
    /// answer is an error and the report is not read.
    pub fn validate_current(&mut self, validation: Vec<RuntimeDiagnostic>) -> (r: RuntimeSessionResponse)
        ensures
            ({
                let d = if loaded_spec(old(self)@) { diagnostic_views(validation@) } else { no_project_diagnostics() };
                &&& final(self)@ == (SessionView { diagnostics: d, ..old(self)@ })
                &&& r@ == response_spec(final(self)@, d.len() == 0, d, None)
            }),
    {
        let diagnostics = if self.loaded_project().is_some() {
            validation
        } else {
            no_project_loaded()
        };
        let ok = diagnostics.len() == 0;
        self.diagnostics = copy_diagnostics(&diagnostics);
        self.response(ok, diagnostics, None)
    }

    /// Plans the loaded project, given what validating and planning it came
    /// to. Without a project, the answer is an error.
    pub fn plan_current(&mut self, outcome: Result<ExecutionPlan, Vec<RuntimeDiagnostic>>) -> (r: RuntimeSessionResponse)
        ensures
            !loaded_spec(old(self)@) ==> final(self)@ == (SessionView { diagnostics: no_project_diagnostics(), ..old(self)@ })
                && r@ == response_spec(final(self)@, false, no_project_diagnostics(), None),
            loaded_spec(old(self)@) ==> match outcome {
                Err(d) => final(self)@ == (SessionView { diagnostics: diagnostic_views(d@), plan: None, ..old(self)@ })
                    && r@ == response_spec(final(self)@, false, diagnostic_views(d@), None),
                Ok(p) => final(self)@ == (SessionView { diagnostics: Seq::empty(), plan: Some(plan_view(p)), ..old(self)@ })
                    && r@ == response_spec(final(self)@, true, Seq::empty(), None),
            },
    {
        if self.loaded_project().is_none() {
            let diagnostics = no_project_loaded();
            self.diagnostics = copy_diagnostics(&diagnostics);
            return self.response(false, diagnostics, None);
        }
        match outcome {
            Err(diagnostics) => {
                self.diagnostics = copy_diagnostics(&diagnostics);
                self.plan = None;
                self.response(false, diagnostics, None)
            },
            Ok(plan) => {
                self.plan = Some(plan);
                self.diagnostics = Vec::new();
                proof {
                    assert(diagnostic_views(self.diagnostics@) =~= Seq::<DiagnosticView>::empty());
                }
                let none: Vec<RuntimeDiagnostic> = Vec::new();
                assert(diagnostic_views(none@) =~= Seq::<DiagnosticView>::empty());
                self.response(true, none, None)
            },
        }
    }

    /// Runs the loaded project: plans it first when it has no plan, with
    /// `replan` giving what validating and planning it came to, then runs the
    /// plan with `run`. Without a project, the answer is an error.
    pub fn run_current<P, R>(&mut self, replan: P, run: R) -> (r: RuntimeSessionResponse)
        where
            P: FnOnce() -> Result<ExecutionPlan, Vec<RuntimeDiagnostic>>,
            R: FnOnce(&ExecutionPlan) -> DummyExecutionReport,
        requires
            replan.requires(()),
            forall|p: &ExecutionPlan| run.requires((p,)),
        ensures
            !loaded_spec(old(self)@) ==> final(self)@ == (SessionView { diagnostics: no_project_diagnostics(), ..old(self)@ })
                && r@ == response_spec(final(self)@, false, no_project_diagnostics(), None),
            loaded_spec(old(self)@) && old(self)@.plan is Some ==> final(self)@ == old(self)@
                && r.ok && r.report is Some && r@ == response_spec(old(self)@, true, old(self)@.diagnostics, opt_report_view(r.report)),
            loaded_spec(old(self)@) && old(self)@.plan is None ==> exists|outcome: Result<ExecutionPlan, Vec<RuntimeDiagnostic>>| replan.ensures((), outcome) && match outcome {
                Err(d) => final(self)@ == (SessionView { diagnostics: diagnostic_views(d@), plan: None, ..old(self)@ })
                    && r@ == response_spec(final(self)@, false, diagnostic_views(d@), None),
                Ok(p) => final(self)@ == (SessionView { diagnostics: Seq::empty(), plan: Some(plan_view(p)), ..old(self)@ })
                    && r.ok && r.report is Some && r@ == response_spec(final(self)@, true, Seq::empty(), opt_report_view(r.report)),
            },
            r.report matches Some(rep) ==> final(self).stored_plan() matches Some(p) && run.ensures((&p,), rep),
    {
        if self.loaded_project().is_none() {
            let diagnostics = no_project_loaded();
            self.diagnostics = copy_diagnostics(&diagnostics);
            return self.response(false, diagnostics, None);
        }
        if self.plan.is_none() {
            let outcome = replan();
            let response = self.plan_current(outcome);
            if !response.ok {
                return response;
            }
        }
        match &self.plan {
            Some(plan) => {
                let report = run(plan);
                let ghost rep = report;
                let diagnostics = copy_diagnostics(&self.diagnostics);
                self.response(true, diagnostics, Some(report))
            },
            None => {
                let diagnostics = copy_diagnostics(&self.diagnostics);
                self.response(true, diagnostics, None)
            },
        }
    }

    /// Unloads the project.
    pub fn clear(&mut self) -> (r: RuntimeSessionResponse)
        requires
            old(self)@.revision < u64::MAX,
        ensures
            final(self)@ == (SessionView {
                graph: None,
                registry: None,
                plan: None,
                diagnostics: Seq::empty(),
                revision: (old(self)@.revision + 1) as u64,
            }),
            r@ == response_spec(final(self)@, true, Seq::empty(), None),
    {
        self.graph = None;
        self.registry = None;
        self.plan = None;
        self.diagnostics = Vec::new();
        self.revision = self.revision + 1;
        proof {
            assert(diagnostic_views(self.diagnostics@) =~= Seq::<DiagnosticView>::empty());
        }
        let none: Vec<RuntimeDiagnostic> = Vec::new();
        assert(diagnostic_views(none@) =~= Seq::<DiagnosticView>::empty());
        self.response(true, none, None)
    }
}

} // verus!
