//! Editing history: applying an undo or redo step to the current project
//! document, given the documents before and after the step.
//!
//! Nodes, edges and canvas node views are held by their ids together with
//! the canonical JSON text of the rest of their fields, which is all that
//! the history logic compares and copies.
use vstd::prelude::*;
use crate::text::str_eq;

verus! {

/// Which way a history step is applied.
#[derive(Debug, Clone, Copy, PartialEq, Eq, Structural)]
pub enum HistoryDirection {
    Undo,
    Redo,
}

/// A graph node: its id and the canonical JSON of its other fields.
#[derive(Debug, Clone, PartialEq, Eq)]
pub struct HistoryNode {
    pub id: String,
    pub body: String,
}

/// A graph edge: its id, the nodes it joins, and the canonical JSON of its
/// other fields.
#[derive(Debug, Clone, PartialEq, Eq)]
pub struct HistoryEdge {
    pub id: String,
    pub source_node_id: String,
    pub target_node_id: String,
    pub body: String,
}

/// A graph document.
#[derive(Debug, Clone, PartialEq, Eq)]
pub struct GraphDocumentCurrent {
    pub revision: String,
    pub nodes: Vec<HistoryNode>,
    pub edges: Vec<HistoryEdge>,
    pub body: String,
}

/// The canvas view of one node.
#[derive(Debug, Clone, PartialEq, Eq)]
pub struct CanvasNodeView {
    pub node_id: String,
    pub view: String,
}

/// The view state of a project: the canvas node views (no node id twice),
/// the viewport, and the canonical JSON of the other fields.
#[derive(Debug, Clone, PartialEq, Eq)]
pub struct ViewState {
    pub canvas_nodes: Vec<CanvasNodeView>,
    pub viewport: Option<String>,
    pub body: String,
}

/// A patch of the project's patch library.
#[derive(Debug, Clone, PartialEq, Eq)]
pub struct PatchDefinitionCurrent {
    pub id: String,
    pub revision: String,
    pub graph: GraphDocumentCurrent,
    pub body: String,
}

/// A project document.
#[derive(Debug, Clone, PartialEq, Eq)]
pub struct ProjectDocumentCurrent {
    pub graph: GraphDocumentCurrent,
    pub view_state: ViewState,
    pub patch_library: Vec<PatchDefinitionCurrent>,
    pub body: String,
}

// ---------------------------------------------------------------------------
// Views.
// ---------------------------------------------------------------------------

pub struct NodeView {
    pub id: Seq<char>,
    pub body: Seq<char>,
}

pub struct EdgeView {
    pub id: Seq<char>,
    pub source: Seq<char>,
    pub target: Seq<char>,
    pub body: Seq<char>,
}

pub struct GraphView {
    pub revision: Seq<char>,
    pub nodes: Seq<NodeView>,
    pub edges: Seq<EdgeView>,
    pub body: Seq<char>,
}

pub struct ViewStateView {
    pub canvas: Map<Seq<char>, Seq<char>>,
    pub viewport: Option<Seq<char>>,
    pub body: Seq<char>,
}

pub struct PatchView {
    pub id: Seq<char>,
    pub revision: Seq<char>,
    pub graph: GraphView,
    pub body: Seq<char>,
}

pub struct ProjectView {
    pub graph: GraphView,
    pub view_state: ViewStateView,
    pub patches: Seq<PatchView>,
    pub body: Seq<char>,
}

impl View for HistoryNode {
    type V = NodeView;

    open spec fn view(&self) -> NodeView {
        NodeView { id: self.id@, body: self.body@ }
    }
}

impl View for HistoryEdge {
    type V = EdgeView;

    open spec fn view(&self) -> EdgeView {
        EdgeView {
            id: self.id@,
            source: self.source_node_id@,
            target: self.target_node_id@,
            body: self.body@,
        }
    }
}

pub open spec fn node_views(v: Seq<HistoryNode>) -> Seq<NodeView> {
    v.map_values(|x: HistoryNode| x@)
}

pub open spec fn edge_views(v: Seq<HistoryEdge>) -> Seq<EdgeView> {
    v.map_values(|x: HistoryEdge| x@)
}

impl View for GraphDocumentCurrent {
    type V = GraphView;

    open spec fn view(&self) -> GraphView {
        GraphView {
            revision: self.revision@,
            nodes: node_views(self.nodes@),
            edges: edge_views(self.edges@),
            body: self.body@,
        }
    }
}

/// The node ids of canvas entries.
pub open spec fn canvas_ids(e: Seq<CanvasNodeView>) -> Seq<Seq<char>> {
    e.map_values(|x: CanvasNodeView| x.node_id@)
}

/// The entry that holds node `k`.
pub open spec fn canvas_index(e: Seq<CanvasNodeView>, k: Seq<char>) -> int {
    choose|i: int| 0 <= i < e.len() && e[i].node_id@ == k
}

/// The map that entries with distinct node ids describe.
pub open spec fn canvas_map(e: Seq<CanvasNodeView>) -> Map<Seq<char>, Seq<char>> {
    Map::new(|k: Seq<char>| canvas_ids(e).contains(k), |k: Seq<char>| e[canvas_index(e, k)].view@)
}

pub open spec fn opt_view(o: Option<String>) -> Option<Seq<char>> {
    match o {
        Some(s) => Some(s@),
        None => None,
    }
}

impl View for ViewState {
    type V = ViewStateView;

    open spec fn view(&self) -> ViewStateView {
        ViewStateView {
            canvas: canvas_map(self.canvas_nodes@),
            viewport: opt_view(self.viewport),
            body: self.body@,
        }
    }
}

impl View for PatchDefinitionCurrent {
    type V = PatchView;

    open spec fn view(&self) -> PatchView {
        PatchView { id: self.id@, revision: self.revision@, graph: self.graph@, body: self.body@ }
    }
}

pub open spec fn patch_views(v: Seq<PatchDefinitionCurrent>) -> Seq<PatchView> {
    v.map_values(|x: PatchDefinitionCurrent| x@)
}

impl View for ProjectDocumentCurrent {
    type V = ProjectView;

    open spec fn view(&self) -> ProjectView {
        ProjectView {
            graph: self.graph@,
            view_state: self.view_state@,
            patches: patch_views(self.patch_library@),
            body: self.body@,
        }
    }
}

/// No node id occurs twice on the canvas.
pub open spec fn view_state_wf(v: ViewState) -> bool {
    canvas_ids(v.canvas_nodes@).no_duplicates()
}

/// Every view state of the project is well formed.
pub open spec fn project_wf(p: ProjectDocumentCurrent) -> bool {
    view_state_wf(p.view_state)
}

pub proof fn lemma_canvas_map_at(e: Seq<CanvasNodeView>, i: int)
    requires
        canvas_ids(e).no_duplicates(),
        0 <= i < e.len(),
    ensures
        canvas_map(e).contains_key(e[i].node_id@),
        canvas_map(e)[e[i].node_id@] == e[i].view@,
{
    let k = e[i].node_id@;
    assert(canvas_ids(e)[i] == k);
    assert(canvas_ids(e).contains(k));
    let j = canvas_index(e, k);
    assert(0 <= j < e.len() && e[j].node_id@ == k);
    assert(canvas_ids(e)[j] == e[j].node_id@);
    if j != i {
        assert(canvas_ids(e)[j] != canvas_ids(e)[i]);
    }
}


// ---------------------------------------------------------------------------
// Graph steps: specification.
// ---------------------------------------------------------------------------

pub open spec fn node_ids(ns: Seq<NodeView>) -> Seq<Seq<char>> {
    ns.map_values(|n: NodeView| n.id)
}

pub open spec fn edge_ids(es: Seq<EdgeView>) -> Seq<Seq<char>> {
    es.map_values(|e: EdgeView| e.id)
}

/// The last node with id `id`: the one a map keyed by id keeps.
pub open spec fn last_with_id(ns: Seq<NodeView>, id: Seq<char>) -> Option<NodeView>
    decreases ns.len(),
{
    if ns.len() == 0 {
        None
    } else if ns.last().id == id {
        Some(ns.last())
    } else {
        last_with_id(ns.drop_last(), id)
    }
}

/// A node id that the step added.
pub open spec fn added_node(before: GraphView, after: GraphView, id: Seq<char>) -> bool {
    node_ids(after.nodes).contains(id) && !node_ids(before.nodes).contains(id)
}

/// An edge id that the step added.
pub open spec fn added_edge(before: GraphView, after: GraphView, id: Seq<char>) -> bool {
    edge_ids(after.edges).contains(id) && !edge_ids(before.edges).contains(id)
}

/// A node still as the step left it: undo puts back its earlier form.
pub open spec fn reverted(n: NodeView, before: GraphView, after: GraphView) -> bool {
    last_with_id(before.nodes, n.id) is Some && last_with_id(after.nodes, n.id) == Some(n)
}

/// A node still as it was before the step: redo puts in its later form.
pub open spec fn advanced(n: NodeView, before: GraphView, after: GraphView) -> bool {
    last_with_id(after.nodes, n.id) is Some && last_with_id(before.nodes, n.id) == Some(n)
}

pub open spec fn undo_nodes(cur: Seq<NodeView>, before: GraphView, after: GraphView) -> Seq<NodeView>
    decreases cur.len(),
{
    if cur.len() == 0 {
        Seq::empty()
    } else if added_node(before, after, cur.last().id) {
        undo_nodes(cur.drop_last(), before, after)
    } else {
        let n = cur.last();
        undo_nodes(cur.drop_last(), before, after).push(
            if reverted(n, before, after) { last_with_id(before.nodes, n.id).unwrap() } else { n },
        )
    }
}

pub open spec fn undo_keeps_edge(e: EdgeView, before: GraphView, after: GraphView) -> bool {
    !added_edge(before, after, e.id) && !added_node(before, after, e.source) && !added_node(before, after, e.target)
}

pub open spec fn undo_edges(cur: Seq<EdgeView>, before: GraphView, after: GraphView) -> Seq<EdgeView>
    decreases cur.len(),
{
    if cur.len() == 0 {
        Seq::empty()
    } else if undo_keeps_edge(cur.last(), before, after) {
        undo_edges(cur.drop_last(), before, after).push(cur.last())
    } else {
        undo_edges(cur.drop_last(), before, after)
    }
}

/// Undo of one step: nodes the step added leave with their edges and the
/// edges it added; nodes it changed and that are still as it left them get
/// their earlier form back. With whether anything changed.
pub open spec fn undo_graph_spec(cur: GraphView, before: GraphView, after: GraphView) -> (GraphView, bool) {
    let nodes = undo_nodes(cur.nodes, before, after);
    let edges = undo_edges(cur.edges, before, after);
    let changed = nodes.len() != cur.nodes.len()
        || (exists|i: int| 0 <= i < cur.nodes.len() && !added_node(before, after, cur.nodes[i].id) && #[trigger] reverted(cur.nodes[i], before, after))
        || edges.len() != cur.edges.len();
    (GraphView { nodes, edges, ..cur }, changed)
}

pub open spec fn advance(n: NodeView, before: GraphView, after: GraphView) -> NodeView {
    if advanced(n, before, after) { last_with_id(after.nodes, n.id).unwrap() } else { n }
}

/// The nodes the step added that the current graph lacks, in order.
pub open spec fn fresh_nodes(ns: Seq<NodeView>, before: GraphView, cur: Seq<NodeView>) -> Seq<NodeView>
    decreases ns.len(),
{
    if ns.len() == 0 {
        Seq::empty()
    } else if !node_ids(before.nodes).contains(ns.last().id) && !node_ids(cur).contains(ns.last().id) {
        fresh_nodes(ns.drop_last(), before, cur).push(ns.last())
    } else {
        fresh_nodes(ns.drop_last(), before, cur)
    }
}

/// The edges the step added that the current graph lacks and whose ends are
/// in `nodes`, in order.
pub open spec fn fresh_edges(es: Seq<EdgeView>, before: GraphView, cur: Seq<EdgeView>, nodes: Seq<NodeView>) -> Seq<EdgeView>
    decreases es.len(),
{
    if es.len() == 0 {
        Seq::empty()
    } else {
        let e = es.last();
        let rest = fresh_edges(es.drop_last(), before, cur, nodes);
        if !edge_ids(before.edges).contains(e.id) && !edge_ids(cur).contains(e.id)
            && node_ids(nodes).contains(e.source) && node_ids(nodes).contains(e.target) {
            rest.push(e)
        } else {
            rest
        }
    }
}

/// Redo of one step: nodes it changed that are still as before it get their
/// later form; nodes and then edges it added come back, after those present,
/// where absent (an edge only when both its ends are present). With whether
/// anything changed.
pub open spec fn redo_graph_spec(cur: GraphView, before: GraphView, after: GraphView) -> (GraphView, bool) {
    let nodes = cur.nodes.map_values(|n: NodeView| advance(n, before, after)) + fresh_nodes(after.nodes, before, cur.nodes);
    let new_edges = fresh_edges(after.edges, before, cur.edges, nodes);
    let changed = (exists|i: int| 0 <= i < cur.nodes.len() && #[trigger] advanced(cur.nodes[i], before, after))
        || fresh_nodes(after.nodes, before, cur.nodes).len() > 0
        || new_edges.len() > 0;
    (GraphView { nodes, edges: cur.edges + new_edges, ..cur }, changed)
}

pub open spec fn graph_step_spec(cur: GraphView, before: GraphView, after: GraphView, direction: HistoryDirection) -> (GraphView, bool) {
    match direction {
        HistoryDirection::Undo => undo_graph_spec(cur, before, after),
        HistoryDirection::Redo => redo_graph_spec(cur, before, after),
    }
}


// ---------------------------------------------------------------------------
// Graph steps.
// ---------------------------------------------------------------------------

fn copy_node(n: &HistoryNode) -> (r: HistoryNode)
    ensures
        r@ == n@,
{
    HistoryNode { id: n.id.clone(), body: n.body.clone() }
}

fn copy_edge(e: &HistoryEdge) -> (r: HistoryEdge)
    ensures
        r@ == e@,
{
    HistoryEdge {
        id: e.id.clone(),
        source_node_id: e.source_node_id.clone(),
        target_node_id: e.target_node_id.clone(),
        body: e.body.clone(),
    }
}

fn node_eq(a: &HistoryNode, b: &HistoryNode) -> (r: bool)
    ensures
        r == (a@ == b@),
{
    str_eq(a.id.as_str(), b.id.as_str()) && str_eq(a.body.as_str(), b.body.as_str())
}

/// Whether a node has id `id`.
fn has_node_id(nodes: &Vec<HistoryNode>, id: &str) -> (r: bool)
    ensures
        r == node_ids(node_views(nodes@)).contains(id@),
{
    let ghost ids = node_ids(node_views(nodes@));
    let mut i: usize = 0;
    while i < nodes.len()
        invariant
            ids == node_ids(node_views(nodes@)),
            i <= nodes@.len(),
            forall|k: int| 0 <= k < i ==> ids[k] != id@,
        decreases nodes.len() - i,
    {
        if str_eq(nodes[i].id.as_str(), id) {
            assert(ids[i as int] == id@);
            return true;
        }
        i = i + 1;
    }
    false
}

/// Whether an edge has id `id`.
fn has_edge_id(edges: &Vec<HistoryEdge>, id: &str) -> (r: bool)
    ensures
        r == edge_ids(edge_views(edges@)).contains(id@),
{
    let ghost ids = edge_ids(edge_views(edges@));
    let mut i: usize = 0;
    while i < edges.len()
        invariant
            ids == edge_ids(edge_views(edges@)),
            i <= edges@.len(),
            forall|k: int| 0 <= k < i ==> ids[k] != id@,
        decreases edges.len() - i,
    {
        if str_eq(edges[i].id.as_str(), id) {
            assert(ids[i as int] == id@);
            return true;
        }
        i = i + 1;
    }
    false
}

/// The last node with id `id`.
fn last_node_with_id(nodes: &Vec<HistoryNode>, id: &str) -> (r: Option<usize>)
    ensures
        match r {
            Some(k) => k < nodes@.len() && last_with_id(node_views(nodes@), id@) == Some(nodes@[k as int]@),
            None => last_with_id(node_views(nodes@), id@) is None,
        },
{
    let ghost v = node_views(nodes@);
    let mut k: usize = nodes.len();
    assert(v.subrange(0, v.len() as int) =~= v);
    while k > 0
        invariant
            v == node_views(nodes@),
            k <= v.len(),
            last_with_id(v, id@) == last_with_id(v.subrange(0, k as int), id@),
        decreases k,
    {
        let ghost prefix = v.subrange(0, k as int);
        assert(prefix.drop_last() =~= v.subrange(0, k - 1));
        assert(prefix.last() == v[k - 1]);
        if str_eq(nodes[k - 1].id.as_str(), id) {
            return Some(k - 1);
        }
        k = k - 1;
    }
    None
}

fn is_added_node(before: &GraphDocumentCurrent, after: &GraphDocumentCurrent, id: &str) -> (r: bool)
    ensures
        r == added_node(before@, after@, id@),
{
    has_node_id(&after.nodes, id) && !has_node_id(&before.nodes, id)
}

/// Undoes one step on `current`; whether anything changed.
pub fn undo_graph_history_delta_current(
    current: &mut GraphDocumentCurrent,
    before: &GraphDocumentCurrent,
    after: &GraphDocumentCurrent,
) -> (r: bool)
    ensures
        (final(current)@, r) == undo_graph_spec(old(current)@, before@, after@),
{
    let ghost cur = current@;
    let ghost cn = cur.nodes;
    let mut nodes: Vec<HistoryNode> = Vec::new();
    let mut reverted_any = false;
    let mut i: usize = 0;
    while i < current.nodes.len()
        invariant
            cur == current@,
            cn == cur.nodes,
            i <= cn.len(),
            node_views(nodes@) == undo_nodes(cn.subrange(0, i as int), before@, after@),
            reverted_any == exists|j: int| 0 <= j < i && !added_node(before@, after@, cn[j].id) && #[trigger] reverted(cn[j], before@, after@),
        decreases cn.len() - i,
    {
        proof {
            assert(cn.subrange(0, i + 1).drop_last() =~= cn.subrange(0, i as int));
            assert(cn.subrange(0, i + 1).last() == cn[i as int]);
        }
        let n = &current.nodes[i];
        assert(n@ == cn[i as int]);
        if !is_added_node(before, after, n.id.as_str()) {
            let ghost prev = nodes@;
            let b = last_node_with_id(&before.nodes, n.id.as_str());
            let a = last_node_with_id(&after.nodes, n.id.as_str());
            let mut replaced = false;
            if let Some(bi) = b {
                if let Some(ai) = a {
                    if node_eq(n, &after.nodes[ai]) {
                        nodes.push(copy_node(&before.nodes[bi]));
                        replaced = true;
                    }
                }
            }
            if !replaced {
                nodes.push(copy_node(n));
            }
            proof {
                assert(replaced == reverted(cn[i as int], before@, after@));
                assert(node_views(nodes@) =~= node_views(prev).push(nodes@.last()@));
            }
            reverted_any = reverted_any || replaced;
        }
        i = i + 1;
    }
    proof {
        assert(cn.subrange(0, cn.len() as int) =~= cn);
    }
    let ghost ce = cur.edges;
    let mut edges: Vec<HistoryEdge> = Vec::new();
    let mut i: usize = 0;
    while i < current.edges.len()
        invariant
            cur == current@,
            ce == cur.edges,
            i <= ce.len(),
            edge_views(edges@) == undo_edges(ce.subrange(0, i as int), before@, after@),
        decreases ce.len() - i,
    {
        proof {
            assert(ce.subrange(0, i + 1).drop_last() =~= ce.subrange(0, i as int));
            assert(ce.subrange(0, i + 1).last() == ce[i as int]);
        }
        let e = &current.edges[i];
        assert(e@ == ce[i as int]);
        if !has_edge_id(&after.edges, e.id.as_str()) || has_edge_id(&before.edges, e.id.as_str()) {
            if !is_added_node(before, after, e.source_node_id.as_str()) && !is_added_node(before, after, e.target_node_id.as_str()) {
                let ghost prev = edges@;
                edges.push(copy_edge(e));
                proof {
                    assert(edge_views(edges@) =~= edge_views(prev).push(e@));
                }
            }
        }
        i = i + 1;
    }
    proof {
        assert(ce.subrange(0, ce.len() as int) =~= ce);
    }
    let changed = nodes.len() != current.nodes.len() || reverted_any || edges.len() != current.edges.len();
    current.nodes = nodes;
    current.edges = edges;
    changed
}

/// Redoes one step on `current`; whether anything changed.
pub fn redo_graph_history_delta_current(
    current: &mut GraphDocumentCurrent,
    before: &GraphDocumentCurrent,
    after: &GraphDocumentCurrent,
) -> (r: bool)
    ensures
        (final(current)@, r) == redo_graph_spec(old(current)@, before@, after@),
{
    let ghost cur = current@;
    let ghost cn = cur.nodes;
    let ghost f = |n: NodeView| advance(n, before@, after@);
    let mut nodes: Vec<HistoryNode> = Vec::new();
    let mut advanced_any = false;
    let mut i: usize = 0;
    while i < current.nodes.len()
        invariant
            cur == current@,
            cn == cur.nodes,
            f == (|n: NodeView| advance(n, before@, after@)),
            i <= cn.len(),
            node_views(nodes@) == cn.subrange(0, i as int).map_values(f),
            advanced_any == exists|j: int| 0 <= j < i && #[trigger] advanced(cn[j], before@, after@),
        decreases cn.len() - i,
    {
        let n = &current.nodes[i];
        assert(n@ == cn[i as int]);
        let ghost prev = nodes@;
        let b = last_node_with_id(&before.nodes, n.id.as_str());
        let a = last_node_with_id(&after.nodes, n.id.as_str());
        let mut replaced = false;
        if let Some(bi) = b {
            if let Some(ai) = a {
                if node_eq(n, &before.nodes[bi]) {
                    nodes.push(copy_node(&after.nodes[ai]));
                    replaced = true;
                }
            }
        }
        if !replaced {
            nodes.push(copy_node(n));
        }
        proof {
            assert(replaced == advanced(cn[i as int], before@, after@));
            assert(node_views(nodes@) =~= node_views(prev).push(f(cn[i as int])));
            assert(cn.subrange(0, i + 1).map_values(f) =~= cn.subrange(0, i as int).map_values(f).push(f(cn[i as int])));
        }
        advanced_any = advanced_any || replaced;
        i = i + 1;
    }
    proof {
        assert(cn.subrange(0, cn.len() as int) =~= cn);
    }
    let ghost mapped = nodes@;
    let ghost an = after@.nodes;
    let mut i: usize = 0;
    let mut added_any = false;
    while i < after.nodes.len()
        invariant
            cur == current@,
            cn == cur.nodes,
            an == after@.nodes,
            node_views(mapped) == cn.map_values(f),
            f == (|n: NodeView| advance(n, before@, after@)),
            i <= an.len(),
            node_views(nodes@) == node_views(mapped) + fresh_nodes(an.subrange(0, i as int), before@, cn),
            added_any == (fresh_nodes(an.subrange(0, i as int), before@, cn).len() > 0),
        decreases an.len() - i,
    {
        proof {
            assert(an.subrange(0, i + 1).drop_last() =~= an.subrange(0, i as int));
            assert(an.subrange(0, i + 1).last() == an[i as int]);
        }
        let n = &after.nodes[i];
        assert(n@ == an[i as int]);
        if !has_node_id(&before.nodes, n.id.as_str()) && !has_node_id(&current.nodes, n.id.as_str()) {
            let ghost prev = nodes@;
            nodes.push(copy_node(n));
            added_any = true;
            proof {
                assert(node_views(nodes@) =~= node_views(prev).push(n@));
            }
        }
        i = i + 1;
    }
    proof {
        assert(an.subrange(0, an.len() as int) =~= an);
    }
    let ghost ce = cur.edges;
    let ghost ae = after@.edges;
    let ghost new_nodes = node_views(nodes@);
    let mut edges: Vec<HistoryEdge> = Vec::new();
    let mut i: usize = 0;
    while i < current.edges.len()
        invariant
            cur == current@,
            ce == cur.edges,
            i <= ce.len(),
            edge_views(edges@) == ce.subrange(0, i as int),
        decreases ce.len() - i,
    {
        let ghost prev = edges@;
        assert(current.edges@[i as int]@ == ce[i as int]);
        edges.push(copy_edge(&current.edges[i]));
        proof {
            assert(edge_views(edges@) =~= edge_views(prev).push(ce[i as int]));
            assert(edge_views(edges@) =~= ce.subrange(0, i + 1));
        }
        i = i + 1;
    }
    proof {
        assert(ce.subrange(0, ce.len() as int) =~= ce);
    }
    let mut i: usize = 0;
    let mut edge_added = false;
    while i < after.edges.len()
        invariant
            cur == current@,
            ce == cur.edges,
            ae == after@.edges,
            new_nodes == node_views(nodes@),
            i <= ae.len(),
            edge_views(edges@) == ce + fresh_edges(ae.subrange(0, i as int), before@, ce, new_nodes),
            edge_added == (fresh_edges(ae.subrange(0, i as int), before@, ce, new_nodes).len() > 0),
        decreases ae.len() - i,
    {
        proof {
            assert(ae.subrange(0, i + 1).drop_last() =~= ae.subrange(0, i as int));
            assert(ae.subrange(0, i + 1).last() == ae[i as int]);
        }
        let e = &after.edges[i];
        assert(e@ == ae[i as int]);
        if !has_edge_id(&before.edges, e.id.as_str()) && !has_edge_id(&current.edges, e.id.as_str())
            && has_node_id(&nodes, e.source_node_id.as_str()) && has_node_id(&nodes, e.target_node_id.as_str()) {
            let ghost prev = edges@;
            edges.push(copy_edge(e));
            edge_added = true;
            proof {
                assert(edge_views(edges@) =~= edge_views(prev).push(e@));
            }
        }
        i = i + 1;
    }
    proof {
        assert(ae.subrange(0, ae.len() as int) =~= ae);
    }
    current.nodes = nodes;
    current.edges = edges;
    advanced_any || added_any || edge_added
}

/// Applies one step on `current` in `direction`; whether anything changed.
pub fn apply_graph_history_delta_current(
    current: &mut GraphDocumentCurrent,
    before: &GraphDocumentCurrent,
    after: &GraphDocumentCurrent,
    direction: HistoryDirection,
) -> (r: bool)
    ensures
        (final(current)@, r) == graph_step_spec(old(current)@, before@, after@, direction),
{
    match direction {
        HistoryDirection::Undo => undo_graph_history_delta_current(current, before, after),
        HistoryDirection::Redo => redo_graph_history_delta_current(current, before, after),
    }
}


// ---------------------------------------------------------------------------
// View state steps.
// ---------------------------------------------------------------------------

/// Undo on the canvas: node views the step added leave; those it changed
/// and that are still as it left them get their earlier form back.
pub open spec fn undo_canvas(c: Map<Seq<char>, Seq<char>>, b: Map<Seq<char>, Seq<char>>, a: Map<Seq<char>, Seq<char>>) -> Map<Seq<char>, Seq<char>> {
    Map::new(
        |k: Seq<char>| c.contains_key(k) && !(a.contains_key(k) && !b.contains_key(k)),
        |k: Seq<char>| if b.contains_key(k) && a.contains_key(k) && c[k] == a[k] { b[k] } else { c[k] },
    )
}

/// Redo on the canvas: node views the step added come back where absent;
/// those it changed and that are still as before it get their later form.
pub open spec fn redo_canvas(c: Map<Seq<char>, Seq<char>>, b: Map<Seq<char>, Seq<char>>, a: Map<Seq<char>, Seq<char>>) -> Map<Seq<char>, Seq<char>> {
    Map::new(
        |k: Seq<char>| c.contains_key(k) || (a.contains_key(k) && !b.contains_key(k)),
        |k: Seq<char>|
            if c.contains_key(k) {
                if b.contains_key(k) && a.contains_key(k) && c[k] == b[k] { a[k] } else { c[k] }
            } else {
                a[k]
            },
    )
}

/// A step on the view state; the viewport is always cleared.
pub open spec fn view_step_spec(c: ViewStateView, b: ViewStateView, a: ViewStateView, direction: HistoryDirection) -> ViewStateView {
    ViewStateView {
        canvas: match direction {
            HistoryDirection::Undo => undo_canvas(c.canvas, b.canvas, a.canvas),
            HistoryDirection::Redo => redo_canvas(c.canvas, b.canvas, a.canvas),
        },
        viewport: None,
        body: c.body,
    }
}

proof fn lemma_push_contains(s: Seq<Seq<char>>, x: Seq<char>, q: Seq<char>)
    ensures
        s.push(x).contains(q) <==> (s.contains(q) || q == x),
{
    if s.contains(q) {
        let i = choose|i: int| 0 <= i < s.len() && s[i] == q;
        assert(s.push(x)[i] == q);
    }
    if q == x {
        assert(s.push(x)[s.len() as int] == q);
    }
    if s.push(x).contains(q) {
        let i = choose|i: int| 0 <= i < s.push(x).len() && s.push(x)[i] == q;
        if i < s.len() {
            assert(s[i] == q);
        }
    }
}

proof fn lemma_canvas_push(e: Seq<CanvasNodeView>, x: CanvasNodeView)
    requires
        canvas_ids(e).no_duplicates(),
        !canvas_ids(e).contains(x.node_id@),
    ensures
        canvas_ids(e.push(x)).no_duplicates(),
        canvas_map(e.push(x)) =~= canvas_map(e).insert(x.node_id@, x.view@),
{
    let f = e.push(x);
    assert(canvas_ids(f) =~= canvas_ids(e).push(x.node_id@));
    assert forall|i: int, j: int| 0 <= i < canvas_ids(f).len() && 0 <= j < canvas_ids(f).len() && i != j implies canvas_ids(f)[i] != canvas_ids(f)[j] by {
        if i < e.len() && j < e.len() {
            assert(canvas_ids(e)[i] != canvas_ids(e)[j]);
        } else if i < e.len() {
            assert(canvas_ids(e)[i] == canvas_ids(f)[i]);
        } else {
            assert(canvas_ids(e)[j] == canvas_ids(f)[j]);
        }
    }
    let m = canvas_map(e).insert(x.node_id@, x.view@);
    assert forall|k: Seq<char>| canvas_map(f).contains_key(k) <==> m.contains_key(k) by {
        if canvas_ids(e).contains(k) {
            let i = choose|i: int| 0 <= i < canvas_ids(e).len() && canvas_ids(e)[i] == k;
            assert(canvas_ids(f)[i] == k);
        }
        if canvas_ids(f).contains(k) && k != x.node_id@ {
            let i = choose|i: int| 0 <= i < canvas_ids(f).len() && canvas_ids(f)[i] == k;
            assert(i < e.len());
            assert(canvas_ids(e)[i] == k);
        }
        if k == x.node_id@ {
            assert(canvas_ids(f)[e.len() as int] == k);
        }
    }
    assert forall|k: Seq<char>| canvas_map(f).contains_key(k) implies canvas_map(f)[k] == m[k] by {
        if k == x.node_id@ {
            lemma_canvas_map_at(f, e.len() as int);
        } else {
            let i = choose|i: int| 0 <= i < canvas_ids(f).len() && canvas_ids(f)[i] == k;
            assert(i < e.len());
            lemma_canvas_map_at(f, i);
            lemma_canvas_map_at(e, i);
        }
    }
}

/// The entry for node `id`.
fn canvas_position(entries: &Vec<CanvasNodeView>, id: &str) -> (r: Option<usize>)
    requires
        canvas_ids(entries@).no_duplicates(),
    ensures
        match r {
            Some(k) => k < entries@.len() && entries@[k as int].node_id@ == id@ && canvas_map(entries@).contains_key(id@)
                && canvas_map(entries@)[id@] == entries@[k as int].view@,
            None => !canvas_map(entries@).contains_key(id@),
        },
{
    let mut i: usize = 0;
    while i < entries.len()
        invariant
            canvas_ids(entries@).no_duplicates(),
            i <= entries@.len(),
            forall|k: int| 0 <= k < i ==> canvas_ids(entries@)[k] != id@,
        decreases entries.len() - i,
    {
        if str_eq(entries[i].node_id.as_str(), id) {
            proof {
                lemma_canvas_map_at(entries@, i as int);
            }
            return Some(i);
        }
        i = i + 1;
    }
    None
}

fn copy_canvas_entry(e: &CanvasNodeView) -> (r: CanvasNodeView)
    ensures
        r.node_id@ == e.node_id@,
        r.view@ == e.view@,
{
    CanvasNodeView { node_id: e.node_id.clone(), view: e.view.clone() }
}

/// Applies one step to the view state in `direction`.
pub fn view_state_history_delta_current(
    current: &ViewState,
    before: &ViewState,
    after: &ViewState,
    direction: HistoryDirection,
) -> (r: ViewState)
    requires
        view_state_wf(*current),
        view_state_wf(*before),
        view_state_wf(*after),
    ensures
        view_state_wf(r),
        r@ == view_step_spec(current@, before@, after@, direction),
{
    let ghost cur = current.canvas_nodes@;
    let ghost c = current@.canvas;
    let ghost b = before@.canvas;
    let ghost a = after@.canvas;
    let mut out: Vec<CanvasNodeView> = Vec::new();
    let mut i: usize = 0;
    let is_undo = match direction {
        HistoryDirection::Undo => true,
        HistoryDirection::Redo => false,
    };
    while i < current.canvas_nodes.len()
        invariant
            cur == current.canvas_nodes@,
            c == canvas_map(cur),
            b == canvas_map(before.canvas_nodes@),
            a == canvas_map(after.canvas_nodes@),
            canvas_ids(cur).no_duplicates(),
            view_state_wf(*before),
            view_state_wf(*after),
            is_undo == (direction == HistoryDirection::Undo),
            i <= cur.len(),
            canvas_ids(out@).no_duplicates(),
            forall|j: int| 0 <= j < out@.len() ==> #[trigger] canvas_ids(cur.subrange(0, i as int)).contains(canvas_ids(out@)[j]),
            is_undo ==> canvas_map(out@) =~= undo_canvas(c, b, a).restrict(canvas_ids(cur.subrange(0, i as int)).to_set()),
            !is_undo ==> canvas_map(out@) =~= redo_canvas(c, b, a).restrict(canvas_ids(cur.subrange(0, i as int)).to_set()),
        decreases cur.len() - i,
    {
        let e = &current.canvas_nodes[i];
        let ghost k = e.node_id@;
        proof {
            lemma_canvas_map_at(cur, i as int);
            assert(canvas_ids(cur.subrange(0, i + 1)) =~= canvas_ids(cur.subrange(0, i as int)).push(k));
            if canvas_ids(out@).contains(k) {
                let j = choose|j: int| 0 <= j < canvas_ids(out@).len() && canvas_ids(out@)[j] == k;
                assert(canvas_ids(cur.subrange(0, i as int)).contains(canvas_ids(out@)[j]));
                let m = choose|m: int| 0 <= m < canvas_ids(cur.subrange(0, i as int)).len() && canvas_ids(cur.subrange(0, i as int))[m] == k;
                assert(canvas_ids(cur)[m] == canvas_ids(cur)[i as int]);
            }
        }
        let bi = canvas_position(&before.canvas_nodes, e.node_id.as_str());
        let ai = canvas_position(&after.canvas_nodes, e.node_id.as_str());
        let ghost prev = out@;
        let mut pushed = false;
        if is_undo {
            if ai.is_some() && bi.is_none() {
                // dropped: the step added this node
            } else {
                let mut done = false;
                if let Some(bk) = bi {
                    if let Some(ak) = ai {
                        if str_eq(e.view.as_str(), after.canvas_nodes[ak].view.as_str()) {
                            out.push(CanvasNodeView { node_id: e.node_id.clone(), view: before.canvas_nodes[bk].view.clone() });
                            done = true;
                        }
                    }
                }
                if !done {
                    out.push(copy_canvas_entry(e));
                }
                pushed = true;
            }
        } else {
            let mut done = false;
            if let Some(bk) = bi {
                if let Some(ak) = ai {
                    if str_eq(e.view.as_str(), before.canvas_nodes[bk].view.as_str()) {
                        out.push(CanvasNodeView { node_id: e.node_id.clone(), view: after.canvas_nodes[ak].view.clone() });
                        done = true;
                    }
                }
            }
            if !done {
                out.push(copy_canvas_entry(e));
            }
            pushed = true;
        }
        proof {
            let s0 = canvas_ids(cur.subrange(0, i as int)).to_set();
            let s1 = canvas_ids(cur.subrange(0, i + 1)).to_set();
            assert forall|q: Seq<char>| s1.contains(q) <==> s0.insert(k).contains(q) by {
                lemma_push_contains(canvas_ids(cur.subrange(0, i as int)), k, q);
            }
            assert(s1 =~= s0.insert(k));
            if pushed {
                assert(out@ =~= prev.push(out@.last()));
                lemma_canvas_push(prev, out@.last());
                assert forall|j: int| 0 <= j < out@.len() implies #[trigger] canvas_ids(cur.subrange(0, i + 1)).contains(canvas_ids(out@)[j]) by {
                    if j < prev.len() {
                        assert(canvas_ids(out@)[j] == canvas_ids(prev)[j]);
                        assert(canvas_ids(cur.subrange(0, i as int)).contains(canvas_ids(prev)[j]));
                        let m = choose|m: int| 0 <= m < canvas_ids(cur.subrange(0, i as int)).len() && canvas_ids(cur.subrange(0, i as int))[m] == canvas_ids(prev)[j];
                        assert(canvas_ids(cur.subrange(0, i + 1))[m] == canvas_ids(prev)[j]);
                    } else {
                        assert(canvas_ids(cur.subrange(0, i + 1))[i as int] == k);
                    }
                }
            } else {
                assert forall|j: int| 0 <= j < out@.len() implies #[trigger] canvas_ids(cur.subrange(0, i + 1)).contains(canvas_ids(out@)[j]) by {
                    assert(canvas_ids(cur.subrange(0, i as int)).contains(canvas_ids(out@)[j]));
                    let m = choose|m: int| 0 <= m < canvas_ids(cur.subrange(0, i as int)).len() && canvas_ids(cur.subrange(0, i as int))[m] == canvas_ids(out@)[j];
                    assert(canvas_ids(cur.subrange(0, i + 1))[m] == canvas_ids(out@)[j]);
                }
            }
        }
        i = i + 1;
    }
    proof {
        assert(cur.subrange(0, cur.len() as int) =~= cur);
        assert forall|k: Seq<char>| canvas_ids(cur).to_set().contains(k) <==> c.contains_key(k) by {}
    }
    if !is_undo {
        let ghost mid = out@;
        let ghost aes = after.canvas_nodes@;
        let mut j: usize = 0;
        while j < after.canvas_nodes.len()
            invariant
                cur == current.canvas_nodes@,
                aes == after.canvas_nodes@,
                c == canvas_map(cur),
                b == canvas_map(before.canvas_nodes@),
                a == canvas_map(aes),
                canvas_ids(cur).no_duplicates(),
                view_state_wf(*before),
                view_state_wf(*after),
                j <= aes.len(),
                canvas_ids(out@).no_duplicates(),
                forall|t: int| 0 <= t < out@.len() ==> #[trigger] canvas_ids(out@)[t] == canvas_ids(out@)[t]
                    && (c.contains_key(canvas_ids(out@)[t]) || canvas_ids(aes.subrange(0, j as int)).contains(canvas_ids(out@)[t])),
                canvas_map(out@) =~= redo_canvas(c, b, a).restrict(
                    c.dom().union(canvas_ids(aes.subrange(0, j as int)).to_set().filter(|k: Seq<char>| !b.contains_key(k))),
                ),
            decreases aes.len() - j,
        {
            let e = &after.canvas_nodes[j];
            let ghost k = e.node_id@;
            proof {
                lemma_canvas_map_at(aes, j as int);
                assert(canvas_ids(aes.subrange(0, j + 1)) =~= canvas_ids(aes.subrange(0, j as int)).push(k));
            }
            let in_before = canvas_position(&before.canvas_nodes, e.node_id.as_str()).is_some();
            let in_current = canvas_position(&current.canvas_nodes, e.node_id.as_str()).is_some();
            let ghost prev = out@;
            if !in_before && !in_current {
                proof {
                    if canvas_ids(prev).contains(k) {
                        let t = choose|t: int| 0 <= t < canvas_ids(prev).len() && canvas_ids(prev)[t] == k;
                        assert(c.contains_key(canvas_ids(prev)[t]) || canvas_ids(aes.subrange(0, j as int)).contains(canvas_ids(prev)[t]));
                        let m = choose|m: int| 0 <= m < canvas_ids(aes.subrange(0, j as int)).len() && canvas_ids(aes.subrange(0, j as int))[m] == k;
                        assert(canvas_ids(aes)[m] == canvas_ids(aes)[j as int]);
                    }
                }
                out.push(copy_canvas_entry(e));
                proof {
                    assert(out@ =~= prev.push(out@.last()));
                    lemma_canvas_push(prev, out@.last());
                    assert forall|t: int| 0 <= t < out@.len() implies #[trigger] canvas_ids(out@)[t] == canvas_ids(out@)[t]
                        && (c.contains_key(canvas_ids(out@)[t]) || canvas_ids(aes.subrange(0, j + 1)).contains(canvas_ids(out@)[t])) by {
                        if t < prev.len() {
                            assert(canvas_ids(out@)[t] == canvas_ids(prev)[t]);
                            if !c.contains_key(canvas_ids(prev)[t]) {
                                let m = choose|m: int| 0 <= m < canvas_ids(aes.subrange(0, j as int)).len() && canvas_ids(aes.subrange(0, j as int))[m] == canvas_ids(prev)[t];
                                assert(canvas_ids(aes.subrange(0, j + 1))[m] == canvas_ids(prev)[t]);
                            }
                        } else {
                            assert(canvas_ids(aes.subrange(0, j + 1))[j as int] == k);
                        }
                    }
                }
            } else {
                proof {
                    assert forall|t: int| 0 <= t < out@.len() implies #[trigger] canvas_ids(out@)[t] == canvas_ids(out@)[t]
                        && (c.contains_key(canvas_ids(out@)[t]) || canvas_ids(aes.subrange(0, j + 1)).contains(canvas_ids(out@)[t])) by {
                        if !c.contains_key(canvas_ids(out@)[t]) {
                            let m = choose|m: int| 0 <= m < canvas_ids(aes.subrange(0, j as int)).len() && canvas_ids(aes.subrange(0, j as int))[m] == canvas_ids(out@)[t];
                            assert(canvas_ids(aes.subrange(0, j + 1))[m] == canvas_ids(out@)[t]);
                        }
                    }
                }
            }
            j = j + 1;
        }
        proof {
            assert(aes.subrange(0, aes.len() as int) =~= aes);
            assert forall|k: Seq<char>| canvas_ids(aes).to_set().contains(k) <==> a.contains_key(k) by {}
        }
    }
    proof {
        if is_undo {
            assert(canvas_map(out@) =~= undo_canvas(c, b, a));
        } else {
            assert(canvas_map(out@) =~= redo_canvas(c, b, a));
        }
    }
    ViewState { canvas_nodes: out, viewport: None, body: current.body.clone() }
}


// ---------------------------------------------------------------------------
// Project steps.
// ---------------------------------------------------------------------------

/// The first patch with id `id`.
pub open spec fn first_patch(ps: Seq<PatchView>, id: Seq<char>) -> Option<PatchView>
    decreases ps.len(),
{
    if ps.len() == 0 {
        None
    } else if ps[0].id == id {
        Some(ps[0])
    } else {
        first_patch(ps.drop_first(), id)
    }
}

/// A step on one patch of the library: its graph takes the step of the
/// patch with its id before and after; when that changes the graph, the
/// patch and its graph move to `next_revision`.
pub open spec fn patch_step_spec(p: PatchView, before: Seq<PatchView>, after: Seq<PatchView>, direction: HistoryDirection, next_revision: Seq<char>) -> PatchView {
    match (first_patch(before, p.id), first_patch(after, p.id)) {
        (Some(b), Some(a)) => {
            let (g, changed) = graph_step_spec(p.graph, b.graph, a.graph, direction);
            if changed {
                PatchView { graph: GraphView { revision: next_revision, ..g }, revision: next_revision, ..p }
            } else {
                PatchView { graph: g, ..p }
            }
        },
        _ => p,
    }
}

/// A history step on the project. When the project is exactly where the
/// step leaves it (undo) or starts from (redo), the result is the other end
/// of the step; otherwise the step is applied to the graph, the view state
/// and each patch.
pub open spec fn project_step_spec(
    cur: ProjectView,
    before: ProjectView,
    after: ProjectView,
    direction: HistoryDirection,
    next_revisions: Seq<Seq<char>>,
) -> ProjectView {
    let expected = match direction {
        HistoryDirection::Undo => after,
        HistoryDirection::Redo => before,
    };
    let target = match direction {
        HistoryDirection::Undo => before,
        HistoryDirection::Redo => after,
    };
    if cur == expected {
        target
    } else {
        ProjectView {
            graph: graph_step_spec(cur.graph, before.graph, after.graph, direction).0,
            view_state: view_step_spec(cur.view_state, before.view_state, after.view_state, direction),
            patches: Seq::new(
                cur.patches.len(),
                |i: int| patch_step_spec(cur.patches[i], before.patches, after.patches, direction, next_revisions[i]),
            ),
            body: cur.body,
        }
    }
}

fn opt_str_eq(a: &Option<String>, b: &Option<String>) -> (r: bool)
    ensures
        r == (opt_view(*a) == opt_view(*b)),
{
    match (a, b) {
        (Some(x), Some(y)) => str_eq(x.as_str(), y.as_str()),
        (None, None) => true,
        _ => false,
    }
}

fn graph_eq(a: &GraphDocumentCurrent, b: &GraphDocumentCurrent) -> (r: bool)
    ensures
        r == (a@ == b@),
{
    if !str_eq(a.revision.as_str(), b.revision.as_str()) || !str_eq(a.body.as_str(), b.body.as_str()) {
        return false;
    }
    if a.nodes.len() != b.nodes.len() || a.edges.len() != b.edges.len() {
        proof {
            if a@ == b@ {
                assert(node_views(a.nodes@).len() == node_views(b.nodes@).len());
                assert(edge_views(a.edges@).len() == edge_views(b.edges@).len());
            }
        }
        return false;
    }
    let mut i: usize = 0;
    while i < a.nodes.len()
        invariant
            a.nodes@.len() == b.nodes@.len(),
            i <= a.nodes@.len(),
            forall|k: int| 0 <= k < i ==> a.nodes@[k]@ == b.nodes@[k]@,
        decreases a.nodes.len() - i,
    {
        if !node_eq(&a.nodes[i], &b.nodes[i]) {
            proof {
                if a@ == b@ {
                    assert(node_views(a.nodes@)[i as int] == node_views(b.nodes@)[i as int]);
                }
            }
            return false;
        }
        i = i + 1;
    }
    let mut i: usize = 0;
    while i < a.edges.len()
        invariant
            a.edges@.len() == b.edges@.len(),
            i <= a.edges@.len(),
            forall|k: int| 0 <= k < i ==> a.edges@[k]@ == b.edges@[k]@,
        decreases a.edges.len() - i,
    {
        let x = &a.edges[i];
        let y = &b.edges[i];
        if !(str_eq(x.id.as_str(), y.id.as_str()) && str_eq(x.source_node_id.as_str(), y.source_node_id.as_str())
            && str_eq(x.target_node_id.as_str(), y.target_node_id.as_str()) && str_eq(x.body.as_str(), y.body.as_str())) {
            proof {
                if a@ == b@ {
                    assert(edge_views(a.edges@)[i as int] == edge_views(b.edges@)[i as int]);
                }
            }
            return false;
        }
        i = i + 1;
    }
    proof {
        assert(node_views(a.nodes@) =~= node_views(b.nodes@));
        assert(edge_views(a.edges@) =~= edge_views(b.edges@));
    }
    true
}

/// Every key of `a` is a key of `b` with the same value.
pub open spec fn map_within(a: Map<Seq<char>, Seq<char>>, b: Map<Seq<char>, Seq<char>>) -> bool {
    forall|k: Seq<char>| #[trigger] a.contains_key(k) ==> b.contains_key(k) && b[k] == a[k]
}

/// Whether every entry of `a` has its node in `b` with the same view.
fn canvas_within(a: &Vec<CanvasNodeView>, b: &Vec<CanvasNodeView>) -> (r: bool)
    requires
        canvas_ids(a@).no_duplicates(),
        canvas_ids(b@).no_duplicates(),
    ensures
        r == map_within(canvas_map(a@), canvas_map(b@)),
{
    let mut i: usize = 0;
    while i < a.len()
        invariant
            canvas_ids(a@).no_duplicates(),
            canvas_ids(b@).no_duplicates(),
            i <= a@.len(),
            forall|k: int| 0 <= k < i ==> canvas_map(b@).contains_key(#[trigger] a@[k].node_id@) && canvas_map(b@)[a@[k].node_id@] == a@[k].view@,
        decreases a.len() - i,
    {
        proof {
            lemma_canvas_map_at(a@, i as int);
        }
        match canvas_position(b, a[i].node_id.as_str()) {
            Some(j) => {
                if !str_eq(a[i].view.as_str(), b[j].view.as_str()) {
                    return false;
                }
            },
            None => {
                return false;
            },
        }
        i = i + 1;
    }
    proof {
        assert forall|k: Seq<char>| canvas_map(a@).contains_key(k) implies canvas_map(b@).contains_key(k) && canvas_map(b@)[k] == canvas_map(a@)[k] by {
            let m = choose|m: int| 0 <= m < canvas_ids(a@).len() && canvas_ids(a@)[m] == k;
            lemma_canvas_map_at(a@, m);
            assert(a@[m].node_id@ == k);
        }
    }
    true
}

fn view_state_eq(a: &ViewState, b: &ViewState) -> (r: bool)
    requires
        view_state_wf(*a),
        view_state_wf(*b),
    ensures
        r == (a@ == b@),
{
    let w1 = canvas_within(&a.canvas_nodes, &b.canvas_nodes);
    let w2 = canvas_within(&b.canvas_nodes, &a.canvas_nodes);
    let same = w1 && w2;
    proof {
        if same {
            let ma = canvas_map(a.canvas_nodes@);
            let mb = canvas_map(b.canvas_nodes@);
            assert forall|k: Seq<char>| ma.contains_key(k) <==> mb.contains_key(k) by {
                if ma.contains_key(k) {
                    assert(mb.contains_key(k));
                }
                if mb.contains_key(k) {
                    assert(ma.contains_key(k));
                }
            }
            assert forall|k: Seq<char>| ma.contains_key(k) implies ma[k] == mb[k] by {
                assert(mb.contains_key(k) && mb[k] == ma[k]);
            }
            assert(ma =~= mb);
        }
    }
    same && opt_str_eq(&a.viewport, &b.viewport) && str_eq(a.body.as_str(), b.body.as_str())
}

fn project_eq(a: &ProjectDocumentCurrent, b: &ProjectDocumentCurrent) -> (r: bool)
    requires
        project_wf(*a),
        project_wf(*b),
    ensures
        r == (a@ == b@),
{
    if !graph_eq(&a.graph, &b.graph) || !view_state_eq(&a.view_state, &b.view_state) || !str_eq(a.body.as_str(), b.body.as_str()) {
        return false;
    }
    if a.patch_library.len() != b.patch_library.len() {
        proof {
            if a@ == b@ {
                assert(patch_views(a.patch_library@).len() == patch_views(b.patch_library@).len());
            }
        }
        return false;
    }
    let mut i: usize = 0;
    while i < a.patch_library.len()
        invariant
            a.patch_library@.len() == b.patch_library@.len(),
            i <= a.patch_library@.len(),
            forall|k: int| 0 <= k < i ==> a.patch_library@[k]@ == b.patch_library@[k]@,
        decreases a.patch_library.len() - i,
    {
        let x = &a.patch_library[i];
        let y = &b.patch_library[i];
        if !(str_eq(x.id.as_str(), y.id.as_str()) && str_eq(x.revision.as_str(), y.revision.as_str())
            && graph_eq(&x.graph, &y.graph) && str_eq(x.body.as_str(), y.body.as_str())) {
            proof {
                if a@ == b@ {
                    assert(patch_views(a.patch_library@)[i as int] == patch_views(b.patch_library@)[i as int]);
                }
            }
            return false;
        }
        i = i + 1;
    }
    proof {
        assert(patch_views(a.patch_library@) =~= patch_views(b.patch_library@));
    }
    true
}

fn copy_graph(g: &GraphDocumentCurrent) -> (r: GraphDocumentCurrent)
    ensures
        r@ == g@,
{
    let mut nodes: Vec<HistoryNode> = Vec::new();
    let mut i: usize = 0;
    while i < g.nodes.len()
        invariant
            i <= g.nodes@.len(),
            node_views(nodes@) == node_views(g.nodes@).subrange(0, i as int),
        decreases g.nodes.len() - i,
    {
        let ghost prev = nodes@;
        nodes.push(copy_node(&g.nodes[i]));
        proof {
            assert(node_views(nodes@) =~= node_views(prev).push(g.nodes@[i as int]@));
            assert(node_views(g.nodes@).subrange(0, i + 1) =~= node_views(g.nodes@).subrange(0, i as int).push(g.nodes@[i as int]@));
            assert(node_views(nodes@) =~= node_views(g.nodes@).subrange(0, i + 1));
        }
        i = i + 1;
    }
    let mut edges: Vec<HistoryEdge> = Vec::new();
    let mut i: usize = 0;
    while i < g.edges.len()
        invariant
            i <= g.edges@.len(),
            edge_views(edges@) == edge_views(g.edges@).subrange(0, i as int),
        decreases g.edges.len() - i,
    {
        let ghost prev = edges@;
        edges.push(copy_edge(&g.edges[i]));
        proof {
            assert(edge_views(edges@) =~= edge_views(prev).push(g.edges@[i as int]@));
            assert(edge_views(g.edges@).subrange(0, i + 1) =~= edge_views(g.edges@).subrange(0, i as int).push(g.edges@[i as int]@));
            assert(edge_views(edges@) =~= edge_views(g.edges@).subrange(0, i + 1));
        }
        i = i + 1;
    }
    proof {
        assert(node_views(nodes@) =~= node_views(g.nodes@));
        assert(edge_views(edges@) =~= edge_views(g.edges@));
    }
    GraphDocumentCurrent { revision: g.revision.clone(), nodes, edges, body: g.body.clone() }
}

fn copy_view_state(v: &ViewState) -> (r: ViewState)
    requires
        view_state_wf(*v),
    ensures
        view_state_wf(r),
        r@ == v@,
{
    let mut out: Vec<CanvasNodeView> = Vec::new();
    let mut i: usize = 0;
    while i < v.canvas_nodes.len()
        invariant
            i <= v.canvas_nodes@.len(),
            out@.len() == i,
            forall|k: int| 0 <= k < i ==> out@[k].node_id@ == v.canvas_nodes@[k].node_id@ && out@[k].view@ == v.canvas_nodes@[k].view@,
        decreases v.canvas_nodes.len() - i,
    {
        out.push(copy_canvas_entry(&v.canvas_nodes[i]));
        i = i + 1;
    }
    proof {
        assert(canvas_ids(out@) =~= canvas_ids(v.canvas_nodes@));
        assert forall|k: Seq<char>| canvas_map(out@).contains_key(k) implies canvas_map(out@)[k] == canvas_map(v.canvas_nodes@)[k] by {
            let m = choose|m: int| 0 <= m < canvas_ids(out@).len() && canvas_ids(out@)[m] == k;
            lemma_canvas_map_at(out@, m);
            lemma_canvas_map_at(v.canvas_nodes@, m);
        }
        assert(canvas_map(out@) =~= canvas_map(v.canvas_nodes@));
    }
    let viewport = match &v.viewport {
        Some(x) => Some(x.clone()),
        None => None,
    };
    ViewState { canvas_nodes: out, viewport, body: v.body.clone() }
}

fn copy_project(p: &ProjectDocumentCurrent) -> (r: ProjectDocumentCurrent)
    requires
        project_wf(*p),
    ensures
        project_wf(r),
        r@ == p@,
{
    let mut patches: Vec<PatchDefinitionCurrent> = Vec::new();
    let mut i: usize = 0;
    while i < p.patch_library.len()
        invariant
            i <= p.patch_library@.len(),
            patch_views(patches@) == patch_views(p.patch_library@).subrange(0, i as int),
        decreases p.patch_library.len() - i,
    {
        let x = &p.patch_library[i];
        let ghost prev = patches@;
        patches.push(PatchDefinitionCurrent {
            id: x.id.clone(),
            revision: x.revision.clone(),
            graph: copy_graph(&x.graph),
            body: x.body.clone(),
        });
        proof {
            assert(patch_views(patches@) =~= patch_views(prev).push(x@));
            assert(patch_views(p.patch_library@).subrange(0, i + 1) =~= patch_views(p.patch_library@).subrange(0, i as int).push(x@));
            assert(patch_views(patches@) =~= patch_views(p.patch_library@).subrange(0, i + 1));
        }
        i = i + 1;
    }
    proof {
        assert(patch_views(patches@) =~= patch_views(p.patch_library@));
    }
    ProjectDocumentCurrent {
        graph: copy_graph(&p.graph),
        view_state: copy_view_state(&p.view_state),
        patch_library: patches,
        body: p.body.clone(),
    }
}

/// The first patch with id `id`.
fn find_patch(ps: &Vec<PatchDefinitionCurrent>, id: &str) -> (r: Option<usize>)
    ensures
        match r {
            Some(k) => k < ps@.len() && first_patch(patch_views(ps@), id@) == Some(ps@[k as int]@),
            None => first_patch(patch_views(ps@), id@) is None,
        },
{
    let ghost v = patch_views(ps@);
    let mut i: usize = 0;
    assert(v.subrange(0, v.len() as int) =~= v);
    while i < ps.len()
        invariant
            v == patch_views(ps@),
            i <= v.len(),
            first_patch(v, id@) == first_patch(v.subrange(i as int, v.len() as int), id@),
        decreases ps.len() - i,
    {
        let ghost rest = v.subrange(i as int, v.len() as int);
        assert(rest.drop_first() =~= v.subrange(i + 1, v.len() as int));
        assert(rest[0] == v[i as int]);
        if str_eq(ps[i].id.as_str(), id) {
            return Some(i);
        }
        i = i + 1;
    }
    None
}

/// Applies one history step to the project. `next_revisions[i]` is the
/// revision that follows the graph revision of patch `i` of `current`.
pub fn project_document_history_delta(
    current: &ProjectDocumentCurrent,
    before: &ProjectDocumentCurrent,
    after: &ProjectDocumentCurrent,
    direction: HistoryDirection,
    next_revisions: &Vec<String>,
) -> (r: ProjectDocumentCurrent)
    requires
        project_wf(*current),
        project_wf(*before),
        project_wf(*after),
        next_revisions@.len() == current.patch_library@.len(),
    ensures
        project_wf(r),
        r@ == project_step_spec(current@, before@, after@, direction, crate::text::string_views(next_revisions@)),
{
    let (expected, target) = match direction {
        HistoryDirection::Undo => (after, before),
        HistoryDirection::Redo => (before, after),
    };
    if project_eq(current, expected) {
        return copy_project(target);
    }
    let mut graph = copy_graph(&current.graph);
    apply_graph_history_delta_current(&mut graph, &before.graph, &after.graph, direction);
    let view_state = view_state_history_delta_current(&current.view_state, &before.view_state, &after.view_state, direction);
    let ghost revs = crate::text::string_views(next_revisions@);
    let ghost cp = patch_views(current.patch_library@);
    let mut patches: Vec<PatchDefinitionCurrent> = Vec::new();
    let mut i: usize = 0;
    while i < current.patch_library.len()
        invariant
            revs == crate::text::string_views(next_revisions@),
            cp == patch_views(current.patch_library@),
            next_revisions@.len() == cp.len(),
            i <= cp.len(),
            patches@.len() == i,
            forall|k: int| 0 <= k < i ==> (#[trigger] patches@[k])@ == patch_step_spec(cp[k], before@.patches, after@.patches, direction, revs[k]),
        decreases cp.len() - i,
    {
        let p = &current.patch_library[i];
        assert(p@ == cp[i as int]);
        let mut next = PatchDefinitionCurrent {
            id: p.id.clone(),
            revision: p.revision.clone(),
            graph: copy_graph(&p.graph),
            body: p.body.clone(),
        };
        let b = find_patch(&before.patch_library, p.id.as_str());
        let a = find_patch(&after.patch_library, p.id.as_str());
        if let Some(bi) = b {
            if let Some(ai) = a {
                let changed = apply_graph_history_delta_current(
                    &mut next.graph,
                    &before.patch_library[bi].graph,
                    &after.patch_library[ai].graph,
                    direction,
                );
                if changed {
                    next.graph.revision = next_revisions[i].clone();
                    next.revision = next_revisions[i].clone();
                }
            }
        }
        patches.push(next);
        i = i + 1;
    }
    proof {
        assert(patch_views(patches@) =~= Seq::new(cp.len(), |k: int| patch_step_spec(cp[k], before@.patches, after@.patches, direction, revs[k])));
    }
    ProjectDocumentCurrent { graph, view_state, patch_library: patches, body: current.body.clone() }
}


// ---------------------------------------------------------------------------
// Laws.
// ---------------------------------------------------------------------------

proof fn lemma_last_with_id(ns: Seq<NodeView>, id: Seq<char>)
    ensures
        last_with_id(ns, id) matches Some(n) ==> n.id == id,
    decreases ns.len(),
{
    if ns.len() > 0 {
        lemma_last_with_id(ns.drop_last(), id);
    }
}

proof fn lemma_undo_nodes(cur: Seq<NodeView>, before: GraphView, after: GraphView)
    ensures
        forall|i: int| 0 <= i < undo_nodes(cur, before, after).len() ==> {
            let id = (#[trigger] undo_nodes(cur, before, after)[i]).id;
            !added_node(before, after, id) && node_ids(cur).contains(id)
        },
    decreases cur.len(),
{
    if cur.len() > 0 {
        let init = cur.drop_last();
        lemma_undo_nodes(init, before, after);
        let n = cur.last();
        lemma_last_with_id(before.nodes, n.id);
        let r = undo_nodes(cur, before, after);
        assert forall|i: int| 0 <= i < r.len() implies {
            let id = (#[trigger] r[i]).id;
            !added_node(before, after, id) && node_ids(cur).contains(id)
        } by {
            let r0 = undo_nodes(init, before, after);
            if i < r0.len() {
                assert(r[i] == r0[i]);
                let id = r0[i].id;
                let m = choose|m: int| 0 <= m < node_ids(init).len() && node_ids(init)[m] == id;
                assert(node_ids(cur)[m] == id);
            } else {
                assert(node_ids(cur)[cur.len() - 1] == n.id);
            }
        }
    }
}

proof fn lemma_undo_edges(cur: Seq<EdgeView>, before: GraphView, after: GraphView)
    ensures
        forall|i: int| 0 <= i < undo_edges(cur, before, after).len() ==> undo_keeps_edge(#[trigger] undo_edges(cur, before, after)[i], before, after),
    decreases cur.len(),
{
    if cur.len() > 0 {
        lemma_undo_edges(cur.drop_last(), before, after);
        let r = undo_edges(cur, before, after);
        let r0 = undo_edges(cur.drop_last(), before, after);
        assert forall|i: int| 0 <= i < r.len() implies undo_keeps_edge(#[trigger] r[i], before, after) by {
            if i < r0.len() {
                assert(r[i] == r0[i]);
            }
        }
    }
}

/// Undo leaves no node that the step added, nor an edge that it added or
/// that touches such a node; and it brings in no node that was not there.
pub proof fn law_undo_removes_what_the_step_added(cur: GraphView, before: GraphView, after: GraphView)
    ensures
        ({
            let g = undo_graph_spec(cur, before, after).0;
            &&& forall|i: int| 0 <= i < g.nodes.len() ==> !added_node(before, after, (#[trigger] g.nodes[i]).id)
                && node_ids(cur.nodes).contains(g.nodes[i].id)
            &&& forall|i: int| 0 <= i < g.edges.len() ==> !added_edge(before, after, (#[trigger] g.edges[i]).id)
                && !added_node(before, after, g.edges[i].source) && !added_node(before, after, g.edges[i].target)
        }),
{
    lemma_undo_nodes(cur.nodes, before, after);
    lemma_undo_edges(cur.edges, before, after);
}

proof fn lemma_fresh_nodes(ns: Seq<NodeView>, before: GraphView, cur: Seq<NodeView>, k: int)
    requires
        0 <= k < ns.len(),
        !node_ids(before.nodes).contains(ns[k].id),
        !node_ids(cur).contains(ns[k].id),
    ensures
        fresh_nodes(ns, before, cur).contains(ns[k]),
    decreases ns.len(),
{
    let init = ns.drop_last();
    if k == ns.len() - 1 {
        assert(fresh_nodes(ns, before, cur).last() == ns[k]);
    } else {
        assert(init[k] == ns[k]);
        lemma_fresh_nodes(init, before, cur, k);
        let r0 = fresh_nodes(init, before, cur);
        let m = choose|m: int| 0 <= m < r0.len() && r0[m] == ns[k];
        assert(fresh_nodes(ns, before, cur)[m] == ns[k]);
    }
}

/// Redo keeps every node and edge of the current graph in place and, for
/// every node the step added, leaves a node with its id.
pub proof fn law_redo_brings_back_added_nodes(cur: GraphView, before: GraphView, after: GraphView)
    ensures
        ({
            let g = redo_graph_spec(cur, before, after).0;
            &&& g.nodes.len() >= cur.nodes.len()
            &&& forall|i: int| 0 <= i < cur.nodes.len() ==> (#[trigger] g.nodes[i]).id == cur.nodes[i].id
            &&& g.edges.subrange(0, cur.edges.len() as int) == cur.edges
            &&& forall|k: int| 0 <= k < after.nodes.len() && !node_ids(before.nodes).contains(#[trigger] after.nodes[k].id)
                ==> node_ids(g.nodes).contains(after.nodes[k].id)
        }),
{
    let g = redo_graph_spec(cur, before, after).0;
    let mapped = cur.nodes.map_values(|n: NodeView| advance(n, before, after));
    assert forall|i: int| 0 <= i < cur.nodes.len() implies (#[trigger] g.nodes[i]).id == cur.nodes[i].id by {
        let n = cur.nodes[i];
        lemma_last_with_id(after.nodes, n.id);
        assert(g.nodes[i] == mapped[i]);
    }
    assert(g.edges.subrange(0, cur.edges.len() as int) =~= cur.edges);
    assert forall|k: int| 0 <= k < after.nodes.len() && !node_ids(before.nodes).contains(#[trigger] after.nodes[k].id)
        implies node_ids(g.nodes).contains(after.nodes[k].id) by {
        let id = after.nodes[k].id;
        if node_ids(cur.nodes).contains(id) {
            let i = choose|i: int| 0 <= i < node_ids(cur.nodes).len() && node_ids(cur.nodes)[i] == id;
            assert(g.nodes[i].id == cur.nodes[i].id);
            assert(node_ids(g.nodes)[i] == id);
        } else {
            lemma_fresh_nodes(after.nodes, before, cur.nodes, k);
            let f = fresh_nodes(after.nodes, before, cur.nodes);
            let m = choose|m: int| 0 <= m < f.len() && f[m] == after.nodes[k];
            assert(g.nodes[mapped.len() + m] == f[m]);
            assert(node_ids(g.nodes)[mapped.len() + m] == id);
        }
    }
}

/// A project exactly where a step left it undoes to the project before the
/// step; one exactly where a step started redoes to the project after it.
/// Any other project loses its viewport.
pub proof fn law_step_ends_are_restored_exactly(cur: ProjectView, before: ProjectView, after: ProjectView, next_revisions: Seq<Seq<char>>)
    ensures
        cur == after ==> project_step_spec(cur, before, after, HistoryDirection::Undo, next_revisions) == before,
        cur == before ==> project_step_spec(cur, before, after, HistoryDirection::Redo, next_revisions) == after,
        cur != after ==> project_step_spec(cur, before, after, HistoryDirection::Undo, next_revisions).view_state.viewport is None,
        cur != before ==> project_step_spec(cur, before, after, HistoryDirection::Redo, next_revisions).view_state.viewport is None,
{
}

proof fn lemma_last_with_id_some(ns: Seq<NodeView>, id: Seq<char>)
    ensures
        (last_with_id(ns, id) is Some) == node_ids(ns).contains(id),
    decreases ns.len(),
{
    if ns.len() > 0 {
        let init = ns.drop_last();
        lemma_last_with_id_some(init, id);
        if node_ids(init).contains(id) {
            let m = choose|m: int| 0 <= m < node_ids(init).len() && node_ids(init)[m] == id;
            assert(node_ids(ns)[m] == id);
        }
        if ns.last().id == id {
            assert(node_ids(ns)[ns.len() - 1] == id);
        } else if node_ids(ns).contains(id) {
            let m = choose|m: int| 0 <= m < node_ids(ns).len() && node_ids(ns)[m] == id;
            assert(m < ns.len() - 1);
            assert(node_ids(init)[m] == id);
        }
    }
}

proof fn lemma_last_with_id_unique(ns: Seq<NodeView>, k: int)
    requires
        node_ids(ns).no_duplicates(),
        0 <= k < ns.len(),
    ensures
        last_with_id(ns, ns[k].id) == Some(ns[k]),
    decreases ns.len(),
{
    if k < ns.len() - 1 {
        let init = ns.drop_last();
        assert(node_ids(ns)[k] == ns[k].id && node_ids(ns)[ns.len() - 1] == ns.last().id);
        assert(node_ids(init) =~= node_ids(ns).drop_last());
        assert(init[k] == ns[k]);
        lemma_last_with_id_unique(init, k);
    }
}

proof fn lemma_advance_twice(n: NodeView, before: GraphView, after: GraphView)
    ensures
        advance(advance(n, before, after), before, after) == advance(n, before, after),
        advance(n, before, after).id == n.id,
{
    lemma_last_with_id(after.nodes, n.id);
}

proof fn lemma_fresh_nodes_elems(ns: Seq<NodeView>, before: GraphView, cur: Seq<NodeView>)
    ensures
        forall|i: int| 0 <= i < fresh_nodes(ns, before, cur).len() ==> ns.contains(#[trigger] fresh_nodes(ns, before, cur)[i])
            && !node_ids(before.nodes).contains(fresh_nodes(ns, before, cur)[i].id),
    decreases ns.len(),
{
    if ns.len() > 0 {
        let init = ns.drop_last();
        lemma_fresh_nodes_elems(init, before, cur);
        let f = fresh_nodes(ns, before, cur);
        let f0 = fresh_nodes(init, before, cur);
        assert forall|i: int| 0 <= i < f.len() implies ns.contains(#[trigger] f[i]) && !node_ids(before.nodes).contains(f[i].id) by {
            if i < f0.len() {
                assert(f[i] == f0[i]);
                let m = choose|m: int| 0 <= m < init.len() && init[m] == f0[i];
                assert(ns[m] == f0[i]);
            } else {
                assert(ns[ns.len() - 1] == f[i]);
            }
        }
    }
}

proof fn lemma_fresh_nodes_empty(ns: Seq<NodeView>, before: GraphView, cur: Seq<NodeView>)
    requires
        forall|k: int| 0 <= k < ns.len() ==> node_ids(before.nodes).contains(#[trigger] ns[k].id) || node_ids(cur).contains(ns[k].id),
    ensures
        fresh_nodes(ns, before, cur) == Seq::<NodeView>::empty(),
    decreases ns.len(),
{
    if ns.len() > 0 {
        let init = ns.drop_last();
        assert forall|k: int| 0 <= k < init.len() implies node_ids(before.nodes).contains(#[trigger] init[k].id) || node_ids(cur).contains(init[k].id) by {
            assert(init[k] == ns[k]);
        }
        assert(ns[ns.len() - 1] == ns.last());
        lemma_fresh_nodes_empty(init, before, cur);
    }
}

proof fn lemma_fresh_edges_member(es: Seq<EdgeView>, before: GraphView, cur: Seq<EdgeView>, nodes: Seq<NodeView>, k: int)
    requires
        0 <= k < es.len(),
        !edge_ids(before.edges).contains(es[k].id),
        !edge_ids(cur).contains(es[k].id),
        node_ids(nodes).contains(es[k].source),
        node_ids(nodes).contains(es[k].target),
    ensures
        fresh_edges(es, before, cur, nodes).contains(es[k]),
    decreases es.len(),
{
    let init = es.drop_last();
    if k == es.len() - 1 {
        assert(fresh_edges(es, before, cur, nodes).last() == es[k]);
    } else {
        assert(init[k] == es[k]);
        lemma_fresh_edges_member(init, before, cur, nodes, k);
        let r0 = fresh_edges(init, before, cur, nodes);
        let m = choose|m: int| 0 <= m < r0.len() && r0[m] == es[k];
        assert(fresh_edges(es, before, cur, nodes)[m] == es[k]);
    }
}

proof fn lemma_fresh_edges_elems(es: Seq<EdgeView>, before: GraphView, cur: Seq<EdgeView>, nodes: Seq<NodeView>)
    ensures
        forall|i: int| 0 <= i < fresh_edges(es, before, cur, nodes).len() ==> es.contains(#[trigger] fresh_edges(es, before, cur, nodes)[i])
            && !edge_ids(before.edges).contains(fresh_edges(es, before, cur, nodes)[i].id),
    decreases es.len(),
{
    if es.len() > 0 {
        let init = es.drop_last();
        lemma_fresh_edges_elems(init, before, cur, nodes);
        let f = fresh_edges(es, before, cur, nodes);
        let f0 = fresh_edges(init, before, cur, nodes);
        assert forall|i: int| 0 <= i < f.len() implies es.contains(#[trigger] f[i]) && !edge_ids(before.edges).contains(f[i].id) by {
            if i < f0.len() {
                assert(f[i] == f0[i]);
                let m = choose|m: int| 0 <= m < init.len() && init[m] == f0[i];
                assert(es[m] == f0[i]);
            } else {
                assert(es[es.len() - 1] == f[i]);
            }
        }
    }
}

proof fn lemma_fresh_edges_empty(es: Seq<EdgeView>, before: GraphView, cur: Seq<EdgeView>, nodes: Seq<NodeView>)
    requires
        forall|k: int| 0 <= k < es.len() ==> edge_ids(before.edges).contains(#[trigger] es[k].id) || edge_ids(cur).contains(es[k].id)
            || !node_ids(nodes).contains(es[k].source) || !node_ids(nodes).contains(es[k].target),
    ensures
        fresh_edges(es, before, cur, nodes) == Seq::<EdgeView>::empty(),
    decreases es.len(),
{
    if es.len() > 0 {
        let init = es.drop_last();
        assert forall|k: int| 0 <= k < init.len() implies edge_ids(before.edges).contains(#[trigger] init[k].id) || edge_ids(cur).contains(init[k].id)
            || !node_ids(nodes).contains(init[k].source) || !node_ids(nodes).contains(init[k].target) by {
            assert(init[k] == es[k]);
        }
        assert(es[es.len() - 1] == es.last());
        lemma_fresh_edges_empty(init, before, cur, nodes);
    }
}

proof fn lemma_contains_id(ns: Seq<NodeView>, i: int)
    requires
        0 <= i < ns.len(),
    ensures
        node_ids(ns).contains(ns[i].id),
{
    assert(node_ids(ns)[i] == ns[i].id);
}

proof fn lemma_contains_edge_id(es: Seq<EdgeView>, i: int)
    requires
        0 <= i < es.len(),
    ensures
        edge_ids(es).contains(es[i].id),
{
    assert(edge_ids(es)[i] == es[i].id);
}

/// Redoing a step a second time, with the same ends, leaves the graph as the
/// first redo left it; it then reports a change exactly when some node is
/// still as it was before the step while the step also holds a node with its
/// id.
pub proof fn law_redo_twice_is_redo_once(cur: GraphView, before: GraphView, after: GraphView)
    ensures
        ({
            let g1 = redo_graph_spec(cur, before, after).0;
            &&& redo_graph_spec(g1, before, after).0 == g1
            &&& redo_graph_spec(g1, before, after).1 == exists|i: int| 0 <= i < g1.nodes.len() && #[trigger] advanced(g1.nodes[i], before, after)
        }),
{
    let f = |n: NodeView| advance(n, before, after);
    let mapped = cur.nodes.map_values(f);
    let fresh0 = fresh_nodes(after.nodes, before, cur.nodes);
    let g1 = redo_graph_spec(cur, before, after).0;
    let n1 = g1.nodes;
    assert(n1 == mapped + fresh0);
    lemma_fresh_nodes_elems(after.nodes, before, cur.nodes);
    // every node of the first redo is a fixed point of `advance`
    assert forall|i: int| 0 <= i < n1.len() implies #[trigger] f(n1[i]) == n1[i] by {
        if i < mapped.len() {
            lemma_advance_twice(cur.nodes[i], before, after);
        } else {
            let x = fresh0[i - mapped.len()];
            assert(n1[i] == x);
            lemma_last_with_id_some(before.nodes, x.id);
        }
    }
    assert(n1.map_values(f) =~= n1);
    // ids of the current graph survive the first redo
    assert forall|i: int| 0 <= i < cur.nodes.len() implies node_ids(n1).contains(#[trigger] cur.nodes[i].id) by {
        lemma_advance_twice(cur.nodes[i], before, after);
        lemma_contains_id(n1, i);
    }
    // nothing fresh is left for a second redo
    assert forall|k: int| 0 <= k < after.nodes.len() implies node_ids(before.nodes).contains(#[trigger] after.nodes[k].id)
        || node_ids(n1).contains(after.nodes[k].id) by {
        let id = after.nodes[k].id;
        if !node_ids(before.nodes).contains(id) {
            if node_ids(cur.nodes).contains(id) {
                let i = choose|i: int| 0 <= i < node_ids(cur.nodes).len() && node_ids(cur.nodes)[i] == id;
                assert(cur.nodes[i].id == id);
            } else {
                lemma_fresh_nodes(after.nodes, before, cur.nodes, k);
                let m = choose|m: int| 0 <= m < fresh0.len() && fresh0[m] == after.nodes[k];
                assert(n1[mapped.len() + m] == fresh0[m]);
                lemma_contains_id(n1, mapped.len() + m);
            }
        }
    }
    lemma_fresh_nodes_empty(after.nodes, before, n1);
    let n2 = n1.map_values(f) + fresh_nodes(after.nodes, before, n1);
    assert(n2 =~= n1);
    // edges
    let fe0 = fresh_edges(after.edges, before, cur.edges, n1);
    let e1 = g1.edges;
    assert(e1 == cur.edges + fe0);
    assert forall|k: int| 0 <= k < after.edges.len() implies edge_ids(before.edges).contains(#[trigger] after.edges[k].id)
        || edge_ids(e1).contains(after.edges[k].id)
        || !node_ids(n2).contains(after.edges[k].source) || !node_ids(n2).contains(after.edges[k].target) by {
        let e = after.edges[k];
        if !edge_ids(before.edges).contains(e.id) && node_ids(n1).contains(e.source) && node_ids(n1).contains(e.target) {
            if edge_ids(cur.edges).contains(e.id) {
                let i = choose|i: int| 0 <= i < edge_ids(cur.edges).len() && edge_ids(cur.edges)[i] == e.id;
                assert(e1[i] == cur.edges[i]);
                lemma_contains_edge_id(e1, i);
            } else {
                lemma_fresh_edges_member(after.edges, before, cur.edges, n1, k);
                let m = choose|m: int| 0 <= m < fe0.len() && fe0[m] == e;
                assert(e1[cur.edges.len() + m] == fe0[m]);
                lemma_contains_edge_id(e1, cur.edges.len() + m);
            }
        }
    }
    lemma_fresh_edges_empty(after.edges, before, e1, n2);
    assert(redo_graph_spec(g1, before, after).0.edges =~= e1);
}

proof fn lemma_undo_nodes_drop_added(s: Seq<NodeView>, t: Seq<NodeView>, before: GraphView, after: GraphView)
    requires
        forall|i: int| 0 <= i < t.len() ==> added_node(before, after, (#[trigger] t[i]).id),
    ensures
        undo_nodes(s + t, before, after) == undo_nodes(s, before, after),
    decreases t.len(),
{
    if t.len() > 0 {
        assert((s + t).drop_last() =~= s + t.drop_last());
        assert((s + t).last() == t[t.len() - 1]);
        assert forall|i: int| 0 <= i < t.drop_last().len() implies added_node(before, after, (#[trigger] t.drop_last()[i]).id) by {
            assert(t.drop_last()[i] == t[i]);
        }
        lemma_undo_nodes_drop_added(s, t.drop_last(), before, after);
    } else {
        assert(s + t =~= s);
    }
}

proof fn lemma_undo_nodes_of_advanced(xs: Seq<NodeView>, before: GraphView, after: GraphView)
    requires
        forall|k: int| 0 <= k < xs.len() ==> last_with_id(before.nodes, (#[trigger] xs[k]).id) == Some(xs[k]),
    ensures
        undo_nodes(xs.map_values(|n: NodeView| advance(n, before, after)), before, after) == xs,
    decreases xs.len(),
{
    let f = |n: NodeView| advance(n, before, after);
    if xs.len() > 0 {
        let init = xs.drop_last();
        assert forall|k: int| 0 <= k < init.len() implies last_with_id(before.nodes, (#[trigger] init[k]).id) == Some(init[k]) by {
            assert(init[k] == xs[k]);
        }
        lemma_undo_nodes_of_advanced(init, before, after);
        let ys = xs.map_values(f);
        assert(ys.drop_last() =~= init.map_values(f));
        let n = xs.last();
        assert(last_with_id(before.nodes, xs[xs.len() - 1].id) == Some(xs[xs.len() - 1]));
        lemma_last_with_id_some(before.nodes, n.id);
        lemma_last_with_id(after.nodes, n.id);
        assert(ys.last() == f(n));
        assert(!added_node(before, after, ys.last().id));
        assert(undo_nodes(ys, before, after) =~= xs);
    } else {
        assert(xs.map_values(f) =~= Seq::<NodeView>::empty());
    }
}

proof fn lemma_undo_edges_drop_added(s: Seq<EdgeView>, t: Seq<EdgeView>, before: GraphView, after: GraphView)
    requires
        forall|i: int| 0 <= i < t.len() ==> added_edge(before, after, (#[trigger] t[i]).id),
    ensures
        undo_edges(s + t, before, after) == undo_edges(s, before, after),
    decreases t.len(),
{
    if t.len() > 0 {
        assert((s + t).drop_last() =~= s + t.drop_last());
        assert((s + t).last() == t[t.len() - 1]);
        assert forall|i: int| 0 <= i < t.drop_last().len() implies added_edge(before, after, (#[trigger] t.drop_last()[i]).id) by {
            assert(t.drop_last()[i] == t[i]);
        }
        lemma_undo_edges_drop_added(s, t.drop_last(), before, after);
    } else {
        assert(s + t =~= s);
    }
}

proof fn lemma_undo_edges_keep_all(es: Seq<EdgeView>, before: GraphView, after: GraphView)
    requires
        forall|i: int| 0 <= i < es.len() ==> undo_keeps_edge(#[trigger] es[i], before, after),
    ensures
        undo_edges(es, before, after) == es,
    decreases es.len(),
{
    if es.len() > 0 {
        let init = es.drop_last();
        assert forall|i: int| 0 <= i < init.len() implies undo_keeps_edge(#[trigger] init[i], before, after) by {
            assert(init[i] == es[i]);
        }
        assert(undo_keeps_edge(es[es.len() - 1], before, after));
        lemma_undo_edges_keep_all(init, before, after);
        assert(undo_edges(es, before, after) =~= es);
    }
}

/// Redo from the graph before a step, then undo, gives that graph back
/// exactly (same nodes and edges, in the same order), when its node ids are
/// distinct and its edges join its own nodes.
pub proof fn law_redo_then_undo_restores_before(before: GraphView, after: GraphView)
    requires
        node_ids(before.nodes).no_duplicates(),
        forall|k: int| 0 <= k < before.edges.len() ==> node_ids(before.nodes).contains(#[trigger] before.edges[k].source)
            && node_ids(before.nodes).contains(before.edges[k].target),
    ensures
        undo_graph_spec(redo_graph_spec(before, before, after).0, before, after).0 == before,
{
    let f = |n: NodeView| advance(n, before, after);
    let mapped = before.nodes.map_values(f);
    let fresh0 = fresh_nodes(after.nodes, before, before.nodes);
    let g1 = redo_graph_spec(before, before, after).0;
    assert(g1.nodes == mapped + fresh0);
    lemma_fresh_nodes_elems(after.nodes, before, before.nodes);
    assert forall|i: int| 0 <= i < fresh0.len() implies added_node(before, after, (#[trigger] fresh0[i]).id) by {
        let m = choose|m: int| 0 <= m < after.nodes.len() && after.nodes[m] == fresh0[i];
        lemma_contains_id(after.nodes, m);
    }
    lemma_undo_nodes_drop_added(mapped, fresh0, before, after);
    assert forall|k: int| 0 <= k < before.nodes.len() implies last_with_id(before.nodes, (#[trigger] before.nodes[k]).id) == Some(before.nodes[k]) by {
        lemma_last_with_id_unique(before.nodes, k);
    }
    lemma_undo_nodes_of_advanced(before.nodes, before, after);
    let fe0 = fresh_edges(after.edges, before, before.edges, g1.nodes);
    assert(g1.edges == before.edges + fe0);
    lemma_fresh_edges_elems(after.edges, before, before.edges, g1.nodes);
    assert forall|i: int| 0 <= i < fe0.len() implies added_edge(before, after, (#[trigger] fe0[i]).id) by {
        let m = choose|m: int| 0 <= m < after.edges.len() && after.edges[m] == fe0[i];
        lemma_contains_edge_id(after.edges, m);
    }
    lemma_undo_edges_drop_added(before.edges, fe0, before, after);
    assert forall|i: int| 0 <= i < before.edges.len() implies undo_keeps_edge(#[trigger] before.edges[i], before, after) by {
        lemma_contains_edge_id(before.edges, i);
    }
    lemma_undo_edges_keep_all(before.edges, before, after);
}

/// What a step does to the canvas, node view by node view. Undo: a view the
/// step added leaves; a view still as the step left it gets the form it had
/// before the step; a view edited after the step, or one the step did not
/// touch, is kept as it is; nothing new appears. Redo: a view still as it
/// was before the step gets the form the step gave it; a view edited since,
/// or one the step did not touch, is kept; a view the step added comes back
/// when absent. Either way the viewport is cleared.
pub proof fn law_canvas_steps_keep_later_edits(c: ViewStateView, b: ViewStateView, a: ViewStateView, k: Seq<char>)
    ensures
        ({
            let u = view_step_spec(c, b, a, HistoryDirection::Undo);
            &&& u.viewport is None
            &&& a.canvas.contains_key(k) && !b.canvas.contains_key(k) ==> !u.canvas.contains_key(k)
            &&& !c.canvas.contains_key(k) ==> !u.canvas.contains_key(k)
            &&& c.canvas.contains_key(k) && b.canvas.contains_key(k) && a.canvas.contains_key(k) && c.canvas[k] == a.canvas[k]
                ==> u.canvas.contains_key(k) && u.canvas[k] == b.canvas[k]
            &&& c.canvas.contains_key(k) && !(a.canvas.contains_key(k) && !b.canvas.contains_key(k))
                && (!a.canvas.contains_key(k) || c.canvas[k] != a.canvas[k])
                ==> u.canvas.contains_key(k) && u.canvas[k] == c.canvas[k]
        }),
        ({
            let r = view_step_spec(c, b, a, HistoryDirection::Redo);
            &&& r.viewport is None
            &&& c.canvas.contains_key(k) && b.canvas.contains_key(k) && a.canvas.contains_key(k) && c.canvas[k] == b.canvas[k]
                ==> r.canvas.contains_key(k) && r.canvas[k] == a.canvas[k]
            &&& c.canvas.contains_key(k) && (!b.canvas.contains_key(k) || !a.canvas.contains_key(k) || c.canvas[k] != b.canvas[k])
                ==> r.canvas.contains_key(k) && r.canvas[k] == c.canvas[k]
            &&& !c.canvas.contains_key(k) && a.canvas.contains_key(k) && !b.canvas.contains_key(k)
                ==> r.canvas.contains_key(k) && r.canvas[k] == a.canvas[k]
            &&& !c.canvas.contains_key(k) && !(a.canvas.contains_key(k) && !b.canvas.contains_key(k))
                ==> !r.canvas.contains_key(k)
        }),
{
}

/// Undoing a project step keeps a canvas view edited after the step, and
/// puts back the earlier form of one still as the step left it; redoing
/// keeps a view edited since the step started, and gives the step's form to
/// one still as it was before the step.
pub proof fn law_project_steps_keep_later_canvas_edits(
    cur: ProjectView,
    before: ProjectView,
    after: ProjectView,
    next_revisions: Seq<Seq<char>>,
    k: Seq<char>,
)
    ensures
        ({
            let c = cur.view_state.canvas;
            let b = before.view_state.canvas;
            let a = after.view_state.canvas;
            let u = project_step_spec(cur, before, after, HistoryDirection::Undo, next_revisions).view_state.canvas;
            let r = project_step_spec(cur, before, after, HistoryDirection::Redo, next_revisions).view_state.canvas;
            &&& c.contains_key(k) && a.contains_key(k) && c[k] != a[k] && b.contains_key(k)
                ==> u.contains_key(k) && u[k] == c[k]
            &&& c.contains_key(k) && b.contains_key(k) && a.contains_key(k) && c[k] == a[k]
                ==> u.contains_key(k) && u[k] == b[k]
            &&& c.contains_key(k) && b.contains_key(k) && c[k] != b[k]
                ==> r.contains_key(k) && r[k] == c[k]
            &&& c.contains_key(k) && b.contains_key(k) && a.contains_key(k) && c[k] == b[k]
                ==> r.contains_key(k) && r[k] == a[k]
        }),
{
    law_canvas_steps_keep_later_edits(cur.view_state, before.view_state, after.view_state, k);
}

} // verus!
