use skenion_runtime::history::{
    apply_graph_history_delta_current, project_document_history_delta,
    view_state_history_delta_current, CanvasNodeView, GraphDocumentCurrent, HistoryDirection,
    HistoryEdge, HistoryNode, PatchDefinitionCurrent, ProjectDocumentCurrent, ViewState,
};

fn n(id: &str, body: &str) -> HistoryNode {
    HistoryNode { id: id.to_owned(), body: body.to_owned() }
}

fn e(id: &str, source: &str, target: &str) -> HistoryEdge {
    HistoryEdge { id: id.to_owned(), source_node_id: source.to_owned(), target_node_id: target.to_owned(), body: "{}".to_owned() }
}

fn g(nodes: Vec<HistoryNode>, edges: Vec<HistoryEdge>) -> GraphDocumentCurrent {
    GraphDocumentCurrent { revision: "1".to_owned(), nodes, edges, body: "{}".to_owned() }
}

fn canvas(entries: &[(&str, &str)], viewport: Option<&str>) -> ViewState {
    ViewState {
        canvas_nodes: entries
            .iter()
            .map(|(id, view)| CanvasNodeView { node_id: (*id).to_owned(), view: (*view).to_owned() })
            .collect(),
        viewport: viewport.map(str::to_owned),
        body: "{}".to_owned(),
    }
}

fn canvas_view(v: &ViewState, id: &str) -> Option<String> {
    v.canvas_nodes.iter().find(|c| c.node_id == id).map(|c| c.view.clone())
}

fn ids(graph: &GraphDocumentCurrent) -> Vec<&str> {
    graph.nodes.iter().map(|node| node.id.as_str()).collect()
}

#[test]
fn undo_removes_added_nodes_and_their_edges_and_reverts_changes() {
    let before = g(vec![n("a", "1"), n("b", "1")], vec![e("ab", "a", "b")]);
    let after = g(vec![n("a", "2"), n("b", "1"), n("c", "1")], vec![e("ab", "a", "b"), e("bc", "b", "c")]);
    let mut current = g(vec![n("a", "2"), n("b", "1"), n("c", "1")], vec![e("ab", "a", "b"), e("bc", "b", "c"), e("ca", "c", "a")]);

    let changed = apply_graph_history_delta_current(&mut current, &before, &after, HistoryDirection::Undo);

    assert!(changed);
    assert_eq!(ids(&current), vec!["a", "b"]);
    assert_eq!(current.nodes[0].body, "1");
    assert_eq!(current.edges, vec![e("ab", "a", "b")]);
}

#[test]
fn undo_keeps_nodes_edited_after_the_step() {
    let before = g(vec![n("a", "1")], Vec::new());
    let after = g(vec![n("a", "2")], Vec::new());
    let mut current = g(vec![n("a", "3")], Vec::new());

    let changed = apply_graph_history_delta_current(&mut current, &before, &after, HistoryDirection::Undo);

    assert!(!changed);
    assert_eq!(current.nodes, vec![n("a", "3")]);
}

#[test]
fn redo_brings_back_added_nodes_and_edges() {
    let before = g(vec![n("a", "1")], Vec::new());
    let after = g(vec![n("a", "2"), n("b", "1")], vec![e("ab", "a", "b"), e("bx", "b", "x")]);
    let mut current = g(vec![n("a", "1")], Vec::new());

    let changed = apply_graph_history_delta_current(&mut current, &before, &after, HistoryDirection::Redo);

    assert!(changed);
    assert_eq!(current.nodes, vec![n("a", "2"), n("b", "1")]);
    assert_eq!(current.edges, vec![e("ab", "a", "b")]);

    let again = apply_graph_history_delta_current(&mut current, &before, &after, HistoryDirection::Redo);
    assert!(!again);
}

#[test]
fn view_state_steps_follow_the_canvas_and_clear_the_viewport() {
    let before = canvas(&[("a", "p1")], None);
    let after = canvas(&[("a", "p2"), ("b", "p1")], None);
    let current = canvas(&[("a", "p2"), ("b", "p1")], Some("zoom"));

    let undone = view_state_history_delta_current(&current, &before, &after, HistoryDirection::Undo);
    assert_eq!(canvas_view(&undone, "a").as_deref(), Some("p1"));
    assert_eq!(canvas_view(&undone, "b"), None);
    assert_eq!(undone.viewport, None);

    let redone = view_state_history_delta_current(&undone, &before, &after, HistoryDirection::Redo);
    assert_eq!(canvas_view(&redone, "a").as_deref(), Some("p2"));
    assert_eq!(canvas_view(&redone, "b").as_deref(), Some("p1"));
    assert_eq!(redone.canvas_nodes.len(), 2);
}

fn project(graph: GraphDocumentCurrent, view_state: ViewState, patches: Vec<PatchDefinitionCurrent>) -> ProjectDocumentCurrent {
    ProjectDocumentCurrent { graph, view_state, patch_library: patches, body: "{}".to_owned() }
}

fn patch(id: &str, graph: GraphDocumentCurrent) -> PatchDefinitionCurrent {
    PatchDefinitionCurrent { id: id.to_owned(), revision: graph.revision.clone(), graph, body: "{}".to_owned() }
}

#[test]
fn project_at_the_end_of_a_step_undoes_to_its_start_exactly() {
    let before = project(g(vec![n("a", "1")], Vec::new()), canvas(&[], None), Vec::new());
    let after = project(g(vec![n("a", "1"), n("b", "1")], Vec::new()), canvas(&[("b", "p")], Some("v")), Vec::new());

    let undone = project_document_history_delta(&after, &before, &after, HistoryDirection::Undo, &Vec::new());
    assert_eq!(undone, before);

    let redone = project_document_history_delta(&before, &before, &after, HistoryDirection::Redo, &Vec::new());
    assert_eq!(redone, after);
}

#[test]
fn project_steps_apply_to_patches_and_move_changed_ones_to_the_next_revision() {
    let before = project(g(Vec::new(), Vec::new()), canvas(&[], None), vec![patch("p", g(vec![n("x", "1")], Vec::new()))]);
    let after = project(
        g(Vec::new(), Vec::new()),
        canvas(&[], None),
        vec![patch("p", g(vec![n("x", "1"), n("y", "1")], Vec::new()))],
    );
    let mut current = after.clone();
    current.body = "{\"title\":\"edited\"}".to_owned();
    current.view_state.viewport = Some("v".to_owned());

    let undone = project_document_history_delta(&current, &before, &after, HistoryDirection::Undo, &vec!["2".to_owned()]);

    assert_eq!(undone.body, current.body);
    assert_eq!(undone.view_state.viewport, None);
    assert_eq!(ids(&undone.patch_library[0].graph), vec!["x"]);
    assert_eq!(undone.patch_library[0].revision, "2");
    assert_eq!(undone.patch_library[0].graph.revision, "2");
}

#[test]
fn redo_twice_leaves_the_graph_as_one_redo_did() {
    let before = g(vec![n("a", "1"), n("k", "1")], vec![e("ak", "a", "k")]);
    let after = g(vec![n("a", "2"), n("k", "1"), n("c", "1")], vec![e("ak", "a", "k"), e("ac", "a", "c")]);
    let mut current = g(vec![n("a", "1"), n("z", "9")], Vec::new());

    assert!(apply_graph_history_delta_current(&mut current, &before, &after, HistoryDirection::Redo));
    let once = current.clone();
    assert_eq!(ids(&once), vec!["a", "z", "c"]);

    let again = apply_graph_history_delta_current(&mut current, &before, &after, HistoryDirection::Redo);
    assert!(!again);
    assert_eq!(current, once);
}

#[test]
fn redo_then_undo_from_the_start_of_a_step_gives_it_back() {
    let before = g(vec![n("a", "1"), n("b", "1")], vec![e("ab", "a", "b")]);
    let after = g(vec![n("b", "2"), n("c", "1"), n("a", "1")], vec![e("bc", "b", "c"), e("ab", "a", "b")]);
    let mut current = before.clone();

    assert!(apply_graph_history_delta_current(&mut current, &before, &after, HistoryDirection::Redo));
    assert_eq!(current.nodes, vec![n("a", "1"), n("b", "2"), n("c", "1")]);
    assert!(apply_graph_history_delta_current(&mut current, &before, &after, HistoryDirection::Undo));
    assert_eq!(current, before);
}
