use skenion_runtime::nodes::{first_party_core_nodes, CoreNodeConstructor, CoreNodeDescriptor};

static TEST_ALIASES: &[&str] = &["test", "object.test.alias"];

#[test]
fn descriptor_exposes_core_node_metadata() {
    let descriptor =
        CoreNodeDescriptor::new("object.test.node", "Test Node", TEST_ALIASES, CoreNodeConstructor::Audio);

    assert_eq!(descriptor.kind(), "object.test.node");
    assert_eq!(descriptor.display_name(), "Test Node");
    assert_eq!(descriptor.aliases(), TEST_ALIASES);
    assert_eq!(descriptor.constructor(), CoreNodeConstructor::Audio);
    assert_eq!(descriptor.catalog_category(), "Core Audio");
}

#[test]
fn descriptor_maps_non_audio_nodes_to_core_catalog_category() {
    for constructor in [
        CoreNodeConstructor::ControlOperator,
        CoreNodeConstructor::ControlValue,
        CoreNodeConstructor::Subpatch,
        CoreNodeConstructor::BoundaryPort,
    ] {
        let descriptor = CoreNodeDescriptor::new("object.test.node", "Test Node", &[], constructor);
        assert_eq!(descriptor.catalog_category(), "Core");
    }
}

#[test]
fn first_party_catalog_lists_every_core_node_once_with_its_own_kind_as_alias() {
    let nodes = first_party_core_nodes();
    assert_eq!(nodes.len(), 22);
    for (i, node) in nodes.iter().enumerate() {
        assert!(node.aliases().contains(&node.kind()));
        for other in &nodes[i + 1..] {
            assert_ne!(node.kind(), other.kind());
        }
    }
    assert_eq!(nodes[0].kind(), "object.core.operator.add");
    assert_eq!(nodes[0].aliases(), &["+", "add", "object.core.operator.add"]);
    let audio = nodes.iter().filter(|n| n.catalog_category() == "Core Audio").count();
    assert_eq!(audio, 5);
    assert_eq!(nodes[21].kind(), "object.core.outlet");
    assert_eq!(nodes[21].constructor(), CoreNodeConstructor::BoundaryPort);
}
