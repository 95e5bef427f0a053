use teralib::graphviz::output_graphviz;
use teralib::node::Node;
use teralib::tfstate::TerraformState;
use teralib::{GraphError, TFGraph};

fn local_identity(dir: &str) -> String {
    TerraformState::Local(dir.to_string()).identity_string()
}

#[test]
fn test_node_accessors() {
    let node = Node::new(7, "../test_infrastructure/parent".to_string());
    assert_eq!(node.id(), 7);
    assert_eq!(node.path().as_str(), "../test_infrastructure/parent");
    assert_eq!(node.name(), "parent");
}

#[test]
fn test_node_with_name() {
    let node = Node::new(0, "infra/app".to_string());
    match node {
        Node::Unprocessed(header) => {
            let full = header.with_name("application");
            assert_eq!(full.id, 0);
            assert_eq!(full.path, "infra/app");
            assert_eq!(full.node, "application");
        }
        Node::Processed(_) => panic!("a new node starts unprocessed"),
    }
}

#[test]
fn test_graph_builder() {
    let graph = TFGraph::default()
        .with_root("../test_infrastructure/child".to_string())
        .with_root("../test_infrastructure/parent".to_string())
        .with_root("../test_infrastructure/cycle".to_string());
    let identities = vec![
        local_identity("/infra/child"),
        local_identity("/infra/parent"),
        local_identity("/infra/cycle"),
    ];
    let references = vec![vec![], vec![], vec![]];
    let graph = graph
        .build(identities, references)
        .expect("Unable to construct graph");
    assert_eq!(graph.roots.len(), 3);
    assert_eq!(graph.dependency_list.len(), 3);
    for deps in &graph.dependency_list {
        assert!(deps.is_empty());
    }
}

#[test]
fn test_single_reference_single_edge() {
    let graph = TFGraph::default()
        .with_root("infra/a".to_string())
        .with_root("infra/b".to_string());
    let identities = vec![local_identity("/infra/a"), local_identity("/infra/b")];
    let references = vec![vec![], vec![local_identity("/infra/a")]];
    let graph = graph.build(identities, references).expect("build");
    assert_eq!(graph.roots.len(), 2);
    assert!(graph.dependency_list[0].is_empty());
    assert_eq!(graph.dependency_list[1], vec![0]);
}

#[test]
fn test_unresolved_reference_is_reported() {
    let graph = TFGraph::default().with_root("infra/a".to_string());
    let identities = vec![local_identity("/infra/a")];
    let references = vec![vec![local_identity("/somewhere/else")]];
    let err = graph.build(identities, references).unwrap_err();
    assert!(
        matches!(err, GraphError::UnresolvedReference(s) if s == local_identity("/somewhere/else"))
    );
}

#[test]
fn test_duplicate_identity_is_reported() {
    let graph = TFGraph::default()
        .with_root("infra/a".to_string())
        .with_root("infra/copy-of-a".to_string());
    let identities = vec![local_identity("/infra/a"), local_identity("/infra/a")];
    let references = vec![vec![], vec![]];
    let err = graph.build(identities, references).unwrap_err();
    assert!(matches!(err, GraphError::DuplicateIdentity(s) if s == local_identity("/infra/a")));
}

#[test]
fn test_rebuild_is_idempotent() {
    let make = || {
        TFGraph::default()
            .with_root("infra/a".to_string())
            .with_root("infra/b".to_string())
            .build(
                vec![local_identity("/a"), local_identity("/b")],
                vec![vec![local_identity("/b")], vec![]],
            )
            .expect("build")
    };
    let g1 = make();
    let g2 = make();
    assert_eq!(g1.roots.len(), g2.roots.len());
    assert_eq!(g1.dependency_list, g2.dependency_list);
    assert_eq!(output_graphviz(&g1), output_graphviz(&g2));
}

#[test]
fn test_two_local_roots_one_edge() {
    // Roots A (no references) and B (one remote-state reference to A).
    let graph = TFGraph::default()
        .with_root("roots/A".to_string())
        .with_root("roots/B".to_string());
    let a_identity = local_identity("/roots/A");
    let identities = vec![a_identity.clone(), local_identity("/roots/B")];
    let references = vec![vec![], vec![a_identity]];
    let graph = graph.build(identities, references).expect("build");
    assert_eq!(graph.roots.len(), 2);
    assert_eq!(graph.dependency_list[0], Vec::<u8>::new());
    assert_eq!(graph.dependency_list[1], vec![0]);
}

#[test]
fn test_duplicate_references_keep_duplicates() {
    let graph = TFGraph::default()
        .with_root("infra/a".to_string())
        .with_root("infra/b".to_string());
    let identities = vec![local_identity("/a"), local_identity("/b")];
    let references = vec![vec![], vec![local_identity("/a"), local_identity("/a")]];
    let graph = graph.build(identities, references).expect("build");
    assert_eq!(graph.dependency_list[1], vec![0, 0]);
}

#[test]
fn test_output_graphviz() {
    let graph = TFGraph::default()
        .with_root("../test_infrastructure/child".to_string())
        .with_root("../test_infrastructure/parent".to_string());
    let identities = vec![local_identity("/infra/child"), local_identity("/infra/parent")];
    let references = vec![vec![local_identity("/infra/parent")], vec![]];
    let graph = graph.build(identities, references).expect("build");
    let output = output_graphviz(&graph);
    assert_eq!(
        output,
        "digraph G {\n  0 [label=\"child\"];\n  1 [label=\"parent\"];\n  0 -> 1;\n}\n"
    );
}

#[test]
fn test_output_graphviz_two_digit_ids() {
    let mut graph = TFGraph::default();
    let mut identities = Vec::new();
    let mut references = Vec::new();
    for i in 0..12 {
        graph = graph.with_root(format!("infra/root{}", i));
        identities.push(local_identity(&format!("/infra/root{}", i)));
        references.push(Vec::new());
    }
    references[11].push(local_identity("/infra/root10"));
    let graph = graph.build(identities, references).expect("build");
    let output = output_graphviz(&graph);
    assert!(output.contains("  11 [label=\"root11\"];\n"));
    assert!(output.contains("  11 -> 10;\n"));
}

#[test]
fn test_empty_discovery_is_valid() {
    let graph = TFGraph::default()
        .build(vec![], vec![])
        .expect("an empty root set builds an empty graph");
    assert!(graph.roots.is_empty());
    assert_eq!(output_graphviz(&graph), "digraph G {\n}\n");
}
